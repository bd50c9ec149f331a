use vstd::prelude::*;
use crate::sync::stage_id::StageId;

verus! {

/// A stage as the pipeline schedules it. The stage object itself stays with
/// whoever drives the pipeline; the queue holds its name and the two facts
/// that scheduling depends on.
#[derive(Clone, Copy, Debug, PartialEq, Eq)]
pub struct QueuedStage {
    pub stageId: StageId,
    /// Stages with higher rollback-priority are rolled back first.
    pub rollbackPriority: usize,
    /// Whether the stage runs only once the stage before it has reached the
    /// tip of the chain in the same pass.
    pub executionRequiresReachingChainTip: bool,
}

} // verus!
