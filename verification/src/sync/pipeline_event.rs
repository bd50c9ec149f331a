use vstd::prelude::*;
use crate::sync::stage::{StageExecutionOutput, StageRollbackInput, StageRollbackOutput};
use crate::sync::stage_id::StageId;

verus! {

#[derive(Clone, Copy, Debug, PartialEq, Eq)]
#[allow(inconsistent_fields)]
pub enum PipelineEvent {
    /// Emitted right before running a stage.
    Running { stageId: StageId, blockReachedDuringPreviousExecution: Option<u64> },
    /// Emitted when a stage has just finished running.
    Ran { stageId: StageId, result: Option<StageExecutionOutput> },
    /// Emitted right before a stage is about to roll back.
    Rollbacking { stageId: StageId, result: Option<StageRollbackInput> },
    /// Emitted right after a stage has rolled back.
    Rollbacked { stageId: StageId, result: Option<StageRollbackOutput> },
}

} // verus!
