use vstd::prelude::*;
use crate::sync::stage_checkpoint::StageCheckpoint;
use crate::sync::stage_id::StageId;

verus! {

#[derive(Clone, Copy, Debug, PartialEq, Eq)]
pub enum MetricEvent {
    /// Stage reached new checkpoint.
    StageReachedCheckpoint {
        stageId: StageId,
        checkpoint: StageCheckpoint,
        knownLatestBlockReachableByStage: Option<u64>,
    },
}

} // verus!
