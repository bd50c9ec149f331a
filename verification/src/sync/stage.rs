use vstd::prelude::*;
use crate::sync::stage_id::StageId;

verus! {

/// What the pipeline hands to a stage when it asks it to run forward.
#[derive(Clone, Copy, Debug, PartialEq, Eq)]
pub struct StageExecutionInput {
    /// The stage before this one in the queue, with the block it stands at.
    pub previousStageInfo: Option<(StageId, u64)>,
    /// The block this stage reached when it last ran, if it ever ran.
    pub blockReachedDuringLastExecution: Option<u64>,
}

/// What a stage reports after running forward.
#[derive(Clone, Copy, Debug, PartialEq, Eq)]
pub struct StageExecutionOutput {
    pub blockReached: u64,
    pub executionCompleted: bool,
    pub reachedChainTip: bool,
}

/// Why a stage could not run forward.
#[derive(Debug, PartialEq, Eq)]
pub enum StageExecutionError {
    /// The stage met data that fails validation; the pipeline has to roll
    /// back to the block before the one held responsible.
    InvalidState { responsibleBadBlock: Option<u64> },
    /// Any other failure. It says nothing about the data and ends the run.
    Internal(String),
}

/// What the pipeline hands to a stage when it asks it to undo its work.
#[derive(Clone, Copy, Debug, PartialEq, Eq)]
pub struct StageRollbackInput {
    pub currentBlock: u64,
    pub targetBlock: u64,
    pub responsibleBadBlock: Option<u64>,
}

/// What a stage reports after undoing its work.
#[derive(Clone, Copy, Debug, PartialEq, Eq)]
pub struct StageRollbackOutput {
    pub blockReached: u64,
}

/// The handle a stage works through while it runs or rolls back.
pub trait DbTransaction {
}

} // verus!
