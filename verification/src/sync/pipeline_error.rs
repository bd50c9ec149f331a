use vstd::prelude::*;
use crate::storage::db::db_error::DbError;
use crate::sync::stage_id::StageId;

verus! {

/// Why a run of the pipeline ended without success. Each variant about a
/// stage names it and the checkpoint it stood at when it failed.
#[derive(Debug, PartialEq, Eq)]
pub enum PipelineError {
    /// A stage failed to run forward, for a reason other than the data.
    StageExecution { stageId: StageId, checkpoint: Option<u64>, message: String },
    /// A stage failed to roll back.
    StageRollback { stageId: StageId, checkpoint: Option<u64>, message: String },
    /// The transaction of a stage could not be committed.
    Commit { stageId: StageId, checkpoint: Option<u64>, error: DbError },
    /// The driver reported something the pipeline was not waiting for.
    UnexpectedInput,
}

} // verus!
