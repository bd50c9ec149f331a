use vstd::prelude::*;
use crate::storage::db::db_error::DbError;
use crate::sync::metrics::MetricEvent;
use crate::sync::pipeline_control_flow::PipelineControlFlow;
use crate::sync::pipeline_error::PipelineError;
use crate::sync::pipeline_event::PipelineEvent;
use crate::sync::stage::{
    StageExecutionError, StageExecutionInput, StageExecutionOutput, StageRollbackInput,
    StageRollbackOutput,
};
use crate::sync::stage_id::StageId;

verus! {

/// What a pipeline is set up with.
#[derive(Clone, Copy, Debug, PartialEq, Eq)]
pub struct PipelineConfig {
    /// The pipeline will start by rolling back to this block.
    pub startWithRollbackToBlock: Option<u64>,
    /// The synchronization process will stop after reaching this block.
    pub stopSyncAfterReachingBlock: Option<u64>,
    /// Whether the run ends once the synchronization is done, instead of
    /// going over the queue again and again.
    pub exitAfterSync: bool,
}

/// Where a run of the pipeline stands, which is also what it waits for.
#[derive(Clone, Copy, Debug, PartialEq, Eq)]
#[allow(inconsistent_fields)]
pub enum PipelinePhase {
    /// The run has not begun.
    Created,
    /// Between two passes: waiting to be told the tip of the chain.
    AwaitingTip,
    /// In a pass: waiting for stage `stage` to have run forward.
    Executing { stage: usize, tip: u64, target: u64 },
    /// In a pass: waiting for the transaction of stage `stage`, which ran
    /// forward and reported `output`, to be committed.
    CommittingExecution { stage: usize, tip: u64, target: u64, output: StageExecutionOutput },
    /// In a rollback: waiting for the stage at `position` of the rollback
    /// order to have rolled back.
    RollingBack { position: usize, targetBlock: u64, responsibleBadBlock: Option<u64> },
    /// In a rollback: waiting for the transaction of the stage at `position`
    /// of the rollback order, which reported `output`, to be committed.
    CommittingRollback {
        position: usize,
        targetBlock: u64,
        responsibleBadBlock: Option<u64>,
        output: StageRollbackOutput,
    },
    /// The run has ended with success.
    Finished,
    /// The run has ended with an error.
    Failed,
}

/// Why a stage was passed over.
#[derive(Clone, Copy, Debug, PartialEq, Eq)]
pub enum SkipReason {
    /// The stage already stands at the target of the pass, or beyond.
    CheckpointReachedTarget,
    /// The stage runs only at the tip of the chain, which the stage that ran
    /// before it in this pass has not reached.
    ChainTipNotReached,
}

/// The notice that a stage was passed over.
#[derive(Clone, Copy, Debug, PartialEq, Eq)]
pub struct SkippedStage {
    pub stageId: StageId,
    pub reason: SkipReason,
}

/// What the driver reports to the pipeline.
#[derive(Debug, PartialEq, Eq)]
pub enum PipelineInput {
    /// The run begins.
    Start,
    /// The tip of the chain, as observed outside.
    Tip(u64),
    /// What the stage answered when it was run forward.
    Executed(Result<StageExecutionOutput, StageExecutionError>),
    /// What the stage answered when it was rolled back.
    RolledBack(Result<StageRollbackOutput, String>),
    /// What the store answered when the transaction was committed.
    Committed(Result<bool, DbError>),
}

/// What the pipeline asks the driver to do next.
#[derive(Debug, PartialEq, Eq)]
#[allow(inconsistent_fields)]
pub enum PipelineAction {
    /// Report the tip of the chain; with `wait`, only once it has changed.
    ObserveTip { wait: bool },
    /// Open a transaction, run the stage at this place of the queue forward
    /// in it, and report what it answered.
    Execute { stage: usize, input: StageExecutionInput },
    /// Open a transaction, roll the stage at this place of the queue back in
    /// it, and report what it answered.
    Rollback { stage: usize, input: StageRollbackInput },
    /// Store the checkpoint of the stage at this place of the queue, commit
    /// the transaction that is open, and report what the store answered.
    Commit { stage: usize, checkpoint: u64 },
    /// Nothing more: the run has ended.
    Finish(Result<(), PipelineError>),
}

/// One step of the pipeline: what is to be broadcast, and what is to be done.
#[derive(Debug, PartialEq, Eq)]
pub struct PipelineStep {
    /// Whether the transaction that is open is to be dropped uncommitted.
    pub discardTransaction: bool,
    /// The events to broadcast, in this order.
    pub events: Vec<PipelineEvent>,
    /// The metrics to broadcast, in this order.
    pub metrics: Vec<MetricEvent>,
    /// The stages that were passed over, in the order of the queue.
    pub skipped: Vec<SkippedStage>,
    /// How the pass ended, where this step ends one.
    pub controlFlow: Option<PipelineControlFlow>,
    pub action: PipelineAction,
}

/// A step of the pipeline as a value of mathematics.
pub struct PipelineStepView {
    pub discardTransaction: bool,
    pub events: Seq<PipelineEvent>,
    pub metrics: Seq<MetricEvent>,
    pub skipped: Seq<SkippedStage>,
    pub controlFlow: Option<PipelineControlFlow>,
    pub action: PipelineAction,
}

impl View for PipelineStep {
    type V = PipelineStepView;

    open spec fn view(&self) -> PipelineStepView {
        PipelineStepView {
            discardTransaction: self.discardTransaction,
            events: self.events@,
            metrics: self.metrics@,
            skipped: self.skipped@,
            controlFlow: self.controlFlow,
            action: self.action,
        }
    }
}

} // verus!
