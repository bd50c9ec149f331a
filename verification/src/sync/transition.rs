use vstd::prelude::*;
use crate::storage::db::db_error::DbError;
use crate::sync::metrics::MetricEvent;
use crate::sync::pipeline_control_flow::PipelineControlFlow;
use crate::sync::pipeline_error::PipelineError;
use crate::sync::pipeline_event::PipelineEvent;
use crate::sync::pipeline_state::{fresh_state, recorded, PipelineState};
use crate::sync::pipeline_step::{
    PipelineAction, PipelineConfig, PipelineInput, PipelinePhase, PipelineStepView, SkipReason,
    SkippedStage,
};
use crate::sync::queued_stage::QueuedStage;
use crate::sync::rollback::{rollback_order, rollback_target};
use crate::sync::stage::{
    StageExecutionError, StageExecutionInput, StageExecutionOutput, StageRollbackInput,
    StageRollbackOutput,
};
use crate::sync::stage_checkpoint::{height, StageCheckpoint};

verus! {

/// A pipeline as a value of mathematics: the queue, the settings, the
/// checkpoint of each stage of the queue, and where the run stands.
pub struct PipelineModel {
    pub stages: Seq<QueuedStage>,
    pub config: PipelineConfig,
    pub checkpoints: Seq<Option<u64>>,
    pub state: PipelineState,
    pub phase: PipelinePhase,
    /// The order of the rollback that is going on, or of the last one.
    pub rollbackOrder: Seq<usize>,
}

/// What a step leads to: the pipeline after it, and what it asks for.
pub struct Transition {
    pub next: PipelineModel,
    pub step: PipelineStepView,
}

/// The lowest of the tip of the chain, the block to stop at where one is
/// set, and the block the stage before stands at where there is one.
pub open spec fn effective_target(tip: u64, stop: Option<u64>, previous: Option<u64>) -> u64 {
    let bounded = match stop {
        Some(stop) if stop < tip => stop,
        _ => tip,
    };
    match previous {
        Some(previous) if previous < bounded => previous,
        _ => bounded,
    }
}

/// The pipeline nothing has been done to: no stage is queued, nothing is
/// set, and the run has not begun.
pub open spec fn empty_pipeline() -> PipelineModel {
    PipelineModel {
        stages: Seq::empty(),
        config: PipelineConfig {
            startWithRollbackToBlock: None,
            stopSyncAfterReachingBlock: None,
            exitAfterSync: false,
        },
        checkpoints: Seq::empty(),
        state: fresh_state(),
        phase: PipelinePhase::Created,
        rollbackOrder: Seq::empty(),
    }
}

/// Whether every one of the checkpoints stands at `block` or beyond.
pub open spec fn all_at_or_beyond(checkpoints: Seq<Option<u64>>, block: u64) -> bool {
    forall|i: int| 0 <= i < checkpoints.len() ==> height(#[trigger] checkpoints[i]) >= block
}

/// Whether a run with these settings, checkpoints and state is over: it is
/// to end after the synchronization, and either every stage has reached the
/// block to stop at, or none is set and a pass has gone over the whole queue.
pub open spec fn run_is_over(
    config: PipelineConfig,
    checkpoints: Seq<Option<u64>>,
    state: PipelineState,
) -> bool {
    config.exitAfterSync && match config.stopSyncAfterReachingBlock {
        Some(stop) => all_at_or_beyond(checkpoints, stop),
        None => state.passCompleted,
    }
}

impl PipelineModel {
    /// Whether the parts of the pipeline fit together: each stage of the queue
    /// has its checkpoint, no two stages share a name, and the rollback order
    /// holds places of the queue.
    pub open spec fn shaped(self) -> bool {
        &&& self.stages.len() == self.checkpoints.len()
        &&& self.stages.len() <= usize::MAX
        &&& self.rollbackOrder.len() <= usize::MAX
        &&& forall|i: int, j: int|
            0 <= i < j < self.stages.len() ==> (#[trigger] self.stages[i]).stageId@
                != (#[trigger] self.stages[j]).stageId@
        &&& forall|k: int|
            0 <= k < self.rollbackOrder.len() ==> (#[trigger] self.rollbackOrder[k])
                < self.stages.len()
    }

    /// Whether the pipeline is well formed: its parts fit together, and the
    /// run waits for a stage that there is.
    pub open spec fn wf(self) -> bool {
        &&& self.shaped()
        &&& match self.phase {
            PipelinePhase::Executing { stage, .. } => stage < self.stages.len(),
            PipelinePhase::CommittingExecution { stage, .. } => stage < self.stages.len(),
            PipelinePhase::RollingBack { position, .. } => position < self.rollbackOrder.len(),
            PipelinePhase::CommittingRollback { position, .. } => position
                < self.rollbackOrder.len(),
            _ => true,
        }
    }

    /// Whether a stage of this name is queued.
    pub open spec fn has_stage(self, name: Seq<char>) -> bool {
        exists|i: int| 0 <= i < self.stages.len() && (#[trigger] self.stages[i]).stageId@ == name
    }

    /// The block the stage before stage `i` stands at, where there is one.
    pub open spec fn bound_by_previous(self, i: int) -> Option<u64> {
        if i > 0 {
            Some(height(self.checkpoints[i - 1]))
        } else {
            None
        }
    }

    /// The block up to which stage `i` may run in a pass that was told `tip`.
    pub open spec fn target(self, tip: u64, i: int) -> u64 {
        effective_target(tip, self.config.stopSyncAfterReachingBlock, self.bound_by_previous(i))
    }

    /// Why stage `i` is passed over in a pass that was told `tip`, if it is.
    pub open spec fn skip_reason(self, tip: u64, i: int) -> Option<SkipReason> {
        if height(self.checkpoints[i]) >= self.target(tip, i) {
            Some(SkipReason::CheckpointReachedTarget)
        } else if self.stages[i].executionRequiresReachingChainTip && !self.state.reachedChainTip {
            Some(SkipReason::ChainTipNotReached)
        } else {
            None
        }
    }

    /// The first stage from `from` on that is not passed over, or the length
    /// of the queue where all of them are.
    pub open spec fn next_runnable(self, tip: u64, from: int) -> int
        decreases self.stages.len() - from,
    {
        if from >= self.stages.len() {
            self.stages.len() as int
        } else if self.skip_reason(tip, from) is None {
            from
        } else {
            self.next_runnable(tip, from + 1)
        }
    }

    /// The notices for the stages from `from` up to `upto`, all passed over.
    pub open spec fn skip_notices(self, tip: u64, from: int, upto: int) -> Seq<SkippedStage> {
        Seq::new(
            (upto - from) as nat,
            |k: int|
                SkippedStage {
                    stageId: self.stages[from + k].stageId,
                    reason: self.skip_reason(tip, from + k).unwrap(),
                },
        )
    }

    /// What stage `i` is handed when it is asked to run forward.
    pub open spec fn execution_input(self, i: int) -> StageExecutionInput {
        StageExecutionInput {
            previousStageInfo: if i > 0 {
                Some((self.stages[i - 1].stageId, height(self.checkpoints[i - 1])))
            } else {
                None
            },
            blockReachedDuringLastExecution: self.checkpoints[i],
        }
    }

    /// Whether every stage stands at `block` or beyond.
    pub open spec fn all_reached(self, block: u64) -> bool {
        all_at_or_beyond(self.checkpoints, block)
    }

    /// Whether the run is over: it is to end after the synchronization, and
    /// either every stage has reached the block to stop at, or none is set
    /// and a pass has gone over the whole queue.
    pub open spec fn should_exit(self) -> bool {
        run_is_over(self.config, self.checkpoints, self.state)
    }

    /// The checkpoint of each stage of the queue, as a metric.
    pub open spec fn progress_metrics(self) -> Seq<MetricEvent> {
        Seq::new(
            self.stages.len(),
            |i: int|
                MetricEvent::StageReachedCheckpoint {
                    stageId: self.stages[i].stageId,
                    checkpoint: StageCheckpoint { blockNumber: height(self.checkpoints[i]) },
                    knownLatestBlockReachableByStage: None,
                },
        )
    }

    /// Between two passes, or before the first: the run ends if it is over,
    /// and else asks for the tip of the chain.
    pub open spec fn between_passes(
        self,
        discard: bool,
        events: Seq<PipelineEvent>,
        metrics: Seq<MetricEvent>,
        skipped: Seq<SkippedStage>,
        controlFlow: Option<PipelineControlFlow>,
        wait: bool,
    ) -> Transition {
        if self.should_exit() {
            Transition {
                next: PipelineModel { phase: PipelinePhase::Finished, ..self },
                step: PipelineStepView {
                    discardTransaction: discard,
                    events,
                    metrics,
                    skipped,
                    controlFlow,
                    action: PipelineAction::Finish(Ok(())),
                },
            }
        } else {
            Transition {
                next: PipelineModel { phase: PipelinePhase::AwaitingTip, ..self },
                step: PipelineStepView {
                    discardTransaction: discard,
                    events,
                    metrics,
                    skipped,
                    controlFlow,
                    action: PipelineAction::ObserveTip { wait },
                },
            }
        }
    }

    /// The pass goes on from stage `from`: the stages that have nothing to do
    /// are passed over, and the first that has is run. Where none is left the
    /// pass ends, with `Continue` if anything moved in it.
    pub open spec fn forward(
        self,
        tip: u64,
        from: int,
        events: Seq<PipelineEvent>,
        metrics: Seq<MetricEvent>,
    ) -> Transition {
        let stage = self.next_runnable(tip, from);
        let skipped = self.skip_notices(tip, from, stage);
        if stage < self.stages.len() {
            Transition {
                next: PipelineModel {
                    phase: PipelinePhase::Executing {
                        stage: stage as usize,
                        tip,
                        target: self.target(tip, stage),
                    },
                    ..self
                },
                step: PipelineStepView {
                    discardTransaction: false,
                    events: events.push(
                        PipelineEvent::Running {
                            stageId: self.stages[stage].stageId,
                            blockReachedDuringPreviousExecution: self.checkpoints[stage],
                        },
                    ),
                    metrics,
                    skipped,
                    controlFlow: None,
                    action: PipelineAction::Execute {
                        stage: stage as usize,
                        input: self.execution_input(stage),
                    },
                },
            }
        } else {
            let state = PipelineState { passCompleted: true, ..self.state };
            let flow = if state.madeProgress {
                PipelineControlFlow::Continue {
                    mostRecentBlockReached: state.mostRecentBlockReached,
                    reachedChainTip: state.reachedChainTip,
                }
            } else {
                PipelineControlFlow::NoProgress {
                    mostRecentBlockReached: state.mostRecentBlockReached,
                    reachedChainTip: state.reachedChainTip,
                }
            };
            PipelineModel { state, ..self }.between_passes(
                false,
                events,
                metrics,
                skipped,
                Some(flow),
                !state.madeProgress,
            )
        }
    }

    /// The rollback goes on from `position` of the rollback order: the stage
    /// there is told to roll back to the target. Where none is left the
    /// rollback is over, and with it the pass.
    pub open spec fn continue_rollback(
        self,
        position: int,
        targetBlock: u64,
        responsibleBadBlock: Option<u64>,
        discard: bool,
        events: Seq<PipelineEvent>,
        metrics: Seq<MetricEvent>,
    ) -> Transition {
        if position < self.rollbackOrder.len() {
            let stage = self.rollbackOrder[position];
            let input = StageRollbackInput {
                currentBlock: height(self.checkpoints[stage as int]),
                targetBlock,
                responsibleBadBlock,
            };
            Transition {
                next: PipelineModel {
                    phase: PipelinePhase::RollingBack {
                        position: position as usize,
                        targetBlock,
                        responsibleBadBlock,
                    },
                    ..self
                },
                step: PipelineStepView {
                    discardTransaction: discard,
                    events: events.push(
                        PipelineEvent::Rollbacking {
                            stageId: self.stages[stage as int].stageId,
                            result: Some(input),
                        },
                    ),
                    metrics,
                    skipped: Seq::empty(),
                    controlFlow: None,
                    action: PipelineAction::Rollback { stage, input },
                },
            }
        } else {
            let state = PipelineState {
                reachedChainTip: false,
                madeProgress: true,
                passCompleted: false,
                ..self.state
            };
            PipelineModel { state, ..self }.between_passes(
                discard,
                events,
                metrics,
                Seq::empty(),
                Some(
                    PipelineControlFlow::Continue {
                        mostRecentBlockReached: state.mostRecentBlockReached,
                        reachedChainTip: false,
                    },
                ),
                false,
            )
        }
    }

    /// A rollback to `targetBlock` begins: its order is fixed, and its first
    /// stage is told to roll back.
    pub open spec fn begin_rollback(
        self,
        targetBlock: u64,
        responsibleBadBlock: Option<u64>,
        discard: bool,
        metrics: Seq<MetricEvent>,
    ) -> Transition {
        PipelineModel {
            rollbackOrder: rollback_order(self.stages, self.checkpoints, targetBlock),
            ..self
        }.continue_rollback(
            0,
            targetBlock,
            responsibleBadBlock,
            discard,
            Seq::empty(),
            metrics,
        )
    }

    /// The run ends with an error.
    pub open spec fn fail(self, discard: bool, error: PipelineError) -> Transition {
        Transition {
            next: PipelineModel { phase: PipelinePhase::Failed, ..self },
            step: PipelineStepView {
                discardTransaction: discard,
                events: Seq::empty(),
                metrics: Seq::empty(),
                skipped: Seq::empty(),
                controlFlow: None,
                action: PipelineAction::Finish(Err(error)),
            },
        }
    }

    /// Whether a transaction is open while the run stands in this phase.
    pub open spec fn holds_transaction(self) -> bool {
        match self.phase {
            PipelinePhase::Executing { .. } => true,
            PipelinePhase::CommittingExecution { .. } => true,
            PipelinePhase::RollingBack { .. } => true,
            PipelinePhase::CommittingRollback { .. } => true,
            _ => false,
        }
    }

    /// The run begins: the checkpoint of each stage goes out as a metric;
    /// then comes the rollback that was asked for, if one was, and else the
    /// first pass.
    pub open spec fn on_start(self) -> Transition {
        match self.config.startWithRollbackToBlock {
            Some(targetBlock) => self.begin_rollback(
                targetBlock,
                None,
                false,
                self.progress_metrics(),
            ),
            None => self.between_passes(
                false,
                Seq::empty(),
                self.progress_metrics(),
                Seq::empty(),
                None,
                false,
            ),
        }
    }

    /// A pass begins with the tip it was told.
    pub open spec fn on_tip(self, tip: u64) -> Transition {
        PipelineModel {
            state: PipelineState { reachedChainTip: false, madeProgress: false, ..self.state },
            ..self
        }.forward(tip, 0, Seq::empty(), Seq::empty())
    }

    /// Stage `stage` has answered to having been run forward. What it
    /// reached is committed; data it found invalid is rolled back; any other
    /// failure ends the run, and nothing is committed.
    pub open spec fn on_executed(
        self,
        stage: usize,
        tip: u64,
        target: u64,
        result: Result<StageExecutionOutput, StageExecutionError>,
    ) -> Transition {
        match result {
            Ok(output) => Transition {
                next: PipelineModel {
                    phase: PipelinePhase::CommittingExecution { stage, tip, target, output },
                    ..self
                },
                step: PipelineStepView {
                    discardTransaction: false,
                    events: Seq::empty(),
                    metrics: Seq::empty(),
                    skipped: Seq::empty(),
                    controlFlow: None,
                    action: PipelineAction::Commit { stage, checkpoint: output.blockReached },
                },
            },
            Err(StageExecutionError::InvalidState { responsibleBadBlock }) => self.begin_rollback(
                rollback_target(responsibleBadBlock, height(self.checkpoints[stage as int])),
                responsibleBadBlock,
                true,
                Seq::empty(),
            ),
            Err(StageExecutionError::Internal(message)) => self.fail(
                true,
                PipelineError::StageExecution {
                    stageId: self.stages[stage as int].stageId,
                    checkpoint: self.checkpoints[stage as int],
                    message,
                },
            ),
        }
    }

    /// The transaction of stage `stage`, which had run forward, has been
    /// committed or not. Committed, the checkpoint of the stage becomes what
    /// it reached, and the pass goes on behind it.
    pub open spec fn on_execution_committed(
        self,
        stage: usize,
        tip: u64,
        target: u64,
        output: StageExecutionOutput,
        result: Result<bool, DbError>,
    ) -> Transition {
        match result {
            Ok(_) => {
                let moved = self.checkpoints[stage as int] != Some(output.blockReached)
                    || !output.executionCompleted;
                let state = PipelineState {
                    reachedChainTip: output.reachedChainTip,
                    madeProgress: self.state.madeProgress || moved,
                    ..recorded(self.state, output.blockReached)
                };
                PipelineModel {
                    checkpoints: self.checkpoints.update(stage as int, Some(output.blockReached)),
                    state,
                    ..self
                }.forward(
                    tip,
                    stage + 1,
                    seq![
                        PipelineEvent::Ran {
                            stageId: self.stages[stage as int].stageId,
                            result: Some(output),
                        },
                    ],
                    seq![
                        MetricEvent::StageReachedCheckpoint {
                            stageId: self.stages[stage as int].stageId,
                            checkpoint: StageCheckpoint { blockNumber: output.blockReached },
                            knownLatestBlockReachableByStage: Some(target),
                        },
                    ],
                )
            },
            Err(error) => self.fail(
                false,
                PipelineError::Commit {
                    stageId: self.stages[stage as int].stageId,
                    checkpoint: self.checkpoints[stage as int],
                    error,
                },
            ),
        }
    }

    /// The stage at `position` of the rollback order has answered to having
    /// been rolled back. What it reached is committed; a failure ends the
    /// run, and nothing is committed.
    pub open spec fn on_rolled_back(
        self,
        position: usize,
        targetBlock: u64,
        responsibleBadBlock: Option<u64>,
        result: Result<StageRollbackOutput, String>,
    ) -> Transition {
        let stage = self.rollbackOrder[position as int];
        match result {
            Ok(output) => Transition {
                next: PipelineModel {
                    phase: PipelinePhase::CommittingRollback {
                        position,
                        targetBlock,
                        responsibleBadBlock,
                        output,
                    },
                    ..self
                },
                step: PipelineStepView {
                    discardTransaction: false,
                    events: Seq::empty(),
                    metrics: Seq::empty(),
                    skipped: Seq::empty(),
                    controlFlow: None,
                    action: PipelineAction::Commit { stage, checkpoint: output.blockReached },
                },
            },
            Err(message) => self.fail(
                true,
                PipelineError::StageRollback {
                    stageId: self.stages[stage as int].stageId,
                    checkpoint: self.checkpoints[stage as int],
                    message,
                },
            ),
        }
    }

    /// The transaction of the stage at `position` of the rollback order,
    /// which had rolled back, has been committed or not. Committed, the
    /// checkpoint of the stage becomes what it reached, and the rollback goes
    /// on with the stage behind it in the order.
    pub open spec fn on_rollback_committed(
        self,
        position: usize,
        targetBlock: u64,
        responsibleBadBlock: Option<u64>,
        output: StageRollbackOutput,
        result: Result<bool, DbError>,
    ) -> Transition {
        let stage = self.rollbackOrder[position as int];
        match result {
            Ok(_) => PipelineModel {
                checkpoints: self.checkpoints.update(stage as int, Some(output.blockReached)),
                state: recorded(self.state, output.blockReached),
                ..self
            }.continue_rollback(
                position + 1,
                targetBlock,
                responsibleBadBlock,
                false,
                seq![
                    PipelineEvent::Rollbacked {
                        stageId: self.stages[stage as int].stageId,
                        result: Some(output),
                    },
                ],
                Seq::empty(),
            ),
            Err(error) => self.fail(
                false,
                PipelineError::Commit {
                    stageId: self.stages[stage as int].stageId,
                    checkpoint: self.checkpoints[stage as int],
                    error,
                },
            ),
        }
    }

    /// The driver has reported something the run was not waiting for: the
    /// run ends, and a transaction that is open is dropped.
    pub open spec fn refuse(self) -> Transition {
        self.fail(self.holds_transaction(), PipelineError::UnexpectedInput)
    }

    /// The step the pipeline takes when the driver reports `input`.
    pub open spec fn transition(self, input: PipelineInput) -> Transition {
        match (self.phase, input) {
            (PipelinePhase::Created, PipelineInput::Start) => self.on_start(),
            (PipelinePhase::AwaitingTip, PipelineInput::Tip(tip)) => self.on_tip(tip),
            (PipelinePhase::Executing { stage, tip, target }, PipelineInput::Executed(result)) => {
                self.on_executed(stage, tip, target, result)
            },
            (
                PipelinePhase::CommittingExecution { stage, tip, target, output },
                PipelineInput::Committed(result),
            ) => self.on_execution_committed(stage, tip, target, output, result),
            (
                PipelinePhase::RollingBack { position, targetBlock, responsibleBadBlock },
                PipelineInput::RolledBack(result),
            ) => self.on_rolled_back(position, targetBlock, responsibleBadBlock, result),
            (
                PipelinePhase::CommittingRollback {
                    position,
                    targetBlock,
                    responsibleBadBlock,
                    output,
                },
                PipelineInput::Committed(result),
            ) => self.on_rollback_committed(
                position,
                targetBlock,
                responsibleBadBlock,
                output,
                result,
            ),
            _ => self.refuse(),
        }
    }
}

} // verus!
