use vstd::prelude::*;
use crate::sync::metrics::MetricEvent;
use crate::sync::pipeline_error::PipelineError;
use crate::sync::pipeline_event::PipelineEvent;
use crate::sync::pipeline_state::{recorded, PipelineState};
use crate::sync::pipeline_step::{
    PipelineAction, PipelineInput, PipelinePhase, SkipReason, SkippedStage,
};
use crate::sync::rollback::{
    is_above, lemma_rollback_order_among, lemma_rollback_order_len, rollback_order,
    rollback_target, rolls_back_before,
};
use crate::sync::stage::{StageExecutionError, StageExecutionOutput};
use crate::sync::stage_checkpoint::{height, StageCheckpoint};
use crate::sync::stage_id::StageId;
use crate::sync::transition::{effective_target, PipelineModel};

verus! {

/// The first stage that is not passed over lies between where the search
/// began and the end of the queue, every stage before it is passed over, and
/// it is not.
pub proof fn lemma_next_runnable(pipeline: PipelineModel, tip: u64, from: int)
    requires
        0 <= from <= pipeline.stages.len(),
    ensures
        from <= pipeline.next_runnable(tip, from) <= pipeline.stages.len(),
        forall|i: int|
            from <= i < pipeline.next_runnable(tip, from) ==> (#[trigger] pipeline.skip_reason(
                tip,
                i,
            )) is Some,
        pipeline.next_runnable(tip, from) < pipeline.stages.len() ==> pipeline.skip_reason(
            tip,
            pipeline.next_runnable(tip, from),
        ) is None,
    decreases pipeline.stages.len() - from,
{
    if from < pipeline.stages.len() && pipeline.skip_reason(tip, from) is Some {
        lemma_next_runnable(pipeline, tip, from + 1);
    }
}

/// Whether a step left the queue and the settings as they were and the
/// pipeline well formed.
pub open spec fn kept(before: PipelineModel, after: PipelineModel) -> bool {
    &&& after.wf()
    &&& after.stages == before.stages
    &&& after.config == before.config
}

/// Going on with a pass keeps the pipeline well formed.
proof fn lemma_forward_keeps_wf(
    pipeline: PipelineModel,
    tip: u64,
    from: int,
    events: Seq<PipelineEvent>,
    metrics: Seq<MetricEvent>,
)
    requires
        pipeline.shaped(),
        0 <= from <= pipeline.stages.len(),
    ensures
        kept(pipeline, pipeline.forward(tip, from, events, metrics).next),
{
    lemma_next_runnable(pipeline, tip, from);
}

/// Going on with a rollback keeps the pipeline well formed.
proof fn lemma_continue_rollback_keeps_wf(
    pipeline: PipelineModel,
    position: int,
    targetBlock: u64,
    responsibleBadBlock: Option<u64>,
    discard: bool,
    events: Seq<PipelineEvent>,
    metrics: Seq<MetricEvent>,
)
    requires
        pipeline.shaped(),
        0 <= position <= usize::MAX,
    ensures
        kept(
            pipeline,
            pipeline.continue_rollback(
                position,
                targetBlock,
                responsibleBadBlock,
                discard,
                events,
                metrics,
            ).next,
        ),
{
}

/// Beginning a rollback keeps the pipeline well formed.
proof fn lemma_begin_rollback_keeps_wf(
    pipeline: PipelineModel,
    targetBlock: u64,
    responsibleBadBlock: Option<u64>,
    discard: bool,
    metrics: Seq<MetricEvent>,
)
    requires
        pipeline.shaped(),
    ensures
        kept(
            pipeline,
            pipeline.begin_rollback(targetBlock, responsibleBadBlock, discard, metrics).next,
        ),
{
    lemma_rollback_order_among(
        pipeline.stages,
        pipeline.checkpoints,
        targetBlock,
        pipeline.stages.len(),
    );
    lemma_rollback_order_len(
        pipeline.stages,
        pipeline.checkpoints,
        targetBlock,
        pipeline.stages.len(),
    );
    let ordered = PipelineModel {
        rollbackOrder: rollback_order(pipeline.stages, pipeline.checkpoints, targetBlock),
        ..pipeline
    };
    assert(ordered.shaped());
    lemma_continue_rollback_keeps_wf(
        ordered,
        0,
        targetBlock,
        responsibleBadBlock,
        discard,
        Seq::empty(),
        metrics,
    );
}

/// Whatever the driver reports, a well-formed pipeline stays well formed, and
/// its queue and its settings stay what they were.
pub proof fn lemma_step_keeps_wf(pipeline: PipelineModel, input: PipelineInput)
    requires
        pipeline.wf(),
    ensures
        kept(pipeline, pipeline.transition(input).next),
{
    match (pipeline.phase, input) {
        (PipelinePhase::Created, PipelineInput::Start) => {
            match pipeline.config.startWithRollbackToBlock {
                Some(targetBlock) => {
                    lemma_begin_rollback_keeps_wf(
                        pipeline,
                        targetBlock,
                        None,
                        false,
                        pipeline.progress_metrics(),
                    );
                },
                None => {},
            }
        },
        (PipelinePhase::AwaitingTip, PipelineInput::Tip(tip)) => {
            let begun = PipelineModel {
                state: PipelineState {
                    reachedChainTip: false,
                    madeProgress: false,
                    ..pipeline.state
                },
                ..pipeline
            };
            lemma_forward_keeps_wf(begun, tip, 0, Seq::empty(), Seq::empty());
        },
        (PipelinePhase::Executing { stage, tip, target }, PipelineInput::Executed(result)) => {
            match result {
                Err(StageExecutionError::InvalidState { responsibleBadBlock }) => {
                    lemma_begin_rollback_keeps_wf(
                        pipeline,
                        rollback_target(
                            responsibleBadBlock,
                            height(pipeline.checkpoints[stage as int]),
                        ),
                        responsibleBadBlock,
                        true,
                        Seq::empty(),
                    );
                },
                _ => {},
            }
        },
        (
            PipelinePhase::CommittingExecution { stage, tip, target, output },
            PipelineInput::Committed(result),
        ) => {
            let t = pipeline.on_execution_committed(stage, tip, target, output, result);
            match result {
                Ok(_) => {
                    let moved = pipeline.checkpoints[stage as int] != Some(output.blockReached)
                        || !output.executionCompleted;
                    let advanced = PipelineModel {
                        checkpoints: pipeline.checkpoints.update(
                            stage as int,
                            Some(output.blockReached),
                        ),
                        state: PipelineState {
                            reachedChainTip: output.reachedChainTip,
                            madeProgress: pipeline.state.madeProgress || moved,
                            ..recorded(
                                pipeline.state,
                                output.blockReached,
                            )
                        },
                        ..pipeline
                    };
                    assert(advanced.shaped());
                    lemma_forward_keeps_wf(
                        advanced,
                        tip,
                        stage + 1,
                        seq![
                            PipelineEvent::Ran {
                                stageId: pipeline.stages[stage as int].stageId,
                                result: Some(output),
                            },
                        ],
                        seq![
                            MetricEvent::StageReachedCheckpoint {
                                stageId: pipeline.stages[stage as int].stageId,
                                checkpoint: StageCheckpoint {
                                    blockNumber: output.blockReached,
                                },
                                knownLatestBlockReachableByStage: Some(target),
                            },
                        ],
                    );
                },
                Err(_) => {},
            }
        },
        (
            PipelinePhase::RollingBack { position, targetBlock, responsibleBadBlock },
            PipelineInput::RolledBack(result),
        ) => {},
        (
            PipelinePhase::CommittingRollback { position, targetBlock, responsibleBadBlock, output },
            PipelineInput::Committed(result),
        ) => {
            match result {
                Ok(_) => {
                    let stage = pipeline.rollbackOrder[position as int];
                    let lowered = PipelineModel {
                        checkpoints: pipeline.checkpoints.update(
                            stage as int,
                            Some(output.blockReached),
                        ),
                        state: recorded(
                            pipeline.state,
                            output.blockReached,
                        ),
                        ..pipeline
                    };
                    assert(lowered.shaped());
                    lemma_continue_rollback_keeps_wf(
                        lowered,
                        position + 1,
                        targetBlock,
                        responsibleBadBlock,
                        false,
                        seq![
                            PipelineEvent::Rollbacked {
                                stageId: pipeline.stages[stage as int].stageId,
                                result: Some(output),
                            },
                        ],
                        Seq::empty(),
                    );
                },
                Err(_) => {},
            }
        },
        _ => {},
    }
}

/// The stage an event is about.
pub open spec fn stage_of(event: PipelineEvent) -> StageId {
    match event {
        PipelineEvent::Running { stageId, .. } => stageId,
        PipelineEvent::Ran { stageId, .. } => stageId,
        PipelineEvent::Rollbacking { stageId, .. } => stageId,
        PipelineEvent::Rollbacked { stageId, .. } => stageId,
    }
}

/// No stage is asked to run beyond the tip of the chain, beyond the block to
/// stop at, or beyond the block the stage before it stands at.
pub proof fn lemma_target_is_bounded(pipeline: PipelineModel, tip: u64, i: int)
    ensures
        pipeline.target(tip, i) <= tip,
        pipeline.config.stopSyncAfterReachingBlock matches Some(stop) ==> pipeline.target(tip, i)
            <= stop,
        i > 0 ==> pipeline.target(tip, i) <= height(pipeline.checkpoints[i - 1]),
{
}

/// A stage that is run stands below its target, and is handed the block it
/// stands at and the stage before it.
pub proof fn lemma_stage_that_runs_is_below_target(
    pipeline: PipelineModel,
    tip: u64,
    from: int,
    events: Seq<PipelineEvent>,
    metrics: Seq<MetricEvent>,
)
    requires
        pipeline.shaped(),
        0 <= from <= pipeline.stages.len(),
    ensures
        pipeline.forward(tip, from, events, metrics).step.action matches PipelineAction::Execute {
            stage,
            input,
        } ==> {
            &&& from <= stage < pipeline.stages.len()
            &&& height(pipeline.checkpoints[stage as int]) < pipeline.target(tip, stage as int)
            &&& pipeline.stages[stage as int].executionRequiresReachingChainTip
                ==> pipeline.state.reachedChainTip
            &&& input == pipeline.execution_input(stage as int)
            &&& pipeline.forward(tip, from, events, metrics).next.phase
                == (PipelinePhase::Executing {
                stage,
                tip,
                target: pipeline.target(tip, stage as int),
            })
        },
{
    lemma_next_runnable(pipeline, tip, from);
}

/// A stage that already stands at its target, or beyond, is passed over: as
/// the pass goes over it no transaction is opened or committed, no
/// checkpoint changes, no event about the stage goes out, and the notice for
/// it gives this as the reason.
pub proof fn lemma_stage_at_target_is_passed_over(
    pipeline: PipelineModel,
    tip: u64,
    from: int,
    events: Seq<PipelineEvent>,
    metrics: Seq<MetricEvent>,
    i: int,
)
    requires
        pipeline.shaped(),
        0 <= from <= i < pipeline.stages.len(),
        height(pipeline.checkpoints[i]) >= pipeline.target(tip, i),
    ensures
        ({
            let passed = pipeline.forward(tip, from, events, metrics);
            &&& passed.next.checkpoints == pipeline.checkpoints
            &&& !passed.step.discardTransaction
            &&& !(passed.step.action is Commit)
            &&& !(passed.step.action is Rollback)
            &&& passed.step.action matches PipelineAction::Execute { stage, .. } ==> stage != i
            &&& passed.step.metrics == metrics
            &&& passed.step.events.len() >= events.len()
            &&& forall|k: int|
                events.len() <= k < passed.step.events.len() ==> stage_of(
                    #[trigger] passed.step.events[k],
                )@ != pipeline.stages[i].stageId@
            &&& i < pipeline.next_runnable(tip, from) ==> passed.step.skipped[i - from]
                == (SkippedStage {
                stageId: pipeline.stages[i].stageId,
                reason: SkipReason::CheckpointReachedTarget,
            })
        }),
{
    lemma_next_runnable(pipeline, tip, from);
    let passed = pipeline.forward(tip, from, events, metrics);
    let stage = pipeline.next_runnable(tip, from);
    assert(pipeline.skip_reason(tip, i) == Some(SkipReason::CheckpointReachedTarget));
    if stage < pipeline.stages.len() {
        assert(stage != i);
        assert forall|k: int| events.len() <= k < passed.step.events.len() implies stage_of(
            #[trigger] passed.step.events[k],
        )@ != pipeline.stages[i].stageId@ by {
            assert(k == events.len());
            assert(stage_of(passed.step.events[k]) == pipeline.stages[stage].stageId);
            if stage < i {
                assert(pipeline.stages[stage].stageId@ != pipeline.stages[i].stageId@);
            } else {
                assert(pipeline.stages[i].stageId@ != pipeline.stages[stage].stageId@);
            }
        }
    }
}

/// The pipeline after the transaction of stage `stage`, which reported
/// `output`, was committed, and before the pass goes on behind it.
pub open spec fn after_execution(
    pipeline: PipelineModel,
    stage: usize,
    output: StageExecutionOutput,
) -> PipelineModel {
    PipelineModel {
        checkpoints: pipeline.checkpoints.update(stage as int, Some(output.blockReached)),
        state: PipelineState {
            reachedChainTip: output.reachedChainTip,
            madeProgress: pipeline.state.madeProgress || pipeline.checkpoints[stage as int]
                != Some(output.blockReached) || !output.executionCompleted,
            ..recorded(pipeline.state, output.blockReached)
        },
        ..pipeline
    }
}

/// A stage that runs only at the tip of the chain is passed over when the
/// stage right before it has just run and not reached the tip; when that
/// stage has reached the tip, it is run, unless it already stands at its
/// target.
pub proof fn lemma_chain_tip_gates_the_next_stage(pipeline: PipelineModel, committed: bool)
    requires
        pipeline.wf(),
        pipeline.phase is CommittingExecution,
        pipeline.phase->CommittingExecution_stage + 1 < pipeline.stages.len(),
        pipeline.stages[pipeline.phase->CommittingExecution_stage
            + 1].executionRequiresReachingChainTip,
    ensures
        ({
            let stage = pipeline.phase->CommittingExecution_stage;
            let tip = pipeline.phase->CommittingExecution_tip;
            let output = pipeline.phase->CommittingExecution_output;
            let next = stage + 1;
            let gone_on = pipeline.transition(PipelineInput::Committed(Ok(committed)));
            let below = height(pipeline.checkpoints[next]) < effective_target(
                tip,
                pipeline.config.stopSyncAfterReachingBlock,
                Some(output.blockReached),
            );
            &&& !output.reachedChainTip ==> {
                &&& gone_on.step.action matches PipelineAction::Execute { stage: run, .. } ==> run
                    != next
                &&& gone_on.step.skipped.len() > 0
                &&& gone_on.step.skipped[0].stageId == pipeline.stages[next].stageId
                &&& below ==> gone_on.step.skipped[0].reason == SkipReason::ChainTipNotReached
            }
            &&& output.reachedChainTip && below ==> {
                &&& gone_on.step.action == (PipelineAction::Execute {
                    stage: next as usize,
                    input: after_execution(pipeline, stage, output).execution_input(next),
                })
                &&& gone_on.step.skipped.len() == 0
            }
        }),
{
    let stage = pipeline.phase->CommittingExecution_stage;
    let tip = pipeline.phase->CommittingExecution_tip;
    let target = pipeline.phase->CommittingExecution_target;
    let output = pipeline.phase->CommittingExecution_output;
    let advanced = after_execution(pipeline, stage, output);
    assert(advanced.shaped());
    lemma_next_runnable(advanced, tip, stage + 1);
    let gone_on = pipeline.transition(PipelineInput::Committed(Ok(committed)));
    assert(gone_on == pipeline.on_execution_committed(stage, tip, target, output, Ok(committed)));
    assert(advanced.target(tip, stage + 1) == effective_target(
        tip,
        pipeline.config.stopSyncAfterReachingBlock,
        Some(output.blockReached),
    ));
    if !output.reachedChainTip {
        assert(advanced.skip_reason(tip, stage + 1) is Some);
        assert(advanced.next_runnable(tip, stage + 1) > stage + 1);
    }
}

/// When a stage fails to run forward for a reason other than the data, the
/// transaction is dropped uncommitted, every checkpoint stays what it was,
/// and the run ends with the error, which names the stage and the
/// checkpoint it stood at.
pub proof fn lemma_internal_error_commits_nothing(pipeline: PipelineModel, message: String)
    requires
        pipeline.wf(),
        pipeline.phase is Executing,
    ensures
        ({
            let stage = pipeline.phase->Executing_stage;
            let ended = pipeline.transition(
                PipelineInput::Executed(Err(StageExecutionError::Internal(message))),
            );
            &&& ended.step.discardTransaction
            &&& ended.next.checkpoints == pipeline.checkpoints
            &&& ended.next.phase is Failed
            &&& ended.step.events.len() == 0
            &&& ended.step.action == PipelineAction::Finish(
                Err(
                    PipelineError::StageExecution {
                        stageId: pipeline.stages[stage as int].stageId,
                        checkpoint: pipeline.checkpoints[stage as int],
                        message,
                    },
                ),
            )
        }),
{
}

/// A run that has ended stays ended: whatever is reported to it, it asks for
/// nothing but to finish, and no checkpoint changes.
pub proof fn lemma_ended_run_stays_ended(pipeline: PipelineModel, input: PipelineInput)
    requires
        pipeline.phase is Failed || pipeline.phase is Finished,
    ensures
        pipeline.transition(input).next.phase is Failed,
        pipeline.transition(input).next.checkpoints == pipeline.checkpoints,
        pipeline.transition(input).step.action == PipelineAction::Finish(
            Err(PipelineError::UnexpectedInput),
        ),
        !pipeline.transition(input).step.discardTransaction,
{
}

/// A commit is asked for only in answer to a stage that reported success,
/// and what is committed is the block that the stage reported.
pub proof fn lemma_commit_follows_success(pipeline: PipelineModel, input: PipelineInput)
    requires
        pipeline.wf(),
        pipeline.transition(input).step.action is Commit,
    ensures
        ({
            let asked = pipeline.transition(input).step.action;
            ||| {
                &&& pipeline.phase is Executing
                &&& input matches PipelineInput::Executed(Ok(output))
                &&& asked == (PipelineAction::Commit {
                    stage: pipeline.phase->Executing_stage,
                    checkpoint: output.blockReached,
                })
            }
            ||| {
                &&& pipeline.phase is RollingBack
                &&& input matches PipelineInput::RolledBack(Ok(output))
                &&& asked == (PipelineAction::Commit {
                    stage: pipeline.rollbackOrder[pipeline.phase->RollingBack_position as int],
                    checkpoint: output.blockReached,
                })
            }
        }),
        pipeline.transition(input).next.checkpoints == pipeline.checkpoints,
{
    lemma_step_shape(pipeline, input);
}

/// What a step can ask for, by what it answers to.
proof fn lemma_step_shape(pipeline: PipelineModel, input: PipelineInput)
    requires
        pipeline.wf(),
    ensures
        ({
            let taken = pipeline.transition(input);
            &&& taken.step.action is Commit ==> (pipeline.phase is Executing && input
                is Executed) || (pipeline.phase is RollingBack && input is RolledBack)
            &&& taken.next.checkpoints != pipeline.checkpoints ==> input is Committed && (
            pipeline.phase is CommittingExecution || pipeline.phase is CommittingRollback)
        }),
{
    match (pipeline.phase, input) {
        (PipelinePhase::AwaitingTip, PipelineInput::Tip(tip)) => {
            let begun = PipelineModel {
                state: PipelineState {
                    reachedChainTip: false,
                    madeProgress: false,
                    ..pipeline.state
                },
                ..pipeline
            };
            lemma_next_runnable(begun, tip, 0);
        },
        (
            PipelinePhase::CommittingExecution { stage, tip, target, output },
            PipelineInput::Committed(result),
        ) => {
            if result is Ok {
                lemma_next_runnable(after_execution(pipeline, stage, output), tip, stage + 1);
            }
        },
        _ => {},
    }
}

/// A checkpoint changes only when the store reports the transaction of a
/// stage committed; then the checkpoint of that stage becomes the block the
/// stage reported, and no other checkpoint changes.
pub proof fn lemma_checkpoint_changes_on_commit_only(pipeline: PipelineModel, input: PipelineInput)
    requires
        pipeline.wf(),
    ensures
        ({
            let taken = pipeline.transition(input);
            match (pipeline.phase, input) {
                (
                    PipelinePhase::CommittingExecution { stage, output, .. },
                    PipelineInput::Committed(Ok(_)),
                ) => taken.next.checkpoints == pipeline.checkpoints.update(
                    stage as int,
                    Some(output.blockReached),
                ),
                (
                    PipelinePhase::CommittingRollback { position, output, .. },
                    PipelineInput::Committed(Ok(_)),
                ) => taken.next.checkpoints == pipeline.checkpoints.update(
                    pipeline.rollbackOrder[position as int] as int,
                    Some(output.blockReached),
                ),
                _ => taken.next.checkpoints == pipeline.checkpoints,
            }
        }),
{
    match (pipeline.phase, input) {
        (PipelinePhase::AwaitingTip, PipelineInput::Tip(tip)) => {
            let begun = PipelineModel {
                state: PipelineState {
                    reachedChainTip: false,
                    madeProgress: false,
                    ..pipeline.state
                },
                ..pipeline
            };
            lemma_next_runnable(begun, tip, 0);
        },
        (
            PipelinePhase::CommittingExecution { stage, tip, target, output },
            PipelineInput::Committed(result),
        ) => {
            if result is Ok {
                lemma_next_runnable(after_execution(pipeline, stage, output), tip, stage + 1);
            }
        },
        _ => {},
    }
}

/// Once every stage stands at the block to stop at, or beyond, a pass of a
/// pipeline that is to exit after the synchronization runs no stage: it
/// passes over all of them, and the run ends with success.
pub proof fn lemma_pass_at_stop_block_ends_the_run(
    pipeline: PipelineModel,
    tip: u64,
    from: int,
    events: Seq<PipelineEvent>,
    metrics: Seq<MetricEvent>,
)
    requires
        pipeline.shaped(),
        0 <= from <= pipeline.stages.len(),
        pipeline.config.exitAfterSync,
        pipeline.config.stopSyncAfterReachingBlock matches Some(stop) && pipeline.all_reached(stop),
    ensures
        pipeline.forward(tip, from, events, metrics).step.action == PipelineAction::Finish(Ok(())),
        pipeline.forward(tip, from, events, metrics).next.phase is Finished,
        pipeline.forward(tip, from, events, metrics).next.checkpoints == pipeline.checkpoints,
        pipeline.forward(tip, from, events, metrics).step.events == events,
{
    lemma_next_runnable(pipeline, tip, from);
    let stage = pipeline.next_runnable(tip, from);
    if stage < pipeline.stages.len() {
        lemma_target_is_bounded(pipeline, tip, stage);
        assert(height(pipeline.checkpoints[stage]) >= pipeline.target(tip, stage));
    }
    let state = PipelineState { passCompleted: true, ..pipeline.state };
    let done = PipelineModel { state, ..pipeline };
    assert(done.all_reached(pipeline.config.stopSyncAfterReachingBlock->0));
}

/// The pipeline asks for the tip of the chain, which is how a pass begins,
/// only while the run is not over. So once every stage stands at the block to
/// stop at or beyond, a pipeline that is to exit after the synchronization
/// begins no further pass; it has ended with success.
pub proof fn lemma_no_pass_begins_once_the_run_is_over(pipeline: PipelineModel, input: PipelineInput)
    requires
        pipeline.wf(),
    ensures
        ({
            let taken = pipeline.transition(input);
            &&& taken.step.action is ObserveTip ==> taken.next.phase is AwaitingTip
                && !taken.next.should_exit()
            &&& taken.step.action == PipelineAction::Finish(Ok(())) <==> taken.next.phase
                is Finished
            &&& taken.next.phase is Finished ==> taken.next.should_exit()
            &&& taken.next.phase is AwaitingTip ==> taken.step.action is ObserveTip
        }),
{
    match (pipeline.phase, input) {
        (PipelinePhase::AwaitingTip, PipelineInput::Tip(tip)) => {
            let begun = PipelineModel {
                state: PipelineState {
                    reachedChainTip: false,
                    madeProgress: false,
                    ..pipeline.state
                },
                ..pipeline
            };
            lemma_next_runnable(begun, tip, 0);
        },
        (
            PipelinePhase::CommittingExecution { stage, tip, target, output },
            PipelineInput::Committed(result),
        ) => {
            if result is Ok {
                lemma_next_runnable(after_execution(pipeline, stage, output), tip, stage + 1);
            }
        },
        _ => {},
    }
}

/// Whether every stage that stands above `targetBlock` is yet to be visited
/// by the rollback, which has come to `position` of its order.
pub open spec fn rest_covers(
    checkpoints: Seq<Option<u64>>,
    order: Seq<usize>,
    position: int,
    targetBlock: u64,
) -> bool {
    forall|i: int| #[trigger]
        is_above(checkpoints, targetBlock, i) ==> exists|k: int|
            position <= k < order.len() && #[trigger] order[k] == i
}

/// Whether the rollback that is going on, if one is, is on course: every
/// stage that still stands above its target is yet to be visited, and the
/// stage whose transaction is being committed has reported a block that is
/// not above the target.
pub open spec fn rollback_on_course(pipeline: PipelineModel) -> bool {
    match pipeline.phase {
        PipelinePhase::RollingBack { position, targetBlock, .. } => rest_covers(
            pipeline.checkpoints,
            pipeline.rollbackOrder,
            position as int,
            targetBlock,
        ),
        PipelinePhase::CommittingRollback { position, targetBlock, output, .. } => rest_covers(
            pipeline.checkpoints,
            pipeline.rollbackOrder,
            position as int,
            targetBlock,
        ) && output.blockReached <= targetBlock,
        _ => true,
    }
}

/// Whether what is reported keeps to what a stage owes when it rolls back:
/// the block it reports is not above the target it was given.
pub open spec fn rollback_keeps_to_target(pipeline: PipelineModel, input: PipelineInput) -> bool {
    match (pipeline.phase, input) {
        (
            PipelinePhase::RollingBack { targetBlock, .. },
            PipelineInput::RolledBack(Ok(output)),
        ) => output.blockReached <= targetBlock,
        _ => true,
    }
}

/// Whether no stage stands above `block`.
pub open spec fn none_above(checkpoints: Seq<Option<u64>>, block: u64) -> bool {
    forall|i: int| 0 <= i < checkpoints.len() ==> height(#[trigger] checkpoints[i]) <= block
}

/// A rollback begins on course: its order holds every stage that stands
/// above its target. Where it holds none, no stage stands above the target.
proof fn lemma_rollback_begins_on_course(
    pipeline: PipelineModel,
    targetBlock: u64,
    responsibleBadBlock: Option<u64>,
    discard: bool,
    metrics: Seq<MetricEvent>,
)
    requires
        pipeline.shaped(),
    ensures
        ({
            let begun = pipeline.begin_rollback(targetBlock, responsibleBadBlock, discard, metrics);
            &&& rollback_on_course(begun.next)
            &&& begun.next.checkpoints == pipeline.checkpoints
            &&& begun.next.phase is RollingBack || none_above(begun.next.checkpoints, targetBlock)
            &&& begun.next.phase is RollingBack ==> begun.next.phase->RollingBack_targetBlock
                == targetBlock
        }),
{
    lemma_rollback_order_among(
        pipeline.stages,
        pipeline.checkpoints,
        targetBlock,
        pipeline.stages.len(),
    );
    let order = rollback_order(pipeline.stages, pipeline.checkpoints, targetBlock);
    let begun = pipeline.begin_rollback(targetBlock, responsibleBadBlock, discard, metrics);
    assert(rest_covers(pipeline.checkpoints, order, 0, targetBlock)) by {
        assert forall|i: int| #[trigger]
            is_above(pipeline.checkpoints, targetBlock, i) implies exists|k: int|
            0 <= k < order.len() && #[trigger] order[k] == i by {
            assert(0 <= i < pipeline.stages.len());
        }
    }
    if order.len() == 0 {
        assert forall|i: int| 0 <= i < pipeline.checkpoints.len() implies height(
            #[trigger] pipeline.checkpoints[i],
        ) <= targetBlock by {
            if height(pipeline.checkpoints[i]) > targetBlock {
                assert(is_above(pipeline.checkpoints, targetBlock, i));
            }
        }
    }
}

/// A rollback that is on course stays on course, as long as each stage it
/// visits reports a block that is not above the target.
pub proof fn lemma_rollback_stays_on_course(pipeline: PipelineModel, input: PipelineInput)
    requires
        pipeline.wf(),
        rollback_on_course(pipeline),
        rollback_keeps_to_target(pipeline, input),
    ensures
        rollback_on_course(pipeline.transition(input).next),
{
    match (pipeline.phase, input) {
        (PipelinePhase::Created, PipelineInput::Start) => {
            match pipeline.config.startWithRollbackToBlock {
                Some(targetBlock) => {
                    lemma_rollback_begins_on_course(
                        pipeline,
                        targetBlock,
                        None,
                        false,
                        pipeline.progress_metrics(),
                    );
                },
                None => {},
            }
        },
        (PipelinePhase::AwaitingTip, PipelineInput::Tip(tip)) => {
            let begun = PipelineModel {
                state: PipelineState {
                    reachedChainTip: false,
                    madeProgress: false,
                    ..pipeline.state
                },
                ..pipeline
            };
            lemma_next_runnable(begun, tip, 0);
        },
        (PipelinePhase::Executing { stage, tip, target }, PipelineInput::Executed(result)) => {
            match result {
                Err(StageExecutionError::InvalidState { responsibleBadBlock }) => {
                    lemma_rollback_begins_on_course(
                        pipeline,
                        rollback_target(
                            responsibleBadBlock,
                            height(pipeline.checkpoints[stage as int]),
                        ),
                        responsibleBadBlock,
                        true,
                        Seq::empty(),
                    );
                },
                _ => {},
            }
        },
        (
            PipelinePhase::CommittingExecution { stage, tip, target, output },
            PipelineInput::Committed(result),
        ) => {
            if result is Ok {
                lemma_next_runnable(after_execution(pipeline, stage, output), tip, stage + 1);
            }
        },
        (
            PipelinePhase::CommittingRollback { position, targetBlock, responsibleBadBlock, output },
            PipelineInput::Committed(Ok(_)),
        ) => {
            let next = pipeline.transition(input).next;
            let visited = pipeline.rollbackOrder[position as int] as int;
            if next.phase is RollingBack {
                assert forall|i: int| #[trigger]
                    is_above(next.checkpoints, targetBlock, i) implies exists|k: int|
                    position + 1 <= k < next.rollbackOrder.len() && #[trigger] next.rollbackOrder[k]
                        == i by {
                    assert(i != visited);
                    assert(is_above(pipeline.checkpoints, targetBlock, i));
                    let k = choose|k: int|
                        position <= k < pipeline.rollbackOrder.len()
                            && #[trigger] pipeline.rollbackOrder[k] == i;
                    assert(k != position);
                    assert(next.rollbackOrder[k] == i);
                }
            }
        },
        _ => {},
    }
}

/// When a rollback is over, no stage stands above its target, as long as
/// each stage it visited reported a block that is not above the target. The
/// same holds of a rollback that finds no stage to visit.
pub proof fn lemma_rollback_ends_at_target(pipeline: PipelineModel, input: PipelineInput)
    requires
        pipeline.wf(),
        rollback_on_course(pipeline),
    ensures
        ({
            let taken = pipeline.transition(input);
            match (pipeline.phase, input) {
                (
                    PipelinePhase::CommittingRollback { targetBlock, .. },
                    PipelineInput::Committed(Ok(_)),
                ) => taken.next.phase is RollingBack || none_above(
                    taken.next.checkpoints,
                    targetBlock,
                ),
                (
                    PipelinePhase::Executing { stage, .. },
                    PipelineInput::Executed(
                        Err(StageExecutionError::InvalidState { responsibleBadBlock }),
                    ),
                ) => taken.next.phase is RollingBack || none_above(
                    taken.next.checkpoints,
                    rollback_target(
                        responsibleBadBlock,
                        height(pipeline.checkpoints[stage as int]),
                    ),
                ),
                (PipelinePhase::Created, PipelineInput::Start) => {
                    pipeline.config.startWithRollbackToBlock matches Some(targetBlock) ==> (
                    taken.next.phase is RollingBack || none_above(
                        taken.next.checkpoints,
                        targetBlock,
                    ))
                },
                _ => true,
            }
        }),
{
    match (pipeline.phase, input) {
        (PipelinePhase::Created, PipelineInput::Start) => {
            match pipeline.config.startWithRollbackToBlock {
                Some(targetBlock) => {
                    lemma_rollback_begins_on_course(
                        pipeline,
                        targetBlock,
                        None,
                        false,
                        pipeline.progress_metrics(),
                    );
                },
                None => {},
            }
        },
        (PipelinePhase::Executing { stage, tip, target }, PipelineInput::Executed(result)) => {
            match result {
                Err(StageExecutionError::InvalidState { responsibleBadBlock }) => {
                    lemma_rollback_begins_on_course(
                        pipeline,
                        rollback_target(
                            responsibleBadBlock,
                            height(pipeline.checkpoints[stage as int]),
                        ),
                        responsibleBadBlock,
                        true,
                        Seq::empty(),
                    );
                },
                _ => {},
            }
        },
        (
            PipelinePhase::CommittingRollback { position, targetBlock, responsibleBadBlock, output },
            PipelineInput::Committed(Ok(_)),
        ) => {
            let next = pipeline.transition(input).next;
            let visited = pipeline.rollbackOrder[position as int] as int;
            if !(next.phase is RollingBack) {
                assert(position + 1 >= pipeline.rollbackOrder.len());
                assert forall|i: int| 0 <= i < next.checkpoints.len() implies height(
                    #[trigger] next.checkpoints[i],
                ) <= targetBlock by {
                    if i != visited && height(next.checkpoints[i]) > targetBlock {
                        assert(is_above(pipeline.checkpoints, targetBlock, i));
                        let k = choose|k: int|
                            position <= k < pipeline.rollbackOrder.len()
                                && #[trigger] pipeline.rollbackOrder[k] == i;
                        assert(k == position);
                    }
                }
            }
        },
        _ => {},
    }
}

/// Whether no stage stands above a stage before it in the queue.
pub open spec fn descending(checkpoints: Seq<Option<u64>>) -> bool {
    forall|a: int, b: int|
        0 <= a <= b < checkpoints.len() ==> height(#[trigger] checkpoints[a]) >= height(
            #[trigger] checkpoints[b],
        )
}

/// The block a checkpoint stands at, or `block` where it stands above it.
pub open spec fn capped(checkpoint: Option<u64>, block: u64) -> u64 {
    if height(checkpoint) <= block {
        height(checkpoint)
    } else {
        block
    }
}

/// Whether no stage stands above a stage before it in the queue, as far as
/// they stand below `block`.
pub open spec fn descending_below(checkpoints: Seq<Option<u64>>, block: u64) -> bool {
    forall|a: int, b: int|
        0 <= a <= b < checkpoints.len() ==> capped(#[trigger] checkpoints[a], block) >= capped(
            #[trigger] checkpoints[b],
            block,
        )
}

/// Whether every stage that the rollback is yet to visit stands above its
/// target, and no stage is to be visited twice.
pub open spec fn rest_stands_above(
    checkpoints: Seq<Option<u64>>,
    order: Seq<usize>,
    position: int,
    targetBlock: u64,
) -> bool {
    &&& forall|k: int|
        position <= k < order.len() ==> is_above(checkpoints, targetBlock, #[trigger] order[k] as int)
    &&& forall|a: int, b: int|
        0 <= a < b < order.len() ==> #[trigger] order[a] != #[trigger] order[b]
}

/// Whether the stages are in line: no stage stands above a stage before it
/// in the queue. While a stage runs forward, its target is the one that the
/// pipeline worked out for it, above where it stands. While a rollback goes
/// on, the stages are in line as far as they stand below its target, and
/// the stages that it is yet to visit are those that stand above it.
pub open spec fn in_line(pipeline: PipelineModel) -> bool {
    match pipeline.phase {
        PipelinePhase::Failed => true,
        PipelinePhase::Executing { stage, tip, target } => {
            &&& descending(pipeline.checkpoints)
            &&& target == pipeline.target(tip, stage as int)
            &&& height(pipeline.checkpoints[stage as int]) < target
        },
        PipelinePhase::CommittingExecution { stage, tip, target, output } => {
            &&& descending(pipeline.checkpoints)
            &&& target == pipeline.target(tip, stage as int)
            &&& height(pipeline.checkpoints[stage as int]) <= output.blockReached <= target
        },
        PipelinePhase::RollingBack { position, targetBlock, .. } => {
            &&& descending_below(pipeline.checkpoints, targetBlock)
            &&& rest_covers(
                pipeline.checkpoints,
                pipeline.rollbackOrder,
                position as int,
                targetBlock,
            )
            &&& rest_stands_above(
                pipeline.checkpoints,
                pipeline.rollbackOrder,
                position as int,
                targetBlock,
            )
        },
        PipelinePhase::CommittingRollback { position, targetBlock, output, .. } => {
            &&& descending_below(pipeline.checkpoints, targetBlock)
            &&& rest_covers(
                pipeline.checkpoints,
                pipeline.rollbackOrder,
                position as int,
                targetBlock,
            )
            &&& rest_stands_above(
                pipeline.checkpoints,
                pipeline.rollbackOrder,
                position as int,
                targetBlock,
            )
            &&& output.blockReached == targetBlock
        },
        _ => descending(pipeline.checkpoints),
    }
}

/// Whether what is reported keeps to what a stage owes: run forward, it
/// goes no further than its target and not back; rolled back, it reaches
/// the target it was given.
pub open spec fn stage_keeps_to_its_contract(pipeline: PipelineModel, input: PipelineInput) -> bool {
    match (pipeline.phase, input) {
        (PipelinePhase::Executing { stage, target, .. }, PipelineInput::Executed(Ok(output))) => {
            height(pipeline.checkpoints[stage as int]) <= output.blockReached <= target
        },
        (
            PipelinePhase::RollingBack { targetBlock, .. },
            PipelineInput::RolledBack(Ok(output)),
        ) => output.blockReached == targetBlock,
        _ => true,
    }
}

/// Going on with a pass keeps the stages in line.
proof fn lemma_forward_is_in_line(
    pipeline: PipelineModel,
    tip: u64,
    from: int,
    events: Seq<PipelineEvent>,
    metrics: Seq<MetricEvent>,
)
    requires
        pipeline.shaped(),
        0 <= from <= pipeline.stages.len(),
        descending(pipeline.checkpoints),
    ensures
        in_line(pipeline.forward(tip, from, events, metrics).next),
{
    lemma_next_runnable(pipeline, tip, from);
}

/// Beginning a rollback keeps the stages in line.
proof fn lemma_rollback_begins_in_line(
    pipeline: PipelineModel,
    targetBlock: u64,
    responsibleBadBlock: Option<u64>,
    discard: bool,
    metrics: Seq<MetricEvent>,
)
    requires
        pipeline.shaped(),
        descending(pipeline.checkpoints),
    ensures
        in_line(pipeline.begin_rollback(targetBlock, responsibleBadBlock, discard, metrics).next),
{
    lemma_rollback_begins_on_course(pipeline, targetBlock, responsibleBadBlock, discard, metrics);
    lemma_rollback_order_among(
        pipeline.stages,
        pipeline.checkpoints,
        targetBlock,
        pipeline.stages.len(),
    );
    let order = rollback_order(pipeline.stages, pipeline.checkpoints, targetBlock);
    assert(descending_below(pipeline.checkpoints, targetBlock));
    assert(rest_stands_above(pipeline.checkpoints, order, 0, targetBlock)) by {
        assert forall|a: int, b: int| 0 <= a < b < order.len() implies #[trigger] order[a]
            != #[trigger] order[b] by {
            assert(rolls_back_before(
                pipeline.stages,
                order[a] as int,
                order[b] as int,
            ));
        }
    }
    assert(rest_covers(pipeline.checkpoints, order, 0, targetBlock)) by {
        assert forall|i: int| #[trigger]
            is_above(pipeline.checkpoints, targetBlock, i) implies exists|k: int|
            0 <= k < order.len() && #[trigger] order[k] == i by {
            assert(0 <= i < pipeline.stages.len());
        }
    }
    if order.len() == 0 {
        assert(descending(pipeline.checkpoints));
    }
}

/// The stages stay in line, as long as each stage keeps to its contract:
/// whatever is reported, no stage comes to stand above a stage before it in
/// the queue, but for the time that a rollback goes on, and then only above
/// the target of the rollback.
pub proof fn lemma_stages_stay_in_line(pipeline: PipelineModel, input: PipelineInput)
    requires
        pipeline.wf(),
        in_line(pipeline),
        stage_keeps_to_its_contract(pipeline, input),
    ensures
        in_line(pipeline.transition(input).next),
{
    match (pipeline.phase, input) {
        (PipelinePhase::Created, PipelineInput::Start) => {
            match pipeline.config.startWithRollbackToBlock {
                Some(targetBlock) => {
                    lemma_rollback_begins_in_line(
                        pipeline,
                        targetBlock,
                        None,
                        false,
                        pipeline.progress_metrics(),
                    );
                },
                None => {},
            }
        },
        (PipelinePhase::AwaitingTip, PipelineInput::Tip(tip)) => {
            let begun = PipelineModel {
                state: PipelineState {
                    reachedChainTip: false,
                    madeProgress: false,
                    ..pipeline.state
                },
                ..pipeline
            };
            lemma_forward_is_in_line(begun, tip, 0, Seq::empty(), Seq::empty());
        },
        (PipelinePhase::Executing { stage, tip, target }, PipelineInput::Executed(result)) => {
            match result {
                Err(StageExecutionError::InvalidState { responsibleBadBlock }) => {
                    lemma_rollback_begins_in_line(
                        pipeline,
                        rollback_target(
                            responsibleBadBlock,
                            height(pipeline.checkpoints[stage as int]),
                        ),
                        responsibleBadBlock,
                        true,
                        Seq::empty(),
                    );
                },
                _ => {},
            }
        },
        (
            PipelinePhase::CommittingExecution { stage, tip, target, output },
            PipelineInput::Committed(Ok(_)),
        ) => {
            let advanced = after_execution(pipeline, stage, output);
            assert(advanced.shaped());
            assert(descending(advanced.checkpoints)) by {
                lemma_target_is_bounded(pipeline, tip, stage as int);
                assert forall|a: int, b: int| 0 <= a <= b < advanced.checkpoints.len() implies height(
                    #[trigger] advanced.checkpoints[a],
                ) >= height(#[trigger] advanced.checkpoints[b]) by {
                    if a == stage && b != stage {
                        assert(height(pipeline.checkpoints[stage as int]) >= height(
                            pipeline.checkpoints[b],
                        ));
                    } else if b == stage && a != stage {
                        assert(height(pipeline.checkpoints[a]) >= height(
                            pipeline.checkpoints[stage - 1],
                        ));
                    } else if a != stage && b != stage {
                        assert(height(pipeline.checkpoints[a]) >= height(pipeline.checkpoints[b]));
                    }
                }
            }
            lemma_forward_is_in_line(
                advanced,
                tip,
                stage + 1,
                seq![
                    PipelineEvent::Ran {
                        stageId: pipeline.stages[stage as int].stageId,
                        result: Some(output),
                    },
                ],
                seq![
                    MetricEvent::StageReachedCheckpoint {
                        stageId: pipeline.stages[stage as int].stageId,
                        checkpoint: StageCheckpoint {
                            blockNumber: output.blockReached,
                        },
                        knownLatestBlockReachableByStage: Some(target),
                    },
                ],
            );
        },
        (
            PipelinePhase::CommittingRollback { position, targetBlock, responsibleBadBlock, output },
            PipelineInput::Committed(Ok(_)),
        ) => {
            let next = pipeline.transition(input).next;
            let order = pipeline.rollbackOrder;
            let visited = order[position as int] as int;
            assert(is_above(pipeline.checkpoints, targetBlock, visited));
            assert(next.checkpoints == pipeline.checkpoints.update(
                visited,
                Some(output.blockReached),
            ));
            assert(descending_below(next.checkpoints, targetBlock)) by {
                assert forall|a: int, b: int| 0 <= a <= b < next.checkpoints.len() implies capped(
                    #[trigger] next.checkpoints[a],
                    targetBlock,
                ) >= capped(#[trigger] next.checkpoints[b], targetBlock) by {
                    assert(capped(pipeline.checkpoints[a], targetBlock) >= capped(
                        pipeline.checkpoints[b],
                        targetBlock,
                    ));
                    assert(capped(next.checkpoints[a], targetBlock) == capped(
                        pipeline.checkpoints[a],
                        targetBlock,
                    ));
                    assert(capped(next.checkpoints[b], targetBlock) == capped(
                        pipeline.checkpoints[b],
                        targetBlock,
                    ));
                }
            }
            if next.phase is RollingBack {
                assert(rest_stands_above(next.checkpoints, order, position + 1, targetBlock)) by {
                    assert forall|k: int| position + 1 <= k < order.len() implies is_above(
                        next.checkpoints,
                        targetBlock,
                        #[trigger] order[k] as int,
                    ) by {
                        assert(order[k] != order[position as int]);
                        assert(is_above(pipeline.checkpoints, targetBlock, order[k] as int));
                    }
                }
                assert(rest_covers(next.checkpoints, order, position + 1, targetBlock)) by {
                    assert forall|i: int| #[trigger]
                        is_above(next.checkpoints, targetBlock, i) implies exists|k: int|
                        position + 1 <= k < order.len() && #[trigger] order[k] == i by {
                        assert(i != visited);
                        assert(is_above(pipeline.checkpoints, targetBlock, i));
                        let k = choose|k: int|
                            position <= k < order.len() && #[trigger] order[k] == i;
                        assert(k != position);
                    }
                }
            } else {
                assert(position + 1 >= order.len());
                assert forall|a: int, b: int| 0 <= a <= b < next.checkpoints.len() implies height(
                    #[trigger] next.checkpoints[a],
                ) >= height(#[trigger] next.checkpoints[b]) by {
                    assert(capped(next.checkpoints[a], targetBlock) >= capped(
                        next.checkpoints[b],
                        targetBlock,
                    ));
                    if height(next.checkpoints[b]) > targetBlock {
                        assert(b != visited);
                        assert(is_above(pipeline.checkpoints, targetBlock, b));
                        let k = choose|k: int|
                            position <= k < order.len() && #[trigger] order[k] == b;
                        assert(k == position);
                    }
                }
            }
        },
        _ => {},
    }
}

/// While the stages are in line, no stage is asked to run beyond any stage
/// before it in the queue.
pub proof fn lemma_no_stage_runs_ahead(pipeline: PipelineModel, tip: u64, before: int, stage: int)
    requires
        descending(pipeline.checkpoints),
        0 <= before < stage < pipeline.checkpoints.len(),
    ensures
        pipeline.target(tip, stage) <= height(pipeline.checkpoints[before]),
{
    assert(height(pipeline.checkpoints[before]) >= height(pipeline.checkpoints[stage - 1]));
}

/// Whether event `k` of a step is in its place. `Running` and `Rollbacking`
/// come last in a step, with the request to the stage they are about; `Ran`
/// and `Rollbacked` come first, in answer to the commit of the stage they
/// are about, and carry what that stage reported.
pub open spec fn event_is_in_place(pipeline: PipelineModel, input: PipelineInput, k: int) -> bool {
    let taken = pipeline.transition(input);
    match taken.step.events[k] {
        PipelineEvent::Running { stageId, blockReachedDuringPreviousExecution } => {
            &&& k == taken.step.events.len() - 1
            &&& taken.step.action matches PipelineAction::Execute { stage, .. }
            &&& stageId == pipeline.stages[stage as int].stageId
            &&& blockReachedDuringPreviousExecution == taken.next.checkpoints[stage as int]
            &&& taken.next.phase matches PipelinePhase::Executing { stage: running, .. }
            &&& running == stage
        },
        PipelineEvent::Ran { stageId, result } => {
            &&& k == 0
            &&& input is Committed
            &&& pipeline.phase matches PipelinePhase::CommittingExecution { stage, output, .. }
            &&& stageId == pipeline.stages[stage as int].stageId
            &&& result == Some(output)
        },
        PipelineEvent::Rollbacking { stageId, result } => {
            &&& k == taken.step.events.len() - 1
            &&& taken.step.action matches PipelineAction::Rollback { stage, input: handed }
            &&& stageId == pipeline.stages[stage as int].stageId
            &&& result == Some(handed)
            &&& taken.next.phase is RollingBack
        },
        PipelineEvent::Rollbacked { stageId, result } => {
            &&& k == 0
            &&& input is Committed
            &&& pipeline.phase matches PipelinePhase::CommittingRollback { position, output, .. }
            &&& stageId == pipeline.stages[pipeline.rollbackOrder[position as int] as int].stageId
            &&& result == Some(output)
        },
    }
}

/// The events of a stage go out in the order of its work: `Running` with
/// the request to run, and `Ran` only once what it did is committed;
/// `Rollbacking` with the request to roll back, and `Rollbacked` only once
/// that is committed. As the pipeline waits for one stage at a time, the
/// events of two stages do not interleave.
pub proof fn lemma_events_follow_the_work(pipeline: PipelineModel, input: PipelineInput)
    requires
        pipeline.wf(),
    ensures
        forall|k: int|
            0 <= k < pipeline.transition(input).step.events.len() ==> #[trigger] event_is_in_place(
                pipeline,
                input,
                k,
            ),
        pipeline.transition(input).step.events.len() <= 2,
{
    let taken = pipeline.transition(input);
    match (pipeline.phase, input) {
        (PipelinePhase::Created, PipelineInput::Start) => {
            match pipeline.config.startWithRollbackToBlock {
                Some(targetBlock) => {
                    lemma_rollback_begins_on_course(
                        pipeline,
                        targetBlock,
                        None,
                        false,
                        pipeline.progress_metrics(),
                    );
                },
                None => {},
            }
        },
        (PipelinePhase::AwaitingTip, PipelineInput::Tip(tip)) => {
            let begun = PipelineModel {
                state: PipelineState {
                    reachedChainTip: false,
                    madeProgress: false,
                    ..pipeline.state
                },
                ..pipeline
            };
            lemma_next_runnable(begun, tip, 0);
        },
        (PipelinePhase::Executing { stage, tip, target }, PipelineInput::Executed(result)) => {
            match result {
                Err(StageExecutionError::InvalidState { responsibleBadBlock }) => {
                    lemma_rollback_begins_on_course(
                        pipeline,
                        rollback_target(
                            responsibleBadBlock,
                            height(pipeline.checkpoints[stage as int]),
                        ),
                        responsibleBadBlock,
                        true,
                        Seq::empty(),
                    );
                },
                _ => {},
            }
        },
        (
            PipelinePhase::CommittingExecution { stage, tip, target, output },
            PipelineInput::Committed(result),
        ) => {
            if result is Ok {
                lemma_next_runnable(after_execution(pipeline, stage, output), tip, stage + 1);
            }
        },
        _ => {},
    }
    assert forall|k: int| 0 <= k < taken.step.events.len() implies #[trigger] event_is_in_place(
        pipeline,
        input,
        k,
    ) by {}
}

/// How many more steps a pass can take at most from where the run stands.
/// A rollback that is going on needs two steps for each stage it is yet to
/// visit; a pass that runs forward needs two for each stage it is yet to go
/// over, and may then still have to roll every stage back.
pub open spec fn steps_left(pipeline: PipelineModel) -> int {
    let stages = pipeline.stages.len() as int;
    let visits = pipeline.rollbackOrder.len() as int;
    match pipeline.phase {
        PipelinePhase::Created => 4 * stages + 5,
        PipelinePhase::AwaitingTip => 4 * stages + 4,
        PipelinePhase::Executing { stage, .. } => 2 * stages + 2 + 2 * (stages - stage) + 1,
        PipelinePhase::CommittingExecution { stage, .. } => 2 * stages + 2 + 2 * (stages - stage),
        PipelinePhase::RollingBack { position, .. } => 2 * (visits - position) + 1,
        PipelinePhase::CommittingRollback { position, .. } => 2 * (visits - position),
        PipelinePhase::Finished => 0,
        PipelinePhase::Failed => 0,
    }
}

/// Whether the rollback order holds no more places than the queue has
/// stages, which it does from the first rollback on.
pub open spec fn order_fits(pipeline: PipelineModel) -> bool {
    pipeline.rollbackOrder.len() <= pipeline.stages.len()
}

/// Every pass comes to an end: each step either ends the pass, or the run,
/// or leaves fewer steps for the pass to take. So a pass over a queue of
/// `n` stages takes no more than `4 * n + 5` steps.
pub proof fn lemma_every_pass_ends(pipeline: PipelineModel, input: PipelineInput)
    requires
        pipeline.wf(),
        order_fits(pipeline),
    ensures
        ({
            let taken = pipeline.transition(input);
            &&& order_fits(taken.next)
            &&& 0 <= steps_left(taken.next)
            &&& steps_left(pipeline) <= 4 * pipeline.stages.len() + 5
            &&& (taken.step.controlFlow is Some || taken.step.action is Finish || steps_left(
                taken.next,
            ) < steps_left(pipeline))
        }),
{
    match (pipeline.phase, input) {
        (PipelinePhase::Created, PipelineInput::Start) => {
            match pipeline.config.startWithRollbackToBlock {
                Some(targetBlock) => {
                    lemma_rollback_order_len(
                        pipeline.stages,
                        pipeline.checkpoints,
                        targetBlock,
                        pipeline.stages.len(),
                    );
                },
                None => {},
            }
        },
        (PipelinePhase::AwaitingTip, PipelineInput::Tip(tip)) => {
            let begun = PipelineModel {
                state: PipelineState {
                    reachedChainTip: false,
                    madeProgress: false,
                    ..pipeline.state
                },
                ..pipeline
            };
            lemma_next_runnable(begun, tip, 0);
        },
        (PipelinePhase::Executing { stage, tip, target }, PipelineInput::Executed(result)) => {
            match result {
                Err(StageExecutionError::InvalidState { responsibleBadBlock }) => {
                    lemma_rollback_order_len(
                        pipeline.stages,
                        pipeline.checkpoints,
                        rollback_target(
                            responsibleBadBlock,
                            height(pipeline.checkpoints[stage as int]),
                        ),
                        pipeline.stages.len(),
                    );
                },
                _ => {},
            }
        },
        (
            PipelinePhase::CommittingExecution { stage, tip, target, output },
            PipelineInput::Committed(result),
        ) => {
            if result is Ok {
                lemma_next_runnable(after_execution(pipeline, stage, output), tip, stage + 1);
            }
        },
        _ => {},
    }
}

} // verus!
