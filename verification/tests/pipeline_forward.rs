#![allow(non_snake_case)]

use staged_sync::storage::db::db_error::DbError;
use staged_sync::sync::metrics::MetricEvent;
use staged_sync::sync::pipeline::{effectiveTarget, Pipeline};
use staged_sync::sync::pipeline_control_flow::PipelineControlFlow;
use staged_sync::sync::pipeline_error::PipelineError;
use staged_sync::sync::pipeline_event::PipelineEvent;
use staged_sync::sync::pipeline_step::{
    PipelineAction, PipelineInput, PipelinePhase, PipelineStep, SkipReason, SkippedStage,
};
use staged_sync::sync::stage::{StageExecutionError, StageExecutionInput, StageExecutionOutput};
use staged_sync::sync::stage_checkpoint::StageCheckpoint;
use staged_sync::sync::stage_id::StageId;

const HEADERS: StageId = StageId("Headers");
const BODIES: StageId = StageId("Bodies");
const EXECUTION: StageId = StageId("Execution");

fn headersBodiesExecution() -> Pipeline {
    let mut pipeline = Pipeline::new();
    pipeline.pushStage(HEADERS, false).pushStage(BODIES, false).pushStage(EXECUTION, true);
    pipeline
}

fn reached(block: u64, tip: bool) -> StageExecutionOutput {
    StageExecutionOutput { blockReached: block, executionCompleted: true, reachedChainTip: tip }
}

fn runAndCommit(pipeline: &mut Pipeline, output: StageExecutionOutput) -> PipelineStep {
    let executed = pipeline.step(PipelineInput::Executed(Ok(output)));
    match executed.action {
        PipelineAction::Commit { checkpoint, .. } => assert_eq!(checkpoint, output.blockReached),
        other => panic!("expected a commit, got {:?}", other),
    }
    assert!(executed.events.is_empty());
    pipeline.step(PipelineInput::Committed(Ok(true)))
}

#[test]
fn the_lowest_bound_is_the_target() {
    assert_eq!(effectiveTarget(100, None, None), 100);
    assert_eq!(effectiveTarget(100, Some(80), None), 80);
    assert_eq!(effectiveTarget(100, Some(120), None), 100);
    assert_eq!(effectiveTarget(100, Some(80), Some(50)), 50);
    assert_eq!(effectiveTarget(100, Some(80), Some(90)), 80);
    assert_eq!(effectiveTarget(100, None, Some(0)), 0);
    assert_eq!(effectiveTarget(0, Some(5), Some(7)), 0);
}

#[test]
fn a_pass_runs_the_stages_in_queue_order_each_up_to_the_one_before() {
    let mut pipeline = headersBodiesExecution();
    let started = pipeline.step(PipelineInput::Start);
    assert_eq!(started.action, PipelineAction::ObserveTip { wait: false });
    assert_eq!(started.controlFlow, None);
    assert_eq!(
        started.metrics,
        vec![
            MetricEvent::StageReachedCheckpoint {
                stageId: HEADERS,
                checkpoint: StageCheckpoint { blockNumber: 0 },
                knownLatestBlockReachableByStage: None
            },
            MetricEvent::StageReachedCheckpoint {
                stageId: BODIES,
                checkpoint: StageCheckpoint { blockNumber: 0 },
                knownLatestBlockReachableByStage: None
            },
            MetricEvent::StageReachedCheckpoint {
                stageId: EXECUTION,
                checkpoint: StageCheckpoint { blockNumber: 0 },
                knownLatestBlockReachableByStage: None
            },
        ]
    );

    let begun = pipeline.step(PipelineInput::Tip(100));
    assert_eq!(
        begun.action,
        PipelineAction::Execute {
            stage: 0,
            input: StageExecutionInput {
                previousStageInfo: None,
                blockReachedDuringLastExecution: None
            }
        }
    );
    assert_eq!(
        begun.events,
        vec![PipelineEvent::Running {
            stageId: HEADERS,
            blockReachedDuringPreviousExecution: None
        }]
    );
    assert_eq!(pipeline.phase(), PipelinePhase::Executing { stage: 0, tip: 100, target: 100 });

    let afterHeaders = runAndCommit(&mut pipeline, reached(100, true));
    assert_eq!(pipeline.getCheckpoint(&HEADERS), Some(100));
    assert_eq!(
        afterHeaders.events,
        vec![
            PipelineEvent::Ran { stageId: HEADERS, result: Some(reached(100, true)) },
            PipelineEvent::Running {
                stageId: BODIES,
                blockReachedDuringPreviousExecution: None
            },
        ]
    );
    assert_eq!(
        afterHeaders.metrics,
        vec![MetricEvent::StageReachedCheckpoint {
            stageId: HEADERS,
            checkpoint: StageCheckpoint { blockNumber: 100 },
            knownLatestBlockReachableByStage: Some(100)
        }]
    );
    assert_eq!(
        afterHeaders.action,
        PipelineAction::Execute {
            stage: 1,
            input: StageExecutionInput {
                previousStageInfo: Some((HEADERS, 100)),
                blockReachedDuringLastExecution: None
            }
        }
    );

    // Bodies stops short at 60; execution may go no further than that.
    let afterBodies = runAndCommit(&mut pipeline, reached(60, true));
    assert_eq!(
        afterBodies.action,
        PipelineAction::Execute {
            stage: 2,
            input: StageExecutionInput {
                previousStageInfo: Some((BODIES, 60)),
                blockReachedDuringLastExecution: None
            }
        }
    );
    assert_eq!(pipeline.phase(), PipelinePhase::Executing { stage: 2, tip: 100, target: 60 });

    let ended = runAndCommit(&mut pipeline, reached(60, true));
    assert_eq!(ended.action, PipelineAction::ObserveTip { wait: false });
    assert_eq!(
        ended.controlFlow,
        Some(PipelineControlFlow::Continue {
            mostRecentBlockReached: Some(100),
            reachedChainTip: true
        })
    );
    assert_eq!(pipeline.checkpoints(), &vec![Some(100), Some(60), Some(60)]);
    assert_eq!(pipeline.state().oldestBlockReached, Some(60));
    assert_eq!(pipeline.state().mostRecentBlockReached, Some(100));
    assert!(pipeline.state().passCompleted);
}

#[test]
fn a_stage_at_its_target_is_passed_over() {
    let mut pipeline = headersBodiesExecution();
    pipeline.restoreCheckpoint(&HEADERS, Some(100));
    pipeline.restoreCheckpoint(&BODIES, Some(100));
    pipeline.restoreCheckpoint(&EXECUTION, Some(100));
    pipeline.step(PipelineInput::Start);
    let passed = pipeline.step(PipelineInput::Tip(100));

    // No transaction was opened or committed, and no event went out.
    assert_eq!(passed.action, PipelineAction::ObserveTip { wait: true });
    assert!(!passed.discardTransaction);
    assert!(passed.events.is_empty());
    assert!(passed.metrics.is_empty());
    assert_eq!(
        passed.skipped,
        vec![
            SkippedStage { stageId: HEADERS, reason: SkipReason::CheckpointReachedTarget },
            SkippedStage { stageId: BODIES, reason: SkipReason::CheckpointReachedTarget },
            SkippedStage { stageId: EXECUTION, reason: SkipReason::CheckpointReachedTarget },
        ]
    );
    assert_eq!(
        passed.controlFlow,
        Some(PipelineControlFlow::NoProgress {
            mostRecentBlockReached: None,
            reachedChainTip: false
        })
    );
    assert_eq!(pipeline.checkpoints(), &vec![Some(100), Some(100), Some(100)]);
}

#[test]
fn a_stage_beyond_its_target_is_passed_over_too() {
    let mut pipeline = headersBodiesExecution();
    pipeline.restoreCheckpoint(&HEADERS, Some(50));
    pipeline.restoreCheckpoint(&BODIES, Some(80));
    pipeline.step(PipelineInput::Start);
    let begun = pipeline.step(PipelineInput::Tip(100));
    assert_eq!(begun.skipped, vec![]);
    // Headers reaches 70 only: bodies, at 80, has nothing to do.
    let passed = runAndCommit(&mut pipeline, reached(70, true));
    assert_eq!(
        passed.skipped,
        vec![SkippedStage { stageId: BODIES, reason: SkipReason::CheckpointReachedTarget }]
    );
    match passed.action {
        PipelineAction::Execute { stage, input } => {
            assert_eq!(stage, 2);
            assert_eq!(input.previousStageInfo, Some((BODIES, 80)));
        }
        other => panic!("expected execution to run, got {:?}", other),
    }
    assert_eq!(pipeline.skipReason(100, 1), Some(SkipReason::CheckpointReachedTarget));
    assert_eq!(pipeline.targetOf(100, 1), 70);
    assert_eq!(pipeline.targetOf(100, 2), 80);
}

#[test]
fn a_stage_that_needs_the_tip_waits_for_the_stage_before_it_to_reach_it() {
    let mut pipeline = headersBodiesExecution();
    pipeline.step(PipelineInput::Start);
    pipeline.step(PipelineInput::Tip(100));
    runAndCommit(&mut pipeline, reached(100, true));
    // Bodies ran and did not reach the tip: execution is passed over.
    let gated = runAndCommit(&mut pipeline, reached(90, false));
    assert_eq!(
        gated.skipped,
        vec![SkippedStage { stageId: EXECUTION, reason: SkipReason::ChainTipNotReached }]
    );
    assert_eq!(gated.action, PipelineAction::ObserveTip { wait: false });
    assert_eq!(pipeline.getCheckpoint(&EXECUTION), None);
    assert_eq!(
        gated.events,
        vec![PipelineEvent::Ran { stageId: BODIES, result: Some(reached(90, false)) }]
    );

    // In the next pass bodies reaches the tip, and execution runs.
    pipeline.step(PipelineInput::Tip(100));
    let opened = runAndCommit(&mut pipeline, reached(100, true));
    match opened.action {
        PipelineAction::Execute { stage, .. } => assert_eq!(stage, 2),
        other => panic!("expected execution to run, got {:?}", other),
    }
    assert!(opened.skipped.is_empty());
}

#[test]
fn an_internal_error_ends_the_run_and_commits_nothing() {
    let mut pipeline = headersBodiesExecution();
    pipeline.restoreCheckpoint(&HEADERS, Some(10));
    pipeline.step(PipelineInput::Start);
    pipeline.step(PipelineInput::Tip(100));
    let failed = pipeline.step(PipelineInput::Executed(Err(StageExecutionError::Internal(
        String::from("disk full"),
    ))));
    assert!(failed.discardTransaction);
    assert_eq!(
        failed.action,
        PipelineAction::Finish(Err(PipelineError::StageExecution {
            stageId: HEADERS,
            checkpoint: Some(10),
            message: String::from("disk full")
        }))
    );
    assert!(failed.events.is_empty());
    assert_eq!(pipeline.phase(), PipelinePhase::Failed);
    assert_eq!(pipeline.checkpoints(), &vec![Some(10), None, None]);

    // The run stays ended, whatever is reported to it.
    let after = pipeline.step(PipelineInput::Committed(Ok(true)));
    assert_eq!(after.action, PipelineAction::Finish(Err(PipelineError::UnexpectedInput)));
    assert_eq!(pipeline.checkpoints(), &vec![Some(10), None, None]);
}

#[test]
fn a_failed_commit_ends_the_run_and_leaves_the_checkpoint() {
    let mut pipeline = headersBodiesExecution();
    pipeline.step(PipelineInput::Start);
    pipeline.step(PipelineInput::Tip(100));
    pipeline.step(PipelineInput::Executed(Ok(reached(100, true))));
    let failed = pipeline.step(PipelineInput::Committed(Err(DbError::Failure(String::from(
        "no space",
    )))));
    assert_eq!(
        failed.action,
        PipelineAction::Finish(Err(PipelineError::Commit {
            stageId: HEADERS,
            checkpoint: None,
            error: DbError::Failure(String::from("no space"))
        }))
    );
    assert!(!failed.discardTransaction);
    assert_eq!(pipeline.getCheckpoint(&HEADERS), None);
    assert_eq!(pipeline.phase(), PipelinePhase::Failed);
}

#[test]
fn the_run_ends_once_every_stage_has_reached_the_block_to_stop_at() {
    let mut pipeline = Pipeline::new();
    pipeline.pushStage(HEADERS, false).pushStage(BODIES, false);
    pipeline.stopSyncAfterReachingBlock(Some(50)).exitAfterSync(true);
    let started = pipeline.step(PipelineInput::Start);
    assert_eq!(started.action, PipelineAction::ObserveTip { wait: false });

    let begun = pipeline.step(PipelineInput::Tip(100));
    assert_eq!(pipeline.phase(), PipelinePhase::Executing { stage: 0, tip: 100, target: 50 });
    assert!(matches!(begun.action, PipelineAction::Execute { stage: 0, .. }));
    let second = runAndCommit(&mut pipeline, reached(50, false));
    assert!(matches!(second.action, PipelineAction::Execute { stage: 1, .. }));
    let ended = runAndCommit(&mut pipeline, reached(50, false));
    assert_eq!(ended.action, PipelineAction::Finish(Ok(())));
    assert_eq!(pipeline.phase(), PipelinePhase::Finished);
    assert!(pipeline.shouldExit());
    assert!(pipeline.allReached(50));
    assert!(!pipeline.allReached(51));

    // No further pass: the run asks for nothing more.
    let after = pipeline.step(PipelineInput::Tip(200));
    assert_eq!(after.action, PipelineAction::Finish(Err(PipelineError::UnexpectedInput)));
    assert_eq!(pipeline.checkpoints(), &vec![Some(50), Some(50)]);
}

#[test]
fn a_run_that_is_over_before_it_begins_makes_no_pass() {
    let mut pipeline = Pipeline::new();
    pipeline.pushStage(HEADERS, false).pushStage(BODIES, false);
    pipeline.stopSyncAfterReachingBlock(Some(50)).exitAfterSync(true);
    pipeline.restoreCheckpoint(&HEADERS, Some(60));
    pipeline.restoreCheckpoint(&BODIES, Some(50));
    let started = pipeline.step(PipelineInput::Start);
    assert_eq!(started.action, PipelineAction::Finish(Ok(())));
    assert!(started.events.is_empty());
}

#[test]
fn without_exit_after_sync_the_run_goes_on_at_the_block_to_stop_at() {
    let mut pipeline = Pipeline::new();
    pipeline.pushStage(HEADERS, false);
    pipeline.stopSyncAfterReachingBlock(Some(50));
    pipeline.restoreCheckpoint(&HEADERS, Some(50));
    assert_eq!(pipeline.step(PipelineInput::Start).action, PipelineAction::ObserveTip { wait: false });
    let passed = pipeline.step(PipelineInput::Tip(100));
    assert_eq!(passed.action, PipelineAction::ObserveTip { wait: true });
    assert!(!pipeline.shouldExit());
}

#[test]
fn with_exit_after_sync_and_no_block_to_stop_at_one_pass_is_made() {
    let mut pipeline = Pipeline::new();
    pipeline.pushStage(HEADERS, false);
    pipeline.exitAfterSync(true);
    assert_eq!(pipeline.step(PipelineInput::Start).action, PipelineAction::ObserveTip { wait: false });
    pipeline.step(PipelineInput::Tip(100));
    let ended = runAndCommit(&mut pipeline, reached(70, false));
    assert_eq!(ended.action, PipelineAction::Finish(Ok(())));
    assert_eq!(
        ended.controlFlow,
        Some(PipelineControlFlow::Continue {
            mostRecentBlockReached: Some(70),
            reachedChainTip: false
        })
    );
}

#[test]
fn what_the_run_was_not_waiting_for_ends_it() {
    let mut pipeline = headersBodiesExecution();
    let refused = pipeline.step(PipelineInput::Tip(5));
    assert_eq!(refused.action, PipelineAction::Finish(Err(PipelineError::UnexpectedInput)));
    assert!(!refused.discardTransaction);
    assert_eq!(pipeline.phase(), PipelinePhase::Failed);

    let mut pipeline = headersBodiesExecution();
    pipeline.step(PipelineInput::Start);
    pipeline.step(PipelineInput::Tip(5));
    // A transaction is open for headers: it is dropped.
    let refused = pipeline.step(PipelineInput::Start);
    assert_eq!(refused.action, PipelineAction::Finish(Err(PipelineError::UnexpectedInput)));
    assert!(refused.discardTransaction);
}

#[test]
fn an_unfinished_stage_makes_the_pass_continue() {
    let mut pipeline = Pipeline::new();
    pipeline.pushStage(HEADERS, false);
    pipeline.restoreCheckpoint(&HEADERS, Some(10));
    pipeline.step(PipelineInput::Start);
    pipeline.step(PipelineInput::Tip(100));
    // The stage stays where it was, but says that it is not done.
    let ended = runAndCommit(
        &mut pipeline,
        StageExecutionOutput { blockReached: 10, executionCompleted: false, reachedChainTip: false },
    );
    assert_eq!(ended.action, PipelineAction::ObserveTip { wait: false });
    assert!(matches!(ended.controlFlow, Some(PipelineControlFlow::Continue { .. })));

    // When it is done and stays where it was, nothing has moved.
    pipeline.step(PipelineInput::Tip(100));
    let ended = runAndCommit(&mut pipeline, reached(10, false));
    assert_eq!(ended.action, PipelineAction::ObserveTip { wait: true });
    assert_eq!(
        ended.controlFlow,
        Some(PipelineControlFlow::NoProgress {
            mostRecentBlockReached: Some(10),
            reachedChainTip: false
        })
    );
}

fn inLine(checkpoints: &Vec<Option<u64>>) -> bool {
    checkpoints.windows(2).all(|pair| pair[0].unwrap_or(0) >= pair[1].unwrap_or(0))
}

#[test]
fn no_stage_comes_to_stand_above_a_stage_before_it() {
    let mut pipeline = headersBodiesExecution();
    pipeline.step(PipelineInput::Start);
    for (round, tip) in [40u64, 100, 100, 250].into_iter().enumerate() {
        let mut step = pipeline.step(PipelineInput::Tip(tip));
        loop {
            match step.action {
                PipelineAction::Execute { stage, input } => {
                    let target = pipeline.targetOf(tip, stage);
                    if let Some((_, before)) = input.previousStageInfo {
                        assert!(target <= before);
                    }
                    assert!(target <= tip);
                    // Each stage goes as far as it may, but for the second, which lags.
                    let block = if stage == 1 && round % 2 == 0 { target - 1 } else { target };
                    step = runAndCommit(&mut pipeline, reached(block, block == tip));
                    assert!(inLine(pipeline.checkpoints()));
                }
                PipelineAction::ObserveTip { .. } => break,
                other => panic!("unexpected {:?}", other),
            }
        }
    }
    assert_eq!(pipeline.checkpoints(), &vec![Some(250), Some(250), Some(250)]);
}

#[test]
fn the_tip_that_an_earlier_stage_reached_still_counts_behind_a_stage_passed_over() {
    let mut pipeline = headersBodiesExecution();
    pipeline.restoreCheckpoint(&HEADERS, Some(90));
    pipeline.restoreCheckpoint(&BODIES, Some(100));
    pipeline.restoreCheckpoint(&EXECUTION, Some(50));
    pipeline.step(PipelineInput::Start);
    pipeline.step(PipelineInput::Tip(100));
    // Headers reaches the tip; bodies is there already, and execution runs.
    let passed = runAndCommit(&mut pipeline, reached(100, true));
    assert_eq!(
        passed.skipped,
        vec![SkippedStage { stageId: BODIES, reason: SkipReason::CheckpointReachedTarget }]
    );
    assert!(matches!(passed.action, PipelineAction::Execute { stage: 2, .. }));
}

#[test]
fn at_the_start_of_a_pass_the_tip_counts_as_not_reached() {
    let mut pipeline = headersBodiesExecution();
    pipeline.restoreCheckpoint(&HEADERS, Some(100));
    pipeline.restoreCheckpoint(&BODIES, Some(100));
    pipeline.restoreCheckpoint(&EXECUTION, Some(50));
    pipeline.step(PipelineInput::Start);
    let passed = pipeline.step(PipelineInput::Tip(100));
    assert_eq!(
        passed.skipped,
        vec![
            SkippedStage { stageId: HEADERS, reason: SkipReason::CheckpointReachedTarget },
            SkippedStage { stageId: BODIES, reason: SkipReason::CheckpointReachedTarget },
            SkippedStage { stageId: EXECUTION, reason: SkipReason::ChainTipNotReached },
        ]
    );
    assert_eq!(passed.action, PipelineAction::ObserveTip { wait: true });
}
