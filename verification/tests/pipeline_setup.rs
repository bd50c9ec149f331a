#![allow(non_snake_case)]

use staged_sync::sync::metrics::MetricEvent;
use staged_sync::sync::pipeline::Pipeline;
use staged_sync::sync::pipeline_event::PipelineEvent;
use staged_sync::sync::pipeline_state::PipelineState;
use staged_sync::sync::pipeline_step::{
    PipelineAction, PipelineConfig, PipelineInput, PipelinePhase,
};
use staged_sync::sync::queued_stage::QueuedStage;
use staged_sync::sync::rollback::{rollbackOrder, rollbackTarget};
use staged_sync::sync::stage::{
    StageExecutionError, StageExecutionOutput, StageRollbackInput, StageRollbackOutput,
};
use staged_sync::sync::stage_checkpoint::{heightOf, StageCheckpoint};
use staged_sync::sync::stage_id::StageId;
use staged_sync::storage::db::db_error::DbError;
use staged_sync::sync::pipeline_error::PipelineError;
use tokio::sync::mpsc::unbounded_channel;

const A: StageId = StageId("A");
const B: StageId = StageId("B");

#[test]
fn stage_ids_are_the_same_when_their_names_are() {
    assert!(StageId("Headers").sameAs(&StageId("Headers")));
    assert!(!StageId("Headers").sameAs(&StageId("Header")));
    assert!(!StageId("Headers").sameAs(&StageId("headers")));
    assert!(StageId("").sameAs(&StageId("")));
    assert!(!StageId("é").sameAs(&StageId("e")));
}

#[test]
fn a_new_pipeline_is_empty_and_has_not_begun() {
    let pipeline = Pipeline::new();
    assert!(pipeline.queuedStages().is_empty());
    assert!(pipeline.checkpoints().is_empty());
    assert_eq!(pipeline.phase(), PipelinePhase::Created);
    assert_eq!(
        pipeline.config(),
        PipelineConfig {
            startWithRollbackToBlock: None,
            stopSyncAfterReachingBlock: None,
            exitAfterSync: false
        }
    );
    assert_eq!(pipeline.state(), PipelineState::new());
}

#[test]
fn stages_are_queued_in_the_order_they_are_pushed() {
    let mut pipeline = Pipeline::new();
    pipeline.pushStage(A, true).pushStageWithRollbackPriority(B, false, 3);
    assert_eq!(
        pipeline.queuedStages(),
        &vec![
            QueuedStage { stageId: A, rollbackPriority: 0, executionRequiresReachingChainTip: true },
            QueuedStage { stageId: B, rollbackPriority: 3, executionRequiresReachingChainTip: false },
        ]
    );
    assert_eq!(pipeline.checkpoints(), &vec![None, None]);
    assert_eq!(pipeline.stagePosition(&A), Some(0));
    assert_eq!(pipeline.stagePosition(&B), Some(1));
    assert_eq!(pipeline.stagePosition(&StageId("C")), None);
    assert!(pipeline.containsStage(&B));
    assert!(!pipeline.containsStage(&StageId("C")));
}

#[test]
fn settings_are_kept() {
    let mut pipeline = Pipeline::new();
    pipeline
        .startWithRollbackToBlock(Some(7))
        .stopSyncAfterReachingBlock(Some(9))
        .exitAfterSync(true);
    assert_eq!(
        pipeline.config(),
        PipelineConfig {
            startWithRollbackToBlock: Some(7),
            stopSyncAfterReachingBlock: Some(9),
            exitAfterSync: true
        }
    );
}

#[test]
fn checkpoints_are_restored_by_name() {
    let mut pipeline = Pipeline::new();
    pipeline.pushStage(A, false).pushStage(B, false);
    assert_eq!(pipeline.getCheckpoint(&A), None);
    assert!(pipeline.restoreCheckpoint(&B, Some(12)));
    assert!(!pipeline.restoreCheckpoint(&StageId("C"), Some(1)));
    assert_eq!(pipeline.getCheckpoint(&A), None);
    assert_eq!(pipeline.getCheckpoint(&B), Some(12));
    assert_eq!(pipeline.getCheckpoint(&StageId("C")), None);
    assert_eq!(pipeline.checkpoints(), &vec![None, Some(12)]);
}

#[test]
fn a_checkpoint_never_stored_stands_at_block_zero() {
    assert_eq!(heightOf(None), 0);
    assert_eq!(heightOf(Some(0)), 0);
    assert_eq!(heightOf(Some(41)), 41);
}

#[test]
fn the_rollback_goes_to_the_block_before_the_bad_one() {
    assert_eq!(rollbackTarget(Some(95), 110), 94);
    assert_eq!(rollbackTarget(Some(1), 110), 0);
    assert_eq!(rollbackTarget(Some(0), 110), 0);
    assert_eq!(rollbackTarget(None, 110), 109);
    assert_eq!(rollbackTarget(None, 0), 0);
    assert_eq!(rollbackTarget(Some(u64::MAX), 3), u64::MAX - 1);
}

fn queued(name: &'static str, priority: usize) -> QueuedStage {
    QueuedStage {
        stageId: StageId(name),
        rollbackPriority: priority,
        executionRequiresReachingChainTip: false,
    }
}

#[test]
fn the_rollback_order_goes_by_priority_and_then_backwards() {
    let stages = vec![queued("A", 0), queued("B", 0), queued("C", 1)];
    let checkpoints = vec![Some(120), Some(110), Some(100)];
    assert_eq!(rollbackOrder(&stages, &checkpoints, 94), vec![2, 1, 0]);
    // Only what stands above the target is visited.
    assert_eq!(rollbackOrder(&stages, &checkpoints, 100), vec![1, 0]);
    assert_eq!(rollbackOrder(&stages, &checkpoints, 119), vec![0]);
    assert_eq!(rollbackOrder(&stages, &checkpoints, 120), Vec::<usize>::new());

    let stages = vec![queued("A", 5), queued("B", 1), queued("C", 5), queued("D", 3)];
    let checkpoints = vec![Some(9), Some(9), Some(9), None];
    assert_eq!(rollbackOrder(&stages, &checkpoints, 0), vec![2, 0, 1]);
    let checkpoints = vec![Some(9), Some(9), Some(9), Some(9)];
    assert_eq!(rollbackOrder(&stages, &checkpoints, 0), vec![2, 0, 3, 1]);
    assert_eq!(rollbackOrder(&Vec::new(), &Vec::new(), 0), Vec::<usize>::new());
}

#[test]
fn the_state_takes_in_the_blocks_it_dealt_with() {
    let mut state = PipelineState::new();
    assert_eq!(state.oldestBlockReached, None);
    state.record(50);
    assert_eq!((state.oldestBlockReached, state.mostRecentBlockReached), (Some(50), Some(50)));
    state.record(70);
    assert_eq!((state.oldestBlockReached, state.mostRecentBlockReached), (Some(50), Some(70)));
    state.record(20);
    assert_eq!((state.oldestBlockReached, state.mostRecentBlockReached), (Some(20), Some(70)));
    state.record(30);
    assert_eq!((state.oldestBlockReached, state.mostRecentBlockReached), (Some(20), Some(70)));
}

#[test]
fn a_rollback_asked_for_comes_before_the_first_pass() {
    let mut pipeline = Pipeline::new();
    pipeline.pushStage(A, false).pushStage(B, false);
    pipeline.startWithRollbackToBlock(Some(30));
    pipeline.restoreCheckpoint(&A, Some(50));
    pipeline.restoreCheckpoint(&B, Some(20));
    let started = pipeline.step(PipelineInput::Start);
    // Only A stands above block 30.
    assert_eq!(
        started.action,
        PipelineAction::Rollback {
            stage: 0,
            input: StageRollbackInput {
                currentBlock: 50,
                targetBlock: 30,
                responsibleBadBlock: None
            }
        }
    );
    assert!(!started.discardTransaction);
    assert_eq!(started.metrics.len(), 2);
    pipeline.step(PipelineInput::RolledBack(Ok(StageRollbackOutput { blockReached: 30 })));
    let done = pipeline.step(PipelineInput::Committed(Ok(false)));
    assert_eq!(done.action, PipelineAction::ObserveTip { wait: false });
    assert_eq!(pipeline.checkpoints(), &vec![Some(30), Some(20)]);
}

#[test]
fn a_rollback_with_nothing_to_undo_goes_straight_on() {
    let mut pipeline = Pipeline::new();
    pipeline.pushStage(A, false);
    pipeline.startWithRollbackToBlock(Some(30));
    pipeline.restoreCheckpoint(&A, Some(30));
    let started = pipeline.step(PipelineInput::Start);
    assert_eq!(started.action, PipelineAction::ObserveTip { wait: false });
    assert!(started.events.is_empty());
}

#[test]
fn a_failed_rollback_ends_the_run() {
    let mut pipeline = Pipeline::new();
    pipeline.pushStage(A, false);
    pipeline.restoreCheckpoint(&A, Some(50));
    pipeline.step(PipelineInput::Start);
    pipeline.step(PipelineInput::Tip(60));
    let failed = pipeline.step(PipelineInput::Executed(Err(StageExecutionError::InvalidState {
        responsibleBadBlock: None,
    })));
    // With no block named, the rollback goes to the one before the stage's own.
    assert_eq!(
        failed.action,
        PipelineAction::Rollback {
            stage: 0,
            input: StageRollbackInput {
                currentBlock: 50,
                targetBlock: 49,
                responsibleBadBlock: None
            }
        }
    );
    let ended = pipeline.step(PipelineInput::RolledBack(Err(String::from("corrupt"))));
    assert!(ended.discardTransaction);
    assert_eq!(
        ended.action,
        PipelineAction::Finish(Err(PipelineError::StageRollback {
            stageId: A,
            checkpoint: Some(50),
            message: String::from("corrupt")
        }))
    );
    assert_eq!(pipeline.getCheckpoint(&A), Some(50));
}

#[test]
fn a_failed_commit_of_a_rollback_ends_the_run() {
    let mut pipeline = Pipeline::new();
    pipeline.pushStage(A, false);
    pipeline.startWithRollbackToBlock(Some(5));
    pipeline.restoreCheckpoint(&A, Some(50));
    pipeline.step(PipelineInput::Start);
    pipeline.step(PipelineInput::RolledBack(Ok(StageRollbackOutput { blockReached: 5 })));
    let ended =
        pipeline.step(PipelineInput::Committed(Err(DbError::Failure(String::from("locked")))));
    assert_eq!(
        ended.action,
        PipelineAction::Finish(Err(PipelineError::Commit {
            stageId: A,
            checkpoint: Some(50),
            error: DbError::Failure(String::from("locked"))
        }))
    );
    assert_eq!(pipeline.getCheckpoint(&A), Some(50));
}

#[test]
fn subscribers_receive_what_a_step_emits() {
    let mut pipeline = Pipeline::new();
    pipeline.pushStage(A, false);
    let (events, mut eventsReceiver) = unbounded_channel::<PipelineEvent>();
    let (metrics, mut metricsReceiver) = unbounded_channel::<MetricEvent>();
    let (gone, goneReceiver) = unbounded_channel::<PipelineEvent>();
    pipeline.subscribeToEvents(gone);
    pipeline.subscribeToEvents(events);
    pipeline.subscribeToMetrics(metrics);
    drop(goneReceiver);

    let started = pipeline.advance(PipelineInput::Start);
    assert_eq!(started.action, PipelineAction::ObserveTip { wait: false });
    assert_eq!(
        metricsReceiver.try_recv().unwrap(),
        MetricEvent::StageReachedCheckpoint {
            stageId: A,
            checkpoint: StageCheckpoint { blockNumber: 0 },
            knownLatestBlockReachableByStage: None
        }
    );
    assert!(eventsReceiver.try_recv().is_err());

    pipeline.advance(PipelineInput::Tip(10));
    assert_eq!(
        eventsReceiver.try_recv().unwrap(),
        PipelineEvent::Running { stageId: A, blockReachedDuringPreviousExecution: None }
    );
    let output =
        StageExecutionOutput { blockReached: 10, executionCompleted: true, reachedChainTip: true };
    pipeline.advance(PipelineInput::Executed(Ok(output)));
    assert!(eventsReceiver.try_recv().is_err());
    pipeline.advance(PipelineInput::Committed(Ok(true)));
    assert_eq!(
        eventsReceiver.try_recv().unwrap(),
        PipelineEvent::Ran { stageId: A, result: Some(output) }
    );
    assert_eq!(
        metricsReceiver.try_recv().unwrap(),
        MetricEvent::StageReachedCheckpoint {
            stageId: A,
            checkpoint: StageCheckpoint { blockNumber: 10 },
            knownLatestBlockReachableByStage: Some(10)
        }
    );
}

#[test]
fn progress_metrics_tell_where_each_stage_stands() {
    let mut pipeline = Pipeline::new();
    pipeline.pushStage(A, false).pushStage(B, false);
    pipeline.restoreCheckpoint(&A, Some(8));
    let expected = vec![
        MetricEvent::StageReachedCheckpoint {
            stageId: A,
            checkpoint: StageCheckpoint { blockNumber: 8 },
            knownLatestBlockReachableByStage: None,
        },
        MetricEvent::StageReachedCheckpoint {
            stageId: B,
            checkpoint: StageCheckpoint { blockNumber: 0 },
            knownLatestBlockReachableByStage: None,
        },
    ];
    assert_eq!(pipeline.progressMetricOfStages(), expected);

    let (metrics, mut metricsReceiver) = unbounded_channel::<MetricEvent>();
    pipeline.subscribeToMetrics(metrics);
    assert!(pipeline.emitProgressMetricOfStages().is_ok());
    assert_eq!(metricsReceiver.try_recv().unwrap(), expected[0]);
    assert_eq!(metricsReceiver.try_recv().unwrap(), expected[1]);
    assert!(metricsReceiver.try_recv().is_err());

    // Without anybody listening it is no error either.
    drop(metricsReceiver);
    assert!(pipeline.emitProgressMetricOfStages().is_ok());
    assert_eq!(pipeline.phase(), PipelinePhase::Created);
}
