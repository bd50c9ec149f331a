#![allow(non_snake_case)]

use staged_sync::sync::pipeline::Pipeline;
use staged_sync::sync::pipeline_control_flow::PipelineControlFlow;
use staged_sync::sync::pipeline_event::PipelineEvent;
use staged_sync::sync::pipeline_step::{PipelineAction, PipelineInput, PipelinePhase};
use staged_sync::sync::stage::{
    StageExecutionError, StageRollbackInput, StageRollbackOutput,
};
use staged_sync::sync::stage_id::StageId;

const A: StageId = StageId("A");
const B: StageId = StageId("B");
const C: StageId = StageId("C");

fn threeStages() -> Pipeline {
    let mut pipeline = Pipeline::new();
    pipeline.pushStage(A, false).pushStage(B, false).pushStageWithRollbackPriority(C, false, 1);
    assert!(pipeline.restoreCheckpoint(&A, Some(120)));
    assert!(pipeline.restoreCheckpoint(&B, Some(110)));
    assert!(pipeline.restoreCheckpoint(&C, Some(100)));
    pipeline
}

#[test]
fn rollback_visits_stages_by_priority_then_in_reverse_queue_order() {
    let mut pipeline = threeStages();
    let started = pipeline.step(PipelineInput::Start);
    assert_eq!(started.action, PipelineAction::ObserveTip { wait: false });

    // With the tip at 120 stage A has nothing to do, and B is run.
    let begun = pipeline.step(PipelineInput::Tip(120));
    match begun.action {
        PipelineAction::Execute { stage, .. } => assert_eq!(stage, 1),
        other => panic!("expected B to run, got {:?}", other),
    }

    let failed = pipeline.step(PipelineInput::Executed(Err(StageExecutionError::InvalidState {
        responsibleBadBlock: Some(95),
    })));
    assert!(failed.discardTransaction);

    let mut visited: Vec<usize> = Vec::new();
    let mut step = failed;
    loop {
        match step.action {
            PipelineAction::Rollback { stage, input } => {
                assert_eq!(input.targetBlock, 94);
                assert_eq!(input.responsibleBadBlock, Some(95));
                visited.push(stage);
                let reported = pipeline.step(PipelineInput::RolledBack(Ok(StageRollbackOutput {
                    blockReached: input.targetBlock,
                })));
                assert_eq!(
                    reported.action,
                    PipelineAction::Commit { stage, checkpoint: 94 }
                );
                step = pipeline.step(PipelineInput::Committed(Ok(true)));
            }
            _ => break,
        }
    }
    // C has the higher priority; B and A are equal, and B runs later.
    assert_eq!(visited, vec![2, 1, 0]);
    assert_eq!(step.action, PipelineAction::ObserveTip { wait: false });
    assert_eq!(
        step.controlFlow,
        Some(PipelineControlFlow::Continue {
            mostRecentBlockReached: Some(94),
            reachedChainTip: false
        })
    );
    assert_eq!(pipeline.phase(), PipelinePhase::AwaitingTip);
    for id in [A, B, C] {
        assert!(pipeline.getCheckpoint(&id).unwrap() <= 94);
    }
    assert_eq!(
        step.events,
        vec![PipelineEvent::Rollbacked {
            stageId: A,
            result: Some(StageRollbackOutput { blockReached: 94 })
        }]
    );
}

#[test]
fn rollback_input_names_the_block_each_stage_stands_at() {
    let mut pipeline = threeStages();
    pipeline.step(PipelineInput::Start);
    pipeline.step(PipelineInput::Tip(120));
    let failed = pipeline.step(PipelineInput::Executed(Err(StageExecutionError::InvalidState {
        responsibleBadBlock: Some(95),
    })));
    assert_eq!(
        failed.action,
        PipelineAction::Rollback {
            stage: 2,
            input: StageRollbackInput {
                currentBlock: 100,
                targetBlock: 94,
                responsibleBadBlock: Some(95)
            }
        }
    );
    assert_eq!(
        failed.events,
        vec![PipelineEvent::Rollbacking {
            stageId: C,
            result: Some(StageRollbackInput {
                currentBlock: 100,
                targetBlock: 94,
                responsibleBadBlock: Some(95)
            })
        }]
    );
}

#[test]
fn after_a_rollback_the_next_pass_runs_forward_from_the_target() {
    let mut pipeline = threeStages();
    pipeline.step(PipelineInput::Start);
    pipeline.step(PipelineInput::Tip(120));
    let mut step = pipeline.step(PipelineInput::Executed(Err(StageExecutionError::InvalidState {
        responsibleBadBlock: Some(95),
    })));
    while let PipelineAction::Rollback { input, .. } = step.action {
        pipeline.step(PipelineInput::RolledBack(Ok(StageRollbackOutput {
            blockReached: input.targetBlock,
        })));
        step = pipeline.step(PipelineInput::Committed(Ok(true)));
    }
    let again = pipeline.step(PipelineInput::Tip(120));
    match again.action {
        PipelineAction::Execute { stage, input } => {
            assert_eq!(stage, 0);
            assert_eq!(input.blockReachedDuringLastExecution, Some(94));
        }
        other => panic!("expected A to run, got {:?}", other),
    }
    assert_eq!(pipeline.phase(), PipelinePhase::Executing { stage: 0, tip: 120, target: 120 });
}

#[test]
fn a_stage_below_the_target_is_not_rolled_back() {
    let mut pipeline = Pipeline::new();
    pipeline.pushStage(A, false).pushStage(B, false).pushStage(C, false);
    pipeline.restoreCheckpoint(&A, Some(120));
    pipeline.restoreCheckpoint(&B, Some(110));
    pipeline.restoreCheckpoint(&C, Some(90));
    pipeline.step(PipelineInput::Start);
    pipeline.step(PipelineInput::Tip(120));
    let mut step = pipeline.step(PipelineInput::Executed(Err(StageExecutionError::InvalidState {
        responsibleBadBlock: Some(95),
    })));
    let mut visited = Vec::new();
    while let PipelineAction::Rollback { stage, input } = step.action {
        visited.push(stage);
        pipeline.step(PipelineInput::RolledBack(Ok(StageRollbackOutput {
            blockReached: input.targetBlock,
        })));
        step = pipeline.step(PipelineInput::Committed(Ok(true)));
    }
    assert_eq!(visited, vec![1, 0]);
    assert_eq!(pipeline.checkpoints(), &vec![Some(94), Some(94), Some(90)]);
}

#[test]
fn a_pass_takes_no_more_steps_than_its_bound() {
    // Three stages: no pass takes more than 4 * 3 + 5 steps.
    let mut pipeline = threeStages();
    let mut steps = 1;
    let mut step = pipeline.step(PipelineInput::Start);
    assert_eq!(step.action, PipelineAction::ObserveTip { wait: false });
    step = pipeline.step(PipelineInput::Tip(500));
    steps += 1;
    loop {
        match step.action {
            PipelineAction::Execute { stage, .. } => {
                // The last stage finds the data invalid, so that every stage is rolled back.
                let result = if stage == 2 {
                    Err(StageExecutionError::InvalidState { responsibleBadBlock: Some(1) })
                } else {
                    Ok(staged_sync::sync::stage::StageExecutionOutput {
                        blockReached: 500,
                        executionCompleted: true,
                        reachedChainTip: true,
                    })
                };
                step = pipeline.step(PipelineInput::Executed(result));
            }
            PipelineAction::Rollback { input, .. } => {
                step = pipeline.step(PipelineInput::RolledBack(Ok(StageRollbackOutput {
                    blockReached: input.targetBlock,
                })));
            }
            PipelineAction::Commit { .. } => {
                step = pipeline.step(PipelineInput::Committed(Ok(true)));
            }
            _ => break,
        }
        steps += 1;
    }
    assert!(step.controlFlow.is_some());
    assert!(steps <= 4 * 3 + 5);
    assert_eq!(pipeline.checkpoints(), &vec![Some(0), Some(0), Some(0)]);
}
