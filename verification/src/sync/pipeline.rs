use tokio::sync::mpsc::UnboundedSender;
use vstd::prelude::*;
use crate::sync::laws::lemma_step_keeps_wf;
use crate::storage::db::db_error::DbError;
use crate::sync::metrics::MetricEvent;
use crate::sync::pipeline_control_flow::PipelineControlFlow;
use crate::sync::pipeline_error::PipelineError;
use crate::sync::pipeline_event::PipelineEvent;
use crate::sync::pipeline_state::PipelineState;
use crate::sync::pipeline_step::{
    PipelineAction, PipelineConfig, PipelineInput, PipelinePhase, PipelineStep, SkipReason,
    SkippedStage,
};
use crate::sync::queued_stage::QueuedStage;
use crate::sync::rollback::{rollbackOrder, rollbackTarget};
use crate::sync::stage::{
    StageExecutionError, StageExecutionInput, StageExecutionOutput, StageRollbackInput,
    StageRollbackOutput,
};
use crate::sync::stage_checkpoint::{height, heightOf, StageCheckpoint};
use crate::sync::stage_id::StageId;
use crate::sync::transition::{effective_target, empty_pipeline, PipelineModel, Transition};
use crate::utils::event_emitters::{is_left_of, EventEmitters};

verus! {

/// A pipeline runs queued stages serially.
///
/// An external component determines the current tip of the chain in the
/// network. The pipeline then has each stage run in order, from the block the
/// stage stands at towards that tip.
///
/// In case of a state validation error in one of the stages, the pipeline
/// rolls the stages back according to their rollback-priority. Stages with
/// higher rollback-priority are rolled back first. A rollback can also be
/// asked for, to begin the run with.
///
/// The pipeline does none of the work itself. It is told what happened and
/// answers with what is to be done next; the stages, the store and the tip of
/// the chain are with whoever drives it.
pub struct Pipeline {
    queuedStages: Vec<QueuedStage>,
    // The pipeline will start by rolling back to this block.
    startWithRollbackToBlock: Option<u64>,
    // The synchronization process will stop after reaching this block.
    stopSyncAfterReachingBlock: Option<u64>,
    // By default, after the entire pipeline has been run, it'll run again.
    // You can disable that by setting this to true.
    exitAfterSync: bool,
    // The checkpoint of each queued stage, at the stage's place in the queue.
    checkpoints: Vec<Option<u64>>,
    state: PipelineState,
    phase: PipelinePhase,
    rollbackOrder: Vec<usize>,
    eventEmitters: EventEmitters<PipelineEvent>,
    metricEventEmitters: EventEmitters<MetricEvent>,
}

impl View for Pipeline {
    type V = PipelineModel;

    closed spec fn view(&self) -> PipelineModel {
        PipelineModel {
            stages: self.queuedStages@,
            config: PipelineConfig {
                startWithRollbackToBlock: self.startWithRollbackToBlock,
                stopSyncAfterReachingBlock: self.stopSyncAfterReachingBlock,
                exitAfterSync: self.exitAfterSync,
            },
            checkpoints: self.checkpoints@,
            state: self.state,
            phase: self.phase,
            rollbackOrder: self.rollbackOrder@,
        }
    }
}

/// The block up to which a stage may run: the lowest of the tip of the
/// chain, the block to stop at where one is set, and the block the stage
/// before stands at where there is one.
pub fn effectiveTarget(tip: u64, stop: Option<u64>, previous: Option<u64>) -> (target: u64)
    ensures
        target == effective_target(tip, stop, previous),
{
    let bounded = match stop {
        Some(stop) => if stop < tip { stop } else { tip },
        None => tip,
    };
    match previous {
        Some(previous) => if previous < bounded { previous } else { bounded },
        None => bounded,
    }
}

impl Pipeline {
    /// Whether the pipeline is well formed. Every pipeline that was made by
    /// `new` and changed by the functions of this type is.
    pub closed spec fn wf(&self) -> bool {
        self@.wf()
    }

    /// The subscribers to the events of the pipeline.
    pub closed spec fn event_subscribers(&self) -> Seq<UnboundedSender<PipelineEvent>> {
        self.eventEmitters@
    }

    /// The subscribers to the metrics of the pipeline.
    pub closed spec fn metric_subscribers(&self) -> Seq<UnboundedSender<MetricEvent>> {
        self.metricEventEmitters@
    }

    /// A pipeline without stages and without subscribers, with nothing set.
    pub fn new() -> (pipeline: Pipeline)
        ensures
            pipeline.wf(),
            pipeline@ == empty_pipeline(),
            pipeline.event_subscribers().len() == 0,
            pipeline.metric_subscribers().len() == 0,
    {
        Pipeline {
            queuedStages: Vec::new(),
            startWithRollbackToBlock: None,
            stopSyncAfterReachingBlock: None,
            exitAfterSync: false,
            checkpoints: Vec::new(),
            state: PipelineState::new(),
            phase: PipelinePhase::Created,
            rollbackOrder: Vec::new(),
            eventEmitters: EventEmitters::new(),
            metricEventEmitters: EventEmitters::new(),
        }
    }

    /// The place in the queue of the stage of this name, if it is queued.
    pub fn stagePosition(&self, stageId: &StageId) -> (position: Option<usize>)
        ensures
            match position {
                Some(i) => i < self@.stages.len() && self@.stages[i as int].stageId@ == stageId@
                    && forall|j: int| 0 <= j < i ==> self@.stages[j].stageId@ != stageId@,
                None => !self@.has_stage(stageId@),
            },
    {
        let mut i: usize = 0;
        while i < self.queuedStages.len()
            invariant
                i <= self.queuedStages.len(),
                forall|j: int| 0 <= j < i ==> self.queuedStages@[j].stageId@ != stageId@,
            decreases self.queuedStages.len() - i,
        {
            if self.queuedStages[i].stageId.sameAs(stageId) {
                return Some(i);
            }
            i += 1;
        }
        None
    }

    /// Whether a stage of this name is queued.
    pub fn containsStage(&self, stageId: &StageId) -> (queued: bool)
        ensures
            queued == self@.has_stage(stageId@),
    {
        self.stagePosition(stageId).is_some()
    }

    /// Queue a stage (with rollback-priority = 0) for execution in the pipeline.
    pub fn pushStage(&mut self, stageId: StageId, executionRequiresReachingChainTip: bool) -> (same:
        &mut Self)
        requires
            old(self).wf(),
            old(self)@.phase is Created,
            !old(self)@.has_stage(stageId@),
        ensures
            same.wf(),
            same@ == (PipelineModel {
                stages: old(self)@.stages.push(
                    QueuedStage { stageId, rollbackPriority: 0, executionRequiresReachingChainTip },
                ),
                checkpoints: old(self)@.checkpoints.push(None),
                ..old(self)@
            }),
            same.event_subscribers() == old(self).event_subscribers(),
            same.metric_subscribers() == old(self).metric_subscribers(),
            *final(self) == *final(same),
    {
        self.pushStageWithRollbackPriority(stageId, executionRequiresReachingChainTip, 0)
    }

    /// Queue a stage for execution in the pipeline. The stage has no
    /// checkpoint until one is restored or it commits one.
    pub fn pushStageWithRollbackPriority(
        &mut self,
        stageId: StageId,
        executionRequiresReachingChainTip: bool,
        rollbackPriority: usize,
    ) -> (same: &mut Self)
        requires
            old(self).wf(),
            old(self)@.phase is Created,
            !old(self)@.has_stage(stageId@),
        ensures
            same.wf(),
            same@ == (PipelineModel {
                stages: old(self)@.stages.push(
                    QueuedStage { stageId, rollbackPriority, executionRequiresReachingChainTip },
                ),
                checkpoints: old(self)@.checkpoints.push(None),
                ..old(self)@
            }),
            same.event_subscribers() == old(self).event_subscribers(),
            same.metric_subscribers() == old(self).metric_subscribers(),
            *final(self) == *final(same),
    {
        let queuedStage = QueuedStage {
            stageId,
            executionRequiresReachingChainTip,
            rollbackPriority,
        };
        self.queuedStages.push(queuedStage);
        self.checkpoints.push(None);
        // The queue is a vector, so its length is one that a `usize` holds.
        let _ = self.queuedStages.len();
        proof {
            let before = old(self)@;
            assert forall|i: int, j: int| 0 <= i < j < self@.stages.len() implies (
            #[trigger] self@.stages[i]).stageId@ != (#[trigger] self@.stages[j]).stageId@ by {
                if j == before.stages.len() {
                    assert(before.stages[i].stageId@ != stageId@);
                } else {
                    assert(before.stages[i].stageId@ != before.stages[j].stageId@);
                }
            }
        }
        self
    }

    /// Sets the block that the pipeline rolls back to before its first
    /// pass, or that it does not roll back.
    pub fn startWithRollbackToBlock(&mut self, startWithRollbackToBlock: Option<u64>) -> (same:
        &mut Self)
        requires
            old(self)@.phase is Created,
        ensures
            same@ == (PipelineModel {
                config: PipelineConfig { startWithRollbackToBlock, ..old(self)@.config },
                ..old(self)@
            }),
            same.wf() == old(self).wf(),
            same.event_subscribers() == old(self).event_subscribers(),
            same.metric_subscribers() == old(self).metric_subscribers(),
            *final(self) == *final(same),
    {
        self.startWithRollbackToBlock = startWithRollbackToBlock;
        self
    }

    /// Sets the block beyond which no stage is asked to run, or that there
    /// is none.
    pub fn stopSyncAfterReachingBlock(&mut self, stopSyncAfterReachingBlock: Option<u64>) -> (same:
        &mut Self)
        requires
            old(self)@.phase is Created,
        ensures
            same@ == (PipelineModel {
                config: PipelineConfig { stopSyncAfterReachingBlock, ..old(self)@.config },
                ..old(self)@
            }),
            same.wf() == old(self).wf(),
            same.event_subscribers() == old(self).event_subscribers(),
            same.metric_subscribers() == old(self).metric_subscribers(),
            *final(self) == *final(same),
    {
        self.stopSyncAfterReachingBlock = stopSyncAfterReachingBlock;
        self
    }

    /// Sets whether the run ends once the synchronization is done. By
    /// default, after the entire pipeline has been run, it runs again.
    pub fn exitAfterSync(&mut self, exitAfterSync: bool) -> (same: &mut Self)
        requires
            old(self)@.phase is Created,
        ensures
            same@ == (PipelineModel {
                config: PipelineConfig { exitAfterSync, ..old(self)@.config },
                ..old(self)@
            }),
            same.wf() == old(self).wf(),
            same.event_subscribers() == old(self).event_subscribers(),
            same.metric_subscribers() == old(self).metric_subscribers(),
            *final(self) == *final(same),
    {
        self.exitAfterSync = exitAfterSync;
        self
    }

    /// Adds a subscriber to the events of the pipeline.
    pub fn subscribeToEvents(&mut self, emitter: UnboundedSender<PipelineEvent>)
        ensures
            final(self)@ == old(self)@,
            final(self).wf() == old(self).wf(),
            final(self).event_subscribers() == old(self).event_subscribers().push(emitter),
            final(self).metric_subscribers() == old(self).metric_subscribers(),
    {
        self.eventEmitters.subscribe(emitter);
    }

    /// Adds a subscriber to the metrics of the pipeline.
    pub fn subscribeToMetrics(&mut self, emitter: UnboundedSender<MetricEvent>)
        ensures
            final(self)@ == old(self)@,
            final(self).wf() == old(self).wf(),
            final(self).event_subscribers() == old(self).event_subscribers(),
            final(self).metric_subscribers() == old(self).metric_subscribers().push(emitter),
    {
        self.metricEventEmitters.subscribe(emitter);
    }

    /// The checkpoint of the stage of this name: `None` where the stage never
    /// committed anything, and where no such stage is queued.
    pub fn getCheckpoint(&self, stageId: &StageId) -> (checkpoint: Option<u64>)
        requires
            self.wf(),
        ensures
            !self@.has_stage(stageId@) ==> checkpoint is None,
            forall|i: int|
                0 <= i < self@.stages.len() && self@.stages[i].stageId@ == stageId@ ==> checkpoint
                    == self@.checkpoints[i],
    {
        match self.stagePosition(stageId) {
            Some(i) => self.checkpoints[i],
            None => None,
        }
    }

    /// Sets the checkpoint of the stage of this name to what the store holds
    /// for it, before the run begins. Tells whether such a stage is queued;
    /// where none is, nothing changes.
    pub fn restoreCheckpoint(&mut self, stageId: &StageId, checkpoint: Option<u64>) -> (restored:
        bool)
        requires
            old(self).wf(),
            old(self)@.phase is Created,
        ensures
            final(self).wf(),
            restored == old(self)@.has_stage(stageId@),
            !restored ==> final(self)@ == old(self)@,
            restored ==> exists|i: int|
                0 <= i < old(self)@.stages.len() && (#[trigger] old(self)@.stages[i]).stageId@
                    == stageId@ && final(self)@ == (PipelineModel {
                    checkpoints: old(self)@.checkpoints.update(i, checkpoint),
                    ..old(self)@
                }),
            final(self).event_subscribers() == old(self).event_subscribers(),
            final(self).metric_subscribers() == old(self).metric_subscribers(),
    {
        match self.stagePosition(stageId) {
            Some(i) => {
                self.checkpoints.set(i, checkpoint);
                true
            },
            None => false,
        }
    }

    /// The queue, in the order of execution.
    pub fn queuedStages(&self) -> (stages: &Vec<QueuedStage>)
        ensures
            stages@ == self@.stages,
    {
        &self.queuedStages
    }

    /// The checkpoint of each stage, in the order of the queue.
    pub fn checkpoints(&self) -> (checkpoints: &Vec<Option<u64>>)
        ensures
            checkpoints@ == self@.checkpoints,
    {
        &self.checkpoints
    }

    /// What the pipeline is set up with.
    pub fn config(&self) -> (config: PipelineConfig)
        ensures
            config == self@.config,
    {
        PipelineConfig {
            startWithRollbackToBlock: self.startWithRollbackToBlock,
            stopSyncAfterReachingBlock: self.stopSyncAfterReachingBlock,
            exitAfterSync: self.exitAfterSync,
        }
    }

    /// What the run keeps track of.
    pub fn state(&self) -> (state: PipelineState)
        ensures
            state == self@.state,
    {
        self.state
    }

    /// Where the run stands.
    pub fn phase(&self) -> (phase: PipelinePhase)
        ensures
            phase == self@.phase,
    {
        self.phase
    }

    /// The block up to which the stage at place `i` of the queue may run in
    /// a pass that was told `tip`.
    pub fn targetOf(&self, tip: u64, i: usize) -> (target: u64)
        requires
            self.wf(),
            i < self@.stages.len(),
        ensures
            target == self@.target(tip, i as int),
    {
        let previous = if i > 0 {
            Some(heightOf(self.checkpoints[i - 1]))
        } else {
            None
        };
        effectiveTarget(tip, self.stopSyncAfterReachingBlock, previous)
    }

    /// Why the stage at place `i` of the queue is passed over in a pass that
    /// was told `tip`, if it is. It is where it already stands at its target
    /// or beyond, and where it runs only at the tip of the chain and that has
    /// not been reached in this pass.
    pub fn skipReason(&self, tip: u64, i: usize) -> (reason: Option<SkipReason>)
        requires
            self.wf(),
            i < self@.stages.len(),
        ensures
            reason == self@.skip_reason(tip, i as int),
    {
        let target = self.targetOf(tip, i);
        if heightOf(self.checkpoints[i]) >= target {
            Some(SkipReason::CheckpointReachedTarget)
        } else if self.queuedStages[i].executionRequiresReachingChainTip
            && !self.state.reachedChainTip {
            Some(SkipReason::ChainTipNotReached)
        } else {
            None
        }
    }

    /// Whether every stage stands at `block` or beyond.
    pub fn allReached(&self, block: u64) -> (reached: bool)
        ensures
            reached == self@.all_reached(block),
    {
        let mut i: usize = 0;
        while i < self.checkpoints.len()
            invariant
                i <= self.checkpoints.len(),
                forall|j: int| 0 <= j < i ==> height(#[trigger] self.checkpoints@[j]) >= block,
            decreases self.checkpoints.len() - i,
        {
            if heightOf(self.checkpoints[i]) < block {
                assert(height(self@.checkpoints[i as int]) < block);
                return false;
            }
            i += 1;
        }
        true
    }

    /// Whether the run is over.
    pub fn shouldExit(&self) -> (over: bool)
        ensures
            over == self@.should_exit(),
    {
        if !self.exitAfterSync {
            return false;
        }
        match self.stopSyncAfterReachingBlock {
            Some(stop) => self.allReached(stop),
            None => self.state.passCompleted,
        }
    }

    /// The checkpoint of each stage of the queue, as a metric.
    pub fn progressMetricOfStages(&self) -> (metrics: Vec<MetricEvent>)
        requires
            self.wf(),
        ensures
            metrics@ == self@.progress_metrics(),
    {
        let mut metrics: Vec<MetricEvent> = Vec::new();
        let mut i: usize = 0;
        while i < self.queuedStages.len()
            invariant
                self.wf(),
                i <= self.queuedStages.len(),
                metrics@.len() == i,
                forall|j: int| 0 <= j < i ==> metrics@[j] == self@.progress_metrics()[j],
            decreases self.queuedStages.len() - i,
        {
            metrics.push(
                MetricEvent::StageReachedCheckpoint {
                    stageId: self.queuedStages[i].stageId,
                    checkpoint: StageCheckpoint { blockNumber: heightOf(self.checkpoints[i]) },
                    knownLatestBlockReachableByStage: None,
                },
            );
            i += 1;
        }
        assert(metrics@ =~= self@.progress_metrics());
        metrics
    }

    fn betweenPasses(
        &mut self,
        discard: bool,
        events: Vec<PipelineEvent>,
        metrics: Vec<MetricEvent>,
        skipped: Vec<SkippedStage>,
        controlFlow: Option<PipelineControlFlow>,
        wait: bool,
    ) -> (out: PipelineStep)
        ensures
            (Transition { next: final(self)@, step: out@ }) == old(self)@.between_passes(
                discard,
                events@,
                metrics@,
                skipped@,
                controlFlow,
                wait,
            ),
            final(self).event_subscribers() == old(self).event_subscribers(),
            final(self).metric_subscribers() == old(self).metric_subscribers(),
    {
        if self.shouldExit() {
            self.phase = PipelinePhase::Finished;
            PipelineStep {
                discardTransaction: discard,
                events,
                metrics,
                skipped,
                controlFlow,
                action: PipelineAction::Finish(Ok(())),
            }
        } else {
            self.phase = PipelinePhase::AwaitingTip;
            PipelineStep {
                discardTransaction: discard,
                events,
                metrics,
                skipped,
                controlFlow,
                action: PipelineAction::ObserveTip { wait },
            }
        }
    }

    fn forward(
        &mut self,
        tip: u64,
        from: usize,
        events: Vec<PipelineEvent>,
        metrics: Vec<MetricEvent>,
    ) -> (out: PipelineStep)
        requires
            old(self)@.shaped(),
            from <= old(self)@.stages.len(),
        ensures
            (Transition { next: final(self)@, step: out@ }) == old(self)@.forward(
                tip,
                from as int,
                events@,
                metrics@,
            ),
            final(self).event_subscribers() == old(self).event_subscribers(),
            final(self).metric_subscribers() == old(self).metric_subscribers(),
    {
        let count = self.queuedStages.len();
        let mut skipped: Vec<SkippedStage> = Vec::new();
        let mut i: usize = from;
        let mut found = false;
        while i < count && !found
            invariant
                *self == *old(self),
                self@.shaped(),
                count == self@.stages.len(),
                from <= i <= count,
                self@.next_runnable(tip, from as int) == self@.next_runnable(tip, i as int),
                found ==> i < count && self@.skip_reason(tip, i as int) is None,
                skipped@ == self@.skip_notices(tip, from as int, i as int),
            decreases count - i + (if found { 0int } else { 1int }),
        {
            match self.skipReasonAt(tip, i) {
                None => {
                    found = true;
                },
                Some(reason) => {
                    skipped.push(SkippedStage { stageId: self.queuedStages[i].stageId, reason });
                    i += 1;
                    assert(skipped@ =~= self@.skip_notices(tip, from as int, i as int));
                },
            }
        }
        let mut events = events;
        if i < count {
            let target = self.targetAt(tip, i);
            events.push(
                PipelineEvent::Running {
                    stageId: self.queuedStages[i].stageId,
                    blockReachedDuringPreviousExecution: self.checkpoints[i],
                },
            );
            let input = StageExecutionInput {
                previousStageInfo: if i > 0 {
                    Some((self.queuedStages[i - 1].stageId, heightOf(self.checkpoints[i - 1])))
                } else {
                    None
                },
                blockReachedDuringLastExecution: self.checkpoints[i],
            };
            self.phase = PipelinePhase::Executing { stage: i, tip, target };
            PipelineStep {
                discardTransaction: false,
                events,
                metrics,
                skipped,
                controlFlow: None,
                action: PipelineAction::Execute { stage: i, input },
            }
        } else {
            self.state.passCompleted = true;
            let flow = if self.state.madeProgress {
                PipelineControlFlow::Continue {
                    mostRecentBlockReached: self.state.mostRecentBlockReached,
                    reachedChainTip: self.state.reachedChainTip,
                }
            } else {
                PipelineControlFlow::NoProgress {
                    mostRecentBlockReached: self.state.mostRecentBlockReached,
                    reachedChainTip: self.state.reachedChainTip,
                }
            };
            let wait = !self.state.madeProgress;
            self.betweenPasses(false, events, metrics, skipped, Some(flow), wait)
        }
    }

    fn targetAt(&self, tip: u64, i: usize) -> (target: u64)
        requires
            self@.shaped(),
            i < self@.stages.len(),
        ensures
            target == self@.target(tip, i as int),
    {
        let previous = if i > 0 {
            Some(heightOf(self.checkpoints[i - 1]))
        } else {
            None
        };
        effectiveTarget(tip, self.stopSyncAfterReachingBlock, previous)
    }

    fn skipReasonAt(&self, tip: u64, i: usize) -> (reason: Option<SkipReason>)
        requires
            self@.shaped(),
            i < self@.stages.len(),
        ensures
            reason == self@.skip_reason(tip, i as int),
    {
        let target = self.targetAt(tip, i);
        if heightOf(self.checkpoints[i]) >= target {
            Some(SkipReason::CheckpointReachedTarget)
        } else if self.queuedStages[i].executionRequiresReachingChainTip
            && !self.state.reachedChainTip {
            Some(SkipReason::ChainTipNotReached)
        } else {
            None
        }
    }

    fn continueRollback(
        &mut self,
        position: usize,
        targetBlock: u64,
        responsibleBadBlock: Option<u64>,
        discard: bool,
        events: Vec<PipelineEvent>,
        metrics: Vec<MetricEvent>,
    ) -> (out: PipelineStep)
        requires
            old(self)@.shaped(),
        ensures
            (Transition { next: final(self)@, step: out@ }) == old(self)@.continue_rollback(
                position as int,
                targetBlock,
                responsibleBadBlock,
                discard,
                events@,
                metrics@,
            ),
            final(self).event_subscribers() == old(self).event_subscribers(),
            final(self).metric_subscribers() == old(self).metric_subscribers(),
    {
        let mut events = events;
        if position < self.rollbackOrder.len() {
            let stage = self.rollbackOrder[position];
            let input = StageRollbackInput {
                currentBlock: heightOf(self.checkpoints[stage]),
                targetBlock,
                responsibleBadBlock,
            };
            events.push(
                PipelineEvent::Rollbacking {
                    stageId: self.queuedStages[stage].stageId,
                    result: Some(input),
                },
            );
            self.phase = PipelinePhase::RollingBack { position, targetBlock, responsibleBadBlock };
            PipelineStep {
                discardTransaction: discard,
                events,
                metrics,
                skipped: Vec::new(),
                controlFlow: None,
                action: PipelineAction::Rollback { stage, input },
            }
        } else {
            self.state.reachedChainTip = false;
            self.state.madeProgress = true;
            self.state.passCompleted = false;
            let flow = PipelineControlFlow::Continue {
                mostRecentBlockReached: self.state.mostRecentBlockReached,
                reachedChainTip: false,
            };
            self.betweenPasses(discard, events, metrics, Vec::new(), Some(flow), false)
        }
    }

    fn beginRollback(
        &mut self,
        targetBlock: u64,
        responsibleBadBlock: Option<u64>,
        discard: bool,
        metrics: Vec<MetricEvent>,
    ) -> (out: PipelineStep)
        requires
            old(self)@.shaped(),
        ensures
            (Transition { next: final(self)@, step: out@ }) == old(self)@.begin_rollback(
                targetBlock,
                responsibleBadBlock,
                discard,
                metrics@,
            ),
            final(self).event_subscribers() == old(self).event_subscribers(),
            final(self).metric_subscribers() == old(self).metric_subscribers(),
    {
        self.rollbackOrder = rollbackOrder(&self.queuedStages, &self.checkpoints, targetBlock);
        proof {
            assert forall|k: int| 0 <= k < self@.rollbackOrder.len() implies (
            #[trigger] self@.rollbackOrder[k]) < self@.stages.len() by {}
        }
        self.continueRollback(0, targetBlock, responsibleBadBlock, discard, Vec::new(), metrics)
    }

    fn fail(&mut self, discard: bool, error: PipelineError) -> (out: PipelineStep)
        ensures
            (Transition { next: final(self)@, step: out@ }) == old(self)@.fail(discard, error),
            final(self).event_subscribers() == old(self).event_subscribers(),
            final(self).metric_subscribers() == old(self).metric_subscribers(),
    {
        self.phase = PipelinePhase::Failed;
        PipelineStep {
            discardTransaction: discard,
            events: Vec::new(),
            metrics: Vec::new(),
            skipped: Vec::new(),
            controlFlow: None,
            action: PipelineAction::Finish(Err(error)),
        }
    }

    fn refuse(&mut self) -> (out: PipelineStep)
        ensures
            (Transition { next: final(self)@, step: out@ }) == old(self)@.refuse(),
            final(self).event_subscribers() == old(self).event_subscribers(),
            final(self).metric_subscribers() == old(self).metric_subscribers(),
    {
        let discard = match self.phase {
            PipelinePhase::Executing { .. } => true,
            PipelinePhase::CommittingExecution { .. } => true,
            PipelinePhase::RollingBack { .. } => true,
            PipelinePhase::CommittingRollback { .. } => true,
            _ => false,
        };
        self.fail(discard, PipelineError::UnexpectedInput)
    }

    fn onStart(&mut self) -> (out: PipelineStep)
        requires
            old(self).wf(),
        ensures
            (Transition { next: final(self)@, step: out@ }) == old(self)@.on_start(),
            final(self).event_subscribers() == old(self).event_subscribers(),
            final(self).metric_subscribers() == old(self).metric_subscribers(),
    {
        let metrics = self.progressMetricOfStages();
        match self.startWithRollbackToBlock {
            Some(targetBlock) => self.beginRollback(targetBlock, None, false, metrics),
            None => self.betweenPasses(false, Vec::new(), metrics, Vec::new(), None, false),
        }
    }

    fn onTip(&mut self, tip: u64) -> (out: PipelineStep)
        requires
            old(self).wf(),
        ensures
            (Transition { next: final(self)@, step: out@ }) == old(self)@.on_tip(tip),
            final(self).event_subscribers() == old(self).event_subscribers(),
            final(self).metric_subscribers() == old(self).metric_subscribers(),
    {
        self.state.reachedChainTip = false;
        self.state.madeProgress = false;
        self.forward(tip, 0, Vec::new(), Vec::new())
    }

    fn onExecuted(
        &mut self,
        stage: usize,
        tip: u64,
        target: u64,
        result: Result<StageExecutionOutput, StageExecutionError>,
    ) -> (out: PipelineStep)
        requires
            old(self).wf(),
            stage < old(self)@.stages.len(),
        ensures
            (Transition { next: final(self)@, step: out@ }) == old(self)@.on_executed(
                stage,
                tip,
                target,
                result,
            ),
            final(self).event_subscribers() == old(self).event_subscribers(),
            final(self).metric_subscribers() == old(self).metric_subscribers(),
    {
        match result {
            Ok(output) => {
                self.phase = PipelinePhase::CommittingExecution { stage, tip, target, output };
                PipelineStep {
                    discardTransaction: false,
                    events: Vec::new(),
                    metrics: Vec::new(),
                    skipped: Vec::new(),
                    controlFlow: None,
                    action: PipelineAction::Commit { stage, checkpoint: output.blockReached },
                }
            },
            Err(StageExecutionError::InvalidState { responsibleBadBlock }) => {
                let targetBlock = rollbackTarget(
                    responsibleBadBlock,
                    heightOf(self.checkpoints[stage]),
                );
                self.beginRollback(targetBlock, responsibleBadBlock, true, Vec::new())
            },
            Err(StageExecutionError::Internal(message)) => {
                let error = PipelineError::StageExecution {
                    stageId: self.queuedStages[stage].stageId,
                    checkpoint: self.checkpoints[stage],
                    message,
                };
                self.fail(true, error)
            },
        }
    }

    fn onExecutionCommitted(
        &mut self,
        stage: usize,
        tip: u64,
        target: u64,
        output: StageExecutionOutput,
        result: Result<bool, DbError>,
    ) -> (out: PipelineStep)
        requires
            old(self).wf(),
            stage < old(self)@.stages.len(),
        ensures
            (Transition { next: final(self)@, step: out@ }) == old(self)@.on_execution_committed(
                stage,
                tip,
                target,
                output,
                result,
            ),
            final(self).event_subscribers() == old(self).event_subscribers(),
            final(self).metric_subscribers() == old(self).metric_subscribers(),
    {
        match result {
            Ok(_) => {
                let stageId = self.queuedStages[stage].stageId;
                let moved = match self.checkpoints[stage] {
                    Some(block) => block != output.blockReached,
                    None => true,
                } || !output.executionCompleted;
                self.state.record(output.blockReached);
                self.state.reachedChainTip = output.reachedChainTip;
                self.state.madeProgress = self.state.madeProgress || moved;
                self.checkpoints.set(stage, Some(output.blockReached));
                let mut events: Vec<PipelineEvent> = Vec::new();
                events.push(PipelineEvent::Ran { stageId, result: Some(output) });
                let mut metrics: Vec<MetricEvent> = Vec::new();
                metrics.push(
                    MetricEvent::StageReachedCheckpoint {
                        stageId,
                        checkpoint: StageCheckpoint { blockNumber: output.blockReached },
                        knownLatestBlockReachableByStage: Some(target),
                    },
                );
                proof {
                    assert(events@ =~= seq![PipelineEvent::Ran { stageId, result: Some(output) }]);
                    assert(metrics@ =~= seq![
                        MetricEvent::StageReachedCheckpoint {
                            stageId,
                            checkpoint: StageCheckpoint { blockNumber: output.blockReached },
                            knownLatestBlockReachableByStage: Some(target),
                        },
                    ]);
                }
                self.forward(tip, stage + 1, events, metrics)
            },
            Err(failure) => {
                let error = PipelineError::Commit {
                    stageId: self.queuedStages[stage].stageId,
                    checkpoint: self.checkpoints[stage],
                    error: failure,
                };
                self.fail(false, error)
            },
        }
    }

    fn onRolledBack(
        &mut self,
        position: usize,
        targetBlock: u64,
        responsibleBadBlock: Option<u64>,
        result: Result<StageRollbackOutput, String>,
    ) -> (out: PipelineStep)
        requires
            old(self).wf(),
            position < old(self)@.rollbackOrder.len(),
        ensures
            (Transition { next: final(self)@, step: out@ }) == old(self)@.on_rolled_back(
                position,
                targetBlock,
                responsibleBadBlock,
                result,
            ),
            final(self).event_subscribers() == old(self).event_subscribers(),
            final(self).metric_subscribers() == old(self).metric_subscribers(),
    {
        let stage = self.rollbackOrder[position];
        match result {
            Ok(output) => {
                self.phase = PipelinePhase::CommittingRollback {
                    position,
                    targetBlock,
                    responsibleBadBlock,
                    output,
                };
                PipelineStep {
                    discardTransaction: false,
                    events: Vec::new(),
                    metrics: Vec::new(),
                    skipped: Vec::new(),
                    controlFlow: None,
                    action: PipelineAction::Commit { stage, checkpoint: output.blockReached },
                }
            },
            Err(message) => {
                let error = PipelineError::StageRollback {
                    stageId: self.queuedStages[stage].stageId,
                    checkpoint: self.checkpoints[stage],
                    message,
                };
                self.fail(true, error)
            },
        }
    }

    fn onRollbackCommitted(
        &mut self,
        position: usize,
        targetBlock: u64,
        responsibleBadBlock: Option<u64>,
        output: StageRollbackOutput,
        result: Result<bool, DbError>,
    ) -> (out: PipelineStep)
        requires
            old(self).wf(),
            position < old(self)@.rollbackOrder.len(),
        ensures
            (Transition { next: final(self)@, step: out@ }) == old(self)@.on_rollback_committed(
                position,
                targetBlock,
                responsibleBadBlock,
                output,
                result,
            ),
            final(self).event_subscribers() == old(self).event_subscribers(),
            final(self).metric_subscribers() == old(self).metric_subscribers(),
    {
        let stage = self.rollbackOrder[position];
        match result {
            Ok(_) => {
                let stageId = self.queuedStages[stage].stageId;
                self.state.record(output.blockReached);
                self.checkpoints.set(stage, Some(output.blockReached));
                let mut events: Vec<PipelineEvent> = Vec::new();
                events.push(PipelineEvent::Rollbacked { stageId, result: Some(output) });
                proof {
                    assert(events@ =~= seq![
                        PipelineEvent::Rollbacked { stageId, result: Some(output) },
                    ]);
                }
                self.continueRollback(
                    position + 1,
                    targetBlock,
                    responsibleBadBlock,
                    false,
                    events,
                    Vec::new(),
                )
            },
            Err(failure) => {
                let error = PipelineError::Commit {
                    stageId: self.queuedStages[stage].stageId,
                    checkpoint: self.checkpoints[stage],
                    error: failure,
                };
                self.fail(false, error)
            },
        }
    }

    /// Takes the step that answers to what the driver reports, and hands out
    /// what is to be broadcast and what is to be done next. Nothing is sent
    /// to the subscribers.
    pub fn step(&mut self, input: PipelineInput) -> (out: PipelineStep)
        requires
            old(self).wf(),
        ensures
            final(self).wf(),
            final(self)@.stages == old(self)@.stages,
            final(self)@.config == old(self)@.config,
            (Transition { next: final(self)@, step: out@ }) == old(self)@.transition(input),
            final(self).event_subscribers() == old(self).event_subscribers(),
            final(self).metric_subscribers() == old(self).metric_subscribers(),
    {
        proof {
            lemma_step_keeps_wf(old(self)@, input);
        }
        let phase = self.phase;
        match phase {
            PipelinePhase::Created => match input {
                PipelineInput::Start => self.onStart(),
                _ => self.refuse(),
            },
            PipelinePhase::AwaitingTip => match input {
                PipelineInput::Tip(tip) => self.onTip(tip),
                _ => self.refuse(),
            },
            PipelinePhase::Executing { stage, tip, target } => match input {
                PipelineInput::Executed(result) => self.onExecuted(stage, tip, target, result),
                _ => self.refuse(),
            },
            PipelinePhase::CommittingExecution { stage, tip, target, output } => match input {
                PipelineInput::Committed(result) => self.onExecutionCommitted(
                    stage,
                    tip,
                    target,
                    output,
                    result,
                ),
                _ => self.refuse(),
            },
            PipelinePhase::RollingBack { position, targetBlock, responsibleBadBlock } => match input {
                PipelineInput::RolledBack(result) => self.onRolledBack(
                    position,
                    targetBlock,
                    responsibleBadBlock,
                    result,
                ),
                _ => self.refuse(),
            },
            PipelinePhase::CommittingRollback {
                position,
                targetBlock,
                responsibleBadBlock,
                output,
            } => match input {
                PipelineInput::Committed(result) => self.onRollbackCommitted(
                    position,
                    targetBlock,
                    responsibleBadBlock,
                    output,
                    result,
                ),
                _ => self.refuse(),
            },
            _ => self.refuse(),
        }
    }

    /// Takes the step that answers to what the driver reports, broadcasts
    /// its events and its metrics to the subscribers, and hands out what is
    /// to be done next. A subscriber that cannot be delivered to is
    /// forgotten; the step is the same whoever listens.
    pub fn advance(&mut self, input: PipelineInput) -> (out: PipelineStep)
        requires
            old(self).wf(),
        ensures
            final(self).wf(),
            final(self)@.stages == old(self)@.stages,
            final(self)@.config == old(self)@.config,
            (Transition { next: final(self)@, step: out@ }) == old(self)@.transition(input),
            is_left_of(final(self).event_subscribers(), old(self).event_subscribers()),
            is_left_of(final(self).metric_subscribers(), old(self).metric_subscribers()),
    {
        let out = self.step(input);
        self.eventEmitters.emitAll(&out.events);
        self.metricEventEmitters.emitAll(&out.metrics);
        out
    }

    /// Emits metrics related to progress of each stage in the pipeline: the
    /// checkpoint each stage stands at. A subscriber that cannot be
    /// delivered to is forgotten, and that is no error.
    pub fn emitProgressMetricOfStages(&mut self) -> (result: Result<(), PipelineError>)
        requires
            old(self).wf(),
        ensures
            result is Ok,
            final(self)@ == old(self)@,
            final(self).wf(),
            final(self).event_subscribers() == old(self).event_subscribers(),
            is_left_of(final(self).metric_subscribers(), old(self).metric_subscribers()),
    {
        let metrics = self.progressMetricOfStages();
        self.metricEventEmitters.emitAll(&metrics);
        Ok(())
    }
}

} // verus!
