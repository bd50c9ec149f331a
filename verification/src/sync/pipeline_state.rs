use vstd::prelude::*;

verus! {

/// What a run of the pipeline keeps track of besides the checkpoints.
#[derive(Clone, Copy, Debug, PartialEq, Eq)]
pub struct PipelineState {
    /// Block-number of the oldest block that this pipeline dealt with during execution.
    pub oldestBlockReached: Option<u64>,
    /// Block-number of the most recent block that this pipeline dealt with during execution.
    pub mostRecentBlockReached: Option<u64>,
    /// Whether or not the stage that ran last in this pass reached the chain tip.
    pub reachedChainTip: bool,
    /// Whether anything moved since the pass began.
    pub madeProgress: bool,
    /// Whether a pass has gone over the whole queue without a rollback.
    pub passCompleted: bool,
}

/// The state of a run that has dealt with no block yet.
pub open spec fn fresh_state() -> PipelineState {
    PipelineState {
        oldestBlockReached: None,
        mostRecentBlockReached: None,
        reachedChainTip: false,
        madeProgress: false,
        passCompleted: false,
    }
}

/// The state after the pipeline has dealt with `block`: the oldest and the
/// most recent block reached take it in.
pub open spec fn recorded(state: PipelineState, block: u64) -> PipelineState {
    PipelineState {
        oldestBlockReached: match state.oldestBlockReached {
            Some(oldest) if oldest <= block => Some(oldest),
            _ => Some(block),
        },
        mostRecentBlockReached: match state.mostRecentBlockReached {
            Some(recent) if recent >= block => Some(recent),
            _ => Some(block),
        },
        ..state
    }
}

impl PipelineState {
    /// The state of a run that has dealt with no block yet.
    pub fn new() -> (state: PipelineState)
        ensures
            state == fresh_state(),
    {
        PipelineState {
            oldestBlockReached: None,
            mostRecentBlockReached: None,
            reachedChainTip: false,
            madeProgress: false,
            passCompleted: false,
        }
    }

    /// Takes `block` into the oldest and the most recent block reached.
    pub fn record(&mut self, block: u64)
        ensures
            *final(self) == recorded(*old(self), block),
    {
        let oldest = match self.oldestBlockReached {
            Some(oldest) => if oldest <= block { oldest } else { block },
            None => block,
        };
        let recent = match self.mostRecentBlockReached {
            Some(recent) => if recent >= block { recent } else { block },
            None => block,
        };
        self.oldestBlockReached = Some(oldest);
        self.mostRecentBlockReached = Some(recent);
    }
}

} // verus!
