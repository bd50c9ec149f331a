use vstd::prelude::*;

verus! {

/// How a pass over the queue ended.
#[derive(Clone, Copy, Debug, PartialEq, Eq)]
pub enum PipelineControlFlow {
    /// Something moved during the pass: more work may remain.
    Continue { mostRecentBlockReached: Option<u64>, reachedChainTip: bool },
    /// Nothing moved: there is nothing to do until the tip of the chain
    /// changes.
    NoProgress { mostRecentBlockReached: Option<u64>, reachedChainTip: bool },
}

} // verus!
