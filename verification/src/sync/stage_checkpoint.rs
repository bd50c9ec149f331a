use vstd::prelude::*;

verus! {

/// How far a stage has durably got.
#[derive(Clone, Copy, Debug, PartialEq, Eq)]
pub struct StageCheckpoint {
    pub blockNumber: u64,
}

/// The block a stored checkpoint stands at: block 0 for a stage that never
/// committed anything.
pub open spec fn height(checkpoint: Option<u64>) -> u64 {
    match checkpoint {
        Some(block) => block,
        None => 0,
    }
}

/// The block a stored checkpoint stands at.
pub fn heightOf(checkpoint: Option<u64>) -> (block: u64)
    ensures
        block == height(checkpoint),
{
    match checkpoint {
        Some(block) => block,
        None => 0,
    }
}

} // verus!
