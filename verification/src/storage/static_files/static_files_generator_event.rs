use std::time::Duration;
use vstd::prelude::*;
use crate::storage::static_files::static_files_generator::BlockRangeOfSegments;

verus! {

#[derive(Clone, Copy, Debug, PartialEq, Eq)]
pub enum StaticFilesGeneratorEvent {
    Started { blockRangeOfSegments: BlockRangeOfSegments },
    Finished { blockRangeOfSegments: BlockRangeOfSegments, timeTaken: Duration },
}

} // verus!
