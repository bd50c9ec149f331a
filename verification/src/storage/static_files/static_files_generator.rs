use std::time::Duration;
use tokio::sync::mpsc::UnboundedSender;
use vstd::prelude::*;
use crate::storage::static_files::segment::SegmentType;
use crate::storage::static_files::static_files_generator_event::StaticFilesGeneratorEvent;
use crate::utils::event_emitters::{is_left_of, EventEmitters};

verus! {

/// The blocks from `start` to `end`, both included. It is empty where
/// `start` lies behind `end`.
#[derive(Clone, Copy, Debug, PartialEq, Eq)]
pub struct BlockRange {
    pub start: u64,
    pub end: u64,
}

/// Specifies the block range for each segment.
#[derive(Clone, Copy, Debug, PartialEq, Eq)]
pub struct BlockRangeOfSegments {
    pub headers: Option<BlockRange>,
    pub transactions: Option<BlockRange>,
    pub transactionReceipts: Option<BlockRange>,
}

/// One segment to copy, if a range is given for it.
pub open spec fn copy_of(segment: SegmentType, range: Option<BlockRange>) -> Seq<
    (SegmentType, BlockRange),
> {
    match range {
        Some(range) => seq![(segment, range)],
        None => Seq::empty(),
    }
}

/// The segments to copy, each with its range: those that a range is given
/// for, the block headers first, then the transactions, then the
/// transaction receipts.
pub open spec fn segments_to_copy(ranges: BlockRangeOfSegments) -> Seq<(SegmentType, BlockRange)> {
    copy_of(SegmentType::BlockHeaders, ranges.headers) + copy_of(
        SegmentType::Transactions,
        ranges.transactions,
    ) + copy_of(SegmentType::TransactionReceipts, ranges.transactionReceipts)
}

/// The segments to copy, each with its range.
pub fn segmentsToCopy(blockRangeOfSegments: &BlockRangeOfSegments) -> (segments: Vec<
    (SegmentType, BlockRange),
>)
    ensures
        segments@ == segments_to_copy(*blockRangeOfSegments),
{
    let mut segments: Vec<(SegmentType, BlockRange)> = Vec::new();

    if let Some(blockRange) = blockRangeOfSegments.headers {
        segments.push((SegmentType::BlockHeaders, blockRange));
    }
    if let Some(blockRange) = blockRangeOfSegments.transactions {
        segments.push((SegmentType::Transactions, blockRange));
    }
    if let Some(blockRange) = blockRangeOfSegments.transactionReceipts {
        segments.push((SegmentType::TransactionReceipts, blockRange));
    }
    assert(segments@ =~= segments_to_copy(*blockRangeOfSegments));
    segments
}

/// Generates static files: it tells who listens that it begins, says which
/// segments are to be copied, and tells who listens that it is done. The
/// copying itself is the work of whoever runs it.
pub struct StaticFilesGenerator {
    eventEmitters: EventEmitters<StaticFilesGeneratorEvent>,
}

impl StaticFilesGenerator {
    /// The subscribers to the events of the generator.
    pub closed spec fn subscribers(&self) -> Seq<UnboundedSender<StaticFilesGeneratorEvent>> {
        self.eventEmitters@
    }

    /// A generator that nobody listens to yet.
    pub fn new() -> (generator: StaticFilesGenerator)
        ensures
            generator.subscribers().len() == 0,
    {
        StaticFilesGenerator { eventEmitters: EventEmitters::new() }
    }

    /// Adds a subscriber to the events of the generator.
    pub fn subscribe(&mut self, emitter: UnboundedSender<StaticFilesGeneratorEvent>)
        ensures
            final(self).subscribers() == old(self).subscribers().push(emitter),
    {
        self.eventEmitters.subscribe(emitter);
    }

    /// Begins a run: emits `Started`, and hands out the segments to copy.
    pub fn begin(&mut self, blockRangeOfSegments: BlockRangeOfSegments) -> (segments: Vec<
        (SegmentType, BlockRange),
    >)
        ensures
            segments@ == segments_to_copy(blockRangeOfSegments),
            is_left_of(final(self).subscribers(), old(self).subscribers()),
    {
        self.eventEmitters.emit(StaticFilesGeneratorEvent::Started { blockRangeOfSegments });
        segmentsToCopy(&blockRangeOfSegments)
    }

    /// Ends a run: emits `Finished`, with the time that the run took.
    pub fn finish(&mut self, blockRangeOfSegments: BlockRangeOfSegments, timeTaken: Duration)
        ensures
            is_left_of(final(self).subscribers(), old(self).subscribers()),
    {
        self.eventEmitters.emit(
            StaticFilesGeneratorEvent::Finished { blockRangeOfSegments, timeTaken },
        );
    }
}

} // verus!
