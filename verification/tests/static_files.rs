#![allow(non_snake_case)]

use staged_sync::storage::static_files::segment::SegmentType;
use staged_sync::storage::static_files::static_files_generator::{
    segmentsToCopy, BlockRange, BlockRangeOfSegments, StaticFilesGenerator,
};
use staged_sync::storage::static_files::static_files_generator_event::StaticFilesGeneratorEvent;
use std::time::Duration;
use tokio::sync::mpsc::unbounded_channel;

#[test]
fn the_segments_with_a_range_are_copied_in_their_order() {
    let headers = BlockRange { start: 0, end: 499_999 };
    let transactions = BlockRange { start: 10, end: 20 };
    let receipts = BlockRange { start: 5, end: 5 };
    let all = BlockRangeOfSegments {
        headers: Some(headers),
        transactions: Some(transactions),
        transactionReceipts: Some(receipts),
    };
    assert_eq!(
        segmentsToCopy(&all),
        vec![
            (SegmentType::BlockHeaders, headers),
            (SegmentType::Transactions, transactions),
            (SegmentType::TransactionReceipts, receipts),
        ]
    );
    let some = BlockRangeOfSegments {
        headers: None,
        transactions: Some(transactions),
        transactionReceipts: None,
    };
    assert_eq!(segmentsToCopy(&some), vec![(SegmentType::Transactions, transactions)]);
    let none =
        BlockRangeOfSegments { headers: None, transactions: None, transactionReceipts: None };
    assert_eq!(segmentsToCopy(&none), vec![]);
}

#[test]
fn the_generator_tells_when_it_begins_and_when_it_is_done() {
    let ranges = BlockRangeOfSegments {
        headers: Some(BlockRange { start: 1, end: 2 }),
        transactions: None,
        transactionReceipts: None,
    };
    let (emitter, mut receiver) = unbounded_channel::<StaticFilesGeneratorEvent>();
    let mut generator = StaticFilesGenerator::new();
    generator.subscribe(emitter);
    let segments = generator.begin(ranges);
    assert_eq!(segments, vec![(SegmentType::BlockHeaders, BlockRange { start: 1, end: 2 })]);
    assert_eq!(
        receiver.try_recv().unwrap(),
        StaticFilesGeneratorEvent::Started { blockRangeOfSegments: ranges }
    );
    generator.finish(ranges, Duration::from_millis(12));
    assert_eq!(
        receiver.try_recv().unwrap(),
        StaticFilesGeneratorEvent::Finished {
            blockRangeOfSegments: ranges,
            timeTaken: Duration::from_millis(12)
        }
    );
    assert!(receiver.try_recv().is_err());
}
