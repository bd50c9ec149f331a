use vstd::prelude::*;

verus! {

#[derive(Clone, Copy, Debug, PartialEq, Eq)]
pub enum SegmentType {
    BlockHeaders,
    Transactions,
    TransactionReceipts,
}

} // verus!
