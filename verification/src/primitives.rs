//! The plain values that ledger data is made of.

use vstd::array::array_fill_for_copy_types;
use vstd::prelude::*;

verus! {

/// The address of an account: 20 bytes.
#[derive(Clone, Copy, Debug, PartialEq, Eq)]
pub struct Address(pub [u8; 20]);

/// A hash of 256 bits: 32 bytes.
#[derive(Clone, Copy, Debug, PartialEq, Eq)]
pub struct B256(pub [u8; 32]);

/// A hash of 256 bits, by its other name.
pub type H256 = B256;

/// 512 bits: 64 bytes.
#[derive(Clone, Copy, Debug, PartialEq, Eq)]
pub struct B512(pub [u8; 64]);

/// The bloom filter of the logs of a block: 256 bytes.
#[derive(Clone, Copy, Debug, PartialEq, Eq)]
pub struct Bloom(pub [u8; 256]);

/// A number of 256 bits, as its 32 bytes, the highest first.
#[derive(Clone, Copy, Debug, PartialEq, Eq)]
pub struct U256(pub [u8; 32]);

/// Bytes of any count: the payload of a transaction, a piece of code.
#[derive(Debug, PartialEq, Eq)]
pub struct Bytes(pub Vec<u8>);

/// As many zero bytes as `count` says.
pub open spec fn zeros(count: nat) -> Seq<u8> {
    Seq::new(count, |i: int| 0u8)
}

impl U256 {
    /// The number zero.
    pub fn zero() -> (number: U256)
        ensures
            number.0@ == zeros(32),
    {
        let bytes: [u8; 32] = array_fill_for_copy_types(0u8);
        assert(bytes@ =~= zeros(32));
        U256(bytes)
    }
}

impl Bytes {
    /// No bytes at all.
    pub fn empty() -> (bytes: Bytes)
        ensures
            bytes.0@ == Seq::<u8>::empty(),
    {
        Bytes(Vec::new())
    }
}

} // verus!
