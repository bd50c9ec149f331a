use vstd::prelude::*;
use crate::storage::compression::buffer::{advance, putSlice};
use crate::storage::compression::compressor::Compressor;

verus! {

/// The bytes of a number, the highest first, without leading zero bytes.
/// Zero takes no byte at all.
pub open spec fn be_bytes(n: nat) -> Seq<u8>
    decreases n,
{
    if n == 0 {
        Seq::empty()
    } else {
        be_bytes(n / 256).push((n % 256) as u8)
    }
}

/// The number that bytes stand for, the highest first.
pub open spec fn be_value(bytes: Seq<u8>) -> nat
    decreases bytes.len(),
{
    if bytes.len() == 0 {
        0
    } else {
        be_value(bytes.drop_last()) * 256 + bytes.last() as nat
    }
}

/// 256 to the power of `k`.
pub open spec fn pow256(k: nat) -> nat
    decreases k,
{
    if k == 0 {
        1
    } else {
        256 * pow256((k - 1) as nat)
    }
}

/// Bytes stand for a number below 256 to the power of their count.
pub proof fn lemma_be_value_is_bounded(bytes: Seq<u8>)
    ensures
        be_value(bytes) < pow256(bytes.len()),
    decreases bytes.len(),
{
    if bytes.len() > 0 {
        lemma_be_value_is_bounded(bytes.drop_last());
    }
}

/// The bytes of a number stand for that number.
pub proof fn lemma_be_value_of_be_bytes(n: nat)
    ensures
        be_value(be_bytes(n)) == n,
    decreases n,
{
    if n > 0 {
        lemma_be_value_of_be_bytes(n / 256);
        assert(be_bytes(n).drop_last() =~= be_bytes(n / 256));
    }
}

/// A number below 256 to the power of `k` takes `k` bytes at most.
pub proof fn lemma_be_bytes_len(n: nat, k: nat)
    requires
        n < pow256(k),
    ensures
        be_bytes(n).len() <= k,
    decreases n,
{
    if n > 0 {
        lemma_be_bytes_len(n / 256, (k - 1) as nat);
    }
}

/// 256 to the powers that the widths of the machine's integers need.
pub proof fn lemma_pow256_values()
    ensures
        pow256(0) == 1,
        pow256(1) == 0x100,
        pow256(8) == 0x1_0000_0000_0000_0000,
        pow256(16) == 0x1_0000_0000_0000_0000_0000_0000_0000_0000,
{
    reveal_with_fuel(pow256, 9);
    assert(pow256(8) == 0x1_0000_0000_0000_0000);
    assert(pow256(16) == pow256(8) * pow256(8)) by {
        lemma_pow256_adds(8, 8);
    }
}

/// 256 to the power of a sum is the product of the powers.
pub proof fn lemma_pow256_adds(a: nat, b: nat)
    ensures
        pow256(a + b) == pow256(a) * pow256(b),
    decreases a,
{
    if a > 0 {
        let less = (a - 1) as nat;
        lemma_pow256_adds(less, b);
        assert((a + b - 1) as nat == less + b);
        assert(pow256(a + b) == 256 * pow256(less + b));
        assert(256 * (pow256(less) * pow256(b)) == (256 * pow256(less)) * pow256(b))
            by (nonlinear_arith);
    } else {
        assert(pow256(a) == 1);
        assert(1 * pow256(b) == pow256(b));
    }
}

/// 256 to a higher power is no less.
pub proof fn lemma_pow256_increases(a: nat, b: nat)
    requires
        a <= b,
    ensures
        pow256(a) <= pow256(b),
        pow256(a) >= 1,
    decreases b,
{
    if a < b {
        lemma_pow256_increases(a, (b - 1) as nat);
    } else if a > 0 {
        lemma_pow256_increases((a - 1) as nat, (a - 1) as nat);
    }
}

/// Writes a number to the end of the buffer, the highest byte first and
/// without leading zero bytes, and tells how many bytes that took.
pub fn compressUint(value: u128, buffer: &mut Vec<u8>) -> (len: usize)
    ensures
        final(buffer)@ == old(buffer)@ + be_bytes(value as nat),
        len == be_bytes(value as nat).len(),
        len <= 16,
{
    let mut bytes: Vec<u8> = Vec::new();
    let mut rest = value;
    proof {
        lemma_pow256_values();
        lemma_be_bytes_len(value as nat, 16);
    }
    while rest > 0
        invariant
            be_bytes(rest as nat) + bytes@ == be_bytes(value as nat),
            be_bytes(value as nat).len() <= 16,
        decreases rest,
    {
        let ghost before = bytes@;
        let ghost more = rest;
        bytes.insert(0, (rest % 256) as u8);
        rest = rest / 256;
        assert(be_bytes(rest as nat) + bytes@ =~= be_bytes(more as nat) + before);
    }
    assert(bytes@ =~= be_bytes(value as nat));
    putSlice(buffer, bytes.as_slice());
    bytes.len()
}

/// Reads a number from the first `len` bytes of the buffer, the highest
/// byte first, and hands out with it what is left of the buffer behind them.
pub fn decompressUint(buffer: &[u8], len: usize) -> (read: (u128, &[u8]))
    requires
        len <= 16,
        len <= buffer@.len(),
    ensures
        read.0 == be_value(buffer@.subrange(0, len as int)),
        read.1@ == buffer@.subrange(len as int, buffer@.len() as int),
{
    let mut value: u128 = 0;
    let mut i: usize = 0;
    while i < len
        invariant
            i <= len <= 16,
            len <= buffer@.len(),
            value == be_value(buffer@.subrange(0, i as int)),
        decreases len - i,
    {
        proof {
            let taken = buffer@.subrange(0, i as int);
            lemma_be_value_is_bounded(taken);
            lemma_pow256_increases(i as nat, 15);
            lemma_pow256_values();
            lemma_pow256_adds(15, 1);
            assert(buffer@.subrange(0, i + 1).drop_last() =~= taken);
        }
        value = value * 256 + buffer[i] as u128;
        i += 1;
    }
    (value, advance(buffer, len))
}

/// A number that was written is read back as it was, with what stood behind
/// it left over.
pub proof fn lemma_uint_is_read_back(n: nat, rest: Seq<u8>)
    ensures
        be_value((be_bytes(n) + rest).subrange(0, be_bytes(n).len() as int)) == n,
        (be_bytes(n) + rest).subrange(be_bytes(n).len() as int, (be_bytes(n) + rest).len() as int)
            == rest,
{
    let written = be_bytes(n);
    assert((written + rest).subrange(0, written.len() as int) =~= written);
    assert((written + rest).subrange(written.len() as int, (written + rest).len() as int)
        =~= rest);
    lemma_be_value_of_be_bytes(n);
}

impl Compressor for u8 {
    type Plain = u8;

    open spec fn plain(&self) -> u8 {
        *self
    }

    open spec fn compressed(plain: u8) -> Seq<u8> {
        be_bytes(plain as nat)
    }

    open spec fn reported(plain: u8) -> usize {
        be_bytes(plain as nat).len() as usize
    }

    /// As many bytes as `len` says are read, which can be no more than
    /// the width of the type.
    open spec fn decompressed(buffer: Seq<u8>, len: usize) -> Option<(u8, Seq<u8>)> {
        if len <= 1 && len <= buffer.len() {
            Some(
                (
                    be_value(buffer.subrange(0, len as int)) as u8,
                    buffer.subrange(len as int, buffer.len() as int),
                ),
            )
        } else {
            None
        }
    }

    open spec fn compressed_fixed(plain: u8) -> Seq<u8> {
        Self::compressed(plain)
    }

    open spec fn decompressed_fixed(buffer: Seq<u8>, len: usize) -> Option<(u8, Seq<u8>)> {
        Self::decompressed(buffer, len)
    }

    fn compress(self, buffer: &mut Vec<u8>) -> (len: usize) {
        compressUint(self as u128, buffer)
    }

    fn decompress(buffer: &[u8], len: usize) -> (read: (Self, &[u8])) {
        let (value, rest) = decompressUint(buffer, len);
        proof {
            lemma_be_value_is_bounded(buffer@.subrange(0, len as int));
            lemma_pow256_increases(len as nat, 1);
            lemma_pow256_values();
        }
        (value as u8, rest)
    }

    fn compressFixedSizeBytes(self, buffer: &mut Vec<u8>) -> (len: usize) {
        self.compress(buffer)
    }

    fn decompressFixedSizeBytes(buffer: &[u8], len: usize) -> (read: (Self, &[u8])) {
        Self::decompress(buffer, len)
    }
}

impl Compressor for u64 {
    type Plain = u64;

    open spec fn plain(&self) -> u64 {
        *self
    }

    open spec fn compressed(plain: u64) -> Seq<u8> {
        be_bytes(plain as nat)
    }

    open spec fn reported(plain: u64) -> usize {
        be_bytes(plain as nat).len() as usize
    }

    /// As many bytes as `len` says are read, which can be no more than
    /// the width of the type.
    open spec fn decompressed(buffer: Seq<u8>, len: usize) -> Option<(u64, Seq<u8>)> {
        if len <= 8 && len <= buffer.len() {
            Some(
                (
                    be_value(buffer.subrange(0, len as int)) as u64,
                    buffer.subrange(len as int, buffer.len() as int),
                ),
            )
        } else {
            None
        }
    }

    open spec fn compressed_fixed(plain: u64) -> Seq<u8> {
        Self::compressed(plain)
    }

    open spec fn decompressed_fixed(buffer: Seq<u8>, len: usize) -> Option<(u64, Seq<u8>)> {
        Self::decompressed(buffer, len)
    }

    fn compress(self, buffer: &mut Vec<u8>) -> (len: usize) {
        compressUint(self as u128, buffer)
    }

    fn decompress(buffer: &[u8], len: usize) -> (read: (Self, &[u8])) {
        let (value, rest) = decompressUint(buffer, len);
        proof {
            lemma_be_value_is_bounded(buffer@.subrange(0, len as int));
            lemma_pow256_increases(len as nat, 8);
            lemma_pow256_values();
        }
        (value as u64, rest)
    }

    fn compressFixedSizeBytes(self, buffer: &mut Vec<u8>) -> (len: usize) {
        self.compress(buffer)
    }

    fn decompressFixedSizeBytes(buffer: &[u8], len: usize) -> (read: (Self, &[u8])) {
        Self::decompress(buffer, len)
    }
}

impl Compressor for u128 {
    type Plain = u128;

    open spec fn plain(&self) -> u128 {
        *self
    }

    open spec fn compressed(plain: u128) -> Seq<u8> {
        be_bytes(plain as nat)
    }

    open spec fn reported(plain: u128) -> usize {
        be_bytes(plain as nat).len() as usize
    }

    /// As many bytes as `len` says are read, which can be no more than
    /// the width of the type.
    open spec fn decompressed(buffer: Seq<u8>, len: usize) -> Option<(u128, Seq<u8>)> {
        if len <= 16 && len <= buffer.len() {
            Some(
                (
                    be_value(buffer.subrange(0, len as int)) as u128,
                    buffer.subrange(len as int, buffer.len() as int),
                ),
            )
        } else {
            None
        }
    }

    open spec fn compressed_fixed(plain: u128) -> Seq<u8> {
        Self::compressed(plain)
    }

    open spec fn decompressed_fixed(buffer: Seq<u8>, len: usize) -> Option<(u128, Seq<u8>)> {
        Self::decompressed(buffer, len)
    }

    fn compress(self, buffer: &mut Vec<u8>) -> (len: usize) {
        compressUint(self, buffer)
    }

    fn decompress(buffer: &[u8], len: usize) -> (read: (Self, &[u8])) {
        let (value, rest) = decompressUint(buffer, len);
        (value, rest)
    }

    fn compressFixedSizeBytes(self, buffer: &mut Vec<u8>) -> (len: usize) {
        self.compress(buffer)
    }

    fn decompressFixedSizeBytes(buffer: &[u8], len: usize) -> (read: (Self, &[u8])) {
        Self::decompress(buffer, len)
    }
}

/// A `u8` that was written is read back as it was when the number that
/// writing handed out is handed in, and what stood behind it is left over.
pub proof fn lemma_u8_is_read_back(value: u8, rest: Seq<u8>)
    ensures
        <u8 as Compressor>::decompressed(
            <u8 as Compressor>::compressed(value) + rest,
            <u8 as Compressor>::reported(value),
        ) == Some((value, rest)),
{
    lemma_pow256_values();
    lemma_be_bytes_len(value as nat, 1);
    lemma_uint_is_read_back(value as nat, rest);
}

/// A `u64` that was written is read back as it was when the number that
/// writing handed out is handed in, and what stood behind it is left over.
pub proof fn lemma_u64_is_read_back(value: u64, rest: Seq<u8>)
    ensures
        <u64 as Compressor>::decompressed(
            <u64 as Compressor>::compressed(value) + rest,
            <u64 as Compressor>::reported(value),
        ) == Some((value, rest)),
{
    lemma_pow256_values();
    lemma_be_bytes_len(value as nat, 8);
    lemma_uint_is_read_back(value as nat, rest);
}

/// A `u128` that was written is read back as it was when the number that
/// writing handed out is handed in, and what stood behind it is left over.
pub proof fn lemma_u128_is_read_back(value: u128, rest: Seq<u8>)
    ensures
        <u128 as Compressor>::decompressed(
            <u128 as Compressor>::compressed(value) + rest,
            <u128 as Compressor>::reported(value),
        ) == Some((value, rest)),
{
    lemma_pow256_values();
    lemma_be_bytes_len(value as nat, 16);
    lemma_uint_is_read_back(value as nat, rest);
}

} // verus!
