use vstd::array::array_fill_for_copy_types;
use vstd::prelude::*;
use crate::primitives::{zeros, Address, Bloom, Bytes, B256, B512, U256};
use crate::storage::compression::buffer::{advance, copyToBytes, putSlice};
use crate::storage::compression::compressor::Compressor;

verus! {

/// The bytes without the zero bytes they begin with.
pub open spec fn without_leading_zeros(bytes: Seq<u8>) -> Seq<u8>
    decreases bytes.len(),
{
    if bytes.len() == 0 || bytes[0] != 0 {
        bytes
    } else {
        without_leading_zeros(bytes.drop_first())
    }
}

/// The bytes that were left without their leading zeros make up the whole
/// again when the zeros are put back in front.
pub proof fn lemma_leading_zeros_can_be_put_back(bytes: Seq<u8>)
    ensures
        without_leading_zeros(bytes).len() <= bytes.len(),
        zeros((bytes.len() - without_leading_zeros(bytes).len()) as nat) + without_leading_zeros(
            bytes,
        ) == bytes,
    decreases bytes.len(),
{
    let kept = without_leading_zeros(bytes);
    if bytes.len() == 0 || bytes[0] != 0 {
        assert(zeros(0) + kept =~= bytes);
    } else {
        lemma_leading_zeros_can_be_put_back(bytes.drop_first());
        let fewer = (bytes.drop_first().len() - kept.len()) as nat;
        assert(zeros(fewer + 1) + kept =~= seq![0u8] + (zeros(fewer) + kept));
        assert(seq![0u8] + bytes.drop_first() =~= bytes);
    }
}

impl<const N: usize> Compressor for [u8; N] {
    type Plain = Seq<u8>;

    open spec fn plain(&self) -> Seq<u8> {
        self@
    }

    /// All the bytes, as they are.
    open spec fn compressed(plain: Seq<u8>) -> Seq<u8> {
        plain
    }

    open spec fn reported(plain: Seq<u8>) -> usize {
        N
    }

    /// With `len` zero nothing is read and the bytes are all zero; else the
    /// first `N` bytes are read.
    open spec fn decompressed(buffer: Seq<u8>, len: usize) -> Option<(Seq<u8>, Seq<u8>)> {
        if len == 0 {
            Some((zeros(N as nat), buffer))
        } else if N <= buffer.len() {
            Some((buffer.subrange(0, N as int), buffer.subrange(N as int, buffer.len() as int)))
        } else {
            None
        }
    }

    open spec fn compressed_fixed(plain: Seq<u8>) -> Seq<u8> {
        Self::compressed(plain)
    }

    open spec fn decompressed_fixed(buffer: Seq<u8>, len: usize) -> Option<(Seq<u8>, Seq<u8>)> {
        Self::decompressed(buffer, len)
    }

    fn compress(self, buffer: &mut Vec<u8>) -> (len: usize) {
        putSlice(buffer, self.as_slice());
        N
    }

    fn decompress(buffer: &[u8], len: usize) -> (read: (Self, &[u8])) {
        let mut decompressedValue: [u8; N] = array_fill_for_copy_types(0u8);
        if len == 0 {
            assert(decompressedValue@ =~= zeros(N as nat));
            return (decompressedValue, buffer);
        }
        let mut i: usize = 0;
        while i < N
            invariant
                i <= N <= buffer@.len(),
                forall|k: int| 0 <= k < i ==> decompressedValue@[k] == buffer@[k],
            decreases N - i,
        {
            decompressedValue[i] = buffer[i];
            i += 1;
        }
        assert(decompressedValue@ =~= buffer@.subrange(0, N as int));
        (decompressedValue, advance(buffer, N))
    }

    fn compressFixedSizeBytes(self, buffer: &mut Vec<u8>) -> (len: usize) {
        self.compress(buffer)
    }

    fn decompressFixedSizeBytes(buffer: &[u8], len: usize) -> (read: (Self, &[u8])) {
        Self::decompress(buffer, len)
    }
}

impl Compressor for Bytes {
    type Plain = Seq<u8>;

    open spec fn plain(&self) -> Seq<u8> {
        self.0@
    }

    /// All the bytes, as they are.
    open spec fn compressed(plain: Seq<u8>) -> Seq<u8> {
        plain
    }

    open spec fn reported(plain: Seq<u8>) -> usize {
        plain.len() as usize
    }

    /// The first `len` bytes are read.
    open spec fn decompressed(buffer: Seq<u8>, len: usize) -> Option<(Seq<u8>, Seq<u8>)> {
        if len <= buffer.len() {
            Some(
                (buffer.subrange(0, len as int), buffer.subrange(len as int, buffer.len() as int)),
            )
        } else {
            None
        }
    }

    open spec fn compressed_fixed(plain: Seq<u8>) -> Seq<u8> {
        Self::compressed(plain)
    }

    open spec fn decompressed_fixed(buffer: Seq<u8>, len: usize) -> Option<(Seq<u8>, Seq<u8>)> {
        Self::decompressed(buffer, len)
    }

    fn compress(self, buffer: &mut Vec<u8>) -> (len: usize) {
        let bytesLen = self.0.len();
        putSlice(buffer, self.0.as_slice());
        bytesLen
    }

    fn decompress(buffer: &[u8], len: usize) -> (read: (Self, &[u8])) {
        let (copied, rest) = copyToBytes(buffer, len);
        (Bytes(copied), rest)
    }

    fn compressFixedSizeBytes(self, buffer: &mut Vec<u8>) -> (len: usize) {
        self.compress(buffer)
    }

    fn decompressFixedSizeBytes(buffer: &[u8], len: usize) -> (read: (Self, &[u8])) {
        Self::decompress(buffer, len)
    }
}

impl Compressor for U256 {
    type Plain = Seq<u8>;

    open spec fn plain(&self) -> Seq<u8> {
        self.0@
    }

    /// The bytes of the number, the highest first, without leading zero
    /// bytes.
    open spec fn compressed(plain: Seq<u8>) -> Seq<u8> {
        without_leading_zeros(plain)
    }

    open spec fn reported(plain: Seq<u8>) -> usize {
        without_leading_zeros(plain).len() as usize
    }

    /// The first `len` bytes are read as the lowest bytes of the number,
    /// which can be no more than 32.
    open spec fn decompressed(buffer: Seq<u8>, len: usize) -> Option<(Seq<u8>, Seq<u8>)> {
        if len <= 32 && len <= buffer.len() {
            Some(
                (
                    zeros((32 - len) as nat) + buffer.subrange(0, len as int),
                    buffer.subrange(len as int, buffer.len() as int),
                ),
            )
        } else {
            None
        }
    }

    open spec fn compressed_fixed(plain: Seq<u8>) -> Seq<u8> {
        Self::compressed(plain)
    }

    open spec fn decompressed_fixed(buffer: Seq<u8>, len: usize) -> Option<(Seq<u8>, Seq<u8>)> {
        Self::decompressed(buffer, len)
    }

    fn compress(self, buffer: &mut Vec<u8>) -> (len: usize) {
        let u256AsBytes = self.0;
        let mut bytesWithLeadingZeroBits: usize = 0;
        assert(u256AsBytes@.subrange(0, 32) =~= u256AsBytes@);
        while bytesWithLeadingZeroBits < 32 && u256AsBytes[bytesWithLeadingZeroBits] == 0
            invariant
                bytesWithLeadingZeroBits <= 32,
                u256AsBytes@.len() == 32,
                without_leading_zeros(u256AsBytes@) == without_leading_zeros(
                    u256AsBytes@.subrange(bytesWithLeadingZeroBits as int, 32),
                ),
            decreases 32 - bytesWithLeadingZeroBits,
        {
            let ghost rest = u256AsBytes@.subrange(bytesWithLeadingZeroBits as int, 32);
            assert(rest.drop_first() =~= u256AsBytes@.subrange(bytesWithLeadingZeroBits + 1, 32));
            bytesWithLeadingZeroBits += 1;
        }
        proof {
            let rest = u256AsBytes@.subrange(bytesWithLeadingZeroBits as int, 32);
            assert(without_leading_zeros(rest) == rest);
        }
        let sizeOccupiedInBuffer = 32 - bytesWithLeadingZeroBits;
        let kept = vstd::slice::slice_subrange(
            u256AsBytes.as_slice(),
            bytesWithLeadingZeroBits,
            32,
        );
        putSlice(buffer, kept);
        sizeOccupiedInBuffer
    }

    fn decompress(buffer: &[u8], len: usize) -> (read: (Self, &[u8])) {
        let mut u256AsBytes: [u8; 32] = array_fill_for_copy_types(0u8);
        let mut i: usize = 0;
        while i < len
            invariant
                i <= len <= 32,
                len <= buffer@.len(),
                forall|k: int| 0 <= k < 32 - len ==> u256AsBytes@[k] == 0,
                forall|k: int| 0 <= k < i ==> u256AsBytes@[32 - len + k] == buffer@[k],
            decreases len - i,
        {
            u256AsBytes[32 - len + i] = buffer[i];
            i += 1;
        }
        assert(u256AsBytes@ =~= zeros((32 - len) as nat) + buffer@.subrange(0, len as int));
        (U256(u256AsBytes), advance(buffer, len))
    }

    fn compressFixedSizeBytes(self, buffer: &mut Vec<u8>) -> (len: usize) {
        self.compress(buffer)
    }

    fn decompressFixedSizeBytes(buffer: &[u8], len: usize) -> (read: (Self, &[u8])) {
        Self::decompress(buffer, len)
    }
}

impl Compressor for Address {
    type Plain = Seq<u8>;

    open spec fn plain(&self) -> Seq<u8> {
        self.0@
    }

    /// All the 20 bytes, as they are.
    open spec fn compressed(plain: Seq<u8>) -> Seq<u8> {
        plain
    }

    open spec fn reported(plain: Seq<u8>) -> usize {
        20
    }

    /// With `len` zero nothing is read and the bytes are all zero; else the
    /// first 20 bytes are read.
    open spec fn decompressed(buffer: Seq<u8>, len: usize) -> Option<(Seq<u8>, Seq<u8>)> {
        <[u8; 20] as Compressor>::decompressed(buffer, len)
    }

    open spec fn compressed_fixed(plain: Seq<u8>) -> Seq<u8> {
        Self::compressed(plain)
    }

    open spec fn decompressed_fixed(buffer: Seq<u8>, len: usize) -> Option<(Seq<u8>, Seq<u8>)> {
        Self::decompressed(buffer, len)
    }

    fn compress(self, buffer: &mut Vec<u8>) -> (len: usize) {
        self.0.compress(buffer)
    }

    fn decompress(buffer: &[u8], len: usize) -> (read: (Self, &[u8])) {
        let (value, buffer) = <[u8; 20] as Compressor>::decompress(buffer, len);
        (Address(value), buffer)
    }

    fn compressFixedSizeBytes(self, buffer: &mut Vec<u8>) -> (len: usize) {
        self.compress(buffer)
    }

    fn decompressFixedSizeBytes(buffer: &[u8], len: usize) -> (read: (Self, &[u8])) {
        Self::decompress(buffer, len)
    }
}

impl Compressor for B256 {
    type Plain = Seq<u8>;

    open spec fn plain(&self) -> Seq<u8> {
        self.0@
    }

    /// All the 32 bytes, as they are.
    open spec fn compressed(plain: Seq<u8>) -> Seq<u8> {
        plain
    }

    open spec fn reported(plain: Seq<u8>) -> usize {
        32
    }

    /// With `len` zero nothing is read and the bytes are all zero; else the
    /// first 32 bytes are read.
    open spec fn decompressed(buffer: Seq<u8>, len: usize) -> Option<(Seq<u8>, Seq<u8>)> {
        <[u8; 32] as Compressor>::decompressed(buffer, len)
    }

    open spec fn compressed_fixed(plain: Seq<u8>) -> Seq<u8> {
        Self::compressed(plain)
    }

    open spec fn decompressed_fixed(buffer: Seq<u8>, len: usize) -> Option<(Seq<u8>, Seq<u8>)> {
        Self::decompressed(buffer, len)
    }

    fn compress(self, buffer: &mut Vec<u8>) -> (len: usize) {
        self.0.compress(buffer)
    }

    fn decompress(buffer: &[u8], len: usize) -> (read: (Self, &[u8])) {
        let (value, buffer) = <[u8; 32] as Compressor>::decompress(buffer, len);
        (B256(value), buffer)
    }

    fn compressFixedSizeBytes(self, buffer: &mut Vec<u8>) -> (len: usize) {
        self.compress(buffer)
    }

    fn decompressFixedSizeBytes(buffer: &[u8], len: usize) -> (read: (Self, &[u8])) {
        Self::decompress(buffer, len)
    }
}

impl Compressor for B512 {
    type Plain = Seq<u8>;

    open spec fn plain(&self) -> Seq<u8> {
        self.0@
    }

    /// All the 64 bytes, as they are.
    open spec fn compressed(plain: Seq<u8>) -> Seq<u8> {
        plain
    }

    open spec fn reported(plain: Seq<u8>) -> usize {
        64
    }

    /// With `len` zero nothing is read and the bytes are all zero; else the
    /// first 64 bytes are read.
    open spec fn decompressed(buffer: Seq<u8>, len: usize) -> Option<(Seq<u8>, Seq<u8>)> {
        <[u8; 64] as Compressor>::decompressed(buffer, len)
    }

    open spec fn compressed_fixed(plain: Seq<u8>) -> Seq<u8> {
        Self::compressed(plain)
    }

    open spec fn decompressed_fixed(buffer: Seq<u8>, len: usize) -> Option<(Seq<u8>, Seq<u8>)> {
        Self::decompressed(buffer, len)
    }

    fn compress(self, buffer: &mut Vec<u8>) -> (len: usize) {
        self.0.compress(buffer)
    }

    fn decompress(buffer: &[u8], len: usize) -> (read: (Self, &[u8])) {
        let (value, buffer) = <[u8; 64] as Compressor>::decompress(buffer, len);
        (B512(value), buffer)
    }

    fn compressFixedSizeBytes(self, buffer: &mut Vec<u8>) -> (len: usize) {
        self.compress(buffer)
    }

    fn decompressFixedSizeBytes(buffer: &[u8], len: usize) -> (read: (Self, &[u8])) {
        Self::decompress(buffer, len)
    }
}

impl Compressor for Bloom {
    type Plain = Seq<u8>;

    open spec fn plain(&self) -> Seq<u8> {
        self.0@
    }

    /// All the 256 bytes, as they are.
    open spec fn compressed(plain: Seq<u8>) -> Seq<u8> {
        plain
    }

    open spec fn reported(plain: Seq<u8>) -> usize {
        256
    }

    /// With `len` zero nothing is read and the bytes are all zero; else the
    /// first 256 bytes are read.
    open spec fn decompressed(buffer: Seq<u8>, len: usize) -> Option<(Seq<u8>, Seq<u8>)> {
        <[u8; 256] as Compressor>::decompressed(buffer, len)
    }

    open spec fn compressed_fixed(plain: Seq<u8>) -> Seq<u8> {
        Self::compressed(plain)
    }

    open spec fn decompressed_fixed(buffer: Seq<u8>, len: usize) -> Option<(Seq<u8>, Seq<u8>)> {
        Self::decompressed(buffer, len)
    }

    fn compress(self, buffer: &mut Vec<u8>) -> (len: usize) {
        self.0.compress(buffer)
    }

    fn decompress(buffer: &[u8], len: usize) -> (read: (Self, &[u8])) {
        let (value, buffer) = <[u8; 256] as Compressor>::decompress(buffer, len);
        (Bloom(value), buffer)
    }

    fn compressFixedSizeBytes(self, buffer: &mut Vec<u8>) -> (len: usize) {
        self.compress(buffer)
    }

    fn decompressFixedSizeBytes(buffer: &[u8], len: usize) -> (read: (Self, &[u8])) {
        Self::decompress(buffer, len)
    }
}

/// A number of 256 bits that was written is read back as it was when the
/// number that writing handed out is handed in, and what stood behind it is
/// left over.
pub proof fn lemma_u256_is_read_back(number: Seq<u8>, rest: Seq<u8>)
    requires
        number.len() == 32,
    ensures
        <U256 as Compressor>::decompressed(
            <U256 as Compressor>::compressed(number) + rest,
            <U256 as Compressor>::reported(number),
        ) == Some((number, rest)),
{
    lemma_leading_zeros_can_be_put_back(number);
    let kept = without_leading_zeros(number);
    assert((kept + rest).subrange(0, kept.len() as int) =~= kept);
    assert((kept + rest).subrange(kept.len() as int, (kept + rest).len() as int) =~= rest);
}

/// Bytes that were written are read back as they were when the number that
/// writing handed out is handed in, and what stood behind them is left
/// over.
pub proof fn lemma_bytes_are_read_back(bytes: Seq<u8>, rest: Seq<u8>)
    requires
        bytes.len() <= usize::MAX,
    ensures
        <Bytes as Compressor>::decompressed(
            <Bytes as Compressor>::compressed(bytes) + rest,
            <Bytes as Compressor>::reported(bytes),
        ) == Some((bytes, rest)),
{
    assert((bytes + rest).subrange(0, bytes.len() as int) =~= bytes);
    assert((bytes + rest).subrange(bytes.len() as int, (bytes + rest).len() as int) =~= rest);
}

/// Fixed-size bytes that were written are read back as they were when the
/// number that writing handed out is handed in, unless there are none of
/// them; and what stood behind them is left over.
pub proof fn lemma_fixed_size_bytes_are_read_back<const N: usize>(bytes: Seq<u8>, rest: Seq<u8>)
    requires
        bytes.len() == N,
        N > 0,
    ensures
        <[u8; N] as Compressor>::decompressed(
            <[u8; N] as Compressor>::compressed(bytes) + rest,
            <[u8; N] as Compressor>::reported(bytes),
        ) == Some((bytes, rest)),
{
    assert((bytes + rest).subrange(0, N as int) =~= bytes);
    assert((bytes + rest).subrange(N as int, (bytes + rest).len() as int) =~= rest);
}

} // verus!
