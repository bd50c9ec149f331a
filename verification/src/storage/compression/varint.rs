use vstd::arithmetic::div_mod::{lemma_add_mod_noop_right, lemma_mul_mod_noop_left, lemma_small_mod};
use vstd::arithmetic::power2::{
    lemma2_to64, lemma2_to64_rest, lemma_pow2_adds, lemma_pow2_strictly_increases,
    lemma_pow2_unfold, pow2,
};
use vstd::bits::{lemma_usize_pow2_no_overflow, lemma_usize_shl_is_mul};
use vstd::prelude::*;
use vstd::slice::slice_subrange;
use crate::storage::compression::buffer::putU8;

verus! {

/// How a length is written: seven bits to the byte, the lowest seven first.
/// Every byte but the last has its highest bit set, which says that more
/// follows.
pub open spec fn compressed_usize(n: nat) -> Seq<u8>
    decreases n,
{
    if n < 0x80 {
        seq![n as u8]
    } else {
        seq![(n % 0x80 + 0x80) as u8] + compressed_usize(n / 0x80)
    }
}

/// Whether the byte at `i` is the first that says that nothing follows.
pub open spec fn is_last_byte(bytes: Seq<u8>, i: int) -> bool {
    &&& 0 <= i < bytes.len()
    &&& bytes[i] < 0x80
    &&& forall|k: int| 0 <= k < i ==> #[trigger] bytes[k] >= 0x80
}

/// The place of the first byte that says that nothing follows.
pub open spec fn last_byte(bytes: Seq<u8>) -> int {
    choose|i: int| is_last_byte(bytes, i)
}

/// What the first `count` bytes stand for: byte `k` gives its lower seven
/// bits, worth 2^(7k).
pub open spec fn written_value(bytes: Seq<u8>, count: nat) -> nat
    decreases count,
{
    if count == 0 {
        0
    } else {
        written_value(bytes, (count - 1) as nat) + ((bytes[count - 1] % 0x80) as nat) * pow2(
            (7 * (count - 1)) as nat,
        )
    }
}

/// What the machine keeps of a number when it holds it in a `usize`: the
/// bits that do not fit are lost.
pub open spec fn wrapped(n: int) -> int {
    n % (usize::MAX + 1)
}

/// Whether a length can be read from the front of these bytes: one of them
/// says that nothing follows, and it stands where its bits can be shifted
/// to in a `usize`.
pub open spec fn holds_usize(bytes: Seq<u8>) -> bool {
    exists|i: int| is_last_byte(bytes, i) && 7 * i < usize::BITS
}

/// The length that is read from the front of these bytes, and the bytes
/// that are left behind it.
pub open spec fn decompressed_usize(bytes: Seq<u8>) -> (usize, Seq<u8>) {
    (
        wrapped(written_value(bytes, (last_byte(bytes) + 1) as nat) as int) as usize,
        bytes.subrange(last_byte(bytes) + 1, bytes.len() as int),
    )
}

/// Only one byte is the first to say that nothing follows.
pub proof fn lemma_last_byte_is_unique(bytes: Seq<u8>, i: int)
    requires
        is_last_byte(bytes, i),
    ensures
        last_byte(bytes) == i,
{
    let j = last_byte(bytes);
    assert(is_last_byte(bytes, j));
    if j < i {
        assert(bytes[j] >= 0x80);
    } else if i < j {
        assert(bytes[i] >= 0x80);
    }
}

/// Shifting to the left multiplies by a power of two, and the machine keeps
/// what fits.
proof fn lemma_shift_wraps(p: usize, shift: usize)
    requires
        shift < usize::BITS,
    ensures
        (p << shift) == wrapped(p * pow2(shift as nat)),
    decreases shift,
{
    let m = usize::MAX + 1;
    if shift == 0 {
        assert(p << shift == p) by (bit_vector)
            requires
                shift == 0,
        ;
        lemma2_to64();
        lemma_small_mod(p as nat, m as nat);
        assert(p * pow2(0) == p);
    } else {
        let less = (shift - 1) as usize;
        let before = p << less;
        assert(p << shift == ((p << less) * 2) as usize) by (bit_vector)
            requires
                0 < shift < usize::BITS,
                less == shift - 1,
        ;
        if usize::BITS == 64 {
            assert(((before * 2) as usize) == (before * 2) % 0x1_0000_0000_0000_0000)
                by (bit_vector)
                requires
                    usize::BITS == 64,
            ;
            assert(m == 0x1_0000_0000_0000_0000);
        } else {
            assert(((before * 2) as usize) == (before * 2) % 0x1_0000_0000) by (bit_vector)
                requires
                    usize::BITS == 32,
            ;
            assert(m == 0x1_0000_0000);
        }
        assert((p << shift) == (before * 2) % m);
        lemma_shift_wraps(p, less);
        lemma_pow2_unfold(shift as nat);
        let x = p * pow2(less as nat);
        assert(before == x % m);
        lemma_mul_mod_noop_left(x, 2, m);
        assert((before * 2) % m == (x * 2) % m);
        assert(p * pow2(shift as nat) == x * 2) by (nonlinear_arith)
            requires
                pow2(shift as nat) == 2 * pow2(less as nat),
                x == p * pow2(less as nat),
        ;
    }
}

/// Taking seven more bits in above those that are there adds their worth,
/// and the machine keeps what fits.
proof fn lemma_take_in(value: usize, byte: u8, shift: usize)
    requires
        shift < usize::BITS,
        value < pow2(shift as nat),
    ensures
        (value | (((byte & 0x7F) as usize) << shift)) == wrapped(
            value + (byte % 0x80) * pow2(shift as nat),
        ),
{
    let m = usize::MAX + 1;
    let p = (byte & 0x7F) as usize;
    let shifted = p << shift;
    assert(p == byte % 0x80) by (bit_vector)
        requires
            p == (byte & 0x7F) as usize,
    ;
    lemma_usize_pow2_no_overflow(shift as nat);
    lemma_usize_shl_is_mul(1, shift);
    assert((1usize << shift) == pow2(shift as nat));
    let one = 1usize << shift;
    assert((value | shifted) == value + shifted) by (bit_vector)
        requires
            shift < usize::BITS,
            value < one,
            one == 1usize << shift,
            shifted == p << shift,
    ;
    lemma_shift_wraps(p, shift);
    let worth = p * pow2(shift as nat);
    assert(shifted == worth % m);
    lemma_add_mod_noop_right(value as int, worth, m);
    lemma_small_mod((value + shifted) as nat, m as nat);
}

/// What the bytes before the last one stand for fits below the worth of
/// the next byte.
proof fn lemma_written_value_is_bounded(bytes: Seq<u8>, count: nat)
    ensures
        written_value(bytes, count) < pow2(7 * count),
    decreases count,
{
    if count == 0 {
        lemma2_to64();
    } else {
        let less = (count - 1) as nat;
        lemma_written_value_is_bounded(bytes, less);
        lemma_pow2_adds(7 * less, 7);
        lemma2_to64();
        let low = written_value(bytes, less);
        let unit = pow2(7 * less);
        let digit = (bytes[count - 1] % 0x80) as nat;
        assert(low + digit * unit < unit * 0x80) by (nonlinear_arith)
            requires
                low < unit,
                digit < 0x80,
        ;
    }
}

/// Reads a length from the front of the buffer, and hands out with it what
/// is left of the buffer behind it.
pub fn decompressUsize(buffer: &[u8]) -> (read: (usize, &[u8]))
    requires
        holds_usize(buffer@),
    ensures
        read.0 == decompressed_usize(buffer@).0,
        read.1@ == decompressed_usize(buffer@).1,
{
    let ghost last = choose|i: int| is_last_byte(buffer@, i) && 7 * i < usize::BITS;
    let mut value: usize = 0;
    let mut i: usize = 0;
    loop
        invariant
            is_last_byte(buffer@, last),
            7 * last < usize::BITS,
            i <= last,
            value == written_value(buffer@, i as nat),
        decreases last - i,
    {
        let byte = buffer[i];
        proof {
            lemma_written_value_is_bounded(buffer@, i as nat);
            lemma_take_in(value, byte, (i * 7) as usize);
        }
        value |= ((byte & 0x7F) as usize) << (i * 7);
        if byte < 0x80 {
            proof {
                lemma_last_byte_is_unique(buffer@, i as int);
            }
            return (value, slice_subrange(buffer, i + 1, buffer.len()));
        }
        proof {
            // More follows, so the last byte is yet to come, and these bits fit.
            assert(i < last);
            lemma_written_value_is_bounded(buffer@, (i + 1) as nat);
            lemma_usize_pow2_no_overflow((7 * (i + 1)) as nat);
            lemma_small_mod(
                written_value(buffer@, (i + 1) as nat),
                (usize::MAX + 1) as nat,
            );
        }
        i += 1;
    }
}

/// Reads a length from the front of the buffer, and hands out with it what
/// is left of the buffer behind it; or nothing, where no length can be read:
/// where no byte says that nothing follows, or the first that does stands
/// too far back for a `usize`.
pub fn tryDecompressUsize(buffer: &[u8]) -> (read: Option<(usize, &[u8])>)
    ensures
        read is Some == holds_usize(buffer@),
        read matches Some(found) ==> found.0 == decompressed_usize(buffer@).0 && found.1@
            == decompressed_usize(buffer@).1,
{
    let mut i: usize = 0;
    while i < buffer.len() && i < 10 && i * 7 < usize::BITS as usize
        invariant
            i <= buffer@.len(),
            i <= 10,
            forall|k: int| 0 <= k < i ==> #[trigger] buffer@[k] >= 0x80,
        decreases buffer@.len() - i,
    {
        if buffer[i] < 0x80 {
            assert(is_last_byte(buffer@, i as int));
            return Some(decompressUsize(buffer));
        }
        i += 1;
    }
    proof {
        if holds_usize(buffer@) {
            let last = choose|j: int| is_last_byte(buffer@, j) && 7 * j < usize::BITS;
            if last < i {
                assert(buffer@[last] >= 0x80);
            }
        }
    }
    None
}

/// Writes a length to the end of the buffer: seven bits to the byte, the
/// lowest seven first, and every byte but the last with its highest bit set.
/// So 300, which is 100101100 in binary, is written as the two bytes
/// 10101100 and 00000010.
pub fn compressUsize(n: usize, buffer: &mut Vec<u8>)
    ensures
        final(buffer)@ == old(buffer)@ + compressed_usize(n as nat),
{
    let mut n = n;
    let ghost whole = compressed_usize(n as nat);
    while n >= 0x80
        invariant
            buffer@ + compressed_usize(n as nat) == old(buffer)@ + whole,
        decreases n,
    {
        let byte = (#[verifier::truncate] (n as u8)) | 0x80;
        let ghost before = buffer@;
        let ghost m = n;
        assert(byte == (n % 0x80 + 0x80) as u8) by (bit_vector)
            requires
                byte == (#[verifier::truncate] (n as u8)) | 0x80,
        ;
        assert(n >> 7 == n / 0x80) by (bit_vector);
        putU8(buffer, byte);
        n >>= 7;
        assert(buffer@ + compressed_usize(n as nat) =~= before + compressed_usize(m as nat));
    }
    let ghost before = buffer@;
    putU8(buffer, #[verifier::truncate] (n as u8));
    assert(buffer@ =~= before + compressed_usize(n as nat));
}

/// What bytes stand for when one byte is put in front of them: what that
/// byte gives, and 128 times what they stood for.
proof fn lemma_written_value_behind(first: u8, bytes: Seq<u8>, count: nat)
    requires
        count <= bytes.len(),
    ensures
        written_value(seq![first] + bytes, count + 1) == (first % 0x80) + 0x80 * written_value(
            bytes,
            count,
        ),
    decreases count,
{
    let all = seq![first] + bytes;
    lemma2_to64();
    if count == 0 {
        assert(written_value(all, 0) == 0);
        assert(all[0] == first);
        assert(written_value(all, 1) == written_value(all, 0) + ((all[0] % 0x80) as nat) * pow2(0));
    } else {
        let less = (count - 1) as nat;
        lemma_written_value_behind(first, bytes, less);
        assert(all[count as int] == bytes[count - 1]);
        lemma_pow2_adds(7 * less, 7);
        let digit = (bytes[count - 1] % 0x80) as nat;
        let unit = pow2(7 * less);
        assert(pow2((7 * count) as nat) == unit * 0x80);
        assert(digit * (unit * 0x80) == 0x80 * (digit * unit)) by (nonlinear_arith);
        assert(written_value(all, count + 1) == written_value(all, count) + digit * pow2(
            (7 * count) as nat,
        ));
        assert(written_value(bytes, count) == written_value(bytes, less) + digit * unit);
    }
}

/// What the first bytes stand for does not depend on what follows them.
proof fn lemma_written_value_of_front(bytes: Seq<u8>, rest: Seq<u8>, count: nat)
    requires
        count <= bytes.len(),
    ensures
        written_value(bytes + rest, count) == written_value(bytes, count),
    decreases count,
{
    if count > 0 {
        lemma_written_value_of_front(bytes, rest, (count - 1) as nat);
        assert((bytes + rest)[count - 1] == bytes[count - 1]);
    }
}

/// What a written length looks like: its last byte, and no byte before it,
/// says that nothing follows; its bytes stand for the length; and a length
/// of more than one byte is at least the worth of its last byte.
pub proof fn lemma_compressed_usize(n: nat)
    ensures
        compressed_usize(n).len() >= 1,
        is_last_byte(compressed_usize(n), compressed_usize(n).len() - 1),
        written_value(compressed_usize(n), compressed_usize(n).len()) == n,
        compressed_usize(n).len() > 1 ==> n >= pow2((7 * (compressed_usize(n).len() - 1)) as nat),
    decreases n,
{
    let written = compressed_usize(n);
    lemma2_to64();
    if n < 0x80 {
        assert(written_value(written, 0) == 0);
        assert(written_value(written, 1) == written_value(written, 0) + ((written[0] % 0x80)
            as nat) * pow2(0));
    } else {
        let first = (n % 0x80 + 0x80) as u8;
        let behind = compressed_usize(n / 0x80);
        lemma_compressed_usize(n / 0x80);
        assert(written == seq![first] + behind);
        assert forall|k: int| 0 <= k < written.len() - 1 implies #[trigger] written[k] >= 0x80 by {
            if k > 0 {
                assert(written[k] == behind[k - 1]);
            }
        }
        assert(written[written.len() - 1] == behind[behind.len() - 1]);
        lemma_written_value_behind(first, behind, behind.len());
        assert(first % 0x80 == n % 0x80);
        let count = behind.len();
        lemma_pow2_adds((7 * (count - 1)) as nat, 7);
        if count > 1 {
            assert(n >= pow2((7 * count) as nat)) by (nonlinear_arith)
                requires
                    n / 0x80 >= pow2((7 * (count - 1)) as nat),
                    pow2((7 * count) as nat) == pow2((7 * (count - 1)) as nat) * 0x80,
            ;
        } else {
            assert(pow2(7) == 0x80);
        }
    }
}

/// A length that was written is read back as it was, and what stood behind
/// it is what is left: reading undoes writing.
pub proof fn lemma_usize_is_read_back(n: usize, rest: Seq<u8>)
    ensures
        holds_usize(compressed_usize(n as nat) + rest),
        decompressed_usize(compressed_usize(n as nat) + rest) == (n, rest),
{
    let written = compressed_usize(n as nat);
    let all = written + rest;
    let last = written.len() - 1;
    lemma_compressed_usize(n as nat);
    assert(is_last_byte(all, last)) by {
        assert(all[last] == written[last]);
        assert forall|k: int| 0 <= k < last implies #[trigger] all[k] >= 0x80 by {
            assert(all[k] == written[k]);
        }
    }
    lemma_last_byte_is_unique(all, last);
    if 7 * last >= usize::BITS {
        // Then the length would be too great for a `usize`.
        lemma2_to64();
        lemma2_to64_rest();
        if 7 * last > usize::BITS {
            lemma_pow2_strictly_increases(
                usize::BITS as nat,
                (7 * last) as nat,
            );
        }
        assert(false);
    }
    lemma_written_value_of_front(written, rest, written.len());
    lemma_small_mod(n as nat, (usize::MAX + 1) as nat);
    assert(all.subrange(last + 1, all.len() as int) =~= rest);
}

} // verus!
