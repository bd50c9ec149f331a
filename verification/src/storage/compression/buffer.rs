use bytes::{Buf, BufMut};
use vstd::prelude::*;

verus! {

/// `BufMut::put_u8` of the bytes crate, on a `Vec<u8>`: the byte is appended
/// to the vector, which grows as it has to.
#[verifier::external_body]
pub(crate) fn putU8(buffer: &mut Vec<u8>, byte: u8)
    ensures
        final(buffer)@ == old(buffer)@.push(byte),
{
    buffer.put_u8(byte);
}

/// `BufMut::put_slice` of the bytes crate, on a `Vec<u8>`: the bytes are
/// appended to the vector, in their order.
#[verifier::external_body]
pub(crate) fn putSlice(buffer: &mut Vec<u8>, bytes: &[u8])
    ensures
        final(buffer)@ == old(buffer)@ + bytes@,
{
    buffer.put_slice(bytes);
}

/// `Buf::advance` of the bytes crate, on a slice of bytes: what is left of
/// the slice behind its first `count` bytes. The crate panics where the
/// slice is shorter than that.
#[verifier::external_body]
pub(crate) fn advance<'a>(buffer: &'a [u8], count: usize) -> (rest: &'a [u8])
    requires
        count <= buffer@.len(),
    ensures
        rest@ == buffer@.subrange(count as int, buffer@.len() as int),
{
    let mut rest = buffer;
    rest.advance(count);
    rest
}

/// `Buf::copy_to_bytes` of the bytes crate, on a slice of bytes: a copy of
/// the first `len` bytes of the slice, and what is left of the slice behind
/// them. The crate panics where the slice is shorter than that.
#[verifier::external_body]
pub(crate) fn copyToBytes<'a>(buffer: &'a [u8], len: usize) -> (taken: (Vec<u8>, &'a [u8]))
    requires
        len <= buffer@.len(),
    ensures
        taken.0@ == buffer@.subrange(0, len as int),
        taken.1@ == buffer@.subrange(len as int, buffer@.len() as int),
{
    let mut rest = buffer;
    let copied: Vec<u8> = rest.copy_to_bytes(len).into();
    (copied, rest)
}

} // verus!
