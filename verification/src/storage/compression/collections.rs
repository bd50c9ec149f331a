use vstd::prelude::*;
use vstd::slice::slice_subrange;
use crate::storage::compression::buffer::{advance, putSlice};
use crate::storage::compression::compressor::Compressor;
use crate::storage::compression::uint::{
    lemma_be_bytes_len, lemma_pow256_values, lemma_u64_is_read_back,
};
use crate::storage::compression::varint::{
    compressUsize, compressed_usize, decompressUsize, decompressed_usize, holds_usize,
    lemma_usize_is_read_back,
};

verus! {

impl<T: Compressor> Compressor for Option<T> {
    type Plain = Option<T::Plain>;

    open spec fn plain(&self) -> Option<T::Plain> {
        match self {
            Some(element) => Some(element.plain()),
            None => None,
        }
    }

    /// Nothing is written for `None`. For `Some(_)` the number that the
    /// element reports is written as a length, and then the element.
    open spec fn compressed(plain: Option<T::Plain>) -> Seq<u8> {
        match plain {
            Some(element) => compressed_usize(T::reported(element) as nat) + T::compressed(element),
            None => Seq::empty(),
        }
    }

    /// 0 for `None` and 1 for `Some(_)`.
    open spec fn reported(plain: Option<T::Plain>) -> usize {
        match plain {
            Some(_) => 1,
            None => 0,
        }
    }

    /// With `len` zero nothing is read and the value is `None`. Else a
    /// length is read, and the element from as many bytes as it says.
    open spec fn decompressed(buffer: Seq<u8>, len: usize) -> Option<
        (Option<T::Plain>, Seq<u8>),
    > {
        if len == 0 {
            Some((None, buffer))
        } else if !holds_usize(buffer) {
            None
        } else {
            let (size, rest) = decompressed_usize(buffer);
            if size > rest.len() {
                None
            } else {
                match T::decompressed(rest.subrange(0, size as int), size) {
                    Some((element, _)) => Some(
                        (Some(element), rest.subrange(size as int, rest.len() as int)),
                    ),
                    None => None,
                }
            }
        }
    }

    /// Nothing is written for `None`, and for `Some(_)` the element alone.
    open spec fn compressed_fixed(plain: Option<T::Plain>) -> Seq<u8> {
        match plain {
            Some(element) => T::compressed(element),
            None => Seq::empty(),
        }
    }

    /// With `len` zero nothing is read and the value is `None`. Else the
    /// element is read with `len` handed in.
    open spec fn decompressed_fixed(buffer: Seq<u8>, len: usize) -> Option<
        (Option<T::Plain>, Seq<u8>),
    > {
        if len == 0 {
            Some((None, buffer))
        } else {
            match T::decompressed(buffer, len) {
                Some((element, rest)) => Some((Some(element), rest)),
                None => None,
            }
        }
    }

    fn compress(self, buffer: &mut Vec<u8>) -> (len: usize) {
        match self {
            None => {
                assert(buffer@ + Seq::<u8>::empty() =~= buffer@);
                0
            },
            Some(element) => {
                let mut temp: Vec<u8> = Vec::with_capacity(64);
                let ghost written = T::compressed(element.plain());
                let bufferSizeOccupiedByElement = element.compress(&mut temp);
                assert(temp@ =~= written);
                compressUsize(bufferSizeOccupiedByElement, buffer);
                putSlice(buffer, temp.as_slice());
                assert(buffer@ =~= old(buffer)@ + (compressed_usize(
                    bufferSizeOccupiedByElement as nat,
                ) + written));
                1
            },
        }
    }

    fn decompress(buffer: &[u8], len: usize) -> (read: (Self, &[u8])) {
        if len == 0 {
            return (None, buffer);
        }
        let (bufferSizeOccupiedByElement, buffer) = decompressUsize(buffer);
        let (element, _) = T::decompress(
            slice_subrange(buffer, 0, bufferSizeOccupiedByElement),
            bufferSizeOccupiedByElement,
        );
        (Some(element), advance(buffer, bufferSizeOccupiedByElement))
    }

    fn compressFixedSizeBytes(self, buffer: &mut Vec<u8>) -> (len: usize) {
        match self {
            Some(value) => {
                value.compress(buffer);
                1
            },
            None => {
                assert(buffer@ + Seq::<u8>::empty() =~= buffer@);
                0
            },
        }
    }

    fn decompressFixedSizeBytes(buffer: &[u8], len: usize) -> (read: (Self, &[u8])) {
        if len == 0 {
            return (None, buffer);
        }
        let (value, buffer) = T::decompress(buffer, len);
        (Some(value), buffer)
    }
}

/// What each of the values is, as far as its compact form goes.
pub open spec fn plain_items<T: Compressor>(items: Seq<T>) -> Seq<T::Plain> {
    Seq::new(items.len(), |i: int| items[i].plain())
}

/// The values one after the other, each behind the number it reports,
/// which is written as a length.
pub open spec fn compressed_items<T: Compressor>(items: Seq<T::Plain>) -> Seq<u8>
    decreases items.len(),
{
    if items.len() == 0 {
        Seq::empty()
    } else {
        compressed_items::<T>(items.drop_last()) + (compressed_usize(
            T::reported(items.last()) as nat,
        ) + T::compressed(items.last()))
    }
}

/// The values one after the other, and nothing between them.
pub open spec fn compressed_items_fixed<T: Compressor>(items: Seq<T::Plain>) -> Seq<u8>
    decreases items.len(),
{
    if items.len() == 0 {
        Seq::empty()
    } else {
        compressed_items_fixed::<T>(items.drop_last()) + T::compressed(items.last())
    }
}

/// The `count` values that are read one after the other, each behind its
/// length, and the bytes that are left behind the last; or nothing, where
/// one of them cannot be read.
pub open spec fn read_items<T: Compressor>(buffer: Seq<u8>, count: nat) -> Option<
    (Seq<T::Plain>, Seq<u8>),
>
    decreases count,
{
    if count == 0 {
        Some((Seq::empty(), buffer))
    } else {
        match read_items::<T>(buffer, (count - 1) as nat) {
            Some((items, rest)) => {
                if !holds_usize(rest) {
                    None
                } else {
                    let (size, behind) = decompressed_usize(rest);
                    if size > behind.len() {
                        None
                    } else {
                        match T::decompressed(behind, size) {
                            Some((element, _)) => Some(
                                (
                                    items.push(element),
                                    behind.subrange(size as int, behind.len() as int),
                                ),
                            ),
                            None => None,
                        }
                    }
                }
            },
            None => None,
        }
    }
}

/// The `count` values that are read one after the other, each with `len`
/// handed in, and the bytes that are left behind the last; or nothing,
/// where one of them cannot be read.
pub open spec fn read_items_fixed<T: Compressor>(buffer: Seq<u8>, len: usize, count: nat) -> Option<
    (Seq<T::Plain>, Seq<u8>),
>
    decreases count,
{
    if count == 0 {
        Some((Seq::empty(), buffer))
    } else {
        match read_items_fixed::<T>(buffer, len, (count - 1) as nat) {
            Some((items, rest)) => match T::decompressed(rest, len) {
                Some((element, behind)) => Some((items.push(element), behind)),
                None => None,
            },
            None => None,
        }
    }
}

/// Where `count` values can be read, any lesser count of them can.
pub proof fn lemma_fewer_items_can_be_read<T: Compressor>(buffer: Seq<u8>, count: nat, fewer: nat)
    requires
        fewer <= count,
        read_items::<T>(buffer, count) is Some,
    ensures
        read_items::<T>(buffer, fewer) is Some,
    decreases count,
{
    if fewer < count {
        lemma_fewer_items_can_be_read::<T>(buffer, (count - 1) as nat, fewer);
    }
}

/// Where `count` values can be read, any lesser count of them can.
pub proof fn lemma_fewer_fixed_items_can_be_read<T: Compressor>(
    buffer: Seq<u8>,
    len: usize,
    count: nat,
    fewer: nat,
)
    requires
        fewer <= count,
        read_items_fixed::<T>(buffer, len, count) is Some,
    ensures
        read_items_fixed::<T>(buffer, len, fewer) is Some,
    decreases count,
{
    if fewer < count {
        lemma_fewer_fixed_items_can_be_read::<T>(buffer, len, (count - 1) as nat, fewer);
    }
}

impl<T: Compressor> Compressor for Vec<T> {
    type Plain = Seq<T::Plain>;

    open spec fn plain(&self) -> Seq<T::Plain> {
        plain_items(self@)
    }

    /// The count of the values is written as a length, and then the values
    /// one after the other, each behind the number it reports.
    open spec fn compressed(plain: Seq<T::Plain>) -> Seq<u8> {
        compressed_usize(plain.len()) + compressed_items::<T>(plain)
    }

    /// Always 0: a vector has nothing to keep beside it.
    open spec fn reported(plain: Seq<T::Plain>) -> usize {
        0
    }

    /// A count is read, and then as many values as it says. What is handed
    /// in as `len` does not matter.
    open spec fn decompressed(buffer: Seq<u8>, len: usize) -> Option<(Seq<T::Plain>, Seq<u8>)> {
        if holds_usize(buffer) {
            read_items::<T>(decompressed_usize(buffer).1, decompressed_usize(buffer).0 as nat)
        } else {
            None
        }
    }

    /// The count of the values is written as a length, and then the values
    /// one after the other, with nothing between them.
    open spec fn compressed_fixed(plain: Seq<T::Plain>) -> Seq<u8> {
        compressed_usize(plain.len()) + compressed_items_fixed::<T>(plain)
    }

    /// A count is read, and then as many values as it says, each with `len`
    /// handed in.
    open spec fn decompressed_fixed(buffer: Seq<u8>, len: usize) -> Option<
        (Seq<T::Plain>, Seq<u8>),
    > {
        if holds_usize(buffer) {
            read_items_fixed::<T>(
                decompressed_usize(buffer).1,
                len,
                decompressed_usize(buffer).0 as nat,
            )
        } else {
            None
        }
    }

    fn compress(self, buffer: &mut Vec<u8>) -> (len: usize) {
        let ghost items = plain_items(self@);
        compressUsize(self.len(), buffer);
        let ghost begun = buffer@;

        let mut temp: Vec<u8> = Vec::with_capacity(64);
        for element in it: self.into_iter()
            invariant
                plain_items(it.seq()) == items,
                buffer@ == begun + compressed_items::<T>(items.subrange(0, it.index() as int)),
        {
            temp.clear();
            let ghost written = T::compressed(element.plain());
            let ghost before = buffer@;
            let ghost done = items.subrange(0, it.index() as int);

            let bufferSizeOccupiedByElement = element.compress(&mut temp);
            assert(temp@ =~= written);
            compressUsize(bufferSizeOccupiedByElement, buffer);

            putSlice(buffer, temp.as_slice());
            proof {
                let more = items.subrange(0, it.index() + 1);
                assert(more.drop_last() =~= done);
                assert(more.last() == element.plain());
                assert(buffer@ =~= before + (compressed_usize(bufferSizeOccupiedByElement as nat)
                    + written));
            }
        }
        assert(items.subrange(0, items.len() as int) =~= items);
        0
    }

    fn decompress(buffer: &[u8], len: usize) -> (read: (Self, &[u8])) {
        let (vecLen, mut buffer) = decompressUsize(buffer);
        let ghost behind_count = buffer@;

        let mut vec: Vec<T> = Vec::new();
        let mut i: usize = 0;
        while i < vecLen
            invariant
                i <= vecLen,
                read_items::<T>(behind_count, vecLen as nat) is Some,
                read_items::<T>(behind_count, i as nat) == Some((plain_items(vec@), buffer@)),
            decreases vecLen - i,
        {
            proof {
                lemma_fewer_items_can_be_read::<T>(behind_count, vecLen as nat, (i + 1) as nat);
            }
            let ghost before = vec@;
            let (bufferSizeOccupiedByElement, rest) = decompressUsize(buffer);
            let (element, _) = T::decompress(rest, bufferSizeOccupiedByElement);
            buffer = advance(rest, bufferSizeOccupiedByElement);

            vec.push(element);
            assert(plain_items(vec@) =~= plain_items(before).push(element.plain()));
            i += 1;
        }
        (vec, buffer)
    }

    fn compressFixedSizeBytes(self, buffer: &mut Vec<u8>) -> (len: usize) {
        let ghost items = plain_items(self@);
        compressUsize(self.len(), buffer);
        let ghost begun = buffer@;

        for element in it: self.into_iter()
            invariant
                plain_items(it.seq()) == items,
                buffer@ == begun + compressed_items_fixed::<T>(
                    items.subrange(0, it.index() as int),
                ),
        {
            let ghost written = T::compressed(element.plain());
            let ghost before = buffer@;
            let ghost done = items.subrange(0, it.index() as int);
            element.compress(buffer);
            proof {
                let more = items.subrange(0, it.index() + 1);
                assert(more.drop_last() =~= done);
                assert(more.last() == element.plain());
                assert(buffer@ =~= before + written);
            }
        }
        assert(items.subrange(0, items.len() as int) =~= items);
        0
    }

    fn decompressFixedSizeBytes(buffer: &[u8], len: usize) -> (read: (Self, &[u8])) {
        let (vecLen, mut buffer) = decompressUsize(buffer);
        let ghost behind_count = buffer@;

        let mut vec: Vec<T> = Vec::new();
        let mut i: usize = 0;
        while i < vecLen
            invariant
                i <= vecLen,
                read_items_fixed::<T>(behind_count, len, vecLen as nat) is Some,
                read_items_fixed::<T>(behind_count, len, i as nat) == Some(
                    (plain_items(vec@), buffer@),
                ),
            decreases vecLen - i,
        {
            proof {
                lemma_fewer_fixed_items_can_be_read::<T>(
                    behind_count,
                    len,
                    vecLen as nat,
                    (i + 1) as nat,
                );
            }
            let ghost before = vec@;
            let (element, rest) = T::decompress(buffer, len);
            buffer = rest;

            vec.push(element);
            assert(plain_items(vec@) =~= plain_items(before).push(element.plain()));
            i += 1;
        }
        (vec, buffer)
    }
}

/// Whether a value is read back as it was from what it was written as,
/// whatever stands behind it, and reports the count of its bytes.
pub open spec fn reads_back<T: Compressor>(element: T::Plain) -> bool {
    &&& T::reported(element) == T::compressed(element).len()
    &&& forall|rest: Seq<u8>|
        (#[trigger] T::decompressed(T::compressed(element) + rest, T::reported(element)))
            matches Some(read) && read.0 == element
}

/// An option that was written is read back as it was when the number that
/// writing handed out is handed in, and what stood behind it is left over;
/// as long as what it holds is read back as it was.
pub proof fn lemma_option_is_read_back<T: Compressor>(value: Option<T::Plain>, rest: Seq<u8>)
    requires
        value matches Some(element) ==> reads_back::<T>(element),
    ensures
        <Option<T> as Compressor>::decompressed(
            <Option<T> as Compressor>::compressed(value) + rest,
            <Option<T> as Compressor>::reported(value),
        ) == Some((value, rest)),
{
    match value {
        None => {
            assert(Seq::<u8>::empty() + rest =~= rest);
        },
        Some(element) => {
            let written = T::compressed(element);
            let size = T::reported(element);
            lemma_usize_is_read_back(size, written + rest);
            assert((compressed_usize(size as nat) + written) + rest =~= compressed_usize(
                size as nat,
            ) + (written + rest));
            assert((written + rest).subrange(0, size as int) =~= written);
            assert((written + rest).subrange(size as int, (written + rest).len() as int)
                =~= rest);
            assert(written + Seq::<u8>::empty() =~= written);
            assert(T::decompressed(written + Seq::<u8>::empty(), size) matches Some(read)
                && read.0 == element);
        },
    }
}

/// The values that were written one after the other are read back as they
/// were, and what stood behind them is left over; as long as each of them is
/// read back as it was.
pub proof fn lemma_items_are_read_back<T: Compressor>(items: Seq<T::Plain>, rest: Seq<u8>)
    requires
        forall|i: int| 0 <= i < items.len() ==> reads_back::<T>(#[trigger] items[i]),
    ensures
        read_items::<T>(compressed_items::<T>(items) + rest, items.len()) == Some((items, rest)),
    decreases items.len(),
{
    if items.len() > 0 {
        let front = items.drop_last();
        let element = items.last();
        let written = T::compressed(element);
        let size = T::reported(element);
        let tail = (compressed_usize(size as nat) + written) + rest;
        assert(reads_back::<T>(items[items.len() - 1]));
        assert forall|i: int| 0 <= i < front.len() implies reads_back::<T>(#[trigger] front[i]) by {
            assert(front[i] == items[i]);
        }
        lemma_items_are_read_back::<T>(front, tail);
        assert(compressed_items::<T>(items) + rest =~= compressed_items::<T>(front) + tail);
        lemma_usize_is_read_back(size, written + rest);
        assert(tail =~= compressed_usize(size as nat) + (written + rest));
        assert((written + rest).subrange(size as int, (written + rest).len() as int) =~= rest);
        assert(T::decompressed(written + rest, size) matches Some(read) && read.0 == element);
        assert(front.push(element) =~= items);
    }
}

/// A vector that was written is read back as it was, whatever number is
/// handed in, and what stood behind it is left over; as long as each of its
/// values is read back as it was.
pub proof fn lemma_vec_is_read_back<T: Compressor>(items: Seq<T::Plain>, rest: Seq<u8>, len: usize)
    requires
        items.len() <= usize::MAX,
        forall|i: int| 0 <= i < items.len() ==> reads_back::<T>(#[trigger] items[i]),
    ensures
        <Vec<T> as Compressor>::decompressed(<Vec<T> as Compressor>::compressed(items) + rest, len)
            == Some((items, rest)),
{
    let behind_count = compressed_items::<T>(items) + rest;
    lemma_usize_is_read_back(items.len() as usize, behind_count);
    assert((compressed_usize(items.len()) + compressed_items::<T>(items)) + rest
        =~= compressed_usize(items.len()) + behind_count);
    lemma_items_are_read_back::<T>(items, rest);
}

/// Every `u64` is read back as it was, whatever stands behind it.
pub proof fn lemma_u64_reads_back(value: u64)
    ensures
        reads_back::<u64>(value),
{
    lemma_pow256_values();
    lemma_be_bytes_len(value as nat, 8);
    assert forall|rest: Seq<u8>|
        (#[trigger] <u64 as Compressor>::decompressed(
            <u64 as Compressor>::compressed(value) + rest,
            <u64 as Compressor>::reported(value),
        )) matches Some(read) && read.0 == value by {
        lemma_u64_is_read_back(value, rest);
    }
}

} // verus!
