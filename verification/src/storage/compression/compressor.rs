use vstd::prelude::*;

verus! {

/// A value that can be written to a buffer in compact form and read back.
///
/// Writing hands out a number, which for most types is the count of the
/// bytes written and for some is a flag; whoever stores the value keeps that
/// number beside it and hands it in again when the value is read.
///
/// A value can be written in two forms. They are the same for most types; a
/// collection of values that all take the same count of bytes has a shorter
/// second form, which leaves the counts out.
pub trait Compressor: Sized {
    /// What a value is, as far as its compact form goes.
    type Plain;

    spec fn plain(&self) -> Self::Plain;

    /// The bytes that a value is written as.
    spec fn compressed(plain: Self::Plain) -> Seq<u8>;

    /// The number that is handed out when a value is written.
    spec fn reported(plain: Self::Plain) -> usize;

    /// The value that is read from these bytes when `len` is handed in, and
    /// the bytes that are left behind it; or nothing, where no value can be
    /// read from them.
    spec fn decompressed(buffer: Seq<u8>, len: usize) -> Option<(Self::Plain, Seq<u8>)>;

    /// The bytes that a value is written as in the form for fixed-size
    /// bytes.
    spec fn compressed_fixed(plain: Self::Plain) -> Seq<u8>;

    /// The value that is read from these bytes in the form for fixed-size
    /// bytes when `len` is handed in, and the bytes that are left behind it;
    /// or nothing, where no value can be read from them.
    spec fn decompressed_fixed(buffer: Seq<u8>, len: usize) -> Option<(Self::Plain, Seq<u8>)>;

    /// Takes a buffer which can be written to. Returns the number to keep
    /// beside what was written.
    fn compress(self, buffer: &mut Vec<u8>) -> (len: usize)
        ensures
            final(buffer)@ == old(buffer)@ + Self::compressed(self.plain()),
            len == Self::reported(self.plain()),
    ;

    /// Takes a buffer which can be read from. Returns the object and what is
    /// left of the buffer behind it.
    fn decompress(
        buffer: &[u8],
        // Can either be the buffer remaining length, or the length of the compacted type.
        len: usize,
    ) -> (read: (Self, &[u8]))
        requires
            Self::decompressed(buffer@, len) is Some,
        ensures
            Self::decompressed(buffer@, len) == Some((read.0.plain(), read.1@)),
    ;

    /// Use when dealing with fixed-size bytes.
    fn compressFixedSizeBytes(self, buffer: &mut Vec<u8>) -> (len: usize)
        ensures
            final(buffer)@ == old(buffer)@ + Self::compressed_fixed(self.plain()),
            len == Self::reported(self.plain()),
    ;

    /// Use when dealing with fixed-size bytes.
    fn decompressFixedSizeBytes(buffer: &[u8], len: usize) -> (read: (Self, &[u8]))
        requires
            Self::decompressed_fixed(buffer@, len) is Some,
        ensures
            Self::decompressed_fixed(buffer@, len) == Some((read.0.plain(), read.1@)),
    ;
}

impl Compressor for bool {
    type Plain = bool;

    open spec fn plain(&self) -> bool {
        *self
    }

    /// bool vars go directly to the flags and are not written to the buffer.
    open spec fn compressed(plain: bool) -> Seq<u8> {
        Seq::empty()
    }

    open spec fn reported(plain: bool) -> usize {
        if plain {
            1
        } else {
            0
        }
    }

    /// bool expects the real value to come in `len`, and leaves the buffer
    /// as it is.
    open spec fn decompressed(buffer: Seq<u8>, len: usize) -> Option<(bool, Seq<u8>)> {
        Some((len != 0, buffer))
    }

    open spec fn compressed_fixed(plain: bool) -> Seq<u8> {
        Self::compressed(plain)
    }

    open spec fn decompressed_fixed(buffer: Seq<u8>, len: usize) -> Option<(bool, Seq<u8>)> {
        Self::decompressed(buffer, len)
    }

    fn compress(self, buffer: &mut Vec<u8>) -> (len: usize) {
        if self {
            1
        } else {
            0
        }
    }

    fn decompress(buffer: &[u8], len: usize) -> (read: (Self, &[u8])) {
        (len != 0, buffer)
    }

    fn compressFixedSizeBytes(self, buffer: &mut Vec<u8>) -> (len: usize) {
        self.compress(buffer)
    }

    fn decompressFixedSizeBytes(buffer: &[u8], len: usize) -> (read: (Self, &[u8])) {
        Self::decompress(buffer, len)
    }
}

} // verus!
