//! The compact binary encoding of what is stored.

pub mod buffer;
pub mod byte_types;
pub mod collections;
pub mod compressor;
pub mod fields;
pub mod uint;
pub mod varint;
