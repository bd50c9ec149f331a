#![allow(non_snake_case)]

use staged_sync::primitives::{Address, Bloom, Bytes, B256, B512, U256};
use staged_sync::storage::compression::compressor::Compressor;
use staged_sync::storage::compression::uint::{compressUint, decompressUint};

fn compressed<T: Compressor>(value: T) -> (Vec<u8>, usize) {
    let mut buffer = Vec::new();
    let len = value.compress(&mut buffer);
    (buffer, len)
}

#[test]
fn numbers_are_written_without_leading_zero_bytes() {
    assert_eq!(compressed(0u64), (vec![], 0));
    assert_eq!(compressed(1u64), (vec![1], 1));
    assert_eq!(compressed(0x0102u64), (vec![1, 2], 2));
    assert_eq!(compressed(0x0100u64), (vec![1, 0], 2));
    assert_eq!(compressed(u64::MAX), (vec![0xFF; 8], 8));
    assert_eq!(compressed(0x7Fu8), (vec![0x7F], 1));
    assert_eq!(compressed(0u8), (vec![], 0));
    assert_eq!(compressed(1u128 << 64), (vec![1, 0, 0, 0, 0, 0, 0, 0, 0], 9));
    assert_eq!(compressed(u128::MAX), (vec![0xFF; 16], 16));
}

#[test]
fn numbers_are_appended_to_what_is_there() {
    let mut buffer = vec![9u8];
    assert_eq!(compressUint(0xABCD, &mut buffer), 2);
    assert_eq!(buffer, vec![9, 0xAB, 0xCD]);
}

#[test]
fn numbers_are_read_from_as_many_bytes_as_told() {
    let bytes = [0x01, 0x02, 0x03];
    assert_eq!(u64::decompress(&bytes, 0), (0, &bytes[..]));
    assert_eq!(u64::decompress(&bytes, 1), (1, &bytes[1..]));
    assert_eq!(u64::decompress(&bytes, 2), (0x0102, &bytes[2..]));
    assert_eq!(u64::decompress(&bytes, 3), (0x010203, &bytes[3..]));
    assert_eq!(u8::decompress(&bytes, 1), (1, &bytes[1..]));
    assert_eq!(u128::decompress(&bytes, 3), (0x010203, &bytes[3..]));
    assert_eq!(decompressUint(&[0xFF; 16], 16), (u128::MAX, &[][..]));
    // Leading zero bytes do not change the number.
    assert_eq!(u64::decompress(&[0, 0, 5, 9], 3), (5, &[9u8][..]));
}

#[test]
fn numbers_are_read_back() {
    for value in [0u64, 1, 255, 256, 65535, 1 << 40, u64::MAX] {
        let (mut buffer, len) = compressed(value);
        buffer.extend_from_slice(&[0xEE, 0xDD]);
        assert_eq!(u64::decompress(&buffer, len), (value, &[0xEE, 0xDD][..]));
        assert_eq!(u64::decompressFixedSizeBytes(&buffer, len), (value, &[0xEE, 0xDD][..]));
    }
    for value in [0u128, 1 << 100, u128::MAX] {
        let (buffer, len) = compressed(value);
        assert_eq!(u128::decompress(&buffer, len), (value, &[][..]));
    }
    let mut buffer = Vec::new();
    assert_eq!(77u64.compressFixedSizeBytes(&mut buffer), 1);
    assert_eq!(buffer, vec![77]);
}

#[test]
fn a_bool_goes_to_the_flags_and_not_to_the_buffer() {
    assert_eq!(compressed(true), (vec![], 1));
    assert_eq!(compressed(false), (vec![], 0));
    let bytes = [3u8, 4];
    assert_eq!(bool::decompress(&bytes, 1), (true, &bytes[..]));
    assert_eq!(bool::decompress(&bytes, 0), (false, &bytes[..]));
    assert_eq!(bool::decompress(&bytes, 2), (true, &bytes[..]));
    assert_eq!(bool::decompressFixedSizeBytes(&[], 0), (false, &[][..]));
    let mut buffer = vec![1u8];
    assert_eq!(true.compressFixedSizeBytes(&mut buffer), 1);
    assert_eq!(buffer, vec![1]);
}

#[test]
fn fixed_size_bytes_are_written_as_they_are() {
    assert_eq!(compressed([1u8, 2, 3]), (vec![1, 2, 3], 3));
    assert_eq!(compressed([0u8; 4]), (vec![0; 4], 4));
    let bytes = [7u8, 8, 9, 10];
    assert_eq!(<[u8; 3]>::decompress(&bytes, 3), ([7, 8, 9], &bytes[3..]));
    // Whatever is handed in but zero, the whole array is read.
    assert_eq!(<[u8; 3]>::decompress(&bytes, 1), ([7, 8, 9], &bytes[3..]));
    assert_eq!(<[u8; 3]>::decompress(&bytes, 0), ([0, 0, 0], &bytes[..]));
    assert_eq!(<[u8; 0]>::decompress(&bytes, 5), ([], &bytes[..]));
}

#[test]
fn addresses_and_hashes_are_fixed_size_bytes() {
    let mut raw = [0u8; 20];
    raw[0] = 0xAA;
    raw[19] = 0xBB;
    let (buffer, len) = compressed(Address(raw));
    assert_eq!((buffer.as_slice(), len), (&raw[..], 20));
    assert_eq!(Address::decompress(&buffer, 20), (Address(raw), &[][..]));
    assert_eq!(Address::decompress(&buffer, 0), (Address([0; 20]), &buffer[..]));

    let mut hash = [0u8; 32];
    hash[31] = 1;
    let (mut buffer, len) = compressed(B256(hash));
    assert_eq!(len, 32);
    buffer.push(0x11);
    assert_eq!(B256::decompress(&buffer, len), (B256(hash), &[0x11u8][..]));
    assert_eq!(B256::decompressFixedSizeBytes(&buffer, len), (B256(hash), &[0x11u8][..]));

    let (buffer, len) = compressed(B512([5; 64]));
    assert_eq!((buffer.len(), len), (64, 64));
    assert_eq!(B512::decompress(&buffer, len), (B512([5; 64]), &[][..]));

    let (buffer, len) = compressed(Bloom([6; 256]));
    assert_eq!((buffer.len(), len), (256, 256));
    assert_eq!(Bloom::decompress(&buffer, len), (Bloom([6; 256]), &[][..]));
    let mut buffer = Vec::new();
    assert_eq!(Bloom([6; 256]).compressFixedSizeBytes(&mut buffer), 256);
    assert_eq!(buffer, vec![6; 256]);
}

#[test]
fn a_number_of_256_bits_is_written_without_leading_zero_bytes() {
    let mut raw = [0u8; 32];
    assert_eq!(compressed(U256(raw)), (vec![], 0));
    raw[31] = 5;
    assert_eq!(compressed(U256(raw)), (vec![5], 1));
    raw[29] = 1;
    assert_eq!(compressed(U256(raw)), (vec![1, 0, 5], 3));
    assert_eq!(compressed(U256([0xFF; 32])), (vec![0xFF; 32], 32));

    assert_eq!(U256::decompress(&[1, 0, 5, 9], 3), (U256(raw), &[9u8][..]));
    assert_eq!(U256::decompress(&[1, 0, 5, 9], 0), (U256([0; 32]), &[1u8, 0, 5, 9][..]));
    assert_eq!(U256::decompress(&[0xFF; 32], 32), (U256([0xFF; 32]), &[][..]));
    assert_eq!(U256::zero(), U256([0; 32]));
}

#[test]
fn bytes_are_written_as_they_are() {
    assert_eq!(compressed(Bytes(vec![1, 2, 3])), (vec![1, 2, 3], 3));
    assert_eq!(compressed(Bytes(vec![])), (vec![], 0));
    assert_eq!(compressed(Bytes::empty()), (vec![], 0));
    let bytes = [4u8, 5, 6];
    assert_eq!(Bytes::decompress(&bytes, 2), (Bytes(vec![4, 5]), &bytes[2..]));
    assert_eq!(Bytes::decompress(&bytes, 0), (Bytes(vec![]), &bytes[..]));
    assert_eq!(Bytes::decompressFixedSizeBytes(&bytes, 3), (Bytes(vec![4, 5, 6]), &[][..]));
    let mut buffer = vec![0u8];
    assert_eq!(Bytes(vec![9]).compressFixedSizeBytes(&mut buffer), 1);
    assert_eq!(buffer, vec![0, 9]);
}
