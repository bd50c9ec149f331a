#![allow(non_snake_case)]

use staged_sync::primitives::B256;
use staged_sync::storage::compression::compressor::Compressor;

#[test]
fn an_option_is_written_behind_the_length_of_what_it_holds() {
    let mut buffer = Vec::new();
    assert_eq!(Some(0x0102u64).compress(&mut buffer), 1);
    assert_eq!(buffer, vec![2, 1, 2]);

    let mut buffer = vec![7u8];
    assert_eq!(None::<u64>.compress(&mut buffer), 0);
    assert_eq!(buffer, vec![7]);

    let mut buffer = Vec::new();
    assert_eq!(Some(0u64).compress(&mut buffer), 1);
    assert_eq!(buffer, vec![0]);
}

#[test]
fn an_option_is_read_back() {
    let bytes = [2u8, 1, 2, 0xEE];
    assert_eq!(Option::<u64>::decompress(&bytes, 1), (Some(0x0102), &[0xEEu8][..]));
    assert_eq!(Option::<u64>::decompress(&bytes, 0), (None, &bytes[..]));
    for value in [None, Some(0u64), Some(300), Some(u64::MAX)] {
        let mut buffer = Vec::new();
        let flag = value.compress(&mut buffer);
        buffer.push(0x55);
        assert_eq!(Option::<u64>::decompress(&buffer, flag), (value, &[0x55u8][..]));
    }
}

#[test]
fn an_option_of_fixed_size_bytes_is_written_without_a_length() {
    let hash = B256([3; 32]);
    let mut buffer = Vec::new();
    assert_eq!(Some(hash).compressFixedSizeBytes(&mut buffer), 1);
    assert_eq!(buffer, vec![3; 32]);
    buffer.push(9);
    assert_eq!(
        Option::<B256>::decompressFixedSizeBytes(&buffer, 32),
        (Some(hash), &[9u8][..])
    );
    assert_eq!(Option::<B256>::decompressFixedSizeBytes(&buffer, 0), (None, &buffer[..]));
    let mut buffer = vec![1u8];
    assert_eq!(None::<B256>.compressFixedSizeBytes(&mut buffer), 0);
    assert_eq!(buffer, vec![1]);
}

#[test]
fn a_vector_is_written_as_its_count_and_then_each_value_behind_its_length() {
    let mut buffer = Vec::new();
    assert_eq!(vec![1u64, 0x0203, 0].compress(&mut buffer), 0);
    assert_eq!(buffer, vec![3, 1, 1, 2, 2, 3, 0]);

    let mut buffer = vec![0xAAu8];
    assert_eq!(Vec::<u64>::new().compress(&mut buffer), 0);
    assert_eq!(buffer, vec![0xAA, 0]);
}

#[test]
fn a_vector_is_read_back() {
    let bytes = [3u8, 1, 1, 2, 2, 3, 0, 0x77];
    assert_eq!(Vec::<u64>::decompress(&bytes, 0), (vec![1, 0x0203, 0], &[0x77u8][..]));
    // What is handed in as the length does not matter.
    assert_eq!(Vec::<u64>::decompress(&bytes, 99), (vec![1, 0x0203, 0], &[0x77u8][..]));
    assert_eq!(Vec::<u64>::decompress(&[0, 5], 0), (vec![], &[5u8][..]));

    let long: Vec<u64> = (0..200).map(|i| i * 1_000_003).collect();
    let mut buffer = Vec::new();
    long.clone().compress(&mut buffer);
    assert_eq!(Vec::<u64>::decompress(&buffer, 0), (long, &[][..]));
}

#[test]
fn a_vector_of_fixed_size_bytes_is_written_without_lengths() {
    let hashes = vec![B256([1; 32]), B256([2; 32])];
    let mut buffer = Vec::new();
    assert_eq!(hashes.clone().compressFixedSizeBytes(&mut buffer), 0);
    let mut expected = vec![2u8];
    expected.extend_from_slice(&[1; 32]);
    expected.extend_from_slice(&[2; 32]);
    assert_eq!(buffer, expected);
    buffer.push(0x99);
    assert_eq!(
        Vec::<B256>::decompressFixedSizeBytes(&buffer, 32),
        (hashes, &[0x99u8][..])
    );
}

#[test]
fn vectors_nest() {
    let nested = vec![vec![1u8, 2], vec![], vec![3]];
    let mut buffer = Vec::new();
    nested.clone().compressFixedSizeBytes(&mut buffer);
    // The count, and then each inner vector in its own form.
    assert_eq!(buffer, vec![3, 2, 1, 1, 1, 2, 0, 1, 1, 3]);
    assert_eq!(Vec::<Vec<u8>>::decompressFixedSizeBytes(&buffer, 0), (nested, &[][..]));
}
