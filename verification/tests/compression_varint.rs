#![allow(non_snake_case)]

use staged_sync::storage::compression::varint::{
    compressUsize, decompressUsize, tryDecompressUsize,
};

#[test]
fn three_hundred_takes_two_bytes() {
    let mut buffer: Vec<u8> = Vec::new();
    compressUsize(300, &mut buffer);
    assert_eq!(buffer, vec![0b1010_1100, 0b0000_0010]);
}

#[test]
fn small_lengths_take_one_byte() {
    for n in [0usize, 1, 0x7F] {
        let mut buffer: Vec<u8> = Vec::new();
        compressUsize(n, &mut buffer);
        assert_eq!(buffer, vec![n as u8]);
    }
    let mut buffer: Vec<u8> = Vec::new();
    compressUsize(0x80, &mut buffer);
    assert_eq!(buffer, vec![0x80, 0x01]);
}

#[test]
fn compressing_appends_to_what_is_there() {
    let mut buffer: Vec<u8> = vec![7, 7];
    compressUsize(5, &mut buffer);
    assert_eq!(buffer, vec![7, 7, 5]);
}

#[test]
fn a_length_is_read_back_with_what_follows_it() {
    let bytes = [0xAC, 0x02, 0xFF, 0x01];
    let (value, rest) = decompressUsize(&bytes);
    assert_eq!(value, 300);
    assert_eq!(rest, &[0xFF, 0x01]);
}

#[test]
fn every_written_length_is_read_back() {
    for n in [0usize, 1, 127, 128, 255, 16383, 16384, 1 << 31, usize::MAX - 1, usize::MAX] {
        let mut buffer: Vec<u8> = Vec::new();
        compressUsize(n, &mut buffer);
        buffer.push(0x55);
        let (value, rest) = tryDecompressUsize(&buffer).unwrap();
        assert_eq!(value, n);
        assert_eq!(rest, &[0x55]);
    }
}

#[test]
fn nothing_is_read_where_no_byte_ends_the_length() {
    assert!(tryDecompressUsize(&[]).is_none());
    assert!(tryDecompressUsize(&[0x80]).is_none());
    assert!(tryDecompressUsize(&[0xFF, 0xFF, 0x80]).is_none());
}

#[test]
fn nothing_is_read_where_the_length_goes_on_too_far() {
    // Ten bytes are the most that a length of 64 bits can take.
    let bytes = [0x80u8; 12];
    assert!(tryDecompressUsize(&bytes).is_none());
    let mut long = vec![0x80u8; 10];
    long.push(0x01);
    if usize::BITS == 64 {
        assert!(tryDecompressUsize(&long).is_none());
    }
}

#[test]
fn bits_that_do_not_fit_are_lost() {
    if usize::BITS == 64 {
        // The tenth byte has room for one bit only.
        let mut bytes = vec![0x80u8; 9];
        bytes.push(0x03);
        let (value, rest) = tryDecompressUsize(&bytes).unwrap();
        assert_eq!(value, 1usize << 63);
        assert!(rest.is_empty());
    }
}
