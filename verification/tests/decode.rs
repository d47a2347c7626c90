//! Fixed-width decoding under each byte-order selector, and byte repetition.

use tokenkit::bytes_utils;
use tokenkit::error::Error;

#[test]
fn u32_little_endian() {
    let buf = [0x01u8, 0x00, 0x00, 0x00];
    assert_eq!(bytes_utils::to_u32(&buf, "little"), Ok(1));
    let buf = [0x78u8, 0x56, 0x34, 0x12];
    assert_eq!(bytes_utils::to_u32(&buf, "little"), Ok(0x12345678));
}

#[test]
fn u32_big_endian() {
    let buf = [0x01u8, 0x00, 0x00, 0x00];
    assert_eq!(bytes_utils::to_u32(&buf, "big"), Ok(16777216));
    let buf = [0x12u8, 0x34, 0x56, 0x78];
    assert_eq!(bytes_utils::to_u32(&buf, "big"), Ok(0x12345678));
}

#[test]
fn u32_native_is_one_of_the_two() {
    let buf = [0x01u8, 0x00, 0x00, 0x00];
    let x = bytes_utils::to_u32(&buf, "native").unwrap();
    assert!(x == 1 || x == 16777216);
}

#[test]
fn u32_unknown_selector() {
    let buf = [0x01u8, 0x00, 0x00, 0x00];
    assert_eq!(bytes_utils::to_u32(&buf, "bogus"), Err(Error::UnknownByteOrder));
    assert_eq!(bytes_utils::to_u32(&buf, "Little"), Err(Error::UnknownByteOrder));
    assert_eq!(bytes_utils::to_u32(&buf, ""), Err(Error::UnknownByteOrder));
}

#[test]
fn u64_both_orders() {
    let buf = [0x01u8, 0, 0, 0, 0, 0, 0, 0];
    assert_eq!(bytes_utils::to_u64(&buf, "little"), Ok(1));
    assert_eq!(bytes_utils::to_u64(&buf, "big"), Ok(1u64 << 56));
    let x = bytes_utils::to_u64(&buf, "native").unwrap();
    assert!(x == 1 || x == 1u64 << 56);
    assert_eq!(bytes_utils::to_u64(&buf, "middle"), Err(Error::UnknownByteOrder));
}

#[test]
fn u128_both_orders() {
    let buf = [0x01u8, 0, 0, 0, 0, 0, 0, 0, 0, 0, 0, 0, 0, 0, 0, 0];
    assert_eq!(bytes_utils::to_u128(&buf, "little"), Ok(1));
    assert_eq!(bytes_utils::to_u128(&buf, "big"), Ok(1u128 << 120));
    let x = bytes_utils::to_u128(&buf, "native").unwrap();
    assert!(x == 1 || x == 1u128 << 120);
    assert_eq!(bytes_utils::to_u128(&buf, "huge"), Err(Error::UnknownByteOrder));
}

#[test]
fn bytes_mul_repeats() {
    assert_eq!(bytes_utils::bytes_mul(&[1, 2], 3), vec![1, 2, 1, 2, 1, 2]);
    assert_eq!(bytes_utils::bytes_mul(&[1, 2], 0), Vec::<u8>::new());
    assert_eq!(bytes_utils::bytes_mul(&[1, 2], -4), Vec::<u8>::new());
    assert_eq!(bytes_utils::bytes_mul(&[], 5), Vec::<u8>::new());
}
