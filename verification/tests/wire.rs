//! The little-endian primitives on exact values.

use mavrelay::wire::{push_i16_le, push_i32_le, push_u16_le, push_u32_le, read_i16_le, read_i32_le,
    read_u16_le, read_u32_le};

#[test]
fn unsigned_reads() {
    let b = vec![0x34, 0x12, 0x78, 0x56, 0xFF, 0x00];
    assert_eq!(read_u16_le(&b, 0), 0x1234);
    assert_eq!(read_u16_le(&b, 2), 0x5678);
    assert_eq!(read_u16_le(&b, 4), 0x00FF);
    assert_eq!(read_u32_le(&b, 0), 0x56781234);
    assert_eq!(read_u32_le(&b, 2), 0x00FF5678);
}

#[test]
fn signed_reads() {
    let b = vec![0xFF, 0xFF, 0xFF, 0xFF, 0x00, 0x80, 0x00, 0x00];
    assert_eq!(read_i32_le(&b, 0), -1);
    assert_eq!(read_i16_le(&b, 0), -1);
    assert_eq!(read_i16_le(&b, 4), -32768);
    assert_eq!(read_i32_le(&b, 4), 0x8000);
}

#[test]
fn writes_match_reads() {
    let mut out: Vec<u8> = Vec::new();
    push_u16_le(&mut out, 0xBEEF);
    push_u32_le(&mut out, 0x01020304);
    push_i16_le(&mut out, -2);
    push_i32_le(&mut out, -123456789);
    assert_eq!(out.len(), 12);
    assert_eq!(&out[0..2], &[0xEF, 0xBE]);
    assert_eq!(&out[2..6], &[0x04, 0x03, 0x02, 0x01]);
    assert_eq!(&out[6..8], &[0xFE, 0xFF]);
    assert_eq!(read_u16_le(&out, 0), 0xBEEF);
    assert_eq!(read_u32_le(&out, 2), 0x01020304);
    assert_eq!(read_i16_le(&out, 6), -2);
    assert_eq!(read_i32_le(&out, 8), -123456789);
}
