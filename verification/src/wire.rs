//! Little-endian views of machine integers as byte sequences, with verified
//! readers and writers. These are the primitives both for parsing message
//! payloads and for laying out broadcast records.

use vstd::prelude::*;

verus! {

/// The unsigned 16-bit value stored little-endian at offset `i` of `b`.
pub open spec fn le16_at(b: Seq<u8>, i: int) -> u16 {
    (b[i] + b[i + 1] * 0x100) as u16
}

/// The unsigned 32-bit value stored little-endian at offset `i` of `b`.
pub open spec fn le32_at(b: Seq<u8>, i: int) -> u32 {
    (b[i] + b[i + 1] * 0x100 + b[i + 2] * 0x1_0000 + b[i + 3] * 0x100_0000) as u32
}

/// Reinterpret a 32-bit pattern as a two's-complement signed value.
pub open spec fn as_i32(v: u32) -> i32 {
    if v < 0x8000_0000 {
        v as i32
    } else {
        (v - 0x1_0000_0000) as i32
    }
}

/// Reinterpret a 16-bit pattern as a two's-complement signed value.
pub open spec fn as_i16(v: u16) -> i16 {
    if v < 0x8000 {
        v as i16
    } else {
        (v - 0x1_0000) as i16
    }
}

/// The 32-bit pattern of a two's-complement signed value.
pub open spec fn u32_of_i32(v: i32) -> u32 {
    if v >= 0 {
        v as u32
    } else {
        (v + 0x1_0000_0000) as u32
    }
}

/// The 16-bit pattern of a two's-complement signed value.
pub open spec fn u16_of_i16(v: i16) -> u16 {
    if v >= 0 {
        v as u16
    } else {
        (v + 0x1_0000) as u16
    }
}

/// The two bytes of `v`, least significant first.
pub open spec fn u16_le_bytes(v: u16) -> Seq<u8> {
    seq![(v % 0x100) as u8, (v / 0x100) as u8]
}

/// The four bytes of `v`, least significant first.
pub open spec fn u32_le_bytes(v: u32) -> Seq<u8> {
    seq![
        (v % 0x100) as u8,
        ((v / 0x100) % 0x100) as u8,
        ((v / 0x1_0000) % 0x100) as u8,
        (v / 0x100_0000) as u8,
    ]
}

/// The four bytes of signed `v`, least significant first.
pub open spec fn i32_le_bytes(v: i32) -> Seq<u8> {
    u32_le_bytes(u32_of_i32(v))
}

/// The two bytes of signed `v`, least significant first.
pub open spec fn i16_le_bytes(v: i16) -> Seq<u8> {
    u16_le_bytes(u16_of_i16(v))
}

pub fn read_u16_le(b: &Vec<u8>, off: usize) -> (v: u16)
    requires
        off + 2 <= b.len(),
    ensures
        v == le16_at(b@, off as int),
{
    (b[off] as u16) + (b[off + 1] as u16) * 0x100
}

pub fn read_u32_le(b: &Vec<u8>, off: usize) -> (v: u32)
    requires
        off + 4 <= b.len(),
    ensures
        v == le32_at(b@, off as int),
{
    (b[off] as u32) + (b[off + 1] as u32) * 0x100 + (b[off + 2] as u32) * 0x1_0000 + (b[off + 3]
        as u32) * 0x100_0000
}

pub fn read_i32_le(b: &Vec<u8>, off: usize) -> (v: i32)
    requires
        off + 4 <= b.len(),
    ensures
        v == as_i32(le32_at(b@, off as int)),
{
    let u = read_u32_le(b, off);
    if u < 0x8000_0000 {
        u as i32
    } else {
        ((u as i64) - 0x1_0000_0000i64) as i32
    }
}

pub fn read_i16_le(b: &Vec<u8>, off: usize) -> (v: i16)
    requires
        off + 2 <= b.len(),
    ensures
        v == as_i16(le16_at(b@, off as int)),
{
    let u = read_u16_le(b, off);
    if u < 0x8000 {
        u as i16
    } else {
        ((u as i32) - 0x1_0000i32) as i16
    }
}

pub fn push_u16_le(out: &mut Vec<u8>, v: u16)
    ensures
        final(out)@ == old(out)@ + u16_le_bytes(v),
{
    out.push((v % 0x100) as u8);
    out.push((v / 0x100) as u8);
    proof {
        assert(out@ =~= old(out)@ + u16_le_bytes(v));
    }
}

pub fn push_u32_le(out: &mut Vec<u8>, v: u32)
    ensures
        final(out)@ == old(out)@ + u32_le_bytes(v),
{
    out.push((v % 0x100) as u8);
    out.push(((v / 0x100) % 0x100) as u8);
    out.push(((v / 0x1_0000) % 0x100) as u8);
    out.push((v / 0x100_0000) as u8);
    proof {
        assert(out@ =~= old(out)@ + u32_le_bytes(v));
    }
}

pub fn push_i32_le(out: &mut Vec<u8>, v: i32)
    ensures
        final(out)@ == old(out)@ + i32_le_bytes(v),
{
    let u: u32 = if v >= 0 {
        v as u32
    } else {
        ((v as i64) + 0x1_0000_0000i64) as u32
    };
    push_u32_le(out, u);
}

pub fn push_i16_le(out: &mut Vec<u8>, v: i16)
    ensures
        final(out)@ == old(out)@ + i16_le_bytes(v),
{
    let u: u16 = if v >= 0 {
        v as u16
    } else {
        ((v as i32) + 0x1_0000i32) as u16
    };
    push_u16_le(out, u);
}

} // verus!
