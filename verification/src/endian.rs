//! Byte-order helpers: big-endian and little-endian views of the fixed-width
//! integers that appear on the wire, and executable functions that append
//! those bytes to a buffer.

use vstd::prelude::*;

verus! {

/// The two big-endian bytes of a 16-bit value, most significant first.
pub open spec fn u16_be(x: u16) -> Seq<u8> {
    seq![(x / 0x100) as u8, (x % 0x100) as u8]
}

/// The two little-endian bytes of a 16-bit value, least significant first.
pub open spec fn u16_le(x: u16) -> Seq<u8> {
    seq![(x % 0x100) as u8, (x / 0x100) as u8]
}

/// The 16-bit value read little-endian from two bytes.
pub open spec fn u16_from_le(b0: u8, b1: u8) -> u16 {
    (b0 + b1 * 0x100) as u16
}

/// The four big-endian bytes of a 32-bit value, most significant first.
pub open spec fn u32_be(x: u32) -> Seq<u8> {
    seq![
        (x / 0x100_0000) as u8,
        ((x / 0x1_0000) % 0x100) as u8,
        ((x / 0x100) % 0x100) as u8,
        (x % 0x100) as u8,
    ]
}

/// The eight big-endian bytes of a 64-bit value, most significant first.
pub open spec fn u64_be(x: u64) -> Seq<u8> {
    seq![
        (x / 0x100_0000_0000_0000) as u8,
        ((x / 0x1_0000_0000_0000) % 0x100) as u8,
        ((x / 0x100_0000_0000) % 0x100) as u8,
        ((x / 0x1_0000_0000) % 0x100) as u8,
        ((x / 0x100_0000) % 0x100) as u8,
        ((x / 0x1_0000) % 0x100) as u8,
        ((x / 0x100) % 0x100) as u8,
        (x % 0x100) as u8,
    ]
}

/// The 32-bit two's-complement image of a signed 32-bit value.
pub open spec fn u32_of_i32(x: i32) -> u32 {
    if x >= 0 {
        x as u32
    } else {
        (x + 0x1_0000_0000) as u32
    }
}

/// The 64-bit two's-complement image of a signed 64-bit value.
pub open spec fn u64_of_i64(x: i64) -> u64 {
    if x >= 0 {
        x as u64
    } else {
        (x + 0x1_0000_0000_0000_0000) as u64
    }
}

/// The four big-endian bytes of a signed 32-bit value (two's complement).
pub open spec fn i32_be(x: i32) -> Seq<u8> {
    u32_be(u32_of_i32(x))
}

/// The eight big-endian bytes of a signed 64-bit value (two's complement).
pub open spec fn i64_be(x: i64) -> Seq<u8> {
    u64_be(u64_of_i64(x))
}

/// Appends the two big-endian bytes of `x` to `out`.
pub fn push_u16_be(out: &mut Vec<u8>, x: u16)
    ensures
        final(out)@ == old(out)@ + u16_be(x),
{
    out.push((x / 0x100) as u8);
    out.push((x % 0x100) as u8);
    assert(out@ =~= old(out)@ + u16_be(x));
}

/// Appends the two little-endian bytes of `x` to `out`.
pub fn push_u16_le(out: &mut Vec<u8>, x: u16)
    ensures
        final(out)@ == old(out)@ + u16_le(x),
{
    out.push((x % 0x100) as u8);
    out.push((x / 0x100) as u8);
    assert(out@ =~= old(out)@ + u16_le(x));
}

/// Appends the four big-endian bytes of `x` to `out`.
pub fn push_u32_be(out: &mut Vec<u8>, x: u32)
    ensures
        final(out)@ == old(out)@ + u32_be(x),
{
    out.push((x / 0x100_0000) as u8);
    out.push(((x / 0x1_0000) % 0x100) as u8);
    out.push(((x / 0x100) % 0x100) as u8);
    out.push((x % 0x100) as u8);
    assert(out@ =~= old(out)@ + u32_be(x));
}

/// Appends the eight big-endian bytes of `x` to `out`.
pub fn push_u64_be(out: &mut Vec<u8>, x: u64)
    ensures
        final(out)@ == old(out)@ + u64_be(x),
{
    out.push((x / 0x100_0000_0000_0000) as u8);
    out.push(((x / 0x1_0000_0000_0000) % 0x100) as u8);
    out.push(((x / 0x100_0000_0000) % 0x100) as u8);
    out.push(((x / 0x1_0000_0000) % 0x100) as u8);
    out.push(((x / 0x100_0000) % 0x100) as u8);
    out.push(((x / 0x1_0000) % 0x100) as u8);
    out.push(((x / 0x100) % 0x100) as u8);
    out.push((x % 0x100) as u8);
    assert(out@ =~= old(out)@ + u64_be(x));
}

/// Converts a signed 32-bit value to its two's-complement 32-bit image.
pub fn i32_image(x: i32) -> (r: u32)
    ensures
        r == u32_of_i32(x),
{
    if x >= 0 {
        x as u32
    } else {
        let low: u32 = (-(x + 1)) as u32;
        u32::MAX - low
    }
}

/// Converts a signed 64-bit value to its two's-complement 64-bit image.
pub fn i64_image(x: i64) -> (r: u64)
    ensures
        r == u64_of_i64(x),
{
    if x >= 0 {
        x as u64
    } else {
        let low: u64 = (-(x + 1)) as u64;
        u64::MAX - low
    }
}

/// Appends the four big-endian bytes of a signed 32-bit value to `out`.
pub fn push_i32_be(out: &mut Vec<u8>, x: i32)
    ensures
        final(out)@ == old(out)@ + i32_be(x),
{
    let v = i32_image(x);
    push_u32_be(out, v);
}

/// Appends the eight big-endian bytes of a signed 64-bit value to `out`.
pub fn push_i64_be(out: &mut Vec<u8>, x: i64)
    ensures
        final(out)@ == old(out)@ + i64_be(x),
{
    let v = i64_image(x);
    push_u64_be(out, v);
}

/// Reads the 16-bit value stored little-endian in two bytes.
pub fn read_u16_le(b0: u8, b1: u8) -> (r: u16)
    ensures
        r == u16_from_le(b0, b1),
{
    b0 as u16 + b1 as u16 * 0x100
}

} // verus!
