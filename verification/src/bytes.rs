//! Integers in bytes.

use vstd::prelude::*;

verus! {

/// The 16-bit integer at an offset, in little-endian order.
pub open spec fn le_u16(b: Seq<u8>, at: int) -> u16 {
    (b[at] + b[at + 1] * 0x100) as u16
}

/// The 32-bit integer at an offset, in little-endian order.
pub open spec fn le_u32(b: Seq<u8>, at: int) -> u32 {
    (le_u16(b, at) + le_u16(b, at + 2) * 0x1_0000) as u32
}

/// The 64-bit integer at an offset, in little-endian order.
pub open spec fn le_u64(b: Seq<u8>, at: int) -> u64 {
    (le_u32(b, at) + le_u32(b, at + 4) * 0x1_0000_0000) as u64
}

/// Reads a 16-bit integer.
pub fn read_le_u16(buf: &[u8], offset: usize) -> (r: u16)
    requires
        offset + 2 <= buf@.len(),
    ensures
        r == le_u16(buf@, offset as int),
{
    let lo: u16 = buf[offset] as u16;
    let hi: u16 = buf[offset + 1] as u16;
    lo + hi * 0x100
}

/// Reads a 32-bit integer.
pub fn read_le_u32(buf: &[u8], offset: usize) -> (r: u32)
    requires
        offset + 4 <= buf@.len(),
    ensures
        r == le_u32(buf@, offset as int),
{
    let n: usize = buf.len();
    assert(offset + 4 <= n);
    let lo: u32 = read_le_u16(buf, offset) as u32;
    let hi: u32 = read_le_u16(buf, offset + 2) as u32;
    lo + hi * 0x1_0000
}

/// Reads a 64-bit integer.
pub fn read_le_u64(buf: &[u8], offset: usize) -> (r: u64)
    requires
        offset + 8 <= buf@.len(),
    ensures
        r == le_u64(buf@, offset as int),
{
    let n: usize = buf.len();
    assert(offset + 8 <= n);
    let lo: u64 = read_le_u32(buf, offset) as u64;
    let hi: u64 = read_le_u32(buf, offset + 4) as u64;
    lo + hi * 0x1_0000_0000
}

/// Each byte of an integer stands where little-endian order has it: the lowest first.
pub proof fn integers_are_little_endian(b: Seq<u8>, at: int)
    ensures
        le_u16(b, at) % 0x100 == b[at],
        le_u16(b, at) / 0x100 == b[at + 1],
        le_u32(b, at) % 0x100 == b[at],
        le_u32(b, at) / 0x100 % 0x100 == b[at + 1],
        le_u32(b, at) / 0x1_0000 % 0x100 == b[at + 2],
        le_u32(b, at) / 0x100_0000 == b[at + 3],
        le_u32(b, at) == b[at] + b[at + 1] * 0x100 + b[at + 2] * 0x1_0000 + b[at + 3] * 0x100_0000,
        le_u64(b, at) % 0x1_0000_0000 == le_u32(b, at),
        le_u64(b, at) / 0x1_0000_0000 == le_u32(b, at + 4),
{
}

} // verus!
