//! Little-endian integers in byte strings.
use vstd::prelude::*;

verus! {

/// The little-endian value of the two bytes at `pos`.
pub open spec fn le_u16(s: Seq<u8>, pos: int) -> int {
    s[pos] + 0x100 * s[pos + 1]
}

/// The little-endian value of the four bytes at `pos`.
pub open spec fn le_u32(s: Seq<u8>, pos: int) -> int {
    s[pos] + 0x100 * s[pos + 1] + 0x1_0000 * s[pos + 2] + 0x100_0000 * s[pos + 3]
}

/// The little-endian value of the eight bytes at `pos`.
pub open spec fn le_u64(s: Seq<u8>, pos: int) -> int {
    le_u32(s, pos) + 0x1_0000_0000 * le_u32(s, pos + 4)
}

/// Read the little-endian `u16` at `pos`.
pub fn read_u16_le(bytes: &[u8], pos: usize) -> (v: u16)
    requires
        pos + 2 <= bytes@.len(),
    ensures
        v == le_u16(bytes@, pos as int),
{
    bytes[pos] as u16 + (bytes[pos + 1] as u16) * 0x100
}

/// Read the little-endian `u32` at `pos`.
pub fn read_u32_le(bytes: &[u8], pos: usize) -> (v: u32)
    requires
        pos + 4 <= bytes@.len(),
    ensures
        v == le_u32(bytes@, pos as int),
{
    bytes[pos] as u32 + (bytes[pos + 1] as u32) * 0x100 + (bytes[pos + 2] as u32) * 0x1_0000 + (
    bytes[pos + 3] as u32) * 0x100_0000
}

/// Read the little-endian `u64` at `pos`.
pub fn read_u64_le(bytes: &[u8], pos: usize) -> (v: u64)
    requires
        pos + 8 <= bytes@.len(),
    ensures
        v == le_u64(bytes@, pos as int),
{
    let _len = bytes.len();
    let lo = read_u32_le(bytes, pos);
    let hi = read_u32_le(bytes, pos + 4);
    lo as u64 + (hi as u64) * 0x1_0000_0000
}

/// Write `v` as four little-endian bytes at `pos`.
pub fn write_u32_le(bytes: &mut [u8], pos: usize, v: u32)
    requires
        pos + 4 <= old(bytes)@.len(),
    ensures
        final(bytes)@.len() == old(bytes)@.len(),
        le_u32(final(bytes)@, pos as int) == v,
        forall|i: int| 0 <= i < old(bytes)@.len() && !(pos <= i < pos + 4) ==> final(bytes)@[i] == old(bytes)@[i],
{
    assert((v & 0xff) < 256 && ((v >> 8) & 0xff) < 256 && ((v >> 16) & 0xff) < 256 && ((v >> 24) & 0xff) < 256) by (bit_vector);
    let b0 = (v & 0xff) as u8;
    let b1 = ((v >> 8) & 0xff) as u8;
    let b2 = ((v >> 16) & 0xff) as u8;
    let b3 = ((v >> 24) & 0xff) as u8;
    assert(v == (v & 0xff) + 0x100 * ((v >> 8) & 0xff) + 0x1_0000 * ((v >> 16) & 0xff) + 0x100_0000 * ((v >> 24) & 0xff)) by (bit_vector);
    bytes[pos] = b0;
    bytes[pos + 1] = b1;
    bytes[pos + 2] = b2;
    bytes[pos + 3] = b3;
}

/// Write `v` as eight little-endian bytes at `pos`.
pub fn write_u64_le(bytes: &mut [u8], pos: usize, v: u64)
    requires
        pos + 8 <= old(bytes)@.len(),
    ensures
        final(bytes)@.len() == old(bytes)@.len(),
        le_u64(final(bytes)@, pos as int) == v,
        forall|i: int| 0 <= i < old(bytes)@.len() && !(pos <= i < pos + 8) ==> final(bytes)@[i] == old(bytes)@[i],
{
    let _len = bytes.len();
    assert((v & 0xffff_ffff) <= 0xffff_ffffu64 && (v >> 32) <= 0xffff_ffffu64) by (bit_vector);
    let low = (v & 0xffff_ffff) as u32;
    let high = (v >> 32) as u32;
    assert(v == (v & 0xffff_ffff) + 0x1_0000_0000 * (v >> 32)) by (bit_vector);
    let next = pos + 4;
    write_u32_le(bytes, pos, low);
    write_u32_le(bytes, next, high);
}

} // verus!
