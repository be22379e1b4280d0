//! Little-endian integers inside byte buffers (the byte order of the Windows
//! targets whose structures these buffers hold).

use vstd::prelude::*;

verus! {

/// The little-endian `u16` stored in `s[i..i + 2]`.
pub open spec fn le_u16_at(s: Seq<u8>, i: int) -> int {
    s[i] + s[i + 1] * 0x100
}

/// The little-endian `u32` stored in `s[i..i + 4]`.
pub open spec fn le_u32_at(s: Seq<u8>, i: int) -> int {
    s[i] + s[i + 1] * 0x100 + s[i + 2] * 0x1_0000 + s[i + 3] * 0x100_0000
}

/// Reads the little-endian `u16` at `s[i..i + 2]`.
pub fn read_u16_le(s: &[u8], i: usize) -> (v: u16)
    requires
        i + 2 <= s.len(),
    ensures
        v == le_u16_at(s@, i as int),
{
    s[i] as u16 + s[i + 1] as u16 * 0x100
}

/// Reads the little-endian `u32` at `s[i..i + 4]`.
pub fn read_u32_le(s: &[u8], i: usize) -> (v: u32)
    requires
        i + 4 <= s.len(),
    ensures
        v == le_u32_at(s@, i as int),
{
    s[i] as u32 + s[i + 1] as u32 * 0x100 + s[i + 2] as u32 * 0x1_0000 + s[i + 3] as u32
        * 0x100_0000
}

} // verus!
