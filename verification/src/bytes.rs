//! Fixed-width integer encodings shared by the wire formats of the library.
use vstd::prelude::*;

verus! {

/// Big-endian value of the two bytes of `s` starting at `i`.
pub open spec fn be16(s: Seq<u8>, i: int) -> int {
    s[i] * 256 + s[i + 1]
}

/// Big-endian value of the four bytes of `s` starting at `i`.
pub open spec fn be32(s: Seq<u8>, i: int) -> int {
    s[i] * 16777216 + s[i + 1] * 65536 + s[i + 2] * 256 + s[i + 3]
}

/// Little-endian value of the two bytes of `s` starting at `i`.
pub open spec fn le16(s: Seq<u8>, i: int) -> int {
    s[i] + s[i + 1] * 256
}

/// Little-endian value of the eight bytes of `s` starting at `i`.
pub open spec fn le64(s: Seq<u8>, i: int) -> int {
    s[i] + s[i + 1] * 0x100 + s[i + 2] * 0x10000 + s[i + 3] * 0x1000000 + s[i + 4]
        * 0x100000000 + s[i + 5] * 0x10000000000 + s[i + 6] * 0x1000000000000 + s[i + 7]
        * 0x100000000000000
}

/// Reads a big-endian `u16` at `i`.
pub fn read_be16(data: &[u8], i: usize) -> (r: u16)
    requires
        i + 2 <= data@.len(),
    ensures
        r == be16(data@, i as int),
{
    (data[i] as u16) * 256 + (data[i + 1] as u16)
}

/// Reads a big-endian `u32` at `i`.
pub fn read_be32(data: &[u8], i: usize) -> (r: u32)
    requires
        i + 4 <= data@.len(),
    ensures
        r == be32(data@, i as int),
{
    (data[i] as u32) * 16777216 + (data[i + 1] as u32) * 65536 + (data[i + 2] as u32) * 256 + (
    data[i + 3] as u32)
}

/// Reads a little-endian `u16` at `i`.
pub fn read_le16(data: &[u8], i: usize) -> (r: u16)
    requires
        i + 2 <= data@.len(),
    ensures
        r == le16(data@, i as int),
{
    (data[i] as u16) + (data[i + 1] as u16) * 256
}

/// Reads a little-endian `u64` at `i`.
pub fn read_le64(data: &[u8], i: usize) -> (r: u64)
    requires
        i + 8 <= data@.len(),
    ensures
        r == le64(data@, i as int),
{
    (data[i] as u64) + (data[i + 1] as u64) * 0x100 + (data[i + 2] as u64) * 0x10000 + (data[i
        + 3] as u64) * 0x1000000 + (data[i + 4] as u64) * 0x100000000 + (data[i + 5] as u64)
        * 0x10000000000 + (data[i + 6] as u64) * 0x1000000000000 + (data[i + 7] as u64)
        * 0x100000000000000
}

} // verus!
