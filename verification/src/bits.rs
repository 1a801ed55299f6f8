//! Rotations and little-endian loads on fixed-width words.

use vstd::prelude::*;

verus! {

/// `x` rotated left by `r` bits within 32 bits, for `0 < r < 32`.
pub open spec fn rotl32(x: u32, r: u32) -> u32 {
    (x << r) | (x >> ((32 - r) as u32))
}

/// `x` rotated left by `r` bits within 64 bits, for `0 < r < 64`.
pub open spec fn rotl64(x: u64, r: u32) -> u64 {
    (x << r) | (x >> ((64 - r) as u32))
}

/// The 32-bit word whose little-endian bytes are `bytes[at..at + 4]`.
pub open spec fn le32(bytes: Seq<u8>, at: int) -> u32 {
    (bytes[at] as u32) | ((bytes[at + 1] as u32) << 8u32) | ((bytes[at + 2] as u32) << 16u32) | ((
    bytes[at + 3] as u32) << 24u32)
}

/// The 64-bit word whose little-endian bytes are `bytes[at..at + 8]`.
pub open spec fn le64(bytes: Seq<u8>, at: int) -> u64 {
    (le32(bytes, at) as u64) | ((le32(bytes, at + 4) as u64) << 32u32)
}

/// The four bytes of `x`, lowest first.
pub open spec fn le_bytes32(x: u32) -> Seq<u8> {
    seq![x as u8, (x >> 8u32) as u8, (x >> 16u32) as u8, (x >> 24u32) as u8]
}

/// The eight bytes of `x`, lowest first.
pub open spec fn le_bytes64(x: u64) -> Seq<u8> {
    le_bytes32(x as u32) + le_bytes32((x >> 32u32) as u32)
}

/// Rotates `x` left by `r` bits.
pub fn rotate_left_32(x: u32, r: u32) -> (y: u32)
    requires
        0 < r < 32,
    ensures
        y == rotl32(x, r),
{
    (x << r) | (x >> (32 - r))
}

/// Rotates `x` left by `r` bits.
pub fn rotate_left_64(x: u64, r: u32) -> (y: u64)
    requires
        0 < r < 64,
    ensures
        y == rotl64(x, r),
{
    (x << r) | (x >> (64 - r))
}

/// Reads the little-endian word at `at`.
pub fn load_le32(bytes: &Vec<u8>, at: usize) -> (w: u32)
    requires
        at + 4 <= bytes.len(),
    ensures
        w == le32(bytes@, at as int),
{
    (bytes[at] as u32) | ((bytes[at + 1] as u32) << 8u32) | ((bytes[at + 2] as u32) << 16u32) | ((
    bytes[at + 3] as u32) << 24u32)
}

/// Reads the little-endian word at `at`.
pub fn load_le64(bytes: &Vec<u8>, at: usize) -> (w: u64)
    requires
        at + 8 <= bytes.len(),
    ensures
        w == le64(bytes@, at as int),
{
    let lo: u32 = load_le32(bytes, at);
    let hi: u32 = load_le32(bytes, at + 4);
    (lo as u64) | ((hi as u64) << 32u32)
}

/// The bytes of `x`, lowest first.
pub fn store_le32(x: u32) -> (bytes: Vec<u8>)
    ensures
        bytes@ == le_bytes32(x),
{
    let mut bytes: Vec<u8> = Vec::new();
    bytes.push(x as u8);
    bytes.push((x >> 8u32) as u8);
    bytes.push((x >> 16u32) as u8);
    bytes.push((x >> 24u32) as u8);
    bytes
}

/// The bytes of `x`, lowest first.
pub fn store_le64(x: u64) -> (bytes: Vec<u8>)
    ensures
        bytes@ == le_bytes64(x),
{
    let mut bytes: Vec<u8> = store_le32(x as u32);
    let mut high: Vec<u8> = store_le32((x >> 32u32) as u32);
    bytes.append(&mut high);
    bytes
}

/// Storing a word and loading it again gives the word back.
pub proof fn lemma_le32_round_trip(x: u32)
    ensures
        le32(le_bytes32(x), 0) == x,
{
    let b0 = x as u8;
    let b1 = (x >> 8u32) as u8;
    let b2 = (x >> 16u32) as u8;
    let b3 = (x >> 24u32) as u8;
    assert((b0 as u32) | ((b1 as u32) << 8u32) | ((b2 as u32) << 16u32) | ((b3 as u32) << 24u32)
        == x) by (bit_vector)
        requires
            b0 == x as u8,
            b1 == (x >> 8u32) as u8,
            b2 == (x >> 16u32) as u8,
            b3 == (x >> 24u32) as u8,
    ;
}

} // verus!
