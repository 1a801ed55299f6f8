//! First-order hashes: stateless functions from a byte sequence to a key.
//!
//! All arithmetic wraps modulo 2^32 or 2^64. Each hash is defined by a
//! spec function on `Seq<u8>`; the executable functions are proved to
//! compute exactly that value.

use vstd::prelude::*;
use crate::bits::{le32, le64, load_le32, load_le64, rotate_left_32, rotate_left_64, rotl32, rotl64};
use crate::hash::{HashKey, Hashable};
use crate::text::str_eq;

verus! {

// ---------------------------------------------------------------------------
// FNV-1a, 32 bits
// ---------------------------------------------------------------------------
/// The state that FNV-1a starts from.
pub const FNV_OFFSET_BASIS: u32 = 0x811c9dc5;

/// The multiplier of FNV-1a.
pub const FNV_PRIME: u32 = 0x01000193;

/// FNV-1a: starting from the offset basis, each byte is xor-ed into the
/// state, which is then multiplied by the FNV prime.
pub open spec fn fnv1a(bytes: Seq<u8>) -> u32
    decreases bytes.len(),
{
    if bytes.len() == 0 {
        FNV_OFFSET_BASIS
    } else {
        (fnv1a(bytes.drop_last()) ^ (bytes.last() as u32)).wrapping_mul(FNV_PRIME)
    }
}

/// The 32-bit FNV-1a hash.
#[derive(Debug, Clone, Copy, PartialEq, Eq, Structural)]
pub struct FNV1A {}

impl Default for FNV1A {
    fn default() -> (h: Self)
        ensures
            h == (FNV1A {}),
    {
        FNV1A {}
    }
}

impl FNV1A {
    /// The key of `h` under FNV-1a.
    pub fn hash(h: &Hashable) -> (key: HashKey)
        ensures
            key == HashKey::Bits32(fnv1a(h@)),
    {
        let mut result: u32 = FNV_OFFSET_BASIS;
        let mut i: usize = 0;
        while i < h.len()
            invariant
                i <= h.len(),
                result == fnv1a(h@.take(i as int)),
            decreases h.len() - i,
        {
            proof {
                assert(h@.take(i + 1).drop_last() =~= h@.take(i as int));
            }
            result = (result ^ (h[i] as u32)).wrapping_mul(FNV_PRIME);
            i += 1;
        }
        proof {
            assert(h@.take(i as int) =~= h@);
        }
        HashKey::Bits32(result)
    }
}

// ---------------------------------------------------------------------------
// Streaming mix hash, 32 bits
// ---------------------------------------------------------------------------
/// The multiplier of whole words, and of the second avalanche round.
pub const XX32_PRIME1: u32 = 0x9E3779B1;

/// The multiplier after every rotation.
pub const XX32_PRIME2: u32 = 0x85EBCA6B;

/// The multiplier of the bytes left over.
pub const XX32_PRIME3: u32 = 0xC2B2AE35;

/// The multiplier of the first avalanche round.
pub const XX32_PRIME4: u32 = 0x27D4EB2F;

/// What the length is added to for the first state.
pub const XX32_PRIME5: u32 = 0x165667B1;

/// One absorption step: `word` times `prime` is added to the state, which is
/// rotated by 13 and multiplied by the second prime.
pub open spec fn xx32_step(acc: u32, word: u32, prime: u32) -> u32 {
    rotl32(acc.wrapping_add(word.wrapping_mul(prime)), 13).wrapping_mul(XX32_PRIME2)
}

/// The bytes `bytes[from..to]` read as a big-endian number.
pub open spec fn be_word(bytes: Seq<u8>, from: int, to: int) -> u32
    decreases to - from,
{
    if to <= from {
        0
    } else {
        (be_word(bytes, from, to - 1) << 8u32) | (bytes[to - 1] as u32)
    }
}

/// The last mixing of the state: three xor-shifts around two
/// multiplications.
pub open spec fn xx32_avalanche(h: u32) -> u32 {
    let a = h ^ (h >> 16u32);
    let b = a.wrapping_mul(XX32_PRIME4);
    let c = b ^ (b >> 13u32);
    let d = c.wrapping_mul(XX32_PRIME1);
    d ^ (d >> 16u32)
}

/// The hash of `bytes` from state `acc` with `bytes[..at]` already absorbed:
/// whole little-endian words first, then the one to three bytes left over as
/// a single big-endian word, then the avalanche.
pub open spec fn xx32_from(bytes: Seq<u8>, acc: u32, at: int) -> u32
    decreases bytes.len() - at,
{
    if at + 4 <= bytes.len() {
        xx32_from(bytes, xx32_step(acc, le32(bytes, at), XX32_PRIME1), at + 4)
    } else if at < bytes.len() {
        xx32_avalanche(xx32_step(acc, be_word(bytes, at, bytes.len() as int), XX32_PRIME3))
    } else {
        xx32_avalanche(acc)
    }
}

/// The streaming 32-bit mix hash: the state starts as the fifth prime plus
/// the length.
pub open spec fn xxhash32(bytes: Seq<u8>) -> u32 {
    xx32_from(bytes, XX32_PRIME5.wrapping_add(bytes.len() as u32), 0)
}

/// The streaming 32-bit mix hash.
#[derive(Debug, Clone, Copy, PartialEq, Eq, Structural)]
pub struct XXHash32 {}

impl Default for XXHash32 {
    fn default() -> (h: Self)
        ensures
            h == (XXHash32 {}),
    {
        XXHash32 {}
    }
}

impl XXHash32 {
    /// The key of `h` under the streaming 32-bit mix hash.
    pub fn hash(h: &Hashable) -> (key: HashKey)
        ensures
            key == HashKey::Bits32(xxhash32(h@)),
    {
        let len: usize = h.len();
        let mut res: u32 = XX32_PRIME5.wrapping_add(len as u32);
        let mut i: usize = 0;
        while len - i >= 4
            invariant
                len == h.len(),
                i <= len,
                xx32_from(h@, res, i as int) == xxhash32(h@),
            decreases len - i,
        {
            let k: u32 = load_le32(h, i);
            res = res.wrapping_add(k.wrapping_mul(XX32_PRIME1));
            res = rotate_left_32(res, 13).wrapping_mul(XX32_PRIME2);
            i += 4;
        }
        let start: usize = i;
        let mut rem: u32 = 0;
        while i < len
            invariant
                start <= i <= len,
                len == h.len(),
                rem == be_word(h@, start as int, i as int),
            decreases len - i,
        {
            rem = (rem << 8u32) | (h[i] as u32);
            i += 1;
        }
        if start < len {
            res = res.wrapping_add(rem.wrapping_mul(XX32_PRIME3));
            res = rotate_left_32(res, 13).wrapping_mul(XX32_PRIME2);
        }
        res ^= res >> 16u32;
        res = res.wrapping_mul(XX32_PRIME4);
        res ^= res >> 13u32;
        res = res.wrapping_mul(XX32_PRIME1);
        res ^= res >> 16u32;
        HashKey::Bits32(res)
    }
}

// ---------------------------------------------------------------------------
// Block hash with a fixed seed, 32 bits
// ---------------------------------------------------------------------------
/// The state that the block hash starts from.
pub const MURMUR_SEED: u32 = 0x8286ff1d;

/// The multiplier of a word before its rotation.
pub const MURMUR_C1: u32 = 0xcc9e2d51;

/// The multiplier of a word after its rotation.
pub const MURMUR_C2: u32 = 0x1b873593;

/// What is added to the state after every block.
pub const MURMUR_C3: u32 = 0xe6546b64;

/// The multiplier of the first finishing round.
pub const MURMUR_C4: u32 = 0x85ebca6b;

/// The multiplier of the second finishing round.
pub const MURMUR_C5: u32 = 0xc2b2ae35;

/// A word made ready to be mixed into the state.
pub open spec fn murmur_scramble(k: u32) -> u32 {
    rotl32(k.wrapping_mul(MURMUR_C1), 15).wrapping_mul(MURMUR_C2)
}

/// The state after one whole block `k`.
pub open spec fn murmur_block(acc: u32, k: u32) -> u32 {
    rotl32(acc ^ murmur_scramble(k), 13).wrapping_mul(5).wrapping_add(MURMUR_C3)
}

/// The one to three bytes from `at` on, as a little-endian word.
pub open spec fn murmur_tail_word(bytes: Seq<u8>, at: int) -> u32 {
    let remaining = bytes.len() - at;
    let k3: u32 = if remaining >= 3 {
        (bytes[at + 2] as u32) << 16u32
    } else {
        0
    };
    let k2: u32 = if remaining >= 2 {
        k3 ^ ((bytes[at + 1] as u32) << 8u32)
    } else {
        k3
    };
    k2 ^ (bytes[at] as u32)
}

/// The last mixing: the length is xor-ed in, then three xor-shifts around
/// two multiplications.
pub open spec fn murmur_finish(acc: u32, len: u32) -> u32 {
    let a = acc ^ len;
    let b = a ^ (a >> 16u32);
    let c = b.wrapping_mul(MURMUR_C4);
    let d = c ^ (c >> 13u32);
    let e = d.wrapping_mul(MURMUR_C5);
    e ^ (e >> 16u32)
}

/// The hash of `bytes` from state `acc` with `bytes[..at]` already absorbed.
pub open spec fn murmur_from(bytes: Seq<u8>, acc: u32, at: int) -> u32
    decreases bytes.len() - at,
{
    if at + 4 <= bytes.len() {
        murmur_from(bytes, murmur_block(acc, le32(bytes, at)), at + 4)
    } else if at < bytes.len() {
        murmur_finish(acc ^ murmur_scramble(murmur_tail_word(bytes, at)), bytes.len() as u32)
    } else {
        murmur_finish(acc, bytes.len() as u32)
    }
}

/// The 32-bit block hash, started from its fixed seed.
pub open spec fn murmur3(bytes: Seq<u8>) -> u32 {
    murmur_from(bytes, MURMUR_SEED, 0)
}

/// The 32-bit block hash with its fixed seed.
#[derive(Debug, Clone, Copy, PartialEq, Eq, Structural)]
pub struct Murmur3 {}

impl Default for Murmur3 {
    fn default() -> (h: Self)
        ensures
            h == (Murmur3 {}),
    {
        Murmur3 {}
    }
}

impl Murmur3 {
    fn scramble(k: u32) -> (r: u32)
        ensures
            r == murmur_scramble(k),
    {
        rotate_left_32(k.wrapping_mul(MURMUR_C1), 15).wrapping_mul(MURMUR_C2)
    }

    fn tail_word(h: &Hashable, at: usize) -> (k: u32)
        requires
            at < h.len(),
            h.len() - at < 4,
        ensures
            k == murmur_tail_word(h@, at as int),
    {
        let remaining: usize = h.len() - at;
        let k3: u32 = if remaining >= 3 {
            (h[at + 2] as u32) << 16u32
        } else {
            0
        };
        let k2: u32 = if remaining >= 2 {
            k3 ^ ((h[at + 1] as u32) << 8u32)
        } else {
            k3
        };
        k2 ^ (h[at] as u32)
    }

    fn finish(acc: u32, len: u32) -> (r: u32)
        ensures
            r == murmur_finish(acc, len),
    {
        let mut hash: u32 = acc ^ len;
        hash ^= hash >> 16u32;
        hash = hash.wrapping_mul(MURMUR_C4);
        hash ^= hash >> 13u32;
        hash = hash.wrapping_mul(MURMUR_C5);
        hash ^= hash >> 16u32;
        hash
    }

    /// The key of `h` under the block hash.
    pub fn hash(h: &Hashable) -> (key: HashKey)
        ensures
            key == HashKey::Bits32(murmur3(h@)),
    {
        let len: usize = h.len();
        let mut hash: u32 = MURMUR_SEED;
        let mut i: usize = 0;
        while len - i >= 4
            invariant
                len == h.len(),
                i <= len,
                murmur_from(h@, hash, i as int) == murmur3(h@),
            decreases len - i,
        {
            let k: u32 = Self::scramble(load_le32(h, i));
            hash ^= k;
            hash = rotate_left_32(hash, 13);
            hash = hash.wrapping_mul(5).wrapping_add(MURMUR_C3);
            i += 4;
        }
        if i < len {
            let k: u32 = Self::scramble(Self::tail_word(h, i));
            hash ^= k;
        }
        HashKey::Bits32(Self::finish(hash, len as u32))
    }
}

// ---------------------------------------------------------------------------
// Streaming mix hash, 64 bits
// ---------------------------------------------------------------------------
/// The multiplier after a rotation, in lanes and in the tail.
pub const XX64_PRIME1: u64 = 0x9e3779b185ebca87;

/// The multiplier of every word that a lane absorbs.
pub const XX64_PRIME2: u64 = 0xc2b2ae3d27d4eb4f;

/// What is added after a 4-byte word, and the multiplier of the second
/// avalanche round.
pub const XX64_PRIME3: u64 = 0x165667b19e3779f9;

/// What is added after a lane is merged, and after an 8-byte word.
pub const XX64_PRIME4: u64 = 0x85ebca77c2b2ae63;

/// The first state of inputs below 32 bytes, and the multiplier of single
/// bytes.
pub const XX64_PRIME5: u64 = 0x27d4eb2f165667c5;

/// One lane absorbing one 64-bit word.
pub open spec fn xx64_round(acc: u64, word: u64) -> u64 {
    rotl64(acc.wrapping_add(word.wrapping_mul(XX64_PRIME2)), 31).wrapping_mul(XX64_PRIME1)
}

/// A lane folded into the converged state.
pub open spec fn xx64_merge(h: u64, lane: u64) -> u64 {
    (h ^ xx64_round(0, lane)).wrapping_mul(XX64_PRIME1).wrapping_add(XX64_PRIME4)
}

/// The four lanes of the wide-block phase.
pub struct Lanes {
    pub v1: u64,
    pub v2: u64,
    pub v3: u64,
    pub v4: u64,
}

/// The lanes before any block, for seed zero.
pub open spec fn xx64_initial_lanes() -> Lanes {
    Lanes {
        v1: XX64_PRIME1.wrapping_add(XX64_PRIME2),
        v2: XX64_PRIME2,
        v3: 0,
        v4: 0u64.wrapping_sub(XX64_PRIME1),
    }
}

/// The lanes after the 32-byte block at `at`.
pub open spec fn xx64_stripe(lanes: Lanes, bytes: Seq<u8>, at: int) -> Lanes {
    Lanes {
        v1: xx64_round(lanes.v1, le64(bytes, at)),
        v2: xx64_round(lanes.v2, le64(bytes, at + 8)),
        v3: xx64_round(lanes.v3, le64(bytes, at + 16)),
        v4: xx64_round(lanes.v4, le64(bytes, at + 24)),
    }
}

/// The lanes after every whole 32-byte block from `at` on.
pub open spec fn xx64_lanes_from(bytes: Seq<u8>, lanes: Lanes, at: int) -> Lanes
    decreases bytes.len() - at,
{
    if at + 32 <= bytes.len() {
        xx64_lanes_from(bytes, xx64_stripe(lanes, bytes, at), at + 32)
    } else {
        lanes
    }
}

/// The four lanes brought together into one state.
pub open spec fn xx64_converge(lanes: Lanes) -> u64 {
    let h = rotl64(lanes.v1, 1).wrapping_add(rotl64(lanes.v2, 7)).wrapping_add(
        rotl64(lanes.v3, 12),
    ).wrapping_add(rotl64(lanes.v4, 18));
    xx64_merge(xx64_merge(xx64_merge(xx64_merge(h, lanes.v1), lanes.v2), lanes.v3), lanes.v4)
}

/// The last mixing of the state: three xor-shifts around two
/// multiplications.
pub open spec fn xx64_avalanche(h: u64) -> u64 {
    let a = h ^ (h >> 33u32);
    let b = a.wrapping_mul(XX64_PRIME2);
    let c = b ^ (b >> 29u32);
    let d = c.wrapping_mul(XX64_PRIME3);
    d ^ (d >> 32u32)
}

/// The state after an 8-byte word of the tail.
pub open spec fn xx64_word8(h: u64, k: u64) -> u64 {
    rotl64(h ^ xx64_round(0, k), 27).wrapping_mul(XX64_PRIME1).wrapping_add(XX64_PRIME4)
}

/// The state after a 4-byte word of the tail.
pub open spec fn xx64_word4(h: u64, k: u32) -> u64 {
    rotl64(h ^ (k as u64).wrapping_mul(XX64_PRIME1), 23).wrapping_mul(XX64_PRIME2).wrapping_add(
        XX64_PRIME3,
    )
}

/// The state after a single byte of the tail.
pub open spec fn xx64_byte(h: u64, b: u8) -> u64 {
    rotl64(h ^ (b as u64).wrapping_mul(XX64_PRIME5), 11).wrapping_mul(XX64_PRIME1)
}

/// The hash from state `h` with `bytes[..at]` already absorbed: 8-byte
/// words while they last, then 4-byte words, then single bytes, then the
/// avalanche.
pub open spec fn xx64_tail_from(bytes: Seq<u8>, h: u64, at: int) -> u64
    decreases bytes.len() - at,
{
    if at + 8 <= bytes.len() {
        xx64_tail_from(bytes, xx64_word8(h, le64(bytes, at)), at + 8)
    } else if at + 4 <= bytes.len() {
        xx64_tail_from(bytes, xx64_word4(h, le32(bytes, at)), at + 4)
    } else if at < bytes.len() {
        xx64_tail_from(bytes, xx64_byte(h, bytes[at]), at + 1)
    } else {
        xx64_avalanche(h)
    }
}

/// The streaming 64-bit mix hash with seed zero. Inputs of at least 32
/// bytes go through the four-lane phase first; the tail starts after the
/// last whole 32-byte block.
pub open spec fn xxhash64(bytes: Seq<u8>) -> u64 {
    let len = bytes.len() as int;
    if len >= 32 {
        let h = xx64_converge(xx64_lanes_from(bytes, xx64_initial_lanes(), 0));
        xx64_tail_from(bytes, h.wrapping_add(bytes.len() as u64), len - len % 32)
    } else {
        xx64_tail_from(bytes, XX64_PRIME5.wrapping_add(bytes.len() as u64), 0)
    }
}

/// Where the whole 32-byte blocks of `len` bytes end.
proof fn lemma_whole_blocks(len: int, blocks: int)
    requires
        0 <= 32 * blocks <= len < 32 * blocks + 32,
    ensures
        32 * blocks == len - len % 32,
{
}

/// The streaming 64-bit mix hash.
#[derive(Debug, Clone, Copy, PartialEq, Eq, Structural)]
pub struct XXHash64 {}

impl Default for XXHash64 {
    fn default() -> (h: Self)
        ensures
            h == (XXHash64 {}),
    {
        XXHash64 {}
    }
}

impl XXHash64 {
    fn round(acc: u64, word: u64) -> (r: u64)
        ensures
            r == xx64_round(acc, word),
    {
        rotate_left_64(acc.wrapping_add(word.wrapping_mul(XX64_PRIME2)), 31).wrapping_mul(
            XX64_PRIME1,
        )
    }

    fn merge(h: u64, lane: u64) -> (r: u64)
        ensures
            r == xx64_merge(h, lane),
    {
        (h ^ Self::round(0, lane)).wrapping_mul(XX64_PRIME1).wrapping_add(XX64_PRIME4)
    }

    fn converge(lanes: &Lanes) -> (h: u64)
        ensures
            h == xx64_converge(*lanes),
    {
        let mut h: u64 = rotate_left_64(lanes.v1, 1).wrapping_add(
            rotate_left_64(lanes.v2, 7),
        ).wrapping_add(rotate_left_64(lanes.v3, 12)).wrapping_add(rotate_left_64(lanes.v4, 18));
        h = Self::merge(h, lanes.v1);
        h = Self::merge(h, lanes.v2);
        h = Self::merge(h, lanes.v3);
        Self::merge(h, lanes.v4)
    }

    fn avalanche(h: u64) -> (r: u64)
        ensures
            r == xx64_avalanche(h),
    {
        let mut hash: u64 = h;
        hash ^= hash >> 33u32;
        hash = hash.wrapping_mul(XX64_PRIME2);
        hash ^= hash >> 29u32;
        hash = hash.wrapping_mul(XX64_PRIME3);
        hash ^= hash >> 32u32;
        hash
    }

    fn stripe(lanes: &Lanes, h: &Hashable, at: usize) -> (r: Lanes)
        requires
            at + 32 <= h.len(),
        ensures
            r == xx64_stripe(*lanes, h@, at as int),
    {
        Lanes {
            v1: Self::round(lanes.v1, load_le64(h, at)),
            v2: Self::round(lanes.v2, load_le64(h, at + 8)),
            v3: Self::round(lanes.v3, load_le64(h, at + 16)),
            v4: Self::round(lanes.v4, load_le64(h, at + 24)),
        }
    }

    /// The wide-block phase: the lanes after every whole 32-byte block, and
    /// where the tail begins.
    fn lanes(h: &Hashable) -> (r: (Lanes, usize))
        ensures
            r.0 == xx64_lanes_from(h@, xx64_initial_lanes(), 0),
            r.1 == h.len() - h.len() % 32,
    {
        let len: usize = h.len();
        let mut lanes = Lanes {
            v1: XX64_PRIME1.wrapping_add(XX64_PRIME2),
            v2: XX64_PRIME2,
            v3: 0,
            v4: 0u64.wrapping_sub(XX64_PRIME1),
        };
        let mut i: usize = 0;
        let ghost mut blocks: int = 0;
        while len - i >= 32
            invariant
                len == h.len(),
                i <= len,
                i == 32 * blocks,
                xx64_lanes_from(h@, lanes, i as int) == xx64_lanes_from(
                    h@,
                    xx64_initial_lanes(),
                    0,
                ),
            decreases len - i,
        {
            lanes = Self::stripe(&lanes, h, i);
            i += 32;
            proof {
                blocks = blocks + 1;
            }
        }
        proof {
            lemma_whole_blocks(len as int, blocks);
        }
        (lanes, i)
    }

    /// The tail phase from `at` on, and the avalanche.
    fn tail(h: &Hashable, start: u64, at: usize) -> (r: u64)
        requires
            at <= h.len(),
        ensures
            r == xx64_tail_from(h@, start, at as int),
    {
        let len: usize = h.len();
        let mut hash: u64 = start;
        let mut i: usize = at;
        while len - i >= 8
            invariant
                len == h.len(),
                i <= len,
                xx64_tail_from(h@, hash, i as int) == xx64_tail_from(h@, start, at as int),
            decreases len - i,
        {
            let k: u64 = Self::round(0, load_le64(h, i));
            hash ^= k;
            hash = rotate_left_64(hash, 27).wrapping_mul(XX64_PRIME1).wrapping_add(XX64_PRIME4);
            i += 8;
        }
        while len - i >= 4
            invariant
                len == h.len(),
                i <= len,
                len - i < 8,
                xx64_tail_from(h@, hash, i as int) == xx64_tail_from(h@, start, at as int),
            decreases len - i,
        {
            let k: u64 = load_le32(h, i) as u64;
            hash ^= k.wrapping_mul(XX64_PRIME1);
            hash = rotate_left_64(hash, 23).wrapping_mul(XX64_PRIME2).wrapping_add(XX64_PRIME3);
            i += 4;
        }
        while i < len
            invariant
                len == h.len(),
                i <= len,
                len - i < 4,
                xx64_tail_from(h@, hash, i as int) == xx64_tail_from(h@, start, at as int),
            decreases len - i,
        {
            let k: u64 = h[i] as u64;
            hash ^= k.wrapping_mul(XX64_PRIME5);
            hash = rotate_left_64(hash, 11).wrapping_mul(XX64_PRIME1);
            i += 1;
        }
        Self::avalanche(hash)
    }

    /// The key of `h` under the streaming 64-bit mix hash.
    pub fn hash(h: &Hashable) -> (key: HashKey)
        ensures
            key == HashKey::Bits64(xxhash64(h@)),
    {
        let len: usize = h.len();
        if len >= 32 {
            let (lanes, at) = Self::lanes(h);
            let hash: u64 = Self::converge(&lanes).wrapping_add(len as u64);
            HashKey::Bits64(Self::tail(h, hash, at))
        } else {
            HashKey::Bits64(Self::tail(h, XX64_PRIME5.wrapping_add(len as u64), 0))
        }
    }
}

// ---------------------------------------------------------------------------
// The family
// ---------------------------------------------------------------------------
/// A first-order hash, chosen by name.
#[derive(Debug, Clone, Copy, PartialEq, Eq, Structural)]
pub enum FOHash {
    FNV1A(FNV1A),
    XXHash32(XXHash32),
    Murmur3(Murmur3),
    XXHash64(XXHash64),
}

/// A name that no hash of the family answers to.
#[derive(Debug, Clone, Copy, PartialEq, Eq, Structural)]
pub struct UnknownHash {}

impl UnknownHash {
    /// What to tell the user who asked for an unknown first-order hash.
    pub fn first_order_message() -> (msg: &'static str)
        ensures
            msg@
                == "Cannot find a corresponding first-order hash. Expected: fnv1a, xxhash32, murmur3, xxhash64"@,
    {
        "Cannot find a corresponding first-order hash. Expected: fnv1a, xxhash32, murmur3, xxhash64"
    }

    /// What to tell the user who asked for an unknown second-order hash.
    pub fn second_order_message() -> (msg: &'static str)
        ensures
            msg@ == "Cannot find a corresponding second-order hash. Expected: mxf, xorshift"@,
    {
        "Cannot find a corresponding second-order hash. Expected: mxf, xorshift"
    }
}

impl Default for FOHash {
    fn default() -> (h: Self)
        ensures
            h == FOHash::Murmur3(Murmur3 {}),
    {
        FOHash::Murmur3(Murmur3 {})
    }
}

impl FOHash {
    /// The hash registered under `name`, if there is one.
    pub open spec fn named(name: Seq<char>) -> Option<FOHash> {
        if name == "fnv1a"@ {
            Some(FOHash::FNV1A(FNV1A {}))
        } else if name == "xxhash32"@ {
            Some(FOHash::XXHash32(XXHash32 {}))
        } else if name == "murmur3"@ {
            Some(FOHash::Murmur3(Murmur3 {}))
        } else if name == "xxhash64"@ {
            Some(FOHash::XXHash64(XXHash64 {}))
        } else {
            None
        }
    }

    /// The key this hash gives to `bytes`.
    pub open spec fn hash_of(self, bytes: Seq<u8>) -> HashKey {
        match self {
            FOHash::FNV1A(_) => HashKey::Bits32(fnv1a(bytes)),
            FOHash::XXHash32(_) => HashKey::Bits32(xxhash32(bytes)),
            FOHash::Murmur3(_) => HashKey::Bits32(murmur3(bytes)),
            FOHash::XXHash64(_) => HashKey::Bits64(xxhash64(bytes)),
        }
    }

    /// The name this hash is registered under.
    pub open spec fn name_of(self) -> Seq<char> {
        match self {
            FOHash::FNV1A(_) => "fnv1a"@,
            FOHash::XXHash32(_) => "xxhash32"@,
            FOHash::Murmur3(_) => "murmur3"@,
            FOHash::XXHash64(_) => "xxhash64"@,
        }
    }

    /// Whether the keys of this hash are 64 bits wide.
    pub open spec fn wide(self) -> bool {
        self is XXHash64
    }

    /// Looks a hash up by its name.
    pub fn from_name(s: &str) -> (r: Result<FOHash, UnknownHash>)
        ensures
            match FOHash::named(s@) {
                Some(h) => r == Ok::<FOHash, UnknownHash>(h),
                None => r is Err,
            },
    {
        if str_eq(s, "fnv1a") {
            Ok(FOHash::FNV1A(FNV1A {}))
        } else if str_eq(s, "xxhash32") {
            Ok(FOHash::XXHash32(XXHash32 {}))
        } else if str_eq(s, "murmur3") {
            Ok(FOHash::Murmur3(Murmur3 {}))
        } else if str_eq(s, "xxhash64") {
            Ok(FOHash::XXHash64(XXHash64 {}))
        } else {
            Err(UnknownHash {})
        }
    }

    /// The key of `h` under this hash: the same bytes always give the same
    /// key.
    pub fn hash(&self, h: &Hashable) -> (key: HashKey)
        ensures
            key == self.hash_of(h@),
            (key is Bits64) == self.wide(),
    {
        match self {
            FOHash::FNV1A(_) => FNV1A::hash(h),
            FOHash::XXHash32(_) => XXHash32::hash(h),
            FOHash::Murmur3(_) => Murmur3::hash(h),
            FOHash::XXHash64(_) => XXHash64::hash(h),
        }
    }

    /// The name this hash is registered under.
    pub fn name(&self) -> (n: &'static str)
        ensures
            n@ == self.name_of(),
    {
        match self {
            FOHash::FNV1A(_) => "fnv1a",
            FOHash::XXHash32(_) => "xxhash32",
            FOHash::Murmur3(_) => "murmur3",
            FOHash::XXHash64(_) => "xxhash64",
        }
    }

    /// Whether the keys of this hash are 64 bits wide.
    pub fn is_64bits(&self) -> (wide: bool)
        ensures
            wide == self.wide(),
    {
        match self {
            FOHash::FNV1A(_) => false,
            FOHash::XXHash32(_) => false,
            FOHash::Murmur3(_) => false,
            FOHash::XXHash64(_) => true,
        }
    }
}

impl core::str::FromStr for FOHash {
    type Err = &'static str;

    /// The hash registered under `s`, or the message that names the hashes
    /// there are.
    fn from_str(s: &str) -> (r: Result<Self, Self::Err>)
        ensures
            match FOHash::named(s@) {
                Some(h) => r == Ok::<FOHash, &'static str>(h),
                None => r matches Err(msg) && msg@
                    == "Cannot find a corresponding first-order hash. Expected: fnv1a, xxhash32, murmur3, xxhash64"@,
            },
    {
        match FOHash::from_name(s) {
            Ok(h) => Ok(h),
            Err(_) => Err(UnknownHash::first_order_message()),
        }
    }
}

/// The names of the family are told apart and found again: looking up the
/// name of a hash gives that hash back.
pub proof fn lemma_name_round_trip(h: FOHash)
    ensures
        FOHash::named(h.name_of()) == Some(h),
{
    reveal_strlit("fnv1a");
    reveal_strlit("xxhash32");
    reveal_strlit("murmur3");
    reveal_strlit("xxhash64");
    match h {
        FOHash::FNV1A(_) => {},
        FOHash::XXHash32(_) => {
            assert("xxhash32"@.len() != "fnv1a"@.len());
        },
        FOHash::Murmur3(_) => {
            assert("murmur3"@.len() != "fnv1a"@.len());
            assert("murmur3"@.len() != "xxhash32"@.len());
        },
        FOHash::XXHash64(_) => {
            assert("xxhash64"@.len() != "fnv1a"@.len());
            assert("xxhash64"@[7] != "xxhash32"@[7]);
            assert("xxhash64"@.len() != "murmur3"@.len());
        },
    }
}

} // verus!
