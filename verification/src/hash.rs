//! Hash keys and seeds: the values that the hash families produce and consume.

use vstd::prelude::*;
use vstd::std_specs::convert::FromSpecImpl;
use vstd::std_specs::ops::RemSpecImpl;

verus! {

/// The byte sequence a payload is hashed as.
pub type Hashable = Vec<u8>;

/// The output of a hash function, 32 or 64 bits wide.
#[derive(Debug, Clone, Copy, PartialEq, Eq, Structural)]
pub enum HashKey {
    Bits32(u32),
    Bits64(u64),
}

impl Default for HashKey {
    fn default() -> (k: Self)
        ensures
            k == HashKey::Bits32(0),
    {
        HashKey::Bits32(0)
    }
}

impl From<u32> for HashKey {
    fn from(value: u32) -> (k: Self) {
        HashKey::Bits32(value)
    }
}

impl FromSpecImpl<u32> for HashKey {
    open spec fn obeys_from_spec() -> bool {
        true
    }

    open spec fn from_spec(value: u32) -> Self {
        HashKey::Bits32(value)
    }
}

impl From<u64> for HashKey {
    fn from(value: u64) -> (k: Self) {
        HashKey::Bits64(value)
    }
}

impl FromSpecImpl<u64> for HashKey {
    open spec fn obeys_from_spec() -> bool {
        true
    }

    open spec fn from_spec(value: u64) -> Self {
        HashKey::Bits64(value)
    }
}

impl HashKey {
    /// The key narrowed to 32 bits: a 64-bit key keeps its low half.
    pub open spec fn low32(self) -> u32 {
        match self {
            HashKey::Bits32(x) => x,
            HashKey::Bits64(x) => x as u32,
        }
    }

    /// The key widened to 64 bits.
    pub open spec fn wide64(self) -> u64 {
        match self {
            HashKey::Bits32(x) => x as u64,
            HashKey::Bits64(x) => x,
        }
    }

    /// The value narrowed to 32 bits: what does not fit is cut off.
    pub fn as_u32(self) -> (x: u32)
        ensures
            x == self.low32(),
    {
        match self {
            HashKey::Bits32(x) => x,
            HashKey::Bits64(x) => x as u32,
        }
    }

    /// The key widened to 64 bits.
    pub fn as_u64(self) -> (x: u64)
        ensures
            x == self.wide64(),
    {
        match self {
            HashKey::Bits32(x) => x as u64,
            HashKey::Bits64(x) => x,
        }
    }
}

/// A key narrowed to 32 bits.
impl From<HashKey> for u32 {
    fn from(key: HashKey) -> (x: u32) {
        key.as_u32()
    }
}

impl FromSpecImpl<HashKey> for u32 {
    open spec fn obeys_from_spec() -> bool {
        true
    }

    open spec fn from_spec(key: HashKey) -> u32 {
        key.low32()
    }
}

/// A key widened to 64 bits.
impl From<HashKey> for u64 {
    fn from(key: HashKey) -> (x: u64) {
        key.as_u64()
    }
}

impl FromSpecImpl<HashKey> for u64 {
    open spec fn obeys_from_spec() -> bool {
        true
    }

    open spec fn from_spec(key: HashKey) -> u64 {
        key.wide64()
    }
}

/// Reduction modulo a 32-bit count. A 64-bit key is narrowed to its low
/// 32 bits first, so its high half takes no part in the result.
impl core::ops::Rem<u32> for HashKey {
    type Output = u32;

    fn rem(self, rhs: u32) -> (r: u32) {
        self.as_u32() % rhs
    }
}

impl RemSpecImpl<u32> for HashKey {
    open spec fn obeys_rem_spec() -> bool {
        true
    }

    open spec fn rem_req(self, rhs: u32) -> bool {
        rhs != 0
    }

    open spec fn rem_spec(self, rhs: u32) -> u32 {
        self.low32() % rhs
    }
}

/// Reduction modulo a 64-bit count, on the key widened to 64 bits.
impl core::ops::Rem<u64> for HashKey {
    type Output = u64;

    fn rem(self, rhs: u64) -> (r: u64) {
        self.as_u64() % rhs
    }
}

impl RemSpecImpl<u64> for HashKey {
    open spec fn obeys_rem_spec() -> bool {
        true
    }

    open spec fn rem_req(self, rhs: u64) -> bool {
        rhs != 0
    }

    open spec fn rem_spec(self, rhs: u64) -> u64 {
        self.wide64() % rhs
    }
}

/// The seed of a second-order hash, 32, 64 or 128 bits wide.
#[derive(Debug, Clone, Copy, PartialEq, Eq, Structural)]
pub enum HashSeed {
    Bits32(u32),
    Bits64(u64),
    Bits128(u128),
}

impl From<u32> for HashSeed {
    fn from(value: u32) -> (s: Self) {
        HashSeed::Bits32(value)
    }
}

impl FromSpecImpl<u32> for HashSeed {
    open spec fn obeys_from_spec() -> bool {
        true
    }

    open spec fn from_spec(value: u32) -> Self {
        HashSeed::Bits32(value)
    }
}

impl From<u64> for HashSeed {
    fn from(value: u64) -> (s: Self) {
        HashSeed::Bits64(value)
    }
}

impl FromSpecImpl<u64> for HashSeed {
    open spec fn obeys_from_spec() -> bool {
        true
    }

    open spec fn from_spec(value: u64) -> Self {
        HashSeed::Bits64(value)
    }
}

impl From<u128> for HashSeed {
    fn from(value: u128) -> (s: Self) {
        HashSeed::Bits128(value)
    }
}

impl FromSpecImpl<u128> for HashSeed {
    open spec fn obeys_from_spec() -> bool {
        true
    }

    open spec fn from_spec(value: u128) -> Self {
        HashSeed::Bits128(value)
    }
}

impl HashSeed {
    /// The seed narrowed to its low 32 bits.
    pub open spec fn low32(self) -> u32 {
        match self {
            HashSeed::Bits32(x) => x,
            HashSeed::Bits64(x) => x as u32,
            HashSeed::Bits128(x) => x as u32,
        }
    }

    /// The seed narrowed or widened to 64 bits.
    pub open spec fn low64(self) -> u64 {
        match self {
            HashSeed::Bits32(x) => x as u64,
            HashSeed::Bits64(x) => x,
            HashSeed::Bits128(x) => x as u64,
        }
    }

    /// The seed widened to 128 bits.
    pub open spec fn wide128(self) -> u128 {
        match self {
            HashSeed::Bits32(x) => x as u128,
            HashSeed::Bits64(x) => x as u128,
            HashSeed::Bits128(x) => x,
        }
    }

    /// The value narrowed to 32 bits: what does not fit is cut off.
    pub fn as_u32(self) -> (x: u32)
        ensures
            x == self.low32(),
    {
        match self {
            HashSeed::Bits32(x) => x,
            HashSeed::Bits64(x) => x as u32,
            HashSeed::Bits128(x) => x as u32,
        }
    }

    /// The seed as 64 bits: a wider one is cut off, a narrower one widened.
    pub fn as_u64(self) -> (x: u64)
        ensures
            x == self.low64(),
    {
        match self {
            HashSeed::Bits32(x) => x as u64,
            HashSeed::Bits64(x) => x,
            HashSeed::Bits128(x) => x as u64,
        }
    }

    /// The seed widened to 128 bits.
    pub fn as_u128(self) -> (x: u128)
        ensures
            x == self.wide128(),
    {
        match self {
            HashSeed::Bits32(x) => x as u128,
            HashSeed::Bits64(x) => x as u128,
            HashSeed::Bits128(x) => x,
        }
    }
}

/// A seed narrowed to 32 bits.
impl From<HashSeed> for u32 {
    fn from(seed: HashSeed) -> (x: u32) {
        seed.as_u32()
    }
}

impl FromSpecImpl<HashSeed> for u32 {
    open spec fn obeys_from_spec() -> bool {
        true
    }

    open spec fn from_spec(seed: HashSeed) -> u32 {
        seed.low32()
    }
}

/// A seed as 64 bits.
impl From<HashSeed> for u64 {
    fn from(seed: HashSeed) -> (x: u64) {
        seed.as_u64()
    }
}

impl FromSpecImpl<HashSeed> for u64 {
    open spec fn obeys_from_spec() -> bool {
        true
    }

    open spec fn from_spec(seed: HashSeed) -> u64 {
        seed.low64()
    }
}

/// A seed widened to 128 bits.
impl From<HashSeed> for u128 {
    fn from(seed: HashSeed) -> (x: u128) {
        seed.as_u128()
    }
}

impl FromSpecImpl<HashSeed> for u128 {
    open spec fn obeys_from_spec() -> bool {
        true
    }

    open spec fn from_spec(seed: HashSeed) -> u128 {
        seed.wide128()
    }
}

} // verus!
