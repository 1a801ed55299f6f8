//! Second-order hashes: seeded functions from a key to a key.
//!
//! A second-order hash owns a seed and is pure given seed and key. The
//! multiplying variants use the seed with its lowest bit set, so that the
//! multiplier is always odd.

use vstd::prelude::*;
use crate::first_order::UnknownHash;
use crate::hash::{HashKey, HashSeed};
use crate::text::str_eq;

verus! {

/// The multiplier between the two xor-shifts of the multiply-xor-shift mix.
pub const MXF_MULTIPLIER: u64 = 0xff51afd7ed558ccd;

/// The second multiplier of the xorshift mix.
pub const XORSHIFT_MULTIPLIER: u32 = 0x27d4eb2d;

/// The multiply-xor-shift mix of a 64-bit key under a 64-bit seed.
#[verifier::opaque]
pub open spec fn mxf_mix(key: u64, seed: u64) -> u64 {
    let a = key.wrapping_mul(seed | 1);
    let b = a ^ (a >> 33u32);
    let c = b.wrapping_mul(MXF_MULTIPLIER);
    c ^ (c >> 33u32)
}

/// The xorshift mix of a 32-bit key under a 32-bit seed.
#[verifier::opaque]
pub open spec fn xorshift_mix(key: u32, seed: u32) -> u32 {
    let a = key.wrapping_mul(seed | 1);
    let b = (a ^ 61) ^ (a >> 16u32);
    let c = b.wrapping_mul(9);
    let d = c ^ (c >> 4u32);
    let e = d.wrapping_mul(XORSHIFT_MULTIPLIER);
    let f = e ^ (e >> 15u32);
    let g = f ^ (f.wrapping_add(1) << 13u32);
    let h = g ^ (g >> 17u32);
    h ^ (h << 5u32)
}

fn mix64(key: u64, seed: u64) -> (h: u64)
    ensures
        h == mxf_mix(key, seed),
{
    reveal(mxf_mix);
    let mut h: u64 = key.wrapping_mul(seed | 1);
    h ^= h >> 33u32;
    h = h.wrapping_mul(MXF_MULTIPLIER);
    h ^= h >> 33u32;
    h
}

fn mix32(key: u32, seed: u32) -> (h: u32)
    ensures
        h == xorshift_mix(key, seed),
{
    reveal(xorshift_mix);
    let mut h: u32 = key.wrapping_mul(seed | 1);
    h = (h ^ 61) ^ (h >> 16u32);
    h = h.wrapping_mul(9);
    h = h ^ (h >> 4u32);
    h = h.wrapping_mul(XORSHIFT_MULTIPLIER);
    h = h ^ (h >> 15u32);
    h ^= h.wrapping_add(1) << 13u32;
    h ^= h >> 17u32;
    h ^= h << 5u32;
    h
}

/// The multiply-xor-shift mixer with 32-bit keys as its output.
#[derive(Debug, Clone, Copy, PartialEq, Eq, Structural)]
pub struct MXF {
    pub seed: HashSeed,
}

impl Default for MXF {
    fn default() -> (h: Self)
        ensures
            h == (MXF { seed: HashSeed::Bits64(0) }),
    {
        MXF { seed: HashSeed::Bits64(0) }
    }
}

impl MXF {
    /// The mix of `key`, widened to 64 bits, under the seed held, narrowed
    /// to 32 bits.
    pub fn hash(&self, key: HashKey) -> (out: HashKey)
        ensures
            out == HashKey::Bits32(mxf_mix(key.wide64(), self.seed.low64()) as u32),
    {
        HashKey::Bits32(mix64(key.as_u64(), self.seed.as_u64()) as u32)
    }

    /// Replaces the seed.
    pub fn set_seed(&mut self, seed: HashSeed)
        ensures
            final(self).seed == seed,
    {
        self.seed = seed;
    }
}

/// The multiply-xor-shift mixer with 64-bit keys as its output.
#[derive(Debug, Clone, Copy, PartialEq, Eq, Structural)]
pub struct MXF64 {
    pub seed: HashSeed,
}

impl Default for MXF64 {
    fn default() -> (h: Self)
        ensures
            h == (MXF64 { seed: HashSeed::Bits64(0) }),
    {
        MXF64 { seed: HashSeed::Bits64(0) }
    }
}

impl MXF64 {
    /// The mix of `key`, widened to 64 bits, under the seed held.
    pub fn hash(&self, key: HashKey) -> (out: HashKey)
        ensures
            out == HashKey::Bits64(mxf_mix(key.wide64(), self.seed.low64())),
    {
        HashKey::Bits64(mix64(key.as_u64(), self.seed.as_u64()))
    }

    /// Replaces the seed.
    pub fn set_seed(&mut self, seed: HashSeed)
        ensures
            final(self).seed == seed,
    {
        self.seed = seed;
    }
}

/// The xorshift mixer, on 32-bit keys.
#[derive(Debug, Clone, Copy, PartialEq, Eq, Structural)]
pub struct XorShift {
    pub seed: HashSeed,
}

impl Default for XorShift {
    fn default() -> (h: Self)
        ensures
            h == (XorShift { seed: HashSeed::Bits32(0) }),
    {
        XorShift { seed: HashSeed::Bits32(0) }
    }
}

impl XorShift {
    /// The mix of the low 32 bits of `key` under the low 32 bits of the
    /// seed held.
    pub fn hash(&self, key: HashKey) -> (out: HashKey)
        ensures
            out == HashKey::Bits32(xorshift_mix(key.low32(), self.seed.low32())),
    {
        HashKey::Bits32(mix32(key.as_u32(), self.seed.as_u32()))
    }

    /// Replaces the seed.
    pub fn set_seed(&mut self, seed: HashSeed)
        ensures
            final(self).seed == seed,
    {
        self.seed = seed;
    }
}

/// A second-order hash, chosen by name, with its seed.
#[derive(Debug, Clone, Copy, PartialEq, Eq, Structural)]
pub enum SOHash {
    MXF(MXF),
    MXF64(MXF64),
    XorShift(XorShift),
}

impl Default for SOHash {
    fn default() -> (h: Self)
        ensures
            h == SOHash::MXF(MXF { seed: HashSeed::Bits64(0) }),
    {
        SOHash::MXF(MXF { seed: HashSeed::Bits64(0) })
    }
}

impl SOHash {
    /// The hash registered under `name`, with its initial seed.
    pub open spec fn named(name: Seq<char>) -> Option<SOHash> {
        if name == "mxf"@ {
            Some(SOHash::MXF(MXF { seed: HashSeed::Bits64(0) }))
        } else if name == "mxf64"@ {
            Some(SOHash::MXF64(MXF64 { seed: HashSeed::Bits64(0) }))
        } else if name == "xorshift"@ {
            Some(SOHash::XorShift(XorShift { seed: HashSeed::Bits32(0) }))
        } else {
            None
        }
    }

    /// The seed this hash holds.
    pub open spec fn seed_of(self) -> HashSeed {
        match self {
            SOHash::MXF(x) => x.seed,
            SOHash::MXF64(x) => x.seed,
            SOHash::XorShift(x) => x.seed,
        }
    }

    /// The same variant holding `seed`.
    pub open spec fn with_seed(self, seed: HashSeed) -> SOHash {
        match self {
            SOHash::MXF(_) => SOHash::MXF(MXF { seed }),
            SOHash::MXF64(_) => SOHash::MXF64(MXF64 { seed }),
            SOHash::XorShift(_) => SOHash::XorShift(XorShift { seed }),
        }
    }

    /// The key this hash, with the seed it holds, gives to `key`.
    pub open spec fn hash_of(self, key: HashKey) -> HashKey {
        match self {
            SOHash::MXF(x) => HashKey::Bits32(mxf_mix(key.wide64(), x.seed.low64()) as u32),
            SOHash::MXF64(x) => HashKey::Bits64(mxf_mix(key.wide64(), x.seed.low64())),
            SOHash::XorShift(x) => HashKey::Bits32(xorshift_mix(key.low32(), x.seed.low32())),
        }
    }

    /// The name this hash is registered under.
    pub open spec fn name_of(self) -> Seq<char> {
        match self {
            SOHash::MXF(_) => "mxf"@,
            SOHash::MXF64(_) => "mxf64"@,
            SOHash::XorShift(_) => "xorshift"@,
        }
    }

    /// Whether this hash takes and gives 64-bit keys.
    pub open spec fn wide(self) -> bool {
        self is MXF64
    }

    /// Whether the seed has the width that the hash works on: 64 bits for
    /// a wide hash, 32 bits otherwise.
    pub open spec fn well_seeded(self) -> bool {
        if self.wide() {
            self.seed_of() is Bits64
        } else {
            self.seed_of() is Bits32
        }
    }

    /// Looks a hash up by its name.
    pub fn from_name(s: &str) -> (r: Result<SOHash, UnknownHash>)
        ensures
            match SOHash::named(s@) {
                Some(h) => r == Ok::<SOHash, UnknownHash>(h),
                None => r is Err,
            },
    {
        if str_eq(s, "mxf") {
            Ok(SOHash::MXF(MXF { seed: HashSeed::Bits64(0) }))
        } else if str_eq(s, "mxf64") {
            Ok(SOHash::MXF64(MXF64 { seed: HashSeed::Bits64(0) }))
        } else if str_eq(s, "xorshift") {
            Ok(SOHash::XorShift(XorShift { seed: HashSeed::Bits32(0) }))
        } else {
            Err(UnknownHash {})
        }
    }

    /// The key that `key` is sent to under the seed held.
    pub fn hash(&self, key: HashKey) -> (out: HashKey)
        ensures
            out == self.hash_of(key),
            (out is Bits64) == self.wide(),
    {
        match self {
            SOHash::MXF(x) => x.hash(key),
            SOHash::MXF64(x) => x.hash(key),
            SOHash::XorShift(x) => x.hash(key),
        }
    }

    /// The name this hash is registered under.
    pub fn name(&self) -> (n: &'static str)
        ensures
            n@ == self.name_of(),
    {
        match self {
            SOHash::MXF(_) => "mxf",
            SOHash::MXF64(_) => "mxf64",
            SOHash::XorShift(_) => "xorshift",
        }
    }

    /// Replaces the seed. Nothing else changes the hash.
    pub fn set_seed(&mut self, seed: HashSeed)
        ensures
            *final(self) == old(self).with_seed(seed),
    {
        match self {
            SOHash::MXF(x) => x.set_seed(seed),
            SOHash::MXF64(x) => x.set_seed(seed),
            SOHash::XorShift(x) => x.set_seed(seed),
        }
    }

    /// The seed held.
    pub fn seed(&self) -> (seed: HashSeed)
        ensures
            seed == self.seed_of(),
    {
        match self {
            SOHash::MXF(x) => x.seed,
            SOHash::MXF64(x) => x.seed,
            SOHash::XorShift(x) => x.seed,
        }
    }

    /// Whether this hash takes and gives 64-bit keys.
    pub fn is_64bits(&self) -> (wide: bool)
        ensures
            wide == self.wide(),
    {
        match self {
            SOHash::MXF(_) => false,
            SOHash::MXF64(_) => true,
            SOHash::XorShift(_) => false,
        }
    }
}

impl core::str::FromStr for SOHash {
    type Err = &'static str;

    /// The hash registered under `s`, with its initial seed, or the message
    /// that names the hashes to choose from.
    fn from_str(s: &str) -> (r: Result<Self, Self::Err>)
        ensures
            match SOHash::named(s@) {
                Some(h) => r == Ok::<SOHash, &'static str>(h),
                None => r matches Err(msg) && msg@
                    == "Cannot find a corresponding second-order hash. Expected: mxf, xorshift"@,
            },
    {
        match SOHash::from_name(s) {
            Ok(h) => Ok(h),
            Err(_) => Err(UnknownHash::second_order_message()),
        }
    }
}

} // verus!
