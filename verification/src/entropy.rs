//! Fresh seeds for the placement search.

use vstd::prelude::*;
use crate::hash::HashSeed;

verus! {

/// Calls `rand::random::<u32>()`, which draws from the thread's generator.
/// Nothing is claimed of the number drawn. The generator is seeded from the
/// operating system when a thread first draws, and the crate panics there if
/// the system gives it no seed.
#[verifier::external_body]
fn random_u32() -> (x: u32) {
    rand::random::<u32>()
}

/// Calls `rand::random::<u64>()`, which draws from the thread's generator.
/// Nothing is claimed of the number drawn. The generator is seeded from the
/// operating system when a thread first draws, and the crate panics there if
/// the system gives it no seed.
#[verifier::external_body]
fn random_u64() -> (x: u64) {
    rand::random::<u64>()
}

/// Draws a seed of the width that a second-order hash works on: 64 bits
/// for a wide hash, 32 bits otherwise.
pub fn draw_seed(wide: bool) -> (seed: HashSeed)
    ensures
        wide ==> seed is Bits64,
        !wide ==> seed is Bits32,
{
    if wide {
        HashSeed::Bits64(random_u64())
    } else {
        HashSeed::Bits32(random_u32())
    }
}

} // verus!
