//! Construction of minimal perfect hash tables over a fixed set of keys.
//!
//! Keys are first hashed by a stateless first-order hash and grouped into
//! buckets; every bucket then receives its own seed for a second-order hash
//! that sends its keys to slots nobody else uses. The finished table maps
//! its `m` keys one-to-one onto `0..m`, and a lookup finds a key again in
//! two steps: the first-order key picks the bucket, the bucket's seed picks
//! the slot.
//!
//! - [`hash`], [`first_order`], [`second_order`]: keys, seeds and the two
//!   families of hash functions.
//! - [`item`], [`bucket`]: payloads, items and buckets, with the rule for
//!   dropping duplicates and colliding keys, and the trial of one seed.
//! - [`order`]: the order in which buckets are placed.
//! - [`table`]: the mathematical model of a table and the laws that hold of
//!   it.
//! - [`phash`]: the builder and the finished table.
//! - [`tokens`], [`entropy`]: cutting text into payloads, and drawing seeds.
//! - [`lang`], [`render`]: what generated lookup code is written with.
//! - [`bits`], [`text`], [`layout`], [`counting`]: the tools of the above.

pub mod bits;
pub mod bucket;
pub mod counting;
pub mod entropy;
pub mod first_order;
pub mod hash;
pub mod item;
pub mod lang;
pub mod layout;
pub mod order;
pub mod phash;
pub mod render;
pub mod second_order;
pub mod table;
pub mod text;
pub mod tokens;
