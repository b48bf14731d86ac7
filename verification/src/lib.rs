//! A minimal perfect hash function for a fixed key set, built with the
//! Czech–Havas–Majewski construction: two salted hash functions project each
//! key onto the vertices of a random graph; when the graph is acyclic, a
//! vertex-potential assignment turns the pair into a collision-free map from
//! the trained keys to their values.

use vstd::prelude::*;

pub mod artifact;
pub mod builder;
pub mod graph;
pub mod hashing;

verus! {

/// Width of the blocks the salt vectors are padded to, so that block-wise
/// processing of a salt never reads out of bounds.
pub const CHUNK_SIZE: usize = 8;

} // verus!
