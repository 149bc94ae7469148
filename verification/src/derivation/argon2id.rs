//! A memory-hard, tunable-cost key derivation function in the Argon2id
//! family, built on BLAKE2b.
//!
//! The derivation fills a flat array of 1024-byte blocks, organized in lanes,
//! passes and four synchronization slices per pass. Each block is the
//! compression of its predecessor in the lane with a pseudorandomly chosen
//! earlier block; the choice is data-independent in the first two slices of
//! the first pass and data-dependent afterwards. The final tag is extracted
//! by hashing the XOR of every block.
//!
//! `blake2b` holds the fixed-length and extendable-output hashes, `params`
//! the cost parameters and their validation, `block` the 1024-byte memory
//! cell, `reference` the pseudorandom indexing function, `memory` the
//! lane/slice geometry and the fill loop, `boundary` the initial and final
//! hashing, and `engine` the `argon2id` entry point.

pub mod blake2b;
pub mod block;
pub mod boundary;
pub mod engine;
pub mod memory;
pub mod params;
pub mod reference;
