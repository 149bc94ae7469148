//! SHA-256: the per-round computations in `computations`, the block
//! compression and whole-message hashing in `engine`.

pub mod computations;
pub mod engine;

pub use crate::hash::sha256::engine::compress;
pub use crate::hash::sha256::engine::sha256;
