//! Hash functions: BLAKE2b (RFC 7693, unkeyed and keyed) and SHA-256.

pub mod blake2b;
pub mod sha256;

pub use crate::hash::blake2b::engine::blake2b;
pub use crate::hash::blake2b::engine::Blake2b;
pub use crate::hash::sha256::engine::sha256;
