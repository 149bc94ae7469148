//! Verified cryptographic building blocks: a memory-hard key derivation
//! function in the Argon2id family, the BLAKE2b hash it is built on, SHA-256,
//! a 256-bit unsigned integer, and constant-time helpers for Ed25519-style
//! field arithmetic.

pub mod derivation;
pub mod hash;
pub mod primitives;
pub mod signatures;
