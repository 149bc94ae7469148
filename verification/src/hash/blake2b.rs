//! BLAKE2b hashing.
//!
//! `consts` holds the mathematical model of the algorithm (initialization
//! vector, message schedule, compression function, whole-message digest),
//! `utils` the word-level mixing primitives, and `engine` the incremental
//! hashing state together with the one-shot entry point.

pub mod consts;
pub mod engine;
pub mod utils;
