//! Fixed-width integer primitives.

pub mod u256;

pub use u256::U256;
