//! Key derivation.

pub mod argon2id;

pub use crate::derivation::argon2id::engine::argon2id;
pub use crate::derivation::argon2id::engine::Argon2Error;
pub use crate::derivation::argon2id::params::Argon2ParamError;
pub use crate::derivation::argon2id::params::Argon2Params;
