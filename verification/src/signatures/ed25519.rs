//! Building blocks of the Ed25519 signature scheme: constant-time selection
//! helpers, arithmetic on the ten-limb field-element representation, and the
//! Edwards-curve point types with their structural conversions.

pub mod fe;
pub mod field;
pub mod ge;
