//! Signature-scheme arithmetic building blocks.

pub mod ed25519;
