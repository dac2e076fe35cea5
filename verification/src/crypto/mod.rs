//! Hashing, hex text and Ed25519 signatures.

pub mod bytes;
pub mod hash;
pub mod signature;
