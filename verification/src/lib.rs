//! A verified EIP-712 style typed-data digest core.
//!
//! The crate holds a registry of named struct schemas, renders canonical type
//! signatures, encodes concrete value trees into fixed-width hex slots, and
//! combines the pieces into domain-separated Keccak-256 digests. The
//! cryptographic hash and the hex codec come from outside crates behind
//! trusted wrappers; everything around them is verified.

pub mod hexutil;
pub mod hashing;
pub mod strutil;
pub mod registry;
pub mod value;
pub mod encoder;
pub mod digest;
pub mod mnemonic;
pub mod laws;
