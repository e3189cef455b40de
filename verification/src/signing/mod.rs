//! Signature schemes: hash normalisation and Winternitz key generation over
//! trits, and Ed25519 over bytes.

pub mod ed25519;
pub mod normalize;
pub mod scheme;
pub mod wots;
