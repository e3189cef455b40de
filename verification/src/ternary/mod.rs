//! Balanced ternary: trits held one per `i8`, least significant first.

pub mod bigint;
pub mod trits;
