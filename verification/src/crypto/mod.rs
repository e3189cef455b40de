//! Ternary hashing: the lengths that every hash function here shares, and
//! the interface of a sponge.

pub mod constants;
pub mod sponge;
