//! Local snapshots and pruning: when they are due and how far they go.

pub mod constants;
pub mod pruning;
pub mod worker;
