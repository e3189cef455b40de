//! The tangle: the transactions that a node knows, each with the hashes of
//! its two parents and with flags, and the watermarks of the milestones.

pub mod graph;
pub mod solidity;
pub mod traversal;
pub mod worker;
