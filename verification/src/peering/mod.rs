//! Peering: the peers that a node connects to of its own accord.

pub mod config;
