//! The configuration of a node.

pub mod conf;
