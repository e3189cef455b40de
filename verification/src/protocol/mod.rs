//! The peer protocol: messages and the decisions of the workers that exchange them.

pub mod config;
pub mod message;
pub mod metrics;
pub mod peer;
pub mod worker;
