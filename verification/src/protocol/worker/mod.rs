//! What each worker decides. A worker of the running node receives events,
//! asks the functions here what to do, and does it.

pub mod broadcaster;
pub mod bundle_validator;
pub mod handshaker;
pub mod hasher;
pub mod kickstart;
pub mod milestone_validator;
pub mod peer;
pub mod processor;
pub mod requester;
pub mod responder;
pub mod solid_propagator;
pub mod solidifier;
