//! Protocol core of a tangle node: wire messages, handshake validation,
//! request scheduling, solidification bookkeeping and bundle construction,
//! each with a machine-checked contract.

pub mod bundle;
pub mod crypto;
pub mod node;
pub mod payload;
pub mod peering;
pub mod protocol;
pub mod signing;
pub mod snapshot;
pub mod storage;
pub mod tangle;
pub mod ternary;
