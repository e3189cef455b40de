//! Wire messages and their byte layouts. All integers are big-endian.

pub mod codec;
pub mod handshake;
pub mod heartbeat;
pub mod milestone_request;
pub mod tlv;
pub mod transaction;
pub mod transaction_request;
pub mod version;
