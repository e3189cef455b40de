//! Payloads of messages: the essence of a value transaction with its
//! inputs and outputs, the blocks that unlock inputs, and milestones; and
//! how each is packed into bytes.

pub mod error;
pub mod essence;
pub mod input;
pub mod milestone;
pub mod output;
pub mod packable;
pub mod unlock;
