//! The milestone request message.

use vstd::prelude::*;
use crate::protocol::message::codec::{be_bytes_u32, be_u32, read_u32, write_u32};
use crate::protocol::message::codec::lemma_be_u32_round_trip;
use std::ops::Range;

verus! {

/// Length in bytes of every milestone request payload.
pub const MILESTONE_REQUEST_SIZE: usize = 4;

/// Asks a peer for a milestone. Index zero asks for the latest one.
#[derive(Clone, Copy, Debug, PartialEq, Eq, Structural)]
pub struct MilestoneRequest {
    /// Index of the requested milestone.
    pub index: u32,
}

impl MilestoneRequest {
    /// Message type in the frame header.
    pub const ID: u8 = 0x03;

    pub fn new(index: u32) -> (message: Self)
        ensures
            message.index == index,
    {
        Self { index }
    }

    /// The payload lengths that a milestone request may have: four bytes exactly.
    pub fn size_range() -> (range: Range<usize>)
        ensures
            range.start == 4,
            range.end == 5,
    {
        MILESTONE_REQUEST_SIZE..(MILESTONE_REQUEST_SIZE + 1)
    }

    /// Reads a milestone request from the start of `bytes`.
    pub fn from_bytes(bytes: &Vec<u8>) -> (message: Self)
        requires
            bytes.len() >= 4,
        ensures
            message.index == be_u32(bytes@.subrange(0, 4)),
    {
        Self { index: read_u32(bytes, 0) }
    }

    /// Length in bytes of the payload.
    pub fn size(&self) -> (size: usize)
        ensures
            size == 4,
    {
        MILESTONE_REQUEST_SIZE
    }

    /// Writes the payload into `bytes`, which it fills.
    pub fn into_bytes(self, bytes: &mut Vec<u8>)
        requires
            old(bytes).len() == 4,
        ensures
            final(bytes)@ == be_bytes_u32(self.index),
    {
        write_u32(bytes, 0, self.index);
        assert(bytes@.subrange(0, 4) =~= bytes@);
    }
}

/// A milestone request read back from its own payload is the request that was written.
pub proof fn lemma_milestone_request_round_trip(message: MilestoneRequest)
    ensures
        be_bytes_u32(message.index).len() == 4,
        be_u32(be_bytes_u32(message.index).subrange(0, 4)) == message.index,
{
    lemma_be_u32_round_trip(message.index);
    assert(be_bytes_u32(message.index).subrange(0, 4) =~= be_bytes_u32(message.index));
}

} // verus!
