//! The heartbeat message.

use vstd::prelude::*;
use crate::protocol::message::codec::{be_bytes_u32, be_u32, read_u32, write_u32};
use crate::protocol::message::codec::{lemma_be_u32_round_trip};
use std::ops::Range;

verus! {

const LATEST_SOLID_MILESTONE_INDEX_SIZE: usize = 4;

const PRUNED_INDEX_SIZE: usize = 4;

const LATEST_MILESTONE_INDEX_SIZE: usize = 4;

const CONNECTED_PEERS_SIZE: usize = 1;

const SYNCED_PEERS_SIZE: usize = 1;

/// Length in bytes of every heartbeat payload.
pub const HEARTBEAT_SIZE: usize = 14;

/// Tells a peer which part of the tangle this node stores in full. It is sent
/// after pairing, after a snapshot has pruned history, and after a new solid
/// milestone; peers use it to decide whether a request can be answered.
#[derive(Clone, Copy, Debug, PartialEq, Eq, Structural)]
pub struct Heartbeat {
    /// Index of the latest solid milestone.
    pub latest_solid_milestone_index: u32,
    /// Pruned index.
    pub pruned_index: u32,
    /// Index of the latest milestone.
    pub latest_milestone_index: u32,
    /// Number of connected peers.
    pub connected_peers: u8,
    /// Number of synced peers.
    pub synced_peers: u8,
}

/// The payload that spells `message`.
pub open spec fn heartbeat_bytes(message: Heartbeat) -> Seq<u8> {
    be_bytes_u32(message.latest_solid_milestone_index) + be_bytes_u32(message.pruned_index)
        + be_bytes_u32(message.latest_milestone_index) + seq![
        message.connected_peers,
        message.synced_peers,
    ]
}

/// The message that the first fourteen bytes of a payload spell.
pub open spec fn heartbeat_of(bytes: Seq<u8>) -> Heartbeat
    recommends
        bytes.len() >= 14,
{
    Heartbeat {
        latest_solid_milestone_index: be_u32(bytes.subrange(0, 4)) as u32,
        pruned_index: be_u32(bytes.subrange(4, 8)) as u32,
        latest_milestone_index: be_u32(bytes.subrange(8, 12)) as u32,
        connected_peers: bytes[12],
        synced_peers: bytes[13],
    }
}

impl Heartbeat {
    /// Message type in the frame header.
    pub const ID: u8 = 0x06;

    pub fn new(
        latest_solid_milestone_index: u32,
        pruned_index: u32,
        latest_milestone_index: u32,
        connected_peers: u8,
        synced_peers: u8,
    ) -> (message: Self)
        ensures
            message == (Heartbeat {
                latest_solid_milestone_index,
                pruned_index,
                latest_milestone_index,
                connected_peers,
                synced_peers,
            }),
    {
        Self {
            latest_solid_milestone_index,
            pruned_index,
            latest_milestone_index,
            connected_peers,
            synced_peers,
        }
    }

    /// The payload lengths that a heartbeat may have: fourteen bytes exactly.
    pub fn size_range() -> (range: Range<usize>)
        ensures
            range.start == 14,
            range.end == 15,
    {
        HEARTBEAT_SIZE..(HEARTBEAT_SIZE + 1)
    }

    /// Reads a heartbeat from the start of `bytes`.
    pub fn from_bytes(bytes: &Vec<u8>) -> (message: Self)
        requires
            bytes.len() >= 14,
        ensures
            message == heartbeat_of(bytes@),
    {
        Self {
            latest_solid_milestone_index: read_u32(bytes, 0),
            pruned_index: read_u32(bytes, 4),
            latest_milestone_index: read_u32(bytes, 8),
            connected_peers: bytes[12],
            synced_peers: bytes[13],
        }
    }

    /// Length in bytes of the payload.
    pub fn size(&self) -> (size: usize)
        ensures
            size == 14,
            size == heartbeat_bytes(*self).len(),
    {
        HEARTBEAT_SIZE
    }

    /// Writes the payload over the first fourteen bytes of `bytes`.
    pub fn into_bytes(self, bytes: &mut Vec<u8>)
        requires
            old(bytes).len() >= 14,
        ensures
            final(bytes).len() == old(bytes).len(),
            final(bytes)@.subrange(0, 14) == heartbeat_bytes(self),
            final(bytes)@.subrange(14, old(bytes).len() as int) == old(bytes)@.subrange(
                14,
                old(bytes).len() as int,
            ),
    {
        write_u32(bytes, 0, self.latest_solid_milestone_index);
        write_u32(bytes, 4, self.pruned_index);
        write_u32(bytes, 8, self.latest_milestone_index);
        bytes[12] = self.connected_peers;
        bytes[13] = self.synced_peers;
        proof {
            let out = bytes@.subrange(0, 14);
            let want = heartbeat_bytes(self);
            assert(bytes@.subrange(0, 4) =~= be_bytes_u32(self.latest_solid_milestone_index));
            assert(bytes@.subrange(4, 8) =~= be_bytes_u32(self.pruned_index));
            assert(bytes@.subrange(8, 12) =~= be_bytes_u32(self.latest_milestone_index));
            assert forall|i: int| 0 <= i < 14 implies out[i] == want[i] by {
                if i < 4 {
                    assert(out[i] == bytes@.subrange(0, 4)[i]);
                } else if i < 8 {
                    assert(out[i] == bytes@.subrange(4, 8)[i - 4]);
                } else if i < 12 {
                    assert(out[i] == bytes@.subrange(8, 12)[i - 8]);
                }
            }
            assert(out =~= want);
            assert(bytes@.subrange(14, old(bytes).len() as int) =~= old(bytes)@.subrange(
                14,
                old(bytes).len() as int,
            ));
        }
    }
}

/// A heartbeat read back from its own payload is the heartbeat that was written,
/// whatever follows the payload.
pub proof fn lemma_heartbeat_round_trip(message: Heartbeat, rest: Seq<u8>)
    ensures
        heartbeat_bytes(message).len() == 14,
        heartbeat_of(heartbeat_bytes(message) + rest) == message,
{
    let bytes = heartbeat_bytes(message) + rest;
    lemma_be_u32_round_trip(message.latest_solid_milestone_index);
    lemma_be_u32_round_trip(message.pruned_index);
    lemma_be_u32_round_trip(message.latest_milestone_index);
    assert(bytes.subrange(0, 4) =~= be_bytes_u32(message.latest_solid_milestone_index));
    assert(bytes.subrange(4, 8) =~= be_bytes_u32(message.pruned_index));
    assert(bytes.subrange(8, 12) =~= be_bytes_u32(message.latest_milestone_index));
}

} // verus!
