//! The handshake message: the first message on a connection, in both directions.

use vstd::prelude::*;
use crate::protocol::message::codec::{
    append_bytes, be_bytes_u16, be_bytes_u64, be_u16, be_u64, copy_range,
    lemma_be_u16_round_trip, lemma_be_u64_round_trip, read_u16, read_u64,
};
use std::ops::Range;

verus! {

/// Length in bytes of the coordinator's public key as a peer announces it.
pub const COORDINATOR_SIZE: usize = 49;

/// Length in bytes of a handshake without its version bit set.
pub const HANDSHAKE_CONSTANT_SIZE: usize = 60;

/// Least length in bytes of the version bit set.
pub const VERSIONS_MIN_SIZE: usize = 1;

/// Greatest length in bytes of the version bit set.
pub const VERSIONS_MAX_SIZE: usize = 32;

/// What a node says of itself when a connection opens.
#[derive(Debug)]
pub struct Handshake {
    /// The port on which the node accepts connections.
    pub port: u16,
    /// When the message was made, in milliseconds since the epoch.
    pub timestamp: u64,
    /// The coordinator's public key, 49 bytes.
    pub coordinator: Vec<u8>,
    /// The number of trailing zero trits that the node asks of a transaction hash.
    pub minimum_weight_magnitude: u8,
    /// The protocol versions that the node speaks, as a bit set.
    pub supported_versions: Vec<u8>,
}

/// A handshake as plain values.
pub struct HandshakeView {
    pub port: u16,
    pub timestamp: u64,
    pub coordinator: Seq<u8>,
    pub minimum_weight_magnitude: u8,
    pub supported_versions: Seq<u8>,
}

impl View for Handshake {
    type V = HandshakeView;

    open spec fn view(&self) -> HandshakeView {
        HandshakeView {
            port: self.port,
            timestamp: self.timestamp,
            coordinator: self.coordinator@,
            minimum_weight_magnitude: self.minimum_weight_magnitude,
            supported_versions: self.supported_versions@,
        }
    }
}

/// The payload that spells a handshake whose coordinator key is 49 bytes long.
pub open spec fn handshake_bytes(message: HandshakeView) -> Seq<u8> {
    be_bytes_u16(message.port) + be_bytes_u64(message.timestamp) + message.coordinator + seq![
        message.minimum_weight_magnitude,
    ] + message.supported_versions
}

/// The handshake that a payload of 61 bytes or more spells.
pub open spec fn handshake_of(bytes: Seq<u8>) -> HandshakeView
    recommends
        bytes.len() >= 61,
{
    HandshakeView {
        port: be_u16(bytes.subrange(0, 2)) as u16,
        timestamp: be_u64(bytes.subrange(2, 10)) as u64,
        coordinator: bytes.subrange(10, 59),
        minimum_weight_magnitude: bytes[59],
        supported_versions: bytes.subrange(60, bytes.len() as int),
    }
}

/// A handshake read back from its own payload is the handshake that was written.
pub proof fn lemma_handshake_round_trip(message: HandshakeView)
    requires
        message.coordinator.len() == 49,
    ensures
        handshake_bytes(message).len() == 60 + message.supported_versions.len(),
        handshake_of(handshake_bytes(message)) == message,
{
    let bytes = handshake_bytes(message);
    lemma_be_u16_round_trip(message.port);
    lemma_be_u64_round_trip(message.timestamp);
    assert(bytes.subrange(0, 2) =~= be_bytes_u16(message.port));
    assert(bytes.subrange(2, 10) =~= be_bytes_u64(message.timestamp));
    assert(bytes.subrange(10, 59) =~= message.coordinator);
    assert(bytes.subrange(60, bytes.len() as int) =~= message.supported_versions);
}

impl Handshake {
    /// Message type in the frame header.
    pub const ID: u8 = 0x01;

    /// A handshake of this node, made at `timestamp`.
    pub fn new(
        port: u16,
        timestamp: u64,
        coordinator: &Vec<u8>,
        minimum_weight_magnitude: u8,
        supported_versions: &Vec<u8>,
    ) -> (message: Self)
        ensures
            message@ == (HandshakeView {
                port,
                timestamp,
                coordinator: coordinator@,
                minimum_weight_magnitude,
                supported_versions: supported_versions@,
            }),
    {
        Self {
            port,
            timestamp,
            coordinator: copy_range(coordinator, 0, coordinator.len()),
            minimum_weight_magnitude,
            supported_versions: copy_range(supported_versions, 0, supported_versions.len()),
        }
    }

    /// The payload lengths that a handshake may have: 61 to 92 bytes.
    pub fn size_range() -> (range: Range<usize>)
        ensures
            range.start == 61,
            range.end == 93,
    {
        (HANDSHAKE_CONSTANT_SIZE + VERSIONS_MIN_SIZE)..(HANDSHAKE_CONSTANT_SIZE + VERSIONS_MAX_SIZE
            + 1)
    }

    /// Reads a handshake from a payload.
    pub fn from_bytes(bytes: &Vec<u8>) -> (message: Self)
        requires
            bytes.len() >= 61,
        ensures
            message@ == handshake_of(bytes@),
    {
        Self {
            port: read_u16(bytes, 0),
            timestamp: read_u64(bytes, 2),
            coordinator: copy_range(bytes, 10, 59),
            minimum_weight_magnitude: bytes[59],
            supported_versions: copy_range(bytes, 60, bytes.len()),
        }
    }

    /// Length in bytes of the payload.
    pub fn size(&self) -> (size: usize)
        requires
            self.supported_versions.len() <= 32,
        ensures
            size == 60 + self.supported_versions.len(),
    {
        HANDSHAKE_CONSTANT_SIZE + self.supported_versions.len()
    }

    /// The payload.
    pub fn to_bytes(&self) -> (bytes: Vec<u8>)
        ensures
            bytes@ == handshake_bytes(self@),
    {
        let mut bytes: Vec<u8> = Vec::new();
        bytes.push((self.port / 0x100) as u8);
        bytes.push((self.port % 0x100) as u8);
        assert(bytes@ =~= be_bytes_u16(self.port));
        let high: u32 = (self.timestamp / 0x1_0000_0000) as u32;
        let low: u32 = (self.timestamp % 0x1_0000_0000) as u32;
        bytes.push((high / 0x100_0000) as u8);
        bytes.push((high / 0x1_0000 % 0x100) as u8);
        bytes.push((high / 0x100 % 0x100) as u8);
        bytes.push((high % 0x100) as u8);
        bytes.push((low / 0x100_0000) as u8);
        bytes.push((low / 0x1_0000 % 0x100) as u8);
        bytes.push((low / 0x100 % 0x100) as u8);
        bytes.push((low % 0x100) as u8);
        assert(bytes@ =~= be_bytes_u16(self.port) + be_bytes_u64(self.timestamp));
        append_bytes(&mut bytes, &self.coordinator);
        bytes.push(self.minimum_weight_magnitude);
        append_bytes(&mut bytes, &self.supported_versions);
        assert(bytes@ =~= handshake_bytes(self@));
        bytes
    }
}

} // verus!
