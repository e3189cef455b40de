//! The handshake of one connection.
//!
//! A connection starts out awaiting the peer's handshake. A valid handshake
//! from an address that no handshaked peer has makes the peer a full peer;
//! one from an address that a handshaked peer has marks the connection as a
//! duplicate. Messages of any other kind are ignored until then.

use vstd::prelude::*;
use crate::protocol::config::ProtocolConfig;
use crate::protocol::message::codec::bytes_eq;
use crate::protocol::message::handshake::{handshake_of, Handshake, HandshakeView};
use crate::protocol::message::tlv::{check_frame, frame_error, Header, MessageError};
use crate::protocol::message::version::{
    messages_supported_version, shares_a_version, unsupported_version,
};
use crate::protocol::metrics::{counted, ProtocolMetrics};
use crate::protocol::peer::{has_address, HandshakedPeer, Origin, Peer, PeerAddress, PeerManager};

verus! {

/// Why a handshake was refused.
#[derive(Clone, Copy, Debug, PartialEq, Eq, Structural)]
pub enum HandshakeError {
    /// The clocks differ by more than the window allows. Carries the
    /// difference in milliseconds, held to the range of `i64`.
    InvalidTimestampDiff(i64),
    /// The peer follows another coordinator.
    CoordinatorMismatch,
    /// The peer asks for another weight magnitude: own, peer's.
    MwmMismatch(u8, u8),
    /// No protocol version is shared. Carries the peer's highest version.
    UnsupportedVersion(u8),
    /// The peer announces another port than the one dialled: dialled, announced.
    PortMismatch(u16, u16),
    /// A peer with the same address has shaken hands already.
    AlreadyHandshaked,
}

/// Where the handshake of a connection stands.
#[derive(Clone, Copy, Debug, PartialEq, Eq, Structural)]
pub enum HandshakeStatus {
    Awaiting,
    Done,
    Duplicate,
}

/// What a message did to the handshake of a connection.
#[derive(Clone, Copy, Debug, PartialEq, Eq, Structural)]
pub enum HandshakeOutcome {
    /// The peer has shaken hands under this address and is now a full peer:
    /// it is owed a heartbeat and a request for the latest milestone.
    Completed(PeerAddress),
    /// The handshake was read and refused.
    Failed(HandshakeError),
    /// The message claims to be a handshake and cannot be read as one: it
    /// counts as an invalid message.
    Unreadable(MessageError),
    /// The message is no handshake: it counts as an invalid message.
    Ignored,
}

/// The handshake of one connection.
pub struct PeerHandshakerWorker {
    config: ProtocolConfig,
    peer: Peer,
    status: HandshakeStatus,
}

/// The distance between two numbers.
pub open spec fn distance(a: u64, b: u64) -> int {
    if a >= b {
        a - b
    } else {
        b - a
    }
}

/// The address under which a peer is known once it has shaken hands: the
/// dialled address of an outbound peer, and for an inbound peer the address
/// it connected from with the port that it announces.
pub open spec fn resolved_address(peer: Peer, handshake: HandshakeView) -> PeerAddress {
    match peer.origin {
        Origin::Outbound => peer.address,
        Origin::Inbound => PeerAddress { ip: peer.address.ip, port: handshake.port },
    }
}

/// Why a handshake is refused, if it is. The checks are made in this order:
/// the clocks, the coordinator, the weight magnitude, the versions, the port
/// of an outbound peer, and that the address is not handshaked yet.
pub open spec fn handshake_error(
    mwm: u8,
    handshake_window: u64,
    coordinator: Seq<u8>,
    peer: Peer,
    handshake: HandshakeView,
    now: u64,
    handshaked: Map<u64, HandshakedPeer>,
) -> Option<HandshakeError> {
    if distance(now, handshake.timestamp) > handshake_window * 1000 {
        Some(
            HandshakeError::InvalidTimestampDiff(
                if distance(now, handshake.timestamp) > i64::MAX {
                    i64::MAX
                } else {
                    distance(now, handshake.timestamp) as i64
                },
            ),
        )
    } else if coordinator != handshake.coordinator {
        Some(HandshakeError::CoordinatorMismatch)
    } else if mwm != handshake.minimum_weight_magnitude {
        Some(HandshakeError::MwmMismatch(mwm, handshake.minimum_weight_magnitude))
    } else if !shares_a_version(handshake.supported_versions) {
        Some(HandshakeError::UnsupportedVersion(unsupported_version(handshake.supported_versions)))
    } else if peer.origin == Origin::Outbound && peer.address.port != handshake.port {
        Some(HandshakeError::PortMismatch(peer.address.port, handshake.port))
    } else if has_address(handshaked, resolved_address(peer, handshake)) {
        Some(HandshakeError::AlreadyHandshaked)
    } else {
        None
    }
}

impl PeerHandshakerWorker {
    /// Where the handshake stands.
    pub closed spec fn spec_status(&self) -> HandshakeStatus {
        self.status
    }

    /// The peer on the other end.
    pub closed spec fn spec_peer(&self) -> Peer {
        self.peer
    }

    /// The weight magnitude that this node asks for.
    pub closed spec fn spec_mwm(&self) -> u8 {
        self.config.mwm
    }

    /// The handshake window, in seconds.
    pub closed spec fn spec_window(&self) -> u64 {
        self.config.handshake_window
    }

    /// The coordinator that this node follows.
    pub closed spec fn spec_coordinator(&self) -> Seq<u8> {
        self.config.coordinator.public_key_bytes@
    }

    /// Why this connection refuses `handshake` at time `now`, if it does.
    pub open spec fn refusal(
        &self,
        handshake: HandshakeView,
        now: u64,
        handshaked: Map<u64, HandshakedPeer>,
    ) -> Option<HandshakeError> {
        handshake_error(
            self.spec_mwm(),
            self.spec_window(),
            self.spec_coordinator(),
            self.spec_peer(),
            handshake,
            now,
            handshaked,
        )
    }

    /// The handshake of a new connection: it awaits the peer's message.
    pub fn new(config: ProtocolConfig, peer: Peer) -> (worker: Self)
        ensures
            worker.spec_status() == HandshakeStatus::Awaiting,
            worker.spec_peer() == peer,
            worker.spec_mwm() == config.mwm,
            worker.spec_window() == config.handshake_window,
            worker.spec_coordinator() == config.coordinator.public_key_bytes@,
    {
        Self { config, peer, status: HandshakeStatus::Awaiting }
    }

    /// Where the handshake stands.
    pub fn status(&self) -> (status: HandshakeStatus)
        ensures
            status == self.spec_status(),
    {
        self.status
    }

    /// Whether the connection is done with handshakes: the peer is a full
    /// peer, or the connection is a duplicate and will be closed.
    pub fn is_finished(&self) -> (finished: bool)
        ensures
            finished == (self.spec_status() != HandshakeStatus::Awaiting),
    {
        match self.status {
            HandshakeStatus::Awaiting => false,
            _ => true,
        }
    }

    /// What is to be done with the connection as its handshake stands: a
    /// peer that has shaken hands is served, a duplicate is closed and
    /// never served, and a connection that still awaits its handshake
    /// goes on awaiting it.
    pub fn conclusion(&self) -> (conclusion: HandshakeConclusion)
        ensures
            conclusion == (match self.spec_status() {
                HandshakeStatus::Awaiting => HandshakeConclusion::Await,
                HandshakeStatus::Done => HandshakeConclusion::Serve,
                HandshakeStatus::Duplicate => HandshakeConclusion::Close,
            }),
    {
        match self.status {
            HandshakeStatus::Awaiting => HandshakeConclusion::Await,
            HandshakeStatus::Done => HandshakeConclusion::Serve,
            HandshakeStatus::Duplicate => HandshakeConclusion::Close,
        }
    }

    /// Checks a handshake that arrived at `now` (milliseconds since the
    /// epoch) against the configuration and the peers that have shaken
    /// hands. Returns the address under which the peer is to be known. A
    /// handshake from an address that is handshaked already marks this
    /// connection as a duplicate.
    pub fn validate_handshake(&mut self, handshake: &Handshake, now: u64, manager: &PeerManager) -> (res:
        Result<PeerAddress, HandshakeError>)
        ensures
            res.is_err() == old(self).refusal(handshake@, now, manager.peers()).is_some(),
            res.is_err() ==> res.unwrap_err() == old(self).refusal(
                handshake@,
                now,
                manager.peers(),
            ).unwrap(),
            res.is_ok() ==> res.unwrap() == resolved_address(old(self).spec_peer(), handshake@),
            final(self).spec_peer() == old(self).spec_peer(),
            final(self).spec_mwm() == old(self).spec_mwm(),
            final(self).spec_window() == old(self).spec_window(),
            final(self).spec_coordinator() == old(self).spec_coordinator(),
            final(self).spec_status() == (if res == Err::<PeerAddress, HandshakeError>(
                HandshakeError::AlreadyHandshaked,
            ) {
                HandshakeStatus::Duplicate
            } else {
                old(self).spec_status()
            }),
    {
        let diff: u64 = if now >= handshake.timestamp {
            now - handshake.timestamp
        } else {
            handshake.timestamp - now
        };
        if diff as u128 > self.config.handshake_window as u128 * 1000 {
            let reported: i64 = if diff > 0x7fff_ffff_ffff_ffff {
                0x7fff_ffff_ffff_ffff
            } else {
                diff as i64
            };
            return Err(HandshakeError::InvalidTimestampDiff(reported));
        }
        if !bytes_eq(&self.config.coordinator.public_key_bytes, &handshake.coordinator) {
            return Err(HandshakeError::CoordinatorMismatch);
        }
        if self.config.mwm != handshake.minimum_weight_magnitude {
            return Err(
                HandshakeError::MwmMismatch(self.config.mwm, handshake.minimum_weight_magnitude),
            );
        }
        match messages_supported_version(&handshake.supported_versions) {
            Ok(_) => {},
            Err(version) => {
                return Err(HandshakeError::UnsupportedVersion(version));
            },
        }
        let address: PeerAddress = match self.peer.origin {
            Origin::Outbound => {
                if self.peer.address.port != handshake.port {
                    return Err(
                        HandshakeError::PortMismatch(self.peer.address.port, handshake.port),
                    );
                }
                self.peer.address
            },
            Origin::Inbound => PeerAddress { ip: self.peer.address.ip, port: handshake.port },
        };
        if manager.is_handshaked(address) {
            self.status = HandshakeStatus::Duplicate;
            return Err(HandshakeError::AlreadyHandshaked);
        }
        Ok(address)
    }

    /// Takes one message of a connection that awaits its handshake.
    ///
    /// A message of another type than a handshake is ignored. A handshake
    /// whose frame is wrong is unreadable. A handshake that is refused
    /// leaves the registry as it was. A handshake that is accepted adds the
    /// peer to the registry and ends the handshake.
    pub fn process_message(
        &mut self,
        header: &Header,
        bytes: &Vec<u8>,
        now: u64,
        manager: &mut PeerManager,
    ) -> (outcome: HandshakeOutcome)
        requires
            old(manager).wf(),
        ensures
            final(manager).wf(),
            final(self).spec_peer() == old(self).spec_peer(),
            final(self).spec_mwm() == old(self).spec_mwm(),
            final(self).spec_window() == old(self).spec_window(),
            final(self).spec_coordinator() == old(self).spec_coordinator(),
            outcome == old(self).outcome_of(*header, bytes@, now, old(manager).peers()),
            final(self).spec_status() == (match outcome {
                HandshakeOutcome::Completed(_) => HandshakeStatus::Done,
                HandshakeOutcome::Failed(HandshakeError::AlreadyHandshaked) => HandshakeStatus::Duplicate,
                _ => old(self).spec_status(),
            }),
            final(manager).peers() == (match outcome {
                HandshakeOutcome::Completed(address) => old(manager).peers().insert(
                    old(self).spec_peer().epid.0,
                    HandshakedPeer {
                        epid: old(self).spec_peer().epid,
                        address,
                        origin: old(self).spec_peer().origin,
                        latest_solid_milestone_index: 0,
                        pruned_index: 0,
                        latest_milestone_index: 0,
                    },
                ),
                _ => old(manager).peers(),
            }),
    {
        if header.message_type != Handshake::ID {
            return HandshakeOutcome::Ignored;
        }
        match check_frame(header, bytes.len(), Handshake::ID, 61, 93) {
            Ok(()) => {},
            Err(e) => {
                return HandshakeOutcome::Unreadable(e);
            },
        }
        let handshake = Handshake::from_bytes(bytes);
        match self.validate_handshake(&handshake, now, manager) {
            Ok(address) => {
                let added = manager.handshake(self.peer, address);
                assert(added);
                self.status = HandshakeStatus::Done;
                HandshakeOutcome::Completed(address)
            },
            Err(e) => HandshakeOutcome::Failed(e),
        }
    }

    /// What a message does to the handshake of this connection.
    pub open spec fn outcome_of(
        &self,
        header: Header,
        bytes: Seq<u8>,
        now: u64,
        handshaked: Map<u64, HandshakedPeer>,
    ) -> HandshakeOutcome {
        if header.message_type != 0x01 {
            HandshakeOutcome::Ignored
        } else if frame_error(header, bytes.len() as int, 0x01, 61, 93).is_some() {
            HandshakeOutcome::Unreadable(
                frame_error(header, bytes.len() as int, 0x01, 61, 93).unwrap(),
            )
        } else if self.refusal(handshake_of(bytes), now, handshaked).is_some() {
            HandshakeOutcome::Failed(self.refusal(handshake_of(bytes), now, handshaked).unwrap())
        } else {
            HandshakeOutcome::Completed(resolved_address(self.spec_peer(), handshake_of(bytes)))
        }
    }
}

/// The counters once a message to a connection that awaits its handshake
/// has been counted: a handshake that cannot be read and a message that
/// is no handshake count as invalid messages, and nothing else counts.
pub open spec fn counted_outcome(metrics: ProtocolMetrics, outcome: HandshakeOutcome) -> ProtocolMetrics {
    match outcome {
        HandshakeOutcome::Unreadable(_) => ProtocolMetrics {
            invalid_messages: counted(metrics.invalid_messages),
            ..metrics
        },
        HandshakeOutcome::Ignored => ProtocolMetrics {
            invalid_messages: counted(metrics.invalid_messages),
            ..metrics
        },
        _ => metrics,
    }
}

/// Counts what a message did to the handshake of a connection.
pub fn count_outcome(metrics: &mut ProtocolMetrics, outcome: HandshakeOutcome)
    ensures
        *final(metrics) == counted_outcome(*old(metrics), outcome),
{
    match outcome {
        HandshakeOutcome::Unreadable(_) => metrics.invalid_messages_inc(),
        HandshakeOutcome::Ignored => metrics.invalid_messages_inc(),
        _ => {},
    }
}

/// What is to be done with a connection once its handshake is over.
#[derive(Clone, Copy, Debug, PartialEq, Eq, Structural)]
pub enum HandshakeConclusion {
    /// The handshake is not over: the connection goes on awaiting it.
    Await,
    /// The peer has shaken hands: its messages are taken from now on.
    Serve,
    /// The connection is a duplicate of one that has shaken hands: it is
    /// closed, and its messages are never taken.
    Close,
}

/// Of two connections that resolve to the same address, at most one shakes
/// hands: once the first has been taken in, the handshake of the second is
/// refused, whatever else it says.
pub proof fn lemma_second_handshake_refused(
    mwm: u8,
    handshake_window: u64,
    coordinator: Seq<u8>,
    first: HandshakedPeer,
    second: Peer,
    handshake: HandshakeView,
    now: u64,
    handshaked: Map<u64, HandshakedPeer>,
)
    requires
        resolved_address(second, handshake) == first.address,
    ensures
        handshake_error(
            mwm,
            handshake_window,
            coordinator,
            second,
            handshake,
            now,
            handshaked.insert(first.epid.0, first),
        ).is_some(),
{
    let after = handshaked.insert(first.epid.0, first);
    assert(after.dom().contains(first.epid.0) && after[first.epid.0].address == first.address);
    assert(has_address(after, first.address));
}

} // verus!
