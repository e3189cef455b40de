//! The worker of a handshaked peer: what becomes of each message that the
//! peer sends.
//!
//! A request goes to the responder of its kind, a transaction to the
//! hasher, and a heartbeat is recorded with the peer. A milestone response
//! carries a transaction and is taken in like one. A message that cannot
//! be read as what its header says, or whose type is unknown, is counted
//! as invalid and dropped; the peer is kept.

use vstd::prelude::*;
use crate::protocol::message::codec::{be_u32, copy_range};
use crate::protocol::message::heartbeat::{heartbeat_of, Heartbeat};
use crate::protocol::message::milestone_request::MilestoneRequest;
use crate::protocol::message::tlv::{check_frame, frame_error, Header, MessageError};
use crate::protocol::message::transaction::TransactionMessage;
use crate::protocol::message::transaction_request::TransactionRequest;
use crate::protocol::metrics::{counted, ProtocolMetrics};
use crate::protocol::peer::{peer_of, EndpointId, HandshakedPeer, PeerManager};
use crate::protocol::worker::hasher::HasherWorkerEvent;

verus! {

/// Message type of a milestone response, which older peers send in answer
/// to a milestone request: its payload is a compressed transaction.
pub const MILESTONE_RESPONSE_ID: u8 = 0x02;

/// What a message of a handshaked peer led to.
#[derive(Debug)]
pub enum PeerMessage {
    /// The peer asks for a milestone: the milestone responder answers.
    MilestoneRequest(EndpointId, MilestoneRequest),
    /// The peer sent a transaction: the hasher takes it.
    Transaction(HasherWorkerEvent),
    /// The peer asks for a transaction: the transaction responder answers.
    TransactionRequest(EndpointId, TransactionRequest),
    /// The peer sent a heartbeat, which was recorded.
    Heartbeat(Heartbeat),
    /// The message cannot be read as what its header says.
    Unreadable(MessageError),
    /// The type of the message is unknown.
    Unknown(u8),
}

/// The payload lengths that a message of this type may have, from the
/// first up to and without the second; none for a type that a handshaked
/// peer is not to send.
pub open spec fn payload_range(message_type: u8) -> Option<(int, int)> {
    if message_type == 0x03 {
        Some((4, 5))
    } else if message_type == 0x02 || message_type == 0x04 {
        Some((292, 1605))
    } else if message_type == 0x05 {
        Some((49, 50))
    } else if message_type == 0x06 {
        Some((14, 15))
    } else {
        None
    }
}

/// Why a message cannot be read as what its header says, if it cannot.
pub open spec fn unreadable(header: Header, payload_len: int) -> Option<MessageError> {
    match payload_range(header.message_type) {
        Some(range) => frame_error(header, payload_len, header.message_type, range.0, range.1),
        None => None,
    }
}

/// The peers once the peer at `epid` has said `heartbeat`: its watermarks
/// are those of the heartbeat, and the other peers are as they were. A
/// heartbeat from an endpoint that has not shaken hands changes nothing.
pub open spec fn with_heartbeat(
    peers: Map<u64, HandshakedPeer>,
    epid: EndpointId,
    heartbeat: Heartbeat,
) -> Map<u64, HandshakedPeer> {
    match peer_of(peers, epid.0) {
        Some(peer) => peers.insert(
            epid.0,
            HandshakedPeer {
                latest_solid_milestone_index: heartbeat.latest_solid_milestone_index,
                pruned_index: heartbeat.pruned_index,
                latest_milestone_index: heartbeat.latest_milestone_index,
                ..peer
            },
        ),
        None => peers,
    }
}

/// The worker of one handshaked peer.
pub struct PeerWorker {
    epid: EndpointId,
}

impl PeerWorker {
    /// The endpoint of the peer.
    pub closed spec fn epid(&self) -> EndpointId {
        self.epid
    }

    /// The worker of the peer at `epid`.
    pub fn new(epid: EndpointId) -> (worker: Self)
        ensures
            worker.epid() == epid,
    {
        Self { epid }
    }

    /// Takes one message of the peer.
    ///
    /// A message of unknown type, or one that cannot be read as what its
    /// header says, counts as an invalid message and changes nothing
    /// else. Any other message leaves the counters as they are; a
    /// heartbeat is recorded with the peer, and nothing else changes the
    /// peers.
    pub fn process_message(
        &self,
        header: &Header,
        bytes: &Vec<u8>,
        manager: &mut PeerManager,
        metrics: &mut ProtocolMetrics,
    ) -> (res: PeerMessage)
        requires
            old(manager).wf(),
        ensures
            final(manager).wf(),
            match payload_range(header.message_type) {
                None => res matches PeerMessage::Unknown(t) && t == header.message_type,
                Some(_) => match unreadable(*header, bytes@.len() as int) {
                    Some(e) => res matches PeerMessage::Unreadable(f) && f == e,
                    None => if header.message_type == 0x03 {
                        res matches PeerMessage::MilestoneRequest(from, request) && from
                            == self.epid() && request.index == be_u32(bytes@)
                    } else if header.message_type == 0x05 {
                        res matches PeerMessage::TransactionRequest(from, request) && from
                            == self.epid() && request.hash@ == bytes@
                    } else if header.message_type == 0x06 {
                        res matches PeerMessage::Heartbeat(heartbeat) && heartbeat == heartbeat_of(
                            bytes@,
                        )
                    } else {
                        res matches PeerMessage::Transaction(event) && event.from == self.epid()
                            && event.transaction_message.bytes@ == bytes@
                    },
                },
            },
            *final(metrics) == (if res is Unknown || res is Unreadable {
                ProtocolMetrics {
                    invalid_messages: counted(old(metrics).invalid_messages),
                    ..*old(metrics)
                }
            } else {
                *old(metrics)
            }),
            final(manager).peers() == (match res {
                PeerMessage::Heartbeat(heartbeat) => with_heartbeat(
                    old(manager).peers(),
                    self.epid(),
                    heartbeat,
                ),
                _ => old(manager).peers(),
            }),
    {
        let message_type: u8 = header.message_type;
        let (min, max): (usize, usize) = if message_type == MilestoneRequest::ID {
            (4, 5)
        } else if message_type == MILESTONE_RESPONSE_ID || message_type == TransactionMessage::ID {
            (292, 1605)
        } else if message_type == TransactionRequest::ID {
            (49, 50)
        } else if message_type == Heartbeat::ID {
            (14, 15)
        } else {
            metrics.invalid_messages_inc();
            return PeerMessage::Unknown(message_type);
        };
        match check_frame(header, bytes.len(), message_type, min, max) {
            Ok(()) => {},
            Err(e) => {
                metrics.invalid_messages_inc();
                return PeerMessage::Unreadable(e);
            },
        }
        if message_type == MilestoneRequest::ID {
            assert(bytes@.subrange(0, 4) =~= bytes@);
            PeerMessage::MilestoneRequest(self.epid, MilestoneRequest::from_bytes(bytes))
        } else if message_type == TransactionRequest::ID {
            assert(bytes@.subrange(0, 49) =~= bytes@);
            PeerMessage::TransactionRequest(self.epid, TransactionRequest::from_bytes(bytes))
        } else if message_type == Heartbeat::ID {
            let heartbeat = Heartbeat::from_bytes(bytes);
            manager.update_heartbeat(
                self.epid,
                heartbeat.latest_solid_milestone_index,
                heartbeat.pruned_index,
                heartbeat.latest_milestone_index,
            );
            PeerMessage::Heartbeat(heartbeat)
        } else {
            PeerMessage::Transaction(
                HasherWorkerEvent {
                    from: self.epid,
                    transaction_message: TransactionMessage::new(copy_range(bytes, 0, bytes.len())),
                },
            )
        }
    }
}

} // verus!
