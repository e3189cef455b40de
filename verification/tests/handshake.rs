use bee::protocol::config::{ProtocolConfig, ProtocolConfigBuilder};
use bee::protocol::message::handshake::Handshake;
use bee::protocol::message::heartbeat::Heartbeat;
use bee::protocol::message::tlv::{Header, MessageError};
use bee::protocol::peer::{
    select_peer, EndpointId, Origin, Peer, PeerAddress, PeerManager,
};
use bee::protocol::metrics::{tps, ProtocolMetrics, Tps};
use bee::protocol::worker::broadcaster::broadcast_targets;
use bee::protocol::worker::handshaker::{
    count_outcome, HandshakeConclusion, HandshakeError, HandshakeOutcome, HandshakeStatus,
    PeerHandshakerWorker,
};
use bee::protocol::worker::kickstart::{planned_requests, KickstartPlan, KickstartWorker};
use bee::protocol::worker::peer::{PeerMessage, PeerWorker};

const NOW: u64 = 1_600_000_000_000;

fn config() -> ProtocolConfig {
    ProtocolConfigBuilder::new()
        .mwm(14)
        .handshake_window(10)
        .coordinator_public_key_bytes(vec![7u8; 49])
        .build()
}

fn peer(epid: u64, ip: u128, port: u16, origin: Origin) -> Peer {
    Peer { epid: EndpointId(epid), address: PeerAddress { ip, port }, origin }
}

fn handshake(port: u16, timestamp: u64) -> Handshake {
    Handshake::new(port, timestamp, &vec![7u8; 49], 14, &vec![2])
}

fn framed(handshake: &Handshake) -> (Header, Vec<u8>) {
    let bytes = handshake.to_bytes();
    (Header { message_type: 1, message_length: bytes.len() as u16 }, bytes)
}

#[test]
fn handshake_is_validated_in_order() {
    let manager = PeerManager::new();
    let mut worker = PeerHandshakerWorker::new(config(), peer(1, 10, 15600, Origin::Outbound));

    assert_eq!(
        worker.validate_handshake(&handshake(15600, NOW - 10_001), NOW, &manager),
        Err(HandshakeError::InvalidTimestampDiff(10_001))
    );
    assert_eq!(
        worker.validate_handshake(&handshake(15600, NOW + 10_001), NOW, &manager),
        Err(HandshakeError::InvalidTimestampDiff(10_001))
    );
    assert_eq!(
        worker.validate_handshake(&handshake(15600, NOW + 10_000), NOW, &manager),
        Ok(PeerAddress { ip: 10, port: 15600 })
    );
    let other_coordinator = Handshake::new(1, NOW, &vec![8u8; 49], 9, &vec![1]);
    assert_eq!(
        worker.validate_handshake(&other_coordinator, NOW, &manager),
        Err(HandshakeError::CoordinatorMismatch)
    );
    let other_mwm = Handshake::new(1, NOW, &vec![7u8; 49], 9, &vec![1]);
    assert_eq!(
        worker.validate_handshake(&other_mwm, NOW, &manager),
        Err(HandshakeError::MwmMismatch(14, 9))
    );
    let other_version = Handshake::new(1, NOW, &vec![7u8; 49], 14, &vec![0b101]);
    assert_eq!(
        worker.validate_handshake(&other_version, NOW, &manager),
        Err(HandshakeError::UnsupportedVersion(3))
    );
    assert_eq!(
        worker.validate_handshake(&handshake(1, NOW), NOW, &manager),
        Err(HandshakeError::PortMismatch(15600, 1))
    );
    assert_eq!(worker.status(), HandshakeStatus::Awaiting);
    assert!(!worker.is_finished());
}

#[test]
fn inbound_peer_is_known_by_its_announced_port() {
    let manager = PeerManager::new();
    let mut worker = PeerHandshakerWorker::new(config(), peer(1, 10, 50123, Origin::Inbound));
    assert_eq!(
        worker.validate_handshake(&handshake(15600, NOW), NOW, &manager),
        Ok(PeerAddress { ip: 10, port: 15600 })
    );
}

#[test]
fn duplicate_peer_is_closed_as_already_handshaked() {
    let mut manager = PeerManager::new();
    let mut first = PeerHandshakerWorker::new(config(), peer(1, 10, 50001, Origin::Inbound));
    let mut second = PeerHandshakerWorker::new(config(), peer(2, 10, 50002, Origin::Inbound));
    let (header, bytes) = framed(&handshake(15600, NOW));

    assert_eq!(
        first.process_message(&header, &bytes, NOW, &mut manager),
        HandshakeOutcome::Completed(PeerAddress { ip: 10, port: 15600 })
    );
    assert_eq!(first.status(), HandshakeStatus::Done);
    assert_eq!(first.conclusion(), HandshakeConclusion::Serve);
    assert!(first.is_finished());
    assert_eq!(manager.len(), 1);

    assert_eq!(
        second.process_message(&header, &bytes, NOW, &mut manager),
        HandshakeOutcome::Failed(HandshakeError::AlreadyHandshaked)
    );
    assert_eq!(second.status(), HandshakeStatus::Duplicate);
    assert_eq!(second.conclusion(), HandshakeConclusion::Close);
    assert!(second.is_finished());
    assert_eq!(manager.len(), 1);
    assert_eq!(manager.get(EndpointId(1)).unwrap().epid, EndpointId(1));
    assert!(manager.get(EndpointId(2)).is_none());
}

#[test]
fn other_messages_are_ignored_until_handshaked() {
    let mut manager = PeerManager::new();
    let mut worker = PeerHandshakerWorker::new(config(), peer(1, 10, 50001, Origin::Inbound));
    let header = Header { message_type: 6, message_length: 14 };
    assert_eq!(
        worker.process_message(&header, &vec![0u8; 14], NOW, &mut manager),
        HandshakeOutcome::Ignored
    );
    let header = Header { message_type: 1, message_length: 60 };
    assert_eq!(
        worker.process_message(&header, &vec![0u8; 60], NOW, &mut manager),
        HandshakeOutcome::Unreadable(MessageError::InvalidAdvertisedLength(60))
    );
    let header = Header { message_type: 1, message_length: 61 };
    assert_eq!(
        worker.process_message(&header, &vec![0u8; 62], NOW, &mut manager),
        HandshakeOutcome::Unreadable(MessageError::InvalidLength(61, 62))
    );
    assert_eq!(worker.status(), HandshakeStatus::Awaiting);
    assert_eq!(manager.len(), 0);
}

#[test]
fn peer_manager_keeps_one_peer_per_address() {
    let mut manager = PeerManager::new();
    let address = PeerAddress { ip: 1, port: 2 };
    assert!(manager.handshake(peer(1, 1, 9, Origin::Inbound), address));
    assert!(!manager.handshake(peer(2, 1, 8, Origin::Inbound), address));
    assert!(manager.handshake(peer(3, 1, 7, Origin::Inbound), PeerAddress { ip: 1, port: 3 }));
    assert!(manager.is_handshaked(address));
    assert_eq!(manager.len(), 2);
    assert!(manager.remove(EndpointId(1)));
    assert!(!manager.remove(EndpointId(1)));
    assert!(!manager.is_handshaked(address));
    assert_eq!(manager.len(), 1);
    assert!(manager.get(EndpointId(1)).is_none());
    assert!(manager.get(EndpointId(3)).is_some());
}

#[test]
fn request_is_routed_to_the_peer_whose_heartbeat_covers_it() {
    let mut manager = PeerManager::new();
    assert_eq!(select_peer(&manager.list(), 120), None);
    manager.handshake(peer(2, 2, 1, Origin::Outbound), PeerAddress { ip: 2, port: 1 });
    manager.handshake(peer(1, 1, 1, Origin::Outbound), PeerAddress { ip: 1, port: 1 });
    manager.update_heartbeat(EndpointId(2), 300, 150, 300);
    manager.update_heartbeat(EndpointId(1), 200, 50, 200);
    let peers = manager.list();
    assert_eq!(peers.len(), 2);
    let chosen = select_peer(&peers, 120).unwrap();
    assert_eq!(peers[chosen].epid, EndpointId(1));
    let chosen = select_peer(&peers, 250).unwrap();
    assert_eq!(peers[chosen].epid, EndpointId(2));
    // Both cover the index: the first of the list is taken.
    let chosen = select_peer(&peers, 175).unwrap();
    assert!(peers[chosen].has_data(175));
    assert!(peers[..chosen].iter().all(|peer| !peer.has_data(175)));
    // Nobody covers the index: any peer will do, and the first is taken.
    assert_eq!(select_peer(&peers, 10), Some(0));
    let first = manager.get(EndpointId(1)).unwrap();
    assert!(first.has_data(50));
    assert!(first.has_data(200));
    assert!(!first.has_data(201));
    assert!(!first.has_data(49));
    // In a list the order is the list's.
    let listed = vec![manager.get(EndpointId(2)).unwrap(), first];
    assert_eq!(select_peer(&listed, 175), Some(0));
    assert_eq!(select_peer(&listed, 120), Some(1));
}

#[test]
fn broadcast_leaves_out_the_origin() {
    let mut manager = PeerManager::new();
    for i in 1..=3u64 {
        manager.handshake(
            peer(i, i as u128, 1, Origin::Outbound),
            PeerAddress { ip: i as u128, port: 1 },
        );
    }
    let mut peers = manager.list();
    peers.sort_by_key(|peer| peer.epid.0);
    assert_eq!(
        broadcast_targets(&peers, Some(EndpointId(2))),
        vec![EndpointId(1), EndpointId(3)]
    );
    assert_eq!(
        broadcast_targets(&peers, None),
        vec![EndpointId(1), EndpointId(2), EndpointId(3)]
    );
    assert_eq!(
        broadcast_targets(&peers, Some(EndpointId(9))),
        vec![EndpointId(1), EndpointId(2), EndpointId(3)]
    );
}

#[test]
fn metrics_count_and_stay_full() {
    let mut metrics = ProtocolMetrics::new();
    metrics.invalid_transactions_inc();
    metrics.invalid_transactions_inc();
    metrics.known_transactions_inc();
    metrics.new_transactions_inc();
    metrics.invalid_messages_inc();
    metrics.transaction_requests_missed_inc();
    metrics.milestone_requests_missed_inc();
    assert_eq!(metrics.invalid_transactions, 2);
    assert_eq!(metrics.known_transactions, 1);
    assert_eq!(metrics.new_transactions, 1);
    assert_eq!(metrics.invalid_messages, 1);
    assert_eq!(metrics.transaction_requests_missed, 1);
    assert_eq!(metrics.milestone_requests_missed, 1);
    metrics.invalid_messages = u64::MAX;
    metrics.invalid_messages_inc();
    assert_eq!(metrics.invalid_messages, u64::MAX);
}

#[test]
fn kickstart_asks_for_the_first_batch_once() {
    let mut worker = KickstartWorker::new();
    assert_eq!(worker.run(0, 100, 110), None);
    assert_eq!(worker.run(1, 100, 105), None);
    assert_eq!(worker.run(1, 100, 100), None);
    assert_eq!(worker.run(1, 110, 100), None);
    let plan = worker.run(1, 100, 110).unwrap();
    assert_eq!(plan, KickstartPlan { next_milestone: 101, first_request: 101, end_request: 106 });
    assert_eq!(planned_requests(&plan), vec![101, 102, 103, 104, 105]);
    assert_eq!(worker.run(1, 100, 110), None);

    let mut worker = KickstartWorker::new();
    assert!(worker.run(3, 100, 106).is_some());
}

#[test]
fn protocol_config_defaults() {
    let config = ProtocolConfigBuilder::new().build();
    assert_eq!(config.mwm, 14);
    assert_eq!(config.handshake_window, 1);
    assert_eq!(config.coordinator.public_key_bytes, vec![0u8; 49]);
    assert_eq!(config.workers.transaction_worker_cache, 10000);
    assert_eq!(config.workers.ms_sync_count, 5);
    assert_eq!(config.workers.status_interval, 10);
    assert_eq!(config.workers.heartbeat_send_worker_bound, 1000);
    let config = ProtocolConfigBuilder::new()
        .worker_bound(3)
        .ms_sync_count(7)
        .status_interval(2)
        .transaction_worker_cache(11)
        .coordinator_sponge_type(bee::crypto::sponge::SpongeType::CurlP81)
        .build();
    assert_eq!(config.workers.broadcaster_worker_bound, 3);
    assert_eq!(config.workers.ms_sync_count, 7);
    assert_eq!(config.workers.status_interval, 2);
    assert_eq!(config.workers.transaction_worker_cache, 11);
    assert_eq!(config.coordinator.sponge_type, bee::crypto::sponge::SpongeType::CurlP81);
}

#[test]
fn rates_are_the_differences_of_the_counters() {
    let mut before = ProtocolMetrics::new();
    before.new_transactions = 10;
    before.known_transactions = 4;
    before.invalid_transactions = 9;
    let mut now = before;
    now.new_transactions = 17;
    now.known_transactions = 4;
    now.invalid_transactions = 8;
    assert_eq!(tps(&before, &now), Tps { incoming: 7, new: 7, known: 0, invalid: 0 });
    now.known_transactions = u64::MAX;
    now.new_transactions = u64::MAX;
    assert_eq!(tps(&before, &now).incoming, u64::MAX);
}

#[test]
fn messages_of_a_peer_go_where_they_belong() {
    let mut manager = PeerManager::new();
    let mut metrics = ProtocolMetrics::new();
    assert!(manager.handshake(peer(1, 10, 50001, Origin::Inbound), PeerAddress { ip: 10, port: 1 }));
    assert!(manager.handshake(peer(2, 11, 50002, Origin::Inbound), PeerAddress { ip: 11, port: 1 }));
    let worker = PeerWorker::new(EndpointId(2));

    let header = Header { message_type: 3, message_length: 4 };
    match worker.process_message(&header, &vec![0, 0, 1, 2], &mut manager, &mut metrics) {
        PeerMessage::MilestoneRequest(from, request) => {
            assert_eq!(from, EndpointId(2));
            assert_eq!(request.index, 258);
        }
        other => panic!("{:?}", other),
    }

    let mut hash = vec![0u8; 49];
    hash[48] = 7;
    let header = Header { message_type: 5, message_length: 49 };
    match worker.process_message(&header, &hash, &mut manager, &mut metrics) {
        PeerMessage::TransactionRequest(from, request) => {
            assert_eq!(from, EndpointId(2));
            assert_eq!(request.hash, hash);
        }
        other => panic!("{:?}", other),
    }

    for message_type in [2u8, 4u8] {
        let mut bytes = vec![0u8; 300];
        bytes[0] = 9;
        let header = Header { message_type, message_length: 300 };
        match worker.process_message(&header, &bytes, &mut manager, &mut metrics) {
            PeerMessage::Transaction(event) => {
                assert_eq!(event.from, EndpointId(2));
                assert_eq!(event.transaction_message.bytes, bytes);
            }
            other => panic!("{:?}", other),
        }
    }
    assert_eq!(metrics, ProtocolMetrics::new());
    assert_eq!(manager.get(EndpointId(2)).unwrap().latest_milestone_index, 0);

    let header = Header { message_type: 6, message_length: 14 };
    let bytes = vec![0, 0, 0, 200, 0, 0, 0, 50, 0, 0, 1, 0, 8, 4];
    match worker.process_message(&header, &bytes, &mut manager, &mut metrics) {
        PeerMessage::Heartbeat(heartbeat) => assert_eq!(heartbeat, Heartbeat::new(200, 50, 256, 8, 4)),
        other => panic!("{:?}", other),
    }
    let told = manager.get(EndpointId(2)).unwrap();
    assert_eq!(told.epid, EndpointId(2));
    assert_eq!(
        (told.latest_solid_milestone_index, told.pruned_index, told.latest_milestone_index),
        (200, 50, 256)
    );
    let other = manager.get(EndpointId(1)).unwrap();
    assert_eq!(
        (other.latest_solid_milestone_index, other.pruned_index, other.latest_milestone_index),
        (0, 0, 0)
    );
    assert_eq!(metrics, ProtocolMetrics::new());
}

#[test]
fn messages_that_cannot_be_read_are_counted_and_the_peer_is_kept() {
    let mut manager = PeerManager::new();
    let mut metrics = ProtocolMetrics::new();
    assert!(manager.handshake(peer(1, 10, 50001, Origin::Inbound), PeerAddress { ip: 10, port: 1 }));
    let worker = PeerWorker::new(EndpointId(1));

    let header = Header { message_type: 7, message_length: 4 };
    assert!(matches!(
        worker.process_message(&header, &vec![0u8; 4], &mut manager, &mut metrics),
        PeerMessage::Unknown(7)
    ));
    let header = Header { message_type: 1, message_length: 61 };
    assert!(matches!(
        worker.process_message(&header, &vec![0u8; 61], &mut manager, &mut metrics),
        PeerMessage::Unknown(1)
    ));
    let header = Header { message_type: 6, message_length: 13 };
    assert!(matches!(
        worker.process_message(&header, &vec![0u8; 13], &mut manager, &mut metrics),
        PeerMessage::Unreadable(MessageError::InvalidAdvertisedLength(13))
    ));
    let header = Header { message_type: 3, message_length: 4 };
    assert!(matches!(
        worker.process_message(&header, &vec![0u8; 5], &mut manager, &mut metrics),
        PeerMessage::Unreadable(MessageError::InvalidLength(4, 5))
    ));
    let header = Header { message_type: 4, message_length: 291 };
    assert!(matches!(
        worker.process_message(&header, &vec![0u8; 291], &mut manager, &mut metrics),
        PeerMessage::Unreadable(MessageError::InvalidAdvertisedLength(291))
    ));
    assert_eq!(metrics.invalid_messages, 5);
    assert_eq!(manager.len(), 1);
    assert!(manager.is_handshaked(PeerAddress { ip: 10, port: 1 }));
}

#[test]
fn only_messages_that_are_no_readable_handshake_count_as_invalid() {
    let mut metrics = ProtocolMetrics::new();
    count_outcome(&mut metrics, HandshakeOutcome::Completed(PeerAddress { ip: 1, port: 2 }));
    count_outcome(&mut metrics, HandshakeOutcome::Failed(HandshakeError::CoordinatorMismatch));
    assert_eq!(metrics, ProtocolMetrics::new());
    count_outcome(&mut metrics, HandshakeOutcome::Ignored);
    count_outcome(&mut metrics, HandshakeOutcome::Unreadable(MessageError::InvalidLength(61, 62)));
    assert_eq!(metrics.invalid_messages, 2);
    assert_eq!(metrics.invalid_transactions, 0);
    let worker = PeerHandshakerWorker::new(config(), peer(1, 10, 50001, Origin::Inbound));
    assert_eq!(worker.conclusion(), HandshakeConclusion::Await);
}
