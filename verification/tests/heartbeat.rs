use bee::protocol::message::heartbeat::{Heartbeat, HEARTBEAT_SIZE};

const LATEST_SOLID_MILESTONE_INDEX: u32 = 0x0118_1f9b;
const PRUNED_INDEX: u32 = 0x3dc2_97b4;
const LATEST_MILESTONE_INDEX: u32 = 0x60be_20c2;
const CONNECTED_PEERS: u8 = 12;
const SYNCED_PEERS: u8 = 5;

#[test]
fn heartbeat_id() {
    assert_eq!(Heartbeat::ID, 6);
}

#[test]
fn heartbeat_size_range() {
    assert_eq!(Heartbeat::size_range().contains(&13), false);
    assert_eq!(Heartbeat::size_range().contains(&14), true);
    assert_eq!(Heartbeat::size_range().contains(&15), false);
}

#[test]
fn heartbeat_size() {
    let message = Heartbeat::new(
        LATEST_SOLID_MILESTONE_INDEX,
        PRUNED_INDEX,
        LATEST_MILESTONE_INDEX,
        CONNECTED_PEERS,
        SYNCED_PEERS,
    );

    assert_eq!(message.size(), HEARTBEAT_SIZE);
}

#[test]
fn heartbeat_into_from() {
    let message_from = Heartbeat::new(
        LATEST_SOLID_MILESTONE_INDEX,
        PRUNED_INDEX,
        LATEST_MILESTONE_INDEX,
        CONNECTED_PEERS,
        SYNCED_PEERS,
    );
    let mut bytes = vec![0u8; message_from.size()];
    message_from.into_bytes(&mut bytes);
    let message_to = Heartbeat::from_bytes(&bytes);

    assert_eq!(message_to.latest_solid_milestone_index, LATEST_SOLID_MILESTONE_INDEX);
    assert_eq!(message_to.pruned_index, PRUNED_INDEX);
    assert_eq!(message_to.latest_milestone_index, LATEST_MILESTONE_INDEX);
    assert_eq!(message_to.connected_peers, CONNECTED_PEERS);
    assert_eq!(message_to.synced_peers, SYNCED_PEERS);
}

#[test]
fn heartbeat_bytes_are_big_endian() {
    let message = Heartbeat::new(0x0102_0304, 0x0a0b_0c0d, 0xfffe_fdfc, 7, 9);
    let mut bytes = vec![0xaau8; 16];
    message.into_bytes(&mut bytes);
    assert_eq!(
        bytes,
        vec![1, 2, 3, 4, 0x0a, 0x0b, 0x0c, 0x0d, 0xff, 0xfe, 0xfd, 0xfc, 7, 9, 0xaa, 0xaa]
    );
}
