use bee::protocol::message::handshake::Handshake;
use bee::protocol::message::milestone_request::{MilestoneRequest, MILESTONE_REQUEST_SIZE};
use bee::protocol::message::tlv::{check_frame, Header, MessageError};
use bee::protocol::message::transaction::{
    compress_transaction_bytes, uncompress_transaction_bytes, TransactionMessage,
};
use bee::protocol::message::version::{highest_bit, messages_supported_version, test_bit};

const INDEX: u32 = 0x81f7df7c;

#[test]
fn milestone_request_id() {
    assert_eq!(MilestoneRequest::ID, 3);
}

#[test]
fn milestone_request_size_range() {
    assert_eq!(MilestoneRequest::size_range().contains(&3), false);
    assert_eq!(MilestoneRequest::size_range().contains(&4), true);
    assert_eq!(MilestoneRequest::size_range().contains(&5), false);
}

#[test]
fn milestone_request_size() {
    let message = MilestoneRequest::new(INDEX);

    assert_eq!(message.size(), MILESTONE_REQUEST_SIZE);
}

#[test]
fn milestone_request_into_from() {
    let message_from = MilestoneRequest::new(INDEX);
    let mut bytes = vec![0u8; message_from.size()];
    message_from.into_bytes(&mut bytes);
    let message_to = MilestoneRequest::from_bytes(&bytes);

    assert_eq!(message_to.index, INDEX);
}

#[test]
fn milestone_request_bytes_are_big_endian() {
    let mut bytes = vec![0u8; 4];
    MilestoneRequest::new(0x0102_0304).into_bytes(&mut bytes);
    assert_eq!(bytes, vec![1, 2, 3, 4]);
}

#[test]
fn header_round_trip() {
    let header = Header { message_type: 6, message_length: 0x0e01 };
    let mut bytes = vec![9u8];
    header.to_bytes(&mut bytes);
    assert_eq!(bytes, vec![9, 6, 0x0e, 0x01]);
    let read = Header::from_bytes(&bytes[1..].to_vec());
    assert_eq!(read, header);
}

#[test]
fn frame_errors_in_order() {
    let header = Header { message_type: 6, message_length: 14 };
    assert_eq!(check_frame(&header, 14, 6, 14, 15), Ok(()));
    assert_eq!(
        check_frame(&header, 14, 3, 14, 15),
        Err(MessageError::InvalidAdvertisedType(3, 6))
    );
    assert_eq!(
        check_frame(&header, 14, 6, 15, 16),
        Err(MessageError::InvalidAdvertisedLength(14))
    );
    assert_eq!(check_frame(&header, 13, 6, 14, 15), Err(MessageError::InvalidLength(14, 13)));
}

#[test]
fn handshake_round_trip() {
    let coordinator: Vec<u8> = (0..49).collect();
    let message = Handshake::new(15600, 0x0102_0304_0506_0708, &coordinator, 14, &vec![2, 0x80]);
    assert_eq!(message.size(), 62);
    let bytes = message.to_bytes();
    assert_eq!(bytes.len(), 62);
    assert_eq!(&bytes[0..2], &[0x3c, 0xf0]);
    assert_eq!(&bytes[2..10], &[1, 2, 3, 4, 5, 6, 7, 8]);
    assert_eq!(&bytes[10..59], &coordinator[..]);
    assert_eq!(bytes[59], 14);
    assert_eq!(&bytes[60..], &[2, 0x80]);
    let read = Handshake::from_bytes(&bytes);
    assert_eq!(read.port, 15600);
    assert_eq!(read.timestamp, 0x0102_0304_0506_0708);
    assert_eq!(read.coordinator, coordinator);
    assert_eq!(read.minimum_weight_magnitude, 14);
    assert_eq!(read.supported_versions, vec![2, 0x80]);
    assert!(Handshake::size_range().contains(&61));
    assert!(Handshake::size_range().contains(&92));
    assert!(!Handshake::size_range().contains(&60));
    assert!(!Handshake::size_range().contains(&93));
    assert_eq!(Handshake::ID, 1);
}

#[test]
fn versions_are_negotiated() {
    assert!(test_bit(0b0000_0010, 1));
    assert!(!test_bit(0b0000_0010, 0));
    assert_eq!(highest_bit(0), 0);
    assert_eq!(highest_bit(0b0100_0001), 7);
    assert_eq!(messages_supported_version(&vec![0b0000_0010]), Ok(2));
    assert_eq!(messages_supported_version(&vec![0b0000_0111, 0xff]), Ok(2));
    assert_eq!(messages_supported_version(&vec![0b0000_0101]), Err(3));
    assert_eq!(messages_supported_version(&vec![0b0000_0001, 0b0000_0100]), Err(11));
    assert_eq!(messages_supported_version(&vec![0b0000_0001, 0]), Err(0));
    assert_eq!(messages_supported_version(&vec![]), Err(0));
}

#[test]
fn compression_drops_trailing_zeros_of_the_fragment_only() {
    let mut whole = vec![0u8; 1604];
    whole[0] = 7;
    whole[9] = 5;
    whole[1312] = 0;
    whole[1603] = 0;
    whole[1400] = 3;
    let compressed = compress_transaction_bytes(&whole);
    assert_eq!(compressed.len(), 10 + 292);
    assert_eq!(compressed[9], 5);
    assert_eq!(compressed[10 + (1400 - 1312)], 3);
    assert_eq!(uncompress_transaction_bytes(&compressed), whole);

    let empty = vec![0u8; 1604];
    let compressed = compress_transaction_bytes(&empty);
    assert_eq!(compressed.len(), 292);
    assert_eq!(uncompress_transaction_bytes(&compressed), empty);

    let full = vec![1u8; 1604];
    let compressed = compress_transaction_bytes(&full);
    assert_eq!(compressed, full);
    assert_eq!(uncompress_transaction_bytes(&compressed), full);
}

#[test]
fn transaction_message_sizes() {
    assert_eq!(TransactionMessage::ID, 4);
    assert!(TransactionMessage::size_range().contains(&292));
    assert!(TransactionMessage::size_range().contains(&1604));
    assert!(!TransactionMessage::size_range().contains(&291));
    assert!(!TransactionMessage::size_range().contains(&1605));
    assert_eq!(TransactionMessage::new(vec![1, 2, 3]).size(), 3);
}
