//! Framing: every message travels behind a header of three bytes that gives
//! its type and the length of its payload.

use vstd::prelude::*;
use crate::protocol::message::codec::{be_bytes_u16, be_u16, lemma_be_u16_round_trip};

verus! {

/// Length in bytes of a header.
pub const HEADER_SIZE: usize = 3;

/// The header of a frame.
#[derive(Clone, Copy, Debug, PartialEq, Eq, Structural)]
pub struct Header {
    /// Type of the message.
    pub message_type: u8,
    /// Length of the payload in bytes.
    pub message_length: u16,
}

/// Why a frame was not read.
#[derive(Clone, Copy, Debug, PartialEq, Eq, Structural)]
pub enum MessageError {
    /// The header announces another type than the one asked for: asked, announced.
    InvalidAdvertisedType(u8, u8),
    /// The announced length is not one that the type allows.
    InvalidAdvertisedLength(usize),
    /// The payload is not as long as announced: announced, found.
    InvalidLength(usize, usize),
}

/// The three bytes that spell `header`.
pub open spec fn header_bytes(header: Header) -> Seq<u8> {
    seq![header.message_type] + be_bytes_u16(header.message_length)
}

/// The header that three bytes spell.
pub open spec fn header_of(bytes: Seq<u8>) -> Header
    recommends
        bytes.len() >= 3,
{
    Header { message_type: bytes[0], message_length: be_u16(bytes.subrange(1, 3)) as u16 }
}

/// A header read back from its own bytes is the header that was written.
pub proof fn lemma_header_round_trip(header: Header, rest: Seq<u8>)
    ensures
        header_bytes(header).len() == 3,
        header_of(header_bytes(header) + rest) == header,
{
    lemma_be_u16_round_trip(header.message_length);
    assert((header_bytes(header) + rest).subrange(1, 3) =~= be_bytes_u16(header.message_length));
}

impl Header {
    /// Reads a header from the start of `bytes`.
    pub fn from_bytes(bytes: &Vec<u8>) -> (header: Self)
        requires
            bytes.len() >= 3,
        ensures
            header == header_of(bytes@),
    {
        let high: u16 = bytes[1] as u16;
        let low: u16 = bytes[2] as u16;
        Self { message_type: bytes[0], message_length: high * 0x100 + low }
    }

    /// Appends the three bytes of the header to `bytes`.
    pub fn to_bytes(&self, bytes: &mut Vec<u8>)
        ensures
            final(bytes)@ == old(bytes)@ + header_bytes(*self),
    {
        bytes.push(self.message_type);
        bytes.push((self.message_length / 0x100) as u8);
        bytes.push((self.message_length % 0x100) as u8);
        assert(bytes@ =~= old(bytes)@ + header_bytes(*self));
    }
}

/// What stands in the way of reading a payload as a message of type `id`
/// whose payload may be `min` to `max - 1` bytes long: the header announces
/// another type, or a length outside that range, or a length other than the
/// payload's.
pub open spec fn frame_error(header: Header, payload_len: int, id: u8, min: int, max: int) -> Option<
    MessageError,
> {
    if header.message_type != id {
        Some(MessageError::InvalidAdvertisedType(id, header.message_type))
    } else if !(min <= header.message_length < max) {
        Some(MessageError::InvalidAdvertisedLength(header.message_length as usize))
    } else if payload_len != header.message_length {
        Some(MessageError::InvalidLength(header.message_length as usize, payload_len as usize))
    } else {
        None
    }
}

/// Checks a header against a payload and the type that is expected.
pub fn check_frame(header: &Header, payload_len: usize, id: u8, min: usize, max: usize) -> (res:
    Result<(), MessageError>)
    ensures
        res.is_err() == frame_error(*header, payload_len as int, id, min as int, max as int).is_some(),
        res.is_err() ==> res.unwrap_err() == frame_error(
            *header,
            payload_len as int,
            id,
            min as int,
            max as int,
        ).unwrap(),
{
    let announced: usize = header.message_length as usize;
    if header.message_type != id {
        Err(MessageError::InvalidAdvertisedType(id, header.message_type))
    } else if !(min <= announced && announced < max) {
        Err(MessageError::InvalidAdvertisedLength(announced))
    } else if payload_len != announced {
        Err(MessageError::InvalidLength(announced, payload_len))
    } else {
        Ok(())
    }
}

} // verus!
