//! The payloads that an essence may carry: a milestone, or indexed data.

use vstd::prelude::*;
use crate::protocol::message::codec::append_bytes;
use crate::payload::packable::{
    le_bytes_u16, le_bytes_u32, le_bytes_u64, le_u16, le_u32, le_u64, lemma_le_round_trip,
    push_u16, push_u32, push_u64, take_bytes, take_u16, take_u32, take_u64,
    PackableError,
};

verus! {

/// A milestone as the coordinator issues it.
#[derive(Debug)]
pub struct Milestone {
    pub index: u32,
    pub timestamp: u64,
    /// The Merkle proof: 64 bytes.
    pub merkle_proof: Vec<u8>,
    /// The signature: 64 bytes.
    pub signature: Vec<u8>,
}

/// Data under an index by which it can be found.
#[derive(Debug)]
pub struct Indexation {
    pub index: Vec<u8>,
    pub data: Vec<u8>,
}

/// What an essence may carry besides its inputs and outputs.
#[derive(Debug)]
pub enum Payload {
    Milestone(Milestone),
    Indexation(Indexation),
}

/// A payload as plain values.
pub enum PayloadView {
    Milestone { index: u32, timestamp: u64, merkle_proof: Seq<u8>, signature: Seq<u8> },
    Indexation { key: Seq<u8>, data: Seq<u8> },
}

impl View for Payload {
    type V = PayloadView;

    open spec fn view(&self) -> PayloadView {
        match self {
            Payload::Milestone(m) => PayloadView::Milestone {
                index: m.index,
                timestamp: m.timestamp,
                merkle_proof: m.merkle_proof@,
                signature: m.signature@,
            },
            Payload::Indexation(i) => PayloadView::Indexation { key: i.index@, data: i.data@ },
        }
    }
}

/// The bytes of a payload: its kind in four bytes, one for a milestone
/// and two for indexed data; then, of a milestone, the index, the
/// timestamp, the Merkle proof and the signature; of indexed data, the
/// index behind its length in two bytes and the data behind its length in four.
#[verifier::opaque]
pub open spec fn payload_bytes(payload: PayloadView) -> Seq<u8> {
    match payload {
        PayloadView::Milestone { index, timestamp, merkle_proof, signature } => le_bytes_u32(1)
            + le_bytes_u32(index) + le_bytes_u64(timestamp) + merkle_proof + signature,
        PayloadView::Indexation { key, data } => le_bytes_u32(2) + le_bytes_u16(key.len() as u16)
            + key + le_bytes_u32(data.len() as u32) + data,
    }
}

/// Whether a payload can be packed and read back: a milestone's proof
/// and signature are 64 bytes each; an index is shorter than 65536
/// bytes, and data shorter than 4294967296.
pub open spec fn payload_fits(payload: PayloadView) -> bool {
    match payload {
        PayloadView::Milestone { index, timestamp, merkle_proof, signature } => merkle_proof.len()
            == 64 && signature.len() == 64,
        PayloadView::Indexation { key, data } => key.len() <= u16::MAX && data.len() <= u32::MAX,
    }
}

/// The payload that stands at the start of `bytes`, with its length.
#[verifier::opaque]
pub open spec fn parse_payload(bytes: Seq<u8>) -> Result<(PayloadView, int), PackableError> {
    if bytes.len() < 4 {
        Err(PackableError::Io)
    } else if le_u32(bytes.subrange(0, 4)) == 1 {
        if bytes.len() < 144 {
            Err(PackableError::Io)
        } else {
            Ok(
                (
                    PayloadView::Milestone {
                        index: le_u32(bytes.subrange(4, 8)),
                        timestamp: le_u64(bytes.subrange(8, 16)),
                        merkle_proof: bytes.subrange(16, 80),
                        signature: bytes.subrange(80, 144),
                    },
                    144,
                ),
            )
        }
    } else if le_u32(bytes.subrange(0, 4)) == 2 {
        if bytes.len() < 6 {
            Err(PackableError::Io)
        } else {
            let index_len = le_u16(bytes.subrange(4, 6)) as int;
            if bytes.len() < 6 + index_len + 4 {
                Err(PackableError::Io)
            } else {
                let data_len = le_u32(bytes.subrange(6 + index_len, 10 + index_len)) as int;
                if bytes.len() < 10 + index_len + data_len {
                    Err(PackableError::Io)
                } else {
                    Ok(
                        (
                            PayloadView::Indexation {
                                key: bytes.subrange(6, 6 + index_len),
                                data: bytes.subrange(10 + index_len, 10 + index_len + data_len),
                            },
                            10 + index_len + data_len,
                        ),
                    )
                }
            }
        }
    } else {
        Err(PackableError::InvalidVariant)
    }
}

/// A payload that fits is read back from its own bytes, whatever follows them.
pub proof fn lemma_payload_round_trip(payload: PayloadView, rest: Seq<u8>)
    requires
        payload_fits(payload),
    ensures
        parse_payload(payload_bytes(payload) + rest) == Ok::<(PayloadView, int), PackableError>(
            (payload, payload_bytes(payload).len() as int),
        ),
        payload_bytes(payload).len() >= 4,
{
    reveal(payload_bytes);
    reveal(parse_payload);
    let bytes = payload_bytes(payload) + rest;
    match payload {
        PayloadView::Milestone { index, timestamp, merkle_proof, signature } => {
            lemma_le_round_trip(0, 1, timestamp);
            lemma_le_round_trip(0, index, 0);
            assert(bytes.subrange(0, 4) =~= le_bytes_u32(1));
            assert(bytes.subrange(4, 8) =~= le_bytes_u32(index));
            assert(bytes.subrange(8, 16) =~= le_bytes_u64(timestamp));
            assert(bytes.subrange(16, 80) =~= merkle_proof);
            assert(bytes.subrange(80, 144) =~= signature);
        },
        PayloadView::Indexation { key, data } => {
            let index = key;
            let n = index.len() as int;
            let m = data.len() as int;
            lemma_le_round_trip(n as u16, 2, 0);
            lemma_le_round_trip(0, m as u32, 0);
            assert(bytes.subrange(0, 4) =~= le_bytes_u32(2));
            assert(bytes.subrange(4, 6) =~= le_bytes_u16(n as u16));
            assert(bytes.subrange(6, 6 + n) =~= index);
            assert(bytes.subrange(6 + n, 10 + n) =~= le_bytes_u32(m as u32));
            assert(bytes.subrange(10 + n, 10 + n + m) =~= data);
        },
    }
}

impl Payload {
    /// Length in bytes of the packed payload, if it is one that `usize` holds.
    pub fn packed_len(&self) -> (len: Option<usize>)
        ensures
            len.is_some() == (payload_bytes(self@).len() <= usize::MAX),
            len matches Some(l) ==> l == payload_bytes(self@).len(),
    {
        reveal(payload_bytes);
        match self {
            Payload::Milestone(m) => {
                let parts: u128 = 16 + m.merkle_proof.len() as u128 + m.signature.len() as u128;
                if parts > usize::MAX as u128 {
                    None
                } else {
                    Some(parts as usize)
                }
            },
            Payload::Indexation(i) => {
                let parts: u128 = 10 + i.index.len() as u128 + i.data.len() as u128;
                if parts > usize::MAX as u128 {
                    None
                } else {
                    Some(parts as usize)
                }
            },
        }
    }

    /// Appends the bytes of the payload. An index or data too long for
    /// the field that announces its length is refused, and nothing is appended.
    pub fn pack(&self, buf: &mut Vec<u8>) -> (res: Result<(), PackableError>)
        ensures
            res.is_ok() == (self@ is Indexation ==> payload_fits(self@)),
            res.is_ok() ==> final(buf)@ == old(buf)@ + payload_bytes(self@),
            res matches Err(e) ==> e == PackableError::InvalidAnnouncedLen && final(buf)@ == old(
                buf,
            )@,
    {
        reveal(payload_bytes);
        match self {
            Payload::Milestone(m) => {
                push_u32(buf, 1);
                push_u32(buf, m.index);
                push_u64(buf, m.timestamp);
                append_bytes(buf, &m.merkle_proof);
                append_bytes(buf, &m.signature);
                assert(buf@ =~= old(buf)@ + payload_bytes(self@));
                Ok(())
            },
            Payload::Indexation(i) => {
                if i.index.len() > 0xffff || i.data.len() > 0xffff_ffff {
                    return Err(PackableError::InvalidAnnouncedLen);
                }
                push_u32(buf, 2);
                push_u16(buf, i.index.len() as u16);
                append_bytes(buf, &i.index);
                push_u32(buf, i.data.len() as u32);
                append_bytes(buf, &i.data);
                assert(buf@ =~= old(buf)@ + payload_bytes(self@));
                Ok(())
            },
        }
    }

    /// Reads a payload at `pos` and moves `pos` behind it.
    pub fn unpack(bytes: &Vec<u8>, pos: &mut usize) -> (res: Result<Self, PackableError>)
        requires
            *old(pos) <= bytes@.len(),
        ensures
            res.is_ok() == parse_payload(bytes@.skip(*old(pos) as int)).is_ok(),
            res matches Ok(payload) ==> (parse_payload(bytes@.skip(*old(pos) as int)) matches Ok(
                parsed,
            ) && payload@ == parsed.0 && *final(pos) == *old(pos) + parsed.1),
            res matches Err(e) ==> (parse_payload(bytes@.skip(*old(pos) as int)) matches Err(pe)
                && pe == e),
            *old(pos) <= *final(pos) <= bytes@.len(),
    {
        reveal(parse_payload);
        let ghost start = *pos as int;
        let ghost rest = bytes@.skip(start);
        let kind = match take_u32(bytes, pos) {
            Ok(kind) => kind,
            Err(e) => {
                return Err(e);
            },
        };
        assert(rest.subrange(0, 4) =~= bytes@.subrange(start, start + 4));
        if kind == 1 {
            if bytes.len() - *pos < 140 {
                return Err(PackableError::Io);
            }
            let index = match take_u32(bytes, pos) {
                Ok(v) => v,
                Err(e) => {
                    return Err(e);
                },
            };
            let timestamp = match take_u64(bytes, pos) {
                Ok(v) => v,
                Err(e) => {
                    return Err(e);
                },
            };
            let merkle_proof = match take_bytes(bytes, pos, 64) {
                Ok(v) => v,
                Err(e) => {
                    return Err(e);
                },
            };
            let signature = match take_bytes(bytes, pos, 64) {
                Ok(v) => v,
                Err(e) => {
                    return Err(e);
                },
            };
            proof {
                assert(rest.subrange(4, 8) =~= bytes@.subrange(start + 4, start + 8));
                assert(rest.subrange(8, 16) =~= bytes@.subrange(start + 8, start + 16));
                assert(rest.subrange(16, 80) =~= bytes@.subrange(start + 16, start + 80));
                assert(rest.subrange(80, 144) =~= bytes@.subrange(start + 80, start + 144));
            }
            Ok(Payload::Milestone(Milestone { index, timestamp, merkle_proof, signature }))
        } else if kind == 2 {
            let index_len = match take_u16(bytes, pos) {
                Ok(v) => v as usize,
                Err(e) => {
                    return Err(e);
                },
            };
            assert(rest.subrange(4, 6) =~= bytes@.subrange(start + 4, start + 6));
            if bytes.len() - *pos < index_len || bytes.len() - *pos - index_len < 4 {
                return Err(PackableError::Io);
            }
            let index = match take_bytes(bytes, pos, index_len) {
                Ok(v) => v,
                Err(e) => {
                    return Err(e);
                },
            };
            let data_len = match take_u32(bytes, pos) {
                Ok(v) => v as usize,
                Err(e) => {
                    return Err(e);
                },
            };
            proof {
                assert(rest.subrange(6 + index_len, 10 + index_len) =~= bytes@.subrange(
                    start + 6 + index_len,
                    start + 10 + index_len,
                ));
            }
            let data = match take_bytes(bytes, pos, data_len) {
                Ok(v) => v,
                Err(e) => {
                    return Err(e);
                },
            };
            proof {
                assert(rest.subrange(6, 6 + index_len) =~= bytes@.subrange(
                    start + 6,
                    start + 6 + index_len,
                ));
                assert(rest.subrange(10 + index_len, 10 + index_len + data_len) =~= bytes@.subrange(
                    start + 10 + index_len,
                    start + 10 + index_len + data_len,
                ));
            }
            Ok(Payload::Indexation(Indexation { index, data }))
        } else {
            Err(PackableError::InvalidVariant)
        }
    }
}

} // verus!
