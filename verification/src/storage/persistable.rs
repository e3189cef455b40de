//! Values that can be laid down in bytes and read back.

use vstd::prelude::*;
use crate::protocol::message::codec::{
    be_bytes_u32, be_bytes_u64, be_u32, be_u64, lemma_be_u32_bytes_round_trip, read_u32, read_u64,
};
use crate::tangle::graph::{Flags, TransactionMetadata};

verus! {

/// A value that a storage backend can keep: it is written behind what a
/// buffer holds, and read back from exactly the bytes that were written.
pub trait Persistable: Sized {
    /// The bytes that spell the value.
    spec fn encoded(&self) -> Seq<u8>;

    /// Whether the bytes spell a value.
    spec fn decodable(bytes: Seq<u8>) -> bool;

    /// Extends `buffer` by the bytes of the value.
    fn encode_persistable(&self, buffer: &mut Vec<u8>)
        ensures
            final(buffer)@ == old(buffer)@ + self.encoded(),
    ;

    /// Reads a value from the bytes that spell it.
    fn decode_persistable(slice: &Vec<u8>) -> (value: Self)
        requires
            Self::decodable(slice@),
        ensures
            value.encoded() == slice@,
    ;
}

/// One for a flag that is set, zero for one that is not.
pub open spec fn flag_byte(flag: bool) -> u8 {
    if flag {
        1
    } else {
        0
    }
}

/// The bytes that spell metadata: a byte for each flag, solid, requested
/// and confirmed; the arrival time in eight bytes; the milestone index in
/// four; numbers most significant byte first.
pub open spec fn metadata_bytes(metadata: TransactionMetadata) -> Seq<u8> {
    seq![
        flag_byte(metadata.flags.solid),
        flag_byte(metadata.flags.requested),
        flag_byte(metadata.flags.confirmed),
    ] + be_bytes_u64(metadata.arrival_timestamp) + be_bytes_u32(metadata.milestone_index)
}

/// Eight bytes are the big-endian bytes of the number that they spell.
pub proof fn lemma_be_u64_bytes_round_trip(bytes: Seq<u8>)
    requires
        bytes.len() == 8,
    ensures
        0 <= be_u64(bytes) <= u64::MAX,
        be_bytes_u64(be_u64(bytes) as u64) == bytes,
{
    let high = bytes.subrange(0, 4);
    let low = bytes.subrange(4, 8);
    lemma_be_u32_bytes_round_trip(high);
    lemma_be_u32_bytes_round_trip(low);
    let value = be_u64(bytes);
    assert(value == be_u32(high) * 0x1_0000_0000 + be_u32(low));
    assert(value / 0x1_0000_0000 == be_u32(high));
    assert(value % 0x1_0000_0000 == be_u32(low));
    assert(be_bytes_u64(value as u64) =~= high + low);
    assert(high + low =~= bytes);
}

/// Appends the eight big-endian bytes of `value`.
pub fn push_u64(buffer: &mut Vec<u8>, value: u64)
    ensures
        final(buffer)@ == old(buffer)@ + be_bytes_u64(value),
{
    let high: u32 = (value / 0x1_0000_0000) as u32;
    let low: u32 = (value % 0x1_0000_0000) as u32;
    push_u32(buffer, high);
    push_u32(buffer, low);
    assert(buffer@ =~= old(buffer)@ + be_bytes_u64(value));
}

/// Appends the four big-endian bytes of `value`.
pub fn push_u32(buffer: &mut Vec<u8>, value: u32)
    ensures
        final(buffer)@ == old(buffer)@ + be_bytes_u32(value),
{
    buffer.push((value / 0x100_0000) as u8);
    buffer.push((value / 0x1_0000 % 0x100) as u8);
    buffer.push((value / 0x100 % 0x100) as u8);
    buffer.push((value % 0x100) as u8);
    assert(buffer@ =~= old(buffer)@ + be_bytes_u32(value));
}

impl Persistable for TransactionMetadata {
    open spec fn encoded(&self) -> Seq<u8> {
        metadata_bytes(*self)
    }

    open spec fn decodable(bytes: Seq<u8>) -> bool {
        bytes.len() == 15 && bytes[0] <= 1 && bytes[1] <= 1 && bytes[2] <= 1
    }

    fn encode_persistable(&self, buffer: &mut Vec<u8>) {
        buffer.push(
            if self.flags.solid {
                1
            } else {
                0
            },
        );
        buffer.push(
            if self.flags.requested {
                1
            } else {
                0
            },
        );
        buffer.push(
            if self.flags.confirmed {
                1
            } else {
                0
            },
        );
        push_u64(buffer, self.arrival_timestamp);
        push_u32(buffer, self.milestone_index);
        assert(buffer@ =~= old(buffer)@ + metadata_bytes(*self));
    }

    fn decode_persistable(slice: &Vec<u8>) -> (value: Self) {
        let value = TransactionMetadata {
            flags: Flags { solid: slice[0] == 1, requested: slice[1] == 1, confirmed: slice[2] == 1 },
            arrival_timestamp: read_u64(slice, 3),
            milestone_index: read_u32(slice, 11),
        };
        proof {
            lemma_be_u64_bytes_round_trip(slice@.subrange(3, 11));
            lemma_be_u32_bytes_round_trip(slice@.subrange(11, 15));
            assert(value.encoded() =~= slice@);
        }
        value
    }
}

} // verus!
