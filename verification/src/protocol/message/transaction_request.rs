//! The transaction request message.

use vstd::prelude::*;
use crate::protocol::message::codec::copy_range;
use crate::ternary::trits::{
    t5b1_bytes, t5b1_decode, t5b1_encode, t5b1_trits, t5b1_valid, valid_trits,
};
use std::ops::Range;

verus! {

/// Length in bytes of every transaction request payload: a hash of 243
/// trits, packed five to a byte.
pub const TRANSACTION_REQUEST_SIZE: usize = 49;

/// Asks a peer for a transaction.
#[derive(Debug)]
pub struct TransactionRequest {
    /// The packed hash of the requested transaction: 49 bytes.
    pub hash: Vec<u8>,
}

impl TransactionRequest {
    /// Message type in the frame header.
    pub const ID: u8 = 0x05;

    /// A request for the transaction whose packed hash is `hash`.
    pub fn new(hash: &Vec<u8>) -> (message: Self)
        ensures
            message.hash@ == hash@,
    {
        Self { hash: copy_range(hash, 0, hash.len()) }
    }

    /// A request for the transaction whose hash is these trits, if they
    /// are 243 trits.
    pub fn for_hash(hash: &Vec<i8>) -> (message: Option<Self>)
        ensures
            message.is_some() == (hash@.len() == 243 && valid_trits(hash@)),
            message matches Some(m) ==> m.hash@ == t5b1_bytes(hash@) && m.hash@.len() == 49,
    {
        if hash.len() != 243 {
            return None;
        }
        match t5b1_encode(hash) {
            Some(bytes) => Some(Self { hash: bytes }),
            None => None,
        }
    }

    /// The trits of the requested hash, if the payload packs trits.
    pub fn hash_trits(&self) -> (hash: Option<Vec<i8>>)
        ensures
            hash.is_some() == (self.hash@.len() >= 49 && forall|i: int|
                0 <= i < self.hash@.len() ==> t5b1_valid(#[trigger] self.hash@[i])),
            hash matches Some(h) ==> h@ == t5b1_trits(self.hash@, 243),
    {
        if self.hash.len() < 49 {
            return None;
        }
        t5b1_decode(&self.hash, 243)
    }

    /// The payload lengths that a transaction request may have: 49 bytes exactly.
    pub fn size_range() -> (range: Range<usize>)
        ensures
            range.start == 49,
            range.end == 50,
    {
        TRANSACTION_REQUEST_SIZE..(TRANSACTION_REQUEST_SIZE + 1)
    }

    /// Reads a transaction request from the start of `bytes`.
    pub fn from_bytes(bytes: &Vec<u8>) -> (message: Self)
        requires
            bytes.len() >= 49,
        ensures
            message.hash@ == bytes@.subrange(0, 49),
    {
        Self { hash: copy_range(bytes, 0, 49) }
    }

    /// Length in bytes of the payload.
    pub fn size(&self) -> (size: usize)
        ensures
            size == 49,
    {
        TRANSACTION_REQUEST_SIZE
    }

    /// Writes the payload into `bytes`, which it fills.
    pub fn into_bytes(self, bytes: &mut Vec<u8>)
        requires
            self.hash@.len() == 49,
            old(bytes).len() == 49,
        ensures
            final(bytes)@ == self.hash@,
    {
        let mut i: usize = 0;
        while i < 49
            invariant
                i <= 49,
                bytes.len() == 49,
                self.hash@.len() == 49,
                forall|j: int| 0 <= j < i ==> bytes@[j] == self.hash@[j],
            decreases 49 - i,
        {
            bytes[i] = self.hash[i];
            i = i + 1;
        }
        assert(bytes@ =~= self.hash@);
    }
}

} // verus!
