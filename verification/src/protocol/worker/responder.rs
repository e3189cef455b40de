//! The responders: what a peer that asks is sent.

use vstd::prelude::*;
use crate::protocol::message::transaction::{compress_transaction_bytes, compressed};
use crate::protocol::peer::EndpointId;
use crate::tangle::graph::Tangle;

verus! {

/// What a responder does about a request.
#[derive(Debug)]
pub enum Response {
    /// These compressed bytes are sent to the peer that asked.
    Send(EndpointId, Vec<u8>),
    /// What was asked for is not there: the request is dropped and counted.
    Miss,
}

/// Answers a request for a transaction with what storage had for its
/// hash: a whole transaction of 1604 bytes, or nothing.
pub fn respond_transaction(peer: EndpointId, stored: Option<Vec<u8>>) -> (response: Response)
    ensures
        response is Miss <==> !(stored.is_some() && stored.unwrap()@.len() == 1604),
        response matches Response::Send(to, bytes) ==> to == peer && bytes@ == compressed(
            stored.unwrap()@,
        ),
{
    match stored {
        Some(bytes) => {
            if bytes.len() == 1604 {
                Response::Send(peer, compress_transaction_bytes(&bytes))
            } else {
                Response::Miss
            }
        },
        None => Response::Miss,
    }
}

/// The index that a request for a milestone means: the latest milestone
/// for index zero, else the index itself.
pub fn requested_milestone(tangle: &Tangle, index: u32) -> (meant: u32)
    ensures
        meant == (if index == 0 {
            tangle.latest()
        } else {
            index
        }),
{
    if index == 0 {
        tangle.get_latest_milestone_index()
    } else {
        index
    }
}

/// The hash of the tail of the milestone that a request means, if that
/// milestone is known: its transaction is then fetched and sent.
pub fn respond_milestone(tangle: &Tangle, index: u32) -> (hash: Option<Vec<i8>>)
    ensures
        hash.is_some() == tangle.milestone_indices().contains(
            if index == 0 {
                tangle.latest()
            } else {
                index
            },
        ),
        hash matches Some(h) ==> exists|i: int|
            0 <= i < tangle.milestone_indices().len() && #[trigger] tangle.milestone_indices()[i]
                == (if index == 0 {
                tangle.latest()
            } else {
                index
            }) && tangle.milestone_hashes()[i] == h@,
{
    tangle.get_milestone_hash(requested_milestone(tangle, index))
}

} // verus!
