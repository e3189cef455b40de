//! Who a transaction is broadcast to.

use vstd::prelude::*;
use crate::protocol::peer::{EndpointId, HandshakedPeer};

verus! {

/// The endpoints of the first `n` peers, the one at `origin` left out.
pub open spec fn targets(peers: Seq<HandshakedPeer>, origin: Option<EndpointId>, n: int) -> Seq<
    EndpointId,
>
    decreases n,
{
    if n <= 0 {
        Seq::empty()
    } else if origin == Some(peers[n - 1].epid) {
        targets(peers, origin, n - 1)
    } else {
        targets(peers, origin, n - 1).push(peers[n - 1].epid)
    }
}

/// Those of `peers` that a transaction is sent on to: every one but the
/// peer that it came from.
pub fn broadcast_targets(peers: &Vec<HandshakedPeer>, origin: Option<EndpointId>) -> (to: Vec<
    EndpointId,
>)
    ensures
        to@ == targets(peers@, origin, peers@.len() as int),
{
    let mut to: Vec<EndpointId> = Vec::new();
    let n: usize = peers.len();
    let mut i: usize = 0;
    while i < n
        invariant
            i <= n,
            n == peers@.len(),
            to@ == targets(peers@, origin, i as int),
        decreases n - i,
    {
        let peer = peers[i];
        let skip = match origin {
            Some(from) => from.0 == peer.epid.0,
            None => false,
        };
        if !skip {
            to.push(peer.epid);
        }
        i = i + 1;
    }
    to
}

} // verus!
