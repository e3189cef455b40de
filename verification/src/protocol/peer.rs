//! Peers and the registry of those that have shaken hands.

use vstd::prelude::*;
use dashmap::DashMap;

verus! {

/// Who opened a connection.
#[derive(Clone, Copy, Debug, PartialEq, Eq, Structural)]
pub enum Origin {
    /// The peer connected to this node.
    Inbound,
    /// This node connected to the peer.
    Outbound,
}

/// The address of a peer: an IP address, held as a number, and a port.
#[derive(Clone, Copy, Debug, PartialEq, Eq, Structural)]
pub struct PeerAddress {
    pub ip: u128,
    pub port: u16,
}

/// The stable identifier of a connection's endpoint.
#[derive(Clone, Copy, Debug, PartialEq, Eq, Structural)]
pub struct EndpointId(pub u64);

/// A connected peer that has not shaken hands yet.
#[derive(Clone, Copy, Debug, PartialEq, Eq, Structural)]
pub struct Peer {
    pub epid: EndpointId,
    /// The address that the connection was made from or to.
    pub address: PeerAddress,
    pub origin: Origin,
}

/// A peer that has shaken hands, with what its last heartbeat said.
#[derive(Clone, Copy, Debug, PartialEq, Eq, Structural)]
pub struct HandshakedPeer {
    pub epid: EndpointId,
    /// The address that the handshake resolved.
    pub address: PeerAddress,
    pub origin: Origin,
    /// Index of the peer's latest solid milestone.
    pub latest_solid_milestone_index: u32,
    /// Index below which the peer has pruned.
    pub pruned_index: u32,
    /// Index of the latest milestone that the peer knows.
    pub latest_milestone_index: u32,
}

impl HandshakedPeer {
    /// Whether the peer holds the milestone `index` in full: it has not
    /// pruned it away and has solidified it.
    pub open spec fn spec_has_data(&self, index: u32) -> bool {
        self.pruned_index <= index <= self.latest_solid_milestone_index
    }

    /// Whether the peer holds the milestone `index` in full.
    pub fn has_data(&self, index: u32) -> (has: bool)
        ensures
            has == self.spec_has_data(index),
    {
        self.pruned_index <= index && index <= self.latest_solid_milestone_index
    }
}

/// No two peers have the same address.
pub open spec fn distinct_addresses(peers: Map<u64, HandshakedPeer>) -> bool {
    forall|a: u64, b: u64|
        peers.dom().contains(a) && peers.dom().contains(b) && a != b ==> (#[trigger] peers[a]).address
            != (#[trigger] peers[b]).address
}

/// Every peer stands under its own endpoint.
pub open spec fn keyed_by_endpoint(peers: Map<u64, HandshakedPeer>) -> bool {
    forall|k: u64| peers.dom().contains(k) ==> (#[trigger] peers[k]).epid.0 == k
}

/// Some peer has the address.
pub open spec fn has_address(peers: Map<u64, HandshakedPeer>, address: PeerAddress) -> bool {
    exists|k: u64| peers.dom().contains(k) && (#[trigger] peers[k]).address == address
}

/// What a registry holds: the peers that have shaken hands, each under
/// the number of its endpoint.
pub uninterp spec fn peer_entries(map: DashMap<u64, HandshakedPeer>) -> Map<u64, HandshakedPeer>;

/// No peer has shaken hands.
pub open spec fn no_peers() -> Map<u64, HandshakedPeer> {
    Map::empty()
}

/// The peer under `key`, if there is one.
pub open spec fn peer_of(peers: Map<u64, HandshakedPeer>, key: u64) -> Option<HandshakedPeer> {
    if peers.dom().contains(key) {
        Some(peers[key])
    } else {
        None
    }
}

/// Whether `list` holds the values of `peers`, one for each key, in
/// whatever order: `keys` says under which key each stands.
pub open spec fn lists_values(
    peers: Map<u64, HandshakedPeer>,
    keys: Seq<u64>,
    list: Seq<HandshakedPeer>,
) -> bool {
    &&& keys.len() == list.len()
    &&& forall|i: int, j: int| 0 <= i < j < keys.len() ==> #[trigger] keys[i] != #[trigger] keys[j]
    &&& forall|i: int|
        0 <= i < keys.len() ==> peer_of(peers, #[trigger] keys[i]) == Some(list[i])
    &&& forall|k: u64|
        peers.dom().contains(k) ==> exists|i: int| 0 <= i < keys.len() && #[trigger] keys[i] == k
}

/// An empty map, as `DashMap::new` makes it.
#[verifier::external_body]
fn peers_new() -> (made: DashMap<u64, HandshakedPeer>)
    ensures
        peer_entries(made) == no_peers(),
{
    DashMap::new()
}

/// The number of entries, as `DashMap::len` counts them.
#[verifier::external_body]
fn peers_len(map: &DashMap<u64, HandshakedPeer>) -> (len: usize)
    ensures
        len == peer_entries(*map).len(),
{
    map.len()
}

/// The value under a key, as `DashMap::get` finds it, copied out.
#[verifier::external_body]
fn peers_get(map: &DashMap<u64, HandshakedPeer>, key: u64) -> (found: Option<HandshakedPeer>)
    ensures
        found == peer_of(peer_entries(*map), key),
{
    map.get(&key).map(|entry| *entry.value())
}

/// Puts a value under a key, as `DashMap::insert` does: the value that
/// was there, if any, is replaced and returned.
#[verifier::external_body]
fn peers_insert(map: &mut DashMap<u64, HandshakedPeer>, key: u64, peer: HandshakedPeer) -> (previous:
    Option<HandshakedPeer>)
    ensures
        peer_entries(*final(map)) == peer_entries(*old(map)).insert(key, peer),
        previous == peer_of(peer_entries(*old(map)), key),
{
    map.insert(key, peer)
}

/// Takes a key out, as `DashMap::remove` does, and returns the value that
/// was under it, if any.
#[verifier::external_body]
fn peers_remove(map: &mut DashMap<u64, HandshakedPeer>, key: u64) -> (removed: Option<
    HandshakedPeer,
>)
    ensures
        peer_entries(*final(map)) == peer_entries(*old(map)).remove(key),
        removed == peer_of(peer_entries(*old(map)), key),
{
    map.remove(&key).map(|entry| entry.1)
}

/// The entries of the map, as `DashMap::iter` walks them: each once, in
/// an order that is the map's own; keys and values apart.
#[verifier::external_body]
fn peers_list(map: &DashMap<u64, HandshakedPeer>) -> (listed: (Vec<u64>, Vec<HandshakedPeer>))
    ensures
        lists_values(peer_entries(*map), listed.0@, listed.1@),
{
    map.iter().map(|entry| (*entry.key(), *entry.value())).unzip()
}

/// Whether `list` holds the peers of a registry, each once, in whatever order.
pub open spec fn lists_peers(peers: Map<u64, HandshakedPeer>, list: Seq<HandshakedPeer>) -> bool {
    &&& forall|i: int, j: int|
        0 <= i < j < list.len() ==> (#[trigger] list[i]).epid != (#[trigger] list[j]).epid
    &&& forall|i: int|
        0 <= i < list.len() ==> peer_of(peers, (#[trigger] list[i]).epid.0) == Some(list[i])
    &&& forall|k: u64|
        peers.dom().contains(k) ==> exists|i: int|
            0 <= i < list.len() && (#[trigger] list[i]).epid.0 == k
}

/// The peers that have shaken hands. At most one of them has any given address.
pub struct PeerManager {
    handshaked_peers: DashMap<u64, HandshakedPeer>,
}

impl PeerManager {
    /// The peers, each under the number of its endpoint.
    pub closed spec fn peers(&self) -> Map<u64, HandshakedPeer> {
        peer_entries(self.handshaked_peers)
    }

    /// What holds of every registry: every peer stands under its own
    /// endpoint, and addresses are distinct.
    pub open spec fn wf(&self) -> bool {
        &&& keyed_by_endpoint(self.peers())
        &&& distinct_addresses(self.peers())
    }

    /// A registry without peers.
    pub fn new() -> (manager: Self)
        ensures
            manager.wf(),
            manager.peers() == no_peers(),
    {
        Self { handshaked_peers: peers_new() }
    }

    /// Number of peers.
    pub fn len(&self) -> (len: usize)
        ensures
            len == self.peers().len(),
    {
        peers_len(&self.handshaked_peers)
    }

    /// The peers, each once, in an order that is the registry's own.
    pub fn list(&self) -> (list: Vec<HandshakedPeer>)
        requires
            self.wf(),
        ensures
            lists_peers(self.peers(), list@),
    {
        let (keys, list) = peers_list(&self.handshaked_peers);
        proof {
            let peers = self.peers();
            assert forall|i: int| 0 <= i < list@.len() implies (#[trigger] list@[i]).epid.0
                == keys@[i] by {
                assert(peer_of(peers, keys@[i]) == Some(list@[i]));
            }
            assert forall|i: int, j: int| 0 <= i < j < list@.len() implies (#[trigger] list@[i]).epid
                != (#[trigger] list@[j]).epid by {
                assert(keys@[i] != keys@[j]);
            }
            assert forall|i: int| 0 <= i < list@.len() implies peer_of(
                peers,
                (#[trigger] list@[i]).epid.0,
            ) == Some(list@[i]) by {
                assert(peer_of(peers, keys@[i]) == Some(list@[i]));
            }
            assert forall|k: u64| peers.dom().contains(k) implies exists|i: int|
                0 <= i < list@.len() && (#[trigger] list@[i]).epid.0 == k by {
                let i = choose|i: int| 0 <= i < keys@.len() && #[trigger] keys@[i] == k;
                assert(list@[i].epid.0 == k);
            }
        }
        list
    }

    /// Whether a peer with this address has shaken hands.
    pub fn is_handshaked(&self, address: PeerAddress) -> (found: bool)
        ensures
            found == has_address(self.peers(), address),
    {
        let (keys, list) = peers_list(&self.handshaked_peers);
        let mut i: usize = 0;
        while i < list.len()
            invariant
                i <= list@.len(),
                lists_values(self.peers(), keys@, list@),
                forall|j: int| 0 <= j < i ==> (#[trigger] list@[j]).address != address,
            decreases list@.len() - i,
        {
            if list[i].address == address {
                proof {
                    assert(peer_of(self.peers(), keys@[i as int]) == Some(list@[i as int]));
                }
                return true;
            }
            i = i + 1;
        }
        proof {
            if has_address(self.peers(), address) {
                let k = choose|k: u64|
                    self.peers().dom().contains(k) && (#[trigger] self.peers()[k]).address
                        == address;
                let i = choose|i: int| 0 <= i < keys@.len() && #[trigger] keys@[i] == k;
                assert(peer_of(self.peers(), keys@[i]) == Some(list@[i]));
                assert(list@[i].address != address);
            }
        }
        false
    }

    /// The peer at the endpoint `epid`, if it has shaken hands.
    pub fn get(&self, epid: EndpointId) -> (peer: Option<HandshakedPeer>)
        ensures
            peer == peer_of(self.peers(), epid.0),
    {
        peers_get(&self.handshaked_peers, epid.0)
    }

    /// Takes a peer in as handshaked under `address`, unless a peer with
    /// that address is there already. A new peer has an empty heartbeat.
    pub fn handshake(&mut self, peer: Peer, address: PeerAddress) -> (added: bool)
        requires
            old(self).wf(),
        ensures
            final(self).wf(),
            added == !has_address(old(self).peers(), address),
            added ==> final(self).peers() == old(self).peers().insert(
                peer.epid.0,
                HandshakedPeer {
                    epid: peer.epid,
                    address,
                    origin: peer.origin,
                    latest_solid_milestone_index: 0,
                    pruned_index: 0,
                    latest_milestone_index: 0,
                },
            ),
            !added ==> final(self).peers() == old(self).peers(),
    {
        if self.is_handshaked(address) {
            return false;
        }
        let ghost before = self.peers();
        let taken = HandshakedPeer {
            epid: peer.epid,
            address,
            origin: peer.origin,
            latest_solid_milestone_index: 0,
            pruned_index: 0,
            latest_milestone_index: 0,
        };
        let _ = peers_insert(&mut self.handshaked_peers, peer.epid.0, taken);
        proof {
            let after = self.peers();
            assert forall|a: u64, b: u64|
                after.dom().contains(a) && after.dom().contains(b) && a != b implies (
            #[trigger] after[a]).address != (#[trigger] after[b]).address by {
                if a != peer.epid.0 {
                    assert(before.dom().contains(a) && before[a] == after[a]);
                }
                if b != peer.epid.0 {
                    assert(before.dom().contains(b) && before[b] == after[b]);
                }
            }
        }
        true
    }

    /// Forgets the peer with this endpoint, if there is one.
    pub fn remove(&mut self, epid: EndpointId) -> (removed: bool)
        requires
            old(self).wf(),
        ensures
            final(self).wf(),
            removed == old(self).peers().dom().contains(epid.0),
            final(self).peers() == old(self).peers().remove(epid.0),
    {
        peers_remove(&mut self.handshaked_peers, epid.0).is_some()
    }

    /// Records what a heartbeat of the peer at `epid` said.
    pub fn update_heartbeat(
        &mut self,
        epid: EndpointId,
        latest_solid_milestone_index: u32,
        pruned_index: u32,
        latest_milestone_index: u32,
    )
        requires
            old(self).wf(),
        ensures
            final(self).wf(),
            final(self).peers() == (match peer_of(old(self).peers(), epid.0) {
                Some(peer) => old(self).peers().insert(
                    epid.0,
                    HandshakedPeer {
                        latest_solid_milestone_index,
                        pruned_index,
                        latest_milestone_index,
                        ..peer
                    },
                ),
                None => old(self).peers(),
            }),
    {
        match self.get(epid) {
            Some(peer) => {
                let ghost before = self.peers();
                let told = HandshakedPeer {
                    latest_solid_milestone_index,
                    pruned_index,
                    latest_milestone_index,
                    ..peer
                };
                let _ = peers_insert(&mut self.handshaked_peers, epid.0, told);
                proof {
                    let after = self.peers();
                    assert forall|a: u64, b: u64|
                        after.dom().contains(a) && after.dom().contains(b) && a != b implies (
                    #[trigger] after[a]).address != (#[trigger] after[b]).address by {
                        assert(before.dom().contains(a) && before.dom().contains(b));
                        assert(after[a].address == before[a].address);
                        assert(after[b].address == before[b].address);
                    }
                }
            },
            None => {},
        }
    }
}

/// Whether some peer holds the milestone `index` in full.
pub open spec fn some_has_data(peers: Seq<HandshakedPeer>, index: u32) -> bool {
    exists|i: int| 0 <= i < peers.len() && (#[trigger] peers[i]).spec_has_data(index)
}

/// Picks among `peers` the one to ask for something that milestone
/// `index` confirms: the first whose heartbeat says that it holds that
/// milestone, else the first; nobody where there are no peers.
pub fn select_peer(peers: &Vec<HandshakedPeer>, index: u32) -> (chosen: Option<usize>)
    ensures
        chosen.is_some() == (peers@.len() > 0),
        chosen matches Some(p) ==> p < peers@.len(),
        chosen matches Some(p) ==> some_has_data(peers@, index) ==> peers@[p as int].spec_has_data(
            index,
        ) && forall|j: int| 0 <= j < p ==> !peers@[j].spec_has_data(index),
        chosen matches Some(p) ==> !some_has_data(peers@, index) ==> p == 0,
{
    let n: usize = peers.len();
    let mut i: usize = 0;
    while i < n
        invariant
            i <= n,
            n == peers@.len(),
            forall|j: int| 0 <= j < i ==> !(#[trigger] peers@[j]).spec_has_data(index),
        decreases n - i,
    {
        if peers[i].has_data(index) {
            return Some(i);
        }
        i = i + 1;
    }
    if n > 0 {
        Some(0)
    } else {
        None
    }
}

} // verus!
