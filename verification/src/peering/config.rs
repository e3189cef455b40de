//! The configuration of static peering.

use vstd::prelude::*;
use vstd::string::*;

verus! {

/// The number of static peers that a node accepts where none is set.
pub const DEFAULT_LIMIT: u8 = 5;

/// Collects what is set and fills in defaults for the rest.
pub struct StaticPeeringConfigBuilder {
    limit: Option<u8>,
    peers: Option<Vec<String>>,
}

/// The configuration of static peering.
pub struct StaticPeeringConfig {
    limit: u8,
    peers: Vec<String>,
}

/// The names that strings spell.
pub open spec fn names(peers: Seq<String>) -> Seq<Seq<char>> {
    Seq::new(peers.len(), |i: int| peers[i]@)
}

impl StaticPeeringConfigBuilder {
    /// The limit, if one was set.
    pub closed spec fn spec_limit(&self) -> Option<u8> {
        self.limit
    }

    /// The peers that were added, if any was.
    pub closed spec fn spec_peers(&self) -> Option<Seq<Seq<char>>> {
        match self.peers {
            Some(peers) => Some(names(peers@)),
            None => None,
        }
    }

    /// A builder with nothing set.
    pub fn new() -> (builder: Self)
        ensures
            builder.spec_limit().is_none(),
            builder.spec_peers().is_none(),
    {
        Self { limit: None, peers: None }
    }

    /// Sets the number of peers that are accepted.
    pub fn limit(self, limit: u8) -> (builder: Self)
        ensures
            builder.spec_limit() == Some(limit),
            builder.spec_peers() == self.spec_peers(),
    {
        let mut builder = self;
        builder.limit = Some(limit);
        builder
    }

    /// Adds a peer at the end of the list.
    pub fn add_peer(self, peer: &str) -> (builder: Self)
        ensures
            builder.spec_limit() == self.spec_limit(),
            builder.spec_peers() == Some(
                match self.spec_peers() {
                    Some(peers) => peers.push(peer@),
                    None => seq![peer@],
                },
            ),
    {
        let limit = self.limit;
        let mut peers: Vec<String> = match self.peers {
            Some(peers) => peers,
            None => Vec::new(),
        };
        let ghost before = names(peers@);
        peers.push(String::from_str(peer));
        proof {
            assert(names(peers@) =~= before.push(peer@));
            if self.spec_peers().is_none() {
                assert(before =~= Seq::<Seq<char>>::empty());
                assert(names(peers@) =~= seq![peer@]);
            }
        }
        Self { limit, peers: Some(peers) }
    }

    /// The configuration: what was set, the default limit where none was
    /// set, and no peers where none was added.
    pub fn build(self) -> (config: StaticPeeringConfig)
        ensures
            config.spec_limit() == (match self.spec_limit() {
                Some(limit) => limit,
                None => DEFAULT_LIMIT,
            }),
            config.spec_peers() == (match self.spec_peers() {
                Some(peers) => peers,
                None => Seq::<Seq<char>>::empty(),
            }),
    {
        let limit: u8 = match self.limit {
            Some(limit) => limit,
            None => DEFAULT_LIMIT,
        };
        let peers: Vec<String> = match self.peers {
            Some(peers) => peers,
            None => Vec::new(),
        };
        proof {
            if self.spec_peers().is_none() {
                assert(names(peers@) =~= Seq::<Seq<char>>::empty());
            }
        }
        StaticPeeringConfig { limit, peers }
    }
}

impl StaticPeeringConfig {
    /// The number of peers that are accepted.
    pub closed spec fn spec_limit(&self) -> u8 {
        self.limit
    }

    /// The addresses of the peers.
    pub closed spec fn spec_peers(&self) -> Seq<Seq<char>> {
        names(self.peers@)
    }

    /// The number of peers that are accepted.
    pub fn limit(&self) -> (limit: u8)
        ensures
            limit == self.spec_limit(),
    {
        self.limit
    }

    /// The addresses of the peers.
    pub fn peers(&self) -> (peers: &Vec<String>)
        ensures
            names(peers@) == self.spec_peers(),
    {
        &self.peers
    }
}

} // verus!
