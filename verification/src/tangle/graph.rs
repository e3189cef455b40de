//! Vertices, solid entry points, milestones and watermarks.

use vstd::prelude::*;
use crate::ternary::trits::trits_eq;
use crate::bundle::transaction::copy_trits;

verus! {

/// What is known of a transaction besides its content.
#[derive(Clone, Copy, Debug, PartialEq, Eq, Structural)]
pub struct Flags {
    /// The whole past of the transaction is known.
    pub solid: bool,
    /// The transaction was asked of a peer.
    pub requested: bool,
    /// A milestone confirms the transaction.
    pub confirmed: bool,
}

/// The metadata that is kept with a transaction.
#[derive(Clone, Copy, Debug, PartialEq, Eq, Structural)]
pub struct TransactionMetadata {
    pub flags: Flags,
    /// When the transaction arrived, in milliseconds since the epoch.
    pub arrival_timestamp: u64,
    /// Index of the milestone that confirms the transaction; zero if none does.
    pub milestone_index: u32,
}

/// A transaction in the tangle: its hash, the hashes of its parents, and its metadata.
#[derive(Debug)]
pub struct Vertex {
    pub hash: Vec<i8>,
    pub trunk: Vec<i8>,
    pub branch: Vec<i8>,
    pub metadata: TransactionMetadata,
}

/// A vertex as plain values.
pub struct VertexView {
    pub hash: Seq<i8>,
    pub trunk: Seq<i8>,
    pub branch: Seq<i8>,
    pub metadata: TransactionMetadata,
}

impl View for Vertex {
    type V = VertexView;

    open spec fn view(&self) -> VertexView {
        VertexView {
            hash: self.hash@,
            trunk: self.trunk@,
            branch: self.branch@,
            metadata: self.metadata,
        }
    }
}

/// A milestone: its index and the hash of its tail transaction.
#[derive(Debug)]
pub struct MilestoneEntry {
    pub index: u32,
    pub hash: Vec<i8>,
}

/// A hash at the boundary of the pruned past, with the index of the
/// milestone that confirmed it. It counts as solid whatever else is known.
#[derive(Debug)]
pub struct SolidEntryPoint {
    pub hash: Vec<i8>,
    pub index: u32,
}

/// Whether a vertex with this hash is among `vertices`.
pub open spec fn present(vertices: Seq<VertexView>, hash: Seq<i8>) -> bool {
    exists|i: int| 0 <= i < vertices.len() && (#[trigger] vertices[i]).hash == hash
}

/// Whether a vertex with this hash is among `vertices` and flagged solid.
pub open spec fn flagged_solid(vertices: Seq<VertexView>, hash: Seq<i8>) -> bool {
    exists|i: int|
        0 <= i < vertices.len() && (#[trigger] vertices[i]).hash == hash
            && vertices[i].metadata.flags.solid
}

/// Whether `hash` is a solid entry point.
pub open spec fn is_entry_point(entry_points: Seq<Seq<i8>>, hash: Seq<i8>) -> bool {
    exists|i: int| 0 <= i < entry_points.len() && #[trigger] entry_points[i] == hash
}

/// Whether `hash` counts as solid: it is a solid entry point, or the hash
/// of a vertex that is flagged solid.
pub open spec fn solid_hash(
    vertices: Seq<VertexView>,
    entry_points: Seq<Seq<i8>>,
    hash: Seq<i8>,
) -> bool {
    is_entry_point(entry_points, hash) || flagged_solid(vertices, hash)
}

/// No two vertices have the same hash.
pub open spec fn distinct_hashes(vertices: Seq<VertexView>) -> bool {
    forall|i: int, j: int|
        0 <= i < j < vertices.len() ==> (#[trigger] vertices[i]).hash != (#[trigger] vertices[j]).hash
}

/// What was solid stays solid: every hash flagged solid among `before` is
/// flagged solid among `after`.
pub open spec fn solidity_kept(before: Seq<VertexView>, after: Seq<VertexView>) -> bool {
    forall|hash: Seq<i8>| flagged_solid(before, hash) ==> flagged_solid(after, hash)
}

/// Solidity is kept from step to step: what was solid at the start of a
/// run of steps each of which keeps solidity is solid at its end.
pub proof fn lemma_solidity_kept_chains(states: Seq<Seq<VertexView>>)
    requires
        states.len() > 0,
        forall|i: int|
            0 <= i < states.len() - 1 ==> solidity_kept(#[trigger] states[i], states[i + 1]),
    ensures
        solidity_kept(states[0], states.last()),
    decreases states.len(),
{
    if states.len() > 1 {
        let shorter = states.drop_last();
        assert forall|i: int| 0 <= i < shorter.len() - 1 implies solidity_kept(
            #[trigger] shorter[i],
            shorter[i + 1],
        ) by {
            assert(solidity_kept(states[i], states[i + 1]));
        }
        lemma_solidity_kept_chains(shorter);
        assert(solidity_kept(states[states.len() - 2], states[states.len() - 1]));
        assert(shorter.last() == states[states.len() - 2]);
    }
}

/// The tangle as a node holds it in memory.
pub struct Tangle {
    pub(crate) vertices: Vec<Vertex>,
    pub(crate) entry_points: Vec<SolidEntryPoint>,
    pub(crate) milestones: Vec<MilestoneEntry>,
    pub(crate) latest_milestone_index: u32,
    pub(crate) latest_solid_milestone_index: u32,
    pub(crate) snapshot_index: u32,
    pub(crate) pruning_index: u32,
}

impl Tangle {
    /// The vertices, in the order in which they were inserted.
    pub open(crate) spec fn vertices(&self) -> Seq<VertexView> {
        Seq::new(self.vertices@.len(), |i: int| self.vertices@[i]@)
    }

    /// The hashes of the solid entry points.
    pub open(crate) spec fn entry_points(&self) -> Seq<Seq<i8>> {
        Seq::new(self.entry_points@.len(), |i: int| self.entry_points@[i].hash@)
    }

    /// The indices of the milestones' solid entry points, by position.
    pub open(crate) spec fn entry_point_indices(&self) -> Seq<u32> {
        Seq::new(self.entry_points@.len(), |i: int| self.entry_points@[i].index)
    }

    /// The indices of the known milestones, by position.
    pub open(crate) spec fn milestone_indices(&self) -> Seq<u32> {
        Seq::new(self.milestones@.len(), |i: int| self.milestones@[i].index)
    }

    /// The hashes of the known milestones, by position.
    pub open(crate) spec fn milestone_hashes(&self) -> Seq<Seq<i8>> {
        Seq::new(self.milestones@.len(), |i: int| self.milestones@[i].hash@)
    }

    /// Index of the latest milestone that is known.
    pub open(crate) spec fn latest(&self) -> u32 {
        self.latest_milestone_index
    }

    /// Index of the latest milestone whose whole past is known.
    pub open(crate) spec fn latest_solid(&self) -> u32 {
        self.latest_solid_milestone_index
    }

    /// Index of the milestone of the last snapshot.
    pub open(crate) spec fn snapshot(&self) -> u32 {
        self.snapshot_index
    }

    /// Index up to which the past was pruned.
    pub open(crate) spec fn pruning(&self) -> u32 {
        self.pruning_index
    }

    /// What holds of every tangle: no hash is held twice, no milestone
    /// index is held twice, and the latest solid milestone is not ahead of
    /// the latest milestone.
    pub open spec fn wf(&self) -> bool {
        &&& distinct_hashes(self.vertices())
        &&& forall|i: int, j: int|
            0 <= i < j < self.milestone_indices().len() ==> #[trigger] self.milestone_indices()[i]
                != #[trigger] self.milestone_indices()[j]
        &&& self.milestone_indices().len() == self.milestone_hashes().len()
        &&& self.latest_solid() <= self.latest()
    }

    /// Whether `hash` counts as solid in this tangle.
    pub open spec fn spec_is_solid(&self, hash: Seq<i8>) -> bool {
        solid_hash(self.vertices(), self.entry_points(), hash)
    }

    /// An empty tangle with every watermark at zero.
    pub fn new() -> (tangle: Self)
        ensures
            tangle.wf(),
            tangle.vertices().len() == 0,
            tangle.entry_points().len() == 0,
            tangle.entry_point_indices().len() == 0,
            tangle.milestone_indices().len() == 0,
            tangle.milestone_hashes().len() == 0,
            tangle.latest() == 0,
            tangle.latest_solid() == 0,
            tangle.snapshot() == 0,
            tangle.pruning() == 0,
    {
        Self {
            vertices: Vec::new(),
            entry_points: Vec::new(),
            milestones: Vec::new(),
            latest_milestone_index: 0,
            latest_solid_milestone_index: 0,
            snapshot_index: 0,
            pruning_index: 0,
        }
    }

    /// Number of vertices.
    pub fn len(&self) -> (len: usize)
        ensures
            len == self.vertices().len(),
    {
        self.vertices.len()
    }

    pub fn get_latest_milestone_index(&self) -> (index: u32)
        ensures
            index == self.latest(),
    {
        self.latest_milestone_index
    }

    pub fn get_latest_solid_milestone_index(&self) -> (index: u32)
        ensures
            index == self.latest_solid(),
    {
        self.latest_solid_milestone_index
    }

    pub fn get_snapshot_index(&self) -> (index: u32)
        ensures
            index == self.snapshot(),
    {
        self.snapshot_index
    }

    pub fn get_pruning_index(&self) -> (index: u32)
        ensures
            index == self.pruning(),
    {
        self.pruning_index
    }

    /// Whether the node is synced: its latest solid milestone is the latest milestone.
    pub fn is_synced(&self) -> (synced: bool)
        ensures
            synced == (self.latest_solid() == self.latest()),
    {
        self.latest_solid_milestone_index == self.latest_milestone_index
    }

    /// Raises the latest milestone index to `index`; a lower index changes nothing.
    pub fn update_latest_milestone_index(&mut self, index: u32)
        requires
            old(self).wf(),
        ensures
            final(self).wf(),
            final(self).latest() == (if index > old(self).latest() {
                index
            } else {
                old(self).latest()
            }),
            final(self).latest_solid() == old(self).latest_solid(),
            final(self).snapshot() == old(self).snapshot(),
            final(self).pruning() == old(self).pruning(),
            final(self).vertices() == old(self).vertices(),
            final(self).entry_points() == old(self).entry_points(),
            final(self).entry_point_indices() == old(self).entry_point_indices(),
            final(self).milestone_indices() == old(self).milestone_indices(),
            final(self).milestone_hashes() == old(self).milestone_hashes(),
    {
        if index > self.latest_milestone_index {
            self.latest_milestone_index = index;
        }
    }

    /// Raises the latest solid milestone index to `index`, and the latest
    /// milestone index with it where that would fall behind; a lower index
    /// changes nothing.
    pub fn update_latest_solid_milestone_index(&mut self, index: u32)
        requires
            old(self).wf(),
        ensures
            final(self).wf(),
            final(self).latest_solid() == (if index > old(self).latest_solid() {
                index
            } else {
                old(self).latest_solid()
            }),
            final(self).latest() == (if index > old(self).latest() {
                index
            } else {
                old(self).latest()
            }),
            final(self).snapshot() == old(self).snapshot(),
            final(self).pruning() == old(self).pruning(),
            final(self).vertices() == old(self).vertices(),
            final(self).entry_points() == old(self).entry_points(),
            final(self).entry_point_indices() == old(self).entry_point_indices(),
            final(self).milestone_indices() == old(self).milestone_indices(),
            final(self).milestone_hashes() == old(self).milestone_hashes(),
    {
        if index > self.latest_solid_milestone_index {
            self.latest_solid_milestone_index = index;
        }
        if index > self.latest_milestone_index {
            self.latest_milestone_index = index;
        }
    }

    pub fn update_snapshot_index(&mut self, index: u32)
        ensures
            final(self).snapshot() == index,
            final(self).latest() == old(self).latest(),
            final(self).latest_solid() == old(self).latest_solid(),
            final(self).pruning() == old(self).pruning(),
            final(self).vertices() == old(self).vertices(),
            final(self).entry_points() == old(self).entry_points(),
            final(self).entry_point_indices() == old(self).entry_point_indices(),
            final(self).milestone_indices() == old(self).milestone_indices(),
            final(self).milestone_hashes() == old(self).milestone_hashes(),
    {
        self.snapshot_index = index;
    }

    pub fn update_pruning_index(&mut self, index: u32)
        ensures
            final(self).pruning() == index,
            final(self).latest() == old(self).latest(),
            final(self).latest_solid() == old(self).latest_solid(),
            final(self).snapshot() == old(self).snapshot(),
            final(self).vertices() == old(self).vertices(),
            final(self).entry_points() == old(self).entry_points(),
            final(self).entry_point_indices() == old(self).entry_point_indices(),
            final(self).milestone_indices() == old(self).milestone_indices(),
            final(self).milestone_hashes() == old(self).milestone_hashes(),
    {
        self.pruning_index = index;
    }

    /// Where the vertex with this hash stands, if there is one.
    pub fn position(&self, hash: &Vec<i8>) -> (found: Option<usize>)
        ensures
            found.is_some() == present(self.vertices(), hash@),
            found matches Some(p) ==> p < self.vertices().len() && self.vertices()[p as int].hash
                == hash@,
    {
        let mut i: usize = 0;
        while i < self.vertices.len()
            invariant
                i <= self.vertices@.len(),
                forall|j: int| 0 <= j < i ==> (#[trigger] self.vertices()[j]).hash != hash@,
            decreases self.vertices@.len() - i,
        {
            if trits_eq(&self.vertices[i].hash, hash) {
                assert(self.vertices()[i as int].hash == hash@);
                return Some(i);
            }
            i = i + 1;
        }
        None
    }

    /// Whether a transaction with this hash is in the tangle.
    pub fn contains(&self, hash: &Vec<i8>) -> (found: bool)
        ensures
            found == present(self.vertices(), hash@),
    {
        self.position(hash).is_some()
    }

    /// The metadata of the transaction with this hash, if it is in the tangle.
    pub fn get_metadata(&self, hash: &Vec<i8>) -> (metadata: Option<TransactionMetadata>)
        ensures
            metadata.is_some() == present(self.vertices(), hash@),
            metadata matches Some(m) ==> exists|i: int|
                0 <= i < self.vertices().len() && (#[trigger] self.vertices()[i]).hash == hash@
                    && self.vertices()[i].metadata == m,
    {
        match self.position(hash) {
            Some(p) => {
                assert(self.vertices()[p as int] == self.vertices@[p as int]@);
                Some(self.vertices[p].metadata)
            },
            None => None,
        }
    }

    /// Whether `hash` is a solid entry point.
    pub fn is_solid_entry_point(&self, hash: &Vec<i8>) -> (found: bool)
        ensures
            found == is_entry_point(self.entry_points(), hash@),
    {
        let mut i: usize = 0;
        while i < self.entry_points.len()
            invariant
                i <= self.entry_points@.len(),
                forall|j: int| 0 <= j < i ==> #[trigger] self.entry_points()[j] != hash@,
            decreases self.entry_points@.len() - i,
        {
            if trits_eq(&self.entry_points[i].hash, hash) {
                assert(self.entry_points()[i as int] == hash@);
                return true;
            }
            i = i + 1;
        }
        false
    }

    /// Makes `hash` a solid entry point, confirmed by the milestone `index`.
    pub fn add_solid_entry_point(&mut self, hash: Vec<i8>, index: u32)
        ensures
            final(self).entry_points() == old(self).entry_points().push(hash@),
            final(self).entry_point_indices() == old(self).entry_point_indices().push(index),
            final(self).vertices() == old(self).vertices(),
            final(self).milestone_indices() == old(self).milestone_indices(),
            final(self).milestone_hashes() == old(self).milestone_hashes(),
            final(self).latest() == old(self).latest(),
            final(self).latest_solid() == old(self).latest_solid(),
            final(self).snapshot() == old(self).snapshot(),
            final(self).pruning() == old(self).pruning(),
    {
        self.entry_points.push(SolidEntryPoint { hash, index });
        assert(self.entry_points() =~= old(self).entry_points().push(hash@));
        assert(self.entry_point_indices() =~= old(self).entry_point_indices().push(index));
    }

    /// Forgets every solid entry point.
    pub fn clear_solid_entry_points(&mut self)
        ensures
            final(self).entry_points().len() == 0,
            final(self).entry_point_indices().len() == 0,
            final(self).vertices() == old(self).vertices(),
            final(self).milestone_indices() == old(self).milestone_indices(),
            final(self).milestone_hashes() == old(self).milestone_hashes(),
            final(self).latest() == old(self).latest(),
            final(self).latest_solid() == old(self).latest_solid(),
            final(self).snapshot() == old(self).snapshot(),
            final(self).pruning() == old(self).pruning(),
    {
        self.entry_points = Vec::new();
    }

    /// Whether `hash` counts as solid: it is a solid entry point, or a
    /// transaction of the tangle that is flagged solid.
    pub fn is_solid_transaction(&self, hash: &Vec<i8>) -> (solid: bool)
        requires
            self.wf(),
        ensures
            solid == self.spec_is_solid(hash@),
    {
        if self.is_solid_entry_point(hash) {
            return true;
        }
        match self.position(hash) {
            Some(p) => {
                assert(self.vertices()[p as int] == self.vertices@[p as int]@);
                let solid = self.vertices[p].metadata.flags.solid;
                proof {
                    if !solid && flagged_solid(self.vertices(), hash@) {
                        let w = choose|w: int|
                            0 <= w < self.vertices().len() && (#[trigger] self.vertices()[w]).hash
                                == hash@ && self.vertices()[w].metadata.flags.solid;
                        assert(self.vertices@[w]@ == self.vertices()[w]);
                        assert(w == p) by {
                            if w != p {
                                self.lemma_distinct(w, p as int);
                            }
                        }
                    }
                }
                solid
            },
            None => false,
        }
    }

    /// Two positions with the same hash are one position, in a tangle whose
    /// hashes are distinct.
    pub proof fn lemma_distinct(&self, a: int, b: int)
        requires
            0 <= a < self.vertices().len(),
            0 <= b < self.vertices().len(),
            self.vertices()[a].hash == self.vertices()[b].hash,
            a != b,
        ensures
            !distinct_hashes(self.vertices()),
    {
        if a < b {
            assert(self.vertices()[a].hash == self.vertices()[b].hash);
        } else {
            assert(self.vertices()[b].hash == self.vertices()[a].hash);
        }
    }

    /// The hash of the milestone `index`, if that milestone is known.
    pub fn get_milestone_hash(&self, index: u32) -> (hash: Option<Vec<i8>>)
        ensures
            hash.is_some() == self.milestone_indices().contains(index),
            hash matches Some(h) ==> exists|i: int|
                0 <= i < self.milestone_indices().len() && #[trigger] self.milestone_indices()[i]
                    == index && self.milestone_hashes()[i] == h@,
    {
        let mut i: usize = 0;
        while i < self.milestones.len()
            invariant
                i <= self.milestones@.len(),
                forall|j: int| 0 <= j < i ==> #[trigger] self.milestone_indices()[j] != index,
            decreases self.milestones@.len() - i,
        {
            if self.milestones[i].index == index {
                assert(self.milestone_indices()[i as int] == index);
                let hash = copy_trits(&self.milestones[i].hash);
                assert(self.milestone_hashes()[i as int] == hash@);
                return Some(hash);
            }
            i = i + 1;
        }
        assert(!self.milestone_indices().contains(index)) by {
            if self.milestone_indices().contains(index) {
                let w = choose|w: int|
                    0 <= w < self.milestone_indices().len() && self.milestone_indices()[w] == index;
                assert(self.milestone_indices()[w] != index);
            }
        }
        None
    }

    /// Records the milestone `index` with the hash of its tail, unless a
    /// milestone with that index is known already.
    pub fn add_milestone(&mut self, index: u32, hash: Vec<i8>) -> (added: bool)
        requires
            old(self).wf(),
        ensures
            final(self).wf(),
            added == !old(self).milestone_indices().contains(index),
            added ==> final(self).milestone_indices() == old(self).milestone_indices().push(index)
                && final(self).milestone_hashes() == old(self).milestone_hashes().push(hash@),
            !added ==> final(self).milestone_indices() == old(self).milestone_indices() && final(self).milestone_hashes() == old(self).milestone_hashes(),
            final(self).vertices() == old(self).vertices(),
            final(self).entry_points() == old(self).entry_points(),
            final(self).entry_point_indices() == old(self).entry_point_indices(),
            final(self).latest() == old(self).latest(),
            final(self).latest_solid() == old(self).latest_solid(),
            final(self).snapshot() == old(self).snapshot(),
            final(self).pruning() == old(self).pruning(),
    {
        if self.get_milestone_hash(index).is_some() {
            return false;
        }
        self.milestones.push(MilestoneEntry { index, hash });
        proof {
            assert(self.milestone_indices() =~= old(self).milestone_indices().push(index));
            assert(self.milestone_hashes() =~= old(self).milestone_hashes().push(hash@));
            assert forall|i: int, j: int|
                0 <= i < j < self.milestone_indices().len() implies #[trigger] self.milestone_indices()[i]
                != #[trigger] self.milestone_indices()[j] by {
                if j == self.milestone_indices().len() - 1 {
                    assert(old(self).milestone_indices()[i] == self.milestone_indices()[i]);
                    assert(old(self).milestone_indices().contains(self.milestone_indices()[i]));
                } else {
                    assert(old(self).milestone_indices()[i] == self.milestone_indices()[i]);
                    assert(old(self).milestone_indices()[j] == self.milestone_indices()[j]);
                }
            }
        }
        true
    }

    /// Takes a transaction in, unless one with the same hash is there
    /// already. The flags of the transactions that were there stay as they are.
    pub fn insert(&mut self, vertex: Vertex) -> (inserted: bool)
        requires
            old(self).wf(),
        ensures
            final(self).wf(),
            inserted == !present(old(self).vertices(), vertex@.hash),
            inserted ==> final(self).vertices() == old(self).vertices().push(vertex@),
            !inserted ==> final(self).vertices() == old(self).vertices(),
            solidity_kept(old(self).vertices(), final(self).vertices()),
            final(self).entry_points() == old(self).entry_points(),
            final(self).entry_point_indices() == old(self).entry_point_indices(),
            final(self).milestone_indices() == old(self).milestone_indices(),
            final(self).milestone_hashes() == old(self).milestone_hashes(),
            final(self).latest() == old(self).latest(),
            final(self).latest_solid() == old(self).latest_solid(),
            final(self).snapshot() == old(self).snapshot(),
            final(self).pruning() == old(self).pruning(),
    {
        if self.contains(&vertex.hash) {
            return false;
        }
        let ghost before = self.vertices();
        self.vertices.push(vertex);
        proof {
            assert(self.vertices() =~= before.push(vertex@));
            assert forall|i: int, j: int| 0 <= i < j < self.vertices().len() implies (
            #[trigger] self.vertices()[i]).hash != (#[trigger] self.vertices()[j]).hash by {
                assert(self.vertices()[i] == before[i]);
                if j < before.len() {
                    assert(self.vertices()[j] == before[j]);
                }
            }
            assert forall|hash: Seq<i8>| flagged_solid(before, hash) implies flagged_solid(
                self.vertices(),
                hash,
            ) by {
                let w = choose|w: int|
                    0 <= w < before.len() && (#[trigger] before[w]).hash == hash
                        && before[w].metadata.flags.solid;
                assert(self.vertices()[w] == before[w]);
            }
        }
        true
    }
}

} // verus!
