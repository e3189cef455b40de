//! Solidity and its propagation.
//!
//! A transaction is solid when both of its parents count as solid: each is
//! a solid entry point or a solid transaction. When a transaction becomes
//! solid, its children may become solid too, and theirs after them.

use vstd::prelude::*;
use crate::bundle::transaction::copy_trits;
use crate::tangle::graph::{
    distinct_hashes, flagged_solid, present, solid_hash, solidity_kept, Flags, Tangle,
    TransactionMetadata, Vertex, VertexView,
};
use crate::ternary::trits::trits_eq;

verus! {

/// Whether both parents of `vertex` count as solid.
pub open spec fn parents_solid(
    vertices: Seq<VertexView>,
    entry_points: Seq<Seq<i8>>,
    vertex: VertexView,
) -> bool {
    solid_hash(vertices, entry_points, vertex.trunk) && solid_hash(
        vertices,
        entry_points,
        vertex.branch,
    )
}

/// No transaction is flagged solid without cause: both parents of every
/// solid transaction count as solid.
pub open spec fn sound(vertices: Seq<VertexView>, entry_points: Seq<Seq<i8>>) -> bool {
    forall|i: int|
        0 <= i < vertices.len() && (#[trigger] vertices[i]).metadata.flags.solid ==> parents_solid(
            vertices,
            entry_points,
            vertices[i],
        )
}

/// Every transaction whose parents both count as solid is flagged solid,
/// those with a hash in `pending` aside.
pub open spec fn complete_but(
    vertices: Seq<VertexView>,
    entry_points: Seq<Seq<i8>>,
    pending: Seq<Seq<i8>>,
) -> bool {
    forall|i: int|
        0 <= i < vertices.len() && parents_solid(vertices, entry_points, #[trigger] vertices[i])
            && !vertices[i].metadata.flags.solid ==> pending.contains(vertices[i].hash)
}

/// Solidity is settled: a transaction is flagged solid if and only if both
/// of its parents count as solid.
pub open spec fn settled(vertices: Seq<VertexView>, entry_points: Seq<Seq<i8>>) -> bool {
    sound(vertices, entry_points) && complete_but(vertices, entry_points, Seq::empty())
}

/// `after` is `before` with some solid flags set and nothing else changed.
pub open spec fn only_solidified(before: Seq<VertexView>, after: Seq<VertexView>) -> bool {
    &&& after.len() == before.len()
    &&& forall|i: int|
        0 <= i < before.len() ==> {
            &&& (#[trigger] after[i]).hash == before[i].hash
            &&& after[i].trunk == before[i].trunk
            &&& after[i].branch == before[i].branch
            &&& after[i].metadata.arrival_timestamp == before[i].metadata.arrival_timestamp
            &&& after[i].metadata.milestone_index == before[i].metadata.milestone_index
            &&& after[i].metadata.flags.requested == before[i].metadata.flags.requested
            &&& after[i].metadata.flags.confirmed == before[i].metadata.flags.confirmed
            &&& (before[i].metadata.flags.solid ==> after[i].metadata.flags.solid)
        }
}

/// The number of transactions among the first `n` that are not flagged solid.
pub open spec fn unsolid_count(vertices: Seq<VertexView>, n: int) -> int
    decreases n,
{
    if n <= 0 {
        0
    } else {
        unsolid_count(vertices, n - 1) + if vertices[n - 1].metadata.flags.solid {
            0int
        } else {
            1int
        }
    }
}

proof fn lemma_unsolid_count_bounds(vertices: Seq<VertexView>, n: int)
    requires
        0 <= n <= vertices.len(),
    ensures
        0 <= unsolid_count(vertices, n) <= n,
    decreases n,
{
    if n > 0 {
        lemma_unsolid_count_bounds(vertices, n - 1);
    }
}

proof fn lemma_unsolid_count_drops(
    before: Seq<VertexView>,
    after: Seq<VertexView>,
    p: int,
    n: int,
)
    requires
        after.len() == before.len(),
        0 <= p < before.len(),
        0 <= n <= before.len(),
        !before[p].metadata.flags.solid,
        after[p].metadata.flags.solid,
        forall|i: int|
            0 <= i < before.len() && i != p ==> after[i].metadata.flags.solid
                == before[i].metadata.flags.solid,
    ensures
        unsolid_count(after, n) == unsolid_count(before, n) - if p < n {
            1int
        } else {
            0int
        },
    decreases n,
{
    if n > 0 {
        lemma_unsolid_count_drops(before, after, p, n - 1);
    }
}

/// What was flagged solid before stays so where flags are only set.
pub proof fn lemma_only_solidified_keeps(before: Seq<VertexView>, after: Seq<VertexView>)
    requires
        only_solidified(before, after),
    ensures
        solidity_kept(before, after),
        forall|hash: Seq<i8>| present(before, hash) == present(after, hash),
{
    assert forall|hash: Seq<i8>| flagged_solid(before, hash) implies flagged_solid(after, hash) by {
        let w = choose|w: int|
            0 <= w < before.len() && (#[trigger] before[w]).hash == hash
                && before[w].metadata.flags.solid;
        assert(after[w].hash == hash);
    }
    assert forall|hash: Seq<i8>| present(before, hash) == present(after, hash) by {
        if present(before, hash) {
            let w = choose|w: int| 0 <= w < before.len() && (#[trigger] before[w]).hash == hash;
            assert(after[w].hash == hash);
        }
        if present(after, hash) {
            let w = choose|w: int| 0 <= w < after.len() && (#[trigger] after[w]).hash == hash;
            assert(before[w].hash == hash);
        }
    }
}

impl Tangle {
    /// Whether solidity is settled in this tangle.
    pub open spec fn spec_settled(&self) -> bool {
        settled(self.vertices(), self.entry_points())
    }

    /// Whether solidity is settled in this tangle, but perhaps for the
    /// transaction with this hash, which may be waiting to be flagged.
    pub open spec fn settled_but(&self, hash: Seq<i8>) -> bool {
        sound(self.vertices(), self.entry_points()) && complete_but(
            self.vertices(),
            self.entry_points(),
            seq![hash],
        )
    }

    /// Flags as solid the transaction with this hash if both of its parents
    /// count as solid, then its children likewise, and so on. Returns the
    /// hashes of the transactions that became solid, in the order in which
    /// they did.
    ///
    /// Nothing but solid flags changes, and no flag is cleared. Where
    /// solidity was settled but for this transaction, it is settled afterwards.
    pub fn propagate_solid(&mut self, hash: &Vec<i8>) -> (newly: Vec<Vec<i8>>)
        requires
            old(self).wf(),
            old(self).settled_but(hash@),
        ensures
            final(self).wf(),
            final(self).spec_settled(),
            only_solidified(old(self).vertices(), final(self).vertices()),
            solidity_kept(old(self).vertices(), final(self).vertices()),
            final(self).entry_points() == old(self).entry_points(),
            final(self).entry_point_indices() == old(self).entry_point_indices(),
            final(self).milestone_indices() == old(self).milestone_indices(),
            final(self).milestone_hashes() == old(self).milestone_hashes(),
            final(self).latest() == old(self).latest(),
            final(self).latest_solid() == old(self).latest_solid(),
            final(self).snapshot() == old(self).snapshot(),
            final(self).pruning() == old(self).pruning(),
            forall|i: int|
                0 <= i < old(self).vertices().len() ==> ((#[trigger] final(self).vertices()[i]).metadata.flags.solid <==> old(
                    self,
                ).vertices()[i].metadata.flags.solid || exists|k: int|
                    0 <= k < newly@.len() && (#[trigger] newly@[k])@ == old(self).vertices()[i].hash),
            forall|k: int|
                0 <= k < newly@.len() ==> present(old(self).vertices(), (#[trigger] newly@[k])@)
                    && !flagged_solid(old(self).vertices(), newly@[k]@) && flagged_solid(
                    final(self).vertices(),
                    newly@[k]@,
                ),
    {
        let ghost start = self.vertices();
        let ghost seps = self.entry_points();
        let mut newly: Vec<Vec<i8>> = Vec::new();
        let mut stack: Vec<Vec<i8>> = Vec::new();
        stack.push(copy_trits(hash));
        let ghost mut pending: Seq<Seq<i8>> = seq![hash@];
        proof {
            assert forall|i: int|
                0 <= i < start.len() implies (#[trigger] start[i]).hash == start[i].hash by {}
        }
        while stack.len() > 0
            invariant
                self.wf(),
                self.entry_points() == seps,
                self.entry_point_indices() == old(self).entry_point_indices(),
                self.milestone_indices() == old(self).milestone_indices(),
                self.milestone_hashes() == old(self).milestone_hashes(),
                self.latest() == old(self).latest(),
                self.latest_solid() == old(self).latest_solid(),
                self.snapshot() == old(self).snapshot(),
                self.pruning() == old(self).pruning(),
                start == old(self).vertices(),
                only_solidified(start, self.vertices()),
                sound(self.vertices(), seps),
                pending.len() == stack@.len(),
                forall|i: int| 0 <= i < stack@.len() ==> (#[trigger] stack@[i])@ == pending[i],
                complete_but(self.vertices(), seps, pending),
                forall|i: int|
                    0 <= i < start.len() ==> ((#[trigger] self.vertices()[i]).metadata.flags.solid
                        <==> start[i].metadata.flags.solid || exists|k: int|
                        0 <= k < newly@.len() && (#[trigger] newly@[k])@ == start[i].hash),
                forall|k: int|
                    0 <= k < newly@.len() ==> present(start, (#[trigger] newly@[k])@)
                        && !flagged_solid(start, newly@[k]@),
            decreases unsolid_count(self.vertices(), self.vertices().len() as int), stack@.len(),
        {
            let ghost held = self.vertices();
            let ghost held_pending = pending;
            let current = stack.pop().unwrap();
            proof {
                pending = pending.drop_last();
                lemma_unsolid_count_bounds(held, held.len() as int);
            }
            match self.position(&current) {
                None => {
                    proof {
                        assert forall|i: int|
                            0 <= i < held.len() && parents_solid(held, seps, #[trigger] held[i])
                                && !held[i].metadata.flags.solid implies pending.contains(
                            held[i].hash,
                        ) by {
                            assert(held_pending.contains(held[i].hash));
                            let w = choose|w: int|
                                0 <= w < held_pending.len() && held_pending[w] == held[i].hash;
                            assert(held[i].hash != current@);
                            assert(pending[w] == held[i].hash);
                        }
                    }
                },
                Some(p) => {
                    assert(held[p as int] == self.vertices@[p as int]@);
                    let already = self.vertices[p].metadata.flags.solid;
                    let ready = !already && self.is_solid_transaction(&self.vertices[p].trunk)
                        && self.is_solid_transaction(&self.vertices[p].branch);
                    if ready {
                        let ghost raw = self.vertices@;
                        self.vertices[p].metadata.flags.solid = true;
                        proof {
                            let now = self.vertices();
                            assert(self.vertices@ == raw.update(
                                p as int,
                                Vertex {
                                    metadata: TransactionMetadata {
                                        flags: Flags { solid: true, ..raw[p as int].metadata.flags },
                                        ..raw[p as int].metadata
                                    },
                                    ..raw[p as int]
                                },
                            ));
                            assert forall|i: int| 0 <= i < held.len() implies {
                                &&& (#[trigger] now[i]).hash == held[i].hash
                                &&& now[i].trunk == held[i].trunk
                                &&& now[i].branch == held[i].branch
                                &&& now[i].metadata.arrival_timestamp
                                    == held[i].metadata.arrival_timestamp
                                &&& now[i].metadata.milestone_index
                                    == held[i].metadata.milestone_index
                                &&& now[i].metadata.flags.requested
                                    == held[i].metadata.flags.requested
                                &&& now[i].metadata.flags.confirmed
                                    == held[i].metadata.flags.confirmed
                                &&& (i != p ==> now[i].metadata.flags.solid
                                    == held[i].metadata.flags.solid)
                                &&& (i == p ==> now[i].metadata.flags.solid)
                            } by {
                                assert(held[i] == raw[i]@);
                                assert(now[i] == self.vertices@[i]@);
                            }
                            assert(only_solidified(held, now));
                            lemma_only_solidified_keeps(held, now);
                            lemma_unsolid_count_drops(held, now, p as int, held.len() as int);
                            lemma_unsolid_count_bounds(now, now.len() as int);
                            assert(distinct_hashes(now)) by {
                                assert forall|i: int, j: int| 0 <= i < j < now.len() implies (
                                #[trigger] now[i]).hash != (#[trigger] now[j]).hash by {
                                    assert(held[i].hash != held[j].hash);
                                }
                            }
                            assert(only_solidified(start, now)) by {
                                assert forall|i: int| 0 <= i < start.len() implies {
                                    &&& (#[trigger] now[i]).hash == start[i].hash
                                    &&& now[i].trunk == start[i].trunk
                                    &&& now[i].branch == start[i].branch
                                    &&& now[i].metadata.arrival_timestamp
                                        == start[i].metadata.arrival_timestamp
                                    &&& now[i].metadata.milestone_index
                                        == start[i].metadata.milestone_index
                                    &&& now[i].metadata.flags.requested
                                        == start[i].metadata.flags.requested
                                    &&& now[i].metadata.flags.confirmed
                                        == start[i].metadata.flags.confirmed
                                    &&& (start[i].metadata.flags.solid
                                        ==> now[i].metadata.flags.solid)
                                } by {
                                    assert(held[i].hash == start[i].hash);
                                }
                            }
                            // Soundness: parents that counted as solid still do.
                            assert(sound(now, seps)) by {
                                assert forall|i: int|
                                    0 <= i < now.len() && (
                                    #[trigger] now[i]).metadata.flags.solid implies parents_solid(
                                    now,
                                    seps,
                                    now[i],
                                ) by {
                                    assert(parents_solid(held, seps, held[i]));
                                }
                            }
                        }
                        let ghost now = self.vertices();
                        let became = copy_trits(&self.vertices[p].hash);
                        assert(became@ == held[p as int].hash);
                        proof {
                            // The transaction was not solid at the start: flags are only set.
                            assert(!start[p as int].metadata.flags.solid);
                            assert(!flagged_solid(start, became@)) by {
                                if flagged_solid(start, became@) {
                                    let w = choose|w: int|
                                        0 <= w < start.len() && (#[trigger] start[w]).hash
                                            == became@ && start[w].metadata.flags.solid;
                                    assert(held[w].hash == became@);
                                    if w != p {
                                        if w < p {
                                            assert(held[w].hash != held[p as int].hash);
                                        } else {
                                            assert(held[p as int].hash != held[w].hash);
                                        }
                                    }
                                }
                            }
                            assert(start[p as int].hash == became@);
                        }
                        let ghost held_newly = newly@;
                        newly.push(copy_trits(&became));
                        proof {
                            assert forall|i: int| 0 <= i < start.len() implies ((
                            #[trigger] now[i]).metadata.flags.solid
                                <==> start[i].metadata.flags.solid || exists|k: int|
                                0 <= k < newly@.len() && (#[trigger] newly@[k])@
                                    == start[i].hash) by {
                                if i == p {
                                    assert(newly@[newly@.len() - 1]@ == start[i].hash);
                                } else {
                                    assert(now[i].metadata.flags.solid
                                        == held[i].metadata.flags.solid);
                                    if exists|k: int|
                                        0 <= k < held_newly.len() && (#[trigger] held_newly[k])@
                                            == start[i].hash {
                                        let k = choose|k: int|
                                            0 <= k < held_newly.len() && (
                                            #[trigger] held_newly[k])@ == start[i].hash;
                                        assert(newly@[k]@ == start[i].hash);
                                    }
                                    if exists|k: int|
                                        0 <= k < newly@.len() && (#[trigger] newly@[k])@
                                            == start[i].hash {
                                        let k = choose|k: int|
                                            0 <= k < newly@.len() && (#[trigger] newly@[k])@
                                                == start[i].hash;
                                        if k == newly@.len() - 1 {
                                            assert(held[i].hash == held[p as int].hash);
                                            if i < p {
                                                assert(held[i].hash != held[p as int].hash);
                                            } else {
                                                assert(held[p as int].hash != held[i].hash);
                                            }
                                        } else {
                                            assert(held_newly[k]@ == start[i].hash);
                                        }
                                    }
                                }
                            }
                            assert forall|k: int| 0 <= k < newly@.len() implies present(
                                start,
                                (#[trigger] newly@[k])@,
                            ) && !flagged_solid(start, newly@[k]@) by {
                                if k < held_newly.len() {
                                    assert(newly@[k] == held_newly[k]);
                                }
                            }
                        }
                        // Every child of the transaction may have become ready.
                        let n: usize = self.vertices.len();
                        let ghost base = pending;
                        let mut c: usize = 0;
                        while c < n
                            invariant
                                c <= n,
                                n == self.vertices@.len(),
                                self.vertices() == now,
                                p < n,
                                became@ == now[p as int].hash,
                                pending.len() == stack@.len(),
                                base.len() <= pending.len(),
                                forall|i: int| 0 <= i < base.len() ==> pending[i] == base[i],
                                forall|i: int|
                                    0 <= i < stack@.len() ==> (#[trigger] stack@[i])@ == pending[i],
                                forall|i: int|
                                    0 <= i < c && (now[i].trunk == became@ || now[i].branch
                                        == became@) ==> pending.contains((#[trigger] now[i]).hash),
                            decreases n - c,
                        {
                            assert(now[c as int] == self.vertices@[c as int]@);
                            if trits_eq(&self.vertices[c].trunk, &became) || trits_eq(
                                &self.vertices[c].branch,
                                &became,
                            ) {
                                let child = copy_trits(&self.vertices[c].hash);
                                let ghost before_push = pending;
                                stack.push(child);
                                proof {
                                    pending = pending.push(child@);
                                    assert(pending[pending.len() - 1] == now[c as int].hash);
                                    assert forall|i: int|
                                        0 <= i < c + 1 && (now[i].trunk == became@ || now[i].branch
                                            == became@) implies pending.contains(
                                        (#[trigger] now[i]).hash,
                                    ) by {
                                        if i < c {
                                            let w = choose|w: int|
                                                0 <= w < before_push.len() && before_push[w]
                                                    == now[i].hash;
                                            assert(pending[w] == now[i].hash);
                                        }
                                    }
                                }
                            }
                            c = c + 1;
                        }
                        proof {
                            assert forall|i: int|
                                0 <= i < now.len() && parents_solid(now, seps, #[trigger] now[i])
                                    && !now[i].metadata.flags.solid implies pending.contains(
                                now[i].hash,
                            ) by {
                                if parents_solid(held, seps, held[i]) {
                                    assert(!held[i].metadata.flags.solid);
                                    assert(held_pending.contains(held[i].hash));
                                    let w = choose|w: int|
                                        0 <= w < held_pending.len() && held_pending[w]
                                            == held[i].hash;
                                    assert(i != p);
                                    assert(held[i].hash != current@) by {
                                        if i < p {
                                            assert(held[i].hash != held[p as int].hash);
                                        } else {
                                            assert(held[p as int].hash != held[i].hash);
                                        }
                                    }
                                    assert(w < base.len());
                                    assert(pending[w] == now[i].hash);
                                } else {
                                    // A parent counts as solid now and did not before:
                                    // it is the transaction that was just flagged.
                                    lemma_new_solid_parent(held, now, seps, p as int, i);
                                }
                            }
                        }
                    } else {
                        proof {
                            assert forall|i: int|
                                0 <= i < held.len() && parents_solid(held, seps, #[trigger] held[i])
                                    && !held[i].metadata.flags.solid implies pending.contains(
                                held[i].hash,
                            ) by {
                                assert(held_pending.contains(held[i].hash));
                                let w = choose|w: int|
                                    0 <= w < held_pending.len() && held_pending[w] == held[i].hash;
                                if i == p {
                                    assert(!already);
                                    assert(false);
                                } else {
                                    assert(held[i].hash != current@) by {
                                        if i < p {
                                            assert(held[i].hash != held[p as int].hash);
                                        } else {
                                            assert(held[p as int].hash != held[i].hash);
                                        }
                                    }
                                    assert(pending[w] == held[i].hash);
                                }
                            }
                        }
                    }
                },
            }
        }
        proof {
            assert(pending =~= Seq::<Seq<i8>>::empty());
            lemma_only_solidified_keeps(start, self.vertices());
            assert forall|k: int| 0 <= k < newly@.len() implies flagged_solid(
                self.vertices(),
                (#[trigger] newly@[k])@,
            ) by {
                let w = choose|w: int| 0 <= w < start.len() && (#[trigger] start[w]).hash == newly@[k]@;
                assert(self.vertices()[w].hash == newly@[k]@);
                assert(self.vertices()[w].metadata.flags.solid);
            }
        }
        newly
    }
}

/// Where flagging the transaction at `p` made the parents of the one at
/// `i` count as solid, the one at `i` is a child of the one at `p`.
proof fn lemma_new_solid_parent(
    held: Seq<VertexView>,
    now: Seq<VertexView>,
    seps: Seq<Seq<i8>>,
    p: int,
    i: int,
)
    requires
        0 <= p < held.len(),
        0 <= i < held.len(),
        now.len() == held.len(),
        forall|k: int|
            0 <= k < held.len() ==> (#[trigger] now[k]).hash == held[k].hash && now[k].trunk
                == held[k].trunk && now[k].branch == held[k].branch && (k != p
                ==> now[k].metadata.flags.solid == held[k].metadata.flags.solid),
        parents_solid(now, seps, now[i]),
        !parents_solid(held, seps, held[i]),
    ensures
        now[i].trunk == now[p].hash || now[i].branch == now[p].hash,
{
    if !solid_hash(held, seps, held[i].trunk) {
        let w = choose|w: int|
            0 <= w < now.len() && (#[trigger] now[w]).hash == now[i].trunk
                && now[w].metadata.flags.solid;
        if w != p {
            assert(held[w].hash == held[i].trunk && held[w].metadata.flags.solid);
        }
    } else {
        let w = choose|w: int|
            0 <= w < now.len() && (#[trigger] now[w]).hash == now[i].branch
                && now[w].metadata.flags.solid;
        if w != p {
            assert(held[w].hash == held[i].branch && held[w].metadata.flags.solid);
        }
    }
}

} // verus!
