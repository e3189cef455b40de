//! The solid propagator, and the heartbeat that tells peers of progress.

use vstd::prelude::*;
use crate::protocol::message::heartbeat::Heartbeat;
use crate::protocol::peer::HandshakedPeer;
use crate::tangle::graph::{flagged_solid, present, solidity_kept, Tangle, VertexView};
use crate::tangle::solidity::only_solidified;
use crate::ternary::trits::trits_eq;

verus! {

/// The latest solid milestone has changed: its index.
#[derive(Clone, Copy, Debug, PartialEq, Eq, Structural)]
pub struct LatestSolidMilestoneChanged(pub u32);

/// Whether the tail of the milestone at place `k` became solid between
/// `before` and `after`.
pub open spec fn became_solid(
    before: Seq<VertexView>,
    after: Seq<VertexView>,
    hashes: Seq<Seq<i8>>,
    k: int,
) -> bool {
    flagged_solid(after, hashes[k]) && !flagged_solid(before, hashes[k])
}

/// Whether `index` is the index of a milestone whose tail became solid
/// between `before` and `after`.
pub open spec fn milestone_became_solid(
    before: Seq<VertexView>,
    after: Seq<VertexView>,
    indices: Seq<u32>,
    hashes: Seq<Seq<i8>>,
    index: u32,
) -> bool {
    exists|k: int|
        0 <= k < indices.len() && #[trigger] indices[k] == index && became_solid(
            before,
            after,
            hashes,
            k,
        )
}

/// Checks whether the transaction with this hash has become solid, lets
/// solidity spread from it, and moves the latest solid milestone up to
/// every milestone whose tail became solid and whose index is above it.
/// Returns what is to be announced, in the order in which it came about.
///
/// The indices that are announced rise strictly and are above the latest
/// solid milestone index from before; each is the index of a milestone
/// whose tail became solid; the last of them, if there is any, is the
/// latest solid milestone index afterwards, and no milestone whose tail
/// became solid has an index above that.
pub fn on_solidifiable(tangle: &mut Tangle, hash: &Vec<i8>) -> (events: Vec<
    LatestSolidMilestoneChanged,
>)
    requires
        old(tangle).wf(),
        old(tangle).settled_but(hash@),
    ensures
        final(tangle).wf(),
        final(tangle).spec_settled(),
        only_solidified(old(tangle).vertices(), final(tangle).vertices()),
        solidity_kept(old(tangle).vertices(), final(tangle).vertices()),
        final(tangle).entry_points() == old(tangle).entry_points(),
        final(tangle).milestone_indices() == old(tangle).milestone_indices(),
        final(tangle).milestone_hashes() == old(tangle).milestone_hashes(),
        final(tangle).snapshot() == old(tangle).snapshot(),
        final(tangle).pruning() == old(tangle).pruning(),
        final(tangle).latest_solid() >= old(tangle).latest_solid(),
        final(tangle).latest() >= old(tangle).latest(),
        forall|k: int| 0 <= k < events@.len() ==> (#[trigger] events@[k]).0 > old(tangle).latest_solid(),
        forall|j: int, k: int|
            0 <= j < k < events@.len() ==> (#[trigger] events@[j]).0 < (#[trigger] events@[k]).0,
        events@.len() == 0 ==> final(tangle).latest_solid() == old(tangle).latest_solid(),
        events@.len() > 0 ==> final(tangle).latest_solid() == events@.last().0,
        forall|e: int|
            0 <= e < events@.len() ==> milestone_became_solid(
                old(tangle).vertices(),
                final(tangle).vertices(),
                old(tangle).milestone_indices(),
                old(tangle).milestone_hashes(),
                (#[trigger] events@[e]).0,
            ),
        forall|k: int|
            0 <= k < old(tangle).milestone_indices().len() && became_solid(
                old(tangle).vertices(),
                final(tangle).vertices(),
                old(tangle).milestone_hashes(),
                k,
            ) ==> #[trigger] old(tangle).milestone_indices()[k] <= final(tangle).latest_solid(),
{
    let ghost start = tangle.vertices();
    let newly = tangle.propagate_solid(hash);
    let ghost spread = tangle.vertices();
    let ghost indices = tangle.milestone_indices();
    let ghost hashes = tangle.milestone_hashes();
    let mut events: Vec<LatestSolidMilestoneChanged> = Vec::new();
    let m: usize = tangle.milestones.len();
    let mut i: usize = 0;
    while i < newly.len()
        invariant
            i <= newly@.len(),
            tangle.wf(),
            start == old(tangle).vertices(),
            tangle.vertices() == spread,
            only_solidified(start, spread),
            m == tangle.milestones@.len(),
            indices == old(tangle).milestone_indices(),
            hashes == old(tangle).milestone_hashes(),
            indices.len() == m,
            hashes.len() == m,
            tangle.entry_points() == old(tangle).entry_points(),
            tangle.milestone_indices() == indices,
            tangle.milestone_hashes() == hashes,
            tangle.snapshot() == old(tangle).snapshot(),
            tangle.pruning() == old(tangle).pruning(),
            tangle.latest_solid() >= old(tangle).latest_solid(),
            tangle.latest() >= old(tangle).latest(),
            forall|k: int| 0 <= k < newly@.len() ==> present(start, (#[trigger] newly@[k])@)
                && !flagged_solid(start, newly@[k]@) && flagged_solid(spread, newly@[k]@),
            forall|k: int|
                0 <= k < events@.len() ==> (#[trigger] events@[k]).0 > old(tangle).latest_solid(),
            forall|j: int, k: int|
                0 <= j < k < events@.len() ==> (#[trigger] events@[j]).0 < (
                #[trigger] events@[k]).0,
            events@.len() == 0 ==> tangle.latest_solid() == old(tangle).latest_solid(),
            events@.len() > 0 ==> tangle.latest_solid() == events@.last().0,
            forall|e: int|
                0 <= e < events@.len() ==> milestone_became_solid(
                    start,
                    spread,
                    indices,
                    hashes,
                    (#[trigger] events@[e]).0,
                ),
            forall|j: int, k: int|
                0 <= j < i && 0 <= k < m && hashes[k] == (#[trigger] newly@[j])@
                    ==> #[trigger] indices[k] <= tangle.latest_solid(),
        decreases newly@.len() - i,
    {
        let mut k: usize = 0;
        while k < m
            invariant
                k <= m,
                i < newly@.len(),
                tangle.wf(),
                tangle.vertices() == spread,
                m == tangle.milestones@.len(),
                indices.len() == m,
                hashes.len() == m,
                tangle.entry_points() == old(tangle).entry_points(),
                tangle.milestone_indices() == indices,
                tangle.milestone_hashes() == hashes,
                tangle.snapshot() == old(tangle).snapshot(),
                tangle.pruning() == old(tangle).pruning(),
                tangle.latest_solid() >= old(tangle).latest_solid(),
                tangle.latest() >= old(tangle).latest(),
                !flagged_solid(start, newly@[i as int]@),
                flagged_solid(spread, newly@[i as int]@),
                forall|e: int|
                    0 <= e < events@.len() ==> (#[trigger] events@[e]).0 > old(
                        tangle,
                    ).latest_solid(),
                forall|a: int, b: int|
                    0 <= a < b < events@.len() ==> (#[trigger] events@[a]).0 < (
                    #[trigger] events@[b]).0,
                events@.len() == 0 ==> tangle.latest_solid() == old(tangle).latest_solid(),
                events@.len() > 0 ==> tangle.latest_solid() == events@.last().0,
                forall|e: int|
                    0 <= e < events@.len() ==> milestone_became_solid(
                        start,
                        spread,
                        indices,
                        hashes,
                        (#[trigger] events@[e]).0,
                    ),
                forall|j: int, w: int|
                    0 <= j < i && 0 <= w < m && hashes[w] == (#[trigger] newly@[j])@
                        ==> #[trigger] indices[w] <= tangle.latest_solid(),
                forall|w: int|
                    0 <= w < k && hashes[w] == newly@[i as int]@ ==> #[trigger] indices[w]
                        <= tangle.latest_solid(),
            decreases m - k,
        {
            assert(hashes[k as int] == tangle.milestones@[k as int].hash@);
            assert(indices[k as int] == tangle.milestones@[k as int].index);
            if trits_eq(&tangle.milestones[k].hash, &newly[i]) {
                let index: u32 = tangle.milestones[k].index;
                if index > tangle.get_latest_solid_milestone_index() {
                    tangle.update_latest_solid_milestone_index(index);
                    let ghost held = events@;
                    events.push(LatestSolidMilestoneChanged(index));
                    proof {
                        assert(became_solid(start, spread, hashes, k as int));
                        assert forall|a: int, b: int| 0 <= a < b < events@.len() implies (
                        #[trigger] events@[a]).0 < (#[trigger] events@[b]).0 by {
                            if b < held.len() {
                                assert(held[a].0 < held[b].0);
                            } else if held.len() > 0 {
                                if a < held.len() - 1 {
                                    assert(held[a].0 < held[held.len() - 1].0);
                                }
                            }
                        }
                        assert forall|e: int| 0 <= e < events@.len() implies milestone_became_solid(
                            start,
                            spread,
                            indices,
                            hashes,
                            (#[trigger] events@[e]).0,
                        ) by {
                            if e < held.len() {
                                assert(events@[e] == held[e]);
                            } else {
                                assert(indices[k as int] == events@[e].0);
                            }
                        }
                    }
                }
            }
            k = k + 1;
        }
        i = i + 1;
    }
    proof {
        assert forall|k: int|
            0 <= k < m && became_solid(start, spread, hashes, k) implies #[trigger] indices[k]
            <= tangle.latest_solid() by {
            // What became solid is among what the spreading returned.
            let w = choose|w: int|
                0 <= w < spread.len() && (#[trigger] spread[w]).hash == hashes[k]
                    && spread[w].metadata.flags.solid;
            assert(start[w].hash == hashes[k]);
            assert(!start[w].metadata.flags.solid);
            let j = choose|j: int| 0 <= j < newly@.len() && (#[trigger] newly@[j])@ == start[w].hash;
            assert(hashes[k] == newly@[j]@);
        }
    }
    events
}

/// The number of the first `n` peers that are synced: their latest solid
/// milestone is the latest milestone that they know.
pub open spec fn synced_count(peers: Seq<HandshakedPeer>, n: int) -> int
    decreases n,
{
    if n <= 0 {
        0
    } else {
        synced_count(peers, n - 1) + if peers[n - 1].latest_solid_milestone_index
            == peers[n - 1].latest_milestone_index {
            1int
        } else {
            0int
        }
    }
}

/// `count` held to eight bits.
pub open spec fn capped(count: int) -> u8 {
    if count > 255 {
        255
    } else {
        count as u8
    }
}

/// The heartbeat of this node: its watermarks, the number of its peers,
/// and the number of them that are synced, each number held to eight bits.
pub fn make_heartbeat(tangle: &Tangle, peers: &Vec<HandshakedPeer>) -> (heartbeat: Heartbeat)
    ensures
        heartbeat == (Heartbeat {
            latest_solid_milestone_index: tangle.latest_solid(),
            pruned_index: tangle.pruning(),
            latest_milestone_index: tangle.latest(),
            connected_peers: capped(peers@.len() as int),
            synced_peers: capped(synced_count(peers@, peers@.len() as int)),
        }),
{
    let n: usize = peers.len();
    let mut synced: usize = 0;
    let mut i: usize = 0;
    while i < n
        invariant
            i <= n,
            n == peers@.len(),
            synced == synced_count(peers@, i as int),
            synced <= i,
        decreases n - i,
    {
        let peer = peers[i];
        if peer.latest_solid_milestone_index == peer.latest_milestone_index {
            synced = synced + 1;
        }
        i = i + 1;
    }
    let connected_peers: u8 = if n > 255 {
        255
    } else {
        n as u8
    };
    let synced_peers: u8 = if synced > 255 {
        255
    } else {
        synced as u8
    };
    Heartbeat::new(
        tangle.get_latest_solid_milestone_index(),
        tangle.get_pruning_index(),
        tangle.get_latest_milestone_index(),
        connected_peers,
        synced_peers,
    )
}

} // verus!
