//! What follows from a validated milestone.
//!
//! The signature of a milestone candidate is checked elsewhere. A milestone
//! that passed is recorded; it is announced as the latest milestone when
//! its index is above every index announced before.

use vstd::prelude::*;
use crate::protocol::worker::requester::{milestone_requested, RequestedMilestones};
use crate::tangle::graph::Tangle;

verus! {

/// The latest milestone has changed: index and hash of the new one.
#[derive(Debug)]
pub struct LatestMilestoneChanged {
    pub index: u32,
    pub hash: Vec<i8>,
}

/// Records a milestone whose signature was found valid, settles the
/// request for it, and says whether it is to be announced as the latest.
///
/// A milestone is announced exactly when its index is above the latest
/// milestone index, which then becomes its index: so the indices that are
/// announced rise strictly.
pub fn register_milestone(
    tangle: &mut Tangle,
    requested: &mut RequestedMilestones,
    index: u32,
    hash: Vec<i8>,
) -> (event: Option<LatestMilestoneChanged>)
    requires
        old(tangle).wf(),
    ensures
        final(tangle).wf(),
        final(requested).requested() == old(requested).requested().remove(index),
        !milestone_requested(final(requested).requested(), index),
        forall|other: u32|
            other != index ==> milestone_requested(final(requested).requested(), other)
                == milestone_requested(old(requested).requested(), other),
        event.is_some() == (index > old(tangle).latest()),
        event matches Some(e) ==> e.index == index && e.hash@ == hash@,
        final(tangle).latest() == (if index > old(tangle).latest() {
            index
        } else {
            old(tangle).latest()
        }),
        final(tangle).milestone_indices().contains(index),
        !old(tangle).milestone_indices().contains(index) ==> final(tangle).milestone_indices() == old(
            tangle,
        ).milestone_indices().push(index) && final(tangle).milestone_hashes() == old(
            tangle,
        ).milestone_hashes().push(hash@),
        old(tangle).milestone_indices().contains(index) ==> final(tangle).milestone_indices() == old(
            tangle,
        ).milestone_indices() && final(tangle).milestone_hashes() == old(tangle).milestone_hashes(),
        final(tangle).vertices() == old(tangle).vertices(),
        final(tangle).entry_points() == old(tangle).entry_points(),
        final(tangle).latest_solid() == old(tangle).latest_solid(),
        final(tangle).snapshot() == old(tangle).snapshot(),
        final(tangle).pruning() == old(tangle).pruning(),
{
    let announced = crate::bundle::transaction::copy_trits(&hash);
    let _ = requested.remove(index);
    let added = tangle.add_milestone(index, hash);
    proof {
        if added {
            let indices = tangle.milestone_indices();
            assert(indices[indices.len() - 1] == index);
        }
    }
    if index > tangle.get_latest_milestone_index() {
        tangle.update_latest_milestone_index(index);
        Some(LatestMilestoneChanged { index, hash: announced })
    } else {
        None
    }
}

/// The indices that are announced when milestones with these indices are
/// registered one after another, the latest milestone index being `latest`
/// at the start.
pub open spec fn announced(indices: Seq<u32>, latest: u32) -> Seq<u32>
    decreases indices.len(),
{
    if indices.len() == 0 {
        Seq::empty()
    } else if indices[0] > latest {
        seq![indices[0]] + announced(indices.subrange(1, indices.len() as int), indices[0])
    } else {
        announced(indices.subrange(1, indices.len() as int), latest)
    }
}

/// Whatever milestones are registered in whatever order, the indices that
/// are announced rise strictly, and all are above the latest milestone
/// index from before.
pub proof fn lemma_announced_rise(indices: Seq<u32>, latest: u32)
    ensures
        forall|i: int|
            0 <= i < announced(indices, latest).len() ==> #[trigger] announced(indices, latest)[i]
                > latest,
        forall|i: int, j: int|
            0 <= i < j < announced(indices, latest).len() ==> #[trigger] announced(
                indices,
                latest,
            )[i] < #[trigger] announced(indices, latest)[j],
    decreases indices.len(),
{
    let all = announced(indices, latest);
    if indices.len() == 0 {
        assert(all.len() == 0);
    } else {
        let rest = indices.subrange(1, indices.len() as int);
        if indices[0] > latest {
            lemma_announced_rise(rest, indices[0]);
            let tail = announced(rest, indices[0]);
            assert(all == seq![indices[0]] + tail);
            assert(all.len() == tail.len() + 1);
            assert(all[0] == indices[0]);
            assert forall|i: int| 0 <= i < all.len() implies #[trigger] all[i] > latest by {
                if i > 0 {
                    assert(all[i] == tail[i - 1]);
                    assert(tail[i - 1] > indices[0]);
                }
            }
            assert forall|i: int, j: int| 0 <= i < j < all.len() implies #[trigger] all[i]
                < #[trigger] all[j] by {
                assert(all[j] == tail[j - 1]);
                assert(tail[j - 1] > indices[0]);
                if i > 0 {
                    assert(all[i] == tail[i - 1]);
                    assert(tail[i - 1] < tail[j - 1]);
                }
            }
        } else {
            lemma_announced_rise(rest, latest);
            let tail = announced(rest, latest);
            assert(all == tail);
            assert forall|i: int| 0 <= i < all.len() implies #[trigger] all[i] > latest by {
                assert(tail[i] > latest);
            }
            assert forall|i: int, j: int| 0 <= i < j < all.len() implies #[trigger] all[i]
                < #[trigger] all[j] by {
                assert(tail[i] < tail[j]);
            }
        }
    }
}

} // verus!
