//! The milestone solidifier.
//!
//! Milestones are solidified in the order of their indices. The indices
//! that have come in wait in a queue; the one that is expected next is
//! taken as soon as it is there. If its whole past is known, the next
//! index is expected; if not, what is missing is asked for, and the
//! milestone is looked at again when it is announced again.

use vstd::prelude::*;
use crate::bundle::transaction::copy_trits;
use crate::protocol::worker::requester::{
    RequestedTransactions, TransactionRequesterWorkerEntry,
};
use crate::tangle::graph::{is_entry_point, present, Tangle};
use crate::tangle::traversal::{hashes, missing_ancestors, no_duplicates, reached};

verus! {

/// A milestone with this index was validated or has become solid.
#[derive(Clone, Copy, Debug, PartialEq, Eq, Structural)]
pub struct MilestoneSolidifierWorkerEvent(pub u32);

/// Indices fall strictly from one place to the next: the least is last.
pub open spec fn falling(queue: Seq<u32>) -> bool {
    forall|i: int, j: int| 0 <= i < j < queue.len() ==> #[trigger] queue[i] > #[trigger] queue[j]
}

/// Where `index` goes in a falling queue: behind every greater index.
pub open spec fn place_of(queue: Seq<u32>, index: u32, n: int) -> int
    decreases n,
{
    if n <= 0 {
        0
    } else if queue[n - 1] > index {
        n
    } else {
        place_of(queue, index, n - 1)
    }
}

/// The queue with `index` saved: unchanged where it holds the index
/// already, else with the index in its place.
pub open spec fn saved(queue: Seq<u32>, index: u32) -> Seq<u32> {
    if queue.contains(index) {
        queue
    } else {
        queue.insert(place_of(queue, index, queue.len() as int), index)
    }
}

proof fn lemma_place_of(queue: Seq<u32>, index: u32, n: int)
    requires
        falling(queue),
        0 <= n <= queue.len(),
    ensures
        0 <= place_of(queue, index, n) <= n,
        forall|i: int| 0 <= i < place_of(queue, index, n) ==> #[trigger] queue[i] > index,
        forall|i: int| place_of(queue, index, n) <= i < n ==> #[trigger] queue[i] <= index,
    decreases n,
{
    if n > 0 && queue[n - 1] <= index {
        lemma_place_of(queue, index, n - 1);
    } else if n > 0 {
        assert forall|i: int| 0 <= i < n implies #[trigger] queue[i] > index by {
            if i < n - 1 {
                assert(queue[i] > queue[n - 1]);
            }
        }
    }
}

/// Saving keeps the queue falling and makes it hold the index; saving the
/// same index again changes nothing.
pub proof fn lemma_saved(queue: Seq<u32>, index: u32)
    requires
        falling(queue),
    ensures
        falling(saved(queue, index)),
        saved(queue, index).contains(index),
        saved(saved(queue, index), index) == saved(queue, index),
        forall|other: u32| saved(queue, index).contains(other) <==> queue.contains(other) || other == index,
{
    let after = saved(queue, index);
    if !queue.contains(index) {
        let at = place_of(queue, index, queue.len() as int);
        lemma_place_of(queue, index, queue.len() as int);
        assert(after[at] == index);
        assert forall|i: int, j: int| 0 <= i < j < after.len() implies #[trigger] after[i]
            > #[trigger] after[j] by {
            let oi = if i < at {
                i
            } else {
                i - 1
            };
            let oj = if j < at {
                j
            } else {
                j - 1
            };
            if i != at && j != at {
                assert(after[i] == queue[oi]);
                assert(after[j] == queue[oj]);
                assert(queue[oi] > queue[oj]);
            } else if i == at {
                assert(after[j] == queue[oj]);
                assert(queue[oj] <= index);
                assert(queue.contains(queue[oj]));
            } else {
                assert(after[i] == queue[oi]);
            }
        }
        assert forall|other: u32| after.contains(other) <==> queue.contains(other) || other
            == index by {
            if after.contains(other) {
                let w = choose|w: int| 0 <= w < after.len() && after[w] == other;
                if w != at {
                    let ow = if w < at {
                        w
                    } else {
                        w - 1
                    };
                    assert(after[w] == queue[ow]);
                }
            }
            if queue.contains(other) {
                let w = choose|w: int| 0 <= w < queue.len() && queue[w] == other;
                let nw = if w < at {
                    w
                } else {
                    w + 1
                };
                assert(after[nw] == other);
            }
        }
    }
}

/// Stores the index of a milestone in a falling queue, once.
pub fn save_index(target_index: u32, queue: &mut Vec<u32>)
    requires
        falling(old(queue)@),
    ensures
        final(queue)@ == saved(old(queue)@, target_index),
        falling(final(queue)@),
{
    let ghost before = queue@;
    let mut low: usize = 0;
    let mut high: usize = queue.len();
    // Greater indices stand before `low`, lesser or equal ones from `high` on.
    while low < high
        invariant
            low <= high <= queue@.len(),
            queue@ == before,
            falling(before),
            forall|i: int| 0 <= i < low ==> #[trigger] before[i] > target_index,
            forall|i: int| high <= i < before.len() ==> #[trigger] before[i] <= target_index,
        decreases high - low,
    {
        let mid: usize = low + (high - low) / 2;
        if queue[mid] > target_index {
            assert forall|i: int| 0 <= i < mid + 1 implies #[trigger] before[i] > target_index by {
                if i < mid {
                    assert(before[i] > before[mid as int]);
                }
            }
            low = mid + 1;
        } else {
            assert forall|i: int| mid <= i < before.len() implies #[trigger] before[i]
                <= target_index by {
                if i > mid {
                    assert(before[mid as int] > before[i]);
                }
            }
            high = mid;
        }
    }
    proof {
        lemma_place_of(before, target_index, before.len() as int);
        let at = place_of(before, target_index, before.len() as int);
        if at < low {
            assert(before[at] > target_index);
        } else if at > low {
            assert(before[low as int] <= target_index);
        }
        lemma_saved(before, target_index);
    }
    if low < queue.len() && queue[low] == target_index {
        assert(before.contains(target_index));
        return ;
    }
    proof {
        if before.contains(target_index) {
            let w = choose|w: int| 0 <= w < before.len() && before[w] == target_index;
            if w > low {
                assert(before[low as int] > before[w]);
            }
        }
    }
    queue.insert(low, target_index);
}

/// Whether the milestone `index` is known and its tail counts as solid.
pub open spec fn milestone_solid(tangle: Tangle, index: u32) -> bool {
    exists|i: int|
        0 <= i < tangle.milestone_indices().len() && #[trigger] tangle.milestone_indices()[i]
            == index && tangle.spec_is_solid(tangle.milestone_hashes()[i])
}

/// What the solidifier comes to when it takes from a falling queue for as
/// long as the least index is the one expected: the queue that is left and
/// the index expected then. A milestone that is solid moves the expected
/// index on by one; one that is not is taken from the queue all the same.
pub open spec fn settle(queue: Seq<u32>, next: u32, tangle: Tangle) -> (Seq<u32>, u32)
    decreases queue.len(),
{
    if queue.len() == 0 || queue.last() != next {
        (queue, next)
    } else if milestone_solid(tangle, next) && next < u32::MAX {
        settle(queue.drop_last(), (next + 1) as u32, tangle)
    } else {
        settle(queue.drop_last(), next, tangle)
    }
}

/// Whether the past of the milestone `index` lacks `hash`: the walk from
/// the tail of the milestone reaches the hash, and it is neither in the
/// tangle nor a solid entry point.
pub open spec fn lacks(tangle: Tangle, requested: Map<Seq<i8>, (u32, u64)>, index: u32, hash: Seq<i8>) -> bool {
    exists|i: int|
        0 <= i < tangle.milestone_indices().len() && #[trigger] tangle.milestone_indices()[i]
            == index && reached(tangle.vertices(), requested, tangle.milestone_hashes()[i], hash)
            && !present(tangle.vertices(), hash) && !is_entry_point(tangle.entry_points(), hash)
}

/// What one look at a milestone found.
#[derive(Debug)]
pub enum Solidification {
    /// The milestone is not known: it is to be asked for.
    Unknown,
    /// The tail of the milestone counts as solid.
    Solid,
    /// The tail does not count as solid: these transactions are missing
    /// from its past and are to be asked for.
    Missing(Vec<Vec<i8>>),
}

/// Looks at the milestone `target_index`: whether it is known, whether its
/// tail counts as solid, and if not, what its past lacks.
pub fn trigger_solidification_unchecked(
    tangle: &Tangle,
    requested: &RequestedTransactions,
    target_index: u32,
) -> (found: Solidification)
    requires
        tangle.wf(),
    ensures
        found is Unknown <==> !tangle.milestone_indices().contains(target_index),
        found is Solid <==> milestone_solid(*tangle, target_index),
        found matches Solidification::Missing(missing) ==> no_duplicates(hashes(missing@)),
        found matches Solidification::Missing(missing) ==> forall|hash: Seq<i8>|
            #![trigger hashes(missing@).contains(hash)]
            #![trigger lacks(*tangle, requested.requested(), target_index, hash)]
            hashes(missing@).contains(hash) <==> lacks(
                *tangle,
                requested.requested(),
                target_index,
                hash,
            ),
{
    match tangle.get_milestone_hash(target_index) {
        None => Solidification::Unknown,
        Some(target_hash) => {
            let ghost at = choose|i: int|
                0 <= i < tangle.milestone_indices().len() && #[trigger] tangle.milestone_indices()[i]
                    == target_index && tangle.milestone_hashes()[i] == target_hash@;
            proof {
                assert forall|j: int|
                    0 <= j < tangle.milestone_indices().len() && #[trigger] tangle.milestone_indices()[j]
                        == target_index implies j == at by {
                    if j < at {
                        assert(tangle.milestone_indices()[j] != tangle.milestone_indices()[at]);
                    } else if at < j {
                        assert(tangle.milestone_indices()[at] != tangle.milestone_indices()[j]);
                    }
                }
            }
            if tangle.is_solid_transaction(&target_hash) {
                assert(milestone_solid(*tangle, target_index));
                Solidification::Solid
            } else {
                let missing = missing_ancestors(tangle, requested, &target_hash);
                proof {
                    assert(tangle.milestone_indices()[at] == target_index);
                    assert(tangle.milestone_hashes()[at] == target_hash@);
                    assert(!milestone_solid(*tangle, target_index)) by {
                        if milestone_solid(*tangle, target_index) {
                            let i = choose|i: int|
                                0 <= i < tangle.milestone_indices().len()
                                    && #[trigger] tangle.milestone_indices()[i] == target_index
                                    && tangle.spec_is_solid(tangle.milestone_hashes()[i]);
                            assert(i == at);
                        }
                    }
                    assert forall|hash: Seq<i8>| hashes(missing@).contains(hash) <==> lacks(
                        *tangle,
                        requested.requested(),
                        target_index,
                        hash,
                    ) by {
                        if hashes(missing@).contains(hash) {
                            assert(tangle.milestone_indices()[at] == target_index);
                            assert(tangle.milestone_hashes()[at] == target_hash@);
                            assert(reached(
                                tangle.vertices(),
                                requested.requested(),
                                target_hash@,
                                hash,
                            ) && !present(tangle.vertices(), hash) && !is_entry_point(
                                tangle.entry_points(),
                                hash,
                            ));
                        }
                        if lacks(*tangle, requested.requested(), target_index, hash) {
                            let i = choose|i: int|
                                0 <= i < tangle.milestone_indices().len()
                                    && #[trigger] tangle.milestone_indices()[i] == target_index
                                    && reached(
                                    tangle.vertices(),
                                    requested.requested(),
                                    tangle.milestone_hashes()[i],
                                    hash,
                                ) && !present(tangle.vertices(), hash) && !is_entry_point(
                                    tangle.entry_points(),
                                    hash,
                                );
                            assert(i == at);
                            assert(reached(
                                tangle.vertices(),
                                requested.requested(),
                                target_hash@,
                                hash,
                            ));
                        }
                    }
                }
                Solidification::Missing(missing)
            }
        },
    }
}

/// What is to be done after an event of the solidifier.
#[derive(Debug)]
pub struct SolidifierActions {
    /// Milestones to ask for, because they are expected and not known.
    pub milestone_requests: Vec<u32>,
    /// Transactions to ask for, each with the milestone that needs it.
    pub transaction_requests: Vec<TransactionRequesterWorkerEntry>,
    /// Milestones found solid, in rising order.
    pub solidified: Vec<u32>,
}

/// The milestone solidifier: the indices that wait, and the one expected next.
pub struct MilestoneSolidifierWorker {
    queue: Vec<u32>,
    next_ms_index: u32,
}

impl MilestoneSolidifierWorker {
    /// The indices that wait, the least last.
    pub closed spec fn queue(&self) -> Seq<u32> {
        self.queue@
    }

    /// The index that is expected next.
    pub closed spec fn next(&self) -> u32 {
        self.next_ms_index
    }

    /// What holds of every solidifier: its queue is falling.
    pub open spec fn wf(&self) -> bool {
        falling(self.queue())
    }

    /// A solidifier with an empty queue that expects `next_ms_index`.
    pub fn new(next_ms_index: u32) -> (worker: Self)
        ensures
            worker.wf(),
            worker.queue().len() == 0,
            worker.next() == next_ms_index,
    {
        Self { queue: Vec::new(), next_ms_index }
    }

    /// The index that is expected next.
    pub fn next_ms_index(&self) -> (next: u32)
        ensures
            next == self.next(),
    {
        self.next_ms_index
    }

    /// Expects `next_ms_index` from now on.
    pub fn set_next_milestone(&mut self, next_ms_index: u32)
        ensures
            final(self).next() == next_ms_index,
            final(self).queue() == old(self).queue(),
    {
        self.next_ms_index = next_ms_index;
    }

    /// Takes the index of a milestone in and solidifies as far as that goes.
    ///
    /// The index is saved once. Then, for as long as the least index that
    /// waits is the one expected, it is taken from the queue and its
    /// milestone looked at: a solid milestone moves the expected index on;
    /// an unknown one is asked for; for one that is not solid, what its
    /// past lacks is asked for, each transaction once. After a milestone
    /// that did not move the expected index on, nothing more is taken.
    pub fn on_event(
        &mut self,
        event: MilestoneSolidifierWorkerEvent,
        tangle: &Tangle,
        requested: &RequestedTransactions,
    ) -> (actions: SolidifierActions)
        requires
            old(self).wf(),
            tangle.wf(),
        ensures
            final(self).wf(),
            (final(self).queue(), final(self).next()) == settle(
                saved(old(self).queue(), event.0),
                old(self).next(),
                *tangle,
            ),
            final(self).next() >= old(self).next(),
            actions.solidified@.len() == final(self).next() - old(self).next(),
            forall|k: int|
                0 <= k < actions.solidified@.len() ==> #[trigger] actions.solidified@[k] == old(
                    self,
                ).next() + k && milestone_solid(*tangle, actions.solidified@[k]),
            asked_for(
                actions,
                *tangle,
                requested.requested(),
                stalls(saved(old(self).queue(), event.0), old(self).next(), *tangle),
                final(self).next(),
            ),
    {
        save_index(event.0, &mut self.queue);
        let ghost start_queue = self.queue@;
        let ghost start_next = self.next_ms_index;
        let mut actions = SolidifierActions {
            milestone_requests: Vec::new(),
            transaction_requests: Vec::new(),
            solidified: Vec::new(),
        };
        let mut stalled: bool = false;
        loop
            invariant_except_break
                !stalled,
                stalls(self.queue@, self.next_ms_index, *tangle) == stalls(
                    start_queue,
                    start_next,
                    *tangle,
                ),
                actions.milestone_requests@.len() == 0,
                actions.transaction_requests@.len() == 0,
            invariant
                tangle.wf(),
                falling(self.queue@),
                start_next == old(self).next(),
                settle(self.queue@, self.next_ms_index, *tangle) == settle(
                    start_queue,
                    start_next,
                    *tangle,
                ),
                self.next_ms_index >= start_next,
                actions.solidified@.len() == self.next_ms_index - start_next,
                forall|k: int|
                    0 <= k < actions.solidified@.len() ==> #[trigger] actions.solidified@[k]
                        == start_next + k && milestone_solid(*tangle, actions.solidified@[k]),
            ensures
                (self.queue@, self.next_ms_index) == settle(start_queue, start_next, *tangle),
                stalled == stalls(start_queue, start_next, *tangle),
                asked_for(actions, *tangle, requested.requested(), stalled, self.next_ms_index),
            decreases self.queue@.len(),
        {
            let n: usize = self.queue.len();
            if n == 0 {
                break ;
            }
            let index: u32 = self.queue[n - 1];
            if index != self.next_ms_index {
                break ;
            }
            let ghost held = self.queue@;
            self.queue.pop();
            proof {
                assert(self.queue@ == held.drop_last());
                assert forall|i: int, j: int| 0 <= i < j < self.queue@.len() implies #[trigger] self.queue@[i]
                    > #[trigger] self.queue@[j] by {
                    assert(held[i] > held[j]);
                }
                // Whatever waits behind the index that was taken is greater.
                if self.queue@.len() > 0 {
                    assert(self.queue@.last() == held[held.len() - 2]);
                    assert(held[held.len() - 2] > held[held.len() - 1]);
                }
            }
            match trigger_solidification_unchecked(tangle, requested, index) {
                Solidification::Unknown => {
                    actions.milestone_requests.push(index);
                    proof {
                        assert(!milestone_solid(*tangle, index)) by {
                            if milestone_solid(*tangle, index) {
                                let i = choose|i: int|
                                    0 <= i < tangle.milestone_indices().len()
                                        && #[trigger] tangle.milestone_indices()[i] == index
                                        && tangle.spec_is_solid(tangle.milestone_hashes()[i]);
                                assert(tangle.milestone_indices().contains(index));
                            }
                        }
                        assert(actions.milestone_requests@ =~= seq![index]);
                    }
                    proof {
                        assert(settle(held, index, *tangle) == settle(
                            held.drop_last(),
                            index,
                            *tangle,
                        ));
                        assert(settle(self.queue@, index, *tangle) == (self.queue@, index));
                        assert(stalls(held, index, *tangle));
                    }
                    stalled = true;
                    break ;
                },
                Solidification::Solid => {
                    if index < u32::MAX {
                        actions.solidified.push(index);
                        self.next_ms_index = index + 1;
                    } else {
                        proof {
                            assert(settle(held, index, *tangle) == settle(
                                held.drop_last(),
                                index,
                                *tangle,
                            ));
                            assert(settle(self.queue@, index, *tangle) == (self.queue@, index));
                            assert(stalls(held, index, *tangle));
                        }
                        stalled = true;
                        break ;
                    }
                },
                Solidification::Missing(missing) => {
                    let ghost found = hashes(missing@);
                    let ghost held_solidified = actions.solidified@;
                    let ghost held_milestones = actions.milestone_requests@;
                    let mut k: usize = 0;
                    assert(request_hashes(actions.transaction_requests@) =~= found.subrange(0, 0));
                    while k < missing.len()
                        invariant
                            k <= missing@.len(),
                            found == hashes(missing@),
                            request_hashes(actions.transaction_requests@) == found.subrange(
                                0,
                                k as int,
                            ),
                            forall|r: int|
                                0 <= r < actions.transaction_requests@.len() ==> (
                                #[trigger] actions.transaction_requests@[r]).1 == index,
                            actions.solidified@ == held_solidified,
                            actions.milestone_requests@ == held_milestones,
                        decreases missing@.len() - k,
                    {
                        let hash = copy_trits(&missing[k]);
                        assert(hash@ == found[k as int]);
                        let ghost held_requests = actions.transaction_requests@;
                        actions.transaction_requests.push(
                            TransactionRequesterWorkerEntry(hash, index),
                        );
                        proof {
                            assert(request_hashes(actions.transaction_requests@)
                                =~= request_hashes(held_requests).push(found[k as int]));
                            assert(found.subrange(0, k as int).push(found[k as int])
                                =~= found.subrange(0, k + 1));
                            assert forall|r: int|
                                0 <= r < actions.transaction_requests@.len() implies (
                            #[trigger] actions.transaction_requests@[r]).1 == index by {
                                if r < held_requests.len() {
                                    assert(actions.transaction_requests@[r] == held_requests[r]);
                                }
                            }
                        }
                        k = k + 1;
                    }
                    proof {
                        assert(found.subrange(0, found.len() as int) =~= found);
                        assert(!milestone_solid(*tangle, index));
                    }
                    proof {
                        assert(settle(held, index, *tangle) == settle(
                            held.drop_last(),
                            index,
                            *tangle,
                        ));
                        assert(settle(self.queue@, index, *tangle) == (self.queue@, index));
                        assert(stalls(held, index, *tangle));
                    }
                    stalled = true;
                    break ;
                },
            }
        }
        actions
    }
}

/// The hashes that requests ask for.
pub open spec fn request_hashes(requests: Seq<TransactionRequesterWorkerEntry>) -> Seq<Seq<i8>> {
    Seq::new(requests.len(), |i: int| requests[i].0@)
}

/// Whether the solidifier, taking from a falling queue for as long as the
/// least index is the one expected, comes upon a milestone that does not
/// move the expected index on.
pub open spec fn stalls(queue: Seq<u32>, next: u32, tangle: Tangle) -> bool
    decreases queue.len(),
{
    if queue.len() == 0 || queue.last() != next {
        false
    } else if milestone_solid(tangle, next) && next < u32::MAX {
        stalls(queue.drop_last(), (next + 1) as u32, tangle)
    } else {
        true
    }
}

/// What the solidifier asks for. Where it did not stall, nothing. Where
/// it stalled on the milestone `next`: the milestone itself if it is not
/// known; nothing if it is solid; else every transaction that its past
/// lacks, once, each for that milestone.
pub open spec fn asked_for(
    actions: SolidifierActions,
    tangle: Tangle,
    requested: Map<Seq<i8>, (u32, u64)>,
    stalled: bool,
    next: u32,
) -> bool {
    if !stalled || milestone_solid(tangle, next) {
        actions.milestone_requests@.len() == 0 && actions.transaction_requests@.len() == 0
    } else if !tangle.milestone_indices().contains(next) {
        actions.milestone_requests@ == seq![next] && actions.transaction_requests@.len() == 0
    } else {
        &&& actions.milestone_requests@.len() == 0
        &&& no_duplicates(request_hashes(actions.transaction_requests@))
        &&& forall|r: int|
            0 <= r < actions.transaction_requests@.len() ==> (
            #[trigger] actions.transaction_requests@[r]).1 == next
        &&& forall|hash: Seq<i8>|
            #![trigger request_hashes(actions.transaction_requests@).contains(hash)]
            #![trigger lacks(tangle, requested, next, hash)]
            request_hashes(actions.transaction_requests@).contains(hash) <==> lacks(
                tangle,
                requested,
                next,
                hash,
            )
    }
}

} // verus!
