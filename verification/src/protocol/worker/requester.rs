//! Outstanding requests for transactions and milestones.
//!
//! A request waits in a queue that is a set by key and a priority queue by
//! milestone index: the lowest index leaves first, and among equal indices
//! the one that was placed first. What has been asked of a peer is kept,
//! with the time of the first asking, until it arrives.

use vstd::prelude::*;
use crate::bundle::transaction::copy_trits;
use crate::protocol::peer::EndpointId;
use crate::ternary::trits::trits_eq;
use dashmap::DashMap;

verus! {

/// The concurrent map of the `dashmap` crate. Nothing is seen inside it:
/// what a map holds is named for each kind of map that the library keeps.
#[verifier::external_type_specification]
#[verifier::external_body]
#[verifier::reject_recursive_types(K)]
#[verifier::reject_recursive_types(V)]
#[verifier::reject_recursive_types(S)]
pub struct ExDashMap<K, V, S>(DashMap<K, V, S>);

/// A request for the transaction with hash `.0`, which the milestone `.1` confirms.
#[derive(Debug)]
pub struct TransactionRequesterWorkerEntry(pub Vec<i8>, pub u32);

/// A request for the milestone `.0`, to be asked of the peer `.1` if one is given.
#[derive(Clone, Copy, Debug, PartialEq, Eq, Structural)]
pub struct MilestoneRequesterWorkerEntry(pub u32, pub Option<EndpointId>);

/// A request as plain values: the key and the priority.
pub struct RequestView {
    pub key: Seq<i8>,
    pub priority: u32,
}

/// Whether a request with this key waits.
pub open spec fn waits(queue: Seq<RequestView>, key: Seq<i8>) -> bool {
    exists|i: int| 0 <= i < queue.len() && (#[trigger] queue[i]).key == key
}

/// The number of requests among the first `n` with this key.
pub open spec fn occurrences(queue: Seq<RequestView>, key: Seq<i8>, n: int) -> int
    decreases n,
{
    if n <= 0 {
        0
    } else {
        occurrences(queue, key, n - 1) + if queue[n - 1].key == key {
            1int
        } else {
            0int
        }
    }
}

/// Priorities never fall from one request to the next.
pub open spec fn ordered(queue: Seq<RequestView>) -> bool {
    forall|i: int, j: int|
        0 <= i < j < queue.len() ==> (#[trigger] queue[i]).priority <= (#[trigger] queue[j]).priority
}

/// No two requests have the same key.
pub open spec fn distinct_keys(queue: Seq<RequestView>) -> bool {
    forall|i: int, j: int|
        0 <= i < j < queue.len() ==> (#[trigger] queue[i]).key != (#[trigger] queue[j]).key
}

/// Where a new request of this priority goes: behind every request whose
/// priority is not higher than its own.
pub open spec fn slot(queue: Seq<RequestView>, priority: u32, n: int) -> int
    decreases n,
{
    if n <= 0 {
        0
    } else if queue[n - 1].priority <= priority {
        n
    } else {
        slot(queue, priority, n - 1)
    }
}

/// The queue after a request was placed: unchanged where the key waits
/// already, else with the request in its slot.
pub open spec fn placed(queue: Seq<RequestView>, key: Seq<i8>, priority: u32) -> Seq<RequestView> {
    if waits(queue, key) {
        queue
    } else {
        queue.insert(slot(queue, priority, queue.len() as int), RequestView { key, priority })
    }
}

/// The priority under which a key waits.
pub open spec fn priority_of(queue: Seq<RequestView>, key: Seq<i8>) -> u32 {
    let i = choose|i: int| 0 <= i < queue.len() && (#[trigger] queue[i]).key == key;
    queue[i].priority
}

pub proof fn lemma_slot(queue: Seq<RequestView>, priority: u32, n: int)
    requires
        ordered(queue),
        0 <= n <= queue.len(),
    ensures
        0 <= slot(queue, priority, n) <= n,
        forall|i: int| 0 <= i < slot(queue, priority, n) ==> (#[trigger] queue[i]).priority <= priority,
        forall|i: int| slot(queue, priority, n) <= i < n ==> (#[trigger] queue[i]).priority > priority,
    decreases n,
{
    if n > 0 && queue[n - 1].priority > priority {
        lemma_slot(queue, priority, n - 1);
    } else if n > 0 {
        assert forall|i: int| 0 <= i < n implies (#[trigger] queue[i]).priority <= priority by {
            if i < n - 1 {
                assert(queue[i].priority <= queue[n - 1].priority);
            }
        }
    }
}

proof fn lemma_occurrences_none(queue: Seq<RequestView>, key: Seq<i8>, n: int)
    requires
        0 <= n <= queue.len(),
        forall|i: int| 0 <= i < n ==> (#[trigger] queue[i]).key != key,
    ensures
        occurrences(queue, key, n) == 0,
    decreases n,
{
    if n > 0 {
        lemma_occurrences_none(queue, key, n - 1);
    }
}

proof fn lemma_occurrences_one(queue: Seq<RequestView>, key: Seq<i8>, at: int, n: int)
    requires
        0 <= at < queue.len(),
        0 <= n <= queue.len(),
        queue[at].key == key,
        forall|i: int| 0 <= i < queue.len() && i != at ==> (#[trigger] queue[i]).key != key,
    ensures
        occurrences(queue, key, n) == if at < n {
            1int
        } else {
            0int
        },
    decreases n,
{
    if n > 0 {
        lemma_occurrences_one(queue, key, at, n - 1);
    }
}

/// Placing a request keeps the queue ordered and its keys distinct, and
/// makes the key wait.
pub proof fn lemma_placed(queue: Seq<RequestView>, key: Seq<i8>, priority: u32)
    requires
        ordered(queue),
        distinct_keys(queue),
    ensures
        ordered(placed(queue, key, priority)),
        distinct_keys(placed(queue, key, priority)),
        waits(placed(queue, key, priority), key),
        !waits(queue, key) ==> priority_of(placed(queue, key, priority), key) == priority,
        occurrences(placed(queue, key, priority), key, placed(queue, key, priority).len() as int)
            == 1,
{
    let after = placed(queue, key, priority);
    if waits(queue, key) {
        let w = choose|w: int| 0 <= w < queue.len() && (#[trigger] queue[w]).key == key;
        assert forall|i: int| 0 <= i < queue.len() && i != w implies (#[trigger] queue[i]).key
            != key by {
            if i < w {
                assert(queue[i].key != queue[w].key);
            } else {
                assert(queue[w].key != queue[i].key);
            }
        }
        lemma_occurrences_one(queue, key, w, queue.len() as int);
    } else {
        let at = slot(queue, priority, queue.len() as int);
        lemma_slot(queue, priority, queue.len() as int);
        assert(after[at].key == key);
        assert forall|i: int, j: int| 0 <= i < j < after.len() implies (
        #[trigger] after[i]).priority <= (#[trigger] after[j]).priority by {
            let oi = if i < at {
                i
            } else {
                i - 1
            };
            let oj = if j < at {
                j
            } else {
                j - 1
            };
            if i != at && j != at {
                assert(after[i] == queue[oi]);
                assert(after[j] == queue[oj]);
                assert(queue[oi].priority <= queue[oj].priority);
            } else if i == at {
                assert(after[j] == queue[oj]);
                assert(queue[oj].priority > priority);
            } else {
                assert(after[i] == queue[oi]);
                assert(queue[oi].priority <= priority);
            }
        }
        assert forall|i: int, j: int| 0 <= i < j < after.len() implies (#[trigger] after[i]).key != (
        #[trigger] after[j]).key by {
            let oi = if i < at {
                i
            } else {
                i - 1
            };
            let oj = if j < at {
                j
            } else {
                j - 1
            };
            if i != at && j != at {
                assert(after[i] == queue[oi]);
                assert(after[j] == queue[oj]);
                assert(queue[oi].key != queue[oj].key);
            } else if i == at {
                assert(after[j] == queue[oj]);
            } else {
                assert(after[i] == queue[oi]);
            }
        }
        assert forall|i: int| 0 <= i < after.len() && i != at implies (#[trigger] after[i]).key
            != key by {
            let oi = if i < at {
                i
            } else {
                i - 1
            };
            assert(after[i] == queue[oi]);
        }
        lemma_occurrences_one(after, key, at, after.len() as int);
        let w = choose|w: int| 0 <= w < after.len() && (#[trigger] after[w]).key == key;
        assert(w == at);
    }
}

/// Placing the same key twice is placing it once: the second request
/// changes nothing, whatever its priority, so that the key waits once and
/// under the priority of the first request.
pub proof fn lemma_insert_twice(queue: Seq<RequestView>, key: Seq<i8>, first: u32, second: u32)
    requires
        ordered(queue),
        distinct_keys(queue),
    ensures
        placed(placed(queue, key, first), key, second) == placed(queue, key, first),
        occurrences(
            placed(placed(queue, key, first), key, second),
            key,
            placed(placed(queue, key, first), key, second).len() as int,
        ) == 1,
        !waits(queue, key) ==> priority_of(placed(placed(queue, key, first), key, second), key)
            == first,
{
    lemma_placed(queue, key, first);
}

/// The queue of the transaction requester.
pub struct WaitPriorityQueue {
    entries: Vec<TransactionRequesterWorkerEntry>,
}

impl WaitPriorityQueue {
    /// The requests that wait, the next to leave first.
    pub closed spec fn requests(&self) -> Seq<RequestView> {
        Seq::new(
            self.entries@.len(),
            |i: int| RequestView { key: self.entries@[i].0@, priority: self.entries@[i].1 },
        )
    }

    /// What holds of every queue: priorities are in order and keys distinct.
    pub open spec fn wf(&self) -> bool {
        ordered(self.requests()) && distinct_keys(self.requests())
    }

    /// An empty queue.
    pub fn new() -> (queue: Self)
        ensures
            queue.wf(),
            queue.requests().len() == 0,
    {
        Self { entries: Vec::new() }
    }

    /// Number of requests that wait.
    pub fn len(&self) -> (len: usize)
        ensures
            len == self.requests().len(),
    {
        self.entries.len()
    }

    /// Whether no request waits.
    pub fn is_empty(&self) -> (empty: bool)
        ensures
            empty == (self.requests().len() == 0),
    {
        self.entries.len() == 0
    }

    /// Whether a request with this key waits.
    pub fn contains(&self, key: &Vec<i8>) -> (found: bool)
        ensures
            found == waits(self.requests(), key@),
    {
        let mut i: usize = 0;
        while i < self.entries.len()
            invariant
                i <= self.entries@.len(),
                forall|j: int| 0 <= j < i ==> (#[trigger] self.requests()[j]).key != key@,
            decreases self.entries@.len() - i,
        {
            if trits_eq(&self.entries[i].0, key) {
                assert(self.requests()[i as int].key == key@);
                return true;
            }
            i = i + 1;
        }
        false
    }

    /// Places a request. A request whose key waits already changes nothing.
    pub fn insert(&mut self, entry: TransactionRequesterWorkerEntry) -> (inserted: bool)
        requires
            old(self).wf(),
        ensures
            final(self).wf(),
            inserted == !waits(old(self).requests(), entry.0@),
            final(self).requests() == placed(old(self).requests(), entry.0@, entry.1),
    {
        if self.contains(&entry.0) {
            return false;
        }
        let ghost before = self.requests();
        let priority: u32 = entry.1;
        let mut at: usize = self.entries.len();
        while at > 0 && self.entries[at - 1].1 > priority
            invariant
                at <= self.entries@.len(),
                self.requests() == before,
                slot(before, priority, before.len() as int) == slot(before, priority, at as int),
            decreases at,
        {
            assert(before[at - 1] == RequestView {
                key: self.entries@[at - 1].0@,
                priority: self.entries@[at - 1].1,
            });
            at = at - 1;
        }
        proof {
            if at > 0 {
                assert(before[at - 1].priority == self.entries@[at - 1].1);
            }
            lemma_placed(before, entry.0@, priority);
        }
        self.entries.insert(at, entry);
        assert(self.requests() =~= placed(before, entry.0@, priority));
        true
    }

    /// Takes the next request: the one with the lowest milestone index, and
    /// among those the one that was placed first.
    pub fn pop(&mut self) -> (entry: Option<TransactionRequesterWorkerEntry>)
        requires
            old(self).wf(),
        ensures
            final(self).wf(),
            entry.is_some() == (old(self).requests().len() > 0),
            entry matches Some(e) ==> e.0@ == old(self).requests()[0].key && e.1 == old(
                self,
            ).requests()[0].priority && final(self).requests() == old(self).requests().subrange(
                1,
                old(self).requests().len() as int,
            ),
            entry.is_none() ==> final(self).requests() == old(self).requests(),
    {
        if self.entries.len() == 0 {
            return None;
        }
        let ghost before = self.requests();
        let entry = self.entries.remove(0);
        proof {
            let after = self.requests();
            assert(after =~= before.subrange(1, before.len() as int));
            assert forall|i: int, j: int| 0 <= i < j < after.len() implies (
            #[trigger] after[i]).priority <= (#[trigger] after[j]).priority by {
                assert(before[i + 1].priority <= before[j + 1].priority);
            }
            assert forall|i: int, j: int| 0 <= i < j < after.len() implies (#[trigger] after[i]).key
                != (#[trigger] after[j]).key by {
                assert(before[i + 1].key != before[j + 1].key);
            }
            assert(before[0] == RequestView { key: entry.0@, priority: entry.1 });
        }
        Some(entry)
    }
}

/// Whether `hash` is among the requested.
pub open spec fn is_requested(requested: Map<Seq<i8>, (u32, u64)>, hash: Seq<i8>) -> bool {
    requested.dom().contains(hash)
}

/// What a map of requested transactions holds: for each hash that is
/// requested, the index of the milestone that it was asked for and the
/// time when it was first asked for, in milliseconds.
pub uninterp spec fn transaction_entries(map: DashMap<Vec<i8>, (u32, u64)>) -> Map<
    Seq<i8>,
    (u32, u64),
>;

/// No transaction is requested.
pub open spec fn no_transactions() -> Map<Seq<i8>, (u32, u64)> {
    Map::empty()
}

/// What is under `hash`, if anything is.
pub open spec fn entry_of(requested: Map<Seq<i8>, (u32, u64)>, hash: Seq<i8>) -> Option<(u32, u64)> {
    if requested.dom().contains(hash) {
        Some(requested[hash])
    } else {
        None
    }
}

/// Whether `list` holds the entries of `requested`, each once, in
/// whatever order: the hash, the index, and the time of the first asking.
pub open spec fn lists_entries(
    requested: Map<Seq<i8>, (u32, u64)>,
    list: Seq<(Vec<i8>, u32, u64)>,
) -> bool {
    &&& forall|i: int, j: int|
        0 <= i < j < list.len() ==> (#[trigger] list[i]).0@ != (#[trigger] list[j]).0@
    &&& forall|i: int|
        0 <= i < list.len() ==> entry_of(requested, (#[trigger] list[i]).0@) == Some(
            (list[i].1, list[i].2),
        )
    &&& forall|hash: Seq<i8>|
        requested.dom().contains(hash) ==> exists|i: int|
            0 <= i < list.len() && (#[trigger] list[i]).0@ == hash
}

/// An empty map, as `DashMap::new` makes it.
#[verifier::external_body]
fn transactions_new() -> (made: DashMap<Vec<i8>, (u32, u64)>)
    ensures
        transaction_entries(made) == no_transactions(),
{
    DashMap::new()
}

/// The number of entries, as `DashMap::len` counts them.
#[verifier::external_body]
fn transactions_len(map: &DashMap<Vec<i8>, (u32, u64)>) -> (len: usize)
    ensures
        len == transaction_entries(*map).len(),
{
    map.len()
}

/// The value under a key, as `DashMap::get` finds it, copied out. Keys
/// are the same when they hold the same trits.
#[verifier::external_body]
fn transactions_get(map: &DashMap<Vec<i8>, (u32, u64)>, hash: &Vec<i8>) -> (found: Option<
    (u32, u64),
>)
    ensures
        found == entry_of(transaction_entries(*map), hash@),
{
    map.get(hash).map(|entry| *entry.value())
}

/// Puts a value under a key, as `DashMap::insert` does: the value that
/// was there, if any, is replaced and returned.
#[verifier::external_body]
fn transactions_insert(
    map: &mut DashMap<Vec<i8>, (u32, u64)>,
    hash: Vec<i8>,
    index: u32,
    now: u64,
) -> (previous: Option<(u32, u64)>)
    ensures
        transaction_entries(*final(map)) == transaction_entries(*old(map)).insert(
            hash@,
            (index, now),
        ),
        previous == entry_of(transaction_entries(*old(map)), hash@),
{
    map.insert(hash, (index, now))
}

/// Takes a key out, as `DashMap::remove` does, and returns the value that
/// was under it, if any.
#[verifier::external_body]
fn transactions_remove(map: &mut DashMap<Vec<i8>, (u32, u64)>, hash: &Vec<i8>) -> (removed: Option<
    (u32, u64),
>)
    ensures
        transaction_entries(*final(map)) == transaction_entries(*old(map)).remove(hash@),
        removed == entry_of(transaction_entries(*old(map)), hash@),
{
    map.remove(hash).map(|entry| entry.1)
}

/// The entries of the map, as `DashMap::iter` walks them: each once, in
/// an order that is the map's own.
#[verifier::external_body]
fn transactions_list(map: &DashMap<Vec<i8>, (u32, u64)>) -> (list: Vec<(Vec<i8>, u32, u64)>)
    ensures
        lists_entries(transaction_entries(*map), list@),
{
    map.iter().map(|entry| (entry.key().clone(), entry.value().0, entry.value().1)).collect()
}

/// The transactions that were asked for and have not arrived.
pub struct RequestedTransactions {
    entries: DashMap<Vec<i8>, (u32, u64)>,
}

/// Whether a request that was first made at `first_request` has waited
/// for `interval` or more at `now`.
pub open spec fn is_due(first_request: u64, now: u64, interval: u64) -> bool {
    first_request + interval <= now
}

/// Whether `again` holds, each once, the requested transactions that have
/// waited for `interval` or more at `now`, each with the index that it was
/// asked for.
pub open spec fn due_again(
    requested: Map<Seq<i8>, (u32, u64)>,
    now: u64,
    interval: u64,
    again: Seq<RequestView>,
) -> bool {
    &&& forall|i: int, j: int|
        0 <= i < j < again.len() ==> (#[trigger] again[i]).key != (#[trigger] again[j]).key
    &&& forall|k: int|
        0 <= k < again.len() ==> {
            &&& requested.dom().contains((#[trigger] again[k]).key)
            &&& again[k].priority == requested[again[k].key].0
            &&& is_due(requested[again[k].key].1, now, interval)
        }
    &&& forall|hash: Seq<i8>|
        requested.dom().contains(hash) && is_due(requested[hash].1, now, interval) ==> exists|k: int|
            0 <= k < again.len() && (#[trigger] again[k]).key == hash
}

impl RequestedTransactions {
    /// What is requested: for each hash, the index of the milestone that
    /// it was asked for and the time of the first asking.
    pub closed spec fn requested(&self) -> Map<Seq<i8>, (u32, u64)> {
        transaction_entries(self.entries)
    }

    pub fn new() -> (map: Self)
        ensures
            map.requested() == no_transactions(),
    {
        Self { entries: transactions_new() }
    }

    pub fn len(&self) -> (len: usize)
        ensures
            len == self.requested().len(),
    {
        transactions_len(&self.entries)
    }

    /// Whether `hash` is requested.
    pub fn contains_key(&self, hash: &Vec<i8>) -> (found: bool)
        ensures
            found == is_requested(self.requested(), hash@),
    {
        transactions_get(&self.entries, hash).is_some()
    }

    /// Records that `hash` was asked for at `now`. A hash that is requested
    /// already keeps the time of its first asking and its index.
    pub fn insert(&mut self, hash: Vec<i8>, index: u32, now: u64) -> (inserted: bool)
        ensures
            inserted == !is_requested(old(self).requested(), hash@),
            inserted ==> final(self).requested() == old(self).requested().insert(
                hash@,
                (index, now),
            ),
            !inserted ==> final(self).requested() == old(self).requested(),
    {
        if self.contains_key(&hash) {
            return false;
        }
        let _ = transactions_insert(&mut self.entries, hash, index, now);
        true
    }

    /// Forgets `hash` because it arrived. Returns the index that it was
    /// requested for and the time of the first asking, if it was requested.
    pub fn remove(&mut self, hash: &Vec<i8>) -> (removed: Option<(u32, u64)>)
        ensures
            removed == entry_of(old(self).requested(), hash@),
            final(self).requested() == old(self).requested().remove(hash@),
    {
        transactions_remove(&mut self.entries, hash)
    }

    /// The requests that have waited for `interval` milliseconds or more at
    /// `now` and are asked for again, each once.
    pub fn due(&self, now: u64, interval: u64) -> (again: Vec<TransactionRequesterWorkerEntry>)
        ensures
            due_again(self.requested(), now, interval, entry_views(again@)),
    {
        let ghost requested = self.requested();
        let list = transactions_list(&self.entries);
        let mut again: Vec<TransactionRequesterWorkerEntry> = Vec::new();
        let ghost mut from: Seq<int> = Seq::empty();
        let mut i: usize = 0;
        while i < list.len()
            invariant
                i <= list@.len(),
                lists_entries(requested, list@),
                from.len() == again@.len(),
                forall|k: int| 0 <= k < from.len() ==> 0 <= #[trigger] from[k] < i,
                forall|j: int, k: int| 0 <= j < k < from.len() ==> #[trigger] from[j] < #[trigger] from[k],
                forall|k: int|
                    0 <= k < again@.len() ==> (#[trigger] again@[k]).0@ == list@[from[k]].0@
                        && again@[k].1 == list@[from[k]].1 && is_due(
                        list@[from[k]].2,
                        now,
                        interval,
                    ),
                forall|m: int|
                    0 <= m < i && is_due((#[trigger] list@[m]).2, now, interval)
                        ==> from.contains(m),
            decreases list@.len() - i,
        {
            let first: u64 = list[i].2;
            if first as u128 + interval as u128 <= now as u128 {
                let ghost held = again@;
                let ghost held_from = from;
                again.push(TransactionRequesterWorkerEntry(copy_trits(&list[i].0), list[i].1));
                proof {
                    from = from.push(i as int);
                    assert forall|k: int| 0 <= k < again@.len() implies (#[trigger] again@[k]).0@
                        == list@[from[k]].0@ && again@[k].1 == list@[from[k]].1 && is_due(
                        list@[from[k]].2,
                        now,
                        interval,
                    ) by {
                        if k < held.len() {
                            assert(again@[k] == held[k]);
                            assert(from[k] == held_from[k]);
                        }
                    }
                    assert forall|j: int, k: int| 0 <= j < k < from.len() implies #[trigger] from[j]
                        < #[trigger] from[k] by {
                        assert(from[j] == held_from[j]);
                        if k < held_from.len() {
                            assert(from[k] == held_from[k]);
                        }
                    }
                    assert forall|m: int|
                        0 <= m < i + 1 && is_due((#[trigger] list@[m]).2, now, interval) implies from.contains(
                        m,
                    ) by {
                        if m < i {
                            let w = choose|w: int| 0 <= w < held_from.len() && held_from[w] == m;
                            assert(from[w] == m);
                        } else {
                            assert(from[from.len() - 1] == m);
                        }
                    }
                }
            }
            i = i + 1;
        }
        proof {
            let views = entry_views(again@);
            assert forall|j: int, k: int| 0 <= j < k < views.len() implies (#[trigger] views[j]).key
                != (#[trigger] views[k]).key by {
                assert(from[j] < from[k]);
                assert(again@[j].0@ == list@[from[j]].0@);
                assert(again@[k].0@ == list@[from[k]].0@);
                assert(list@[from[j]].0@ != list@[from[k]].0@);
            }
            assert forall|k: int| 0 <= k < views.len() implies {
                &&& requested.dom().contains((#[trigger] views[k]).key)
                &&& views[k].priority == requested[views[k].key].0
                &&& is_due(requested[views[k].key].1, now, interval)
            } by {
                assert(again@[k].0@ == list@[from[k]].0@);
                assert(entry_of(requested, list@[from[k]].0@) == Some(
                    (list@[from[k]].1, list@[from[k]].2),
                ));
            }
            assert forall|hash: Seq<i8>|
                requested.dom().contains(hash) && is_due(
                    requested[hash].1,
                    now,
                    interval,
                ) implies exists|k: int| 0 <= k < views.len() && (#[trigger] views[k]).key == hash by {
                let m = choose|m: int| 0 <= m < list@.len() && (#[trigger] list@[m]).0@ == hash;
                assert(entry_of(requested, list@[m].0@) == Some(
                    (list@[m].1, list@[m].2),
                ));
                assert(from.contains(m));
                let w = choose|w: int| 0 <= w < from.len() && from[w] == m;
                assert(views[w].key == again@[w].0@);
            }
        }
        again
    }
}

/// Requests as plain values.
pub open spec fn entry_views(entries: Seq<TransactionRequesterWorkerEntry>) -> Seq<RequestView> {
    Seq::new(entries.len(), |i: int| RequestView { key: entries[i].0@, priority: entries[i].1 })
}

/// The queue of the milestone requester: indices in rising order, each once.
pub struct MilestoneRequestQueue {
    entries: Vec<MilestoneRequesterWorkerEntry>,
}

/// Indices rise strictly from one entry to the next.
pub open spec fn rising(entries: Seq<MilestoneRequesterWorkerEntry>) -> bool {
    forall|i: int, j: int| 0 <= i < j < entries.len() ==> (#[trigger] entries[i]).0 < (#[trigger] entries[j]).0
}

/// Whether the milestone `index` waits.
pub open spec fn milestone_waits(entries: Seq<MilestoneRequesterWorkerEntry>, index: u32) -> bool {
    exists|i: int| 0 <= i < entries.len() && (#[trigger] entries[i]).0 == index
}

impl MilestoneRequestQueue {
    /// The requests that wait, the lowest index first.
    pub closed spec fn requests(&self) -> Seq<MilestoneRequesterWorkerEntry> {
        self.entries@
    }

    /// What holds of every queue: indices rise strictly.
    pub open spec fn wf(&self) -> bool {
        rising(self.requests())
    }

    pub fn new() -> (queue: Self)
        ensures
            queue.wf(),
            queue.requests().len() == 0,
    {
        Self { entries: Vec::new() }
    }

    pub fn len(&self) -> (len: usize)
        ensures
            len == self.requests().len(),
    {
        self.entries.len()
    }

    pub fn is_empty(&self) -> (empty: bool)
        ensures
            empty == (self.requests().len() == 0),
    {
        self.entries.len() == 0
    }

    /// Places a request. A request for an index that waits already changes nothing.
    pub fn insert(&mut self, entry: MilestoneRequesterWorkerEntry) -> (inserted: bool)
        requires
            old(self).wf(),
        ensures
            final(self).wf(),
            inserted == !milestone_waits(old(self).requests(), entry.0),
            !inserted ==> final(self).requests() == old(self).requests(),
            inserted ==> exists|at: int|
                0 <= at <= old(self).requests().len() && final(self).requests() == old(
                    self,
                ).requests().insert(at, entry),
            milestone_waits(final(self).requests(), entry.0),
    {
        let mut at: usize = 0;
        while at < self.entries.len() && self.entries[at].0 < entry.0
            invariant
                at <= self.entries@.len(),
                self.entries@ == old(self).entries@,
                rising(self.entries@),
                forall|j: int| 0 <= j < at ==> (#[trigger] self.entries@[j]).0 < entry.0,
            decreases self.entries@.len() - at,
        {
            at = at + 1;
        }
        let ghost before = self.entries@;
        if at < self.entries.len() && self.entries[at].0 == entry.0 {
            assert(before[at as int].0 == entry.0);
            return false;
        }
        proof {
            assert forall|j: int| at <= j < before.len() implies (#[trigger] before[j]).0
                > entry.0 by {
                if j > at {
                    assert(before[at as int].0 < before[j].0);
                }
            }
            assert(!milestone_waits(before, entry.0));
        }
        self.entries.insert(at, entry);
        proof {
            let after = self.entries@;
            assert(after == before.insert(at as int, entry));
            assert(after[at as int].0 == entry.0);
            assert forall|i: int, j: int| 0 <= i < j < after.len() implies (#[trigger] after[i]).0 < (
            #[trigger] after[j]).0 by {
                let oi = if i < at {
                    i
                } else {
                    i - 1
                };
                let oj = if j < at {
                    j
                } else {
                    j - 1
                };
                if i != at && j != at {
                    assert(after[i] == before[oi]);
                    assert(after[j] == before[oj]);
                    assert(before[oi].0 < before[oj].0);
                } else if i == at {
                    assert(after[j] == before[oj]);
                } else {
                    assert(after[i] == before[oi]);
                }
            }
        }
        true
    }

    /// Takes the request with the lowest index.
    pub fn pop(&mut self) -> (entry: Option<MilestoneRequesterWorkerEntry>)
        requires
            old(self).wf(),
        ensures
            final(self).wf(),
            entry.is_some() == (old(self).requests().len() > 0),
            entry matches Some(e) ==> e == old(self).requests()[0] && final(self).requests() == old(
                self,
            ).requests().subrange(1, old(self).requests().len() as int),
            entry.is_none() ==> final(self).requests() == old(self).requests(),
    {
        if self.entries.len() == 0 {
            return None;
        }
        let ghost before = self.entries@;
        let entry = self.entries.remove(0);
        proof {
            let after = self.entries@;
            assert(after =~= before.subrange(1, before.len() as int));
            assert forall|i: int, j: int| 0 <= i < j < after.len() implies (#[trigger] after[i]).0 < (
            #[trigger] after[j]).0 by {
                assert(before[i + 1].0 < before[j + 1].0);
            }
        }
        Some(entry)
    }
}

/// Whether the milestone `index` is among the requested.
pub open spec fn milestone_requested(requested: Map<u32, u64>, index: u32) -> bool {
    requested.dom().contains(index)
}

/// What a map of requested milestones holds: for each index that is
/// requested, when it was first asked for, in milliseconds.
pub uninterp spec fn milestone_entries(map: DashMap<u32, u64>) -> Map<u32, u64>;

/// No milestone is requested.
pub open spec fn no_milestones() -> Map<u32, u64> {
    Map::empty()
}

/// An empty map, as `DashMap::new` makes it.
#[verifier::external_body]
fn milestones_new() -> (made: DashMap<u32, u64>)
    ensures
        milestone_entries(made) == no_milestones(),
{
    DashMap::new()
}

/// The number of entries, as `DashMap::len` counts them.
#[verifier::external_body]
fn milestones_len(map: &DashMap<u32, u64>) -> (len: usize)
    ensures
        len == milestone_entries(*map).len(),
{
    map.len()
}

/// The value under a key, as `DashMap::get` finds it, copied out.
#[verifier::external_body]
fn milestones_get(map: &DashMap<u32, u64>, index: u32) -> (found: Option<u64>)
    ensures
        found == (if milestone_entries(*map).dom().contains(index) {
            Some(milestone_entries(*map)[index])
        } else {
            None
        }),
{
    map.get(&index).map(|entry| *entry.value())
}

/// Puts a value under a key, as `DashMap::insert` does: the value that
/// was there, if any, is replaced and returned.
#[verifier::external_body]
fn milestones_insert(map: &mut DashMap<u32, u64>, index: u32, now: u64) -> (previous: Option<u64>)
    ensures
        milestone_entries(*final(map)) == milestone_entries(*old(map)).insert(index, now),
        previous == (if milestone_entries(*old(map)).dom().contains(index) {
            Some(milestone_entries(*old(map))[index])
        } else {
            None
        }),
{
    map.insert(index, now)
}

/// Takes a key out, as `DashMap::remove` does, and returns the value that
/// was under it, if any.
#[verifier::external_body]
fn milestones_remove(map: &mut DashMap<u32, u64>, index: u32) -> (removed: Option<u64>)
    ensures
        milestone_entries(*final(map)) == milestone_entries(*old(map)).remove(index),
        removed == (if milestone_entries(*old(map)).dom().contains(index) {
            Some(milestone_entries(*old(map))[index])
        } else {
            None
        }),
{
    map.remove(&index).map(|entry| entry.1)
}

/// The milestones that were asked for and have not arrived.
pub struct RequestedMilestones {
    entries: DashMap<u32, u64>,
}

impl RequestedMilestones {
    /// What is requested: for each index, when it was first asked for.
    pub closed spec fn requested(&self) -> Map<u32, u64> {
        milestone_entries(self.entries)
    }

    pub fn new() -> (map: Self)
        ensures
            map.requested() == no_milestones(),
    {
        Self { entries: milestones_new() }
    }

    pub fn len(&self) -> (len: usize)
        ensures
            len == self.requested().len(),
    {
        milestones_len(&self.entries)
    }

    /// Whether the milestone `index` is requested.
    pub fn contains_key(&self, index: u32) -> (found: bool)
        ensures
            found == milestone_requested(self.requested(), index),
    {
        milestones_get(&self.entries, index).is_some()
    }

    /// Records that the milestone `index` was asked for at `now`. An index
    /// that is requested already keeps the time of its first asking.
    pub fn insert(&mut self, index: u32, now: u64) -> (inserted: bool)
        ensures
            inserted == !milestone_requested(old(self).requested(), index),
            inserted ==> final(self).requested() == old(self).requested().insert(index, now),
            !inserted ==> final(self).requested() == old(self).requested(),
    {
        if self.contains_key(index) {
            return false;
        }
        let _ = milestones_insert(&mut self.entries, index, now);
        true
    }

    /// Forgets the milestone `index` because it arrived. Returns the time
    /// of the first asking, if it was requested.
    pub fn remove(&mut self, index: u32) -> (removed: Option<u64>)
        ensures
            removed == (if milestone_requested(old(self).requested(), index) {
                Some(old(self).requested()[index])
            } else {
                None
            }),
            final(self).requested() == old(self).requested().remove(index),
    {
        milestones_remove(&mut self.entries, index)
    }
}

} // verus!
