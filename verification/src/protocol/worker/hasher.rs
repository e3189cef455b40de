//! Batching of incoming transactions for hashing.
//!
//! Transactions are gathered into a batch until the batch is full or the
//! input has nothing more for now. A transaction whose bytes were seen
//! lately is dropped before it is hashed; one whose bytes are no ternary
//! encoding is dropped as invalid. The hashes of a batch go to the
//! processor, each with the transaction that it belongs to.

use vstd::prelude::*;
use crate::protocol::message::codec::{bytes_eq, copy_range};
use crate::bundle::codec::{
    fits_layout, lemma_transaction_round_trip, read_error, read_transaction, transaction_trits,
};
use crate::bundle::transaction::{Transaction, TransactionBuilderView};
use crate::protocol::message::transaction::{
    compress_transaction_bytes, compressed, lemma_compress_round_trip, lemma_uncompress_whole,
    uncompress_transaction_bytes, uncompressed, TransactionMessage,
};
use crate::protocol::metrics::{counted, ProtocolMetrics};
use crate::protocol::peer::EndpointId;
use crate::ternary::trits::{
    lemma_t5b1_round_trip, t5b1_bytes, t5b1_decode, t5b1_encode, t5b1_trits, t5b1_valid,
    valid_trits,
};

verus! {

/// The number of transactions in a full batch.
pub const BATCH_SIZE: usize = 64;

/// A batch with fewer transactions than this is hashed one by one.
pub const BATCH_SIZE_THRESHOLD: usize = 3;

/// The number of trits in a transaction.
pub const TRANSACTION_TRIT_LEN: usize = 8019;

/// A transaction that arrived from a peer.
#[derive(Debug)]
pub struct HasherWorkerEvent {
    pub from: EndpointId,
    pub transaction_message: TransactionMessage,
}

/// A transaction with its hash, for the processor.
#[derive(Debug)]
pub struct ProcessorWorkerEvent {
    pub hash: Vec<i8>,
    pub from: EndpointId,
    pub transaction_message: TransactionMessage,
}

/// How a batch is hashed.
#[derive(Clone, Copy, Debug, PartialEq, Eq, Structural)]
pub enum HashMode {
    /// One transaction at a time.
    Unbatched,
    /// All transactions of the batch at once.
    Batched,
}

/// Why a transaction did not enter the batch.
#[derive(Clone, Copy, Debug, PartialEq, Eq, Structural)]
pub enum Dropped {
    /// Its bytes were seen lately: a known transaction.
    Known,
    /// Its bytes are not a transaction: an invalid transaction.
    Invalid,
}

/// What the input had when it was polled.
#[derive(Debug)]
pub enum Polled {
    /// Nothing for now.
    Pending,
    /// A transaction.
    Item(HasherWorkerEvent),
    /// Nothing ever again.
    Closed,
}

/// What follows from one poll of the input.
#[derive(Clone, Copy, Debug, PartialEq, Eq, Structural)]
pub enum BatchPoll {
    /// A batch of this many transactions is to be hashed now.
    Ready(usize),
    /// There is nothing to hash and nothing to read: wait.
    Pending,
    /// The input has ended: stop, without hashing what is in the batch.
    Closed,
    /// The transaction entered the batch: poll again.
    Added,
    /// The transaction was dropped: count it and poll again.
    Dropped(Dropped),
}

/// The byte strings seen lately, oldest first, without repetition and
/// bounded in number.
pub struct HashCache {
    max_capacity: usize,
    entries: Vec<Vec<u8>>,
}

/// Whether `bytes` is among `entries`.
pub open spec fn seen(entries: Seq<Seq<u8>>, bytes: Seq<u8>) -> bool {
    exists|i: int| 0 <= i < entries.len() && #[trigger] entries[i] == bytes
}

/// No byte string occurs twice.
pub open spec fn no_repetition(entries: Seq<Seq<u8>>) -> bool {
    forall|i: int, j: int| 0 <= i < j < entries.len() ==> #[trigger] entries[i] != #[trigger] entries[j]
}

/// The entries with room made for one more: the oldest leaves when the
/// cache is at its capacity.
pub open spec fn with_room(entries: Seq<Seq<u8>>, max_capacity: usize) -> Seq<Seq<u8>> {
    if entries.len() > 0 && entries.len() >= max_capacity {
        entries.subrange(1, entries.len() as int)
    } else {
        entries
    }
}

impl HashCache {
    /// What the cache holds, oldest first.
    pub closed spec fn entries(&self) -> Seq<Seq<u8>> {
        Seq::new(self.entries@.len(), |i: int| self.entries@[i]@)
    }

    /// The number of entries that the cache is meant to hold at most.
    pub closed spec fn capacity(&self) -> usize {
        self.max_capacity
    }

    /// What holds of every cache: nothing is held twice, and the cache
    /// holds no more than its capacity, or one entry where that is zero.
    pub open spec fn wf(&self) -> bool {
        &&& no_repetition(self.entries())
        &&& (self.entries().len() <= self.capacity() || self.entries().len() <= 1)
    }

    /// An empty cache.
    pub fn new(max_capacity: usize) -> (cache: Self)
        ensures
            cache.wf(),
            cache.entries().len() == 0,
            cache.capacity() == max_capacity,
    {
        Self { max_capacity, entries: Vec::new() }
    }

    /// Whether `bytes` is in the cache.
    pub fn contains(&self, bytes: &Vec<u8>) -> (found: bool)
        ensures
            found == seen(self.entries(), bytes@),
    {
        let mut i: usize = 0;
        while i < self.entries.len()
            invariant
                i <= self.entries@.len(),
                forall|j: int| 0 <= j < i ==> self.entries()[j] != bytes@,
            decreases self.entries@.len() - i,
        {
            if bytes_eq(&self.entries[i], bytes) {
                assert(self.entries()[i as int] == bytes@);
                return true;
            }
            i = i + 1;
        }
        false
    }

    /// Remembers `bytes` and says whether they are new. For new bytes the
    /// oldest entry makes room where the cache is at its capacity; for
    /// known bytes nothing changes.
    pub fn insert(&mut self, bytes: &Vec<u8>) -> (inserted: bool)
        requires
            old(self).wf(),
        ensures
            final(self).wf(),
            final(self).capacity() == old(self).capacity(),
            inserted == !seen(old(self).entries(), bytes@),
            !inserted ==> final(self).entries() == old(self).entries(),
            inserted ==> final(self).entries() == with_room(
                old(self).entries(),
                old(self).capacity(),
            ).push(bytes@),
    {
        if self.contains(bytes) {
            return false;
        }
        let ghost before = self.entries();
        if self.entries.len() > 0 && self.entries.len() >= self.max_capacity {
            self.entries.remove(0);
        }
        let ghost room = self.entries();
        assert(room =~= with_room(before, self.max_capacity));
        self.entries.push(copy_range(bytes, 0, bytes.len()));
        proof {
            assert(self.entries() =~= room.push(bytes@));
            assert forall|i: int, j: int| 0 <= i < j < self.entries().len() implies (
            #[trigger] self.entries()[i]) != (#[trigger] self.entries()[j]) by {
                let shift: int = if room.len() < before.len() {
                    1
                } else {
                    0
                };
                assert(self.entries()[i] == before[i + shift]);
                if j < room.len() {
                    assert(self.entries()[j] == before[j + shift]);
                }
            }
        }
        true
    }
}

/// The trits of a compressed transaction, if its bytes are one: between
/// 292 and 1604 in number and, once uncompressed, each a valid packing of
/// five trits.
pub open spec fn wire_trits(bytes: Seq<u8>) -> Option<Seq<i8>> {
    if 292 <= bytes.len() <= 1604 && (forall|i: int|
        0 <= i < 1604 ==> t5b1_valid(#[trigger] uncompressed(bytes)[i])) {
        Some(t5b1_trits(uncompressed(bytes), 8019))
    } else {
        None
    }
}

/// The trits of a compressed transaction, if its bytes are one.
pub fn decode_transaction(bytes: &Vec<u8>) -> (trits: Option<Vec<i8>>)
    ensures
        trits.is_some() == wire_trits(bytes@).is_some(),
        trits.is_some() ==> trits.unwrap()@ == wire_trits(bytes@).unwrap(),
{
    if bytes.len() < 292 || bytes.len() > 1604 {
        return None;
    }
    let whole = uncompress_transaction_bytes(bytes);
    t5b1_decode(&whole, TRANSACTION_TRIT_LEN)
}

/// The bytes that carry a transaction: its trits packed five to a byte
/// and compressed. A transaction with a field that holds what is no trit
/// cannot be carried.
pub fn encode_transaction(transaction: &Transaction) -> (bytes: Option<Vec<u8>>)
    ensures
        bytes.is_some() == valid_trits(transaction_trits(transaction@)),
        bytes matches Some(b) ==> b@ == compressed(t5b1_bytes(transaction_trits(transaction@))),
{
    let trits = transaction.to_trits();
    match t5b1_encode(&trits) {
        Some(whole) => Some(compress_transaction_bytes(&whole)),
        None => None,
    }
}

/// Compression does not change what bytes decode to.
pub proof fn lemma_decode_compressed(whole: Seq<u8>)
    requires
        whole.len() == 1604,
    ensures
        wire_trits(compressed(whole)) == wire_trits(whole),
{
    lemma_compress_round_trip(whole);
    lemma_uncompress_whole(whole);
}

/// The trits of a transaction are unpacked from the bytes that carry them.
pub proof fn lemma_wire_trits(trits: Seq<i8>)
    requires
        trits.len() == 8019,
        valid_trits(trits),
    ensures
        wire_trits(compressed(t5b1_bytes(trits))) == Some(trits),
{
    let whole = t5b1_bytes(trits);
    let carried = compressed(whole);
    lemma_t5b1_round_trip(trits);
    assert(whole.len() == 1604);
    lemma_compress_round_trip(whole);
    assert(uncompressed(carried) == whole);
    assert forall|i: int| 0 <= i < 1604 implies t5b1_valid(#[trigger] uncompressed(carried)[i]) by {
        assert(t5b1_valid(whole[i]));
    }
}

/// A transaction that fits its layout and holds trits only is decoded
/// from the bytes that carry it.
pub proof fn lemma_wire_round_trip(t: TransactionBuilderView)
    requires
        fits_layout(t),
        valid_trits(transaction_trits(t)),
    ensures
        wire_trits(compressed(t5b1_bytes(transaction_trits(t)))) == Some(transaction_trits(t)),
        read_error(transaction_trits(t)).is_none(),
        read_transaction(transaction_trits(t)) == t,
{
    lemma_transaction_round_trip(t);
    lemma_wire_trits(transaction_trits(t));
}

/// The batch under construction with the cache that guards it.
pub struct BatchStream {
    cache: HashCache,
    trits: Vec<Vec<i8>>,
    events: Vec<HasherWorkerEvent>,
}

/// How a batch of `batch_size` transactions is hashed.
pub fn trigger_hashing(batch_size: usize) -> (mode: HashMode)
    ensures
        mode == (if batch_size < 3 {
            HashMode::Unbatched
        } else {
            HashMode::Batched
        }),
{
    if batch_size < BATCH_SIZE_THRESHOLD {
        HashMode::Unbatched
    } else {
        HashMode::Batched
    }
}

impl BatchStream {
    /// The cache.
    pub closed spec fn cache(&self) -> HashCache {
        self.cache
    }

    /// The trits of the transactions in the batch, in order of arrival.
    pub closed spec fn batch(&self) -> Seq<Seq<i8>> {
        Seq::new(self.trits@.len(), |i: int| self.trits@[i]@)
    }

    /// The bytes of the transactions in the batch, in order of arrival.
    pub closed spec fn batch_bytes(&self) -> Seq<Seq<u8>> {
        Seq::new(self.events@.len(), |i: int| self.events@[i].transaction_message.bytes@)
    }

    /// The peers that the transactions in the batch came from.
    pub closed spec fn batch_origins(&self) -> Seq<EndpointId> {
        Seq::new(self.events@.len(), |i: int| self.events@[i].from)
    }

    /// What holds of every batch stream: the cache is well formed, the
    /// batch holds no more transactions than a full batch has, and it
    /// holds for each transaction its trits.
    pub open spec fn wf(&self) -> bool {
        &&& self.cache().wf()
        &&& self.batch().len() <= 64
        &&& self.batch().len() == self.batch_bytes().len()
        &&& forall|i: int|
            0 <= i < self.batch().len() ==> wire_trits(#[trigger] self.batch_bytes()[i])
                == Some(self.batch()[i])
    }

    /// An empty batch behind an empty cache of the given capacity.
    pub fn new(cache_size: usize) -> (stream: Self)
        ensures
            stream.wf(),
            stream.batch().len() == 0,
            stream.cache().entries().len() == 0,
            stream.cache().capacity() == cache_size,
    {
        Self { cache: HashCache::new(cache_size), trits: Vec::new(), events: Vec::new() }
    }

    /// The number of transactions in the batch.
    pub fn batch_len(&self) -> (len: usize)
        ensures
            len == self.batch().len(),
    {
        self.trits.len()
    }

    /// The size of the batch if it is full: then it is hashed before the
    /// input is polled again.
    pub fn full_batch(&self) -> (full: Option<usize>)
        ensures
            full == (if self.batch().len() >= 64 {
                Some(self.batch().len() as usize)
            } else {
                None
            }),
    {
        if self.trits.len() >= BATCH_SIZE {
            Some(self.trits.len())
        } else {
            None
        }
    }

    /// Takes what one poll of the input gave. The input is polled for a
    /// transaction only while the batch is not full: a full batch is
    /// handed out first.
    ///
    /// With nothing for now, a batch that holds something is ready and an
    /// empty one waits. With the input closed, the stream is closed. A
    /// transaction whose bytes the cache holds is dropped as known; one
    /// whose bytes are new is remembered in the cache, then dropped as
    /// invalid if its bytes are no transaction, else added to the batch,
    /// which is ready when that fills it.
    pub fn on_polled(&mut self, polled: Polled) -> (step: BatchPoll)
        requires
            old(self).wf(),
            polled is Item ==> old(self).batch().len() < 64,
        ensures
            final(self).wf(),
            final(self).cache().capacity() == old(self).cache().capacity(),
            match polled {
                Polled::Pending => {
                    &&& step == (if old(self).batch().len() == 0 {
                        BatchPoll::Pending
                    } else {
                        BatchPoll::Ready(old(self).batch().len() as usize)
                    })
                    &&& final(self).batch() == old(self).batch()
                    &&& final(self).batch_bytes() == old(self).batch_bytes()
                    &&& final(self).batch_origins() == old(self).batch_origins()
                    &&& final(self).cache().entries() == old(self).cache().entries()
                },
                Polled::Closed => {
                    &&& step == BatchPoll::Closed
                    &&& final(self).batch() == old(self).batch()
                    &&& final(self).batch_bytes() == old(self).batch_bytes()
                    &&& final(self).batch_origins() == old(self).batch_origins()
                    &&& final(self).cache().entries() == old(self).cache().entries()
                },
                Polled::Item(event) => {
                    let bytes = event.transaction_message.bytes@;
                    if seen(old(self).cache().entries(), bytes) {
                        &&& step == BatchPoll::Dropped(Dropped::Known)
                        &&& final(self).batch() == old(self).batch()
                        &&& final(self).batch_bytes() == old(self).batch_bytes()
                        &&& final(self).batch_origins() == old(self).batch_origins()
                        &&& final(self).cache().entries() == old(self).cache().entries()
                    } else {
                        &&& final(self).cache().entries() == with_room(
                            old(self).cache().entries(),
                            old(self).cache().capacity(),
                        ).push(bytes)
                        &&& if wire_trits(bytes).is_none() {
                            &&& step == BatchPoll::Dropped(Dropped::Invalid)
                            &&& final(self).batch() == old(self).batch()
                            &&& final(self).batch_bytes() == old(self).batch_bytes()
                            &&& final(self).batch_origins() == old(self).batch_origins()
                        } else {
                            &&& step == (if old(self).batch().len() + 1 >= 64 {
                                BatchPoll::Ready((old(self).batch().len() + 1) as usize)
                            } else {
                                BatchPoll::Added
                            })
                            &&& final(self).batch() == old(self).batch().push(
                                wire_trits(bytes).unwrap(),
                            )
                            &&& final(self).batch_bytes() == old(self).batch_bytes().push(bytes)
                            &&& final(self).batch_origins() == old(self).batch_origins().push(
                                event.from,
                            )
                        }
                    }
                },
            },
    {
        let batch_size: usize = self.trits.len();
        match polled {
            Polled::Pending => {
                if batch_size == 0 {
                    BatchPoll::Pending
                } else {
                    BatchPoll::Ready(batch_size)
                }
            },
            Polled::Closed => BatchPoll::Closed,
            Polled::Item(event) => {
                if !self.cache.insert(&event.transaction_message.bytes) {
                    return BatchPoll::Dropped(Dropped::Known);
                }
                let ghost bytes = event.transaction_message.bytes@;
                let ghost from = event.from;
                match decode_transaction(&event.transaction_message.bytes) {
                    None => BatchPoll::Dropped(Dropped::Invalid),
                    Some(trits) => {
                        let ghost held = self.batch();
                        let ghost held_bytes = self.batch_bytes();
                        let ghost held_origins = self.batch_origins();
                        self.trits.push(trits);
                        self.events.push(event);
                        proof {
                            assert(self.batch() =~= held.push(wire_trits(bytes).unwrap()));
                            assert(self.batch_bytes() =~= held_bytes.push(bytes));
                            assert(self.batch_origins() =~= held_origins.push(from));
                            assert forall|i: int| 0 <= i < self.batch().len() implies wire_trits(
                                #[trigger] self.batch_bytes()[i],
                            ) == Some(self.batch()[i]) by {
                                if i < held.len() {
                                    assert(self.batch_bytes()[i] == held_bytes[i]);
                                    assert(self.batch()[i] == held[i]);
                                }
                            }
                        }
                        let grown: usize = self.trits.len();
                        if grown >= BATCH_SIZE {
                            BatchPoll::Ready(grown)
                        } else {
                            BatchPoll::Added
                        }
                    },
                }
            },
        }
    }

    /// Hands out the batch for hashing: the trits of its transactions, in
    /// order of arrival, and the transactions themselves. The batch is
    /// empty afterwards; the cache stays.
    pub fn take_batch(&mut self) -> (taken: (Vec<Vec<i8>>, Vec<HasherWorkerEvent>))
        requires
            old(self).wf(),
        ensures
            final(self).wf(),
            final(self).batch().len() == 0,
            final(self).cache() == old(self).cache(),
            taken.0@.len() == old(self).batch().len(),
            taken.1@.len() == old(self).batch().len(),
            forall|i: int| 0 <= i < taken.0@.len() ==> (#[trigger] taken.0@[i])@ == old(self).batch()[i],
            forall|i: int|
                0 <= i < taken.1@.len() ==> (#[trigger] taken.1@[i]).transaction_message.bytes@
                    == old(self).batch_bytes()[i] && taken.1@[i].from == old(self).batch_origins()[i],
    {
        let mut trits: Vec<Vec<i8>> = Vec::new();
        let mut events: Vec<HasherWorkerEvent> = Vec::new();
        std::mem::swap(&mut self.trits, &mut trits);
        std::mem::swap(&mut self.events, &mut events);
        proof {
            assert forall|i: int| 0 <= i < trits@.len() implies (#[trigger] trits@[i])@ == old(
                self,
            ).batch()[i] by {}
            assert forall|i: int| 0 <= i < events@.len() implies (
            #[trigger] events@[i]).transaction_message.bytes@ == old(self).batch_bytes()[i]
                && events@[i].from == old(self).batch_origins()[i] by {}
        }
        (trits, events)
    }
}

/// The counters once a poll has been counted: a transaction that was
/// dropped as known counts as a known transaction, one that was dropped as
/// invalid as an invalid transaction, and nothing else counts.
pub open spec fn counted_poll(metrics: ProtocolMetrics, step: BatchPoll) -> ProtocolMetrics {
    match step {
        BatchPoll::Dropped(Dropped::Known) => ProtocolMetrics {
            known_transactions: counted(metrics.known_transactions),
            ..metrics
        },
        BatchPoll::Dropped(Dropped::Invalid) => ProtocolMetrics {
            invalid_transactions: counted(metrics.invalid_transactions),
            ..metrics
        },
        _ => metrics,
    }
}

/// Counts what a poll of the input led to.
pub fn count_poll(metrics: &mut ProtocolMetrics, step: BatchPoll)
    ensures
        *final(metrics) == counted_poll(*old(metrics), step),
{
    match step {
        BatchPoll::Dropped(Dropped::Known) => metrics.known_transactions_inc(),
        BatchPoll::Dropped(Dropped::Invalid) => metrics.invalid_transactions_inc(),
        _ => {},
    }
}

/// The hashes of transactions under a hash function that takes them one by one.
pub open spec fn hashes_of(hash: spec_fn(Seq<i8>) -> Seq<i8>, trits: Seq<Seq<i8>>) -> Seq<Seq<i8>> {
    Seq::new(trits.len(), |i: int| hash(trits[i]))
}

/// Where transactions are hashed one by one, it does not matter where the
/// stream is cut into batches: the hashes of two batches, one after the
/// other, are the hashes of the two batches taken as one.
pub proof fn lemma_batch_boundaries(
    hash: spec_fn(Seq<i8>) -> Seq<i8>,
    first: Seq<Seq<i8>>,
    second: Seq<Seq<i8>>,
)
    ensures
        hashes_of(hash, first + second) == hashes_of(hash, first) + hashes_of(hash, second),
{
    assert(hashes_of(hash, first + second) =~= hashes_of(hash, first) + hashes_of(hash, second));
}

/// Pairs hashes with the transactions that they belong to, first with
/// first. All of `events` are taken; where there are fewer hashes than
/// events, or fewer events than hashes, what has no partner is dropped.
pub fn send_hashes(hashes: Vec<Vec<i8>>, events: &mut Vec<HasherWorkerEvent>) -> (out: Vec<
    ProcessorWorkerEvent,
>)
    ensures
        final(events)@.len() == 0,
        out@.len() == (if hashes@.len() < old(events)@.len() {
            hashes@.len()
        } else {
            old(events)@.len()
        }),
        forall|i: int|
            0 <= i < out@.len() ==> {
                &&& (#[trigger] out@[i]).hash@ == hashes@[i]@
                &&& out@[i].from == old(events)@[i].from
                &&& out@[i].transaction_message.bytes@ == old(events)@[i].transaction_message.bytes@
            },
{
    let ghost all_events = events@;
    let ghost all_hashes = hashes@;
    let mut hashes = hashes;
    let mut out: Vec<ProcessorWorkerEvent> = Vec::new();
    assert(events@ =~= all_events.subrange(0, events@.len() as int));
    // Both lists are walked from the back, so turn the pairs around afterwards.
    while events.len() > hashes.len()
        invariant
            hashes@ == all_hashes,
            events@.len() <= all_events.len(),
            events@ == all_events.subrange(0, events@.len() as int),
            events@.len() == all_events.len() || events@.len() >= hashes@.len(),
        decreases events@.len(),
    {
        events.pop();
        assert(events@ =~= all_events.subrange(0, events@.len() as int));
    }
    assert(hashes@ =~= all_hashes.subrange(0, hashes@.len() as int));
    while hashes.len() > events.len()
        invariant
            events@.len() <= all_events.len(),
            events@ == all_events.subrange(0, events@.len() as int),
            hashes@.len() <= all_hashes.len(),
            hashes@ == all_hashes.subrange(0, hashes@.len() as int),
            events@.len() == all_events.len() || events@.len() == all_hashes.len(),
            events@.len() <= hashes@.len(),
        decreases hashes@.len(),
    {
        hashes.pop();
        assert(hashes@ =~= all_hashes.subrange(0, hashes@.len() as int));
    }
    let n: usize = events.len();
    let mut reversed: Vec<ProcessorWorkerEvent> = Vec::new();
    while events.len() > 0
        invariant
            n <= all_events.len(),
            n <= all_hashes.len(),
            events@.len() == hashes@.len(),
            events@.len() <= n,
            events@ == all_events.subrange(0, events@.len() as int),
            hashes@ == all_hashes.subrange(0, hashes@.len() as int),
            reversed@.len() == n - events@.len(),
            forall|i: int|
                0 <= i < reversed@.len() ==> {
                    &&& (#[trigger] reversed@[i]).hash@ == all_hashes[n - 1 - i]@
                    &&& reversed@[i].from == all_events[n - 1 - i].from
                    &&& reversed@[i].transaction_message.bytes@ == all_events[n - 1
                        - i].transaction_message.bytes@
                },
        decreases events@.len(),
    {
        let event = events.pop().unwrap();
        let hash = hashes.pop().unwrap();
        assert(events@ =~= all_events.subrange(0, events@.len() as int));
        assert(hashes@ =~= all_hashes.subrange(0, hashes@.len() as int));
        reversed.push(
            ProcessorWorkerEvent {
                hash,
                from: event.from,
                transaction_message: event.transaction_message,
            },
        );
    }
    while reversed.len() > 0
        invariant
            n <= all_events.len(),
            n <= all_hashes.len(),
            events@.len() == 0,
            reversed@.len() + out@.len() == n,
            forall|i: int|
                0 <= i < reversed@.len() ==> {
                    &&& (#[trigger] reversed@[i]).hash@ == all_hashes[n - 1 - i]@
                    &&& reversed@[i].from == all_events[n - 1 - i].from
                    &&& reversed@[i].transaction_message.bytes@ == all_events[n - 1
                        - i].transaction_message.bytes@
                },
            forall|i: int|
                0 <= i < out@.len() ==> {
                    &&& (#[trigger] out@[i]).hash@ == all_hashes[i]@
                    &&& out@[i].from == all_events[i].from
                    &&& out@[i].transaction_message.bytes@ == all_events[i].transaction_message.bytes@
                },
        decreases reversed@.len(),
    {
        let pair = reversed.pop().unwrap();
        out.push(pair);
    }
    out
}

} // verus!
