//! The processor: what becomes of a transaction once it is hashed.
//!
//! A transaction is decoded; its hash must end in enough zero trits; it
//! must be new to the tangle. Then it is inserted, the request for it, if
//! there was one, is settled, and the workers that come after are told.

use vstd::prelude::*;
use crate::bundle::codec::{
    read_error, read_transaction, trailing_zero_trits, weight_magnitude,
};
use crate::bundle::transaction::{copy_trits, Transaction};
use crate::protocol::metrics::{counted, ProtocolMetrics};
use crate::protocol::worker::hasher::{decode_transaction, wire_trits, ProcessorWorkerEvent};
use crate::protocol::worker::requester::{entry_of, is_requested, RequestedTransactions};
use crate::tangle::graph::{
    flagged_solid, present, solidity_kept, Flags, Tangle, TransactionMetadata, Vertex, VertexView,
};
use crate::tangle::solidity::{complete_but, parents_solid, settled, sound};
use crate::protocol::config::ProtocolConfig;
use crate::ternary::trits::{t5b1_decode, t5b1_trits, t5b1_valid, trits_eq};

verus! {

/// What the workers after the processor are told of a new transaction.
#[derive(Debug)]
pub struct NewTransaction {
    /// The hash of the transaction: the solid propagator is to check it.
    pub hash: Vec<i8>,
    /// The transaction is the first of its bundle: the bundle validator is
    /// to validate the bundle.
    pub bundle_tail: bool,
    /// The transaction is addressed to the coordinator: the milestone
    /// validator is to check whether it is a milestone.
    pub milestone_candidate: bool,
    /// If the transaction had been asked for: how long it took to arrive,
    /// in milliseconds, and the milestone that it was asked for.
    pub answered: Option<(u64, u32)>,
}

/// What became of a transaction.
#[derive(Debug)]
pub enum Processed {
    /// It cannot be decoded, or its hash does not end in enough zero
    /// trits: it was dropped and counted as invalid.
    Invalid,
    /// It is in the tangle already: it was dropped and counted as known.
    Known,
    /// It was inserted and counted as new.
    New(NewTransaction),
}

/// The transaction that an event carries, if it decodes.
pub open spec fn decoded(bytes: Seq<u8>) -> Option<crate::bundle::transaction::TransactionBuilderView> {
    match wire_trits(bytes) {
        Some(trits) => if trits.len() == 8019 && read_error(trits).is_none() {
            Some(read_transaction(trits))
        } else {
            None
        },
        None => None,
    }
}

/// Whether a transaction is dropped as invalid: it does not decode, or its
/// hash ends in fewer zero trits than `mwm`.
pub open spec fn is_invalid(hash: Seq<i8>, bytes: Seq<u8>, mwm: u8) -> bool {
    decoded(bytes).is_none() || trailing_zero_trits(hash, hash.len() as int) < mwm
}

/// The vertex that a new transaction becomes: not solid, not confirmed,
/// flagged as requested if it had been asked for.
pub open spec fn fresh_vertex(
    hash: Seq<i8>,
    transaction: crate::bundle::transaction::TransactionBuilderView,
    was_requested: bool,
    now: u64,
) -> VertexView {
    VertexView {
        hash,
        trunk: transaction.trunk.unwrap(),
        branch: transaction.branch.unwrap(),
        metadata: TransactionMetadata {
            flags: Flags { solid: false, requested: was_requested, confirmed: false },
            arrival_timestamp: now,
            milestone_index: 0,
        },
    }
}

/// The time from `since` to `now`; none where `now` is the earlier.
pub open spec fn elapsed(since: u64, now: u64) -> u64 {
    if now >= since {
        (now - since) as u64
    } else {
        0
    }
}

/// The processor of one node.
pub struct ProcessorWorker {
    mwm: u8,
    coordinator: Vec<i8>,
}

impl ProcessorWorker {
    /// The number of zero trits that a hash must end in.
    pub closed spec fn mwm(&self) -> u8 {
        self.mwm
    }

    /// The address of the coordinator.
    pub closed spec fn coordinator(&self) -> Seq<i8> {
        self.coordinator@
    }

    /// A processor that asks for `mwm` zero trits and knows the
    /// coordinator by its address.
    pub fn new(mwm: u8, coordinator: Vec<i8>) -> (worker: Self)
        ensures
            worker.mwm() == mwm,
            worker.coordinator() == coordinator@,
    {
        Self { mwm, coordinator }
    }

    /// The processor of a node with this configuration, if the
    /// coordinator's public key is an address: 49 bytes that pack trits.
    pub fn from_config(config: &ProtocolConfig) -> (worker: Option<Self>)
        ensures
            worker.is_some() == (config.coordinator.public_key_bytes@.len() == 49 && forall|i: int|
                0 <= i < 49 ==> t5b1_valid(#[trigger] config.coordinator.public_key_bytes@[i])),
            worker matches Some(w) ==> w.mwm() == config.mwm && w.coordinator() == t5b1_trits(
                config.coordinator.public_key_bytes@,
                243,
            ),
    {
        if config.coordinator.public_key_bytes.len() != 49 {
            return None;
        }
        match t5b1_decode(&config.coordinator.public_key_bytes, 243) {
            Some(coordinator) => Some(Self { mwm: config.mwm, coordinator }),
            None => None,
        }
    }

    /// Takes one transaction with its hash, at time `now` in milliseconds.
    ///
    /// A transaction that is invalid or known leaves the tangle and the
    /// requests as they are. A new transaction is added to the tangle as a
    /// vertex that is not solid, and is no longer requested. What was
    /// solid stays solid; where solidity was settled, it still is but for
    /// the new transaction.
    pub fn process(
        &self,
        tangle: &mut Tangle,
        requested: &mut RequestedTransactions,
        metrics: &mut ProtocolMetrics,
        event: &ProcessorWorkerEvent,
        now: u64,
    ) -> (outcome: Processed)
        requires
            old(tangle).wf(),
        ensures
            final(tangle).wf(),
            final(tangle).entry_points() == old(tangle).entry_points(),
            final(tangle).milestone_indices() == old(tangle).milestone_indices(),
            final(tangle).milestone_hashes() == old(tangle).milestone_hashes(),
            final(tangle).latest() == old(tangle).latest(),
            final(tangle).latest_solid() == old(tangle).latest_solid(),
            solidity_kept(old(tangle).vertices(), final(tangle).vertices()),
            outcome is Invalid <==> is_invalid(
                event.hash@,
                event.transaction_message.bytes@,
                self.mwm(),
            ),
            outcome is Known <==> !is_invalid(
                event.hash@,
                event.transaction_message.bytes@,
                self.mwm(),
            ) && present(old(tangle).vertices(), event.hash@),
            !(outcome is New) ==> final(tangle).vertices() == old(tangle).vertices() && final(requested).requested() == old(requested).requested(),
            outcome is Invalid ==> *final(metrics) == (ProtocolMetrics {
                invalid_transactions: counted(old(metrics).invalid_transactions),
                ..*old(metrics)
            }),
            outcome is Known ==> *final(metrics) == (ProtocolMetrics {
                known_transactions: counted(old(metrics).known_transactions),
                ..*old(metrics)
            }),
            outcome matches Processed::New(new) ==> {
                let transaction = decoded(event.transaction_message.bytes@).unwrap();
                let was_requested = is_requested(old(requested).requested(), event.hash@);
                &&& final(tangle).vertices() == old(tangle).vertices().push(
                    fresh_vertex(event.hash@, transaction, was_requested, now),
                )
                &&& final(requested).requested() == old(requested).requested().remove(event.hash@)
                &&& new.hash@ == event.hash@
                &&& new.bundle_tail == (transaction.index.unwrap() == 0)
                &&& new.milestone_candidate == (transaction.address.unwrap() == self.coordinator())
                &&& new.answered == (match entry_of(old(requested).requested(), event.hash@) {
                    Some(asked) => Some((elapsed(asked.1, now), asked.0)),
                    None => None,
                })
                &&& *final(metrics) == (ProtocolMetrics {
                    new_transactions: counted(old(metrics).new_transactions),
                    ..*old(metrics)
                })
            },
            settled(old(tangle).vertices(), old(tangle).entry_points()) ==> sound(
                final(tangle).vertices(),
                final(tangle).entry_points(),
            ) && complete_but(
                final(tangle).vertices(),
                final(tangle).entry_points(),
                seq![event.hash@],
            ),
    {
        let transaction: Transaction = match decode_transaction(&event.transaction_message.bytes) {
            None => {
                metrics.invalid_transactions_inc();
                return Processed::Invalid;
            },
            Some(trits) => match Transaction::from_trits(&trits) {
                Ok(transaction) => transaction,
                Err(_) => {
                    metrics.invalid_transactions_inc();
                    return Processed::Invalid;
                },
            },
        };
        if weight_magnitude(&event.hash) < self.mwm as usize {
            metrics.invalid_transactions_inc();
            return Processed::Invalid;
        }
        if tangle.contains(&event.hash) {
            metrics.known_transactions_inc();
            return Processed::Known;
        }
        let ghost before = tangle.vertices();
        let ghost seps = tangle.entry_points();
        let answered: Option<(u64, u32)> = match requested.remove(&event.hash) {
            Some((index, first_request)) => {
                let latency: u64 = if now >= first_request {
                    now - first_request
                } else {
                    0
                };
                Some((latency, index))
            },
            None => None,
        };
        let was_requested: bool = answered.is_some();
        let bundle_tail: bool = transaction.index.0 == 0;
        let milestone_candidate: bool = trits_eq(&transaction.address.0, &self.coordinator);
        let vertex = Vertex {
            hash: copy_trits(&event.hash),
            trunk: copy_trits(&transaction.trunk.0),
            branch: copy_trits(&transaction.branch.0),
            metadata: TransactionMetadata {
                flags: Flags { solid: false, requested: was_requested, confirmed: false },
                arrival_timestamp: now,
                milestone_index: 0,
            },
        };
        let ghost added = vertex@;
        let inserted = tangle.insert(vertex);
        assert(inserted);
        metrics.new_transactions_inc();
        proof {
            let after = tangle.vertices();
            assert(after == before.push(added));
            if settled(before, seps) {
                assert forall|h: Seq<i8>| flagged_solid(after, h) implies flagged_solid(
                    before,
                    h,
                ) by {
                    let w = choose|w: int|
                        0 <= w < after.len() && (#[trigger] after[w]).hash == h
                            && after[w].metadata.flags.solid;
                    assert(w < before.len());
                    assert(before[w] == after[w]);
                }
                assert forall|i: int|
                    0 <= i < after.len() && (#[trigger] after[i]).metadata.flags.solid implies parents_solid(
                    after,
                    seps,
                    after[i],
                ) by {
                    assert(before[i] == after[i]);
                    assert(parents_solid(before, seps, before[i]));
                }
                assert forall|i: int|
                    0 <= i < after.len() && parents_solid(after, seps, #[trigger] after[i])
                        && !after[i].metadata.flags.solid implies seq![event.hash@].contains(
                    after[i].hash,
                ) by {
                    if i < before.len() {
                        assert(before[i] == after[i]);
                        assert(parents_solid(before, seps, before[i]));
                        assert(Seq::<Seq<i8>>::empty().contains(before[i].hash));
                    } else {
                        assert(seq![event.hash@][0] == after[i].hash);
                    }
                }
            }
        }
        Processed::New(
            NewTransaction {
                hash: copy_trits(&event.hash),
                bundle_tail,
                milestone_candidate,
                answered,
            },
        )
    }
}

} // verus!
