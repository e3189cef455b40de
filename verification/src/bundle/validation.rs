//! Validation of a bundle that arrived.
//!
//! A bundle is accepted when its transactions stand in their places and
//! share one bundle hash, their values stay within the supply and sum to
//! zero, the bundle hash can be signed, and every input is signed.
//! Signatures are verified elsewhere: the verdicts are handed in.

use vstd::prelude::*;
use crate::bundle::bundle::Bundle;
use crate::bundle::constants::IOTA_SUPPLY;
use crate::bundle::outgoing_bundle_builder::{
    find_m_bug, has_m_bug, partial_sum, run_start, saturated,
};
use crate::bundle::transaction::TransactionBuilderView;
use crate::signing::normalize::{normalize_hash, normalized_hash};
use crate::ternary::trits::{is_trit, trits_eq, valid_trits};

verus! {

/// Why a bundle was not accepted.
#[derive(Clone, Copy, Debug, PartialEq, Eq, Structural)]
pub enum BundleError {
    /// The bundle holds no transaction.
    Empty,
    /// The transaction at this place does not say that it stands there, or
    /// names another last place or another bundle hash than the first.
    Misplaced(usize),
    /// A partial sum of the values exceeds the supply, or the values do
    /// not sum to zero. Carries the sum, held to the range of `i64`.
    InvalidValue(i64),
    /// The bundle hash is not 243 trits.
    InvalidBundleHash,
    /// The normal form of the bundle hash holds a chunk of three plus ones.
    MBug,
    /// An input is not signed, or its signature does not verify.
    InvalidSignature,
}

/// An input and the transactions that carry its signature: the input
/// stands at `start`, and the `len` transactions from there on, the input
/// itself and those that follow it with its address and without value,
/// hold the fragments of the signature one after another.
#[derive(Clone, Copy, Debug, PartialEq, Eq, Structural)]
pub struct SignatureRun {
    pub start: usize,
    pub len: usize,
}

/// Whether the transaction at `i` stands in its place: it says so, names
/// the last place, and shares the bundle hash of the first.
pub open spec fn in_place(txs: Seq<TransactionBuilderView>, i: int) -> bool {
    &&& txs[i].index == Some(i as usize)
    &&& txs[i].last_index == Some((txs.len() - 1) as usize)
    &&& txs[i].bundle == txs[0].bundle
}

/// Whether the first `n` transactions stand in their places.
pub open spec fn all_in_place(txs: Seq<TransactionBuilderView>, n: int) -> bool {
    forall|i: int| 0 <= i < n ==> in_place(txs, i)
}

/// Whether the partial sums of the first `n` values stay within the supply.
pub open spec fn sums_within_supply(txs: Seq<TransactionBuilderView>, n: int) -> bool {
    forall|i: int| 0 < i <= n ==> -IOTA_SUPPLY <= #[trigger] partial_sum(txs, i) <= IOTA_SUPPLY
}

/// The number of inputs among the first `n` transactions: those of negative value.
pub open spec fn input_count(txs: Seq<TransactionBuilderView>, n: int) -> int
    decreases n,
{
    if n <= 0 {
        0
    } else {
        input_count(txs, n - 1) + if txs[n - 1].value.unwrap() < 0 {
            1int
        } else {
            0int
        }
    }
}

/// Whether every input is signed: there is a verdict for each, and each is good.
pub open spec fn all_signed(txs: Seq<TransactionBuilderView>, verdicts: Seq<bool>) -> bool {
    verdicts.len() == input_count(txs, txs.len() as int) && forall|k: int|
        0 <= k < verdicts.len() ==> #[trigger] verdicts[k]
}

/// The first place whose transaction does not stand in it.
pub open spec fn first_misplaced(txs: Seq<TransactionBuilderView>) -> int {
    choose|i: int|
        #![trigger in_place(txs, i)]
        0 <= i < txs.len() && !in_place(txs, i) && all_in_place(txs, i)
}

/// The least number of transactions whose values sum beyond the supply.
pub open spec fn first_excess(txs: Seq<TransactionBuilderView>) -> int {
    choose|i: int|
        #![trigger partial_sum(txs, i)]
        0 < i <= txs.len() && !(-IOTA_SUPPLY <= partial_sum(txs, i) <= IOTA_SUPPLY)
            && sums_within_supply(txs, i - 1)
}

/// Why a bundle is not accepted, if it is not. The checks are made in
/// this order: that there is a transaction; that each stands in its place,
/// the first out of place being named; that the partial sums stay within
/// the supply, the first that does not being given; that the values sum to
/// zero; that the bundle hash is 243 trits and can be signed; that every
/// input is signed.
pub open spec fn bundle_error(txs: Seq<TransactionBuilderView>, verdicts: Seq<bool>) -> Option<
    BundleError,
> {
    if txs.len() == 0 {
        Some(BundleError::Empty)
    } else if !all_in_place(txs, txs.len() as int) {
        Some(BundleError::Misplaced(first_misplaced(txs) as usize))
    } else if !sums_within_supply(txs, txs.len() as int) {
        Some(BundleError::InvalidValue(saturated(partial_sum(txs, first_excess(txs)))))
    } else if partial_sum(txs, txs.len() as int) != 0 {
        Some(BundleError::InvalidValue(saturated(partial_sum(txs, txs.len() as int))))
    } else if !(txs[0].bundle.unwrap().len() == 243 && valid_trits(txs[0].bundle.unwrap())) {
        Some(BundleError::InvalidBundleHash)
    } else if has_m_bug(normalized_hash(txs[0].bundle.unwrap())) {
        Some(BundleError::MBug)
    } else if !all_signed(txs, verdicts) {
        Some(BundleError::InvalidSignature)
    } else {
        None
    }
}

/// Whether `trits` are trits.
pub fn check_trits(trits: &Vec<i8>) -> (valid: bool)
    ensures
        valid == valid_trits(trits@),
{
    let mut i: usize = 0;
    while i < trits.len()
        invariant
            i <= trits@.len(),
            forall|j: int| 0 <= j < i ==> is_trit(#[trigger] trits@[j]),
        decreases trits@.len() - i,
    {
        if trits[i] < -1 || trits[i] > 1 {
            assert(!is_trit(trits@[i as int]));
            return false;
        }
        i = i + 1;
    }
    true
}

/// Validates a bundle. `verdicts` says of each input, in bundle order,
/// whether its signature verifies.
pub fn validate_bundle(bundle: &Bundle, verdicts: &Vec<bool>) -> (res: Result<(), BundleError>)
    ensures
        res.is_err() == bundle_error(bundle.transactions(), verdicts@).is_some(),
        res matches Err(e) ==> e == bundle_error(bundle.transactions(), verdicts@).unwrap(),
{
    let ghost txs = bundle.transactions();
    let n: usize = bundle.len();
    if n == 0 {
        return Err(BundleError::Empty);
    }
    let first = bundle.get(0).unwrap();
    let mut i: usize = 0;
    while i < n
        invariant
            i <= n,
            n == txs.len(),
            n > 0,
            txs == bundle.transactions(),
            first@ == txs[0],
            all_in_place(txs, i as int),
        decreases n - i,
    {
        let transaction = bundle.get(i).unwrap();
        if transaction.index.0 != i || transaction.last_index.0 != n - 1 || !trits_eq(
            &transaction.bundle.0,
            &first.bundle.0,
        ) {
            proof {
                assert(!in_place(txs, i as int));
                assert(!all_in_place(txs, n as int));
                let c = first_misplaced(txs);
                if c < i {
                    assert(in_place(txs, c));
                } else if c > i {
                    assert(in_place(txs, i as int));
                }
            }
            return Err(BundleError::Misplaced(i));
        }
        i = i + 1;
    }
    let mut sum: i64 = 0;
    let mut i: usize = 0;
    let mut inputs: usize = 0;
    while i < n
        invariant
            i <= n,
            n == txs.len(),
            txs == bundle.transactions(),
            all_in_place(txs, n as int),
            sums_within_supply(txs, i as int),
            sum == partial_sum(txs, i as int),
            -IOTA_SUPPLY <= sum <= IOTA_SUPPLY,
            inputs == input_count(txs, i as int),
            inputs <= i,
        decreases n - i,
    {
        let transaction = bundle.get(i).unwrap();
        let value: i64 = transaction.value.0;
        let total: i128 = sum as i128 + value as i128;
        if total > IOTA_SUPPLY as i128 || total < -(IOTA_SUPPLY as i128) {
            let reported: i64 = if total > i64::MAX as i128 {
                i64::MAX
            } else if total < i64::MIN as i128 {
                i64::MIN
            } else {
                total as i64
            };
            proof {
                assert(partial_sum(txs, i + 1) == total);
                assert(!sums_within_supply(txs, n as int));
                let c = first_excess(txs);
                if c < i + 1 {
                    assert(-IOTA_SUPPLY <= partial_sum(txs, c) <= IOTA_SUPPLY);
                } else if c > i + 1 {
                    assert(-IOTA_SUPPLY <= partial_sum(txs, i + 1) <= IOTA_SUPPLY);
                }
            }
            return Err(BundleError::InvalidValue(reported));
        }
        if value < 0 {
            inputs = inputs + 1;
        }
        sum = total as i64;
        proof {
            assert forall|c: int| 0 < c <= i + 1 implies -IOTA_SUPPLY <= #[trigger] partial_sum(
                txs,
                c,
            ) <= IOTA_SUPPLY by {
                if c <= i {
                    assert(-IOTA_SUPPLY <= partial_sum(txs, c) <= IOTA_SUPPLY);
                }
            }
        }
        i = i + 1;
    }
    if sum != 0 {
        return Err(BundleError::InvalidValue(sum));
    }
    if first.bundle.0.len() != 243 || !check_trits(&first.bundle.0) {
        return Err(BundleError::InvalidBundleHash);
    }
    let normalized = normalize_hash(&first.bundle.0);
    if find_m_bug(&normalized) {
        return Err(BundleError::MBug);
    }
    if verdicts.len() != inputs {
        return Err(BundleError::InvalidSignature);
    }
    proof {
        assert(!all_signed(txs, verdicts@) ==> bundle_error(txs, verdicts@) == Some(
            BundleError::InvalidSignature,
        ));
        assert(all_signed(txs, verdicts@) ==> bundle_error(txs, verdicts@).is_none());
    }
    let mut k: usize = 0;
    while k < verdicts.len()
        invariant
            k <= verdicts@.len(),
            txs == bundle.transactions(),
            verdicts@.len() == input_count(txs, txs.len() as int),
            !all_signed(txs, verdicts@) ==> bundle_error(txs, verdicts@) == Some(
                BundleError::InvalidSignature,
            ),
            all_signed(txs, verdicts@) ==> bundle_error(txs, verdicts@).is_none(),
            forall|j: int| 0 <= j < k ==> #[trigger] verdicts@[j],
        decreases verdicts@.len() - k,
    {
        if !verdicts[k] {
            assert(!verdicts@[k as int]);
            return Err(BundleError::InvalidSignature);
        }
        k = k + 1;
    }
    Ok(())
}

/// Whether the indices form the places 0 to the last: each transaction
/// says that it stands where it stands, and names the last place.
pub open spec fn indices_in_order(txs: Seq<TransactionBuilderView>) -> bool {
    forall|i: int|
        0 <= i < txs.len() ==> (#[trigger] txs[i]).index == Some(i as usize) && txs[i].last_index
            == Some((txs.len() - 1) as usize)
}

/// Whether every transaction carries the bundle hash of the first.
pub open spec fn one_bundle_hash(txs: Seq<TransactionBuilderView>) -> bool {
    forall|i: int| 0 <= i < txs.len() ==> (#[trigger] txs[i]).bundle == txs[0].bundle
}

/// A bundle of transactions with one bundle hash that is 243 trits and
/// can be signed, whose partial sums stay within the supply, is accepted
/// if and only if its indices form the places 0 to the last, its values
/// sum to zero, and every input is signed.
pub proof fn lemma_accepts_iff(txs: Seq<TransactionBuilderView>, verdicts: Seq<bool>)
    requires
        txs.len() > 0,
        one_bundle_hash(txs),
        sums_within_supply(txs, txs.len() as int),
        txs[0].bundle.unwrap().len() == 243,
        valid_trits(txs[0].bundle.unwrap()),
        !has_m_bug(normalized_hash(txs[0].bundle.unwrap())),
    ensures
        bundle_error(txs, verdicts).is_none() <==> indices_in_order(txs) && partial_sum(
            txs,
            txs.len() as int,
        ) == 0 && all_signed(txs, verdicts),
{
    if indices_in_order(txs) {
        assert forall|i: int| 0 <= i < txs.len() implies in_place(txs, i) by {
            assert(txs[i].index == Some(i as usize));
            assert(txs[i].bundle == txs[0].bundle);
        }
    }
    if all_in_place(txs, txs.len() as int) {
        assert forall|i: int| 0 <= i < txs.len() implies (#[trigger] txs[i]).index == Some(
            i as usize,
        ) && txs[i].last_index == Some((txs.len() - 1) as usize) by {
            assert(in_place(txs, i));
        }
    }
}

/// A bundle that is accepted has its transactions in places 0 to the
/// last, its values summing to zero, and every input signed.
pub proof fn lemma_accepted(txs: Seq<TransactionBuilderView>, verdicts: Seq<bool>)
    requires
        bundle_error(txs, verdicts).is_none(),
    ensures
        txs.len() > 0,
        forall|i: int|
            0 <= i < txs.len() ==> (#[trigger] txs[i]).index == Some(i as usize)
                && txs[i].last_index == Some((txs.len() - 1) as usize),
        partial_sum(txs, txs.len() as int) == 0,
        all_signed(txs, verdicts),
{
    assert forall|i: int| 0 <= i < txs.len() implies (#[trigger] txs[i]).index == Some(i as usize)
        && txs[i].last_index == Some((txs.len() - 1) as usize) by {
        assert(in_place(txs, i));
    }
}

/// The transactions that validation reads the signature of an input from
/// are those that signing writes its fragments to: every transaction of
/// the run of an input belongs to that input.
pub proof fn lemma_run_is_signed(txs: Seq<TransactionBuilderView>, start: int, len: int, p: int)
    requires
        0 <= start,
        start + len <= txs.len(),
        txs[start].value.unwrap() < 0,
        forall|j: int|
            start < j < start + len ==> (#[trigger] txs[j]).value.unwrap() == 0 && txs[j].address
                == txs[start].address,
        start <= p < start + len,
    ensures
        run_start(txs, p) == Some(start),
    decreases p - start,
{
    if p > start {
        lemma_run_is_signed(txs, start, len, p - 1);
        assert(txs[p].value.unwrap() == 0 && txs[p].address == txs[start].address);
    }
}

/// The transactions that carry the signature of each input, in bundle order.
pub fn signature_runs(bundle: &Bundle) -> (runs: Vec<SignatureRun>)
    ensures
        runs@.len() == input_count(bundle.transactions(), bundle.transactions().len() as int),
        forall|k: int|
            0 <= k < runs@.len() ==> {
                let run = #[trigger] runs@[k];
                let txs = bundle.transactions();
                &&& run.start + run.len <= txs.len()
                &&& run.len >= 1
                &&& txs[run.start as int].value.unwrap() < 0
                &&& input_count(txs, run.start as int) == k
                &&& forall|j: int|
                    run.start < j < run.start + run.len ==> (#[trigger] txs[j]).value.unwrap() == 0
                        && txs[j].address == txs[run.start as int].address
                &&& (run.start + run.len < txs.len() ==> !(txs[run.start + run.len].value.unwrap()
                    == 0 && txs[run.start + run.len].address == txs[run.start as int].address))
            },
{
    let ghost txs = bundle.transactions();
    let n: usize = bundle.len();
    let mut runs: Vec<SignatureRun> = Vec::new();
    let mut i: usize = 0;
    while i < n
        invariant
            i <= n,
            n == txs.len(),
            txs == bundle.transactions(),
            runs@.len() == input_count(txs, i as int),
            forall|k: int|
                0 <= k < runs@.len() ==> {
                    let run = #[trigger] runs@[k];
                    &&& run.start + run.len <= txs.len()
                    &&& run.len >= 1
                    &&& txs[run.start as int].value.unwrap() < 0
                    &&& input_count(txs, run.start as int) == k
                    &&& forall|j: int|
                        run.start < j < run.start + run.len ==> (#[trigger] txs[j]).value.unwrap()
                            == 0 && txs[j].address == txs[run.start as int].address
                    &&& (run.start + run.len < txs.len() ==> !(txs[run.start
                        + run.len].value.unwrap() == 0 && txs[run.start + run.len].address
                        == txs[run.start as int].address))
                },
        decreases n - i,
    {
        let transaction = bundle.get(i).unwrap();
        if transaction.value.0 < 0 {
            let mut len: usize = 1;
            let mut going: bool = true;
            while going && i + len < n
                invariant
                    i < n,
                    1 <= len,
                    i + len <= n,
                    n == txs.len(),
                    txs == bundle.transactions(),
                    transaction@ == txs[i as int],
                    forall|j: int|
                        i < j < i + len ==> (#[trigger] txs[j]).value.unwrap() == 0
                            && txs[j].address == txs[i as int].address,
                    !going ==> i + len < n && !(txs[i + len].value.unwrap() == 0 && txs[i
                        + len].address == txs[i as int].address),
                decreases
                        n - (i + len),
                        if going {
                            1int
                        } else {
                            0int
                        },
            {
                let next = bundle.get(i + len).unwrap();
                if next.value.0 == 0 && trits_eq(&next.address.0, &transaction.address.0) {
                    len = len + 1;
                } else {
                    going = false;
                }
            }
            let ghost held = runs@;
            runs.push(SignatureRun { start: i, len });
            proof {
                assert forall|k: int| 0 <= k < runs@.len() implies {
                    let run = #[trigger] runs@[k];
                    &&& run.start + run.len <= txs.len()
                    &&& run.len >= 1
                    &&& txs[run.start as int].value.unwrap() < 0
                    &&& input_count(txs, run.start as int) == k
                    &&& forall|j: int|
                        run.start < j < run.start + run.len ==> (#[trigger] txs[j]).value.unwrap()
                            == 0 && txs[j].address == txs[run.start as int].address
                    &&& (run.start + run.len < txs.len() ==> !(txs[run.start
                        + run.len].value.unwrap() == 0 && txs[run.start + run.len].address
                        == txs[run.start as int].address))
                } by {
                    if k < held.len() {
                        assert(runs@[k] == held[k]);
                    }
                }
            }
        }
        i = i + 1;
    }
    runs
}

} // verus!
