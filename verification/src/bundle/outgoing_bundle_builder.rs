//! Staged construction of an outgoing bundle: raw, then sealed, then signed,
//! then attached, then built. Each stage is a type of its own, so that a step
//! taken out of order does not compile.

use vstd::prelude::*;
use core::marker::PhantomData;
use crate::bundle::bundle::Bundle;
use crate::bundle::constants::IOTA_SUPPLY;
use crate::bundle::transaction::{
    builder_views, copy_trits, opt_trits, Address, Index, Payload, Tag, TransactionBuilder,
    TransactionBuilderView, TransactionBuilders, TransactionError, Transactions,
};
use crate::bundle::validation::input_count;
use crate::crypto::sponge::Sponge;
use crate::signing::normalize::{normalize_hash, normalized_hash};
use crate::signing::scheme::{PrivateKey, PrivateKeyGenerator};
use crate::ternary::trits::{trits_eq, zeros};

verus! {

/// Why an outgoing bundle could not be taken to its next stage.
#[derive(Debug)]
pub enum OutgoingBundleBuilderError {
    /// The bundle holds no transaction.
    Empty,
    /// The bundle spends from an address and was not signed.
    UnsignedInput,
    /// A partial sum of the values exceeds the supply, or the values do not
    /// sum to zero. Carries the sum, held to the range of `i64`.
    InvalidValue(i64),
    /// A transaction lacks a field that sealing needs.
    MissingTransactionBuilderField(&'static str),
    /// A transaction could not be built.
    TransactionError(TransactionError),
    /// The signing scheme failed.
    FailedSigningOperation,
}

/// A stage of an outgoing bundle.
pub trait OutgoingBundleBuilderStage {

}

/// Transactions are still being added.
pub struct OutgoingRaw;

impl OutgoingBundleBuilderStage for OutgoingRaw {

}

/// Indices and bundle hash are fixed.
pub struct OutgoingSealed;

impl OutgoingBundleBuilderStage for OutgoingSealed {

}

/// Inputs carry their signatures.
pub struct OutgoingSigned;

impl OutgoingBundleBuilderStage for OutgoingSigned {

}

/// Trunk and branch are chosen.
pub struct OutgoingAttached;

impl OutgoingBundleBuilderStage for OutgoingAttached {

}

/// An outgoing bundle at stage `S`, whose bundle hash is computed with the
/// sponge `E`.
pub struct StagedOutgoingBundleBuilder<E, S> {
    builders: TransactionBuilders,
    essence_sponge: PhantomData<E>,
    stage: PhantomData<S>,
}

/// An outgoing bundle that nothing has been done to yet, hashed with `E`.
pub type OutgoingBundleBuilder<E> = StagedOutgoingBundleBuilder<E, OutgoingRaw>;

/// A tag with one added to the number it spells; the greatest tag wraps
/// around to the least. Carries run through the leading plus-one trits.
pub open spec fn incremented(tag: Seq<i8>) -> Seq<i8> {
    Seq::new(
        tag.len(),
        |i: int|
            if carry_reaches(tag, i) {
                bumped(tag[i])
            } else {
                tag[i]
            },
    )
}

/// Whether every trit before place `i` is plus one.
pub open spec fn carry_reaches(tag: Seq<i8>, i: int) -> bool {
    forall|k: int| 0 <= k < i ==> #[trigger] tag[k] >= 1
}

/// The trit that follows `t`: minus one after plus one.
pub open spec fn bumped(t: i8) -> i8 {
    if t >= 1 {
        (-1) as i8
    } else if t == 0 {
        1
    } else {
        0
    }
}

/// `tag` incremented `k` times.
pub open spec fn tag_after(tag: Seq<i8>, k: nat) -> Seq<i8>
    decreases k,
{
    if k == 0 {
        tag
    } else {
        incremented(tag_after(tag, (k - 1) as nat))
    }
}

/// Whether a hash, read in chunks of three trits, holds a chunk of plus ones
/// only: such a chunk is the tryte of value 13, which a signature must not
/// be asked to sign.
pub open spec fn has_m_bug(hash: Seq<i8>) -> bool {
    exists|j: int| 0 <= j && 3 * j < hash.len() && #[trigger] chunk_is_m(hash, j)
}

/// Whether chunk `j` holds plus ones only.
pub open spec fn chunk_is_m(hash: Seq<i8>, j: int) -> bool {
    forall|i: int| 3 * j <= i < 3 * j + 3 && i < hash.len() ==> #[trigger] hash[i] == 1
}

/// The essences of transactions, in bundle order.
pub open spec fn essences(builders: Seq<TransactionBuilderView>) -> Seq<Seq<i8>> {
    Seq::new(builders.len(), |i: int| builders[i].essence())
}

/// The first transaction with `tag` as its obsolete tag, the others as they are.
pub open spec fn retagged(builders: Seq<TransactionBuilderView>, tag: Seq<i8>) -> Seq<
    TransactionBuilderView,
> {
    builders.update(0, TransactionBuilderView { obsolete_tag: Some(tag), ..builders[0] })
}

/// What the sponge is given for one attempt at a bundle hash: the essence of
/// every transaction in bundle order, the first with `tag` as its obsolete tag.
pub open spec fn hash_inputs(builders: Seq<TransactionBuilderView>, tag: Seq<i8>) -> Seq<Seq<i8>> {
    essences(retagged(builders, tag))
}

/// What a fresh sponge holds after the first `n` of `inputs` were offered to
/// it: those that it accepts.
pub open spec fn taken<E: Sponge>(inputs: Seq<Seq<i8>>, n: nat) -> Seq<Seq<i8>>
    decreases n,
{
    if n == 0 {
        Seq::empty()
    } else if E::accepts(inputs[n - 1]) {
        taken::<E>(inputs, (n - 1) as nat).push(inputs[n - 1])
    } else {
        taken::<E>(inputs, (n - 1) as nat)
    }
}

/// The hash of one attempt, if the sponge yields one.
pub open spec fn attempt_hash<E: Sponge>(builders: Seq<TransactionBuilderView>, tag: Seq<i8>) -> Option<
    Seq<i8>,
> {
    E::output(taken::<E>(hash_inputs(builders, tag), builders.len()), 243)
}

/// Whether the search for a bundle hash ends at the `k`-th increment of
/// `tag`: every earlier attempt gave a hash whose normal form has a chunk of
/// plus ones, and this one gives a hash whose normal form has none.
pub open spec fn search_ends<E: Sponge>(
    builders: Seq<TransactionBuilderView>,
    tag: Seq<i8>,
    k: nat,
) -> bool {
    &&& forall|j: nat|
        j < k ==> {
            &&& (#[trigger] attempt_hash::<E>(builders, tag_after(tag, j))).is_some()
            &&& has_m_bug(normalized_hash(attempt_hash::<E>(builders, tag_after(tag, j)).unwrap()))
        }
    &&& attempt_hash::<E>(builders, tag_after(tag, k)).is_some()
    &&& !has_m_bug(normalized_hash(attempt_hash::<E>(builders, tag_after(tag, k)).unwrap()))
}

/// Whether every transaction has the fields that its essence reads, the
/// obsolete tag of the first aside.
pub open spec fn essences_ready(builders: Seq<TransactionBuilderView>) -> bool {
    forall|i: int|
        0 <= i < builders.len() ==> {
            &&& (#[trigger] builders[i]).address.is_some()
            &&& builders[i].value.is_some()
            &&& builders[i].timestamp.is_some()
            &&& builders[i].index.is_some()
            &&& builders[i].last_index.is_some()
            &&& (i > 0 ==> builders[i].obsolete_tag.is_some())
        }
}

/// Transaction `b` with the obsolete tag and the bundle hash that sealing gives it.
pub open spec fn stamped(b: TransactionBuilderView, tag: Seq<i8>, hash: Seq<i8>) -> TransactionBuilderView {
    TransactionBuilderView { obsolete_tag: Some(tag), bundle: Some(hash), ..b }
}

/// The search for a bundle hash ends at one place at most.
pub proof fn lemma_search_ends_once<E: Sponge>(
    builders: Seq<TransactionBuilderView>,
    tag: Seq<i8>,
    a: nat,
    b: nat,
)
    requires
        search_ends::<E>(builders, tag, a),
        search_ends::<E>(builders, tag, b),
    ensures
        a == b,
{
    if a < b {
        assert(has_m_bug(normalized_hash(attempt_hash::<E>(builders, tag_after(tag, a)).unwrap())));
    } else if b < a {
        assert(has_m_bug(normalized_hash(attempt_hash::<E>(builders, tag_after(tag, b)).unwrap())));
    }
}

/// Adds one to the number that `tag` spells, in place.
pub fn increment_tag(tag: &mut Vec<i8>)
    ensures
        final(tag)@ == incremented(old(tag)@),
{
    let mut i: usize = 0;
    while i < tag.len()
        invariant
            i <= tag.len(),
            tag.len() == old(tag).len(),
            carry_reaches(old(tag)@, i as int),
            forall|k: int| 0 <= k < i ==> tag[k] == -1,
            forall|k: int| i <= k < tag.len() ==> tag[k] == old(tag)[k],
        decreases tag.len() - i,
    {
        let t: i8 = tag[i];
        if t >= 1 {
            tag[i] = -1;
            i = i + 1;
        } else {
            if t == 0 {
                tag[i] = 1;
            } else {
                tag[i] = 0;
            }
            proof {
                let before = old(tag)@;
                assert forall|k: int| 0 <= k < tag.len() implies tag@[k] == incremented(
                    before,
                )[k] by {
                    if k > i {
                        assert(!(before[i as int] >= 1));
                        assert(!carry_reaches(before, k));
                    }
                }
                assert(tag@ =~= incremented(before));
            }
            return ;
        }
    }
    proof {
        let before = old(tag)@;
        assert forall|k: int| 0 <= k < tag.len() implies tag@[k] == incremented(before)[k] by {
            assert(before[k] >= 1);
            assert forall|m: int| 0 <= m < k implies #[trigger] before[m] >= 1 by {}
        }
        assert(tag@ =~= incremented(before));
    }
}

/// Whether a hash holds a chunk of three plus-one trits.
pub fn find_m_bug(hash: &Vec<i8>) -> (found: bool)
    ensures
        found == has_m_bug(hash@),
{
    let mut j: usize = 0;
    while j < hash.len() / 3 + 1
        invariant
            j <= hash.len() / 3 + 1,
            forall|c: int| 0 <= c < j && 3 * c < hash.len() ==> !chunk_is_m(hash@, c),
        decreases hash.len() / 3 + 1 - j,
    {
        if 3 * j < hash.len() {
            let mut is_m = true;
            let mut i: usize = 3 * j;
            while i < 3 * j + 3 && i < hash.len()
                invariant
                    3 * j <= i <= 3 * j + 3,
                    3 * j < hash.len(),
                    j <= hash.len() / 3,
                    is_m == (forall|m: int| 3 * j <= m < i && m < hash.len() ==> hash[m] == 1),
                decreases 3 * j + 3 - i,
            {
                if hash[i] != 1 {
                    is_m = false;
                }
                i = i + 1;
            }
            if is_m {
                assert(chunk_is_m(hash@, j as int));
                return true;
            }
            assert(!chunk_is_m(hash@, j as int));
        }
        j = j + 1;
    }
    assert forall|c: int| 0 <= c && 3 * c < hash.len() implies !chunk_is_m(hash@, c) by {
        assert(c < j);
    }
    false
}

/// Every transaction with the obsolete tag and the bundle hash that sealing gives it.
pub open spec fn all_stamped(builders: Seq<TransactionBuilderView>, tag: Seq<i8>, hash: Seq<i8>) -> Seq<
    TransactionBuilderView,
> {
    Seq::new(builders.len(), |i: int| stamped(builders[i], tag, hash))
}

/// Whether the search for a bundle hash comes back on these transactions:
/// where there is a first transaction with an obsolete tag to start from,
/// every essence can be read, the sponge yields a hash at every attempt, and
/// some attempt gives a hash that can be signed.
pub open spec fn hash_search_returns<E: Sponge>(builders: Seq<TransactionBuilderView>) -> bool {
    builders.len() > 0 && builders[0].obsolete_tag.is_some() ==> {
        &&& essences_ready(builders)
        &&& exists|k: nat| search_ends::<E>(builders, builders[0].obsolete_tag.unwrap(), k)
    }
}

/// Whether `done` is `start` with its bundle hash written in, the search
/// having ended at the `k`-th increment of the first obsolete tag: every
/// transaction carries the tag of that attempt and the normal form of its hash.
pub open spec fn hashed_at<E: Sponge>(
    start: Seq<TransactionBuilderView>,
    done: Seq<TransactionBuilderView>,
    k: nat,
) -> bool {
    let tag = start[0].obsolete_tag.unwrap();
    &&& search_ends::<E>(start, tag, k)
    &&& done == all_stamped(
        start,
        tag_after(tag, k),
        normalized_hash(attempt_hash::<E>(start, tag_after(tag, k)).unwrap()),
    )
}

/// Whether every transaction has every field that its essence reads.
pub open spec fn all_have_essence(builders: Seq<TransactionBuilderView>) -> bool {
    forall|i: int| 0 <= i < builders.len() ==> (#[trigger] builders[i]).has_essence()
}

impl<E: Sponge + Default, S: OutgoingBundleBuilderStage> StagedOutgoingBundleBuilder<E, S> {
    /// The transactions of the bundle, in bundle order.
    pub closed spec fn transactions(&self) -> Seq<TransactionBuilderView> {
        builder_views(self.builders.0@)
    }

    /// Makes one attempt at a bundle hash: the sponge is reset and offered
    /// the essence of every transaction; what it yields is normalised.
    fn attempt(&self, sponge: &mut E) -> (hash: Option<Vec<i8>>)
        requires
            all_have_essence(self.transactions()),
        ensures
            hash.is_some() == E::output(
                taken::<E>(essences(self.transactions()), self.transactions().len()),
                243,
            ).is_some(),
            hash matches Some(h) ==> h@ == normalized_hash(
                E::output(
                    taken::<E>(essences(self.transactions()), self.transactions().len()),
                    243,
                ).unwrap(),
            ),
    {
        sponge.reset();
        let n: usize = self.builders.0.len();
        let ghost inputs = essences(self.transactions());
        let mut i: usize = 0;
        while i < n
            invariant
                i <= n,
                n == self.builders.0.len(),
                all_have_essence(self.transactions()),
                inputs == essences(self.transactions()),
                sponge.absorbed() == taken::<E>(inputs, i as nat),
            decreases n - i,
        {
            assert(self.builders.0@[i as int]@ == self.transactions()[i as int]);
            let essence = self.builders.0[i].essence();
            assert(essence@ == inputs[i as int]);
            let _ = sponge.absorb(&essence);
            i = i + 1;
        }
        let mut buf: Vec<i8> = zeros(243);
        match sponge.squeeze_into(&mut buf) {
            Ok(()) => Some(normalize_hash(&buf)),
            Err(_) => None,
        }
    }

    /// Writes an obsolete tag and a bundle hash into every transaction.
    fn stamp(&mut self, tag: &Vec<i8>, hash: &Vec<i8>)
        ensures
            final(self).transactions() == all_stamped(old(self).transactions(), tag@, hash@),
    {
        let ghost start = self.transactions();
        let n: usize = self.builders.0.len();
        let mut i: usize = 0;
        while i < n
            invariant
                i <= n,
                n == self.builders.0.len(),
                start.len() == n,
                forall|j: int|
                    0 <= j < i ==> (#[trigger] self.transactions()[j]) == stamped(
                        start[j],
                        tag@,
                        hash@,
                    ),
                forall|j: int| i <= j < n ==> (#[trigger] self.transactions()[j]) == start[j],
            decreases n - i,
        {
            let ghost before = self.transactions();
            let ghost held = self.builders.0@;
            let new_tag = Tag(copy_trits(tag));
            let bundle = crate::bundle::transaction::Hash(copy_trits(hash));
            self.builders.0[i].obsolete_tag = Some(new_tag);
            self.builders.0[i].bundle = Some(bundle);
            proof {
                assert(self.builders.0@ == held.update(
                    i as int,
                    TransactionBuilder {
                        obsolete_tag: Some(new_tag),
                        bundle: Some(bundle),
                        ..held[i as int]
                    },
                ));
                assert(before[i as int] == held[i as int]@);
                assert(self.transactions()[i as int] == self.builders.0@[i as int]@);
                assert forall|j: int| 0 <= j < i + 1 implies (#[trigger] self.transactions()[j])
                    == stamped(start[j], tag@, hash@) by {
                    if j < i {
                        assert(before[j] == held[j]@);
                        assert(before[j] == stamped(start[j], tag@, hash@));
                    }
                }
                assert forall|j: int| i + 1 <= j < n implies (#[trigger] self.transactions()[j])
                    == start[j] by {
                    assert(before[j] == held[j]@);
                    assert(before[j] == start[j]);
                }
            }
            i = i + 1;
        }
        assert(self.transactions() =~= all_stamped(start, tag@, hash@));
    }

    /// Writes `tag` into the first transaction as its obsolete tag.
    fn retag(&mut self, tag: &Vec<i8>)
        requires
            old(self).transactions().len() > 0,
        ensures
            final(self).transactions() == retagged(old(self).transactions(), tag@),
    {
        let ghost before = self.transactions();
        let ghost held = self.builders.0@;
        let next = Tag(copy_trits(tag));
        self.builders.0[0].obsolete_tag = Some(next);
        proof {
            assert(self.builders.0@ == held.update(
                0,
                TransactionBuilder { obsolete_tag: Some(next), ..held[0] },
            ));
            assert forall|j: int| 0 <= j < before.len() implies self.transactions()[j]
                == retagged(before, tag@)[j] by {
                assert(before[j] == held[j]@);
            }
            assert(self.transactions() =~= retagged(before, tag@));
        }
    }

    /// Finds the bundle hash and writes it, with the obsolete tag that it
    /// was found with, into every transaction.
    ///
    /// The hash of the essences is normalised; while the normal form holds a
    /// chunk of three plus ones, the obsolete tag of the first transaction
    /// is incremented and the hash taken again.
    fn calculate_bundle_hash(&mut self) -> (res: Result<(), OutgoingBundleBuilderError>)
        requires
            hash_search_returns::<E>(old(self).transactions()),
        ensures
            old(self).transactions().len() == 0 ==> (res matches Err(
                OutgoingBundleBuilderError::Empty,
            )) && final(self).transactions() == old(self).transactions(),
            old(self).transactions().len() > 0 && old(self).transactions()[0].obsolete_tag.is_none()
                ==> (res matches Err(e) && e
                == OutgoingBundleBuilderError::MissingTransactionBuilderField("obsolete_tag"))
                && final(self).transactions() == old(self).transactions(),
            old(self).transactions().len() > 0 && old(self).transactions()[0].obsolete_tag.is_some()
                ==> res.is_ok() && exists|k: nat|
                #[trigger] hashed_at::<E>(old(self).transactions(), final(self).transactions(), k),
    {
        let mut sponge = E::default();
        let n: usize = self.builders.0.len();
        if n == 0 {
            return Err(OutgoingBundleBuilderError::Empty);
        }
        assert(self.transactions()[0] == self.builders.0@[0]@);
        let mut obsolete_tag: Vec<i8> = match &self.builders.0[0].obsolete_tag {
            Some(tag) => copy_trits(&tag.0),
            None => {
                return Err(OutgoingBundleBuilderError::MissingTransactionBuilderField("obsolete_tag"));
            },
        };
        let ghost start = self.transactions();
        let ghost tag0 = obsolete_tag@;
        let ghost end: nat = choose|k: nat| search_ends::<E>(start, tag0, k);
        let ghost mut tries: nat = 0;
        let mut hash: Vec<i8> = Vec::new();
        assert(self.transactions() =~= retagged(start, obsolete_tag@));
        loop
            invariant_except_break
                tries <= end,
                obsolete_tag@ == tag_after(tag0, tries),
                self.transactions() == retagged(start, obsolete_tag@),
            invariant
                start.len() > 0,
                essences_ready(start),
                search_ends::<E>(start, tag0, end),
            ensures
                obsolete_tag@ == tag_after(tag0, end),
                hash@ == normalized_hash(attempt_hash::<E>(start, tag_after(tag0, end)).unwrap()),
                self.transactions() == retagged(start, obsolete_tag@),
            decreases end - tries,
        {
            proof {
                lemma_retagged_ready(start, obsolete_tag@);
                assert(attempt_hash::<E>(start, tag_after(tag0, tries)).is_some());
            }
            let normalized = match self.attempt(&mut sponge) {
                Some(normalized) => normalized,
                None => {
                    vstd::pervasive::unreached::<()>();
                    Vec::new()
                },
            };
            if !find_m_bug(&normalized) {
                hash = normalized;
                proof {
                    if tries < end {
                        assert(has_m_bug(
                            normalized_hash(
                                attempt_hash::<E>(start, tag_after(tag0, tries)).unwrap(),
                            ),
                        ));
                    }
                }
                break ;
            }
            increment_tag(&mut obsolete_tag);
            self.retag(&obsolete_tag);
            proof {
                tries = tries + 1;
                assert(self.transactions() =~= retagged(start, obsolete_tag@));
            }
        }
        self.stamp(&obsolete_tag, &hash);
        proof {
            assert(self.transactions() =~= all_stamped(start, obsolete_tag@, hash@));
            assert(hashed_at::<E>(start, self.transactions(), end));
        }
        Ok(())
    }

    /// Finds the bundle hash as `calculate_bundle_hash` does, but gives up
    /// after `attempts` increments of the obsolete tag, or when the sponge
    /// yields no hash. Says whether the hash was found; if it was not, the
    /// transactions are left with the obsolete tag of the last attempt in
    /// the first of them.
    fn calculate_bundle_hash_within(&mut self, attempts: u64) -> (found: bool)
        requires
            old(self).transactions().len() > 0,
            all_have_essence(old(self).transactions()),
        ensures
            found == exists|k: nat|
                k <= attempts && #[trigger] search_ends::<E>(
                    old(self).transactions(),
                    old(self).transactions()[0].obsolete_tag.unwrap(),
                    k,
                ),
            found ==> exists|k: nat|
                #[trigger] hashed_at::<E>(old(self).transactions(), final(self).transactions(), k),
    {
        let mut sponge = E::default();
        assert(self.transactions()[0] == self.builders.0@[0]@);
        let mut obsolete_tag: Vec<i8> = match &self.builders.0[0].obsolete_tag {
            Some(tag) => copy_trits(&tag.0),
            None => Vec::new(),
        };
        let ghost start = self.transactions();
        let ghost tag0 = obsolete_tag@;
        let mut tries: u64 = 0;
        assert(self.transactions() =~= retagged(start, obsolete_tag@));
        assert(essences_ready(start));
        loop
            invariant
                tries <= attempts,
                start.len() > 0,
                start == old(self).transactions(),
                tag0 == start[0].obsolete_tag.unwrap(),
                essences_ready(start),
                obsolete_tag@ == tag_after(tag0, tries as nat),
                self.transactions() == retagged(start, obsolete_tag@),
                forall|j: nat|
                    j < tries ==> {
                        &&& (#[trigger] attempt_hash::<E>(start, tag_after(tag0, j))).is_some()
                        &&& has_m_bug(
                            normalized_hash(attempt_hash::<E>(start, tag_after(tag0, j)).unwrap()),
                        )
                    },
            decreases attempts - tries,
        {
            proof {
                lemma_retagged_ready(start, obsolete_tag@);
            }
            let normalized = match self.attempt(&mut sponge) {
                Some(normalized) => normalized,
                None => {
                    proof {
                        assert forall|k: nat| !search_ends::<E>(start, tag0, k) by {
                            if search_ends::<E>(start, tag0, k) {
                                if k < tries {
                                    assert(has_m_bug(
                                        normalized_hash(
                                            attempt_hash::<E>(start, tag_after(tag0, k)).unwrap(),
                                        ),
                                    ));
                                } else if k > tries {
                                    assert(attempt_hash::<E>(
                                        start,
                                        tag_after(tag0, tries as nat),
                                    ).is_some());
                                }
                            }
                        }
                    }
                    return false;
                },
            };
            if !find_m_bug(&normalized) {
                self.stamp(&obsolete_tag, &normalized);
                proof {
                    assert(search_ends::<E>(start, tag0, tries as nat));
                    assert(self.transactions() =~= all_stamped(start, obsolete_tag@, normalized@));
                    assert(hashed_at::<E>(start, self.transactions(), tries as nat));
                }
                return true;
            }
            if tries == attempts {
                proof {
                    assert forall|k: nat| k <= attempts implies !search_ends::<E>(
                        start,
                        tag0,
                        k,
                    ) by {
                        if search_ends::<E>(start, tag0, k) {
                            assert(has_m_bug(
                                normalized_hash(
                                    attempt_hash::<E>(start, tag_after(tag0, k)).unwrap(),
                                ),
                            ));
                        }
                    }
                }
                return false;
            }
            increment_tag(&mut obsolete_tag);
            self.retag(&obsolete_tag);
            tries = tries + 1;
            proof {
                assert(self.transactions() =~= retagged(start, obsolete_tag@));
            }
        }
    }
}

/// With any obsolete tag in the first transaction, every essence can be read
/// where every essence but for that tag could.
proof fn lemma_retagged_ready(builders: Seq<TransactionBuilderView>, tag: Seq<i8>)
    requires
        builders.len() > 0,
        essences_ready(builders),
    ensures
        all_have_essence(retagged(builders, tag)),
        retagged(retagged(builders, tag), tag) == retagged(builders, tag),
{
    let after = retagged(builders, tag);
    assert forall|i: int| 0 <= i < after.len() implies (#[trigger] after[i]).has_essence() by {
        assert(builders[i].address.is_some());
    }
    assert(retagged(after, tag) =~= after);
}

/// The transactions with their places written in: transaction `i` of `n`
/// gets index `i` and last index `n - 1`.
pub open spec fn indexed(builders: Seq<TransactionBuilderView>) -> Seq<TransactionBuilderView> {
    Seq::new(
        builders.len(),
        |i: int|
            TransactionBuilderView {
                index: Some(i as usize),
                last_index: Some((builders.len() - 1) as usize),
                ..builders[i]
            },
    )
}

/// The sum of the values of the first `n` transactions.
pub open spec fn partial_sum(builders: Seq<TransactionBuilderView>, n: int) -> int
    decreases n,
{
    if n <= 0 {
        0
    } else {
        partial_sum(builders, n - 1) + builders[n - 1].value.unwrap()
    }
}

/// `x` held to the range of `i64`.
pub open spec fn saturated(x: int) -> i64 {
    if x > i64::MAX {
        i64::MAX
    } else if x < i64::MIN {
        i64::MIN
    } else {
        x as i64
    }
}

/// What sealing objects to in transaction `i`, the transactions before it
/// having passed: a missing payload, address, value or tag, in that order,
/// or a partial sum of the values that exceeds the supply.
pub open spec fn seal_error_at(builders: Seq<TransactionBuilderView>, i: int) -> Option<
    OutgoingBundleBuilderError,
> {
    if builders[i].payload.is_none() {
        Some(OutgoingBundleBuilderError::MissingTransactionBuilderField("payload"))
    } else if builders[i].address.is_none() {
        Some(OutgoingBundleBuilderError::MissingTransactionBuilderField("address"))
    } else if builders[i].value.is_none() {
        Some(OutgoingBundleBuilderError::MissingTransactionBuilderField("value"))
    } else if builders[i].tag.is_none() {
        Some(OutgoingBundleBuilderError::MissingTransactionBuilderField("tag"))
    } else if partial_sum(builders, i + 1) > IOTA_SUPPLY || partial_sum(builders, i + 1)
        < -IOTA_SUPPLY {
        Some(OutgoingBundleBuilderError::InvalidValue(saturated(partial_sum(builders, i + 1))))
    } else {
        None
    }
}

/// The first objection among the first `n` transactions.
pub open spec fn first_seal_error(builders: Seq<TransactionBuilderView>, n: int) -> Option<
    OutgoingBundleBuilderError,
>
    decreases n,
{
    if n <= 0 {
        None
    } else if first_seal_error(builders, n - 1).is_some() {
        first_seal_error(builders, n - 1)
    } else {
        seal_error_at(builders, n - 1)
    }
}

/// What is wrong with the transactions of a bundle before its hash is
/// looked for, if anything: the bundle is empty; a transaction lacks a
/// field or a partial sum exceeds the supply; or the values do not sum to zero.
pub open spec fn balance_error(builders: Seq<TransactionBuilderView>) -> Option<
    OutgoingBundleBuilderError,
> {
    if builders.len() == 0 {
        Some(OutgoingBundleBuilderError::Empty)
    } else if first_seal_error(builders, builders.len() as int).is_some() {
        first_seal_error(builders, builders.len() as int)
    } else if partial_sum(builders, builders.len() as int) != 0 {
        Some(
            OutgoingBundleBuilderError::InvalidValue(
                saturated(partial_sum(builders, builders.len() as int)),
            ),
        )
    } else {
        None
    }
}

/// Why a bundle cannot be sealed, if it cannot: something is wrong with
/// its transactions, or the first of them has no obsolete tag.
pub open spec fn seal_error(builders: Seq<TransactionBuilderView>) -> Option<
    OutgoingBundleBuilderError,
> {
    if balance_error(builders).is_some() {
        balance_error(builders)
    } else if builders[0].obsolete_tag.is_none() {
        Some(OutgoingBundleBuilderError::MissingTransactionBuilderField("obsolete_tag"))
    } else {
        None
    }
}

/// Sealing objects to none of the first `n` transactions exactly when none
/// of them gives cause to.
proof fn lemma_first_seal_error_iff(builders: Seq<TransactionBuilderView>, n: int)
    ensures
        first_seal_error(builders, n).is_none() <==> (forall|i: int|
            0 <= i < n ==> (#[trigger] seal_error_at(builders, i)).is_none()),
    decreases n,
{
    if n > 0 {
        lemma_first_seal_error_iff(builders, n - 1);
        if first_seal_error(builders, n).is_none() {
            assert forall|i: int| 0 <= i < n implies (#[trigger] seal_error_at(
                builders,
                i,
            )).is_none() by {}
        } else if first_seal_error(builders, n - 1).is_none() {
            assert(seal_error_at(builders, n - 1).is_some());
        }
    }
}

/// Whether every transaction has the fields that sealing asks for before
/// it looks at the values, and the first its obsolete tag.
pub open spec fn has_seal_fields(builders: Seq<TransactionBuilderView>) -> bool {
    &&& builders.len() > 0
    &&& builders[0].obsolete_tag.is_some()
    &&& forall|i: int|
        0 <= i < builders.len() ==> {
            &&& (#[trigger] builders[i]).payload.is_some()
            &&& builders[i].address.is_some()
            &&& builders[i].value.is_some()
            &&& builders[i].tag.is_some()
        }
}

/// Whether the values balance: every sum of the first values stays within
/// the supply, and all of them sum to zero.
pub open spec fn balanced(builders: Seq<TransactionBuilderView>) -> bool {
    &&& forall|i: int|
        0 < i <= builders.len() ==> -IOTA_SUPPLY <= #[trigger] partial_sum(builders, i)
            <= IOTA_SUPPLY
    &&& partial_sum(builders, builders.len() as int) == 0
}

/// A bundle that is not empty and whose transactions have the fields that
/// sealing asks for is sealed if and only if its values balance.
pub proof fn lemma_seal_accepts_iff(builders: Seq<TransactionBuilderView>)
    requires
        has_seal_fields(builders),
    ensures
        seal_error(builders).is_none() <==> balanced(builders),
{
    let n = builders.len() as int;
    lemma_first_seal_error_iff(builders, n);
    if first_seal_error(builders, n).is_none() {
        assert forall|i: int| 0 < i <= n implies -IOTA_SUPPLY <= #[trigger] partial_sum(
            builders,
            i,
        ) <= IOTA_SUPPLY by {
            assert(seal_error_at(builders, i - 1).is_none());
        }
    }
    if balanced(builders) {
        assert forall|i: int| 0 <= i < n implies (#[trigger] seal_error_at(
            builders,
            i,
        )).is_none() by {
            assert(-IOTA_SUPPLY <= partial_sum(builders, i + 1) <= IOTA_SUPPLY);
        }
    }
}

/// The field that the essence of transaction `i` lacks once the bundle is
/// balanced: the timestamp, or, but for the first transaction, the obsolete tag.
pub open spec fn unready_at(builders: Seq<TransactionBuilderView>, i: int) -> Option<&'static str> {
    if builders[i].timestamp.is_none() {
        Some("timestamp")
    } else if i > 0 && builders[i].obsolete_tag.is_none() {
        Some("obsolete_tag")
    } else {
        None
    }
}

/// The first field that an essence lacks among the first `n` transactions.
pub open spec fn first_unready(builders: Seq<TransactionBuilderView>, n: int) -> Option<
    &'static str,
>
    decreases n,
{
    if n <= 0 {
        None
    } else if first_unready(builders, n - 1).is_some() {
        first_unready(builders, n - 1)
    } else {
        unready_at(builders, n - 1)
    }
}

proof fn lemma_first_unready_stays(builders: Seq<TransactionBuilderView>, i: int, n: int)
    requires
        0 <= i <= n,
        first_unready(builders, i).is_some(),
    ensures
        first_unready(builders, n) == first_unready(builders, i),
    decreases n - i,
{
    if i < n {
        lemma_first_unready_stays(builders, i, n - 1);
    }
}

proof fn lemma_first_unready_none(builders: Seq<TransactionBuilderView>, n: int)
    requires
        first_unready(builders, n).is_none(),
    ensures
        forall|i: int| 0 <= i < n ==> unready_at(builders, i).is_none(),
    decreases n,
{
    if n > 0 {
        lemma_first_unready_none(builders, n - 1);
    }
}

/// What every stage after sealing can rely on: there is a transaction, and
/// each has its value, its place as index, and the bundle hash.
pub open spec fn is_sealed(builders: Seq<TransactionBuilderView>) -> bool {
    &&& builders.len() > 0
    &&& forall|i: int|
        0 <= i < builders.len() ==> {
            &&& (#[trigger] builders[i]).value.is_some()
            &&& builders[i].index == Some(i as usize)
            &&& builders[i].bundle.is_some()
        }
}

/// Whether a transaction spends: its value is negative.
pub open spec fn has_input(builders: Seq<TransactionBuilderView>) -> bool {
    exists|i: int| 0 <= i < builders.len() && (#[trigger] builders[i]).value.unwrap() < 0
}

/// The place of the input that the transaction at `p` belongs to, if it
/// belongs to one: an input, which is a transaction that spends, is
/// followed by the transactions that carry the rest of its signature,
/// which have its address and no value.
pub open spec fn run_start(builders: Seq<TransactionBuilderView>, p: int) -> Option<int>
    decreases p,
{
    if p < 0 || p >= builders.len() {
        None
    } else if builders[p].value.unwrap() < 0 {
        Some(p)
    } else if builders[p].value.unwrap() == 0 && p > 0 {
        match run_start(builders, p - 1) {
            Some(s) => if builders[s].address == builders[p].address {
                Some(s)
            } else {
                None
            },
            None => None,
        }
    } else {
        None
    }
}

/// The payload of the transaction at `p` once signatures were placed.
/// `signatures` holds for each input, in bundle order, the fragments of its
/// signature. Fragment `i` of the signature of an input goes to the `i`-th
/// transaction of that input's run, the input itself being the first. A
/// transaction for which there is no fragment keeps its payload, and a
/// fragment for which the run has no transaction is not placed.
pub open spec fn signed_payload(
    builders: Seq<TransactionBuilderView>,
    signatures: Seq<Seq<Seq<i8>>>,
    p: int,
) -> Option<Seq<i8>> {
    match run_start(builders, p) {
        Some(s) => {
            let input = input_count(builders, s);
            if input < signatures.len() && p - s < signatures[input].len() {
                Some(signatures[input][p - s])
            } else {
                builders[p].payload
            }
        },
        None => builders[p].payload,
    }
}

/// The transactions once signatures were placed: each has the payload
/// that `signed_payload` gives it, and is otherwise as it was.
pub open spec fn with_fragments(
    builders: Seq<TransactionBuilderView>,
    signatures: Seq<Seq<Seq<i8>>>,
) -> Seq<TransactionBuilderView> {
    Seq::new(
        builders.len(),
        |p: int|
            TransactionBuilderView {
                payload: signed_payload(builders, signatures, p),
                ..builders[p]
            },
    )
}

/// The trits of payloads, in order.
pub open spec fn payload_views(payloads: Seq<Payload>) -> Seq<Seq<i8>> {
    Seq::new(payloads.len(), |i: int| payloads[i]@)
}

/// The fragments that the vectors hold, signature by signature.
pub open spec fn fragment_views(signatures: Seq<Vec<Payload>>) -> Seq<Seq<Seq<i8>>> {
    Seq::new(signatures.len(), |j: int| payload_views(signatures[j]@))
}

/// The signature of `message` under the key at `index`, if the key is
/// generated and signs.
pub open spec fn signature_for<G: PrivateKeyGenerator>(
    generator: &G,
    seed: &G::Seed,
    index: u64,
    message: Seq<i8>,
) -> Option<Seq<i8>> {
    match generator.key(seed, index) {
        Some(key) => key.signature(message),
        None => None,
    }
}

/// Whether the key of every input is generated and signs `message`.
pub open spec fn all_sign<G: PrivateKeyGenerator>(
    generator: &G,
    seed: &G::Seed,
    inputs: Seq<(u64, Address)>,
    message: Seq<i8>,
) -> bool {
    forall|j: int|
        0 <= j < inputs.len() ==> signature_for(generator, seed, (#[trigger] inputs[j]).0, message).is_some()
}

/// The fragments of the signatures of `message` under the keys of the
/// inputs, input by input.
pub open spec fn signature_fragments<G: PrivateKeyGenerator>(
    generator: &G,
    seed: &G::Seed,
    inputs: Seq<(u64, Address)>,
    message: Seq<i8>,
) -> Seq<Seq<Seq<i8>>> {
    Seq::new(
        inputs.len(),
        |j: int| fragments_of(signature_for(generator, seed, inputs[j].0, message).unwrap()),
    )
}

/// The pieces of `signature`, each as long as a payload but for the last,
/// which holds what is left.
pub open spec fn fragments_of(signature: Seq<i8>) -> Seq<Seq<i8>> {
    Seq::new(
        ((signature.len() + 6560) / 6561) as nat,
        |i: int|
            signature.subrange(
                6561 * i,
                if 6561 * (i + 1) < signature.len() {
                    6561 * (i + 1)
                } else {
                    signature.len() as int
                },
            ),
    )
}

/// Once sealing has objected, walking further changes nothing.
proof fn lemma_first_seal_error_stays(builders: Seq<TransactionBuilderView>, i: int, n: int)
    requires
        0 <= i <= n,
        first_seal_error(builders, i).is_some(),
    ensures
        first_seal_error(builders, n) == first_seal_error(builders, i),
    decreases n - i,
{
    if i < n {
        lemma_first_seal_error_stays(builders, i, n - 1);
    }
}

/// Where sealing has not objected to the first `n` transactions, none of
/// them gives cause to.
proof fn lemma_first_seal_error_none(builders: Seq<TransactionBuilderView>, n: int)
    requires
        first_seal_error(builders, n).is_none(),
    ensures
        forall|i: int| 0 <= i < n ==> seal_error_at(builders, i).is_none(),
    decreases n,
{
    if n > 0 {
        lemma_first_seal_error_none(builders, n - 1);
    }
}

proof fn lemma_input_count_not_negative(builders: Seq<TransactionBuilderView>, n: int)
    ensures
        input_count(builders, n) >= 0,
    decreases n,
{
    if n > 0 {
        lemma_input_count_not_negative(builders, n - 1);
    }
}

/// Whether two address fields hold the same: both nothing, or the same trits.
fn same_address(a: &Option<Address>, b: &Option<Address>) -> (same: bool)
    ensures
        same == (opt_trits(*a) == opt_trits(*b)),
{
    match (a, b) {
        (Some(x), Some(y)) => trits_eq(&x.0, &y.0),
        (None, None) => true,
        _ => false,
    }
}

/// Appends to `fragments` the pieces of `signature`.
pub fn split_fragments(fragments: &mut Vec<Payload>, signature: &Vec<i8>)
    ensures
        payload_views(final(fragments)@) == payload_views(old(fragments)@) + fragments_of(
            signature@,
        ),
        final(fragments)@.len() == old(fragments)@.len() + fragments_of(signature@).len(),
        forall|i: int|
            0 <= i < old(fragments)@.len() ==> final(fragments)@[i] == old(fragments)@[i],
        forall|i: int|
            0 <= i < fragments_of(signature@).len() ==> (#[trigger] final(fragments)@[old(
                fragments,
            )@.len() + i])@ == fragments_of(signature@)[i],
{
    let ghost pieces = fragments_of(signature@);
    let whole: usize = signature.len() / 6561;
    let total: usize = if signature.len() % 6561 != 0 {
        whole + 1
    } else {
        whole
    };
    assert(total == pieces.len());
    let mut count: usize = 0;
    while count < total
        invariant
            count <= total,
            total == pieces.len(),
            6561 * total < signature.len() + 6561,
            pieces == fragments_of(signature@),
            fragments@.len() == old(fragments)@.len() + count,
            forall|i: int| 0 <= i < old(fragments)@.len() ==> fragments@[i] == old(fragments)@[i],
            forall|i: int|
                0 <= i < count ==> (#[trigger] fragments@[old(fragments)@.len() + i])@ == pieces[i],
        decreases total - count,
    {
        let start: usize = 6561 * count;
        let end: usize = if signature.len() - start > 6561 {
            start + 6561
        } else {
            signature.len()
        };
        let mut piece: Vec<i8> = Vec::new();
        let mut i: usize = start;
        while i < end
            invariant
                start <= i <= end,
                end <= signature.len(),
                piece@ == signature@.subrange(start as int, i as int),
            decreases end - i,
        {
            piece.push(signature[i]);
            i = i + 1;
            assert(piece@ =~= signature@.subrange(start as int, i as int));
        }
        let ghost held = fragments@;
        fragments.push(Payload(piece));
        proof {
            assert(pieces[count as int] == signature@.subrange(start as int, end as int));
            assert forall|i: int| 0 <= i < count + 1 implies (#[trigger] fragments@[old(
                fragments,
            )@.len() + i])@ == pieces[i] by {
                if i < count {
                    assert(fragments@[old(fragments)@.len() + i] == held[old(fragments)@.len()
                        + i]);
                }
            }
        }
        count = count + 1;
    }
    proof {
        let base = old(fragments)@.len() as int;
        let now = payload_views(fragments@);
        let want = payload_views(old(fragments)@) + pieces;
        assert forall|m: int| 0 <= m < now.len() implies now[m] == want[m] by {
            if m >= base {
                let i = m - base;
                assert(fragments@[base + i]@ == pieces[i]);
            }
        }
        assert(now =~= want);
    }
}

impl<E: Sponge + Default> StagedOutgoingBundleBuilder<E, OutgoingRaw> {
    /// A bundle without transactions.
    pub fn new() -> (builder: Self)
        ensures
            builder.transactions().len() == 0,
    {
        Self { builders: TransactionBuilders::new(), essence_sponge: PhantomData, stage: PhantomData }
    }

    /// Adds a transaction at the end.
    pub fn push(&mut self, builder: TransactionBuilder)
        ensures
            final(self).transactions() == old(self).transactions().push(builder@),
    {
        self.builders.push(builder);
        assert(self.transactions() =~= old(self).transactions().push(builder@));
    }

    /// Writes every transaction's index and last index, and checks the values.
    fn index_and_balance(&mut self) -> (res: Result<(), OutgoingBundleBuilderError>)
        ensures
            res.is_err() == balance_error(old(self).transactions()).is_some(),
            res matches Err(e) ==> e == balance_error(old(self).transactions()).unwrap(),
            res.is_ok() ==> final(self).transactions() == indexed(old(self).transactions()),
    {
        let ghost start = self.transactions();
        let n: usize = self.builders.len();
        if n == 0 {
            return Err(OutgoingBundleBuilderError::Empty);
        }
        let last_index: usize = n - 1;
        let mut sum: i64 = 0;
        let mut index: usize = 0;
        while index < n
            invariant
                index <= n,
                start == old(self).transactions(),
                n == self.builders.0@.len(),
                n == start.len(),
                last_index == n - 1,
                first_seal_error(start, index as int).is_none(),
                sum == partial_sum(start, index as int),
                -IOTA_SUPPLY <= sum <= IOTA_SUPPLY,
                forall|j: int|
                    0 <= j < index ==> (#[trigger] self.transactions()[j]) == indexed(start)[j],
                forall|j: int| index <= j < n ==> (#[trigger] self.transactions()[j]) == start[j],
            decreases n - index,
        {
            let ghost before = self.transactions();
            let ghost held = self.builders.0@;
            assert(before[index as int] == held[index as int]@);
            assert(before[index as int] == start[index as int]);
            if self.builders.0[index].payload.is_none() {
                proof {
                    lemma_first_seal_error_stays(start, index + 1, n as int);
                }
                return Err(OutgoingBundleBuilderError::MissingTransactionBuilderField("payload"));
            } else if self.builders.0[index].address.is_none() {
                proof {
                    lemma_first_seal_error_stays(start, index + 1, n as int);
                }
                return Err(OutgoingBundleBuilderError::MissingTransactionBuilderField("address"));
            } else if self.builders.0[index].value.is_none() {
                proof {
                    lemma_first_seal_error_stays(start, index + 1, n as int);
                }
                return Err(OutgoingBundleBuilderError::MissingTransactionBuilderField("value"));
            } else if self.builders.0[index].tag.is_none() {
                proof {
                    lemma_first_seal_error_stays(start, index + 1, n as int);
                }
                return Err(OutgoingBundleBuilderError::MissingTransactionBuilderField("tag"));
            }
            self.builders.0[index].index = Some(Index(index));
            self.builders.0[index].last_index = Some(Index(last_index));
            proof {
                assert(self.builders.0@ == held.update(
                    index as int,
                    TransactionBuilder {
                        index: Some(Index(index)),
                        last_index: Some(Index(last_index)),
                        ..held[index as int]
                    },
                ));
                assert(self.transactions()[index as int] == self.builders.0@[index as int]@);
                assert(self.transactions()[index as int] == indexed(start)[index as int]);
                assert forall|j: int| 0 <= j < index + 1 implies (#[trigger] self.transactions()[j])
                    == indexed(start)[j] by {
                    if j < index {
                        assert(before[j] == held[j]@);
                        assert(before[j] == indexed(start)[j]);
                    }
                }
                assert forall|j: int| index + 1 <= j < n implies (#[trigger] self.transactions()[j])
                    == start[j] by {
                    assert(before[j] == held[j]@);
                    assert(before[j] == start[j]);
                }
            }
            let value: i64 = match &self.builders.0[index].value {
                Some(value) => value.0,
                None => 0,
            };
            let total: i128 = sum as i128 + value as i128;
            if total > IOTA_SUPPLY as i128 || total < -(IOTA_SUPPLY as i128) {
                let reported: i64 = if total > i64::MAX as i128 {
                    i64::MAX
                } else if total < i64::MIN as i128 {
                    i64::MIN
                } else {
                    total as i64
                };
                proof {
                    lemma_first_seal_error_stays(start, index + 1, n as int);
                }
                return Err(OutgoingBundleBuilderError::InvalidValue(reported));
            }
            sum = total as i64;
            index = index + 1;
        }
        if sum != 0 {
            return Err(OutgoingBundleBuilderError::InvalidValue(sum));
        }
        assert(self.transactions() =~= indexed(start));
        Ok(())
    }

    /// Seals the bundle: writes every transaction's index and last index,
    /// checks the values, and finds the bundle hash.
    ///
    /// The search for the bundle hash must come back (`hash_search_returns`):
    /// on other bundles an essence cannot be read, the sponge gives no
    /// hash, or no obsolete tag gives a hash that can be signed.
    /// `seal_within` asks nothing of the bundle and gives up instead.
    pub fn seal(self) -> (res: Result<
        StagedOutgoingBundleBuilder<E, OutgoingSealed>,
        OutgoingBundleBuilderError,
    >)
        requires
            seal_error(self.transactions()).is_none() ==> hash_search_returns::<E>(
                indexed(self.transactions()),
            ),
        ensures
            res.is_err() == seal_error(self.transactions()).is_some(),
            res.is_err() ==> (res matches Err(e) && e == seal_error(self.transactions()).unwrap()),
            res matches Ok(sealed) ==> is_sealed(sealed.transactions()) && exists|k: nat|
                #[trigger] hashed_at::<E>(indexed(self.transactions()), sealed.transactions(), k),
            res matches Ok(sealed) ==> sealed.transactions().len() == self.transactions().len()
                && forall|i: int|
                0 <= i < sealed.transactions().len() ==> (#[trigger] sealed.transactions()[i]).index
                    == Some(i as usize) && sealed.transactions()[i].last_index == Some(
                    (self.transactions().len() - 1) as usize,
                ) && sealed.transactions()[i].value == self.transactions()[i].value
                    && sealed.transactions()[i].address == self.transactions()[i].address,
    {
        let ghost start = self.transactions();
        let mut this = self;
        match this.index_and_balance() {
            Ok(()) => {},
            Err(e) => {
                return Err(e);
            },
        }
        let ghost placed = this.transactions();
        proof {
            assert(start.len() > 0);
            assert(placed.len() == start.len());
            assert(indexed(start)[0].obsolete_tag == start[0].obsolete_tag);
        }
        match this.calculate_bundle_hash() {
            Ok(()) => {},
            Err(e) => {
                return Err(e);
            },
        }
        proof {
            assert(placed[0].obsolete_tag.is_some());
            let k = choose|k: nat| #[trigger] hashed_at::<E>(placed, this.transactions(), k);
            assert(hashed_at::<E>(indexed(start), this.transactions(), k));
            lemma_hashed_is_sealed::<E>(start, this.transactions());
        }
        let ghost done = this.transactions();
        let sealed = StagedOutgoingBundleBuilder::<E, OutgoingSealed> {
            builders: this.builders,
            essence_sponge: PhantomData,
            stage: PhantomData,
        };
        assert(sealed.transactions() == done);
        Ok(sealed)
    }

    /// Seals the bundle as `seal` does, looking for the bundle hash through
    /// at most `attempts` increments of the obsolete tag.
    ///
    /// A bundle that `seal` refuses is refused alike. A transaction whose
    /// essence lacks its timestamp or its obsolete tag is named. Else the
    /// bundle is sealed if the search ends within `attempts` increments, and
    /// nothing is returned if it does not: the sponge gave no hash, or none
    /// that can be signed.
    pub fn seal_within(self, attempts: u64) -> (res: Result<
        Option<StagedOutgoingBundleBuilder<E, OutgoingSealed>>,
        OutgoingBundleBuilderError,
    >)
        ensures
            seal_error(self.transactions()).is_some() ==> (res matches Err(e) && e == seal_error(
                self.transactions(),
            ).unwrap()),
            seal_error(self.transactions()).is_none() && first_unready(
                self.transactions(),
                self.transactions().len() as int,
            ).is_some() ==> (res matches Err(e) && e
                == OutgoingBundleBuilderError::MissingTransactionBuilderField(
                first_unready(self.transactions(), self.transactions().len() as int).unwrap(),
            )),
            seal_error(self.transactions()).is_none() && first_unready(
                self.transactions(),
                self.transactions().len() as int,
            ).is_none() ==> (res matches Ok(sealed) && sealed.is_some() == exists|k: nat|
                k <= attempts && #[trigger] search_ends::<E>(
                    indexed(self.transactions()),
                    self.transactions()[0].obsolete_tag.unwrap(),
                    k,
                )),
            res matches Ok(Some(sealed)) ==> is_sealed(sealed.transactions()) && exists|k: nat|
                #[trigger] hashed_at::<E>(indexed(self.transactions()), sealed.transactions(), k),
    {
        let ghost start = self.transactions();
        let mut this = self;
        match this.index_and_balance() {
            Ok(()) => {},
            Err(e) => {
                return Err(e);
            },
        }
        let n: usize = this.builders.0.len();
        proof {
            assert(start.len() > 0);
            assert(this.transactions().len() == start.len());
            assert(this.transactions()[0] == this.builders.0@[0]@);
            assert(indexed(start)[0].obsolete_tag == start[0].obsolete_tag);
        }
        if this.builders.0[0].obsolete_tag.is_none() {
            return Err(OutgoingBundleBuilderError::MissingTransactionBuilderField("obsolete_tag"));
        }
        let mut i: usize = 0;
        while i < n
            invariant
                i <= n,
                n == this.builders.0@.len(),
                n == start.len(),
                start == self.transactions(),
                this.transactions() == indexed(start),
                seal_error(start).is_none(),
                first_unready(start, i as int).is_none(),
            decreases n - i,
        {
            assert(this.transactions()[i as int] == this.builders.0@[i as int]@);
            if this.builders.0[i].timestamp.is_none() {
                proof {
                    lemma_first_unready_stays(start, i + 1, n as int);
                }
                return Err(OutgoingBundleBuilderError::MissingTransactionBuilderField("timestamp"));
            }
            if i > 0 && this.builders.0[i].obsolete_tag.is_none() {
                proof {
                    lemma_first_unready_stays(start, i + 1, n as int);
                }
                return Err(
                    OutgoingBundleBuilderError::MissingTransactionBuilderField("obsolete_tag"),
                );
            }
            i = i + 1;
        }
        proof {
            lemma_first_unready_none(start, n as int);
            lemma_first_seal_error_none(start, n as int);
            assert forall|j: int| 0 <= j < n implies (#[trigger] this.transactions()[j]).has_essence() by {
                assert(seal_error_at(start, j).is_none());
                assert(unready_at(start, j).is_none());
            }
        }
        let ghost placed = this.transactions();
        if this.calculate_bundle_hash_within(attempts) {
            proof {
                let k = choose|k: nat| #[trigger] hashed_at::<E>(placed, this.transactions(), k);
                assert(hashed_at::<E>(indexed(start), this.transactions(), k));
                lemma_hashed_is_sealed::<E>(start, this.transactions());
            }
            let ghost done = this.transactions();
            let sealed = StagedOutgoingBundleBuilder::<E, OutgoingSealed> {
                builders: this.builders,
                essence_sponge: PhantomData,
                stage: PhantomData,
            };
            assert(sealed.transactions() == done);
            Ok(Some(sealed))
        } else {
            Ok(None)
        }
    }
}

/// A balanced bundle with its hash written in is sealed.
proof fn lemma_hashed_is_sealed<E: Sponge>(
    start: Seq<TransactionBuilderView>,
    done: Seq<TransactionBuilderView>,
)
    requires
        balance_error(start).is_none(),
        exists|k: nat| #[trigger] hashed_at::<E>(indexed(start), done, k),
    ensures
        is_sealed(done),
{
    let k = choose|k: nat| #[trigger] hashed_at::<E>(indexed(start), done, k);
    lemma_first_seal_error_none(start, start.len() as int);
    assert forall|i: int| 0 <= i < done.len() implies {
        &&& (#[trigger] done[i]).value.is_some()
        &&& done[i].index == Some(i as usize)
        &&& done[i].bundle.is_some()
    } by {
        assert(seal_error_at(start, i).is_none());
    }
}

impl<E: Sponge + Default> StagedOutgoingBundleBuilder<E, OutgoingSealed> {
    /// Refuses a bundle that spends: such a bundle must be signed.
    fn has_no_input(&self) -> (res: Result<(), OutgoingBundleBuilderError>)
        requires
            is_sealed(self.transactions()),
        ensures
            res.is_err() == has_input(self.transactions()),
            res.is_err() ==> res matches Err(OutgoingBundleBuilderError::UnsignedInput),
    {
        let mut i: usize = 0;
        while i < self.builders.0.len()
            invariant
                i <= self.builders.0@.len(),
                is_sealed(self.transactions()),
                forall|j: int| 0 <= j < i ==> (#[trigger] self.transactions()[j]).value.unwrap() >= 0,
            decreases self.builders.0@.len() - i,
        {
            assert(self.transactions()[i as int] == self.builders.0@[i as int]@);
            let value: i64 = match &self.builders.0[i].value {
                Some(value) => value.0,
                None => 0,
            };
            if value < 0 {
                return Err(OutgoingBundleBuilderError::UnsignedInput);
            }
            i = i + 1;
        }
        Ok(())
    }

    /// Attaches a bundle that needs no signature: one that spends nothing.
    pub fn attach_local(self, trunk: crate::bundle::transaction::Hash, branch: crate::bundle::transaction::Hash) -> (res: Result<
        StagedOutgoingBundleBuilder<E, OutgoingAttached>,
        OutgoingBundleBuilderError,
    >)
        requires
            is_sealed(self.transactions()),
        ensures
            res.is_err() == has_input(self.transactions()),
            res.is_err() ==> res matches Err(OutgoingBundleBuilderError::UnsignedInput),
            res.is_ok() ==> res.unwrap().transactions() == self.transactions(),
    {
        match self.has_no_input() {
            Ok(()) => {},
            Err(e) => {
                return Err(e);
            },
        }
        let signed = StagedOutgoingBundleBuilder::<E, OutgoingSigned> {
            builders: self.builders,
            essence_sponge: PhantomData,
            stage: PhantomData,
        };
        signed.attach_local(trunk, branch)
    }

    /// Attaches a bundle that needs no signature: one that spends nothing.
    pub fn attach_remote(self, trunk: crate::bundle::transaction::Hash, branch: crate::bundle::transaction::Hash) -> (res: Result<
        StagedOutgoingBundleBuilder<E, OutgoingAttached>,
        OutgoingBundleBuilderError,
    >)
        requires
            is_sealed(self.transactions()),
        ensures
            res.is_err() == has_input(self.transactions()),
            res.is_err() ==> res matches Err(OutgoingBundleBuilderError::UnsignedInput),
            res.is_ok() ==> res.unwrap().transactions() == self.transactions(),
    {
        match self.has_no_input() {
            Ok(()) => {},
            Err(e) => {
                return Err(e);
            },
        }
        let signed = StagedOutgoingBundleBuilder::<E, OutgoingSigned> {
            builders: self.builders,
            essence_sponge: PhantomData,
            stage: PhantomData,
        };
        signed.attach_remote(trunk, branch)
    }

    /// Writes the fragments of signatures into the bundle, as
    /// `with_fragments` says: `signatures` holds for each input, in bundle
    /// order, the fragments of its signature, and each fragment goes to
    /// its own transaction of the input's run.
    pub fn place_fragments(self, signatures: &Vec<Vec<Payload>>) -> (signed: StagedOutgoingBundleBuilder<
        E,
        OutgoingSigned,
    >)
        requires
            is_sealed(self.transactions()),
        ensures
            signed.transactions() == with_fragments(
                self.transactions(),
                fragment_views(signatures@),
            ),
    {
        let ghost start = self.transactions();
        let ghost pieces = fragment_views(signatures@);
        let ghost want = with_fragments(start, pieces);
        let mut this = self;
        let n: usize = this.builders.0.len();
        // The input whose run the walk is in, and its number among the inputs.
        let mut run: Option<usize> = None;
        let mut number: usize = 0;
        let mut count: usize = 0;
        let mut p: usize = 0;
        while p < n
            invariant
                p <= n,
                n == this.builders.0@.len(),
                n == start.len(),
                is_sealed(start),
                pieces == fragment_views(signatures@),
                want == with_fragments(start, pieces),
                count == input_count(start, p as int),
                count <= p,
                p == 0 ==> run.is_none(),
                p > 0 ==> (match run {
                    Some(s) => run_start(start, p - 1) == Some(s as int),
                    None => run_start(start, p - 1).is_none(),
                }),
                run matches Some(s) ==> s < p && number == input_count(start, s as int),
                forall|m: int| 0 <= m < p ==> (#[trigger] this.transactions()[m]) == want[m],
                forall|m: int| p <= m < n ==> (#[trigger] this.transactions()[m]) == start[m],
            decreases n - p,
        {
            let ghost before = this.transactions();
            let ghost held = this.builders.0@;
            assert(before[p as int] == held[p as int]@);
            assert(before[p as int] == start[p as int]);
            let value: i64 = match &this.builders.0[p].value {
                Some(value) => value.0,
                None => 0,
            };
            if value < 0 {
                run = Some(p);
                number = count;
                count = count + 1;
            } else if value == 0 {
                run = match run {
                    Some(s) => {
                        assert(before[s as int] == held[s as int]@);
                        assert(before[s as int] == want[s as int]);
                        if same_address(&this.builders.0[s].address, &this.builders.0[p].address) {
                            Some(s)
                        } else {
                            None
                        }
                    },
                    None => None,
                };
            } else {
                run = None;
            }
            proof {
                assert(match run {
                    Some(s) => run_start(start, p as int) == Some(s as int),
                    None => run_start(start, p as int).is_none(),
                });
            }
            let mut placed: bool = false;
            match run {
                Some(s) => {
                    if number < signatures.len() {
                        if p - s < signatures[number].len() {
                            let payload = signatures[number][p - s].duplicate();
                            assert(pieces[number as int] == payload_views(signatures@[number as int]@));
                            assert(payload@ == pieces[number as int][p - s]);
                            this.builders.0[p].payload = Some(payload);
                            proof {
                                assert(this.builders.0@ == held.update(
                                    p as int,
                                    TransactionBuilder { payload: Some(payload), ..held[p as int] },
                                ));
                            }
                            placed = true;
                        }
                    }
                },
                None => {},
            }
            proof {
                assert(this.transactions()[p as int] == this.builders.0@[p as int]@);
                assert(this.transactions()[p as int] == want[p as int]);
                assert forall|m: int| 0 <= m < p + 1 implies (#[trigger] this.transactions()[m])
                    == want[m] by {
                    if m < p {
                        assert(before[m] == held[m]@);
                        assert(this.transactions()[m] == this.builders.0@[m]@);
                    }
                }
                assert forall|m: int| p + 1 <= m < n implies (#[trigger] this.transactions()[m])
                    == start[m] by {
                    assert(before[m] == held[m]@);
                    assert(this.transactions()[m] == this.builders.0@[m]@);
                }
            }
            p = p + 1;
        }
        assert(this.transactions() =~= want);
        StagedOutgoingBundleBuilder::<E, OutgoingSigned> {
            builders: this.builders,
            essence_sponge: PhantomData,
            stage: PhantomData,
        }
    }

    /// Signs the bundle hash once for each of `inputs`, with the key at the
    /// input's index under `seed`, and writes the fragments of the
    /// signatures into the bundle.
    ///
    /// Signing succeeds exactly when the key of every input is generated
    /// and signs the bundle hash. The inputs are taken in bundle order: the
    /// first of `inputs` is the first transaction that spends, and so on.
    /// The signature of an input is cut into fragments as long as a
    /// payload, and each fragment goes to its own transaction of the
    /// input's run: the first to the input itself, the next to the
    /// transaction that follows it with its address and no value, and so on.
    pub fn sign<G: PrivateKeyGenerator>(
        self,
        generator: &G,
        seed: &G::Seed,
        inputs: Vec<(u64, Address)>,
    ) -> (res: Result<StagedOutgoingBundleBuilder<E, OutgoingSigned>, OutgoingBundleBuilderError>)
        requires
            is_sealed(self.transactions()),
        ensures
            res.is_ok() == all_sign(
                generator,
                seed,
                inputs@,
                self.transactions()[0].bundle.unwrap(),
            ),
            res.is_err() ==> res matches Err(OutgoingBundleBuilderError::FailedSigningOperation),
            res matches Ok(signed) ==> signed.transactions() == with_fragments(
                self.transactions(),
                signature_fragments(
                    generator,
                    seed,
                    inputs@,
                    self.transactions()[0].bundle.unwrap(),
                ),
            ),
            inputs@.len() == 0 ==> res.is_ok() && res.unwrap().transactions()
                == self.transactions(),
    {
        assert(self.transactions()[0] == self.builders.0@[0]@);
        let message: Vec<i8> = match &self.builders.0[0].bundle {
            Some(bundle) => copy_trits(&bundle.0),
            None => Vec::new(),
        };
        let ghost hash = self.transactions()[0].bundle.unwrap();
        assert(message@ == hash);
        let ghost want = signature_fragments(generator, seed, inputs@, hash);
        let mut signatures: Vec<Vec<Payload>> = Vec::new();
        let mut i: usize = 0;
        while i < inputs.len()
            invariant
                i <= inputs@.len(),
                message@ == hash,
                hash == self.transactions()[0].bundle.unwrap(),
                want == signature_fragments(generator, seed, inputs@, hash),
                signatures@.len() == i,
                forall|j: int|
                    0 <= j < i ==> signature_for(generator, seed, (#[trigger] inputs@[j]).0, hash).is_some(),
                forall|j: int| 0 <= j < i ==> (#[trigger] fragment_views(signatures@)[j]) == want[j],
            decreases inputs@.len() - i,
        {
            let index: u64 = inputs[i].0;
            let mut key = match generator.generate(seed, index) {
                Ok(key) => key,
                Err(_) => {
                    assert(signature_for(generator, seed, inputs@[i as int].0, hash).is_none());
                    return Err(OutgoingBundleBuilderError::FailedSigningOperation);
                },
            };
            let signature = match key.sign(&message) {
                Ok(signature) => signature,
                Err(_) => {
                    assert(signature_for(generator, seed, inputs@[i as int].0, hash).is_none());
                    return Err(OutgoingBundleBuilderError::FailedSigningOperation);
                },
            };
            assert(signature_for(generator, seed, inputs@[i as int].0, hash) == Some(signature@));
            let mut fragments: Vec<Payload> = Vec::new();
            split_fragments(&mut fragments, &signature);
            let ghost held = signatures@;
            signatures.push(fragments);
            proof {
                let now = fragment_views(signatures@);
                assert(payload_views(Seq::<Payload>::empty()) =~= Seq::<Seq<i8>>::empty());
                assert(now[i as int] =~= fragments_of(signature@));
                assert forall|j: int| 0 <= j < i + 1 implies (#[trigger] now[j]) == want[j] by {
                    if j < i {
                        assert(signatures@[j] == held[j]);
                        assert(now[j] =~= fragment_views(held)[j]);
                    }
                }
            }
            i = i + 1;
        }
        proof {
            assert(fragment_views(signatures@) =~= want);
        }
        let signed = self.place_fragments(&signatures);
        proof {
            if inputs@.len() == 0 {
                assert forall|p: int| 0 <= p < self.transactions().len() implies signed.transactions()[p]
                    == self.transactions()[p] by {
                    if run_start(self.transactions(), p).is_some() {
                        lemma_input_count_not_negative(
                            self.transactions(),
                            run_start(self.transactions(), p).unwrap(),
                        );
                    }
                    assert(signed_payload(self.transactions(), want, p)
                        == self.transactions()[p].payload);
                }
                assert(signed.transactions() =~= self.transactions());
            }
        }
        Ok(signed)
    }
}

impl<E: Sponge + Default> StagedOutgoingBundleBuilder<E, OutgoingSigned> {
    /// Attaches the bundle. Trunk and branch are not written yet: attaching
    /// only moves the bundle to its next stage.
    pub fn attach_local(self, _trunk: crate::bundle::transaction::Hash, _branch: crate::bundle::transaction::Hash) -> (res: Result<
        StagedOutgoingBundleBuilder<E, OutgoingAttached>,
        OutgoingBundleBuilderError,
    >)
        ensures
            res.is_ok(),
            res.unwrap().transactions() == self.transactions(),
    {
        Ok(
            StagedOutgoingBundleBuilder::<E, OutgoingAttached> {
                builders: self.builders,
                essence_sponge: PhantomData,
                stage: PhantomData,
            },
        )
    }

    /// Attaches the bundle. Trunk and branch are not written yet: attaching
    /// only moves the bundle to its next stage.
    pub fn attach_remote(self, _trunk: crate::bundle::transaction::Hash, _branch: crate::bundle::transaction::Hash) -> (res: Result<
        StagedOutgoingBundleBuilder<E, OutgoingAttached>,
        OutgoingBundleBuilderError,
    >)
        ensures
            res.is_ok(),
            res.unwrap().transactions() == self.transactions(),
    {
        Ok(
            StagedOutgoingBundleBuilder::<E, OutgoingAttached> {
                builders: self.builders,
                essence_sponge: PhantomData,
                stage: PhantomData,
            },
        )
    }
}

/// Whether one of the first `n` transactions cannot be built.
pub open spec fn some_build_error(builders: Seq<TransactionBuilderView>, n: int) -> bool {
    exists|i: int| 0 <= i < n && (#[trigger] builders[i]).build_error().is_some()
}

impl<E: Sponge + Default> StagedOutgoingBundleBuilder<E, OutgoingAttached> {
    /// Builds every transaction, in order, into a bundle; the first
    /// transaction that cannot be built gives the error.
    pub fn build(self) -> (res: Result<Bundle, OutgoingBundleBuilderError>)
        ensures
            res.is_err() == some_build_error(
                self.transactions(),
                self.transactions().len() as int,
            ),
            res.is_err() ==> exists|i: int|
                0 <= i < self.transactions().len() && !some_build_error(self.transactions(), i)
                    && (#[trigger] self.transactions()[i]).build_error().is_some() && (
                res matches Err(OutgoingBundleBuilderError::TransactionError(e)) && e
                    == self.transactions()[i].build_error().unwrap()),
            res.is_ok() ==> res.unwrap().transactions() == self.transactions(),
    {
        let ghost start = self.transactions();
        let mut transactions = Transactions::new();
        let mut builders: Vec<TransactionBuilder> = self.builders.0;
        let ghost all = builders@;
        let n: usize = builders.len();
        let mut rest: Vec<TransactionBuilder> = Vec::new();
        // Builders are taken from the back: turn the list around first.
        while builders.len() > 0
            invariant
                builders@.len() + rest@.len() == n,
                all.len() == n,
                forall|j: int| 0 <= j < builders@.len() ==> builders@[j] == all[j],
                forall|j: int| 0 <= j < rest@.len() ==> rest@[j] == all[n - 1 - j],
            decreases builders@.len(),
        {
            let builder = builders.pop().unwrap();
            rest.push(builder);
        }
        let mut i: usize = 0;
        while rest.len() > 0
            invariant
                i + rest@.len() == n,
                all.len() == n,
                start == self.transactions(),
                start == builder_views(all),
                forall|j: int| 0 <= j < rest@.len() ==> rest@[j] == all[n - 1 - j],
                transactions.0@.len() == i,
                forall|j: int| 0 <= j < i ==> (#[trigger] transactions.0@[j])@ == start[j],
                !some_build_error(start, i as int),
            decreases rest@.len(),
        {
            let builder = rest.pop().unwrap();
            assert(builder == all[i as int]);
            assert(start[i as int] == builder@);
            match builder.build() {
                Ok(transaction) => {
                    let ghost held = transactions.0@;
                    transactions.push(transaction);
                    proof {
                        assert forall|j: int| 0 <= j < i + 1 implies (
                        #[trigger] transactions.0@[j])@ == start[j] by {
                            if j < i {
                                assert(transactions.0@[j] == held[j]);
                            }
                        }
                        assert(!some_build_error(start, i + 1)) by {
                            if some_build_error(start, i + 1) {
                                let w = choose|w: int|
                                    0 <= w < i + 1 && (#[trigger] start[w]).build_error().is_some();
                                assert(w < i);
                            }
                        }
                    }
                },
                Err(e) => {
                    proof {
                        assert(start[i as int].build_error().is_some());
                        assert(some_build_error(start, n as int));
                    }
                    return Err(OutgoingBundleBuilderError::TransactionError(e));
                },
            }
            i = i + 1;
        }
        let bundle = Bundle(transactions);
        assert(bundle.transactions() =~= start);
        Ok(bundle)
    }
}

} // verus!
