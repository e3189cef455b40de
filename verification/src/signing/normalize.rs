//! Normalisation of a hash before it is signed with a Winternitz scheme.
//!
//! A hash of 243 trits is read as 81 trytes, in three fragments of 27. Each
//! fragment is adjusted until its trytes sum to zero: while the sum is
//! positive the first tryte that can still go down is lowered, while it is
//! negative the first tryte that can still go up is raised.

use vstd::prelude::*;
use crate::ternary::trits::{is_trit, valid_trits};

verus! {

/// Trytes in a hash.
pub const TRYTES_PER_HASH: usize = 81;

/// Trytes in one fragment of a normalised hash.
pub const NORMALIZED_FRAGMENT_LENGTH: usize = 27;

/// Least value of a tryte.
pub const MIN_TRYTE_VALUE: i8 = -13;

/// Greatest value of a tryte.
pub const MAX_TRYTE_VALUE: i8 = 13;

/// The value of tryte `j`: three trits, least significant first.
pub open spec fn tryte_at(hash: Seq<i8>, j: int) -> int {
    hash[3 * j] as int + 3 * (hash[3 * j + 1] as int) + 9 * (hash[3 * j + 2] as int)
}

/// The sum of the first `upto` trytes of fragment `f`.
pub open spec fn fragment_sum(hash: Seq<i8>, f: int, upto: int) -> int
    decreases upto,
{
    if upto <= 0 {
        0
    } else {
        fragment_sum(hash, f, upto - 1) + tryte_at(hash, f * 27 + upto - 1)
    }
}

/// `x` held between `low` and `high`.
pub open spec fn clip(x: int, low: int, high: int) -> int {
    if x < low {
        low
    } else if x > high {
        high
    } else {
        x
    }
}

/// The value of tryte `j` after normalisation.
///
/// With a positive fragment sum `s`, the trytes before `j` in the fragment
/// absorb what they can (each down to -13) and tryte `j` takes what is left,
/// as far as it can go; with a negative sum, likewise upwards.
pub open spec fn normalized_tryte(hash: Seq<i8>, j: int) -> int {
    let f = j / 27;
    let k = j % 27;
    let s = fragment_sum(hash, f, 27);
    let t = tryte_at(hash, j);
    let before = fragment_sum(hash, f, k);
    if s > 0 {
        t - clip(s - (before + 13 * k), 0, t + 13)
    } else {
        t + clip(-s - (13 * k - before), 0, 13 - t)
    }
}

/// Trit `k` (0, 1 or 2) of a tryte of value `v`.
pub open spec fn tryte_trit(v: int, k: int) -> int {
    if k == 0 {
        (v + 13) % 3 - 1
    } else if k == 1 {
        (v + 13) / 3 % 3 - 1
    } else {
        (v + 13) / 9 - 1
    }
}

/// The normalised form of a hash of 243 trits.
pub open spec fn normalized_hash(hash: Seq<i8>) -> Seq<i8> {
    Seq::new(243, |i: int| tryte_trit(normalized_tryte(hash, i / 3), i % 3) as i8)
}

proof fn lemma_tryte_range(hash: Seq<i8>, j: int)
    requires
        valid_trits(hash),
        0 <= j,
        3 * j + 2 < hash.len(),
    ensures
        -13 <= tryte_at(hash, j) <= 13,
{
    assert(is_trit(hash[3 * j]));
    assert(is_trit(hash[3 * j + 1]));
    assert(is_trit(hash[3 * j + 2]));
}

proof fn lemma_fragment_sum_range(hash: Seq<i8>, f: int, upto: int)
    requires
        valid_trits(hash),
        hash.len() == 243,
        0 <= f < 3,
        0 <= upto <= 27,
    ensures
        -13 * upto <= fragment_sum(hash, f, upto) <= 13 * upto,
    decreases upto,
{
    if upto > 0 {
        lemma_fragment_sum_range(hash, f, upto - 1);
        lemma_tryte_range(hash, f * 27 + upto - 1);
    }
}

/// A normalised tryte is again a tryte.
pub proof fn lemma_normalized_tryte_range(hash: Seq<i8>, j: int)
    requires
        valid_trits(hash),
        hash.len() == 243,
        0 <= j < 81,
    ensures
        -13 <= normalized_tryte(hash, j) <= 13,
{
    lemma_tryte_range(hash, j);
}

/// The sum of the first `upto` trytes of fragment `f` after normalisation.
pub open spec fn normalized_sum(hash: Seq<i8>, f: int, upto: int) -> int
    decreases upto,
{
    if upto <= 0 {
        0
    } else {
        normalized_sum(hash, f, upto - 1) + normalized_tryte(hash, f * 27 + upto - 1)
    }
}

/// What the first `upto` trytes of a fragment have given up, or taken, so far.
proof fn lemma_normalized_sum(hash: Seq<i8>, f: int, upto: int)
    requires
        valid_trits(hash),
        hash.len() == 243,
        0 <= f < 3,
        0 <= upto <= 27,
    ensures
        fragment_sum(hash, f, 27) > 0 ==> normalized_sum(hash, f, upto) == fragment_sum(
            hash,
            f,
            upto,
        ) - clip(fragment_sum(hash, f, 27), 0, fragment_sum(hash, f, upto) + 13 * upto),
        fragment_sum(hash, f, 27) <= 0 ==> normalized_sum(hash, f, upto) == fragment_sum(
            hash,
            f,
            upto,
        ) + clip(-fragment_sum(hash, f, 27), 0, 13 * upto - fragment_sum(hash, f, upto)),
    decreases upto,
{
    lemma_fragment_sum_range(hash, f, upto);
    if upto > 0 {
        let k = upto - 1;
        let j = f * 27 + k;
        lemma_normalized_sum(hash, f, k);
        lemma_fragment_sum_range(hash, f, k);
        lemma_tryte_range(hash, j);
        assert(j / 27 == f && j % 27 == k);
    }
}

/// After normalisation the trytes of every fragment sum to zero.
pub proof fn lemma_normalized_fragments_balance(hash: Seq<i8>, f: int)
    requires
        valid_trits(hash),
        hash.len() == 243,
        0 <= f < 3,
    ensures
        normalized_sum(hash, f, 27) == 0,
{
    lemma_normalized_sum(hash, f, 27);
    lemma_fragment_sum_range(hash, f, 27);
}

/// The normalised form of a hash.
pub fn normalize_hash(hash: &Vec<i8>) -> (normalized: Vec<i8>)
    requires
        hash.len() == 243,
        valid_trits(hash@),
    ensures
        normalized@ == normalized_hash(hash@),
        normalized.len() == 243,
        valid_trits(normalized@),
{
    let mut out: Vec<i8> = Vec::new();
    let mut f: usize = 0;
    while f < 3
        invariant
            f <= 3,
            hash.len() == 243,
            valid_trits(hash@),
            out.len() == 81 * f,
            forall|i: int| 0 <= i < out.len() ==> out[i] == normalized_hash(hash@)[i],
        decreases 3 - f,
    {
        let mut sum: i16 = 0;
        let mut k: usize = 0;
        while k < 27
            invariant
                k <= 27,
                f < 3,
                hash.len() == 243,
                valid_trits(hash@),
                sum == fragment_sum(hash@, f as int, k as int),
                -13 * k <= sum <= 13 * k,
            decreases 27 - k,
        {
            let j: usize = f * 27 + k;
            proof {
                lemma_tryte_range(hash@, j as int);
            }
            let t: i16 = hash[3 * j] as i16 + 3 * (hash[3 * j + 1] as i16) + 9 * (hash[3 * j + 2]
                as i16);
            sum = sum + t;
            k = k + 1;
        }
        let mut before: i16 = 0;
        let mut k: usize = 0;
        while k < 27
            invariant
                k <= 27,
                f < 3,
                hash.len() == 243,
                valid_trits(hash@),
                sum == fragment_sum(hash@, f as int, 27),
                -351 <= sum <= 351,
                before == fragment_sum(hash@, f as int, k as int),
                -13 * k <= before <= 13 * k,
                out.len() == 81 * f + 3 * k,
                forall|i: int| 0 <= i < out.len() ==> out[i] == normalized_hash(hash@)[i],
            decreases 27 - k,
        {
            let j: usize = f * 27 + k;
            proof {
                lemma_tryte_range(hash@, j as int);
                assert(j as int / 27 == f && j as int % 27 == k);
            }
            let t: i16 = hash[3 * j] as i16 + 3 * (hash[3 * j + 1] as i16) + 9 * (hash[3 * j + 2]
                as i16);
            let k16: i16 = k as i16;
            let v: i16 = if sum > 0 {
                let left: i16 = sum - (before + 13 * k16);
                let take: i16 = if left < 0 {
                    0
                } else if left > t + 13 {
                    t + 13
                } else {
                    left
                };
                t - take
            } else {
                let left: i16 = -sum - (13 * k16 - before);
                let take: i16 = if left < 0 {
                    0
                } else if left > 13 - t {
                    13 - t
                } else {
                    left
                };
                t + take
            };
            assert(v == normalized_tryte(hash@, j as int));
            let u: i16 = v + 13;
            let ghost base = out.len() as int;
            out.push((u % 3 - 1) as i8);
            out.push((u / 3 % 3 - 1) as i8);
            out.push((u / 9 - 1) as i8);
            proof {
                assert(base == 3 * j);
                assert((base + 0) / 3 == j && (base + 0) % 3 == 0);
                assert((base + 1) / 3 == j && (base + 1) % 3 == 1);
                assert((base + 2) / 3 == j && (base + 2) % 3 == 2);
                assert(out[base] == normalized_hash(hash@)[base]);
                assert(out[base + 1] == normalized_hash(hash@)[base + 1]);
                assert(out[base + 2] == normalized_hash(hash@)[base + 2]);
            }
            before = before + t;
            k = k + 1;
        }
        f = f + 1;
    }
    proof {
        assert(out@ =~= normalized_hash(hash@));
        assert forall|i: int| 0 <= i < out.len() implies is_trit(#[trigger] out@[i]) by {
            lemma_normalized_tryte_range(hash@, i / 3);
        }
    }
    out
}

} // verus!
