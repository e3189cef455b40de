//! Sequences of balanced trits and their numeric value.

use vstd::prelude::*;
use bee_ternary::{T1B1Buf, T5B1, T5B1Buf, TritBuf, Trits};

verus! {

/// A balanced trit: minus one, zero or plus one.
pub open spec fn is_trit(t: i8) -> bool {
    -1 <= t <= 1
}

/// Every element is a balanced trit.
pub open spec fn valid_trits(s: Seq<i8>) -> bool {
    forall|i: int| 0 <= i < s.len() ==> is_trit(#[trigger] s[i])
}

/// Three to the power `n`.
pub open spec fn pow3(n: nat) -> int
    decreases n,
{
    if n == 0 {
        1
    } else {
        3 * pow3((n - 1) as nat)
    }
}

/// The integer that balanced trits spell, least significant trit first.
pub open spec fn trits_value(s: Seq<i8>) -> int
    decreases s.len(),
{
    if s.len() == 0 {
        0
    } else {
        s[0] as int + 3 * trits_value(s.subrange(1, s.len() as int))
    }
}

/// The shortest spelling of an integer: a single zero for zero, otherwise no
/// zero in the most significant place.
pub open spec fn is_shortest(s: Seq<i8>) -> bool {
    s.len() >= 1 && (s.last() == 0 ==> s.len() == 1)
}

/// The digits of a non-zero integer in balanced ternary, least significant
/// first; no digits for zero.
pub open spec fn balanced_digits(value: int) -> Seq<i8>
    decreases
            if value < 0 {
                -value
            } else {
                value
            },
{
    if value == 0 {
        Seq::empty()
    } else {
        let digit = (value + 1) % 3 - 1;
        seq![digit as i8] + balanced_digits((value - digit) / 3)
    }
}

/// The balanced trits of an integer, least significant first, in the
/// shortest spelling: a single zero for zero.
pub open spec fn balanced_trits(value: int) -> Seq<i8> {
    if value == 0 {
        seq![0i8]
    } else {
        balanced_digits(value)
    }
}

/// `len` zero trits.
pub open spec fn zero_trits(len: nat) -> Seq<i8> {
    Seq::new(len, |i: int| 0i8)
}

/// The number that a byte holds when it is read as signed.
pub open spec fn signed_byte(byte: u8) -> int {
    if byte >= 128 {
        byte - 256
    } else {
        byte as int
    }
}

/// The trit in place `k` of a byte that packs five balanced trits.
pub open spec fn t5b1_trit(byte: u8, k: nat) -> int {
    (signed_byte(byte) + 121) / pow3(k) % 3 - 1
}

/// A byte that packs five balanced trits lies between -121 and 121 when read as signed.
pub open spec fn t5b1_valid(byte: u8) -> bool {
    -121 <= signed_byte(byte) <= 121
}

/// The trit in place `i`, zero behind the last.
pub open spec fn trit_or_zero(trits: Seq<i8>, i: int) -> int {
    if 0 <= i < trits.len() {
        trits[i] as int
    } else {
        0
    }
}

/// The number that packs the five trits from place `5 * j` on: each trit
/// plus one is a digit to the base three, the first the least significant,
/// and 121 is taken off.
pub open spec fn t5b1_number(trits: Seq<i8>, j: int) -> int {
    (trit_or_zero(trits, 5 * j) + 1) + 3 * (trit_or_zero(trits, 5 * j + 1) + 1) + 9 * (
    trit_or_zero(trits, 5 * j + 2) + 1) + 27 * (trit_or_zero(trits, 5 * j + 3) + 1) + 81 * (
    trit_or_zero(trits, 5 * j + 4) + 1) - 121
}

/// The byte that packs the five trits from place `5 * j` on.
pub open spec fn t5b1_byte(trits: Seq<i8>, j: int) -> u8 {
    if t5b1_number(trits, j) < 0 {
        (t5b1_number(trits, j) + 256) as u8
    } else {
        t5b1_number(trits, j) as u8
    }
}

/// The bytes that pack trits, five to a byte, the last byte filled up with zero trits.
pub open spec fn t5b1_bytes(trits: Seq<i8>) -> Seq<u8> {
    Seq::new(((trits.len() + 4) / 5) as nat, |j: int| t5b1_byte(trits, j))
}

/// The first `len` trits that packed bytes hold, five to a byte.
pub open spec fn t5b1_trits(bytes: Seq<u8>, len: nat) -> Seq<i8> {
    Seq::new(len, |i: int| t5b1_trit(bytes[i / 5], (i % 5) as nat) as i8)
}

pub proof fn lemma_pow3_positive(n: nat)
    ensures
        pow3(n) >= 1,
    decreases n,
{
    if n > 0 {
        lemma_pow3_positive((n - 1) as nat);
    }
}

/// Trits of length `n` spell a value of magnitude at most `(3^n - 1) / 2`.
pub proof fn lemma_trits_value_bound(s: Seq<i8>)
    requires
        valid_trits(s),
    ensures
        -(pow3(s.len()) - 1) <= 2 * trits_value(s) <= pow3(s.len()) - 1,
    decreases s.len(),
{
    if s.len() > 0 {
        let rest = s.subrange(1, s.len() as int);
        assert(is_trit(s[0]));
        assert forall|i: int| 0 <= i < rest.len() implies is_trit(#[trigger] rest[i]) by {
            assert(rest[i] == s[i + 1]);
        }
        lemma_trits_value_bound(rest);
    }
}

/// With a non-zero trit in the most significant place, trits of length `n`
/// spell a value of magnitude at least `(3^(n-1) + 1) / 2`.
pub proof fn lemma_trits_value_magnitude(s: Seq<i8>)
    requires
        valid_trits(s),
        s.len() >= 1,
        s.last() != 0,
    ensures
        s.last() > 0 ==> 2 * trits_value(s) >= pow3((s.len() - 1) as nat) + 1,
        s.last() < 0 ==> 2 * trits_value(s) <= -(pow3((s.len() - 1) as nat) + 1),
    decreases s.len(),
{
    let rest = s.subrange(1, s.len() as int);
    assert(is_trit(s[0]));
    assert(is_trit(s.last()));
    if s.len() == 1 {
        assert(rest.len() == 0);
        assert(trits_value(rest) == 0);
    } else {
        assert forall|i: int| 0 <= i < rest.len() implies is_trit(#[trigger] rest[i]) by {
            assert(rest[i] == s[i + 1]);
        }
        assert(rest.last() == s.last());
        lemma_trits_value_magnitude(rest);
    }
}

/// The shortest spelling of a 64-bit value has at most 41 trits.
pub proof fn lemma_shortest_i64_length(s: Seq<i8>, value: i64)
    requires
        valid_trits(s),
        is_shortest(s),
        trits_value(s) == value,
    ensures
        s.len() <= 41,
{
    if s.len() > 41 {
        assert(s.last() != 0);
        lemma_trits_value_magnitude(s);
        let n = (s.len() - 1) as nat;
        assert(n >= 41);
        lemma_pow3_monotone(41, n);
        lemma_pow3_41();
    }
}

/// The digits of a non-zero integer are trits, end in a non-zero trit and
/// spell the integer.
pub proof fn lemma_balanced_digits(value: int)
    requires
        value != 0,
    ensures
        valid_trits(balanced_digits(value)),
        balanced_digits(value).len() >= 1,
        balanced_digits(value).last() != 0,
        trits_value(balanced_digits(value)) == value,
    decreases
            if value < 0 {
                -value
            } else {
                value
            },
{
    let digit = (value + 1) % 3 - 1;
    let rest_value = (value - digit) / 3;
    let rest = balanced_digits(rest_value);
    let all = balanced_digits(value);
    assert(all == seq![digit as i8] + rest);
    assert(all.subrange(1, all.len() as int) =~= rest);
    assert(value == 3 * rest_value + digit);
    assert(all[0] == digit);
    assert(trits_value(all) == all[0] as int + 3 * trits_value(all.subrange(1, all.len() as int)));
    if rest_value != 0 {
        lemma_balanced_digits(rest_value);
        assert(all.last() == rest.last());
        assert forall|i: int| 0 <= i < all.len() implies is_trit(#[trigger] all[i]) by {
            if i > 0 {
                assert(all[i] == rest[i - 1]);
            }
        }
    } else {
        assert(rest.len() == 0);
        assert(trits_value(rest) == 0);
        assert(all =~= seq![digit as i8]);
    }
}

/// The balanced trits of an integer are trits in the shortest spelling of it.
pub proof fn lemma_balanced_trits(value: int)
    ensures
        valid_trits(balanced_trits(value)),
        is_shortest(balanced_trits(value)),
        trits_value(balanced_trits(value)) == value,
{
    if value == 0 {
        let s = seq![0i8];
        assert(s.subrange(1, 1).len() == 0);
        assert(trits_value(s) == 0 + 3 * trits_value(s.subrange(1, 1)));
    } else {
        lemma_balanced_digits(value);
    }
}

pub proof fn lemma_pow3_monotone(a: nat, b: nat)
    requires
        a <= b,
    ensures
        pow3(a) <= pow3(b),
    decreases b,
{
    if a < b {
        lemma_pow3_monotone(a, (b - 1) as nat);
        lemma_pow3_positive((b - 1) as nat);
    }
}

proof fn lemma_pow3_41()
    ensures
        pow3(41) == 36472996377170786403,
{
    assert(pow3(5) == 243) by {
        reveal_with_fuel(pow3, 6);
    }
    lemma_pow3_add(5, 5);
    let p10 = pow3(10);
    assert(p10 == 59049) by (nonlinear_arith)
        requires
            p10 == 243 * 243,
    ;
    lemma_pow3_add(10, 10);
    let p20 = pow3(20);
    assert(p20 == 3486784401) by (nonlinear_arith)
        requires
            p20 == p10 * p10,
            p10 == 59049,
    ;
    lemma_pow3_add(20, 20);
    let p40 = pow3(40);
    assert(p40 == 12157665459056928801) by (nonlinear_arith)
        requires
            p40 == p20 * p20,
            p20 == 3486784401,
    ;
    assert(pow3(41) == 3 * pow3(40));
}

/// Powers of three add in the exponent.
pub proof fn lemma_pow3_add(a: nat, b: nat)
    ensures
        pow3(a + b) == pow3(a) * pow3(b),
    decreases b,
{
    if b == 0 {
        assert(pow3(a + b) == pow3(a) * 1);
    } else {
        lemma_pow3_add(a, (b - 1) as nat);
        assert(pow3(a + b) == 3 * pow3((a + b - 1) as nat));
        assert(pow3(a) * pow3(b) == 3 * (pow3(a) * pow3((b - 1) as nat))) by (nonlinear_arith)
            requires
                pow3(b) == 3 * pow3((b - 1) as nat),
        ;
    }
}

/// `len` zero trits.
pub fn zeros(len: usize) -> (trits: Vec<i8>)
    ensures
        trits@ == zero_trits(len as nat),
{
    let mut trits: Vec<i8> = Vec::new();
    let mut i: usize = 0;
    while i < len
        invariant
            i <= len,
            trits@ == zero_trits(i as nat),
        decreases len - i,
    {
        trits.push(0i8);
        i = i + 1;
        assert(trits@ =~= zero_trits(i as nat));
    }
    trits
}

/// Whether two trit sequences hold the same trits.
pub fn trits_eq(a: &Vec<i8>, b: &Vec<i8>) -> (same: bool)
    ensures
        same == (a@ == b@),
{
    if a.len() != b.len() {
        return false;
    }
    let mut i: usize = 0;
    while i < a.len()
        invariant
            i <= a.len(),
            a.len() == b.len(),
            forall|j: int| 0 <= j < i ==> a[j] == b[j],
        decreases a.len() - i,
    {
        if a[i] != b[i] {
            return false;
        }
        i = i + 1;
    }
    assert(a@ =~= b@);
    true
}

/// The balanced trits of an integer, as `bee_ternary` converts an `i64` into a
/// one-trit-per-byte buffer: least significant first, in the shortest spelling.
#[verifier::external_body]
pub(crate) fn int_trits(value: i64) -> (trits: Vec<i8>)
    ensures
        trits@ == balanced_trits(value as int),
{
    let buf: TritBuf<T1B1Buf> = TritBuf::from(value);
    buf.iter().map(i8::from).collect()
}

/// Unpacks the first `len` trits of bytes that hold five trits each, as
/// `bee_ternary::Trits::<T5B1>::try_from_raw` reads them: it refuses the input
/// when any byte is out of range.
#[verifier::external_body]
pub(crate) fn t5b1_decode(bytes: &Vec<u8>, len: usize) -> (trits: Option<Vec<i8>>)
    requires
        len <= bytes.len() * 5,
    ensures
        trits.is_some() == (forall|i: int| 0 <= i < bytes.len() ==> t5b1_valid(#[trigger] bytes[i])),
        trits.is_some() ==> trits.unwrap()@ == t5b1_trits(bytes@, len as nat),
{
    let raw: &[i8] = bytemuck::cast_slice(bytes.as_slice());
    match Trits::<T5B1>::try_from_raw(raw, len) {
        Ok(trits) => Some(trits.iter().map(i8::from).collect()),
        Err(_) => None,
    }
}

/// Packs trits five to a byte, as `bee_ternary` encodes a buffer of one
/// trit per byte into its `T5B1` encoding; what is no trit is refused.
#[verifier::external_body]
pub(crate) fn t5b1_encode(trits: &Vec<i8>) -> (bytes: Option<Vec<u8>>)
    ensures
        bytes.is_some() == valid_trits(trits@),
        bytes.is_some() ==> bytes.unwrap()@ == t5b1_bytes(trits@),
{
    match TritBuf::<T1B1Buf>::from_i8s(trits) {
        Ok(buf) => Some(buf.encode::<T5B1Buf>().as_i8_slice().iter().map(|b| *b as u8).collect()),
        Err(_) => None,
    }
}

/// Trits are unpacked from the bytes that pack them.
pub proof fn lemma_t5b1_round_trip(trits: Seq<i8>)
    requires
        valid_trits(trits),
    ensures
        forall|j: int| 0 <= j < t5b1_bytes(trits).len() ==> t5b1_valid(#[trigger] t5b1_bytes(trits)[j]),
        t5b1_trits(t5b1_bytes(trits), trits.len()) == trits,
{
    let bytes = t5b1_bytes(trits);
    assert forall|j: int| 0 <= j < bytes.len() implies t5b1_valid(#[trigger] bytes[j]) by {
        lemma_t5b1_byte(trits, j);
    }
    assert forall|i: int| 0 <= i < trits.len() implies #[trigger] t5b1_trits(
        bytes,
        trits.len(),
    )[i] == trits[i] by {
        lemma_t5b1_byte(trits, i / 5);
        assert(is_trit(trits[i]));
    }
    assert(t5b1_trits(bytes, trits.len()) =~= trits);
}

/// The byte that packs five trits is valid and gives each of them back.
proof fn lemma_t5b1_byte(trits: Seq<i8>, j: int)
    requires
        valid_trits(trits),
        0 <= j,
    ensures
        t5b1_valid(t5b1_byte(trits, j)),
        signed_byte(t5b1_byte(trits, j)) == t5b1_number(trits, j),
        forall|k: nat| k < 5 ==> #[trigger] t5b1_trit(t5b1_byte(trits, j), k) == trit_or_zero(
            trits,
            5 * j + k,
        ),
{
    let d0 = trit_or_zero(trits, 5 * j) + 1;
    let d1 = trit_or_zero(trits, 5 * j + 1) + 1;
    let d2 = trit_or_zero(trits, 5 * j + 2) + 1;
    let d3 = trit_or_zero(trits, 5 * j + 3) + 1;
    let d4 = trit_or_zero(trits, 5 * j + 4) + 1;
    assert(0 <= d0 <= 2) by {
        if 5 * j < trits.len() {
            assert(is_trit(trits[5 * j]));
        }
    }
    assert(0 <= d1 <= 2) by {
        if 5 * j + 1 < trits.len() {
            assert(is_trit(trits[5 * j + 1]));
        }
    }
    assert(0 <= d2 <= 2) by {
        if 5 * j + 2 < trits.len() {
            assert(is_trit(trits[5 * j + 2]));
        }
    }
    assert(0 <= d3 <= 2) by {
        if 5 * j + 3 < trits.len() {
            assert(is_trit(trits[5 * j + 3]));
        }
    }
    assert(0 <= d4 <= 2) by {
        if 5 * j + 4 < trits.len() {
            assert(is_trit(trits[5 * j + 4]));
        }
    }
    let u = d0 + 3 * d1 + 9 * d2 + 27 * d3 + 81 * d4;
    assert(t5b1_number(trits, j) == u - 121);
    assert(signed_byte(t5b1_byte(trits, j)) == u - 121);
    assert(pow3(0) == 1 && pow3(1) == 3 && pow3(2) == 9 && pow3(3) == 27 && pow3(4) == 81) by {
        reveal_with_fuel(pow3, 6);
    }
    let r1 = d1 + 3 * d2 + 9 * d3 + 27 * d4;
    let r2 = d2 + 3 * d3 + 9 * d4;
    let r3 = d3 + 3 * d4;
    assert(u == d0 + 3 * r1 && u / 3 == r1 && u % 3 == d0);
    assert(r1 == d1 + 3 * r2 && u / 9 == r2 && r1 % 3 == d1);
    assert(r2 == d2 + 3 * r3 && u / 27 == r3 && r2 % 3 == d2);
    assert(r3 == d3 + 3 * d4 && u / 81 == d4 && r3 % 3 == d3);
    assert forall|k: nat| k < 5 implies #[trigger] t5b1_trit(t5b1_byte(trits, j), k)
        == trit_or_zero(trits, 5 * j + k) by {
        assert(k == 0 || k == 1 || k == 2 || k == 3 || k == 4);
    }
}

} // verus!
