//! The trits of a transaction: how its fields are laid out, written and read.
//!
//! A transaction is 8019 trits: the payload, the address, the value, the
//! obsolete tag, the timestamp, the index and the last index, the bundle
//! hash, trunk and branch, the tag, the three attachment timestamps and the
//! nonce, each field in a window of its own width. A number is spelled in
//! balanced trits, least significant first, and padded with zeros.

use vstd::prelude::*;
use crate::bundle::transaction::{
    as_signed, push_window, to_signed, window, Address, Index, Nonce, Payload, Tag, Timestamp,
    Transaction, TransactionBuilderView, TransactionError, Value,
};
use crate::ternary::trits::{
    balanced_trits, int_trits, is_trit, lemma_balanced_trits, lemma_shortest_i64_length,
    lemma_trits_value_bound, pow3, trits_value, valid_trits,
};

verus! {

/// The greatest number that 27 trits spell: half of three to the 27th, rounded down.
pub const MAX_27_TRITS: u64 = 3_812_798_742_493;

/// The window of a number: its balanced trits cut or padded to `width`.
pub open spec fn number_field(value: int, width: nat) -> Seq<i8> {
    window(balanced_trits(value), width)
}

/// The trits of a transaction all of whose fields are set.
pub open spec fn transaction_trits(t: TransactionBuilderView) -> Seq<i8> {
    window(t.payload.unwrap(), 6561)
        + window(t.address.unwrap(), 243)
        + number_field(t.value.unwrap() as int, 81)
        + window(t.obsolete_tag.unwrap(), 81)
        + number_field(as_signed(t.timestamp.unwrap()), 27)
        + number_field(as_signed(t.index.unwrap() as u64), 27)
        + number_field(as_signed(t.last_index.unwrap() as u64), 27)
        + window(t.bundle.unwrap(), 243)
        + window(t.trunk.unwrap(), 243)
        + window(t.branch.unwrap(), 243)
        + window(t.tag.unwrap(), 81)
        + number_field(as_signed(t.attachment_ts.unwrap()), 27)
        + number_field(as_signed(t.attachment_lbts.unwrap()), 27)
        + number_field(as_signed(t.attachment_ubts.unwrap()), 27)
        + window(t.nonce.unwrap(), 81)
}

/// Whether a transaction fits its layout: every field of trits has the
/// width of its window, and every timestamp and index is a number that 27
/// trits spell.
pub open spec fn fits_layout(t: TransactionBuilderView) -> bool {
    &&& t.payload.is_some() && t.payload.unwrap().len() == 6561
    &&& t.address.is_some() && t.address.unwrap().len() == 243
    &&& t.value.is_some()
    &&& t.obsolete_tag.is_some() && t.obsolete_tag.unwrap().len() == 81
    &&& t.timestamp.is_some() && t.timestamp.unwrap() <= MAX_27_TRITS
    &&& t.index.is_some() && t.index.unwrap() <= MAX_27_TRITS
    &&& t.last_index.is_some() && t.last_index.unwrap() <= MAX_27_TRITS
    &&& t.bundle.is_some() && t.bundle.unwrap().len() == 243
    &&& t.trunk.is_some() && t.trunk.unwrap().len() == 243
    &&& t.branch.is_some() && t.branch.unwrap().len() == 243
    &&& t.tag.is_some() && t.tag.unwrap().len() == 81
    &&& t.attachment_ts.is_some() && t.attachment_ts.unwrap() <= MAX_27_TRITS
    &&& t.attachment_lbts.is_some() && t.attachment_lbts.unwrap() <= MAX_27_TRITS
    &&& t.attachment_ubts.is_some() && t.attachment_ubts.unwrap() <= MAX_27_TRITS
    &&& t.nonce.is_some() && t.nonce.unwrap().len() == 81
}

/// The number that the trits from `from` up to `to` spell, if they are
/// trits and the number is one that 64 bits hold.
pub open spec fn field_number(trits: Seq<i8>, from: int, to: int) -> Option<i64> {
    let field = trits.subrange(from, to);
    if valid_trits(field) && i64::MIN <= trits_value(field) <= i64::MAX {
        Some(trits_value(field) as i64)
    } else {
        None
    }
}

/// Zeros behind the last trit do not change the number.
pub proof fn lemma_window_value(s: Seq<i8>, width: nat)
    requires
        s.len() <= width,
    ensures
        trits_value(window(s, width)) == trits_value(s),
        valid_trits(s) ==> valid_trits(window(s, width)),
    decreases width,
{
    let w = window(s, width);
    if width == 0 {
        assert(s.len() == 0);
    } else if s.len() == 0 {
        let rest = w.subrange(1, width as int);
        assert(rest =~= window(s, (width - 1) as nat));
        lemma_window_value(s, (width - 1) as nat);
        assert(w[0] == 0);
    } else {
        let rest = w.subrange(1, width as int);
        let tail = s.subrange(1, s.len() as int);
        assert(rest =~= window(tail, (width - 1) as nat));
        lemma_window_value(tail, (width - 1) as nat);
        assert(w[0] == s[0]);
    }
    if valid_trits(s) {
        assert forall|i: int| 0 <= i < w.len() implies is_trit(#[trigger] w[i]) by {
            if i < s.len() {
                assert(w[i] == s[i]);
            }
        }
    }
}

/// A number of at most 64 bits is read back from its window of 27 trits
/// or more, if its balanced trits fit the window.
pub proof fn lemma_number_field(value: i64, width: nat)
    requires
        balanced_trits(value as int).len() <= width,
    ensures
        valid_trits(number_field(value as int, width)),
        trits_value(number_field(value as int, width)) == value,
{
    lemma_balanced_trits(value as int);
    lemma_window_value(balanced_trits(value as int), width);
}

/// Three to the 27th.
pub proof fn lemma_pow3_27()
    ensures
        pow3(27) == 7625597484987,
{
    assert(pow3(9) == 19683) by {
        reveal_with_fuel(pow3, 10);
    }
    crate::ternary::trits::lemma_pow3_add(9, 9);
    let p9 = pow3(9);
    let p18 = pow3(18);
    assert(p18 == 387420489) by (nonlinear_arith)
        requires
            p18 == p9 * p9,
            p9 == 19683,
    ;
    crate::ternary::trits::lemma_pow3_add(18, 9);
    let p27 = pow3(27);
    assert(p27 == 7625597484987) by (nonlinear_arith)
        requires
            p27 == p18 * p9,
            p18 == 387420489,
            p9 == 19683,
    ;
}

/// The balanced trits of a number up to `MAX_27_TRITS` are 27 at most.
pub proof fn lemma_fits_27(value: u64)
    requires
        value <= MAX_27_TRITS,
    ensures
        balanced_trits(value as int).len() <= 27,
{
    let s = balanced_trits(value as int);
    lemma_balanced_trits(value as int);
    if s.len() > 27 {
        crate::ternary::trits::lemma_trits_value_magnitude(s);
        crate::ternary::trits::lemma_pow3_monotone(27, (s.len() - 1) as nat);
        lemma_pow3_27();
        lemma_trits_value_bound(s);
    }
}

/// Where a suffix of trits spells a number beyond 64 bits, so do all the trits.
proof fn lemma_beyond(field: Seq<i8>, k: int)
    requires
        valid_trits(field),
        0 <= k <= field.len(),
        trits_value(field.subrange(k, field.len() as int)) > i64::MAX || trits_value(
            field.subrange(k, field.len() as int),
        ) < i64::MIN,
    ensures
        trits_value(field) > i64::MAX || trits_value(field) < i64::MIN,
    decreases k,
{
    if k == 0 {
        assert(field.subrange(0, field.len() as int) =~= field);
    } else {
        let longer = field.subrange(k - 1, field.len() as int);
        let shorter = field.subrange(k, field.len() as int);
        assert(longer.subrange(1, longer.len() as int) =~= shorter);
        assert(is_trit(field[k - 1]));
        assert(longer[0] == field[k - 1]);
        assert(trits_value(longer) == longer[0] as int + 3 * trits_value(shorter));
        lemma_beyond(field, k - 1);
    }
}

/// Reads the number that the trits from `from` up to `to` spell.
pub fn read_number(trits: &Vec<i8>, from: usize, to: usize) -> (number: Option<i64>)
    requires
        from <= to <= trits.len(),
    ensures
        number == field_number(trits@, from as int, to as int),
{
    let ghost field = trits@.subrange(from as int, to as int);
    let mut i: usize = from;
    while i < to
        invariant
            from <= i <= to,
            to <= trits.len(),
            field == trits@.subrange(from as int, to as int),
            forall|j: int| 0 <= j < i - from ==> is_trit(#[trigger] field[j]),
        decreases to - i,
    {
        if trits[i] < -1 || trits[i] > 1 {
            assert(!is_trit(field[i - from]));
            return None;
        }
        i = i + 1;
    }
    assert(valid_trits(field));
    let mut acc: i128 = 0;
    let mut k: usize = to;
    assert(field.subrange((to - from) as int, field.len() as int).len() == 0);
    while k > from
        invariant
            from <= k <= to,
            to <= trits.len(),
            field == trits@.subrange(from as int, to as int),
            valid_trits(field),
            acc == trits_value(field.subrange(k - from, field.len() as int)),
            i64::MIN <= acc <= i64::MAX,
        decreases k,
    {
        k = k - 1;
        proof {
            let longer = field.subrange(k - from, field.len() as int);
            let shorter = field.subrange(k - from + 1, field.len() as int);
            assert(longer.subrange(1, longer.len() as int) =~= shorter);
            assert(longer[0] == trits@[k as int]);
            assert(is_trit(field[k - from]));
            assert(trits_value(longer) == longer[0] as int + 3 * trits_value(shorter));
        }
        acc = 3 * acc + trits[k] as i128;
        if acc > i64::MAX as i128 || acc < i64::MIN as i128 {
            proof {
                lemma_beyond(field, k - from);
            }
            return None;
        }
    }
    assert(field.subrange(0, field.len() as int) =~= field);
    Some(acc as i64)
}

/// A copy of the trits from `from` up to `to`.
pub fn copy_field(trits: &Vec<i8>, from: usize, to: usize) -> (field: Vec<i8>)
    requires
        from <= to <= trits.len(),
    ensures
        field@ == trits@.subrange(from as int, to as int),
{
    let mut field: Vec<i8> = Vec::new();
    let mut i: usize = from;
    while i < to
        invariant
            from <= i <= to,
            to <= trits.len(),
            field@ == trits@.subrange(from as int, i as int),
        decreases to - i,
    {
        field.push(trits[i]);
        i = i + 1;
        assert(field@ =~= trits@.subrange(from as int, i as int));
    }
    field
}

/// Appends to `out` the window of the number `value` that is `width` wide.
pub fn write_number(out: &mut Vec<i8>, value: i64, width: usize)
    ensures
        final(out)@ == old(out)@ + number_field(value as int, width as nat),
{
    let trits = int_trits(value);
    push_window(out, &trits, width);
}

/// What stands in the way of reading 8019 trits as a transaction: a
/// number that is no number of 64 bits, or a timestamp or an index that is
/// negative. The fields are looked at in the order of the layout.
pub open spec fn read_error(trits: Seq<i8>) -> Option<TransactionError> {
    if field_number(trits, 6804, 6885).is_none() {
        Some(TransactionError::InvalidNumericField("value"))
    } else if field_number(trits, 6966, 6993).is_none() || field_number(trits, 6966, 6993).unwrap() < 0 {
        Some(TransactionError::InvalidNumericField("timestamp"))
    } else if field_number(trits, 6993, 7020).is_none() || field_number(trits, 6993, 7020).unwrap() < 0 {
        Some(TransactionError::InvalidNumericField("index"))
    } else if field_number(trits, 7020, 7047).is_none() || field_number(trits, 7020, 7047).unwrap() < 0 {
        Some(TransactionError::InvalidNumericField("last_index"))
    } else if field_number(trits, 7857, 7884).is_none() || field_number(trits, 7857, 7884).unwrap() < 0 {
        Some(TransactionError::InvalidNumericField("attachment_ts"))
    } else if field_number(trits, 7884, 7911).is_none() || field_number(trits, 7884, 7911).unwrap() < 0 {
        Some(TransactionError::InvalidNumericField("attachment_lbts"))
    } else if field_number(trits, 7911, 7938).is_none() || field_number(trits, 7911, 7938).unwrap() < 0 {
        Some(TransactionError::InvalidNumericField("attachment_ubts"))
    } else {
        None
    }
}

/// The transaction that 8019 trits spell, where they spell one.
pub open spec fn read_transaction(trits: Seq<i8>) -> TransactionBuilderView {
    TransactionBuilderView {
        payload: Some(trits.subrange(0, 6561)),
        address: Some(trits.subrange(6561, 6804)),
        value: Some(field_number(trits, 6804, 6885).unwrap()),
        obsolete_tag: Some(trits.subrange(6885, 6966)),
        timestamp: Some(field_number(trits, 6966, 6993).unwrap() as u64),
        index: Some(field_number(trits, 6993, 7020).unwrap() as usize),
        last_index: Some(field_number(trits, 7020, 7047).unwrap() as usize),
        bundle: Some(trits.subrange(7047, 7290)),
        trunk: Some(trits.subrange(7290, 7533)),
        branch: Some(trits.subrange(7533, 7776)),
        tag: Some(trits.subrange(7776, 7857)),
        attachment_ts: Some(field_number(trits, 7857, 7884).unwrap() as u64),
        attachment_lbts: Some(field_number(trits, 7884, 7911).unwrap() as u64),
        attachment_ubts: Some(field_number(trits, 7911, 7938).unwrap() as u64),
        nonce: Some(trits.subrange(7938, 8019)),
    }
}

impl Transaction {
    /// The trits of the transaction.
    pub fn to_trits(&self) -> (trits: Vec<i8>)
        ensures
            trits@ == transaction_trits(self@),
            trits@.len() == 8019,
    {
        let mut out: Vec<i8> = Vec::new();
        push_window(&mut out, &self.payload.0, 6561);
        push_window(&mut out, &self.address.0, 243);
        write_number(&mut out, self.value.0, 81);
        push_window(&mut out, &self.obsolete_tag.0, 81);
        write_number(&mut out, to_signed(self.timestamp.0), 27);
        write_number(&mut out, to_signed(self.index.0 as u64), 27);
        write_number(&mut out, to_signed(self.last_index.0 as u64), 27);
        push_window(&mut out, &self.bundle.0, 243);
        push_window(&mut out, &self.trunk.0, 243);
        push_window(&mut out, &self.branch.0, 243);
        push_window(&mut out, &self.tag.0, 81);
        write_number(&mut out, to_signed(self.attachment_ts.0), 27);
        write_number(&mut out, to_signed(self.attachment_lbts.0), 27);
        write_number(&mut out, to_signed(self.attachment_ubts.0), 27);
        push_window(&mut out, &self.nonce.0, 81);
        out
    }

    /// Reads a transaction from its trits.
    pub fn from_trits(trits: &Vec<i8>) -> (res: Result<Transaction, TransactionError>)
        ensures
            res.is_err() == (trits@.len() != 8019 || read_error(trits@).is_some()),
            res matches Err(e) ==> e == (if trits@.len() != 8019 {
                TransactionError::InvalidLength
            } else {
                read_error(trits@).unwrap()
            }),
            res matches Ok(t) ==> t@ == read_transaction(trits@),
    {
        if trits.len() != 8019 {
            return Err(TransactionError::InvalidLength);
        }
        let value: i64 = match read_number(trits, 6804, 6885) {
            Some(number) => number,
            None => {
                return Err(TransactionError::InvalidNumericField("value"));
            },
        };
        let timestamp: u64 = match read_number(trits, 6966, 6993) {
            Some(number) => {
                if number < 0 {
                    return Err(TransactionError::InvalidNumericField("timestamp"));
                }
                number as u64
            },
            None => {
                return Err(TransactionError::InvalidNumericField("timestamp"));
            },
        };
        let index: usize = match read_number(trits, 6993, 7020) {
            Some(number) => {
                if number < 0 {
                    return Err(TransactionError::InvalidNumericField("index"));
                }
                number as usize
            },
            None => {
                return Err(TransactionError::InvalidNumericField("index"));
            },
        };
        let last_index: usize = match read_number(trits, 7020, 7047) {
            Some(number) => {
                if number < 0 {
                    return Err(TransactionError::InvalidNumericField("last_index"));
                }
                number as usize
            },
            None => {
                return Err(TransactionError::InvalidNumericField("last_index"));
            },
        };
        let attachment_ts: u64 = match read_number(trits, 7857, 7884) {
            Some(number) => {
                if number < 0 {
                    return Err(TransactionError::InvalidNumericField("attachment_ts"));
                }
                number as u64
            },
            None => {
                return Err(TransactionError::InvalidNumericField("attachment_ts"));
            },
        };
        let attachment_lbts: u64 = match read_number(trits, 7884, 7911) {
            Some(number) => {
                if number < 0 {
                    return Err(TransactionError::InvalidNumericField("attachment_lbts"));
                }
                number as u64
            },
            None => {
                return Err(TransactionError::InvalidNumericField("attachment_lbts"));
            },
        };
        let attachment_ubts: u64 = match read_number(trits, 7911, 7938) {
            Some(number) => {
                if number < 0 {
                    return Err(TransactionError::InvalidNumericField("attachment_ubts"));
                }
                number as u64
            },
            None => {
                return Err(TransactionError::InvalidNumericField("attachment_ubts"));
            },
        };
        Ok(
            Transaction {
                payload: Payload(copy_field(trits, 0, 6561)),
                address: Address(copy_field(trits, 6561, 6804)),
                value: Value(value),
                obsolete_tag: Tag(copy_field(trits, 6885, 6966)),
                timestamp: Timestamp(timestamp),
                index: Index(index),
                last_index: Index(last_index),
                bundle: crate::bundle::transaction::Hash(copy_field(trits, 7047, 7290)),
                trunk: crate::bundle::transaction::Hash(copy_field(trits, 7290, 7533)),
                branch: crate::bundle::transaction::Hash(copy_field(trits, 7533, 7776)),
                tag: Tag(copy_field(trits, 7776, 7857)),
                attachment_ts: Timestamp(attachment_ts),
                attachment_lbts: Timestamp(attachment_lbts),
                attachment_ubts: Timestamp(attachment_ubts),
                nonce: Nonce(copy_field(trits, 7938, 8019)),
            },
        )
    }
}

/// A transaction that fits its layout is read back from its own trits.
pub proof fn lemma_transaction_round_trip(t: TransactionBuilderView)
    requires
        fits_layout(t),
    ensures
        transaction_trits(t).len() == 8019,
        read_error(transaction_trits(t)).is_none(),
        read_transaction(transaction_trits(t)) == t,
{
    let trits = transaction_trits(t);
    assert(trits.subrange(0, 6561) =~= t.payload.unwrap());
    assert(trits.subrange(6561, 6804) =~= t.address.unwrap());
    lemma_balanced_trits(t.value.unwrap() as int);
    lemma_shortest_i64_length(balanced_trits(t.value.unwrap() as int), t.value.unwrap());
    lemma_number_field(t.value.unwrap(), 81);
    assert(trits.subrange(6804, 6885) =~= number_field(t.value.unwrap() as int, 81));
    assert(trits.subrange(6885, 6966) =~= t.obsolete_tag.unwrap());
    lemma_fits_27(t.timestamp.unwrap());
    lemma_number_field(t.timestamp.unwrap() as i64, 27);
    assert(trits.subrange(6966, 6993) =~= number_field(as_signed(t.timestamp.unwrap()), 27));
    lemma_fits_27(t.index.unwrap() as u64);
    lemma_number_field(t.index.unwrap() as i64, 27);
    assert(trits.subrange(6993, 7020) =~= number_field(as_signed(t.index.unwrap() as u64), 27));
    lemma_fits_27(t.last_index.unwrap() as u64);
    lemma_number_field(t.last_index.unwrap() as i64, 27);
    assert(trits.subrange(7020, 7047) =~= number_field(as_signed(t.last_index.unwrap() as u64), 27));
    assert(trits.subrange(7047, 7290) =~= t.bundle.unwrap());
    assert(trits.subrange(7290, 7533) =~= t.trunk.unwrap());
    assert(trits.subrange(7533, 7776) =~= t.branch.unwrap());
    assert(trits.subrange(7776, 7857) =~= t.tag.unwrap());
    lemma_fits_27(t.attachment_ts.unwrap());
    lemma_number_field(t.attachment_ts.unwrap() as i64, 27);
    assert(trits.subrange(7857, 7884) =~= number_field(as_signed(t.attachment_ts.unwrap()), 27));
    lemma_fits_27(t.attachment_lbts.unwrap());
    lemma_number_field(t.attachment_lbts.unwrap() as i64, 27);
    assert(trits.subrange(7884, 7911) =~= number_field(as_signed(t.attachment_lbts.unwrap()), 27));
    lemma_fits_27(t.attachment_ubts.unwrap());
    lemma_number_field(t.attachment_ubts.unwrap() as i64, 27);
    assert(trits.subrange(7911, 7938) =~= number_field(as_signed(t.attachment_ubts.unwrap()), 27));
    assert(trits.subrange(7938, 8019) =~= t.nonce.unwrap());
}

/// The number of zero trits at the end of the first `upto` trits of a hash.
pub open spec fn trailing_zero_trits(hash: Seq<i8>, upto: int) -> int
    decreases upto,
{
    if upto <= 0 || hash[upto - 1] != 0 {
        0
    } else {
        1 + trailing_zero_trits(hash, upto - 1)
    }
}

/// The weight magnitude of a hash: the number of zero trits that it ends in.
pub fn weight_magnitude(hash: &Vec<i8>) -> (weight: usize)
    ensures
        weight == trailing_zero_trits(hash@, hash@.len() as int),
{
    let mut rest: usize = hash.len();
    while rest > 0 && hash[rest - 1] == 0
        invariant
            rest <= hash@.len(),
            trailing_zero_trits(hash@, hash@.len() as int) == (hash@.len() - rest)
                + trailing_zero_trits(hash@, rest as int),
        decreases rest,
    {
        rest = rest - 1;
    }
    hash.len() - rest
}

} // verus!
