//! The transaction broadcast message and the compression of its payload.
//!
//! A transaction is 1604 bytes on the wire when whole. Its first 1312 bytes
//! hold the signature or message fragment, which often ends in zeros: the
//! trailing zeros of that part are left out when the transaction is sent and
//! put back when it is received.

use vstd::prelude::*;
use std::ops::Range;

verus! {

/// Length in bytes of a whole transaction.
pub const TRANSACTION_SIZE: usize = 1604;

/// Length in bytes of the signature or message fragment.
pub const FRAGMENT_SIZE: usize = 1312;

/// Length in bytes of what follows the fragment, which is always sent.
pub const ESSENTIAL_SIZE: usize = 292;

/// A transaction as it travels: compressed bytes.
#[derive(Debug)]
pub struct TransactionMessage {
    /// The compressed transaction.
    pub bytes: Vec<u8>,
}

/// The number of zero bytes at the end of the first `upto` bytes.
pub open spec fn trailing_zeros(bytes: Seq<u8>, upto: int) -> int
    decreases upto,
{
    if upto <= 0 || bytes[upto - 1] != 0 {
        0
    } else {
        1 + trailing_zeros(bytes, upto - 1)
    }
}

/// A whole transaction without the trailing zeros of its fragment.
pub open spec fn compressed(bytes: Seq<u8>) -> Seq<u8>
    recommends
        bytes.len() == 1604,
{
    bytes.subrange(0, 1312 - trailing_zeros(bytes, 1312)) + bytes.subrange(1312, 1604)
}

/// A compressed transaction with the zeros of its fragment put back.
pub open spec fn uncompressed(bytes: Seq<u8>) -> Seq<u8>
    recommends
        292 <= bytes.len() <= 1604,
{
    let kept = bytes.len() - 292;
    bytes.subrange(0, kept) + Seq::new((1312 - kept) as nat, |i: int| 0u8) + bytes.subrange(
        kept,
        bytes.len() as int,
    )
}

pub proof fn lemma_trailing_zeros(bytes: Seq<u8>, upto: int)
    requires
        0 <= upto <= bytes.len(),
    ensures
        0 <= trailing_zeros(bytes, upto) <= upto,
        forall|i: int| upto - trailing_zeros(bytes, upto) <= i < upto ==> bytes[i] == 0,
        trailing_zeros(bytes, upto) < upto ==> bytes[upto - trailing_zeros(bytes, upto) - 1] != 0,
    decreases upto,
{
    if upto > 0 && bytes[upto - 1] == 0 {
        lemma_trailing_zeros(bytes, upto - 1);
    }
}

/// Compression undone gives the transaction back.
pub proof fn lemma_compress_round_trip(bytes: Seq<u8>)
    requires
        bytes.len() == 1604,
    ensures
        292 <= compressed(bytes).len() <= 1604,
        uncompressed(compressed(bytes)) == bytes,
{
    lemma_trailing_zeros(bytes, 1312);
    assert(uncompressed(compressed(bytes)) =~= bytes);
}

/// A whole transaction has nothing to put back.
pub proof fn lemma_uncompress_whole(bytes: Seq<u8>)
    requires
        bytes.len() == 1604,
    ensures
        uncompressed(bytes) == bytes,
{
    assert(uncompressed(bytes) =~= bytes);
}

/// Compressing what was uncompressed gives the same bytes, where the
/// compressed form was the shortest: its fragment did not end in zero.
pub proof fn lemma_uncompress_round_trip(bytes: Seq<u8>)
    requires
        292 <= bytes.len() <= 1604,
        bytes.len() > 292 ==> bytes[bytes.len() - 293] != 0,
    ensures
        uncompressed(bytes).len() == 1604,
        compressed(uncompressed(bytes)) == bytes,
{
    let whole = uncompressed(bytes);
    let kept = bytes.len() - 292;
    lemma_trailing_zeros(whole, 1312);
    let z = trailing_zeros(whole, 1312);
    if z < 1312 - kept {
        assert(whole[1312 - z - 1] != 0);
    } else if z > 1312 - kept {
        assert(whole[kept - 1] == 0);
    }
    assert(compressed(whole) =~= bytes);
}

impl TransactionMessage {
    /// Message type in the frame header.
    pub const ID: u8 = 0x04;

    /// Wraps compressed bytes.
    pub fn new(bytes: Vec<u8>) -> (message: Self)
        ensures
            message.bytes == bytes,
    {
        Self { bytes }
    }

    /// The payload lengths that a transaction may have: from 292 to 1604 bytes.
    pub fn size_range() -> (range: Range<usize>)
        ensures
            range.start == 292,
            range.end == 1605,
    {
        ESSENTIAL_SIZE..(TRANSACTION_SIZE + 1)
    }

    /// Length in bytes of the payload.
    pub fn size(&self) -> (size: usize)
        ensures
            size == self.bytes@.len(),
    {
        self.bytes.len()
    }
}

/// Leaves out the trailing zeros of the fragment of a whole transaction.
pub fn compress_transaction_bytes(bytes: &Vec<u8>) -> (out: Vec<u8>)
    requires
        bytes.len() == 1604,
    ensures
        out@ == compressed(bytes@),
        292 <= out.len() <= 1604,
{
    let mut kept: usize = FRAGMENT_SIZE;
    while kept > 0 && bytes[kept - 1] == 0
        invariant
            kept <= 1312,
            bytes.len() == 1604,
            trailing_zeros(bytes@, 1312) == (1312 - kept) + trailing_zeros(bytes@, kept as int),
        decreases kept,
    {
        kept = kept - 1;
    }
    let mut out: Vec<u8> = Vec::new();
    let mut i: usize = 0;
    while i < kept
        invariant
            i <= kept <= 1312,
            bytes.len() == 1604,
            out@ == bytes@.subrange(0, i as int),
        decreases kept - i,
    {
        out.push(bytes[i]);
        i = i + 1;
        assert(out@ =~= bytes@.subrange(0, i as int));
    }
    let mut j: usize = FRAGMENT_SIZE;
    while j < TRANSACTION_SIZE
        invariant
            1312 <= j <= 1604,
            bytes.len() == 1604,
            out@ == bytes@.subrange(0, kept as int) + bytes@.subrange(1312, j as int),
        decreases 1604 - j,
    {
        out.push(bytes[j]);
        j = j + 1;
        assert(out@ =~= bytes@.subrange(0, kept as int) + bytes@.subrange(1312, j as int));
    }
    out
}

/// Puts back the zeros that compression left out.
pub fn uncompress_transaction_bytes(bytes: &Vec<u8>) -> (out: Vec<u8>)
    requires
        292 <= bytes.len() <= 1604,
    ensures
        out@ == uncompressed(bytes@),
        out.len() == 1604,
{
    let kept: usize = bytes.len() - ESSENTIAL_SIZE;
    let ghost want = uncompressed(bytes@);
    let mut out: Vec<u8> = Vec::new();
    let mut i: usize = 0;
    while i < TRANSACTION_SIZE
        invariant
            i <= 1604,
            292 <= bytes.len() <= 1604,
            kept == bytes.len() - 292,
            want == uncompressed(bytes@),
            out@ == want.subrange(0, i as int),
        decreases 1604 - i,
    {
        let b: u8 = if i < kept {
            bytes[i]
        } else if i < FRAGMENT_SIZE {
            0
        } else {
            bytes[i - FRAGMENT_SIZE + kept]
        };
        out.push(b);
        i = i + 1;
        assert(out@ =~= want.subrange(0, i as int));
    }
    assert(want.subrange(0, 1604) =~= want);
    out
}

} // verus!
