//! Big-endian integer fields inside message payloads.

use vstd::prelude::*;

verus! {

/// The value of two bytes read as a big-endian integer.
pub open spec fn be_u16(bytes: Seq<u8>) -> int
    recommends
        bytes.len() == 2,
{
    bytes[0] as int * 0x100 + bytes[1] as int
}

/// The value of four bytes read as a big-endian integer.
pub open spec fn be_u32(bytes: Seq<u8>) -> int
    recommends
        bytes.len() == 4,
{
    bytes[0] as int * 0x100_0000 + bytes[1] as int * 0x1_0000 + bytes[2] as int * 0x100
        + bytes[3] as int
}

/// The value of eight bytes read as a big-endian integer.
pub open spec fn be_u64(bytes: Seq<u8>) -> int
    recommends
        bytes.len() == 8,
{
    be_u32(bytes.subrange(0, 4)) * 0x1_0000_0000 + be_u32(bytes.subrange(4, 8))
}

/// The two bytes that spell `value` in big-endian order.
pub open spec fn be_bytes_u16(value: u16) -> Seq<u8> {
    seq![(value / 0x100) as u8, (value % 0x100) as u8]
}

/// The four bytes that spell `value` in big-endian order.
pub open spec fn be_bytes_u32(value: u32) -> Seq<u8> {
    seq![
        (value / 0x100_0000) as u8,
        (value / 0x1_0000 % 0x100) as u8,
        (value / 0x100 % 0x100) as u8,
        (value % 0x100) as u8,
    ]
}

/// The eight bytes that spell `value` in big-endian order.
pub open spec fn be_bytes_u64(value: u64) -> Seq<u8> {
    be_bytes_u32((value / 0x1_0000_0000) as u32) + be_bytes_u32((value % 0x1_0000_0000) as u32)
}

/// Reading back the bytes of a 16-bit value gives the value.
pub proof fn lemma_be_u16_round_trip(value: u16)
    ensures
        be_bytes_u16(value).len() == 2,
        be_u16(be_bytes_u16(value)) == value,
{
}

/// Reading back the bytes of a 32-bit value gives the value.
pub proof fn lemma_be_u32_round_trip(value: u32)
    ensures
        be_bytes_u32(value).len() == 4,
        be_u32(be_bytes_u32(value)) == value,
{
}

/// Spelling the value of four bytes gives the same four bytes.
pub proof fn lemma_be_u32_bytes_round_trip(bytes: Seq<u8>)
    requires
        bytes.len() == 4,
    ensures
        0 <= be_u32(bytes) <= u32::MAX,
        be_bytes_u32(be_u32(bytes) as u32) =~= bytes,
{
    let b0 = bytes[0] as int;
    let b1 = bytes[1] as int;
    let b2 = bytes[2] as int;
    let b3 = bytes[3] as int;
    let value = be_u32(bytes);
    let low3 = b1 * 0x1_0000 + b2 * 0x100 + b3;
    let low2 = b2 * 0x100 + b3;
    assert(value == b0 * 0x100_0000 + low3 && 0 <= low3 < 0x100_0000);
    assert(value / 0x100_0000 == b0);
    let top2 = b0 * 0x100 + b1;
    assert(value == top2 * 0x1_0000 + low2 && 0 <= low2 < 0x1_0000);
    assert(value / 0x1_0000 == top2);
    assert(top2 % 0x100 == b1);
    let top3 = top2 * 0x100 + b2;
    assert(value == top3 * 0x100 + b3);
    assert(value / 0x100 == top3);
    assert(top3 % 0x100 == b2);
    assert(value % 0x100 == b3);
}

/// Reading back the bytes of a 64-bit value gives the value.
pub proof fn lemma_be_u64_round_trip(value: u64)
    ensures
        be_bytes_u64(value).len() == 8,
        be_u64(be_bytes_u64(value)) == value,
{
    let high = (value / 0x1_0000_0000) as u32;
    let low = (value % 0x1_0000_0000) as u32;
    lemma_be_u32_round_trip(high);
    lemma_be_u32_round_trip(low);
    assert(be_bytes_u64(value).subrange(0, 4) =~= be_bytes_u32(high));
    assert(be_bytes_u64(value).subrange(4, 8) =~= be_bytes_u32(low));
}

/// Reads a big-endian `u16` at `offset`.
pub fn read_u16(bytes: &Vec<u8>, offset: usize) -> (value: u16)
    requires
        offset + 2 <= bytes.len(),
    ensures
        value == be_u16(bytes@.subrange(offset as int, offset + 2)),
{
    let high: u16 = bytes[offset] as u16;
    let low: u16 = bytes[offset + 1] as u16;
    high * 0x100 + low
}

/// Reads a big-endian `u32` at `offset`.
pub fn read_u32(bytes: &Vec<u8>, offset: usize) -> (value: u32)
    requires
        offset + 4 <= bytes.len(),
    ensures
        value == be_u32(bytes@.subrange(offset as int, offset + 4)),
{
    let b0: u32 = bytes[offset] as u32;
    let b1: u32 = bytes[offset + 1] as u32;
    let b2: u32 = bytes[offset + 2] as u32;
    let b3: u32 = bytes[offset + 3] as u32;
    b0 * 0x100_0000 + b1 * 0x1_0000 + b2 * 0x100 + b3
}

/// Reads a big-endian `u64` at `offset`.
pub fn read_u64(bytes: &Vec<u8>, offset: usize) -> (value: u64)
    requires
        offset + 8 <= bytes.len(),
    ensures
        value == be_u64(bytes@.subrange(offset as int, offset + 8)),
{
    let high: u64 = read_u32(bytes, offset) as u64;
    let low: u64 = read_u32(bytes, offset + 4) as u64;
    proof {
        let field = bytes@.subrange(offset as int, offset + 8);
        assert(field.subrange(0, 4) =~= bytes@.subrange(offset as int, offset + 4));
        assert(field.subrange(4, 8) =~= bytes@.subrange(offset + 4, offset + 8));
    }
    high * 0x1_0000_0000 + low
}

/// Writes `value` as four big-endian bytes at `offset`, leaving the rest as it was.
pub fn write_u32(bytes: &mut Vec<u8>, offset: usize, value: u32)
    requires
        offset + 4 <= old(bytes).len(),
    ensures
        final(bytes).len() == old(bytes).len(),
        final(bytes)@.subrange(offset as int, offset + 4) == be_bytes_u32(value),
        forall|i: int|
            0 <= i < old(bytes).len() && !(offset <= i < offset + 4) ==> final(bytes)[i] == old(
                bytes,
            )[i],
{
    bytes[offset] = (value / 0x100_0000) as u8;
    bytes[offset + 1] = (value / 0x1_0000 % 0x100) as u8;
    bytes[offset + 2] = (value / 0x100 % 0x100) as u8;
    bytes[offset + 3] = (value % 0x100) as u8;
    assert(bytes@.subrange(offset as int, offset + 4) =~= be_bytes_u32(value));
}

/// Appends `source` to `out`.
pub fn append_bytes(out: &mut Vec<u8>, source: &Vec<u8>)
    ensures
        final(out)@ == old(out)@ + source@,
{
    let mut i: usize = 0;
    while i < source.len()
        invariant
            i <= source.len(),
            out@ == old(out)@ + source@.subrange(0, i as int),
        decreases source.len() - i,
    {
        out.push(source[i]);
        i = i + 1;
        assert(out@ =~= old(out)@ + source@.subrange(0, i as int));
    }
    assert(source@.subrange(0, source.len() as int) =~= source@);
}

/// The bytes of `bytes` from `from` up to `to`.
pub fn copy_range(bytes: &Vec<u8>, from: usize, to: usize) -> (out: Vec<u8>)
    requires
        from <= to <= bytes.len(),
    ensures
        out@ == bytes@.subrange(from as int, to as int),
        from == 0 && to == bytes.len() ==> out@ == bytes@,
{
    assert(bytes@.subrange(0, bytes.len() as int) =~= bytes@);
    let mut out: Vec<u8> = Vec::new();
    let mut i: usize = from;
    while i < to
        invariant
            from <= i <= to,
            to <= bytes.len(),
            out@ == bytes@.subrange(from as int, i as int),
        decreases to - i,
    {
        out.push(bytes[i]);
        i = i + 1;
        assert(out@ =~= bytes@.subrange(from as int, i as int));
    }
    out
}

/// Whether two byte strings are the same.
pub fn bytes_eq(a: &Vec<u8>, b: &Vec<u8>) -> (same: bool)
    ensures
        same == (a@ == b@),
{
    if a.len() != b.len() {
        return false;
    }
    let mut i: usize = 0;
    while i < a.len()
        invariant
            i <= a.len(),
            a.len() == b.len(),
            forall|j: int| 0 <= j < i ==> a[j] == b[j],
        decreases a.len() - i,
    {
        if a[i] != b[i] {
            return false;
        }
        i = i + 1;
    }
    assert(a@ =~= b@);
    true
}

} // verus!
