//! Packing into bytes. Numbers are little-endian; a byte string of
//! varying length goes behind its length.

use vstd::prelude::*;

verus! {

/// Why bytes could not be packed or unpacked.
#[derive(Clone, Copy, Debug, PartialEq, Eq, Structural)]
pub enum PackableError {
    /// The bytes end before the value does.
    Io,
    /// The bytes name a variant that there is not.
    InvalidVariant,
    /// The bytes name a type that there is not.
    InvalidType,
    /// A length that was announced is not the length that was found, or a
    /// length does not fit the field that announces it.
    InvalidAnnouncedLen,
}

/// The two bytes of `value`, least significant first.
pub open spec fn le_bytes_u16(value: u16) -> Seq<u8> {
    seq![(value % 0x100) as u8, (value / 0x100) as u8]
}

/// The four bytes of `value`, least significant first.
pub open spec fn le_bytes_u32(value: u32) -> Seq<u8> {
    seq![
        (value % 0x100) as u8,
        (value / 0x100 % 0x100) as u8,
        (value / 0x1_0000 % 0x100) as u8,
        (value / 0x100_0000) as u8,
    ]
}

/// The eight bytes of `value`, least significant first.
pub open spec fn le_bytes_u64(value: u64) -> Seq<u8> {
    le_bytes_u32((value % 0x1_0000_0000) as u32) + le_bytes_u32((value / 0x1_0000_0000) as u32)
}

/// The number that two bytes spell, least significant first.
pub open spec fn le_u16(bytes: Seq<u8>) -> u16 {
    (bytes[0] as int + bytes[1] as int * 0x100) as u16
}

/// The number that four bytes spell, least significant first.
pub open spec fn le_u32(bytes: Seq<u8>) -> u32 {
    (bytes[0] as int + bytes[1] as int * 0x100 + bytes[2] as int * 0x1_0000 + bytes[3] as int
        * 0x100_0000) as u32
}

/// The number that eight bytes spell, least significant first.
pub open spec fn le_u64(bytes: Seq<u8>) -> u64 {
    (le_u32(bytes.subrange(0, 4)) as int + le_u32(bytes.subrange(4, 8)) as int * 0x1_0000_0000) as u64
}

/// The bytes of a number spell that number.
pub proof fn lemma_le_round_trip(a: u16, b: u32, c: u64)
    ensures
        le_bytes_u16(a).len() == 2,
        le_u16(le_bytes_u16(a)) == a,
        le_bytes_u32(b).len() == 4,
        le_u32(le_bytes_u32(b)) == b,
        le_bytes_u64(c).len() == 8,
        le_u64(le_bytes_u64(c)) == c,
{
    let high = (c / 0x1_0000_0000) as u32;
    let low = (c % 0x1_0000_0000) as u32;
    assert(le_u32(le_bytes_u32(high)) == high);
    assert(le_u32(le_bytes_u32(low)) == low);
    assert(le_bytes_u64(c).subrange(0, 4) =~= le_bytes_u32(low));
    assert(le_bytes_u64(c).subrange(4, 8) =~= le_bytes_u32(high));
}

/// Appends the two bytes of `value`.
pub fn push_u16(buf: &mut Vec<u8>, value: u16)
    ensures
        final(buf)@ == old(buf)@ + le_bytes_u16(value),
{
    buf.push((value % 0x100) as u8);
    buf.push((value / 0x100) as u8);
    assert(buf@ =~= old(buf)@ + le_bytes_u16(value));
}

/// Appends the four bytes of `value`.
pub fn push_u32(buf: &mut Vec<u8>, value: u32)
    ensures
        final(buf)@ == old(buf)@ + le_bytes_u32(value),
{
    buf.push((value % 0x100) as u8);
    buf.push((value / 0x100 % 0x100) as u8);
    buf.push((value / 0x1_0000 % 0x100) as u8);
    buf.push((value / 0x100_0000) as u8);
    assert(buf@ =~= old(buf)@ + le_bytes_u32(value));
}

/// Appends the eight bytes of `value`.
pub fn push_u64(buf: &mut Vec<u8>, value: u64)
    ensures
        final(buf)@ == old(buf)@ + le_bytes_u64(value),
{
    push_u32(buf, (value % 0x1_0000_0000) as u32);
    push_u32(buf, (value / 0x1_0000_0000) as u32);
    assert(buf@ =~= old(buf)@ + le_bytes_u64(value));
}

/// Whether `width` bytes stand at `pos`.
pub open spec fn has(bytes: Seq<u8>, pos: int, width: int) -> bool {
    0 <= pos && pos + width <= bytes.len()
}

/// Takes a byte at `pos`.
pub fn take_u8(bytes: &Vec<u8>, pos: &mut usize) -> (res: Result<u8, PackableError>)
    ensures
        res.is_ok() == has(bytes@, *old(pos) as int, 1),
        res matches Ok(v) ==> v == bytes@[*old(pos) as int] && *final(pos) == *old(pos) + 1,
        res matches Err(e) ==> e == PackableError::Io && *final(pos) == *old(pos),
{
    if *pos >= bytes.len() {
        return Err(PackableError::Io);
    }
    let v: u8 = bytes[*pos];
    *pos = *pos + 1;
    Ok(v)
}

/// Takes a number of two bytes at `pos`.
pub fn take_u16(bytes: &Vec<u8>, pos: &mut usize) -> (res: Result<u16, PackableError>)
    ensures
        res.is_ok() == has(bytes@, *old(pos) as int, 2),
        res matches Ok(v) ==> v == le_u16(bytes@.subrange(*old(pos) as int, *old(pos) + 2))
            && *final(pos) == *old(pos) + 2,
        res matches Err(e) ==> e == PackableError::Io && *final(pos) == *old(pos),
{
    if bytes.len() < 2 || *pos > bytes.len() - 2 {
        return Err(PackableError::Io);
    }
    let b0: u16 = bytes[*pos] as u16;
    let b1: u16 = bytes[*pos + 1] as u16;
    *pos = *pos + 2;
    Ok(b0 + b1 * 0x100)
}

/// Takes a number of four bytes at `pos`.
pub fn take_u32(bytes: &Vec<u8>, pos: &mut usize) -> (res: Result<u32, PackableError>)
    ensures
        res.is_ok() == has(bytes@, *old(pos) as int, 4),
        res matches Ok(v) ==> v == le_u32(bytes@.subrange(*old(pos) as int, *old(pos) + 4))
            && *final(pos) == *old(pos) + 4,
        res matches Err(e) ==> e == PackableError::Io && *final(pos) == *old(pos),
{
    if bytes.len() < 4 || *pos > bytes.len() - 4 {
        return Err(PackableError::Io);
    }
    let b0: u32 = bytes[*pos] as u32;
    let b1: u32 = bytes[*pos + 1] as u32;
    let b2: u32 = bytes[*pos + 2] as u32;
    let b3: u32 = bytes[*pos + 3] as u32;
    *pos = *pos + 4;
    Ok(b0 + b1 * 0x100 + b2 * 0x1_0000 + b3 * 0x100_0000)
}

/// Takes a number of eight bytes at `pos`.
pub fn take_u64(bytes: &Vec<u8>, pos: &mut usize) -> (res: Result<u64, PackableError>)
    ensures
        res.is_ok() == has(bytes@, *old(pos) as int, 8),
        res matches Ok(v) ==> v == le_u64(bytes@.subrange(*old(pos) as int, *old(pos) + 8))
            && *final(pos) == *old(pos) + 8,
        res matches Err(e) ==> e == PackableError::Io && *final(pos) == *old(pos),
{
    if bytes.len() < 8 || *pos > bytes.len() - 8 {
        return Err(PackableError::Io);
    }
    let ghost start = *pos as int;
    let low: u64 = match take_u32(bytes, pos) {
        Ok(v) => v as u64,
        Err(e) => {
            return Err(e);
        },
    };
    let high: u64 = match take_u32(bytes, pos) {
        Ok(v) => v as u64,
        Err(e) => {
            return Err(e);
        },
    };
    proof {
        let field = bytes@.subrange(start, start + 8);
        assert(field.subrange(0, 4) =~= bytes@.subrange(start, start + 4));
        assert(field.subrange(4, 8) =~= bytes@.subrange(start + 4, start + 8));
    }
    Ok(low + high * 0x1_0000_0000)
}

/// Takes `width` bytes at `pos`.
pub fn take_bytes(bytes: &Vec<u8>, pos: &mut usize, width: usize) -> (res: Result<
    Vec<u8>,
    PackableError,
>)
    ensures
        res.is_ok() == has(bytes@, *old(pos) as int, width as int),
        res matches Ok(v) ==> v@ == bytes@.subrange(*old(pos) as int, *old(pos) + width)
            && *final(pos) == *old(pos) + width,
        res matches Err(e) ==> e == PackableError::Io && *final(pos) == *old(pos),
{
    if bytes.len() < width || *pos > bytes.len() - width {
        return Err(PackableError::Io);
    }
    let start: usize = *pos;
    let total: usize = bytes.len();
    let mut out: Vec<u8> = Vec::new();
    let mut i: usize = 0;
    while i < width
        invariant
            i <= width,
            start + width <= bytes@.len(),
            bytes@.len() <= usize::MAX,
            out@ == bytes@.subrange(start as int, start + i),
        decreases width - i,
    {
        out.push(bytes[start + i]);
        i = i + 1;
        assert(out@ =~= bytes@.subrange(start as int, start + i));
    }
    *pos = start + width;
    Ok(out)
}

} // verus!
