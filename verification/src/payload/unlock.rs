//! Unlock blocks: what allows an input to be spent.

use vstd::prelude::*;
use crate::protocol::message::codec::append_bytes;
use crate::payload::packable::{
    le_bytes_u16, le_bytes_u32, le_u16, le_u32, lemma_le_round_trip, push_u16,
    push_u32, take_bytes, take_u16, take_u32, take_u8, PackableError,
};

verus! {

/// A Winternitz signature, as trits.
#[derive(Debug)]
pub struct WotsSignature(pub Vec<i8>);

/// An Ed25519 signature with the public key that verifies it.
#[derive(Debug)]
pub struct Ed25519Signature {
    /// The public key: 32 bytes.
    pub public_key: Vec<u8>,
    /// The signature: 64 bytes.
    pub signature: Vec<u8>,
}

/// A signature that unlocks an input.
#[derive(Debug)]
pub enum SignatureUnlock {
    Wots(WotsSignature),
    Ed25519(Ed25519Signature),
}

/// A reference to an earlier unlock block of the same transaction.
#[derive(Clone, Copy, Debug, PartialEq, Eq, Structural)]
pub struct ReferenceUnlock {
    pub index: u16,
}

/// What unlocks an input.
#[derive(Debug)]
pub enum UnlockBlock {
    Signature(SignatureUnlock),
    Reference(ReferenceUnlock),
}

/// An unlock block as plain values.
pub enum UnlockView {
    Wots(Seq<i8>),
    Ed25519 { public_key: Seq<u8>, signature: Seq<u8> },
    Reference(u16),
}

impl View for SignatureUnlock {
    type V = UnlockView;

    open spec fn view(&self) -> UnlockView {
        match self {
            SignatureUnlock::Wots(s) => UnlockView::Wots(s.0@),
            SignatureUnlock::Ed25519(s) => UnlockView::Ed25519 {
                public_key: s.public_key@,
                signature: s.signature@,
            },
        }
    }
}

impl View for UnlockBlock {
    type V = UnlockView;

    open spec fn view(&self) -> UnlockView {
        match self {
            UnlockBlock::Signature(s) => s@,
            UnlockBlock::Reference(r) => UnlockView::Reference(r.index),
        }
    }
}

impl SignatureUnlock {
    /// The unlock that a Winternitz signature is.
    pub fn from_wots(signature: WotsSignature) -> (unlock: Self)
        ensures
            unlock@ == UnlockView::Wots(signature.0@),
    {
        SignatureUnlock::Wots(signature)
    }

    /// The unlock that an Ed25519 signature is.
    pub fn from_ed25519(signature: Ed25519Signature) -> (unlock: Self)
        ensures
            unlock@ == (UnlockView::Ed25519 {
                public_key: signature.public_key@,
                signature: signature.signature@,
            }),
    {
        SignatureUnlock::Ed25519(signature)
    }
}

/// The byte that holds a trit: the trit itself, minus one as 255.
pub open spec fn trit_byte(trit: i8) -> u8 {
    if trit < 0 {
        (trit + 256) as u8
    } else {
        trit as u8
    }
}

/// The signed number that a byte holds.
pub open spec fn byte_trit(byte: u8) -> i8 {
    if byte >= 128 {
        (byte - 256) as i8
    } else {
        byte as i8
    }
}

/// Trits as bytes.
pub open spec fn trit_bytes(trits: Seq<i8>) -> Seq<u8> {
    Seq::new(trits.len(), |i: int| trit_byte(trits[i]))
}

/// Bytes as signed numbers.
pub open spec fn bytes_trits(bytes: Seq<u8>) -> Seq<i8> {
    Seq::new(bytes.len(), |i: int| byte_trit(bytes[i]))
}

/// The bytes of an unlock block: for a signature, a zero, then the kind
/// of signature, zero for Winternitz with the trits as bytes behind their
/// number in four bytes, one for Ed25519 with the public key and the
/// signature; for a reference, a one, then the index in two bytes.
pub open spec fn unlock_bytes(unlock: UnlockView) -> Seq<u8> {
    match unlock {
        UnlockView::Wots(trits) => seq![0u8, 0u8] + le_bytes_u32(trits.len() as u32) + trit_bytes(
            trits,
        ),
        UnlockView::Ed25519 { public_key, signature } => seq![0u8, 1u8] + public_key + signature,
        UnlockView::Reference(index) => seq![1u8] + le_bytes_u16(index),
    }
}

/// Whether an unlock block is read back from its bytes: a Winternitz
/// signature has fewer than 4294967296 trits, and an Ed25519 public key
/// is 32 bytes and its signature 64.
pub open spec fn unlock_fits(unlock: UnlockView) -> bool {
    match unlock {
        UnlockView::Wots(trits) => trits.len() <= u32::MAX,
        UnlockView::Ed25519 { public_key, signature } => public_key.len() == 32 && signature.len()
            == 64,
        UnlockView::Reference(index) => true,
    }
}

/// The unlock block that stands at the start of `bytes`, with its length.
pub open spec fn parse_unlock(bytes: Seq<u8>) -> Result<(UnlockView, int), PackableError> {
    if bytes.len() < 1 {
        Err(PackableError::Io)
    } else if bytes[0] == 1 {
        if bytes.len() < 3 {
            Err(PackableError::Io)
        } else {
            Ok((UnlockView::Reference(le_u16(bytes.subrange(1, 3))), 3))
        }
    } else if bytes[0] != 0 {
        Err(PackableError::InvalidVariant)
    } else if bytes.len() < 2 {
        Err(PackableError::Io)
    } else if bytes[1] == 0 {
        if bytes.len() < 6 {
            Err(PackableError::Io)
        } else {
            let count = le_u32(bytes.subrange(2, 6)) as int;
            if bytes.len() < 6 + count {
                Err(PackableError::Io)
            } else {
                Ok((UnlockView::Wots(bytes_trits(bytes.subrange(6, 6 + count))), 6 + count))
            }
        }
    } else if bytes[1] == 1 {
        if bytes.len() < 98 {
            Err(PackableError::Io)
        } else {
            Ok(
                (
                    UnlockView::Ed25519 {
                        public_key: bytes.subrange(2, 34),
                        signature: bytes.subrange(34, 98),
                    },
                    98,
                ),
            )
        }
    } else {
        Err(PackableError::InvalidVariant)
    }
}

/// An unlock block that fits is read back from its own bytes, whatever follows them.
pub proof fn lemma_unlock_round_trip(unlock: UnlockView, rest: Seq<u8>)
    requires
        unlock_fits(unlock),
    ensures
        parse_unlock(unlock_bytes(unlock) + rest) == Ok::<(UnlockView, int), PackableError>(
            (unlock, unlock_bytes(unlock).len() as int),
        ),
{
    let bytes = unlock_bytes(unlock) + rest;
    match unlock {
        UnlockView::Wots(trits) => {
            let n = trits.len() as int;
            lemma_le_round_trip(0, n as u32, 0);
            assert(bytes.subrange(2, 6) =~= le_bytes_u32(n as u32));
            assert(bytes.subrange(6, 6 + n) =~= trit_bytes(trits));
            assert(bytes_trits(trit_bytes(trits)) =~= trits);
        },
        UnlockView::Ed25519 { public_key, signature } => {
            assert(bytes.subrange(2, 34) =~= public_key);
            assert(bytes.subrange(34, 98) =~= signature);
        },
        UnlockView::Reference(index) => {
            lemma_le_round_trip(index, 0, 0);
            assert(bytes.subrange(1, 3) =~= le_bytes_u16(index));
        },
    }
}

impl UnlockBlock {
    /// The unlock block that a signature is.
    pub fn from_signature(signature: SignatureUnlock) -> (unlock: Self)
        ensures
            unlock@ == signature@,
    {
        UnlockBlock::Signature(signature)
    }

    /// The unlock block that a reference is.
    pub fn from_reference(reference: ReferenceUnlock) -> (unlock: Self)
        ensures
            unlock@ == UnlockView::Reference(reference.index),
    {
        UnlockBlock::Reference(reference)
    }

    /// Length in bytes of the packed unlock block, if it is one that `usize` holds.
    pub fn packed_len(&self) -> (len: Option<usize>)
        ensures
            len.is_some() == (unlock_bytes(self@).len() <= usize::MAX),
            len matches Some(l) ==> l == unlock_bytes(self@).len(),
    {
        let total: u128 = match self {
            UnlockBlock::Signature(SignatureUnlock::Wots(signature)) => 6
                + signature.0.len() as u128,
            UnlockBlock::Signature(SignatureUnlock::Ed25519(signature)) => 2
                + signature.public_key.len() as u128 + signature.signature.len() as u128,
            UnlockBlock::Reference(_) => 3,
        };
        if total > usize::MAX as u128 {
            None
        } else {
            Some(total as usize)
        }
    }

    /// Appends the bytes of the unlock block. A Winternitz signature with
    /// more trits than four bytes count is refused, and nothing is appended.
    pub fn pack(&self, buf: &mut Vec<u8>) -> (res: Result<(), PackableError>)
        ensures
            res.is_ok() == (self@ matches UnlockView::Wots(trits) ==> trits.len() <= u32::MAX),
            res.is_ok() ==> final(buf)@ == old(buf)@ + unlock_bytes(self@),
            res matches Err(e) ==> e == PackableError::InvalidAnnouncedLen && final(buf)@ == old(
                buf,
            )@,
    {
        match self {
            UnlockBlock::Signature(SignatureUnlock::Wots(signature)) => {
                if signature.0.len() > 0xffff_ffff {
                    return Err(PackableError::InvalidAnnouncedLen);
                }
                buf.push(0u8);
                buf.push(0u8);
                push_u32(buf, signature.0.len() as u32);
                let ghost head = buf@;
                let mut i: usize = 0;
                while i < signature.0.len()
                    invariant
                        i <= signature.0@.len(),
                        buf@ == head + trit_bytes(signature.0@).subrange(0, i as int),
                    decreases signature.0@.len() - i,
                {
                    let trit: i8 = signature.0[i];
                    let byte: u8 = if trit < 0 {
                        (trit as i16 + 256) as u8
                    } else {
                        trit as u8
                    };
                    buf.push(byte);
                    i = i + 1;
                    assert(buf@ =~= head + trit_bytes(signature.0@).subrange(0, i as int));
                }
                assert(trit_bytes(signature.0@).subrange(0, signature.0@.len() as int)
                    =~= trit_bytes(signature.0@));
                assert(buf@ =~= old(buf)@ + unlock_bytes(self@));
                Ok(())
            },
            UnlockBlock::Signature(SignatureUnlock::Ed25519(signature)) => {
                buf.push(0u8);
                buf.push(1u8);
                append_bytes(buf, &signature.public_key);
                append_bytes(buf, &signature.signature);
                assert(buf@ =~= old(buf)@ + unlock_bytes(self@));
                Ok(())
            },
            UnlockBlock::Reference(reference) => {
                buf.push(1u8);
                push_u16(buf, reference.index);
                assert(buf@ =~= old(buf)@ + unlock_bytes(self@));
                Ok(())
            },
        }
    }

    /// Reads an unlock block at `pos` and moves `pos` behind it.
    pub fn unpack(bytes: &Vec<u8>, pos: &mut usize) -> (res: Result<Self, PackableError>)
        requires
            *old(pos) <= bytes@.len(),
        ensures
            res.is_ok() == parse_unlock(bytes@.skip(*old(pos) as int)).is_ok(),
            res matches Ok(unlock) ==> (parse_unlock(bytes@.skip(*old(pos) as int)) matches Ok(
                parsed,
            ) && unlock@ == parsed.0 && *final(pos) == *old(pos) + parsed.1),
            res matches Err(e) ==> (parse_unlock(bytes@.skip(*old(pos) as int)) matches Err(pe)
                && pe == e),
            *old(pos) <= *final(pos) <= bytes@.len(),
    {
        let ghost start = *pos as int;
        let ghost rest = bytes@.skip(start);
        let kind = match take_u8(bytes, pos) {
            Ok(kind) => kind,
            Err(e) => {
                return Err(e);
            },
        };
        assert(rest[0] == kind);
        if kind == 1 {
            let index = match take_u16(bytes, pos) {
                Ok(index) => index,
                Err(e) => {
                    return Err(e);
                },
            };
            assert(rest.subrange(1, 3) =~= bytes@.subrange(start + 1, start + 3));
            return Ok(UnlockBlock::Reference(ReferenceUnlock { index }));
        }
        if kind != 0 {
            return Err(PackableError::InvalidVariant);
        }
        let signature_kind = match take_u8(bytes, pos) {
            Ok(kind) => kind,
            Err(e) => {
                return Err(e);
            },
        };
        assert(rest[1] == signature_kind);
        if signature_kind == 0 {
            let count = match take_u32(bytes, pos) {
                Ok(count) => count as usize,
                Err(e) => {
                    return Err(e);
                },
            };
            assert(rest.subrange(2, 6) =~= bytes@.subrange(start + 2, start + 6));
            let raw = match take_bytes(bytes, pos, count) {
                Ok(raw) => raw,
                Err(e) => {
                    return Err(e);
                },
            };
            assert(rest.subrange(6, 6 + count) =~= bytes@.subrange(start + 6, start + 6 + count));
            let mut trits: Vec<i8> = Vec::new();
            let mut i: usize = 0;
            while i < raw.len()
                invariant
                    i <= raw@.len(),
                    trits@ == bytes_trits(raw@).subrange(0, i as int),
                decreases raw@.len() - i,
            {
                let byte: u8 = raw[i];
                let trit: i8 = if byte >= 128 {
                    (byte as i16 - 256) as i8
                } else {
                    byte as i8
                };
                trits.push(trit);
                i = i + 1;
                assert(trits@ =~= bytes_trits(raw@).subrange(0, i as int));
            }
            assert(bytes_trits(raw@).subrange(0, raw@.len() as int) =~= bytes_trits(raw@));
            Ok(UnlockBlock::Signature(SignatureUnlock::Wots(WotsSignature(trits))))
        } else if signature_kind == 1 {
            if bytes.len() - *pos < 96 {
                return Err(PackableError::Io);
            }
            let public_key = match take_bytes(bytes, pos, 32) {
                Ok(v) => v,
                Err(e) => {
                    return Err(e);
                },
            };
            let signature = match take_bytes(bytes, pos, 64) {
                Ok(v) => v,
                Err(e) => {
                    return Err(e);
                },
            };
            proof {
                assert(rest.subrange(2, 34) =~= bytes@.subrange(start + 2, start + 34));
                assert(rest.subrange(34, 98) =~= bytes@.subrange(start + 34, start + 98));
            }
            Ok(
                UnlockBlock::Signature(
                    SignatureUnlock::Ed25519(Ed25519Signature { public_key, signature }),
                ),
            )
        } else {
            Err(PackableError::InvalidVariant)
        }
    }
}

} // verus!
