//! Protocol versions. A peer announces the versions that it speaks as a bit
//! set: version `v` is bit `(v - 1) % 8` of byte `(v - 1) / 8`.

use vstd::prelude::*;

verus! {

/// The versions that this node speaks: version 2 only.
pub const MESSAGES_VERSIONS: [u8; 1] = [2];

/// Two to the power `j`, for `j` below eight.
pub open spec fn bit_weight(j: int) -> int {
    if j == 0 {
        1
    } else if j == 1 {
        2
    } else if j == 2 {
        4
    } else if j == 3 {
        8
    } else if j == 4 {
        16
    } else if j == 5 {
        32
    } else if j == 6 {
        64
    } else {
        128
    }
}

/// Whether bit `j` of `byte` is set.
pub open spec fn bit_is_set(byte: u8, j: int) -> bool {
    byte as int / bit_weight(j) % 2 == 1
}

/// Whether a bit set announces version `v`.
pub open spec fn announces(versions: Seq<u8>, v: int) -> bool {
    1 <= v <= 8 * versions.len() && bit_is_set(versions[(v - 1) / 8], (v - 1) % 8)
}

/// Whether this node and a peer that announced `versions` both speak version `v`.
pub open spec fn shared_version(versions: Seq<u8>, v: int) -> bool {
    announces(MESSAGES_VERSIONS@, v) && announces(versions, v)
}

/// Whether this node and a peer that announced `versions` share a version.
pub open spec fn shares_a_version(versions: Seq<u8>) -> bool {
    exists|v: int| shared_version(versions, v)
}

/// What is reported of a peer with which no version is shared: the highest
/// version that the last byte of its bit set announces, cut to eight bits;
/// zero for an empty bit set or an all-zero last byte.
pub open spec fn unsupported_version(versions: Seq<u8>) -> u8 {
    if versions.len() == 0 || highest_in_byte(versions.last(), 8) == 0 {
        0
    } else {
        ((highest_in_byte(versions.last(), 8) + 8 * (versions.len() - 1)) % 256) as u8
    }
}

/// Whether bit `j` of `byte` is set.
pub fn test_bit(byte: u8, j: u8) -> (set: bool)
    requires
        j < 8,
    ensures
        set == bit_is_set(byte, j as int),
{
    let weight: u8 = if j == 0 {
        1
    } else if j == 1 {
        2
    } else if j == 2 {
        4
    } else if j == 3 {
        8
    } else if j == 4 {
        16
    } else if j == 5 {
        32
    } else if j == 6 {
        64
    } else {
        128
    };
    byte / weight % 2 == 1
}

/// The highest version that a byte of a bit set announces, counted from one
/// within the byte; zero if it announces none.
pub open spec fn highest_in_byte(byte: u8, upto: int) -> int
    decreases upto,
{
    if upto <= 0 {
        0
    } else if bit_is_set(byte, upto - 1) {
        upto
    } else {
        highest_in_byte(byte, upto - 1)
    }
}

/// The highest bit set in `byte`, counted from one; zero if none is set.
pub fn highest_bit(byte: u8) -> (highest: u8)
    ensures
        highest == highest_in_byte(byte, 8),
        highest <= 8,
        highest > 0 ==> bit_is_set(byte, highest - 1),
        forall|j: int| highest <= j < 8 ==> !bit_is_set(byte, j),
{
    let mut j: u8 = 8;
    while j > 0
        invariant
            j <= 8,
            highest_in_byte(byte, 8) == highest_in_byte(byte, j as int),
            forall|k: int| j <= k < 8 ==> !bit_is_set(byte, k),
        decreases j,
    {
        if test_bit(byte, j - 1) {
            return j;
        }
        j = j - 1;
    }
    0
}

/// The highest version that this node shares with a peer, or, if they share
/// none, the highest version that the last byte of the peer's bit set
/// announces, cut to eight bits (zero for an empty or all-zero last byte).
pub fn messages_supported_version(versions: &Vec<u8>) -> (res: Result<u8, u8>)
    ensures
        res.is_ok() == shares_a_version(versions@),
        res matches Ok(v) ==> shared_version(versions@, v as int) && forall|w: int|
            v < w ==> !shared_version(versions@, w),
        res matches Err(v) ==> v == unsupported_version(versions@),
{
    if versions.len() == 0 {
        assert forall|w: int| !shared_version(versions@, w) by {}
        return Err(0);
    }
    let own: u8 = MESSAGES_VERSIONS[0];
    assert(own == 2);
    // This node speaks version 2 only: it is shared if the peer's first byte has bit 1.
    if test_bit(versions[0], 1) {
        assert(bit_is_set(2u8, 1));
        assert(shared_version(versions@, 2));
        assert forall|w: int| 2 < w implies !shared_version(versions@, w) by {
            if 1 <= w <= 8 {
                assert(!bit_is_set(2u8, (w - 1) % 8));
            }
        }
        return Ok(2);
    }
    assert forall|w: int| !shared_version(versions@, w) by {
        if 1 <= w <= 8 && w != 2 {
            assert(!bit_is_set(2u8, (w - 1) % 8));
        }
    }
    let last: usize = versions.len() - 1;
    let high: u8 = highest_bit(versions[last]);
    if high == 0 {
        Err(0)
    } else {
        let wide: u128 = high as u128 + 8 * (last as u128);
        Err((wide % 256) as u8)
    }
}

} // verus!
