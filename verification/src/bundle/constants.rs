//! Field widths of a transaction, in trits, and the network supply.

use vstd::prelude::*;

verus! {

/// The total supply of the network: no value and no partial sum of a bundle
/// may exceed it in magnitude.
pub const IOTA_SUPPLY: i64 = 2_779_530_283_277_761;

pub const PAYLOAD_TRIT_LEN: usize = 6561;

pub const ADDRESS_TRIT_LEN: usize = 243;

pub const VALUE_TRIT_LEN: usize = 81;

pub const TAG_TRIT_LEN: usize = 81;

pub const TIMESTAMP_TRIT_LEN: usize = 27;

pub const INDEX_TRIT_LEN: usize = 27;

pub const HASH_TRIT_LEN: usize = 243;

pub const NONCE_TRIT_LEN: usize = 81;

/// Length of the part of a transaction that the bundle hash covers: address,
/// value, obsolete tag, timestamp, index and last index.
pub const ESSENCE_TRIT_LEN: usize = 486;

/// Length of a whole transaction.
pub const TRANSACTION_TRIT_LEN: usize = 8019;

} // verus!
