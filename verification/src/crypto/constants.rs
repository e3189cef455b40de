//! Lengths, in balanced trits, of hashes and of the Curl-P state.

use vstd::prelude::*;

verus! {

/// The length of a hash, in trits.
pub const HASH_LEN: usize = 243;

/// The length of the internal state of the Curl-P sponge construction, in trits.
pub const STATE_LEN: usize = HASH_LEN * 3;

pub const HALF_STATE_LEN: usize = STATE_LEN / 2;

pub const CURLP_81_ROUNDS: usize = 81;

pub const CURLP_27_ROUNDS: usize = 27;

} // verus!
