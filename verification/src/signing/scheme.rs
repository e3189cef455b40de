//! The interface of a signature scheme over trits: keys are generated from a
//! seed and an index, and a key signs a message.

use vstd::prelude::*;

verus! {

/// A key could not be generated, or a message could not be signed.
#[derive(Clone, Copy, Debug, PartialEq, Eq, Structural)]
pub struct SigningFailure;

/// A private key of a signature scheme over trits.
///
/// What a key signs is a function of the key and the message: the contract
/// names that function (`signature`) and says nothing else about it.
/// Everything proved about a caller holds for implementations that meet
/// this contract. An implementation that is verified says what `signature`
/// is; one that is not leaves it as it stands here, unknown.
pub trait PrivateKey {
    /// The signature that the key gives for `message`, if it gives one.
    open spec fn signature(&self, message: Seq<i8>) -> Option<Seq<i8>> {
        arbitrary()
    }

    /// Signs `message` and returns the trits of the signature. Nothing is
    /// said about the key afterwards: a key may be good for one signature only.
    fn sign(&mut self, message: &Vec<i8>) -> (res: Result<Vec<i8>, SigningFailure>)
        ensures
            res.is_ok() == old(self).signature(message@).is_some(),
            res matches Ok(signature) ==> signature@ == old(self).signature(message@).unwrap(),
    ;
}

/// A source of private keys.
///
/// The key at an index under a seed is a function of the generator, the
/// seed and the index: the contract names that function (`key`) and says
/// nothing else about it.
pub trait PrivateKeyGenerator {
    /// What keys are derived from.
    type Seed;

    /// The keys that this generator makes.
    type PrivateKey: PrivateKey;

    /// The private key at `index` under `seed`, if there is one.
    open spec fn key(&self, seed: &Self::Seed, index: u64) -> Option<Self::PrivateKey> {
        arbitrary()
    }

    /// The private key at `index` under `seed`.
    fn generate(&self, seed: &Self::Seed, index: u64) -> (res: Result<
        Self::PrivateKey,
        SigningFailure,
    >)
        ensures
            res.is_ok() == self.key(seed, index).is_some(),
            res matches Ok(key) ==> key == self.key(seed, index).unwrap(),
    ;
}

} // verus!
