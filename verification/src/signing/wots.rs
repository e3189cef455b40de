//! Winternitz one-time signatures over a sponge: the generation of private keys.

use vstd::prelude::*;
use core::marker::PhantomData;
use crate::crypto::sponge::Sponge;
use crate::ternary::trits::{valid_trits, zeros};

verus! {

/// The number of trits in one fragment of a private key.
pub const KEY_FRAGMENT_TRIT_LEN: usize = 6561;

/// How many fragments a private key and its signatures have.
#[derive(Clone, Copy, Debug, PartialEq, Eq, Structural)]
pub enum WotsSecurityLevel {
    /// One fragment.
    Low,
    /// Two fragments.
    Medium,
    /// Three fragments.
    High,
}

/// Why a Winternitz operation failed.
#[derive(Clone, Copy, Debug, PartialEq, Eq, Structural)]
pub enum WotsError {
    /// A generator was built without a security level.
    MissingSecurityLevel,
    /// The sponge refused its input or gave no output.
    FailedSpongeOperation,
}

impl WotsSecurityLevel {
    /// The number of fragments.
    pub open spec fn spec_fragments(self) -> nat {
        match self {
            WotsSecurityLevel::Low => 1,
            WotsSecurityLevel::Medium => 2,
            WotsSecurityLevel::High => 3,
        }
    }

    /// The number of fragments.
    pub fn fragments(self) -> (count: usize)
        ensures
            count == self.spec_fragments(),
    {
        match self {
            WotsSecurityLevel::Low => 1,
            WotsSecurityLevel::Medium => 2,
            WotsSecurityLevel::High => 3,
        }
    }
}

/// Sponge-based Winternitz One Time Signature private key generator builder.
pub struct WotsSpongePrivateKeyGeneratorBuilder<S> {
    security_level: Option<WotsSecurityLevel>,
    _sponge: PhantomData<S>,
}

/// Sponge-based Winternitz One Time Signature private key generator.
pub struct WotsSpongePrivateKeyGenerator<S> {
    security_level: WotsSecurityLevel,
    _sponge: PhantomData<S>,
}

/// A Winternitz private key: the trits that its signatures are made from.
pub struct WotsPrivateKey<S> {
    state: Vec<i8>,
    _sponge: PhantomData<S>,
}

impl<S: Sponge + Default> WotsSpongePrivateKeyGeneratorBuilder<S> {
    /// The security level, if one was set.
    pub closed spec fn level(&self) -> Option<WotsSecurityLevel> {
        self.security_level
    }

    /// A builder without a security level.
    pub fn new() -> (builder: Self)
        ensures
            builder.level().is_none(),
    {
        Self { security_level: None, _sponge: PhantomData }
    }

    /// Sets the security level of the private key.
    pub fn security_level(self, security_level: WotsSecurityLevel) -> (builder: Self)
        ensures
            builder.level() == Some(security_level),
    {
        let mut builder = self;
        builder.security_level = Some(security_level);
        builder
    }

    /// Builds the private key generator.
    pub fn build(self) -> (res: Result<WotsSpongePrivateKeyGenerator<S>, WotsError>)
        ensures
            res.is_ok() == self.level().is_some(),
            res matches Ok(generator) ==> generator.level() == self.level().unwrap(),
            res matches Err(e) ==> e == WotsError::MissingSecurityLevel,
    {
        match self.security_level {
            Some(security_level) => Ok(
                WotsSpongePrivateKeyGenerator { security_level, _sponge: PhantomData },
            ),
            None => Err(WotsError::MissingSecurityLevel),
        }
    }
}

impl<S: Sponge + Default> WotsSpongePrivateKeyGenerator<S> {
    /// The security level of the keys.
    pub closed spec fn level(&self) -> WotsSecurityLevel {
        self.security_level
    }

    /// The trits of the key that `entropy` gives at this security level,
    /// if the sponge takes the entropy and yields as many trits as the key has.
    pub open spec fn key_of(&self, entropy: Seq<i8>) -> Option<Seq<i8>> {
        if S::accepts(entropy) {
            S::output(seq![entropy], self.level().spec_fragments() * 6561)
        } else {
            None
        }
    }

    /// Generates the private key of `entropy`: what the sponge yields,
    /// 6561 trits for each fragment of the security level, once it has
    /// absorbed the entropy.
    pub fn generate_from_entropy(&self, entropy: &Vec<i8>) -> (res: Result<
        WotsPrivateKey<S>,
        WotsError,
    >)
        ensures
            res.is_ok() == self.key_of(entropy@).is_some(),
            res matches Ok(key) ==> key@ == self.key_of(entropy@).unwrap() && valid_trits(key@),
            res matches Ok(key) ==> key@.len() == self.level().spec_fragments() * 6561,
            res matches Err(e) ==> e == WotsError::FailedSpongeOperation,
    {
        let mut sponge = S::default();
        sponge.reset();
        let mut state: Vec<i8> = zeros(self.security_level.fragments() * KEY_FRAGMENT_TRIT_LEN);
        match sponge.absorb(entropy) {
            Ok(()) => {},
            Err(_) => {
                return Err(WotsError::FailedSpongeOperation);
            },
        }
        assert(sponge.absorbed() =~= seq![entropy@]);
        match sponge.squeeze_into(&mut state) {
            Ok(()) => {},
            Err(_) => {
                return Err(WotsError::FailedSpongeOperation);
            },
        }
        Ok(WotsPrivateKey { state, _sponge: PhantomData })
    }
}

impl<S> View for WotsPrivateKey<S> {
    type V = Seq<i8>;

    closed spec fn view(&self) -> Seq<i8> {
        self.state@
    }
}

impl<S> WotsPrivateKey<S> {
    /// The trits of the key.
    pub fn state(&self) -> (trits: &Vec<i8>)
        ensures
            trits@ == self@,
    {
        &self.state
    }
}

} // verus!
