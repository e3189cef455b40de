//! The interface of a sponge: absorb trits, then squeeze a digest.

use vstd::prelude::*;
use crate::ternary::trits::valid_trits;

verus! {

/// A sponge refused its input or could not produce output.
#[derive(Clone, Copy, Debug, PartialEq, Eq, Structural)]
pub struct SpongeError;

/// The kinds of sponge that the network uses.
#[derive(Clone, Copy, Debug, PartialEq, Eq, Structural)]
pub enum SpongeType {
    Kerl,
    CurlP27,
    CurlP81,
}

/// A cryptographic sponge over balanced trits.
///
/// An implementation is a deterministic function of what it absorbed: the
/// contracts name that function (`accepts`, `output`) and say nothing else
/// about it. Everything proved about a caller holds for implementations that
/// meet these contracts. An implementation that is verified says what
/// `absorbed`, `accepts` and `output` are; one that is not leaves them as
/// they stand here, unknown.
pub trait Sponge: Sized {
    /// The inputs taken since the last reset, in order.
    open spec fn absorbed(&self) -> Seq<Seq<i8>> {
        arbitrary()
    }

    /// Whether the sponge takes `input`.
    open spec fn accepts(input: Seq<i8>) -> bool {
        arbitrary()
    }

    /// What a sponge that has taken `absorbed` yields when `len` trits are
    /// squeezed out of it, if it yields anything.
    open spec fn output(absorbed: Seq<Seq<i8>>, len: nat) -> Option<Seq<i8>> {
        arbitrary()
    }

    /// Forgets everything absorbed.
    fn reset(&mut self)
        ensures
            final(self).absorbed() == Seq::<Seq<i8>>::empty(),
    ;

    /// Takes `input` in, or refuses it and stays as it was.
    fn absorb(&mut self, input: &Vec<i8>) -> (res: Result<(), SpongeError>)
        ensures
            res.is_ok() == Self::accepts(input@),
            res.is_ok() ==> final(self).absorbed() == old(self).absorbed().push(input@),
            res.is_err() ==> final(self).absorbed() == old(self).absorbed(),
    ;

    /// Fills `buf` with output. Nothing is said about the sponge afterwards
    /// until it is reset.
    fn squeeze_into(&mut self, buf: &mut Vec<i8>) -> (res: Result<(), SpongeError>)
        ensures
            final(buf).len() == old(buf).len(),
            res.is_ok() == Self::output(old(self).absorbed(), old(buf).len() as nat).is_some(),
            res.is_ok() ==> final(buf)@ == Self::output(
                old(self).absorbed(),
                old(buf).len() as nat,
            ).unwrap(),
            res.is_ok() ==> valid_trits(final(buf)@),
    ;
}

} // verus!
