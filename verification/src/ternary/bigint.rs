//! Fixed-width ternary integers, fanned out into one trit per element.

use vstd::prelude::*;

verus! {

/// An integer spelled by 242 trits, least significant first.
#[derive(Clone, Debug)]
pub struct T242 {
    trits: Vec<i8>,
}

/// An integer spelled by 243 trits, least significant first.
#[derive(Clone, Debug)]
pub struct T243 {
    trits: Vec<i8>,
}

impl View for T242 {
    type V = Seq<i8>;

    closed spec fn view(&self) -> Seq<i8> {
        self.trits@
    }
}

impl View for T243 {
    type V = Seq<i8>;

    closed spec fn view(&self) -> Seq<i8> {
        self.trits@
    }
}

impl T242 {
    /// Number of trits.
    pub const LEN: usize = 242;

    /// Wraps a trit buffer, if it has 242 places.
    pub fn from_trit_buf(trits: Vec<i8>) -> (value: Option<Self>)
        ensures
            value.is_some() == (trits.len() == 242),
            value.is_some() ==> value.unwrap()@ == trits@,
    {
        if trits.len() == 242 {
            Some(Self { trits })
        } else {
            None
        }
    }

    /// The trits, least significant first.
    pub fn into_inner(self) -> (trits: Vec<i8>)
        ensures
            trits@ == self@,
    {
        self.trits
    }

    /// The same integer with a zero in a new most significant place.
    pub fn into_t243(self) -> (wide: T243)
        requires
            self@.len() == 242,
        ensures
            wide@ == self@.push(0i8),
            wide@.len() == 243,
    {
        let mut trit_buf = self.into_inner();
        trit_buf.push(0i8);
        T243 { trits: trit_buf }
    }
}

impl T243 {
    /// Number of trits.
    pub const LEN: usize = 243;

    /// Wraps a trit buffer, if it has 243 places.
    pub fn from_trit_buf(trits: Vec<i8>) -> (value: Option<Self>)
        ensures
            value.is_some() == (trits.len() == 243),
            value.is_some() ==> value.unwrap()@ == trits@,
    {
        if trits.len() == 243 {
            Some(Self { trits })
        } else {
            None
        }
    }

    /// The trits, least significant first.
    pub fn into_inner(self) -> (trits: Vec<i8>)
        ensures
            trits@ == self@,
    {
        self.trits
    }
}

} // verus!
