//! A probability held as a ratio of two integers.

use crate::random::ratio_hit;
use rand::rngs::ThreadRng;
use vstd::prelude::*;

verus! {

/// The probability `numerator() / denominator()`, between zero and one.
#[derive(Clone, Copy, Debug)]
pub struct Chance {
    hits: u32,
    out_of: u32,
}

impl Chance {
    #[verifier::type_invariant]
    spec fn proper(self) -> bool {
        self.hits <= self.out_of && self.out_of > 0
    }

    /// The number of favourable cases.
    pub closed spec fn numerator(&self) -> int {
        self.hits as int
    }

    /// The number of cases, never zero.
    pub closed spec fn denominator(&self) -> int {
        self.out_of as int
    }

    /// Probability zero: a draw never hits.
    pub open spec fn is_never(&self) -> bool {
        self.numerator() == 0
    }

    /// Probability one: every draw hits.
    pub open spec fn is_always(&self) -> bool {
        self.numerator() == self.denominator()
    }

    /// The chance of `numerator` in `denominator`, or `None` when that is no
    /// probability: a zero denominator, or a numerator above it.
    pub fn new(numerator: u32, denominator: u32) -> (chance: Option<Chance>)
        ensures
            chance is Some <==> numerator <= denominator && denominator > 0,
            chance matches Some(c) ==> c.numerator() == numerator && c.denominator()
                == denominator,
    {
        if numerator <= denominator && denominator > 0 {
            Some(Chance { hits: numerator, out_of: denominator })
        } else {
            None
        }
    }

    /// The pair `(numerator, denominator)`.
    pub fn ratio(&self) -> (pair: (u32, u32))
        ensures
            pair.0 == self.numerator(),
            pair.1 == self.denominator(),
            0 <= self.numerator() <= self.denominator(),
            0 < self.denominator(),
    {
        proof {
            use_type_invariant(self);
        }
        (self.hits, self.out_of)
    }

    /// Draws from `rng` whether the event happens this time. A chance of zero
    /// never hits and a chance of one always does.
    pub fn draw(&self, rng: &mut ThreadRng) -> (hit: bool)
        ensures
            self.is_never() ==> !hit,
            self.is_always() ==> hit,
    {
        proof {
            use_type_invariant(self);
        }
        ratio_hit(rng, self.hits, self.out_of)
    }
}

} // verus!
