//! Rational severity values, written as `denominator / numerator`.
//!
//! A severity of one twentieth is `Fraction::new(1, 20)`: the first argument
//! is read back by `denominator`, the second by `numerator`, and the slashed
//! rate is `denominator / numerator`.

use vstd::prelude::*;

verus! {

/// A slashing rate. The zero fraction (both parts zero) means "no slash".
#[derive(PartialEq, Eq, Structural, Clone, Copy, Debug)]
pub struct Fraction {
    pub den: u64,
    pub num: u64,
}

impl Fraction {
    /// The rate `den / num`, as a specification value.
    pub open spec fn spec_new(den: u64, num: u64) -> Fraction {
        Fraction { den, num }
    }

    /// Build the rate `den / num`.
    #[verifier::when_used_as_spec(spec_new)]
    pub fn new(den: u64, num: u64) -> (r: Fraction)
        ensures
            r.den == den,
            r.num == num,
    {
        Fraction { den, num }
    }

    pub fn denominator(&self) -> (r: u64)
        ensures
            r == self.den,
    {
        self.den
    }

    pub fn numerator(&self) -> (r: u64)
        ensures
            r == self.num,
    {
        self.num
    }
}

impl Default for Fraction {
    /// The "no slash" rate.
    fn default() -> (r: Fraction)
        ensures
            r.den == 0,
            r.num == 0,
    {
        Fraction { den: 0, num: 0 }
    }
}

} // verus!
