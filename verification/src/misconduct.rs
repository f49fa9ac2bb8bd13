//! Misconduct kinds and the severity of the slash that each one earns.
//!
//! A severity is a [`Fraction`]: the rate `denominator / numerator` of the
//! offender's stake that is slashed.

use vstd::prelude::*;
use crate::fraction::Fraction;

verus! {

/// A misconduct judged once per era, from the number of culprits `k` and the
/// number of validators `n`.
pub trait EraMisconduct: Sized {
    /// The inputs on which this misconduct's severity is defined.
    spec fn severity_req(&self, k: u64, n: u64) -> bool;

    /// The severity owed for `k` culprits among `n` validators.
    spec fn severity_spec(&self, k: u64, n: u64) -> Fraction;

    fn severity(&self, k: u64, n: u64) -> (r: Fraction)
        requires
            self.severity_req(k, n),
        ensures
            r == self.severity_spec(k, n),
    ;
}

/// A misconduct whose severity grows and decays with repeated signals,
/// independent of era boundaries.
pub trait ContinuousMisconduct: Sized {
    /// The severity owed in the current state.
    spec fn severity_spec(&self) -> Fraction;

    /// What a misconduct report does to the state.
    spec fn on_misconduct_spec(&self) -> Self;

    /// What a good-behaviour signal does to the state.
    spec fn on_signal_spec(&self) -> Self;

    fn severity(&self) -> (r: Fraction)
        ensures
            r == self.severity_spec(),
    ;

    fn on_misconduct(&mut self)
        ensures
            *final(self) == old(self).on_misconduct_spec(),
    ;

    fn on_signal(&mut self)
        ensures
            *final(self) == old(self).on_signal_spec(),
    ;
}

/// An actor taking too long to respond.
///
/// Slashed after each era at the rate `0.05 * min(3(k - 1) / n, 1)`.
pub struct Unresponsive;

impl EraMisconduct for Unresponsive {
    open spec fn severity_req(&self, k: u64, n: u64) -> bool {
        &&& 1 <= k
        &&& 1 <= n
        &&& 3 * k <= u64::MAX
        &&& 20 * n <= u64::MAX
    }

    open spec fn severity_spec(&self, k: u64, n: u64) -> Fraction {
        if (3 * k - 3) / (n as int) >= 1 {
            Fraction::spec_new(1, 20)
        } else {
            Fraction::spec_new((3 * k - 3) as u64, (20 * n) as u64)
        }
    }

    fn severity(&self, k: u64, n: u64) -> (r: Fraction) {
        let numerator: u64 = 20 * n;
        let denominator: u64 = 3 * k - 3;

        if denominator / n >= 1 {
            Fraction::new(1, 20)
        } else {
            Fraction::new(denominator, numerator)
        }
    }
}

impl EraMisconduct for () {
    open spec fn severity_req(&self, k: u64, n: u64) -> bool {
        true
    }

    open spec fn severity_spec(&self, k: u64, n: u64) -> Fraction {
        Fraction::spec_new(0, 0)
    }

    fn severity(&self, _k: u64, _n: u64) -> (r: Fraction) {
        Fraction::default()
    }
}

impl ContinuousMisconduct for () {
    open spec fn severity_spec(&self) -> Fraction {
        Fraction::spec_new(0, 0)
    }

    open spec fn on_misconduct_spec(&self) -> Self {
        ()
    }

    open spec fn on_signal_spec(&self) -> Self {
        ()
    }

    fn severity(&self) -> (r: Fraction) {
        Fraction::default()
    }

    fn on_misconduct(&mut self) {
    }

    fn on_signal(&mut self) {
    }
}

} // verus!
