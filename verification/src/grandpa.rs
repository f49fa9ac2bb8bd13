//! Grandpa misconducts.

use vstd::prelude::*;
use crate::fraction::Fraction;
use crate::misconduct::{ContinuousMisconduct, EraMisconduct};

verus! {

/// An unjustified vote from a single validator in an era: slash 10%.
///
/// Judged at the end of the era, since only then is it known that exactly
/// one validator was at fault.
pub struct UnjustifiedVote;

impl EraMisconduct for UnjustifiedVote {
    open spec fn severity_req(&self, k: u64, n: u64) -> bool {
        true
    }

    open spec fn severity_spec(&self, k: u64, n: u64) -> Fraction {
        Fraction::spec_new(1, 10)
    }

    fn severity(&self, _k: u64, _n: u64) -> (r: Fraction) {
        Fraction::new(1, 10)
    }
}

/// A validator signing two or more votes in the same round, for the same
/// vote type: slash `min((3k / n)^2, 1)`.
pub struct Equivocation;

impl EraMisconduct for Equivocation {
    open spec fn severity_req(&self, k: u64, n: u64) -> bool {
        &&& 1 <= n
        &&& 3 * k < 0x1_0000_0000
        &&& n < 0x1_0000_0000
    }

    open spec fn severity_spec(&self, k: u64, n: u64) -> Fraction {
        if ((3 * k) * (3 * k)) / ((n * n) as int) >= 1 {
            Fraction::spec_new(1, 1)
        } else {
            Fraction::spec_new(((3 * k) * (3 * k)) as u64, (n * n) as u64)
        }
    }

    fn severity(&self, k: u64, n: u64) -> (r: Fraction) {
        let three_k: u64 = 3 * k;
        proof {
            assert((three_k as int) * (three_k as int) <= 0xffff_fffe_0000_0001) by (nonlinear_arith)
                requires
                    three_k < 0x1_0000_0000,
            ;
            assert((n as int) * (n as int) <= 0xffff_fffe_0000_0001) by (nonlinear_arith)
                requires
                    n < 0x1_0000_0000,
            ;
            assert((n as int) * (n as int) >= 1) by (nonlinear_arith)
                requires
                    1 <= n,
            ;
        }
        let denominator: u64 = three_k * three_k;
        let numerator: u64 = n * n;

        if denominator / numerator >= 1 {
            Fraction::new(1, 1)
        } else {
            Fraction::new(denominator, numerator)
        }
    }
}

/// Collusion of more than a third of the validators, which may finalize
/// blocks on different chains: slash 100%.
pub struct CollusionSetVotes;

impl EraMisconduct for CollusionSetVotes {
    open spec fn severity_req(&self, k: u64, n: u64) -> bool {
        true
    }

    open spec fn severity_spec(&self, k: u64, n: u64) -> Fraction {
        Fraction::spec_new(1, 1)
    }

    fn severity(&self, _k: u64, _n: u64) -> (r: Fraction) {
        Fraction::new(1, 1)
    }
}

/// A vote naming a block the voter has not validated: no slash.
///
/// A voter simply ignores such votes from its own point of view.
pub struct InvalidVote;

impl ContinuousMisconduct for InvalidVote {
    open spec fn severity_spec(&self) -> Fraction {
        Fraction::spec_new(0, 0)
    }

    open spec fn on_misconduct_spec(&self) -> Self {
        InvalidVote
    }

    open spec fn on_signal_spec(&self) -> Self {
        InvalidVote
    }

    fn severity(&self) -> (r: Fraction) {
        Fraction::default()
    }

    fn on_misconduct(&mut self) {
    }

    fn on_signal(&mut self) {
    }
}

} // verus!
