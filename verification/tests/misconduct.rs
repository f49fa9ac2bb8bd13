use changes_tries::grandpa;
use changes_tries::{ContinuousMisconduct, EraMisconduct, Unresponsive};

#[test]
fn unresponsiveness() {
    // 0.12 * 0.05 = 0.006
    let s = EraMisconduct::severity(&Unresponsive, 5, 100);
    let rate = s.denominator() as f64 / s.numerator() as f64;
    assert_eq!(rate, 0.006);

    // min(27, 1) * 0.05 = 0.05
    let s = EraMisconduct::severity(&Unresponsive, 10, 10);
    let rate = s.denominator() as f64 / s.numerator() as f64;
    assert_eq!(rate, 0.05);

    // 0.99 * 0.05 = 0.0495
    let s = EraMisconduct::severity(&Unresponsive, 34, 100);
    let rate = s.denominator() as f64 / s.numerator() as f64;
    assert_eq!(rate, 0.0495);
}

#[test]
fn grandpa_unjustified_vote() {
    let s = EraMisconduct::severity(&grandpa::UnjustifiedVote, 0, 0);
    let rate = s.denominator() as f64 / s.numerator() as f64;
    assert_eq!(rate, 0.10);
}

#[test]
fn grandpa_equivocation() {
    // min(1, (3*1 / 10)^2)) = 0.09
    let s = EraMisconduct::severity(&grandpa::Equivocation, 1, 10);
    let rate = s.denominator() as f64 / s.numerator() as f64;
    assert_eq!(rate, 0.09);

    // min(1, (3*3 / 10)^2)) = 0.81
    let s = EraMisconduct::severity(&grandpa::Equivocation, 3, 10);
    let rate = s.denominator() as f64 / s.numerator() as f64;
    assert_eq!(rate, 0.81);

    // min(1, (4*3 / 10)^2)) = 1
    let s = EraMisconduct::severity(&grandpa::Equivocation, 4, 10);
    let rate = s.denominator() as f64 / s.numerator() as f64;
    assert_eq!(rate, 1.00);
}

#[test]
fn reject_set_votes_colluding_to_circumvent_super_majority() {
    let s = EraMisconduct::severity(&grandpa::CollusionSetVotes, 1, 1000);
    assert_eq!(1, s.denominator());
    assert_eq!(1, s.numerator());

    let s = EraMisconduct::severity(&grandpa::CollusionSetVotes, 0, 0);
    assert_eq!(1, s.denominator());
    assert_eq!(1, s.numerator());
}

#[test]
fn grandpa_invalid_vote_no_slash() {
    let s = ContinuousMisconduct::severity(&grandpa::InvalidVote);
    assert_eq!(0, s.denominator());
    assert_eq!(0, s.numerator());
}
