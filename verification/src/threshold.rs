//! The quorum threshold and the comparison of a vote tally against it.

use vstd::prelude::*;

verus! {

/// The share of the current members that must have voted for a candidate
/// before it is let in, in whole percent.
#[derive(Clone, Copy, Debug)]
pub struct Threshold {
    percent: u8,
}

impl Threshold {
    /// A threshold lies above zero and not above one hundred.
    pub open spec fn valid_percent(percent: int) -> bool {
        0 < percent <= 100
    }

    /// The threshold in percent.
    pub closed spec fn view(&self) -> int {
        self.percent as int
    }

    pub open spec fn wf(&self) -> bool {
        Self::valid_percent(self@)
    }

    /// The threshold of `percent` per hundred, where that is a valid
    /// percentage.
    pub fn new(percent: u8) -> (r: Option<Threshold>)
        ensures
            r is Some <==> Self::valid_percent(percent as int),
            r is Some ==> r.unwrap().wf() && r.unwrap()@ == percent,
    {
        if 0 < percent && percent <= 100 {
            Some(Threshold { percent })
        } else {
            None
        }
    }

    pub fn percent(&self) -> (p: u8)
        ensures
            p as int == self@,
    {
        self.percent
    }
}

/// The share of `q` that `p` makes up, in whole percent, rounded down.
/// A zero denominator and a numerator above the denominator both count as
/// the full hundred.
pub open spec fn rational_percent(p: int, q: int) -> int {
    if q <= 0 || p > q {
        100
    } else {
        (100 * p) / q
    }
}

/// Whether `votes_for` out of `votes_required` reaches `percent` per hundred,
/// decided on whole numbers by cross-multiplication.
pub open spec fn quorum_met(votes_for: int, votes_required: int, percent: int) -> bool {
    votes_for * 100 >= votes_required * percent
}

/// Comparing the rounded-down percentage against a threshold of at most one
/// hundred decides the same as cross-multiplication does.
pub proof fn lemma_percent_decides_quorum(p: int, q: int, t: int)
    requires
        0 <= p,
        0 <= q,
        0 <= t <= 100,
    ensures
        (rational_percent(p, q) >= t) == quorum_met(p, q, t),
{
    if q == 0 {
        assert(q * t == 0) by (nonlinear_arith)
            requires
                q == 0,
        ;
    } else if p > q {
        assert(p * 100 >= q * t) by (nonlinear_arith)
            requires
                p > q,
                q > 0,
                0 <= t <= 100,
        ;
    } else {
        let d = (100 * p) / q;
        assert((d >= t) == (p * 100 >= q * t)) by (nonlinear_arith)
            requires
                d == (100 * p) / q,
                q > 0,
                0 <= p,
                0 <= t,
        ;
    }
}

/// Calls `sp_runtime::Percent::from_rational` on two `u64` and takes the
/// parts out of the result with `deconstruct`. Claimed of the outside code:
/// it yields one hundred where the denominator is zero or the numerator is
/// larger than the denominator, and otherwise the quotient `100 * p / q`
/// rounded down.
#[verifier::external_body]
fn percent_from_rational(p: u64, q: u64) -> (parts: u8)
    ensures
        parts as int == rational_percent(p as int, q as int),
{
    sp_runtime::Percent::from_rational(p, q).deconstruct()
}

/// Whether a tally of `votes_for` among `votes_required` members reaches the
/// threshold.
pub fn quorum_reached(votes_for: u64, votes_required: u64, threshold: Threshold) -> (met: bool)
    requires
        threshold.wf(),
    ensures
        met == quorum_met(votes_for as int, votes_required as int, threshold@),
{
    let parts: u8 = percent_from_rational(votes_for, votes_required);
    proof {
        lemma_percent_decides_quorum(votes_for as int, votes_required as int, threshold@);
    }
    parts >= threshold.percent
}

} // verus!
