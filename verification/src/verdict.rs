//! The ternary health verdict.

use vstd::prelude::*;

verus! {

/// Health verdict returned after comparing canary vs baseline metrics.
///
/// The method `score` returns `+1`, `0` or `-1`. A cast with `as` instead counts the variants in
/// the order of their declaration.
#[derive(Debug, Clone, Copy, PartialEq, Eq, Structural)]
pub enum Verdict {
    /// Metrics are **similar**: hold current traffic, keep monitoring.
    Monitoring,
    /// Canary is performing **better** than baseline: promote, increase traffic.
    Healthy,
    /// Canary is performing **worse** than baseline: automatic rollback.
    Rollback,
}

impl Verdict {
    /// The verdict as a signed number: `+1`, `0` or `-1`.
    pub open spec fn score_spec(self) -> int {
        match self {
            Verdict::Healthy => 1int,
            Verdict::Monitoring => 0int,
            Verdict::Rollback => -1int,
        }
    }

    /// The verdict as a signed number: `+1` healthy, `0` monitoring, `-1` rollback.
    pub fn score(self) -> (r: i32)
        ensures
            r == self.score_spec(),
    {
        match self {
            Verdict::Healthy => 1,
            Verdict::Monitoring => 0,
            Verdict::Rollback => -1,
        }
    }
}

} // verus!
