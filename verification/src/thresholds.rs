//! Comparison thresholds and the rule that turns two averages into a verdict.

use vstd::prelude::*;

use crate::metrics::Metrics;
use crate::number::Number;
use crate::verdict::Verdict;

verus! {

/// How much better/worse the canary needs to be to trigger a non-monitoring verdict.
#[derive(Debug, Clone)]
pub struct Thresholds<T> {
    /// Fractional improvement needed for `Healthy`.
    /// Canary error rate must be below `(1 - improvement)` times baseline error rate.
    pub improvement: T,
    /// Fractional degradation tolerated before `Rollback`.
    /// Canary error rate must exceed `(1 + degradation)` times baseline error rate.
    pub degradation: T,
}

impl<T: Number> Thresholds<T> {
    /// Ten percent either way.
    pub open spec fn ten_percent() -> Self {
        Thresholds {
            improvement: T::whole_spec(1).over_spec(10),
            degradation: T::whole_spec(1).over_spec(10),
        }
    }

    /// The fraction of the baseline's signal that a healthy canary stays below.
    pub open spec fn healthy_factor(self) -> T {
        T::whole_spec(1).minus_spec(self.improvement)
    }

    /// The multiple of the baseline's signal beyond which the canary is rolled back.
    pub open spec fn rollback_factor(self) -> T {
        T::whole_spec(1).plus_spec(self.degradation)
    }

    /// The verdict on one signal, where less is better.
    pub open spec fn judge_signal(self, baseline: T, canary: T) -> Verdict {
        if canary.below_product_spec(baseline, self.healthy_factor()) {
            Verdict::Healthy
        } else if canary.above_product_spec(baseline, self.rollback_factor()) {
            Verdict::Rollback
        } else {
            Verdict::Monitoring
        }
    }

    /// Whether both error rates are zero, so that latency decides.
    pub open spec fn error_free(baseline: Metrics<T>, canary: Metrics<T>) -> bool {
        &&& baseline.error_rate.same_spec(T::whole_spec(0))
        &&& canary.error_rate.same_spec(T::whole_spec(0))
    }

    /// The verdict on two averaged snapshots: by error rate, or by latency where both error
    /// rates are zero.
    pub open spec fn judge(self, baseline: Metrics<T>, canary: Metrics<T>) -> Verdict {
        if Self::error_free(baseline, canary) {
            self.judge_signal(baseline.latency_us, canary.latency_us)
        } else {
            self.judge_signal(baseline.error_rate, canary.error_rate)
        }
    }
}

impl<T: Number> Default for Thresholds<T> {
    /// 10% better is `Healthy`, 10% worse is `Rollback`.
    fn default() -> (r: Self)
        ensures
            r == Thresholds::<T>::ten_percent(),
    {
        Thresholds { improvement: T::whole(1).over(10), degradation: T::whole(1).over(10) }
    }
}

} // verus!
