//! A canary release and its progressive rollout.

use vstd::prelude::*;

use crate::number::Number;
use crate::verdict::Verdict;

verus! {

/// Progressive rollout stages (percentage of traffic routed to canary).
pub const ROLLOUT_STAGES: [u32; 4] = [5, 25, 50, 100];

/// A canary release definition.
#[derive(Debug, Clone)]
pub struct CanaryRelease<T> {
    /// Identifier / version tag of the baseline (stable) kernel.
    pub baseline_kernel: String,
    /// Identifier / version tag of the canary (candidate) kernel.
    pub canary_kernel: String,
    /// Percentage of traffic currently routed to the canary kernel.
    pub traffic_percent: T,
    /// Current rollout stage index into [`ROLLOUT_STAGES`].
    pub stage_index: usize,
}

impl<T: Number> CanaryRelease<T> {
    /// Whether the stage index names a rollout stage.
    pub open spec fn wf(self) -> bool {
        self.stage_index < ROLLOUT_STAGES@.len()
    }

    /// Whether the traffic share is the one of the current stage, or zero after a rollback.
    pub open spec fn on_schedule(self) -> bool {
        &&& self.wf()
        &&& {
            ||| self.traffic_percent == T::whole_spec(ROLLOUT_STAGES@[self.stage_index as int])
            ||| self.stage_index == 0 && self.traffic_percent == T::whole_spec(0)
        }
    }

    /// Whether a later stage is left and the canary does not take all traffic yet.
    pub open spec fn can_advance(self) -> bool {
        self.stage_index + 1 < ROLLOUT_STAGES@.len() && !self.fully_rolled_out()
    }

    /// The release one stage further, or unchanged where it cannot advance.
    pub open spec fn advanced(self) -> Self {
        if self.can_advance() {
            CanaryRelease {
                traffic_percent: T::whole_spec(ROLLOUT_STAGES@[self.stage_index + 1]),
                stage_index: (self.stage_index + 1) as usize,
                ..self
            }
        } else {
            self
        }
    }

    /// The release with no canary traffic, back at the first stage.
    pub open spec fn rolled_back(self) -> Self {
        CanaryRelease { traffic_percent: T::whole_spec(0), stage_index: 0, ..self }
    }

    /// The release after acting on a verdict.
    pub open spec fn after(self, verdict: Verdict) -> Self {
        match verdict {
            Verdict::Healthy => self.advanced(),
            Verdict::Monitoring => self,
            Verdict::Rollback => self.rolled_back(),
        }
    }

    /// Whether all traffic goes to the canary.
    pub open spec fn fully_rolled_out(self) -> bool {
        T::whole_spec(100).at_most_spec(self.traffic_percent)
    }

    /// Whether any traffic goes to the canary.
    pub open spec fn takes_traffic(self) -> bool {
        T::whole_spec(0).below_spec(self.traffic_percent)
    }

    /// Create a new canary release starting at the first rollout stage (5%).
    pub fn new(baseline: &str, canary: &str) -> (r: Self)
        ensures
            r.baseline_kernel@ == baseline@,
            r.canary_kernel@ == canary@,
            r.traffic_percent == T::whole_spec(5),
            r.stage_index == 0,
            r.on_schedule(),
    {
        CanaryRelease {
            baseline_kernel: baseline.to_owned(),
            canary_kernel: canary.to_owned(),
            traffic_percent: T::whole(ROLLOUT_STAGES[0]),
            stage_index: 0,
        }
    }

    /// Advance to the next rollout stage. Returns `false` if already at 100%.
    ///
    /// A release whose stage is the last one stays there, whatever its traffic share was set to.
    pub fn advance_stage(&mut self) -> (r: bool)
        ensures
            r == old(self).can_advance(),
            *final(self) == old(self).advanced(),
            old(self).fully_rolled_out() ==> !r && *final(self) == *old(self),
            old(self).wf() ==> final(self).wf(),
    {
        if !self.is_fully_rollouted() && self.stage_index < ROLLOUT_STAGES.len() - 1 {
            self.stage_index += 1;
            self.traffic_percent = T::whole(ROLLOUT_STAGES[self.stage_index]);
            true
        } else {
            false
        }
    }

    /// Roll traffic back to 0% (canary receives no traffic).
    pub fn rollback(&mut self)
        ensures
            *final(self) == old(self).rolled_back(),
            final(self).wf(),
    {
        self.traffic_percent = T::whole(0);
        self.stage_index = 0;
    }

    /// Whether the canary has reached full rollout.
    pub fn is_fully_rollouted(&self) -> (r: bool)
        ensures
            r == self.fully_rolled_out(),
    {
        T::whole(100).at_most(self.traffic_percent)
    }
}

} // verus!
