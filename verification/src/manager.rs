//! The manager that records samples, judges the canary and moves the release.

use std::collections::VecDeque;
use vstd::prelude::*;

use crate::metrics::{averaged, Metrics};
use crate::number::Number;
use crate::release::CanaryRelease;
use crate::thresholds::Thresholds;
use crate::verdict::Verdict;

verus! {

/// Manages a canary release: routes traffic, compares metrics, and returns a ternary verdict.
#[derive(Debug)]
pub struct CanaryManager<T> {
    release: CanaryRelease<T>,
    thresholds: Thresholds<T>,
    baseline_history: VecDeque<Metrics<T>>,
    canary_history: VecDeque<Metrics<T>>,
    window_size: usize,
}

/// What a [`CanaryManager`] holds: the release, the thresholds, the recorded samples of each
/// kernel (oldest first) and the window size.
pub struct ManagerState<T> {
    pub release: CanaryRelease<T>,
    pub thresholds: Thresholds<T>,
    pub baseline: Seq<Metrics<T>>,
    pub canary: Seq<Metrics<T>>,
    pub window: nat,
}

/// The history after one more sample: the sample joins at the back and, where the history has
/// grown beyond the window, the oldest sample leaves.
pub open spec fn slid<T>(history: Seq<Metrics<T>>, sample: Metrics<T>, window: nat) -> Seq<
    Metrics<T>,
> {
    if history.len() + 1 > window {
        history.push(sample).drop_first()
    } else {
        history.push(sample)
    }
}

impl<T: Number> ManagerState<T> {
    /// Whether the window has room for at least one sample.
    pub open spec fn wf(self) -> bool {
        self.window >= 1
    }

    /// The verdict on the averages of the two histories.
    pub open spec fn verdict(self) -> Verdict {
        self.thresholds.judge(averaged(self.baseline), averaged(self.canary))
    }

    /// The state after one evaluation cycle.
    pub open spec fn ticked(self) -> Self {
        ManagerState { release: self.release.after(self.verdict()), ..self }
    }

    /// The state after recording a baseline sample.
    pub open spec fn with_baseline(self, sample: Metrics<T>) -> Self {
        ManagerState { baseline: slid(self.baseline, sample, self.window), ..self }
    }

    /// The state after recording a canary sample.
    pub open spec fn with_canary(self, sample: Metrics<T>) -> Self {
        ManagerState { canary: slid(self.canary, sample, self.window), ..self }
    }
}

impl<T> View for CanaryManager<T> {
    type V = ManagerState<T>;

    closed spec fn view(&self) -> ManagerState<T> {
        ManagerState {
            release: self.release,
            thresholds: self.thresholds,
            baseline: self.baseline_history@,
            canary: self.canary_history@,
            window: self.window_size as nat,
        }
    }
}

/// Append a sample to a history and keep the history within the window.
fn slide<T>(history: &mut VecDeque<Metrics<T>>, sample: Metrics<T>, window: usize)
    ensures
        final(history)@ == slid(old(history)@, sample, window as nat),
{
    history.push_back(sample);
    if history.len() > window {
        let _ = history.pop_front();
    }
}

/// The samples of a history as a vector, oldest first.
fn collect_history<T: Number>(history: &VecDeque<Metrics<T>>) -> (r: Vec<Metrics<T>>)
    ensures
        r@ == history@,
{
    let mut samples: Vec<Metrics<T>> = Vec::new();
    let mut i: usize = 0;
    while i < history.len()
        invariant
            i <= history@.len(),
            samples@ == history@.take(i as int),
        decreases history@.len() - i,
    {
        let m = &history[i];
        samples.push(Metrics::new(m.latency_us, m.error_rate, m.throughput));
        assert(samples@ =~= history@.take(i + 1));
        i += 1;
    }
    assert(history@.take(i as int) =~= history@);
    samples
}

impl<T: Number> CanaryManager<T> {
    /// Create a new manager for the given release, with default thresholds, no samples and a
    /// window of ten samples.
    pub fn new(release: CanaryRelease<T>) -> (r: Self)
        ensures
            r@ == (ManagerState {
                release,
                thresholds: Thresholds::<T>::ten_percent(),
                baseline: Seq::empty(),
                canary: Seq::empty(),
                window: 10,
            }),
            r@.wf(),
    {
        CanaryManager {
            release,
            thresholds: Thresholds::default(),
            baseline_history: VecDeque::new(),
            canary_history: VecDeque::new(),
            window_size: 10,
        }
    }

    /// Override default thresholds.
    pub fn with_thresholds(self, thresholds: Thresholds<T>) -> (r: Self)
        ensures
            r@ == (ManagerState { thresholds, ..self@ }),
    {
        let mut manager = self;
        manager.thresholds = thresholds;
        manager
    }

    /// Override the metric sample window size; a window holds at least one sample.
    /// Samples that are already recorded stay.
    pub fn with_window_size(self, n: usize) -> (r: Self)
        ensures
            r@ == (ManagerState { window: if n == 0 { 1 } else { n as nat }, ..self@ }),
            r@.wf(),
    {
        let mut manager = self;
        manager.window_size = n.max(1);
        manager
    }

    /// Determine which kernel a request should be routed to.
    /// Returns `"canary"` or `"baseline"`.
    pub fn route(&self) -> (r: &str)
        ensures
            r@ == (if self@.release.takes_traffic() {
                "canary"@
            } else {
                "baseline"@
            }),
    {
        if T::whole(0).below(self.release.traffic_percent) {
            "canary"
        } else {
            "baseline"
        }
    }

    /// Record a metric sample for the baseline kernel.
    pub fn record_baseline(&mut self, metrics: Metrics<T>)
        ensures
            final(self)@ == old(self)@.with_baseline(metrics),
    {
        slide(&mut self.baseline_history, metrics, self.window_size);
    }

    /// Record a metric sample for the canary kernel.
    pub fn record_canary(&mut self, metrics: Metrics<T>)
        ensures
            final(self)@ == old(self)@.with_canary(metrics),
    {
        slide(&mut self.canary_history, metrics, self.window_size);
    }

    /// Compare aggregated canary vs baseline metrics and produce a ternary verdict.
    ///
    /// Uses error rate as the primary signal. If both error rates are zero, latency is used as
    /// a tie-breaker.
    pub fn evaluate(&self) -> (r: Verdict)
        ensures
            r == self@.verdict(),
            self@.baseline.len() <= usize::MAX,
            self@.canary.len() <= usize::MAX,
    {
        let baseline = self.aggregate_baseline();
        let canary = self.aggregate_canary();
        let better = T::whole(1).minus(self.thresholds.improvement);
        let worse = T::whole(1).plus(self.thresholds.degradation);

        let b_err = baseline.error_rate;
        let c_err = canary.error_rate;

        if b_err.same(T::whole(0)) && c_err.same(T::whole(0)) {
            // Both perfect: use latency tie-breaker.
            return if canary.latency_us.below_product(baseline.latency_us, better) {
                Verdict::Healthy
            } else if canary.latency_us.above_product(baseline.latency_us, worse) {
                Verdict::Rollback
            } else {
                Verdict::Monitoring
            };
        }

        if c_err.below_product(b_err, better) {
            Verdict::Healthy
        } else if c_err.above_product(b_err, worse) {
            Verdict::Rollback
        } else {
            Verdict::Monitoring
        }
    }

    /// Run one evaluation cycle: evaluate, then advance/rollback accordingly.
    /// Returns the verdict and applies the appropriate action.
    pub fn tick(&mut self) -> (r: Verdict)
        ensures
            r == old(self)@.verdict(),
            final(self)@ == old(self)@.ticked(),
            old(self)@.baseline.len() <= usize::MAX,
            old(self)@.canary.len() <= usize::MAX,
    {
        let verdict = self.evaluate();
        match verdict {
            Verdict::Healthy => {
                self.release.advance_stage();
            },
            Verdict::Rollback => {
                self.release.rollback();
            },
            Verdict::Monitoring => {
                // Hold current stage: no change.
            },
        }
        verdict
    }

    /// Aggregate recent baseline samples.
    pub fn aggregate_baseline(&self) -> (r: Metrics<T>)
        ensures
            r == averaged(self@.baseline),
            self@.baseline.len() <= usize::MAX,
    {
        assert(self.baseline_history@.len() == self.baseline_history.len());
        Metrics::aggregate(&collect_history(&self.baseline_history))
    }

    /// Aggregate recent canary samples.
    pub fn aggregate_canary(&self) -> (r: Metrics<T>)
        ensures
            r == averaged(self@.canary),
            self@.canary.len() <= usize::MAX,
    {
        assert(self.canary_history@.len() == self.canary_history.len());
        Metrics::aggregate(&collect_history(&self.canary_history))
    }

    /// Access the underlying release.
    pub fn release(&self) -> (r: &CanaryRelease<T>)
        ensures
            *r == self@.release,
    {
        &self.release
    }

    /// Mutable access to the release.
    pub fn release_mut(&mut self) -> (r: &mut CanaryRelease<T>)
        ensures
            *r == old(self)@.release,
            final(self)@ == (ManagerState { release: *final(r), ..old(self)@ }),
    {
        &mut self.release
    }
}

} // verus!
