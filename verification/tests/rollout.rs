use oxide_canary::{
    CanaryManager, CanaryRelease, Metrics, Number, Thresholds, Verdict, ROLLOUT_STAGES,
};

/// Double-precision measurements.
#[derive(Debug, Clone, Copy, PartialEq)]
struct F64(f64);

// Seen from outside the verifier, the trait's specification functions are ordinary methods; each
// one says what its executable twin computes.
impl Number for F64 {
    fn whole_spec(n: u32) -> F64 {
        F64(f64::from(n))
    }

    fn plus_spec(self, other: F64) -> F64 {
        F64(self.0 + other.0)
    }

    fn minus_spec(self, other: F64) -> F64 {
        F64(self.0 - other.0)
    }

    fn over_spec(self, n: usize) -> F64 {
        F64(self.0 / n as f64)
    }

    fn below_spec(self, other: F64) -> bool {
        self.0 < other.0
    }

    fn at_most_spec(self, other: F64) -> bool {
        self.0 <= other.0
    }

    fn same_spec(self, other: F64) -> bool {
        self.0 == other.0
    }

    fn below_product_spec(self, a: F64, b: F64) -> bool {
        self.0 < a.0 * b.0
    }

    fn above_product_spec(self, a: F64, b: F64) -> bool {
        self.0 > a.0 * b.0
    }

    fn lemma_whole_order(_a: u32, _b: u32) {}

    fn lemma_lone_value(_x: F64) {}

    fn whole(n: u32) -> F64 {
        F64::whole_spec(n)
    }

    fn plus(self, other: F64) -> F64 {
        self.plus_spec(other)
    }

    fn minus(self, other: F64) -> F64 {
        self.minus_spec(other)
    }

    fn over(self, n: usize) -> F64 {
        self.over_spec(n)
    }

    fn below(self, other: F64) -> bool {
        self.below_spec(other)
    }

    fn at_most(self, other: F64) -> bool {
        self.at_most_spec(other)
    }

    fn same(self, other: F64) -> bool {
        self.same_spec(other)
    }

    fn below_product(self, a: F64, b: F64) -> bool {
        self.below_product_spec(a, b)
    }

    fn above_product(self, a: F64, b: F64) -> bool {
        self.above_product_spec(a, b)
    }
}

fn metrics(latency_us: f64, error_rate: f64, throughput: f64) -> Metrics<F64> {
    Metrics::new(F64(latency_us), F64(error_rate), F64(throughput))
}

fn release(baseline: &str, canary: &str) -> CanaryRelease<F64> {
    CanaryRelease::new(baseline, canary)
}

#[test]
fn test_rollout_stages_progression() {
    let mut release = release("v1.0", "v2.0");
    assert_eq!(release.traffic_percent.0, 5.0);

    assert!(release.advance_stage());
    assert_eq!(release.traffic_percent.0, 25.0);

    assert!(release.advance_stage());
    assert_eq!(release.traffic_percent.0, 50.0);

    assert!(release.advance_stage());
    assert_eq!(release.traffic_percent.0, 100.0);
    assert!(release.is_fully_rollouted());

    // Already at max: no further advancement.
    assert!(!release.advance_stage());
}

#[test]
fn test_rollback_resets_traffic() {
    let mut release = release("v1.0", "v2.0");
    release.advance_stage();
    release.advance_stage();
    assert_eq!(release.traffic_percent.0, 50.0);

    release.rollback();
    assert_eq!(release.traffic_percent.0, 0.0);
    assert_eq!(release.stage_index, 0);
}

#[test]
fn test_route_goes_canary_when_active() {
    let release = release("v1.0", "v2.0");
    let mgr = CanaryManager::new(release);
    assert_eq!(mgr.route(), "canary");
}

#[test]
fn test_route_goes_baseline_after_rollback() {
    let mut release = release("v1.0", "v2.0");
    release.rollback();
    let mgr = CanaryManager::new(release);
    assert_eq!(mgr.route(), "baseline");
}

#[test]
fn test_healthy_verdict_when_canary_has_lower_error_rate() {
    let release = release("v1.0", "v2.0");
    let mut mgr = CanaryManager::new(release).with_window_size(3);

    // Baseline: 5% error rate.
    for _ in 0..3 {
        mgr.record_baseline(metrics(100.0, 0.05, 1000.0));
    }
    // Canary: 1% error rate, clearly better.
    for _ in 0..3 {
        mgr.record_canary(metrics(80.0, 0.01, 1100.0));
    }

    assert_eq!(mgr.evaluate(), Verdict::Healthy);
}

#[test]
fn test_rollback_verdict_when_canary_has_higher_error_rate() {
    let release = release("v1.0", "v2.0");
    let mut mgr = CanaryManager::new(release).with_window_size(3);

    for _ in 0..3 {
        mgr.record_baseline(metrics(100.0, 0.01, 1000.0));
    }
    // Canary: 20% error rate, clearly worse.
    for _ in 0..3 {
        mgr.record_canary(metrics(200.0, 0.20, 800.0));
    }

    assert_eq!(mgr.evaluate(), Verdict::Rollback);
}

#[test]
fn test_monitoring_verdict_when_metrics_are_similar() {
    let release = release("v1.0", "v2.0");
    let mut mgr = CanaryManager::new(release).with_window_size(3);

    for _ in 0..3 {
        mgr.record_baseline(metrics(100.0, 0.05, 1000.0));
    }
    // Canary: ~5.2% error rate, within 10% tolerance.
    for _ in 0..3 {
        mgr.record_canary(metrics(105.0, 0.052, 990.0));
    }

    assert_eq!(mgr.evaluate(), Verdict::Monitoring);
}

#[test]
fn test_tick_advances_on_healthy() {
    let release = release("v1.0", "v2.0");
    let mut mgr = CanaryManager::new(release).with_window_size(3);

    for _ in 0..3 {
        mgr.record_baseline(metrics(100.0, 0.10, 1000.0));
    }
    for _ in 0..3 {
        mgr.record_canary(metrics(80.0, 0.01, 1100.0));
    }

    assert_eq!(mgr.tick(), Verdict::Healthy);
    assert_eq!(mgr.release().traffic_percent.0, 25.0); // advanced from 5% to 25%
}

#[test]
fn test_tick_rolls_back_on_bad_verdict() {
    let release = release("v1.0", "v2.0");
    let mut mgr = CanaryManager::new(release).with_window_size(3);

    for _ in 0..3 {
        mgr.record_baseline(metrics(100.0, 0.01, 1000.0));
    }
    for _ in 0..3 {
        mgr.record_canary(metrics(300.0, 0.50, 500.0));
    }

    assert_eq!(mgr.tick(), Verdict::Rollback);
    assert_eq!(mgr.release().traffic_percent.0, 0.0); // rolled back
    assert_eq!(mgr.route(), "baseline");
}

#[test]
fn test_progressive_rollout_full_cycle() {
    let release = release("v1.0", "v2.0");
    let mut mgr = CanaryManager::new(release).with_window_size(2);

    // Simulate 4 healthy ticks: should go 5%, 25%, 50%, 100%.
    for _ in 0..4 {
        mgr.record_baseline(metrics(100.0, 0.10, 1000.0));
        mgr.record_baseline(metrics(100.0, 0.10, 1000.0));
        mgr.record_canary(metrics(80.0, 0.01, 1100.0));
        mgr.record_canary(metrics(80.0, 0.01, 1100.0));
        mgr.tick();
    }

    assert!(mgr.release().is_fully_rollouted());
}

#[test]
fn test_latency_tiebreaker_when_error_rates_zero() {
    let release = release("v1.0", "v2.0");
    let mut mgr = CanaryManager::new(release).with_window_size(2);

    // Both have 0% error rate, but canary is much faster.
    mgr.record_baseline(metrics(100.0, 0.0, 1000.0));
    mgr.record_baseline(metrics(100.0, 0.0, 1000.0));
    mgr.record_canary(metrics(50.0, 0.0, 1100.0));
    mgr.record_canary(metrics(50.0, 0.0, 1100.0));

    assert_eq!(mgr.evaluate(), Verdict::Healthy);
}

#[test]
fn test_metrics_aggregation() {
    let samples = vec![metrics(100.0, 0.05, 1000.0), metrics(200.0, 0.15, 800.0)];
    let agg = Metrics::aggregate(&samples);
    assert!((agg.latency_us.0 - 150.0).abs() < f64::EPSILON);
    assert!((agg.error_rate.0 - 0.10).abs() < f64::EPSILON);
    assert!((agg.throughput.0 - 900.0).abs() < f64::EPSILON);
}

#[test]
fn test_empty_aggregation_returns_zeros() {
    let agg: Metrics<F64> = Metrics::aggregate(&[]);
    assert_eq!(agg.latency_us.0, 0.0);
    assert_eq!(agg.error_rate.0, 0.0);
    assert_eq!(agg.throughput.0, 0.0);
}

#[test]
fn release_keeps_its_kernel_tags() {
    let mut release = release("v1.0", "v2.0");
    release.advance_stage();
    release.rollback();
    assert_eq!(release.baseline_kernel, "v1.0");
    assert_eq!(release.canary_kernel, "v2.0");
}

#[test]
fn default_thresholds_are_ten_percent() {
    let thresholds: Thresholds<F64> = Thresholds::default();
    assert_eq!(thresholds.improvement.0, 0.10);
    assert_eq!(thresholds.degradation.0, 0.10);
}

#[test]
fn custom_thresholds_widen_the_band() {
    let mut mgr = CanaryManager::new(release("v1.0", "v2.0"))
        .with_thresholds(Thresholds { improvement: F64(0.5), degradation: F64(0.5) });
    mgr.record_baseline(metrics(100.0, 0.10, 1000.0));
    mgr.record_canary(metrics(100.0, 0.08, 1000.0));
    assert_eq!(mgr.evaluate(), Verdict::Monitoring);
    mgr.record_canary(metrics(100.0, 0.0, 1000.0));
    assert_eq!(mgr.evaluate(), Verdict::Healthy);
}

#[test]
fn slow_error_free_canary_is_rolled_back() {
    let mut mgr = CanaryManager::new(release("v1.0", "v2.0"));
    mgr.record_baseline(metrics(100.0, 0.0, 1000.0));
    mgr.record_canary(metrics(111.0, 0.0, 1000.0));
    assert_eq!(mgr.evaluate(), Verdict::Rollback);
    mgr.record_canary(metrics(99.0, 0.0, 1000.0));
    assert_eq!(mgr.evaluate(), Verdict::Monitoring);
}

#[test]
fn manager_without_samples_monitors() {
    let mut mgr = CanaryManager::new(release("v1.0", "v2.0"));
    assert_eq!(mgr.tick(), Verdict::Monitoring);
    assert_eq!(mgr.release().traffic_percent.0, 5.0);
}

#[test]
fn samples_that_compare_with_nothing_are_monitored() {
    let mut mgr = CanaryManager::new(release("v1.0", "v2.0"));
    mgr.record_baseline(metrics(100.0, 0.1, 1000.0));
    mgr.record_canary(metrics(100.0, f64::NAN, 1000.0));
    assert_eq!(mgr.evaluate(), Verdict::Monitoring);
}

#[test]
fn window_keeps_the_most_recent_samples() {
    let mut mgr = CanaryManager::new(release("v1.0", "v2.0")).with_window_size(2);
    mgr.record_baseline(metrics(900.0, 0.9, 1.0));
    mgr.record_baseline(metrics(100.0, 0.25, 10.0));
    mgr.record_baseline(metrics(200.0, 0.75, 30.0));
    let agg = mgr.aggregate_baseline();
    assert_eq!(agg.latency_us.0, 150.0);
    assert_eq!(agg.error_rate.0, 0.5);
    assert_eq!(agg.throughput.0, 20.0);
    assert_eq!(mgr.aggregate_canary().latency_us.0, 0.0);
}

#[test]
fn window_holds_at_least_one_sample() {
    let mut mgr = CanaryManager::new(release("v1.0", "v2.0")).with_window_size(0);
    mgr.record_canary(metrics(10.0, 0.5, 1.0));
    mgr.record_canary(metrics(20.0, 0.25, 2.0));
    assert_eq!(mgr.aggregate_canary().latency_us.0, 20.0);
}

#[test]
fn default_window_holds_ten_samples() {
    let mut mgr = CanaryManager::new(release("v1.0", "v2.0"));
    mgr.record_canary(metrics(1000.0, 0.0, 0.0));
    for _ in 0..10 {
        mgr.record_canary(metrics(1.0, 0.0, 0.0));
    }
    assert_eq!(mgr.aggregate_canary().latency_us.0, 1.0);
}

#[test]
fn narrowing_the_window_keeps_recorded_samples() {
    let mut mgr = CanaryManager::new(release("v1.0", "v2.0")).with_window_size(3);
    mgr.record_canary(metrics(1.0, 0.0, 0.0));
    mgr.record_canary(metrics(2.0, 0.0, 0.0));
    mgr.record_canary(metrics(3.0, 0.0, 0.0));
    let mut mgr = mgr.with_window_size(1);
    assert_eq!(mgr.aggregate_canary().latency_us.0, 2.0);
    // One sample joins and one leaves: still three of them.
    mgr.record_canary(metrics(7.0, 0.0, 0.0));
    assert_eq!(mgr.aggregate_canary().latency_us.0, 4.0);
}

#[test]
fn release_can_be_changed_in_place() {
    let mut mgr = CanaryManager::new(release("v1.0", "v2.0"));
    mgr.release_mut().traffic_percent = F64(0.5);
    assert_eq!(mgr.route(), "canary");
    mgr.release_mut().rollback();
    assert_eq!(mgr.route(), "baseline");
    mgr.release_mut().advance_stage();
    assert_eq!(mgr.release().traffic_percent.0, 25.0);
}

#[test]
fn verdicts_score_plus_one_zero_and_minus_one() {
    assert_eq!(Verdict::Healthy.score(), 1);
    assert_eq!(Verdict::Monitoring.score(), 0);
    assert_eq!(Verdict::Rollback.score(), -1);
}

#[test]
fn rollout_stages_are_fixed() {
    assert_eq!(ROLLOUT_STAGES, [5, 25, 50, 100]);
}

#[test]
fn release_set_to_full_traffic_does_not_advance() {
    let mut release = release("v1.0", "v2.0");
    release.traffic_percent = F64(100.0);
    assert!(release.is_fully_rollouted());
    assert!(!release.advance_stage());
    assert_eq!(release.traffic_percent.0, 100.0);
    assert_eq!(release.stage_index, 0);

    let mut mgr = CanaryManager::new(release);
    mgr.record_baseline(metrics(100.0, 0.10, 1000.0));
    mgr.record_canary(metrics(80.0, 0.01, 1100.0));
    assert_eq!(mgr.tick(), Verdict::Healthy);
    assert_eq!(mgr.release().traffic_percent.0, 100.0);
}

#[test]
fn last_stage_does_not_advance_whatever_its_traffic() {
    let mut release = release("v1.0", "v2.0");
    release.stage_index = 3;
    release.traffic_percent = F64(30.0);
    assert!(!release.advance_stage());
    assert_eq!(release.traffic_percent.0, 30.0);
    release.stage_index = usize::MAX;
    assert!(!release.advance_stage());
}

#[test]
fn single_sample_is_its_own_average() {
    let agg = Metrics::aggregate(&[metrics(0.1, 1.0e-300, f64::INFINITY)]);
    assert_eq!(agg.latency_us.0, 0.1);
    assert_eq!(agg.error_rate.0, 1.0e-300);
    assert_eq!(agg.throughput.0, f64::INFINITY);
    let again = Metrics::aggregate(&[metrics(agg.latency_us.0, agg.error_rate.0, agg.throughput.0)]);
    assert_eq!(again.latency_us.0, agg.latency_us.0);
    assert_eq!(again.error_rate.0, agg.error_rate.0);
    assert_eq!(again.throughput.0, agg.throughput.0);
}
