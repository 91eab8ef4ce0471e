use oxide_canary::{CanaryManager, CanaryRelease, Decimal, Metrics, Number, Thresholds, Verdict};

fn units(units: i128) -> Decimal {
    Decimal { units }
}

/// A snapshot with latency in whole microseconds, error rate in millionths, and throughput in
/// whole operations per second.
fn sample(latency_us: u32, errors: i64, throughput: u32) -> Metrics<Decimal> {
    Metrics::new(Decimal::whole(latency_us), Decimal::millionths(errors), Decimal::whole(throughput))
}

fn release() -> CanaryRelease<Decimal> {
    CanaryRelease::new("v1.0", "v2.0")
}

fn verdict(baseline: Metrics<Decimal>, canary: Metrics<Decimal>) -> Verdict {
    let mut mgr = CanaryManager::new(release());
    mgr.record_baseline(baseline);
    mgr.record_canary(canary);
    mgr.evaluate()
}

fn act(release: &mut CanaryRelease<Decimal>, verdict: Verdict) {
    match verdict {
        Verdict::Healthy => {
            release.advance_stage();
        }
        Verdict::Monitoring => {}
        Verdict::Rollback => release.rollback(),
    }
}

#[test]
fn whole_numbers_and_millionths() {
    assert_eq!(Decimal::whole(3), units(3_000_000_000_000_000_000));
    assert_eq!(Decimal::millionths(-50_000), units(-50_000_000_000_000_000));
}

#[test]
fn sums_and_differences_stop_at_the_ends_of_the_range() {
    assert_eq!(units(2).plus(units(3)), units(5));
    assert_eq!(units(2).minus(units(3)), units(-1));
    assert_eq!(units(i128::MAX).plus(units(1)), units(i128::MAX));
    assert_eq!(units(i128::MIN).plus(units(-1)), units(i128::MIN));
    assert_eq!(units(i128::MIN).minus(units(1)), units(i128::MIN));
    assert_eq!(units(i128::MAX).minus(units(-1)), units(i128::MAX));
}

#[test]
fn comparisons_with_products_are_exact() {
    let half = Decimal::millionths(500_000);
    let minus_half = Decimal::millionths(-500_000);
    // Half a unit lies between no unit and one.
    assert!(units(0).below_product(units(1), half));
    assert!(units(1).above_product(units(1), half));
    assert!(units(0).above_product(units(-1), half));
    assert!(units(-1).below_product(units(1), minus_half));
    assert!(units(0).below_product(units(-1), minus_half));
    // Three halves are exactly that.
    let three_halves = Decimal::millionths(1_500_000);
    assert!(!three_halves.below_product(Decimal::whole(3), half));
    assert!(!three_halves.above_product(Decimal::whole(3), half));
    let minus_three_halves = Decimal::millionths(-1_500_000);
    assert!(!minus_three_halves.below_product(Decimal::whole(3), minus_half));
    assert!(!minus_three_halves.above_product(Decimal::whole(3), minus_half));
    assert!(minus_three_halves.below_product(Decimal::whole(3), half));
    assert!(three_halves.above_product(Decimal::whole(3), minus_half));
    // Zero is level with every product with zero.
    for x in [i128::MIN, -1, 0, 1, i128::MAX] {
        assert!(!units(0).below_product(units(0), units(x)));
        assert!(!units(0).above_product(units(x), units(0)));
    }
}

#[test]
fn comparisons_with_products_beyond_the_range_are_exact() {
    let one = Decimal::whole(1);
    let (least, greatest) = (units(i128::MIN), units(i128::MAX));
    assert!(greatest.below_product(greatest, greatest));
    assert!(greatest.below_product(least, least));
    assert!(least.above_product(greatest, least));
    assert!(!greatest.below_product(greatest, one));
    assert!(!greatest.above_product(greatest, one));
    assert!(!least.below_product(least, one));
    assert!(!least.above_product(least, one));
    assert!(greatest.below_product(least, Decimal::millionths(-1_000_000)));
}

#[test]
fn quotients_round_down() {
    assert_eq!(units(7).over(2), units(3));
    assert_eq!(units(-7).over(2), units(-4));
    assert_eq!(units(-8).over(2), units(-4));
    assert_eq!(units(i128::MIN).over(1), units(i128::MIN));
}

#[test]
fn comparisons() {
    assert!(units(1).below(units(2)));
    assert!(!units(2).below(units(2)));
    assert!(units(2).at_most(units(2)));
    assert!(!units(3).at_most(units(2)));
    assert!(units(2).same(units(2)));
    assert!(!units(2).same(units(3)));
}

#[test]
fn default_thresholds_are_a_tenth() {
    let thresholds: Thresholds<Decimal> = Thresholds::default();
    assert_eq!(thresholds.improvement, Decimal::millionths(100_000));
    assert_eq!(thresholds.degradation, Decimal::millionths(100_000));
}

#[test]
fn verdict_changes_exactly_at_ninety_and_one_hundred_and_ten_percent() {
    let baseline = || sample(100, 50_000, 1000);
    assert_eq!(verdict(baseline(), sample(100, 44_999, 1000)), Verdict::Healthy);
    assert_eq!(verdict(baseline(), sample(100, 45_000, 1000)), Verdict::Monitoring);
    assert_eq!(verdict(baseline(), sample(100, 55_000, 1000)), Verdict::Monitoring);
    assert_eq!(verdict(baseline(), sample(100, 55_001, 1000)), Verdict::Rollback);
}

#[test]
fn latency_breaks_the_tie_exactly() {
    assert_eq!(verdict(sample(100, 0, 1), sample(89, 0, 1)), Verdict::Healthy);
    assert_eq!(verdict(sample(100, 0, 1), sample(90, 0, 1)), Verdict::Monitoring);
    assert_eq!(verdict(sample(100, 0, 1), sample(110, 0, 1)), Verdict::Monitoring);
    assert_eq!(verdict(sample(100, 0, 1), sample(111, 0, 1)), Verdict::Rollback);
}

#[test]
fn identical_kernels_are_monitored() {
    assert_eq!(verdict(sample(100, 50_000, 10), sample(100, 50_000, 10)), Verdict::Monitoring);
    assert_eq!(verdict(sample(100, 0, 10), sample(100, 0, 10)), Verdict::Monitoring);
}

#[test]
fn identical_windows_are_monitored() {
    let mut mgr = CanaryManager::new(release());
    for errors in [10_000, 0, 999_999] {
        mgr.record_baseline(sample(7, errors, 1));
        mgr.record_canary(sample(7, errors, 1));
    }
    assert_eq!(mgr.tick(), Verdict::Monitoring);
    assert_eq!(mgr.release().traffic_percent, Decimal::whole(5));
}

#[test]
fn new_errors_are_rolled_back() {
    assert_eq!(verdict(sample(100, 0, 1), sample(1, 1, 1)), Verdict::Rollback);
}

#[test]
fn more_errors_are_never_better() {
    let mut last = 1;
    for errors in [0, 40_000, 44_999, 45_000, 55_000, 55_001, 1_000_000] {
        let score = verdict(sample(100, 50_000, 1), sample(100, errors, 1)).score();
        assert!(score <= last);
        last = score;
    }
    assert_eq!(last, -1);
}

#[test]
fn throughput_is_not_judged() {
    assert_eq!(verdict(sample(100, 50_000, 1), sample(100, 50_000, 9000)), Verdict::Monitoring);
    assert_eq!(verdict(sample(100, 50_000, 9000), sample(100, 50_000, 1)), Verdict::Monitoring);
}

#[test]
fn error_rate_comes_before_latency() {
    assert_eq!(verdict(sample(1, 50_000, 1), sample(9000, 10_000, 1)), Verdict::Healthy);
    assert_eq!(verdict(sample(9000, 10_000, 1), sample(1, 50_000, 1)), Verdict::Rollback);
}

#[test]
fn no_samples_are_monitored() {
    let mut mgr = CanaryManager::new(release());
    assert_eq!(mgr.tick(), Verdict::Monitoring);
    assert_eq!(mgr.tick(), Verdict::Monitoring);
    assert_eq!(mgr.release().stage_index, 0);
}

#[test]
fn averages_are_exact_and_lie_between_their_samples() {
    let samples = vec![sample(100, 50_000, 1000), sample(200, 150_000, 800)];
    let agg = Metrics::aggregate(&samples);
    assert_eq!(agg.latency_us, Decimal::whole(150));
    assert_eq!(agg.error_rate, Decimal::millionths(100_000));
    assert_eq!(agg.throughput, Decimal::whole(900));
}

#[test]
fn average_of_equal_samples_is_the_sample() {
    let samples = vec![sample(7, 1, 3), sample(7, 1, 3), sample(7, 1, 3)];
    let agg = Metrics::aggregate(&samples);
    assert_eq!(agg.latency_us, Decimal::whole(7));
    assert_eq!(agg.error_rate, Decimal::millionths(1));
    assert_eq!(agg.throughput, Decimal::whole(3));
}

#[test]
fn every_run_stays_on_schedule() {
    let mut release = release();
    let run = [
        Verdict::Healthy,
        Verdict::Healthy,
        Verdict::Monitoring,
        Verdict::Rollback,
        Verdict::Monitoring,
        Verdict::Healthy,
        Verdict::Healthy,
        Verdict::Healthy,
        Verdict::Healthy,
    ];
    let shares = [25, 50, 50, 0, 0, 25, 50, 100, 100];
    for (verdict, share) in run.iter().zip(shares) {
        act(&mut release, *verdict);
        assert_eq!(release.traffic_percent, Decimal::whole(share));
        assert_eq!(release.is_fully_rollouted(), share == 100);
        assert_eq!(release.baseline_kernel, "v1.0");
        assert_eq!(release.canary_kernel, "v2.0");
    }
}

#[test]
fn advancing_increases_traffic_until_no_stage_is_left() {
    let mut release = release();
    loop {
        let before = release.traffic_percent;
        let full = release.is_fully_rollouted();
        let advanced = release.advance_stage();
        assert_eq!(advanced, !full);
        assert_eq!(advanced, before.below(release.traffic_percent));
        if !advanced {
            break;
        }
    }
    assert_eq!(release.stage_index, 3);
}

#[test]
fn rollback_at_any_stage_removes_all_traffic() {
    for stage in 0..4 {
        let mut release = release();
        for _ in 0..stage {
            release.advance_stage();
        }
        release.rollback();
        assert_eq!(release.traffic_percent, Decimal::whole(0));
        let mut mgr = CanaryManager::new(release);
        assert_eq!(mgr.route(), "baseline");
        mgr.release_mut().rollback();
        assert_eq!(mgr.release().stage_index, 0);
        mgr.release_mut().advance_stage();
        assert_eq!(mgr.release().traffic_percent, Decimal::whole(25));
        assert_eq!(mgr.route(), "canary");
    }
}

#[test]
fn three_healthy_cycles_reach_full_rollout() {
    let mut mgr = CanaryManager::new(release());
    mgr.record_baseline(sample(100, 100_000, 1000));
    mgr.record_canary(sample(80, 10_000, 1100));
    for share in [25, 50, 100, 100] {
        assert_eq!(mgr.tick(), Verdict::Healthy);
        assert_eq!(mgr.release().traffic_percent, Decimal::whole(share));
    }
    assert!(mgr.release().is_fully_rollouted());
}

#[test]
fn recordings_are_independent() {
    let mut mgr = CanaryManager::new(release());
    mgr.record_baseline(sample(100, 1, 1));
    assert_eq!(mgr.aggregate_canary().latency_us, Decimal::whole(0));
    mgr.record_canary(sample(50, 2, 2));
    assert_eq!(mgr.aggregate_baseline().latency_us, Decimal::whole(100));
    assert_eq!(mgr.aggregate_canary().latency_us, Decimal::whole(50));
    assert_eq!(mgr.release().traffic_percent, Decimal::whole(5));
}

#[test]
fn healthy_is_asked_first_where_limits_cross() {
    let mut mgr = CanaryManager::new(release()).with_thresholds(Thresholds {
        improvement: Decimal::millionths(-500_000),
        degradation: Decimal::millionths(-500_000),
    });
    mgr.record_baseline(sample(100, 100_000, 1));
    mgr.record_canary(sample(100, 100_000, 1));
    assert_eq!(mgr.evaluate(), Verdict::Healthy);
}

#[test]
fn limits_do_not_cross_under_nonnegative_thresholds() {
    let mut mgr = CanaryManager::new(release()).with_thresholds(Thresholds {
        improvement: Decimal::whole(0),
        degradation: Decimal::whole(0),
    });
    mgr.record_baseline(sample(100, 100_000, 1));
    mgr.record_canary(sample(100, 100_000, 1));
    assert_eq!(mgr.evaluate(), Verdict::Monitoring);
}

#[test]
fn limits_are_not_rounded() {
    // Nine tenths of one unit is more than nothing.
    let baseline = Metrics::new(units(0), units(1), units(0));
    assert_eq!(verdict(baseline, sample(0, 0, 0)), Verdict::Healthy);
    let baseline = Metrics::new(units(0), units(10), units(0));
    assert_eq!(verdict(baseline, Metrics::new(units(0), units(8), units(0))), Verdict::Healthy);
    let baseline = Metrics::new(units(0), units(10), units(0));
    assert_eq!(verdict(baseline, Metrics::new(units(0), units(12), units(0))), Verdict::Rollback);
}

#[test]
fn identical_slow_kernels_are_monitored() {
    let slow = || {
        Metrics::new(units(200_000_000_000_000_000_000_000_000_000_000), units(0), units(0))
    };
    assert_eq!(verdict(slow(), slow()), Verdict::Monitoring);
    let slowest = || Metrics::new(units(i128::MAX), units(0), units(0));
    assert_eq!(verdict(slowest(), slowest()), Verdict::Monitoring);
}

#[test]
fn verdicts_tell_better_from_worse() {
    for errors in [0, 1, 9_000, 10_000, 11_000, 12_000, 1_000_000] {
        match verdict(sample(100, 10_000, 1), sample(100, errors, 1)) {
            Verdict::Healthy => assert!(errors < 10_000),
            Verdict::Monitoring => assert!(errors >= 9_000 && errors <= 11_000),
            Verdict::Rollback => assert!(errors > 10_000),
        }
    }
}

#[test]
fn more_errors_in_the_window_are_never_better() {
    let windows = [[0, 0, 10], [0, 10_000, 10], [50_000, 60_000, 10], [900_000, 60_000, 20]];
    let mut scores = Vec::new();
    for window in windows {
        let mut mgr = CanaryManager::new(release());
        mgr.record_baseline(sample(100, 30_000, 1));
        for errors in window {
            mgr.record_canary(sample(100, errors, 1));
        }
        scores.push(mgr.evaluate().score());
    }
    assert_eq!(scores, vec![1, 1, -1, -1]);
}

#[test]
fn aggregation_is_monotone() {
    let a = Metrics::aggregate(&[sample(1, 10, 5), sample(7, 20, 5)]);
    let b = Metrics::aggregate(&[sample(1, 11, 5), sample(9, 20, 4)]);
    assert!(a.latency_us.below(b.latency_us));
    assert!(a.error_rate.below(b.error_rate));
    assert!(b.throughput.below(a.throughput));
}

#[test]
fn sample_order_does_not_matter() {
    let forward = Metrics::aggregate(&[sample(1, -10, 5), sample(7, 21, 6), sample(2, 5, 9)]);
    let shuffled = Metrics::aggregate(&[sample(2, 5, 9), sample(1, -10, 5), sample(7, 21, 6)]);
    assert_eq!(forward.latency_us, shuffled.latency_us);
    assert_eq!(forward.error_rate, shuffled.error_rate);
    assert_eq!(forward.throughput, shuffled.throughput);
}

#[test]
fn sample_order_matters_once_a_sum_leaves_the_range() {
    let sample = |latency| Metrics::new(units(latency), units(0), units(0));
    let full = Metrics::aggregate(&[sample(i128::MAX), sample(3), sample(-3)]);
    let balanced = Metrics::aggregate(&[sample(3), sample(-3), sample(i128::MAX)]);
    assert_eq!(full.latency_us, units((i128::MAX - 3) / 3));
    assert_eq!(balanced.latency_us, units(i128::MAX / 3));
}

#[test]
fn single_sample_is_kept_exactly() {
    let agg = Metrics::aggregate(&[Metrics::new(units(i128::MIN), units(-1), units(i128::MAX))]);
    assert_eq!(agg.latency_us, units(i128::MIN));
    assert_eq!(agg.error_rate, units(-1));
    assert_eq!(agg.throughput, units(i128::MAX));
}

#[test]
fn full_rollout_does_not_advance() {
    let mut release = release();
    release.advance_stage();
    release.traffic_percent = Decimal::whole(250);
    assert!(!release.advance_stage());
    assert_eq!(release.traffic_percent, Decimal::whole(250));
    assert_eq!(release.stage_index, 1);
}

#[test]
fn average_error_rate_stays_a_rate() {
    let samples = vec![sample(1, 1_000_000, 1), sample(1, 1_000_000, 1), sample(1, 999_999, 1)];
    let rate = Metrics::aggregate(&samples).error_rate;
    assert!(rate.at_most(Decimal::whole(1)));
    assert!(Decimal::whole(0).at_most(rate));
}

#[test]
fn averages_are_rounded_down_to_a_unit() {
    let sample = |errors| Metrics::new(units(0), units(errors), units(0));
    assert_eq!(Metrics::aggregate(&[sample(1), sample(2)]).error_rate, units(1));
    assert_eq!(Metrics::aggregate(&[sample(-1), sample(-2)]).error_rate, units(-2));
}
