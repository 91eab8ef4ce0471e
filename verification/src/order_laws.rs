//! What holds of verdicts and averages in every ordered number.

use vstd::prelude::*;

use crate::manager::ManagerState;
use crate::metrics::{averaged, error_rates, latencies, mean, throughputs, total, Metrics};
use crate::number::Number;
use crate::order::{OrderedNumber, EXACT_INTEGERS};
use crate::thresholds::Thresholds;
use crate::verdict::Verdict;

verus! {

/// Whether both thresholds are at least zero.
pub open spec fn nonnegative_thresholds<T: Number>(thresholds: Thresholds<T>) -> bool {
    &&& T::whole_spec(0).at_most_spec(thresholds.improvement)
    &&& T::whole_spec(0).at_most_spec(thresholds.degradation)
}

/// Whether both thresholds are finite.
pub open spec fn finite_thresholds<T: OrderedNumber>(thresholds: Thresholds<T>) -> bool {
    &&& thresholds.improvement.finite_spec()
    &&& thresholds.degradation.finite_spec()
}

/// Whether no value is negative or undefined.
pub open spec fn nonnegative<T: Number>(values: Seq<T>) -> bool {
    forall|i: int| 0 <= i < values.len() ==> T::whole_spec(0).at_most_spec(#[trigger] values[i])
}

/// Whether every value is finite.
pub open spec fn all_finite<T: OrderedNumber>(values: Seq<T>) -> bool {
    forall|i: int| 0 <= i < values.len() ==> (#[trigger] values[i]).finite_spec()
}

/// Whether no value of `a` is greater than its counterpart in `b`.
pub open spec fn pointwise_at_most<T: Number>(a: Seq<T>, b: Seq<T>) -> bool {
    &&& a.len() == b.len()
    &&& forall|i: int|
        #![trigger a[i]]
        #![trigger b[i]]
        0 <= i < a.len() ==> a[i].at_most_spec(b[i])
}

/// With nonnegative thresholds, a healthy signal is below a nonnegative baseline's and one that is
/// rolled back is above it.
pub proof fn law_verdicts_tell_better_from_worse<T: OrderedNumber>(
    thresholds: Thresholds<T>,
    baseline: T,
    canary: T,
)
    requires
        nonnegative_thresholds(thresholds),
        T::whole_spec(0).at_most_spec(baseline),
    ensures
        thresholds.judge_signal(baseline, canary) == Verdict::Healthy ==> canary.below_spec(
            baseline,
        ),
        thresholds.judge_signal(baseline, canary) == Verdict::Rollback ==> baseline.below_spec(
            canary,
        ),
{
    T::lemma_product_with_factor(canary, baseline, thresholds.improvement);
    T::lemma_product_with_factor(canary, baseline, thresholds.degradation);
}

/// With nonnegative thresholds and baseline samples, a healthy canary makes fewer errors than the
/// baseline, or is faster where neither makes any; one that is rolled back makes more errors, or
/// is slower where neither makes any.
pub proof fn law_evaluation_tells_better_from_worse<T: OrderedNumber>(state: ManagerState<T>)
    requires
        nonnegative_thresholds(state.thresholds),
        nonnegative(error_rates(state.baseline)),
        nonnegative(latencies(state.baseline)),
        state.baseline.len() <= usize::MAX,
    ensures
        ({
            let b = averaged(state.baseline);
            let c = averaged(state.canary);
            let error_free = Thresholds::<T>::error_free(b, c);
            &&& state.verdict() == Verdict::Healthy ==> c.error_rate.below_spec(b.error_rate) || (
            error_free && c.latency_us.below_spec(b.latency_us))
            &&& state.verdict() == Verdict::Rollback ==> b.error_rate.below_spec(c.error_rate) || (
            error_free && b.latency_us.below_spec(c.latency_us))
        }),
{
    let b = averaged(state.baseline);
    let c = averaged(state.canary);
    law_mean_is_nonnegative(error_rates(state.baseline));
    law_mean_is_nonnegative(latencies(state.baseline));
    law_verdicts_tell_better_from_worse(state.thresholds, b.error_rate, c.error_rate);
    law_verdicts_tell_better_from_worse(state.thresholds, b.latency_us, c.latency_us);
}

/// A canary that measures exactly as its baseline is neither promoted nor rolled back.
pub proof fn law_identical_kernels_are_monitored<T: OrderedNumber>(
    thresholds: Thresholds<T>,
    metrics: Metrics<T>,
)
    requires
        nonnegative_thresholds(thresholds),
        T::whole_spec(0).at_most_spec(metrics.error_rate),
        T::whole_spec(0).at_most_spec(metrics.latency_us),
    ensures
        thresholds.judge(metrics, metrics) == Verdict::Monitoring,
{
    let e = metrics.error_rate;
    let l = metrics.latency_us;
    law_verdicts_tell_better_from_worse(thresholds, e, e);
    law_verdicts_tell_better_from_worse(thresholds, l, l);
    T::lemma_order(e, e, e);
    T::lemma_order(l, l, l);
}

/// Two kernels whose recorded samples are the same are monitored.
pub proof fn law_identical_windows_are_monitored<T: OrderedNumber>(state: ManagerState<T>)
    requires
        nonnegative_thresholds(state.thresholds),
        state.baseline == state.canary,
        nonnegative(error_rates(state.baseline)),
        nonnegative(latencies(state.baseline)),
        state.baseline.len() <= usize::MAX,
    ensures
        state.verdict() == Verdict::Monitoring,
        state.ticked() == state,
{
    law_mean_is_nonnegative(error_rates(state.baseline));
    law_mean_is_nonnegative(latencies(state.baseline));
    law_identical_kernels_are_monitored(state.thresholds, averaged(state.baseline));
}

/// A manager without samples monitors, whatever its thresholds.
pub proof fn law_no_samples_are_monitored<T: OrderedNumber>(state: ManagerState<T>)
    requires
        state.baseline.len() == 0,
        state.canary.len() == 0,
    ensures
        state.verdict() == Verdict::Monitoring,
        state.ticked() == state,
{
    let zero = T::whole_spec(0);
    T::lemma_whole_order(0, 0);
    T::lemma_zero_product(zero, zero, state.thresholds.healthy_factor());
    T::lemma_zero_product(zero, zero, state.thresholds.rollback_factor());
}

/// Where the baseline makes no errors, a canary that makes any is rolled back.
pub proof fn law_new_errors_are_rolled_back<T: OrderedNumber>(
    thresholds: Thresholds<T>,
    baseline: Metrics<T>,
    canary: Metrics<T>,
)
    requires
        finite_thresholds(thresholds),
        baseline.error_rate.same_spec(T::whole_spec(0)),
        T::whole_spec(0).below_spec(canary.error_rate),
    ensures
        thresholds.judge(baseline, canary) == Verdict::Rollback,
{
    let zero = T::whole_spec(0);
    let c = canary.error_rate;
    T::lemma_finite(0, thresholds.improvement, thresholds.improvement, thresholds.improvement);
    T::lemma_finite(0, thresholds.degradation, thresholds.degradation, thresholds.degradation);
    T::lemma_zero_product(c, baseline.error_rate, thresholds.healthy_factor());
    T::lemma_zero_product(c, baseline.error_rate, thresholds.rollback_factor());
    T::lemma_order(zero, c, zero);
    T::lemma_order(c, zero, c);
}

/// More errors never earn a canary a better verdict, unless both canaries and the baseline make
/// none, so that latency decides.
pub proof fn law_more_errors_are_never_better<T: OrderedNumber>(
    thresholds: Thresholds<T>,
    baseline: Metrics<T>,
    fewer: Metrics<T>,
    more: Metrics<T>,
)
    requires
        finite_thresholds(thresholds),
        !(Thresholds::<T>::error_free(baseline, fewer) && Thresholds::<T>::error_free(
            baseline,
            more,
        )),
        fewer.error_rate.at_most_spec(more.error_rate),
    ensures
        thresholds.judge(baseline, more).score_spec() <= thresholds.judge(
            baseline,
            fewer,
        ).score_spec(),
{
    let zero = T::whole_spec(0);
    let b = baseline.error_rate;
    let f = fewer.error_rate;
    let m = more.error_rate;
    T::lemma_product_order(f, m, b, thresholds.healthy_factor());
    T::lemma_product_order(f, m, b, thresholds.rollback_factor());
    if Thresholds::<T>::error_free(baseline, fewer) {
        T::lemma_order(f, zero, f);
        T::lemma_order(zero, f, m);
        T::lemma_order(zero, m, zero);
        T::lemma_order(m, zero, m);
        law_new_errors_are_rolled_back(thresholds, baseline, more);
    } else if Thresholds::<T>::error_free(baseline, more) {
        T::lemma_order(m, zero, m);
        T::lemma_order(f, m, zero);
        T::lemma_order(f, zero, f);
        T::lemma_finite(0, thresholds.improvement, thresholds.improvement, thresholds.improvement);
        T::lemma_zero_product(f, b, thresholds.healthy_factor());
    }
}

/// Of two canary windows that differ in their error rates alone, the one that makes as many errors
/// or more in every sample never earns the better verdict.
pub proof fn law_more_errors_in_the_window_are_never_better<T: OrderedNumber>(
    fewer: ManagerState<T>,
    more: ManagerState<T>,
)
    requires
        finite_thresholds(fewer.thresholds),
        fewer.thresholds == more.thresholds,
        fewer.baseline == more.baseline,
        latencies(fewer.canary) == latencies(more.canary),
        pointwise_at_most(error_rates(fewer.canary), error_rates(more.canary)),
        all_finite(error_rates(fewer.canary)),
        all_finite(error_rates(more.canary)),
        fewer.canary.len() <= usize::MAX,
    ensures
        more.verdict().score_spec() <= fewer.verdict().score_spec(),
{
    let b = averaged(fewer.baseline);
    let f = averaged(fewer.canary);
    let m = averaged(more.canary);
    law_mean_is_monotone(error_rates(fewer.canary), error_rates(more.canary));
    if !(Thresholds::<T>::error_free(b, f) && Thresholds::<T>::error_free(b, m)) {
        law_more_errors_are_never_better(fewer.thresholds, b, f, m);
    }
}

/// The average of nonnegative values is nonnegative.
pub proof fn law_mean_is_nonnegative<T: OrderedNumber>(values: Seq<T>)
    requires
        nonnegative(values),
        values.len() <= usize::MAX,
    ensures
        T::whole_spec(0).at_most_spec(mean(values)),
{
    T::lemma_whole_order(0, 0);
    if values.len() > 0 {
        lemma_total_is_nonnegative(values);
        T::lemma_over_monotone(total(values), total(values), values.len() as usize);
    }
}

proof fn lemma_total_is_nonnegative<T: OrderedNumber>(values: Seq<T>)
    requires
        nonnegative(values),
    ensures
        T::whole_spec(0).at_most_spec(total(values)),
    decreases values.len(),
{
    T::lemma_whole_order(0, 0);
    if values.len() > 0 {
        assert forall|i: int| 0 <= i < values.drop_last().len() implies T::whole_spec(
            0,
        ).at_most_spec(#[trigger] values.drop_last()[i]) by {
            assert(values.drop_last()[i] == values[i]);
        }
        lemma_total_is_nonnegative(values.drop_last());
        assert(values.last() == values[values.len() - 1]);
        T::lemma_plus_nonnegative(total(values.drop_last()), values.last());
    }
}

/// The average of finite values is monotone: where no value is greater than its counterpart,
/// neither is the average.
pub proof fn law_mean_is_monotone<T: OrderedNumber>(a: Seq<T>, b: Seq<T>)
    requires
        pointwise_at_most(a, b),
        all_finite(a),
        all_finite(b),
        a.len() <= usize::MAX,
    ensures
        mean(a).at_most_spec(mean(b)),
{
    T::lemma_whole_order(0, 0);
    if a.len() > 0 {
        lemma_total_is_monotone(a, b);
        T::lemma_over_monotone(total(a), total(b), a.len() as usize);
    }
}

proof fn lemma_total_is_monotone<T: OrderedNumber>(a: Seq<T>, b: Seq<T>)
    requires
        pointwise_at_most(a, b),
        all_finite(a),
        all_finite(b),
    ensures
        total(a).at_most_spec(total(b)),
    decreases a.len(),
{
    T::lemma_whole_order(0, 0);
    if a.len() > 0 {
        let x = a.drop_last();
        let y = b.drop_last();
        assert forall|i: int| 0 <= i < x.len() implies (#[trigger] x[i]).finite_spec() by {
            assert(x[i] == a[i]);
        }
        assert forall|i: int| 0 <= i < y.len() implies (#[trigger] y[i]).finite_spec() by {
            assert(y[i] == b[i]);
        }
        assert(pointwise_at_most(x, y)) by {
            assert forall|i: int| 0 <= i < x.len() implies x[i].at_most_spec(y[i]) by {
                assert(x[i] == a[i] && y[i] == b[i]);
            }
        }
        lemma_total_is_monotone(x, y);
        let p = a[a.len() - 1];
        let q = b[b.len() - 1];
        assert(p.at_most_spec(q));
        T::lemma_order(total(x), total(y), total(x));
        T::lemma_plus_defined(total(x), p);
        T::lemma_plus_defined(total(y), q);
        T::lemma_plus_monotone(total(x), total(y), p, q);
    }
}

/// Aggregating finite samples is monotone in each signal on its own.
pub proof fn law_aggregation_is_monotone<T: OrderedNumber>(
    s: Seq<Metrics<T>>,
    t: Seq<Metrics<T>>,
)
    requires
        s.len() <= usize::MAX,
    ensures
        pointwise_at_most(latencies(s), latencies(t)) && all_finite(latencies(s)) && all_finite(
            latencies(t),
        ) ==> averaged(s).latency_us.at_most_spec(averaged(t).latency_us),
        pointwise_at_most(error_rates(s), error_rates(t)) && all_finite(error_rates(s))
            && all_finite(error_rates(t)) ==> averaged(s).error_rate.at_most_spec(
            averaged(t).error_rate,
        ),
        pointwise_at_most(throughputs(s), throughputs(t)) && all_finite(throughputs(s))
            && all_finite(throughputs(t)) ==> averaged(s).throughput.at_most_spec(
            averaged(t).throughput,
        ),
{
    if pointwise_at_most(latencies(s), latencies(t)) && all_finite(latencies(s)) && all_finite(
        latencies(t),
    ) {
        law_mean_is_monotone(latencies(s), latencies(t));
    }
    if pointwise_at_most(error_rates(s), error_rates(t)) && all_finite(error_rates(s))
        && all_finite(error_rates(t)) {
        law_mean_is_monotone(error_rates(s), error_rates(t));
    }
    if pointwise_at_most(throughputs(s), throughputs(t)) && all_finite(throughputs(s))
        && all_finite(throughputs(t)) {
        law_mean_is_monotone(throughputs(s), throughputs(t));
    }
}

/// The average of error rates in [0, 1] is in [0, 1].
pub proof fn law_average_error_rate_stays_a_rate<T: OrderedNumber>(samples: Seq<Metrics<T>>)
    requires
        samples.len() <= usize::MAX,
        nonnegative(error_rates(samples)),
        forall|i: int|
            0 <= i < samples.len() ==> (#[trigger] samples[i]).error_rate.at_most_spec(
                T::whole_spec(1),
            ),
    ensures
        T::whole_spec(0).at_most_spec(averaged(samples).error_rate),
        averaged(samples).error_rate.at_most_spec(T::whole_spec(1)),
{
    let zero = T::whole_spec(0);
    let one = T::whole_spec(1);
    let rates = error_rates(samples);
    law_mean_is_nonnegative(rates);
    T::lemma_whole_order(0, 1);
    if samples.len() > 0 {
        let n = samples.len() as usize;
        let ones = Seq::new(n as nat, |i: int| T::whole_spec(1));
        T::lemma_finite(0, zero, zero, zero);
        T::lemma_finite(1, zero, zero, zero);
        assert forall|i: int| 0 <= i < rates.len() implies (#[trigger] rates[i]).finite_spec()
            && rates[i].at_most_spec(one) by {
            assert(rates[i] == samples[i].error_rate);
            T::lemma_finite(1, zero, rates[i], one);
        }
        law_mean_is_monotone(rates, ones);
        T::lemma_mean_of_ones(n);
        T::lemma_order(mean(rates), mean(ones), one);
    }
}

/// A sample whose signals are integers: latency, error rate and throughput.
pub open spec fn integral_sample<T: OrderedNumber>(signals: (i64, i64, i64)) -> Metrics<T> {
    Metrics {
        latency_us: T::integer_spec(signals.0),
        error_rate: T::integer_spec(signals.1),
        throughput: T::integer_spec(signals.2),
    }
}

/// The samples whose signals are the given integers.
pub open spec fn integral_samples<T: OrderedNumber>(signals: Seq<(i64, i64, i64)>) -> Seq<
    Metrics<T>,
> {
    signals.map_values(|x: (i64, i64, i64)| integral_sample::<T>(x))
}

/// The sum of a signal.
pub open spec fn signal_sum(
    signals: Seq<(i64, i64, i64)>,
    signal: spec_fn((i64, i64, i64)) -> i64,
) -> int {
    signals.fold_left(0int, |sum: int, x: (i64, i64, i64)| sum + signal(x))
}

/// The sum of a signal's magnitudes.
pub open spec fn signal_magnitude(
    signals: Seq<(i64, i64, i64)>,
    signal: spec_fn((i64, i64, i64)) -> i64,
) -> int {
    signals.fold_left(
        0int,
        |sum: int, x: (i64, i64, i64)|
            sum + (if signal(x) < 0 {
                -signal(x)
            } else {
                signal(x) as int
            }),
    )
}

/// The order of samples does not matter where their sums are exact: two arrangements of the same
/// samples have the same average when every signal is an integer and the magnitudes of each signal
/// add up to no more than [`EXACT_INTEGERS`].
pub proof fn law_order_of_integral_samples_does_not_matter<T: OrderedNumber>(
    s: Seq<(i64, i64, i64)>,
    t: Seq<(i64, i64, i64)>,
)
    requires
        s.to_multiset() == t.to_multiset(),
        signal_magnitude(s, |x: (i64, i64, i64)| x.0) <= EXACT_INTEGERS,
        signal_magnitude(s, |x: (i64, i64, i64)| x.1) <= EXACT_INTEGERS,
        signal_magnitude(s, |x: (i64, i64, i64)| x.2) <= EXACT_INTEGERS,
    ensures
        averaged(integral_samples::<T>(s)) == averaged(integral_samples::<T>(t)),
{
    broadcast use vstd::seq_lib::group_to_multiset_ensures;

    let first = |x: (i64, i64, i64)| x.0;
    let second = |x: (i64, i64, i64)| x.1;
    let third = |x: (i64, i64, i64)| x.2;
    assert(s.len() == s.to_multiset().len() && t.len() == t.to_multiset().len());
    lemma_integral_totals_agree::<T>(s, t, first);
    lemma_integral_totals_agree::<T>(s, t, second);
    lemma_integral_totals_agree::<T>(s, t, third);
    let a = integral_samples::<T>(s);
    let b = integral_samples::<T>(t);
    assert(latencies(a) =~= s.map_values(|x: (i64, i64, i64)| T::integer_spec(first(x))));
    assert(latencies(b) =~= t.map_values(|x: (i64, i64, i64)| T::integer_spec(first(x))));
    assert(error_rates(a) =~= s.map_values(|x: (i64, i64, i64)| T::integer_spec(second(x))));
    assert(error_rates(b) =~= t.map_values(|x: (i64, i64, i64)| T::integer_spec(second(x))));
    assert(throughputs(a) =~= s.map_values(|x: (i64, i64, i64)| T::integer_spec(third(x))));
    assert(throughputs(b) =~= t.map_values(|x: (i64, i64, i64)| T::integer_spec(third(x))));
}

proof fn lemma_integral_totals_agree<T: OrderedNumber>(
    s: Seq<(i64, i64, i64)>,
    t: Seq<(i64, i64, i64)>,
    signal: spec_fn((i64, i64, i64)) -> i64,
)
    requires
        s.to_multiset() == t.to_multiset(),
        signal_magnitude(s, signal) <= EXACT_INTEGERS,
    ensures
        total(s.map_values(|x: (i64, i64, i64)| T::integer_spec(signal(x)))) == total(
            t.map_values(|x: (i64, i64, i64)| T::integer_spec(signal(x))),
        ),
{
    let add_signal = |sum: int, x: (i64, i64, i64)| sum + signal(x);
    let add_magnitude = |sum: int, x: (i64, i64, i64)|
        sum + (if signal(x) < 0 {
            -signal(x)
        } else {
            signal(x) as int
        });
    vstd::seq_lib::lemma_fold_left_permutation(s, t, add_signal, 0int);
    vstd::seq_lib::lemma_fold_left_permutation(s, t, add_magnitude, 0int);
    lemma_integral_total::<T>(s, signal);
    lemma_integral_total::<T>(t, signal);
}

proof fn lemma_integral_total<T: OrderedNumber>(
    s: Seq<(i64, i64, i64)>,
    signal: spec_fn((i64, i64, i64)) -> i64,
)
    requires
        signal_magnitude(s, signal) <= EXACT_INTEGERS,
    ensures
        0 <= signal_magnitude(s, signal),
        -signal_magnitude(s, signal) <= signal_sum(s, signal) <= signal_magnitude(s, signal),
        total(s.map_values(|x: (i64, i64, i64)| T::integer_spec(signal(x)))) == T::integer_spec(
            signal_sum(s, signal) as i64,
        ),
    decreases s.len(),
{
    reveal_with_fuel(Seq::fold_left, 2);
    T::lemma_integer_sum(0, 0);
    if s.len() > 0 {
        let rest = s.drop_last();
        let of = |x: (i64, i64, i64)| T::integer_spec(signal(x));
        lemma_magnitude_is_nonnegative(rest, signal);
        lemma_integral_total::<T>(rest, signal);
        assert(s.map_values(of).drop_last() =~= rest.map_values(of));
        T::lemma_integer_sum(signal_sum(rest, signal) as i64, signal(s.last()));
    }
}

proof fn lemma_magnitude_is_nonnegative(
    s: Seq<(i64, i64, i64)>,
    signal: spec_fn((i64, i64, i64)) -> i64,
)
    ensures
        0 <= signal_magnitude(s, signal),
    decreases s.len(),
{
    reveal_with_fuel(Seq::fold_left, 2);
    if s.len() > 0 {
        lemma_magnitude_is_nonnegative(s.drop_last(), signal);
    }
}

} // verus!
