//! What holds of verdicts and averages exactly, in decimals.

use vstd::prelude::*;

use crate::decimal::{Decimal, UNITS_PER_ONE};
use crate::manager::ManagerState;
use crate::metrics::{averaged, error_rates, latencies, mean, throughputs, total, Metrics};
use crate::number::Number;
use crate::order::OrderedNumber;
use crate::thresholds::Thresholds;
use crate::verdict::Verdict;

verus! {

/// Whether `x` is a number of units that a decimal can hold.
pub open spec fn in_range(x: int) -> bool {
    i128::MIN <= x <= i128::MAX
}

/// Whether one less `improvement` and one plus `degradation` stay within the range.
pub open spec fn factors_in_range(thresholds: Thresholds<Decimal>) -> bool {
    &&& in_range(UNITS_PER_ONE - thresholds.improvement.units)
    &&& in_range(UNITS_PER_ONE + thresholds.degradation.units)
}

/// The verdict on a signal follows the fractions of the baseline exactly: the canary is healthy
/// below `1 - improvement` times the baseline, and is rolled back above `1 + degradation` times the
/// baseline where it is not healthy.
pub proof fn law_thresholds_are_exact_fractions(
    thresholds: Thresholds<Decimal>,
    baseline: Decimal,
    canary: Decimal,
)
    requires
        factors_in_range(thresholds),
    ensures
        (thresholds.judge_signal(baseline, canary) == Verdict::Healthy) == (canary.units
            * UNITS_PER_ONE < baseline.units * (UNITS_PER_ONE - thresholds.improvement.units)),
        (thresholds.judge_signal(baseline, canary) == Verdict::Rollback) == (
        thresholds.judge_signal(baseline, canary) != Verdict::Healthy && canary.units
            * UNITS_PER_ONE > baseline.units * (UNITS_PER_ONE + thresholds.degradation.units)),
{
}

/// With nonnegative thresholds and a nonnegative baseline no signal is both below the healthy
/// limit and above the rollback limit.
pub proof fn law_limits_do_not_cross(
    thresholds: Thresholds<Decimal>,
    baseline: Decimal,
    canary: Decimal,
)
    requires
        baseline.units >= 0,
        thresholds.improvement.units >= 0,
        thresholds.degradation.units >= 0,
    ensures
        !(canary.below_product_spec(baseline, thresholds.healthy_factor())
            && canary.above_product_spec(baseline, thresholds.rollback_factor())),
{
    Decimal::lemma_product_with_factor(canary, baseline, thresholds.improvement);
    Decimal::lemma_product_with_factor(canary, baseline, thresholds.degradation);
}

/// Under the default thresholds a canary is healthy below 90% of the baseline's error rate and is
/// rolled back above 110% of it, unless neither makes any errors.
pub proof fn law_default_thresholds(baseline: Metrics<Decimal>, canary: Metrics<Decimal>)
    requires
        baseline.error_rate.units >= 0,
        !Thresholds::<Decimal>::error_free(baseline, canary),
    ensures
        (Thresholds::<Decimal>::ten_percent().judge(baseline, canary) == Verdict::Healthy) == (10
            * canary.error_rate.units < 9 * baseline.error_rate.units),
        (Thresholds::<Decimal>::ten_percent().judge(baseline, canary) == Verdict::Rollback) == (10
            * canary.error_rate.units > 11 * baseline.error_rate.units),
{
    lemma_ten_percent(baseline.error_rate, canary.error_rate);
}

/// Under the default thresholds and without errors, a canary is healthy below 90% of the
/// baseline's latency and is rolled back above 110% of it.
pub proof fn law_default_thresholds_on_latency(
    baseline: Metrics<Decimal>,
    canary: Metrics<Decimal>,
)
    requires
        baseline.latency_us.units >= 0,
        Thresholds::<Decimal>::error_free(baseline, canary),
    ensures
        (Thresholds::<Decimal>::ten_percent().judge(baseline, canary) == Verdict::Healthy) == (10
            * canary.latency_us.units < 9 * baseline.latency_us.units),
        (Thresholds::<Decimal>::ten_percent().judge(baseline, canary) == Verdict::Rollback) == (10
            * canary.latency_us.units > 11 * baseline.latency_us.units),
{
    lemma_ten_percent(baseline.latency_us, canary.latency_us);
}

proof fn lemma_ten_percent(baseline: Decimal, canary: Decimal)
    requires
        baseline.units >= 0,
    ensures
        (Thresholds::<Decimal>::ten_percent().judge_signal(baseline, canary) == Verdict::Healthy)
            == (10 * canary.units < 9 * baseline.units),
        (Thresholds::<Decimal>::ten_percent().judge_signal(baseline, canary) == Verdict::Rollback)
            == (10 * canary.units > 11 * baseline.units),
{
    let thresholds = Thresholds::<Decimal>::ten_percent();
    assert(thresholds.improvement.units == 100_000_000_000_000_000);
    assert(thresholds.degradation.units == 100_000_000_000_000_000);
    law_thresholds_are_exact_fractions(thresholds, baseline, canary);
    let b = baseline.units as int;
    assert(b * (1_000_000_000_000_000_000 - 100_000_000_000_000_000)
        == 100_000_000_000_000_000 * (9 * b)) by (nonlinear_arith);
    assert(b * (1_000_000_000_000_000_000 + 100_000_000_000_000_000)
        == 100_000_000_000_000_000 * (11 * b)) by (nonlinear_arith);
}

/// The average of decimals lies between the least and the greatest of them, as long as many of the
/// least do not add up beyond the upper end of the range, nor many of the greatest beyond the
/// lower end.
pub proof fn law_mean_lies_between(values: Seq<Decimal>, low: Decimal, high: Decimal)
    requires
        values.len() > 0,
        values.len() <= usize::MAX,
        forall|i: int|
            0 <= i < values.len() ==> low.units <= (#[trigger] values[i]).units <= high.units,
        values.len() * low.units <= i128::MAX,
        values.len() * high.units >= i128::MIN,
    ensures
        low.units <= mean(values).units <= high.units,
{
    let n = values.len() as int;
    let l = low.units as int;
    let h = high.units as int;
    lemma_total_lies_between(values, low, high, n);
    let t = total(values).units as int;
    vstd::arithmetic::div_mod::lemma_div_is_ordered(n * l, t, n);
    vstd::arithmetic::div_mod::lemma_div_is_ordered(t, n * h, n);
    vstd::arithmetic::div_mod::lemma_div_multiples_vanish(l, n);
    vstd::arithmetic::div_mod::lemma_div_multiples_vanish(h, n);
}

proof fn lemma_total_lies_between(values: Seq<Decimal>, low: Decimal, high: Decimal, n: int)
    requires
        values.len() <= n,
        forall|i: int|
            0 <= i < values.len() ==> low.units <= (#[trigger] values[i]).units <= high.units,
        n * low.units <= i128::MAX,
        n * high.units >= i128::MIN,
    ensures
        values.len() * low.units <= total(values).units <= values.len() * high.units,
    decreases values.len(),
{
    if values.len() > 0 {
        let k = values.len() as int;
        let l = low.units as int;
        let h = high.units as int;
        lemma_total_lies_between(values.drop_last(), low, high, n);
        let last = values.last();
        assert(last == values[k - 1]);
        assert((k - 1) * l + l == k * l && (k - 1) * h + h == k * h) by (nonlinear_arith);
        assert(k * l <= n * l || k * l <= 0) by (nonlinear_arith)
            requires
                0 <= k <= n,
        ;
        assert(k * h >= n * h || k * h >= 0) by (nonlinear_arith)
            requires
                0 <= k <= n,
        ;
    }
}

/// The average of equal decimals is that decimal.
pub proof fn law_mean_of_equal_values(values: Seq<Decimal>, value: Decimal)
    requires
        0 < values.len() <= usize::MAX,
        forall|i: int| 0 <= i < values.len() ==> values[i] == value,
        i128::MIN <= values.len() * value.units <= i128::MAX,
    ensures
        mean(values) == value,
{
    law_mean_lies_between(values, value, value);
}

/// The average of a single sample is exactly that sample.
pub proof fn law_single_sample_is_kept_exactly(sample: Metrics<Decimal>)
    ensures
        averaged(seq![sample]) == sample,
{
    law_mean_of_equal_values(latencies(seq![sample]), sample.latency_us);
    law_mean_of_equal_values(error_rates(seq![sample]), sample.error_rate);
    law_mean_of_equal_values(throughputs(seq![sample]), sample.throughput);
}

/// The sum of the unit counts of `values`, without limits.
pub open spec fn unit_sum(values: Seq<Decimal>) -> int {
    values.fold_left(0int, |sum: int, d: Decimal| sum + d.units)
}

/// Whether no partial sum of `values`, added up from the front, leaves the range.
pub open spec fn sums_in_range(values: Seq<Decimal>) -> bool {
    forall|k: int| 0 <= k <= values.len() ==> in_range(unit_sum(#[trigger] values.take(k)))
}

/// Where no partial sum leaves the range, the total is the sum of the unit counts.
pub proof fn law_total_is_the_sum(values: Seq<Decimal>)
    requires
        sums_in_range(values),
    ensures
        total(values).units == unit_sum(values),
    decreases values.len(),
{
    reveal_with_fuel(Seq::fold_left, 2);
    assert(values.take(values.len() as int) =~= values);
    if values.len() > 0 {
        let rest = values.drop_last();
        assert forall|k: int| 0 <= k <= rest.len() implies in_range(
            unit_sum(#[trigger] rest.take(k)),
        ) by {
            assert(rest.take(k) =~= values.take(k));
        }
        law_total_is_the_sum(rest);
    }
}

/// The order of the samples does not matter: two arrangements of the same samples have the same
/// average, where no partial sum of either leaves the range.
pub proof fn law_sample_order_does_not_matter(
    s: Seq<Metrics<Decimal>>,
    t: Seq<Metrics<Decimal>>,
)
    requires
        s.to_multiset() == t.to_multiset(),
        sums_in_range(latencies(s)) && sums_in_range(latencies(t)),
        sums_in_range(error_rates(s)) && sums_in_range(error_rates(t)),
        sums_in_range(throughputs(s)) && sums_in_range(throughputs(t)),
    ensures
        averaged(s) == averaged(t),
{
    broadcast use vstd::seq_lib::group_to_multiset_ensures;

    assert(s.len() == s.to_multiset().len() && t.len() == t.to_multiset().len());
    lemma_signal_sums_agree(s, t, |m: Metrics<Decimal>| m.latency_us);
    lemma_signal_sums_agree(s, t, |m: Metrics<Decimal>| m.error_rate);
    lemma_signal_sums_agree(s, t, |m: Metrics<Decimal>| m.throughput);
    law_total_is_the_sum(latencies(s));
    law_total_is_the_sum(latencies(t));
    law_total_is_the_sum(error_rates(s));
    law_total_is_the_sum(error_rates(t));
    law_total_is_the_sum(throughputs(s));
    law_total_is_the_sum(throughputs(t));
}

proof fn lemma_signal_sums_agree(
    s: Seq<Metrics<Decimal>>,
    t: Seq<Metrics<Decimal>>,
    signal: spec_fn(Metrics<Decimal>) -> Decimal,
)
    requires
        s.to_multiset() == t.to_multiset(),
    ensures
        unit_sum(s.map_values(signal)) == unit_sum(t.map_values(signal)),
{
    let add_signal = |sum: int, m: Metrics<Decimal>| sum + signal(m).units;
    vstd::seq_lib::lemma_fold_left_permutation(s, t, add_signal, 0int);
    lemma_signal_sum(s, signal);
    lemma_signal_sum(t, signal);
}

proof fn lemma_signal_sum(
    s: Seq<Metrics<Decimal>>,
    signal: spec_fn(Metrics<Decimal>) -> Decimal,
)
    ensures
        unit_sum(s.map_values(signal)) == s.fold_left(
            0int,
            |sum: int, m: Metrics<Decimal>| sum + signal(m).units,
        ),
    decreases s.len(),
{
    reveal_with_fuel(Seq::fold_left, 2);
    if s.len() > 0 {
        lemma_signal_sum(s.drop_last(), signal);
        assert(s.map_values(signal).drop_last() =~= s.drop_last().map_values(signal));
    }
}

/// The verdict on two averages, in units and for any thresholds whose factors stay in range. Where
/// both error rates are zero the latencies decide, otherwise the error rates do: healthy is what is
/// below `1 - improvement` times the baseline; what is not, and is above `1 + degradation` times the
/// baseline, is rolled back.
pub proof fn law_judgement_in_units(
    thresholds: Thresholds<Decimal>,
    baseline: Metrics<Decimal>,
    canary: Metrics<Decimal>,
)
    requires
        i128::MIN <= 1_000_000_000_000_000_000 - thresholds.improvement.units <= i128::MAX,
        i128::MIN <= 1_000_000_000_000_000_000 + thresholds.degradation.units <= i128::MAX,
    ensures
        ({
            let one: int = 1_000_000_000_000_000_000;
            let tie = baseline.error_rate.units == 0 && canary.error_rate.units == 0;
            let b: int = if tie {
                baseline.latency_us.units as int
            } else {
                baseline.error_rate.units as int
            };
            let c: int = if tie {
                canary.latency_us.units as int
            } else {
                canary.error_rate.units as int
            };
            let better = c * one < b * (one - thresholds.improvement.units);
            let worse = c * one > b * (one + thresholds.degradation.units);
            &&& (thresholds.judge(baseline, canary) == Verdict::Healthy) == better
            &&& (thresholds.judge(baseline, canary) == Verdict::Rollback) == (!better && worse)
            &&& (thresholds.judge(baseline, canary) == Verdict::Monitoring) == (!better && !worse)
        }),
{
}

/// The verdict of a manager, in units of the averages of its two histories, for any thresholds
/// whose factors stay in range and whatever the numbers of samples.
pub proof fn law_verdict_in_units(state: ManagerState<Decimal>)
    requires
        i128::MIN <= 1_000_000_000_000_000_000 - state.thresholds.improvement.units <= i128::MAX,
        i128::MIN <= 1_000_000_000_000_000_000 + state.thresholds.degradation.units <= i128::MAX,
    ensures
        ({
            let one: int = 1_000_000_000_000_000_000;
            let baseline = averaged(state.baseline);
            let canary = averaged(state.canary);
            let tie = baseline.error_rate.units == 0 && canary.error_rate.units == 0;
            let b: int = if tie {
                baseline.latency_us.units as int
            } else {
                baseline.error_rate.units as int
            };
            let c: int = if tie {
                canary.latency_us.units as int
            } else {
                canary.error_rate.units as int
            };
            let better = c * one < b * (one - state.thresholds.improvement.units);
            let worse = c * one > b * (one + state.thresholds.degradation.units);
            &&& (state.verdict() == Verdict::Healthy) == better
            &&& (state.verdict() == Verdict::Rollback) == (!better && worse)
            &&& (state.verdict() == Verdict::Monitoring) == (!better && !worse)
        }),
{
    law_judgement_in_units(state.thresholds, averaged(state.baseline), averaged(state.canary));
}

/// Under thresholds of one tenth a manager, whatever the numbers of its samples, is healthy below
/// 90% of the baseline's average and rolls back above 110% of it: of the error rate, or of the
/// latency where both error rates are zero.
pub proof fn law_verdict_under_default_thresholds(state: ManagerState<Decimal>)
    requires
        state.thresholds == Thresholds::<Decimal>::ten_percent(),
        averaged(state.baseline).error_rate.units >= 0,
        averaged(state.baseline).latency_us.units >= 0,
    ensures
        ({
            let baseline = averaged(state.baseline);
            let canary = averaged(state.canary);
            let tie = baseline.error_rate.units == 0 && canary.error_rate.units == 0;
            &&& !tie ==> {
                &&& (state.verdict() == Verdict::Healthy) == (10 * canary.error_rate.units < 9
                    * baseline.error_rate.units)
                &&& (state.verdict() == Verdict::Rollback) == (10 * canary.error_rate.units > 11
                    * baseline.error_rate.units)
            }
            &&& tie ==> {
                &&& (state.verdict() == Verdict::Healthy) == (10 * canary.latency_us.units < 9
                    * baseline.latency_us.units)
                &&& (state.verdict() == Verdict::Rollback) == (10 * canary.latency_us.units > 11
                    * baseline.latency_us.units)
            }
        }),
{
    let baseline = averaged(state.baseline);
    let canary = averaged(state.canary);
    if baseline.error_rate.units == 0 && canary.error_rate.units == 0 {
        law_default_thresholds_on_latency(baseline, canary);
    } else {
        law_default_thresholds(baseline, canary);
    }
}

/// Each signal of an aggregate has as its units the sum of that signal's units, divided by the
/// number of samples and rounded down, where no partial sum leaves the range.
pub proof fn law_aggregate_in_units(samples: Seq<Metrics<Decimal>>)
    requires
        0 < samples.len() <= usize::MAX,
        forall|k: int|
            0 <= k <= samples.len() ==> i128::MIN <= (#[trigger] samples.take(k)).fold_left(
                0int,
                |sum: int, m: Metrics<Decimal>| sum + m.latency_us.units,
            ) <= i128::MAX,
        forall|k: int|
            0 <= k <= samples.len() ==> i128::MIN <= (#[trigger] samples.take(k)).fold_left(
                0int,
                |sum: int, m: Metrics<Decimal>| sum + m.error_rate.units,
            ) <= i128::MAX,
        forall|k: int|
            0 <= k <= samples.len() ==> i128::MIN <= (#[trigger] samples.take(k)).fold_left(
                0int,
                |sum: int, m: Metrics<Decimal>| sum + m.throughput.units,
            ) <= i128::MAX,
    ensures
        averaged(samples).latency_us.units == samples.fold_left(
            0int,
            |sum: int, m: Metrics<Decimal>| sum + m.latency_us.units,
        ) / samples.len() as int,
        averaged(samples).error_rate.units == samples.fold_left(
            0int,
            |sum: int, m: Metrics<Decimal>| sum + m.error_rate.units,
        ) / samples.len() as int,
        averaged(samples).throughput.units == samples.fold_left(
            0int,
            |sum: int, m: Metrics<Decimal>| sum + m.throughput.units,
        ) / samples.len() as int,
{
    let latency = |m: Metrics<Decimal>| m.latency_us;
    let error_rate = |m: Metrics<Decimal>| m.error_rate;
    let throughput = |m: Metrics<Decimal>| m.throughput;
    assert((|sum: int, m: Metrics<Decimal>| sum + latency(m).units) =~= (|
        sum: int,
        m: Metrics<Decimal>,
    | sum + m.latency_us.units));
    assert((|sum: int, m: Metrics<Decimal>| sum + error_rate(m).units) =~= (|
        sum: int,
        m: Metrics<Decimal>,
    | sum + m.error_rate.units));
    assert((|sum: int, m: Metrics<Decimal>| sum + throughput(m).units) =~= (|
        sum: int,
        m: Metrics<Decimal>,
    | sum + m.throughput.units));
    lemma_mean_in_units(samples, latency);
    lemma_mean_in_units(samples, error_rate);
    lemma_mean_in_units(samples, throughput);
    assert(latencies(samples) =~= samples.map_values(latency));
    assert(error_rates(samples) =~= samples.map_values(error_rate));
    assert(throughputs(samples) =~= samples.map_values(throughput));
}

proof fn lemma_mean_in_units(
    samples: Seq<Metrics<Decimal>>,
    signal: spec_fn(Metrics<Decimal>) -> Decimal,
)
    requires
        0 < samples.len() <= usize::MAX,
        forall|k: int|
            0 <= k <= samples.len() ==> i128::MIN <= (#[trigger] samples.take(k)).fold_left(
                0int,
                |sum: int, m: Metrics<Decimal>| sum + signal(m).units,
            ) <= i128::MAX,
    ensures
        mean(samples.map_values(signal)).units == samples.fold_left(
            0int,
            |sum: int, m: Metrics<Decimal>| sum + signal(m).units,
        ) / samples.len() as int,
{
    let values = samples.map_values(signal);
    let n = samples.len() as int;
    assert forall|k: int| 0 <= k <= values.len() implies in_range(
        unit_sum(#[trigger] values.take(k)),
    ) by {
        lemma_signal_sum(samples.take(k), signal);
        assert(values.take(k) =~= samples.take(k).map_values(signal));
    }
    law_total_is_the_sum(values);
    lemma_signal_sum(samples, signal);
    let sum = unit_sum(values);
    assert(samples.take(n) =~= samples);
    lemma_quotient_in_range(sum, n);
}

proof fn lemma_quotient_in_range(x: int, n: int)
    requires
        i128::MIN <= x <= i128::MAX,
        n > 0,
    ensures
        i128::MIN <= x / n <= i128::MAX,
{
    vstd::arithmetic::div_mod::lemma_fundamental_div_mod(x, n);
    vstd::arithmetic::div_mod::lemma_mod_bound(x, n);
    let q = x / n;
    let m = x % n;
    assert(i128::MIN <= q <= i128::MAX) by (nonlinear_arith)
        requires
            x == n * q + m,
            0 <= m < n,
            n > 0,
            i128::MIN <= x <= i128::MAX,
    ;
}

/// Each signal of an aggregate lies between the least and the greatest of that signal, as long as
/// many of the least do not add up beyond the upper end of the range, nor many of the greatest
/// beyond the lower end.
pub proof fn law_aggregate_lies_between(
    samples: Seq<Metrics<Decimal>>,
    low: Metrics<Decimal>,
    high: Metrics<Decimal>,
)
    requires
        0 < samples.len() <= usize::MAX,
        forall|i: int|
            0 <= i < samples.len() ==> {
                let m = #[trigger] samples[i];
                &&& low.latency_us.units <= m.latency_us.units <= high.latency_us.units
                &&& low.error_rate.units <= m.error_rate.units <= high.error_rate.units
                &&& low.throughput.units <= m.throughput.units <= high.throughput.units
            },
        samples.len() * low.latency_us.units <= i128::MAX,
        samples.len() * high.latency_us.units >= i128::MIN,
        samples.len() * low.error_rate.units <= i128::MAX,
        samples.len() * high.error_rate.units >= i128::MIN,
        samples.len() * low.throughput.units <= i128::MAX,
        samples.len() * high.throughput.units >= i128::MIN,
    ensures
        low.latency_us.units <= averaged(samples).latency_us.units <= high.latency_us.units,
        low.error_rate.units <= averaged(samples).error_rate.units <= high.error_rate.units,
        low.throughput.units <= averaged(samples).throughput.units <= high.throughput.units,
{
    law_mean_lies_between(latencies(samples), low.latency_us, high.latency_us);
    law_mean_lies_between(error_rates(samples), low.error_rate, high.error_rate);
    law_mean_lies_between(throughputs(samples), low.throughput, high.throughput);
}

/// Sums and differences of decimals are those of their units, up to the ends of the range.
/// Quotients are rounded down. Comparisons, also with a product, are those of the exact numbers.
pub proof fn law_decimal_arithmetic(x: Decimal, y: Decimal, z: Decimal, n: usize)
    requires
        n > 0,
    ensures
        i128::MIN <= x.units + y.units <= i128::MAX ==> x.plus_spec(y).units == x.units + y.units,
        x.units + y.units > i128::MAX ==> x.plus_spec(y).units == i128::MAX,
        x.units + y.units < i128::MIN ==> x.plus_spec(y).units == i128::MIN,
        i128::MIN <= x.units - y.units <= i128::MAX ==> x.minus_spec(y).units == x.units - y.units,
        x.units - y.units > i128::MAX ==> x.minus_spec(y).units == i128::MAX,
        x.units - y.units < i128::MIN ==> x.minus_spec(y).units == i128::MIN,
        x.over_spec(n).units * n <= x.units < (x.over_spec(n).units + 1) * n,
        x.below_spec(y) == (x.units < y.units),
        x.at_most_spec(y) == (x.units <= y.units),
        x.same_spec(y) == (x.units == y.units),
        x.below_product_spec(y, z) == (x.units * 1_000_000_000_000_000_000 < y.units * z.units),
        x.above_product_spec(y, z) == (x.units * 1_000_000_000_000_000_000 > y.units * z.units),
{
    let a = x.units as int;
    let d = n as int;
    lemma_quotient_in_range(a, d);
    vstd::arithmetic::div_mod::lemma_fundamental_div_mod(a, d);
    vstd::arithmetic::div_mod::lemma_mod_bound(a, d);
    let q = a / d;
    assert(q * d <= a < (q + 1) * d) by (nonlinear_arith)
        requires
            a == d * q + a % d,
            0 <= a % d < d,
    ;
}

/// Whole numbers and millionths hold their value, counted in units of `10^-18`.
pub proof fn law_decimal_values(n: u32, m: i64)
    ensures
        Decimal::whole_spec(n).units == n * 1_000_000_000_000_000_000,
        Decimal::millionths_spec(m).units == m * 1_000_000_000_000,
        Decimal::integer_spec(m).units == m * 1_000_000_000_000_000_000,
        10 * Thresholds::<Decimal>::ten_percent().improvement.units == 1_000_000_000_000_000_000,
        10 * Thresholds::<Decimal>::ten_percent().degradation.units == 1_000_000_000_000_000_000,
{
}

} // verus!
