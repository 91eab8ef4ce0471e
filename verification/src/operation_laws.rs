//! What each operation does to its inputs, said without the vocabulary of the other modules: in
//! the operations of the number at hand and in plain sequences.

use vstd::prelude::*;

use crate::manager::{CanaryManager, ManagerState};
use crate::metrics::{averaged, error_rates, latencies, throughputs, total, Metrics};
use crate::number::Number;
use crate::release::CanaryRelease;
use crate::thresholds::Thresholds;
use crate::verdict::Verdict;

verus! {

/// The verdict compares one average of the canary with the same average of the baseline, scaled
/// by the configured thresholds: the error rate, or the latency where both error rates are zero.
/// Nothing else decides, neither how many samples there are nor where the release stands.
pub proof fn law_verdict_compares_the_averages<T: Number>(state: ManagerState<T>)
    ensures
        ({
            let b = averaged(state.baseline);
            let c = averaged(state.canary);
            let zero = T::whole_spec(0);
            let tie = b.error_rate.same_spec(zero) && c.error_rate.same_spec(zero);
            let before = if tie { b.latency_us } else { b.error_rate };
            let now = if tie { c.latency_us } else { c.error_rate };
            let better = now.below_product_spec(
                before,
                T::whole_spec(1).minus_spec(state.thresholds.improvement),
            );
            let worse = now.above_product_spec(
                before,
                T::whole_spec(1).plus_spec(state.thresholds.degradation),
            );
            &&& (state.verdict() == Verdict::Healthy) == better
            &&& (state.verdict() == Verdict::Rollback) == (!better && worse)
            &&& (state.verdict() == Verdict::Monitoring) == (!better && !worse)
        }),
{
}

/// Two managers with the same thresholds and the same averages come to the same verdict, however
/// many samples each of them holds.
pub proof fn law_only_averages_decide<T: Number>(s: ManagerState<T>, t: ManagerState<T>)
    requires
        s.thresholds == t.thresholds,
        averaged(s.baseline) == averaged(t.baseline),
        averaged(s.canary) == averaged(t.canary),
    ensures
        s.verdict() == t.verdict(),
{
}

/// The tie-breaker applies the same rule to latencies that otherwise applies to error rates.
pub proof fn law_tie_breaker_follows_the_same_rule<T: Number>(
    thresholds: Thresholds<T>,
    baseline: Metrics<T>,
    canary: Metrics<T>,
)
    requires
        baseline.error_rate.same_spec(T::whole_spec(0)),
        canary.error_rate.same_spec(T::whole_spec(0)),
        !(baseline.latency_us.same_spec(T::whole_spec(0)) && canary.latency_us.same_spec(
            T::whole_spec(0),
        )),
    ensures
        thresholds.judge(baseline, canary) == thresholds.judge(
            Metrics { error_rate: baseline.latency_us, ..baseline },
            Metrics { error_rate: canary.latency_us, ..canary },
        ),
{
}

/// The default thresholds are one tenth each.
pub proof fn law_default_thresholds_are_one_tenth<T: Number>()
    ensures
        Thresholds::<T>::ten_percent().improvement == T::whole_spec(1).over_spec(10),
        Thresholds::<T>::ten_percent().degradation == T::whole_spec(1).over_spec(10),
{
}

/// Each signal of an aggregate is that signal of the samples, added up from the front starting at
/// zero, and divided by the number of samples.
pub proof fn law_aggregate_adds_up_and_divides<T: Number>(samples: Seq<Metrics<T>>)
    requires
        samples.len() > 0,
    ensures
        averaged(samples).latency_us == samples.fold_left(
            T::whole_spec(0),
            |sum: T, m: Metrics<T>| sum.plus_spec(m.latency_us),
        ).over_spec(samples.len() as usize),
        averaged(samples).error_rate == samples.fold_left(
            T::whole_spec(0),
            |sum: T, m: Metrics<T>| sum.plus_spec(m.error_rate),
        ).over_spec(samples.len() as usize),
        averaged(samples).throughput == samples.fold_left(
            T::whole_spec(0),
            |sum: T, m: Metrics<T>| sum.plus_spec(m.throughput),
        ).over_spec(samples.len() as usize),
{
    let latency = |m: Metrics<T>| m.latency_us;
    let error_rate = |m: Metrics<T>| m.error_rate;
    let throughput = |m: Metrics<T>| m.throughput;
    lemma_total_folds(samples, latency);
    lemma_total_folds(samples, error_rate);
    lemma_total_folds(samples, throughput);
    assert(latencies(samples) =~= samples.map_values(latency));
    assert(error_rates(samples) =~= samples.map_values(error_rate));
    assert(throughputs(samples) =~= samples.map_values(throughput));
    assert((|sum: T, m: Metrics<T>| sum.plus_spec(latency(m))) =~= (|sum: T, m: Metrics<T>|
        sum.plus_spec(m.latency_us)));
    assert((|sum: T, m: Metrics<T>| sum.plus_spec(error_rate(m))) =~= (|sum: T, m: Metrics<T>|
        sum.plus_spec(m.error_rate)));
    assert((|sum: T, m: Metrics<T>| sum.plus_spec(throughput(m))) =~= (|sum: T, m: Metrics<T>|
        sum.plus_spec(m.throughput)));
}

proof fn lemma_total_folds<T: Number>(
    samples: Seq<Metrics<T>>,
    signal: spec_fn(Metrics<T>) -> T,
)
    ensures
        total(samples.map_values(signal)) == samples.fold_left(
            T::whole_spec(0),
            |sum: T, m: Metrics<T>| sum.plus_spec(signal(m)),
        ),
    decreases samples.len(),
{
    reveal_with_fuel(Seq::fold_left, 2);
    if samples.len() > 0 {
        lemma_total_folds(samples.drop_last(), signal);
        assert(samples.map_values(signal).drop_last() =~= samples.drop_last().map_values(signal));
    }
}

/// No samples aggregate to zeros.
pub proof fn law_no_samples_aggregate_to_zeros<T: Number>()
    ensures
        averaged(Seq::<Metrics<T>>::empty()) == (Metrics {
            latency_us: T::whole_spec(0),
            error_rate: T::whole_spec(0),
            throughput: T::whole_spec(0),
        }),
{
}

/// All three signals are aggregated alike: exchanging the signals of every sample exchanges the
/// signals of the aggregate.
pub proof fn law_signals_are_aggregated_alike<T: Number>(samples: Seq<Metrics<T>>)
    ensures
        ({
            let turned = samples.map_values(
                |m: Metrics<T>|
                    Metrics {
                        latency_us: m.error_rate,
                        error_rate: m.throughput,
                        throughput: m.latency_us,
                    },
            );
            &&& averaged(turned).latency_us == averaged(samples).error_rate
            &&& averaged(turned).error_rate == averaged(samples).throughput
            &&& averaged(turned).throughput == averaged(samples).latency_us
        }),
{
    let turned = samples.map_values(
        |m: Metrics<T>|
            Metrics {
                latency_us: m.error_rate,
                error_rate: m.throughput,
                throughput: m.latency_us,
            },
    );
    assert(latencies(turned) =~= error_rates(samples));
    assert(error_rates(turned) =~= throughputs(samples));
    assert(throughputs(turned) =~= latencies(samples));
}

/// A recorded baseline sample joins the baseline's history at the back, just as it is. The oldest
/// sample leaves only where the window has no room for one more. Nothing else changes.
pub proof fn law_recording_a_baseline_sample<T: Number>(
    state: ManagerState<T>,
    sample: Metrics<T>,
)
    ensures
        state.with_baseline(sample).baseline == (if state.baseline.len() < state.window {
            state.baseline + seq![sample]
        } else {
            (state.baseline + seq![sample]).skip(1)
        }),
        state.baseline.len() == 0 && state.window >= 1 ==> state.with_baseline(sample).baseline
            == seq![sample],
        state.with_baseline(sample).canary == state.canary,
        state.with_baseline(sample).release == state.release,
        state.with_baseline(sample).thresholds == state.thresholds,
        state.with_baseline(sample).window == state.window,
{
    assert(state.baseline.push(sample) =~= state.baseline + seq![sample]);
    assert(state.baseline.push(sample).drop_first() =~= (state.baseline + seq![sample]).skip(1));
    assert(state.baseline.len() == 0 ==> state.baseline + seq![sample] =~= seq![sample]);
}

/// A recorded canary sample joins the canary's history at the back, just as it is. The oldest
/// sample leaves only where the window has no room for one more. Nothing else changes.
pub proof fn law_recording_a_canary_sample<T: Number>(state: ManagerState<T>, sample: Metrics<T>)
    ensures
        state.with_canary(sample).canary == (if state.canary.len() < state.window {
            state.canary + seq![sample]
        } else {
            (state.canary + seq![sample]).skip(1)
        }),
        state.canary.len() == 0 && state.window >= 1 ==> state.with_canary(sample).canary
            == seq![sample],
        state.with_canary(sample).baseline == state.baseline,
        state.with_canary(sample).release == state.release,
        state.with_canary(sample).thresholds == state.thresholds,
        state.with_canary(sample).window == state.window,
{
    assert(state.canary.push(sample) =~= state.canary + seq![sample]);
    assert(state.canary.push(sample).drop_first() =~= (state.canary + seq![sample]).skip(1));
    assert(state.canary.len() == 0 ==> state.canary + seq![sample] =~= seq![sample]);
}

/// After a run of baseline samples the baseline's history holds the most recent samples, as many
/// as the window has room for. Nothing else changes.
pub proof fn law_recording_a_run_of_baseline_samples<T: Number>(
    state: ManagerState<T>,
    run: Seq<Metrics<T>>,
)
    requires
        state.baseline.len() <= state.window,
    ensures
        ({
            let after = run.fold_left(
                state,
                |s: ManagerState<T>, m: Metrics<T>| s.with_baseline(m),
            );
            let all = state.baseline + run;
            &&& after.baseline == (if all.len() <= state.window {
                all
            } else {
                all.skip(all.len() - state.window)
            })
            &&& after.canary == state.canary
            &&& after.release == state.release
            &&& after.thresholds == state.thresholds
            &&& after.window == state.window
        }),
    decreases run.len(),
{
    reveal_with_fuel(Seq::fold_left, 2);
    let record = |s: ManagerState<T>, m: Metrics<T>| s.with_baseline(m);
    if run.len() == 0 {
        assert(state.baseline + run =~= state.baseline);
    } else {
        law_recording_a_run_of_baseline_samples(state, run.drop_last());
        let before = run.drop_last().fold_left(state, record);
        law_recording_a_baseline_sample(before, run.last());
        let all = state.baseline + run;
        assert(run.fold_left(state, record) == before.with_baseline(run.last()));
        assert(before.with_baseline(run.last()).baseline =~= (if all.len() <= state.window {
            all
        } else {
            all.skip(all.len() - state.window)
        }));
    }
}

/// After a run of canary samples the canary's history holds the most recent samples, as many as
/// the window has room for. Nothing else changes.
pub proof fn law_recording_a_run_of_canary_samples<T: Number>(
    state: ManagerState<T>,
    run: Seq<Metrics<T>>,
)
    requires
        state.canary.len() <= state.window,
    ensures
        ({
            let after = run.fold_left(
                state,
                |s: ManagerState<T>, m: Metrics<T>| s.with_canary(m),
            );
            let all = state.canary + run;
            &&& after.canary == (if all.len() <= state.window {
                all
            } else {
                all.skip(all.len() - state.window)
            })
            &&& after.baseline == state.baseline
            &&& after.release == state.release
            &&& after.thresholds == state.thresholds
            &&& after.window == state.window
        }),
    decreases run.len(),
{
    reveal_with_fuel(Seq::fold_left, 2);
    let record = |s: ManagerState<T>, m: Metrics<T>| s.with_canary(m);
    if run.len() == 0 {
        assert(state.canary + run =~= state.canary);
    } else {
        law_recording_a_run_of_canary_samples(state, run.drop_last());
        let before = run.drop_last().fold_left(state, record);
        law_recording_a_canary_sample(before, run.last());
        let all = state.canary + run;
        assert(run.fold_left(state, record) == before.with_canary(run.last()));
        assert(before.with_canary(run.last()).canary =~= (if all.len() <= state.window {
            all
        } else {
            all.skip(all.len() - state.window)
        }));
    }
}

/// The two kernels are recorded alike: exchanging their histories exchanges what recording does.
pub proof fn law_kernels_are_recorded_alike<T: Number>(state: ManagerState<T>, sample: Metrics<T>)
    ensures
        ({
            let exchanged = ManagerState { baseline: state.canary, canary: state.baseline, ..state };
            &&& exchanged.with_baseline(sample).baseline == state.with_canary(sample).canary
            &&& exchanged.with_canary(sample).canary == state.with_baseline(sample).baseline
        }),
{
}

/// A release advances unless it is at the last of the four stages or takes 100% of the traffic
/// already. It then takes 25%, 50% or 100%, one stage after the other. Otherwise it stays as it is.
pub proof fn law_advancing_a_release<T: Number>(release: CanaryRelease<T>)
    ensures
        release.can_advance() == (release.stage_index < 3 && !T::whole_spec(100).at_most_spec(
            release.traffic_percent,
        )),
        release.can_advance() ==> {
            &&& release.advanced().stage_index == release.stage_index + 1
            &&& release.stage_index == 0 ==> release.advanced().traffic_percent == T::whole_spec(25)
            &&& release.stage_index == 1 ==> release.advanced().traffic_percent == T::whole_spec(50)
            &&& release.stage_index == 2 ==> release.advanced().traffic_percent == T::whole_spec(
                100,
            )
        },
        !release.can_advance() ==> release.advanced() == release,
        release.advanced().baseline_kernel == release.baseline_kernel,
        release.advanced().canary_kernel == release.canary_kernel,
{
}

/// A rollback leaves the canary without traffic at the first stage, whatever the release was, and
/// keeps its kernel tags.
pub proof fn law_rolling_a_release_back<T: Number>(release: CanaryRelease<T>)
    ensures
        release.rolled_back().traffic_percent == T::whole_spec(0),
        release.rolled_back().stage_index == 0,
        release.rolled_back().baseline_kernel == release.baseline_kernel,
        release.rolled_back().canary_kernel == release.canary_kernel,
{
}

/// The canary takes traffic where its share is above zero, and takes all of it from 100% on. The
/// share alone decides.
pub proof fn law_share_of_traffic_decides<T: Number>(release: CanaryRelease<T>)
    ensures
        release.takes_traffic() == T::whole_spec(0).below_spec(release.traffic_percent),
        release.fully_rolled_out() == T::whole_spec(100).at_most_spec(release.traffic_percent),
{
}

/// Acting on a verdict advances the release, holds it as it is, or rolls it back.
pub proof fn law_acting_on_each_verdict<T: Number>(release: CanaryRelease<T>)
    ensures
        release.after(Verdict::Healthy) == release.advanced(),
        release.after(Verdict::Monitoring) == release,
        release.after(Verdict::Rollback) == release.rolled_back(),
{
}

/// A cycle acts on its own verdict, and on nothing but the release.
pub proof fn law_cycle_moves_the_release_alone<T: Number>(state: ManagerState<T>)
    ensures
        state.verdict() == Verdict::Healthy ==> state.ticked().release == state.release.advanced(),
        state.verdict() == Verdict::Rollback ==> {
            &&& state.ticked().release.traffic_percent == T::whole_spec(0)
            &&& state.ticked().release.stage_index == 0
        },
        state.verdict() == Verdict::Monitoring ==> state.ticked().release == state.release,
        state.ticked().release.baseline_kernel == state.release.baseline_kernel,
        state.ticked().release.canary_kernel == state.release.canary_kernel,
        state.ticked() == (ManagerState { release: state.ticked().release, ..state }),
{
}

/// The three verdicts score `+1`, `0` and `-1`.
pub proof fn law_scores()
    ensures
        Verdict::Healthy.score_spec() == 1,
        Verdict::Monitoring.score_spec() == 0,
        Verdict::Rollback.score_spec() == -1,
{
}

/// A new release carries the given kernel tags and starts at the first stage, with 5% of the
/// traffic.
pub proof fn law_new_release<T: Number>(baseline: &str, canary: &str, release: CanaryRelease<T>)
    requires
        call_ensures(CanaryRelease::<T>::new, (baseline, canary), release),
    ensures
        release.baseline_kernel@ == baseline@,
        release.canary_kernel@ == canary@,
        release.traffic_percent == T::whole_spec(5),
        release.stage_index == 0,
{
}

/// A new manager holds the release, thresholds of one tenth, no samples, and a window of ten.
pub proof fn law_new_manager<T: Number>(release: CanaryRelease<T>, manager: CanaryManager<T>)
    requires
        call_ensures(CanaryManager::<T>::new, (release,), manager),
    ensures
        manager@.release == release,
        manager@.thresholds.improvement == T::whole_spec(1).over_spec(10),
        manager@.thresholds.degradation == T::whole_spec(1).over_spec(10),
        manager@.baseline.len() == 0,
        manager@.canary.len() == 0,
        manager@.window == 10,
{
}

/// Setting thresholds sets them as they are given and changes nothing else.
pub proof fn law_setting_thresholds<T: Number>(
    before: CanaryManager<T>,
    thresholds: Thresholds<T>,
    after: CanaryManager<T>,
)
    requires
        call_ensures(CanaryManager::<T>::with_thresholds, (before, thresholds), after),
    ensures
        after@.thresholds == thresholds,
        after@.release == before@.release,
        after@.baseline == before@.baseline,
        after@.canary == before@.canary,
        after@.window == before@.window,
{
}

/// Setting the window size sets it to the given number, or to one where that is zero, and changes
/// nothing else.
pub proof fn law_setting_the_window_size<T: Number>(
    before: CanaryManager<T>,
    n: usize,
    after: CanaryManager<T>,
)
    requires
        call_ensures(CanaryManager::<T>::with_window_size, (before, n), after),
    ensures
        n > 0 ==> after@.window == n,
        n == 0 ==> after@.window == 1,
        after@.thresholds == before@.thresholds,
        after@.release == before@.release,
        after@.baseline == before@.baseline,
        after@.canary == before@.canary,
{
}

/// A request goes to the canary where its share of the traffic is above zero, and to the baseline
/// otherwise.
pub proof fn law_routing<T: Number>(manager: CanaryManager<T>, kernel: &str)
    requires
        call_ensures(CanaryManager::<T>::route, (&manager,), kernel),
    ensures
        T::whole_spec(0).below_spec(manager@.release.traffic_percent) ==> kernel@ == "canary"@,
        !T::whole_spec(0).below_spec(manager@.release.traffic_percent) ==> kernel@ == "baseline"@,
{
}

/// A snapshot holds the signals that it was made of.
pub proof fn law_new_metrics<T: Number>(latency_us: T, error_rate: T, throughput: T, m: Metrics<T>)
    requires
        call_ensures(Metrics::<T>::new, (latency_us, error_rate, throughput), m),
    ensures
        m.latency_us == latency_us,
        m.error_rate == error_rate,
        m.throughput == throughput,
{
}

/// What is aggregated and handed out are the manager's own histories and release, and what is
/// evaluated are those two aggregates under the manager's own thresholds.
pub proof fn law_observing_a_manager<T: Number>(
    manager: CanaryManager<T>,
    baseline: Metrics<T>,
    canary: Metrics<T>,
    verdict: Verdict,
    release: &CanaryRelease<T>,
)
    requires
        call_ensures(CanaryManager::<T>::aggregate_baseline, (&manager,), baseline),
        call_ensures(CanaryManager::<T>::aggregate_canary, (&manager,), canary),
        call_ensures(CanaryManager::<T>::evaluate, (&manager,), verdict),
        call_ensures(CanaryManager::<T>::release, (&manager,), release),
    ensures
        baseline == averaged(manager@.baseline),
        canary == averaged(manager@.canary),
        ({
            let zero = T::whole_spec(0);
            let tie = baseline.error_rate.same_spec(zero) && canary.error_rate.same_spec(zero);
            let before = if tie { baseline.latency_us } else { baseline.error_rate };
            let now = if tie { canary.latency_us } else { canary.error_rate };
            let better = now.below_product_spec(
                before,
                T::whole_spec(1).minus_spec(manager@.thresholds.improvement),
            );
            let worse = now.above_product_spec(
                before,
                T::whole_spec(1).plus_spec(manager@.thresholds.degradation),
            );
            &&& (verdict == Verdict::Healthy) == better
            &&& (verdict == Verdict::Rollback) == (!better && worse)
        }),
        *release == manager@.release,
{
}

/// A release is fully rolled out from 100% of the traffic on.
pub proof fn law_full_rollout_is_reported<T: Number>(release: CanaryRelease<T>, full: bool)
    requires
        call_ensures(CanaryRelease::<T>::is_fully_rollouted, (&release,), full),
    ensures
        full == T::whole_spec(100).at_most_spec(release.traffic_percent),
{
}

/// An aggregate has each signal added up from the front, starting at zero, and divided by the
/// number of samples.
pub proof fn law_calling_aggregate<T: Number>(samples: &[Metrics<T>], m: Metrics<T>)
    requires
        call_ensures(Metrics::<T>::aggregate, (samples,), m),
        samples@.len() > 0,
    ensures
        m.latency_us == samples@.fold_left(
            T::whole_spec(0),
            |sum: T, x: Metrics<T>| sum.plus_spec(x.latency_us),
        ).over_spec(samples@.len() as usize),
        m.error_rate == samples@.fold_left(
            T::whole_spec(0),
            |sum: T, x: Metrics<T>| sum.plus_spec(x.error_rate),
        ).over_spec(samples@.len() as usize),
        m.throughput == samples@.fold_left(
            T::whole_spec(0),
            |sum: T, x: Metrics<T>| sum.plus_spec(x.throughput),
        ).over_spec(samples@.len() as usize),
{
    law_aggregate_adds_up_and_divides(samples@);
}

/// The default thresholds that are handed out are one tenth each.
pub proof fn law_calling_default<T: Number>(thresholds: Thresholds<T>)
    requires
        call_ensures(<Thresholds<T> as Default>::default, (), thresholds),
    ensures
        thresholds.improvement == T::whole_spec(1).over_spec(10),
        thresholds.degradation == T::whole_spec(1).over_spec(10),
{
}

/// The score that is handed out is `+1`, `0` or `-1`.
pub proof fn law_calling_score(verdict: Verdict, score: i32)
    requires
        call_ensures(Verdict::score, (verdict,), score),
    ensures
        verdict == Verdict::Healthy ==> score == 1,
        verdict == Verdict::Monitoring ==> score == 0,
        verdict == Verdict::Rollback ==> score == -1,
{
}

/// Rolling back takes all traffic from the canary, goes back to the first stage and keeps the
/// kernel tags.
pub proof fn law_calling_rollback<T: Number>(release: &mut CanaryRelease<T>)
    requires
        call_ensures(CanaryRelease::<T>::rollback, (release,), ()),
    ensures
        final(release).traffic_percent == T::whole_spec(0),
        final(release).stage_index == 0,
        final(release).baseline_kernel == old(release).baseline_kernel,
        final(release).canary_kernel == old(release).canary_kernel,
{
}

/// Advancing reports whether it moved. It moves by one stage, to 25%, 50% or 100%, unless the
/// release is at the last stage or takes all traffic; it then leaves the release as it is.
pub proof fn law_calling_advance_stage<T: Number>(release: &mut CanaryRelease<T>, moved: bool)
    requires
        call_ensures(CanaryRelease::<T>::advance_stage, (release,), moved),
    ensures
        moved == (old(release).stage_index < 3 && !T::whole_spec(100).at_most_spec(
            old(release).traffic_percent,
        )),
        !moved ==> *final(release) == *old(release),
        moved ==> {
            &&& final(release).stage_index == old(release).stage_index + 1
            &&& final(release).traffic_percent == (if old(release).stage_index == 0 {
                T::whole_spec(25)
            } else if old(release).stage_index == 1 {
                T::whole_spec(50)
            } else {
                T::whole_spec(100)
            })
            &&& final(release).baseline_kernel == old(release).baseline_kernel
            &&& final(release).canary_kernel == old(release).canary_kernel
        },
{
}

/// Recording a baseline sample puts it, just as it is, behind the baseline's history, whose oldest
/// sample leaves where the window has no room for one more. Nothing else changes.
pub proof fn law_calling_record_baseline<T: Number>(
    manager: &mut CanaryManager<T>,
    sample: Metrics<T>,
)
    requires
        call_ensures(CanaryManager::<T>::record_baseline, (manager, sample), ()),
    ensures
        final(manager)@.baseline == (if old(manager)@.baseline.len() < old(manager)@.window {
            old(manager)@.baseline + seq![sample]
        } else {
            (old(manager)@.baseline + seq![sample]).skip(1)
        }),
        final(manager)@.canary == old(manager)@.canary,
        final(manager)@.release == old(manager)@.release,
        final(manager)@.thresholds == old(manager)@.thresholds,
        final(manager)@.window == old(manager)@.window,
{
    law_recording_a_baseline_sample(old(manager)@, sample);
}

/// Recording a canary sample puts it, just as it is, behind the canary's history, whose oldest
/// sample leaves where the window has no room for one more. Nothing else changes.
pub proof fn law_calling_record_canary<T: Number>(
    manager: &mut CanaryManager<T>,
    sample: Metrics<T>,
)
    requires
        call_ensures(CanaryManager::<T>::record_canary, (manager, sample), ()),
    ensures
        final(manager)@.canary == (if old(manager)@.canary.len() < old(manager)@.window {
            old(manager)@.canary + seq![sample]
        } else {
            (old(manager)@.canary + seq![sample]).skip(1)
        }),
        final(manager)@.baseline == old(manager)@.baseline,
        final(manager)@.release == old(manager)@.release,
        final(manager)@.thresholds == old(manager)@.thresholds,
        final(manager)@.window == old(manager)@.window,
{
    law_recording_a_canary_sample(old(manager)@, sample);
}

/// A cycle comes to the verdict that an evaluation just before it comes to, and acts on it: it
/// advances the release, leaves it without traffic at the first stage, or holds it.
pub proof fn law_calling_tick<T: Number>(
    manager: &mut CanaryManager<T>,
    evaluated: Verdict,
    verdict: Verdict,
)
    requires
        call_ensures(CanaryManager::<T>::evaluate, (&*old(manager),), evaluated),
        call_ensures(CanaryManager::<T>::tick, (manager,), verdict),
    ensures
        verdict == evaluated,
        verdict == Verdict::Healthy ==> final(manager)@.release == old(manager)@.release.advanced(),
        verdict == Verdict::Rollback ==> {
            &&& final(manager)@.release.traffic_percent == T::whole_spec(0)
            &&& final(manager)@.release.stage_index == 0
        },
        verdict == Verdict::Monitoring ==> final(manager)@.release == old(manager)@.release,
        final(manager)@.release.baseline_kernel == old(manager)@.release.baseline_kernel,
        final(manager)@.release.canary_kernel == old(manager)@.release.canary_kernel,
        final(manager)@.baseline == old(manager)@.baseline,
        final(manager)@.canary == old(manager)@.canary,
        final(manager)@.thresholds == old(manager)@.thresholds,
        final(manager)@.window == old(manager)@.window,
{
}

/// What is done to a release through the manager is done to the manager's release, and nothing else
/// of the manager changes.
pub proof fn law_calling_release_mut<T: Number>(
    manager: &mut CanaryManager<T>,
    release: &mut CanaryRelease<T>,
)
    requires
        call_ensures(CanaryManager::<T>::release_mut, (manager,), release),
    ensures
        *old(release) == old(manager)@.release,
        final(manager)@.release == *final(release),
        final(manager)@.baseline == old(manager)@.baseline,
        final(manager)@.canary == old(manager)@.canary,
        final(manager)@.thresholds == old(manager)@.thresholds,
        final(manager)@.window == old(manager)@.window,
{
}

} // verus!
