//! What holds of every rollout, in whatever number it is measured.

use vstd::prelude::*;

use crate::manager::{slid, ManagerState};
use crate::metrics::{averaged, total, Metrics};
use crate::number::Number;
use crate::release::{CanaryRelease, ROLLOUT_STAGES};
use crate::thresholds::Thresholds;
use crate::verdict::Verdict;

verus! {

/// The release after acting on `verdicts`, one after the other.
pub open spec fn after_all<T: Number>(
    release: CanaryRelease<T>,
    verdicts: Seq<Verdict>,
) -> CanaryRelease<T>
    decreases verdicts.len(),
{
    if verdicts.len() == 0 {
        release
    } else {
        after_all(release, verdicts.drop_last()).after(verdicts.last())
    }
}

/// The history after recording `samples`, one after the other.
pub open spec fn slid_all<T>(
    history: Seq<Metrics<T>>,
    samples: Seq<Metrics<T>>,
    window: nat,
) -> Seq<Metrics<T>>
    decreases samples.len(),
{
    if samples.len() == 0 {
        history
    } else {
        slid(slid_all(history, samples.drop_last(), window), samples.last(), window)
    }
}

/// The last `n` elements of `s`, or all of them where there are fewer.
pub open spec fn last_of<A>(s: Seq<A>, n: nat) -> Seq<A> {
    if s.len() <= n {
        s
    } else {
        s.skip(s.len() - n)
    }
}

/// Acting on a verdict keeps a release on schedule and keeps its kernel tags.
pub proof fn law_schedule_is_kept<T: Number>(release: CanaryRelease<T>, verdict: Verdict)
    requires
        release.on_schedule(),
    ensures
        release.after(verdict).on_schedule(),
        release.after(verdict).baseline_kernel == release.baseline_kernel,
        release.after(verdict).canary_kernel == release.canary_kernel,
{
}

/// However a release is driven, it stays on schedule: its traffic share is that of its stage, or
/// zero after a rollback.
pub proof fn law_every_run_stays_on_schedule<T: Number>(
    release: CanaryRelease<T>,
    verdicts: Seq<Verdict>,
)
    requires
        release.on_schedule(),
    ensures
        after_all(release, verdicts).on_schedule(),
        after_all(release, verdicts).baseline_kernel == release.baseline_kernel,
        after_all(release, verdicts).canary_kernel == release.canary_kernel,
    decreases verdicts.len(),
{
    if verdicts.len() > 0 {
        law_every_run_stays_on_schedule(release, verdicts.drop_last());
        law_schedule_is_kept(after_all(release, verdicts.drop_last()), verdicts.last());
    }
}

/// On schedule, a release can advance, and has a later stage, exactly when the canary does not
/// take all traffic.
pub proof fn law_no_stage_left_means_full_rollout<T: Number>(release: CanaryRelease<T>)
    requires
        release.on_schedule(),
    ensures
        release.can_advance() == !release.fully_rolled_out(),
        release.can_advance() == (release.stage_index + 1 < ROLLOUT_STAGES@.len()),
{
    T::lemma_whole_order(100, 0);
    T::lemma_whole_order(100, 5);
    T::lemma_whole_order(100, 25);
    T::lemma_whole_order(100, 50);
    T::lemma_whole_order(100, 100);
}

/// Whatever its stage, a release that takes all traffic cannot advance, and a healthy verdict
/// leaves it as it is.
pub proof fn law_full_rollout_does_not_advance<T: Number>(release: CanaryRelease<T>)
    requires
        release.fully_rolled_out(),
    ensures
        !release.can_advance(),
        release.advanced() == release,
        release.after(Verdict::Healthy) == release,
{
}

/// On schedule, advancing to a further stage gives the canary strictly more traffic.
pub proof fn law_advancing_increases_traffic<T: Number>(release: CanaryRelease<T>)
    requires
        release.on_schedule(),
        release.can_advance(),
    ensures
        release.traffic_percent.below_spec(release.advanced().traffic_percent),
        release.advanced().takes_traffic(),
{
    T::lemma_whole_order(0, 25);
    T::lemma_whole_order(0, 50);
    T::lemma_whole_order(0, 100);
    T::lemma_whole_order(5, 25);
    T::lemma_whole_order(25, 50);
    T::lemma_whole_order(50, 100);
}

/// A new release takes some traffic, but not all of it.
pub proof fn law_first_stage_takes_traffic<T: Number>(release: CanaryRelease<T>)
    requires
        release.traffic_percent == T::whole_spec(ROLLOUT_STAGES@[0]),
    ensures
        release.takes_traffic(),
        !release.fully_rolled_out(),
{
    T::lemma_whole_order(0, 5);
    T::lemma_whole_order(100, 5);
}

/// A rollback takes all traffic from the canary, whatever the stage, and is idempotent.
pub proof fn law_rollback_removes_all_traffic<T: Number>(release: CanaryRelease<T>)
    ensures
        release.rolled_back().traffic_percent == T::whole_spec(0),
        !release.rolled_back().takes_traffic(),
        !release.rolled_back().fully_rolled_out(),
        release.rolled_back().on_schedule(),
        release.rolled_back().rolled_back() == release.rolled_back(),
{
    T::lemma_whole_order(0, 0);
    T::lemma_whole_order(100, 0);
}

/// A release that was rolled back and then advances takes the traffic of the second stage.
pub proof fn law_recovery_resumes_at_the_second_stage<T: Number>(release: CanaryRelease<T>)
    ensures
        release.rolled_back().advanced().traffic_percent == T::whole_spec(ROLLOUT_STAGES@[1]),
        release.rolled_back().advanced().stage_index == 1,
{
    T::lemma_whole_order(100, 0);
}

/// After `verdicts.len()` healthy verdicts in a row a release is that many stages further, or at
/// the last stage.
pub proof fn law_healthy_run_advances_stage_by_stage<T: Number>(
    release: CanaryRelease<T>,
    verdicts: Seq<Verdict>,
)
    requires
        release.on_schedule(),
        forall|i: int| 0 <= i < verdicts.len() ==> verdicts[i] == Verdict::Healthy,
    ensures
        after_all(release, verdicts).stage_index == (if release.stage_index + verdicts.len()
            < ROLLOUT_STAGES@.len() {
            release.stage_index + verdicts.len()
        } else {
            ROLLOUT_STAGES@.len() - 1
        }),
    decreases verdicts.len(),
{
    if verdicts.len() > 0 {
        law_healthy_run_advances_stage_by_stage(release, verdicts.drop_last());
        law_every_run_stays_on_schedule(release, verdicts.drop_last());
        law_no_stage_left_means_full_rollout(after_all(release, verdicts.drop_last()));
        assert(verdicts.last() == Verdict::Healthy);
    }
}

/// A run that ends in as many healthy verdicts as there are stages to climb ends in full
/// rollout, whatever came before.
pub proof fn law_consecutive_healthy_verdicts_reach_full_rollout<T: Number>(
    release: CanaryRelease<T>,
    earlier: Seq<Verdict>,
    healthy: Seq<Verdict>,
)
    requires
        release.on_schedule(),
        healthy.len() >= ROLLOUT_STAGES@.len() - 1,
        forall|i: int| 0 <= i < healthy.len() ==> healthy[i] == Verdict::Healthy,
    ensures
        after_all(release, earlier + healthy).fully_rolled_out(),
{
    law_every_run_stays_on_schedule(release, earlier);
    let start = after_all(release, earlier);
    law_healthy_run_advances_stage_by_stage(start, healthy);
    law_every_run_stays_on_schedule(start, healthy);
    law_no_stage_left_means_full_rollout(after_all(start, healthy));
    lemma_runs_compose(release, earlier, healthy);
}

/// Acting on two runs of verdicts in a row is acting on their concatenation.
proof fn lemma_runs_compose<T: Number>(
    release: CanaryRelease<T>,
    first: Seq<Verdict>,
    second: Seq<Verdict>,
)
    ensures
        after_all(release, first + second) == after_all(after_all(release, first), second),
    decreases second.len(),
{
    if second.len() == 0 {
        assert(first + second =~= first);
    } else {
        lemma_runs_compose(release, first, second.drop_last());
        assert((first + second).drop_last() =~= first + second.drop_last());
    }
}

/// In a cycle `Healthy` advances the release, `Rollback` removes all its traffic and `Monitoring`
/// holds it. Nothing but the release changes.
pub proof fn law_tick_applies_the_verdict<T: Number>(state: ManagerState<T>)
    ensures
        state.verdict() == Verdict::Healthy ==> state.ticked().release == state.release.advanced(),
        state.verdict() == Verdict::Monitoring ==> state.ticked() == state,
        state.verdict() == Verdict::Rollback ==> {
            &&& state.ticked().release == state.release.rolled_back()
            &&& !state.ticked().release.takes_traffic()
        },
        state.ticked().thresholds == state.thresholds,
        state.ticked().baseline == state.baseline,
        state.ticked().canary == state.canary,
        state.ticked().window == state.window,
{
    law_rollback_removes_all_traffic(state.release);
}

/// Without new samples a further cycle comes to the same verdict.
pub proof fn law_cycles_without_samples_agree<T: Number>(state: ManagerState<T>)
    ensures
        state.ticked().verdict() == state.verdict(),
{
}

/// Recording a sample of one kernel leaves the release, the thresholds, the window and the other
/// kernel's history alone.
pub proof fn law_recordings_are_independent<T: Number>(
    state: ManagerState<T>,
    b: Metrics<T>,
    c: Metrics<T>,
)
    ensures
        state.with_baseline(b).canary == state.canary,
        state.with_canary(c).baseline == state.baseline,
        state.with_baseline(b).with_canary(c) == state.with_canary(c).with_baseline(b),
        state.with_baseline(b).release == state.release,
        state.with_canary(c).release == state.release,
        state.with_baseline(b).thresholds == state.thresholds,
        state.with_canary(c).thresholds == state.thresholds,
        state.with_baseline(b).window == state.window,
        state.with_canary(c).window == state.window,
{
}

/// A history that fits the window always holds the most recent samples, as many as the window
/// has room for.
pub proof fn law_window_holds_the_most_recent_samples<T>(
    history: Seq<Metrics<T>>,
    samples: Seq<Metrics<T>>,
    window: nat,
)
    requires
        history.len() <= window,
    ensures
        slid_all(history, samples, window) == last_of(history + samples, window),
        slid_all(history, samples, window).len() <= window,
    decreases samples.len(),
{
    if samples.len() == 0 {
        assert(history + samples =~= history);
    } else {
        law_window_holds_the_most_recent_samples(history, samples.drop_last(), window);
        let before = last_of(history + samples.drop_last(), window);
        assert(slid(before, samples.last(), window) =~= last_of(history + samples, window));
    }
}

/// A history that fills the window, or is longer than it, keeps its length: the sample joins and
/// the oldest one leaves.
pub proof fn law_full_history_keeps_its_length<T>(
    history: Seq<Metrics<T>>,
    sample: Metrics<T>,
    window: nat,
)
    requires
        history.len() >= window,
        history.len() > 0,
    ensures
        slid(history, sample, window) == history.skip(1).push(sample),
        slid(history, sample, window).len() == history.len(),
{
    assert(history.push(sample).drop_first() =~= history.skip(1).push(sample));
}

/// The average of a single sample is that sample, signal by signal, where the signals compare
/// equal to themselves.
pub proof fn law_single_sample_is_its_own_average<T: Number>(sample: Metrics<T>)
    requires
        sample.latency_us.same_spec(sample.latency_us),
        sample.error_rate.same_spec(sample.error_rate),
        sample.throughput.same_spec(sample.throughput),
    ensures
        averaged(seq![sample]).latency_us.same_spec(sample.latency_us),
        averaged(seq![sample]).error_rate.same_spec(sample.error_rate),
        averaged(seq![sample]).throughput.same_spec(sample.throughput),
{
    reveal_with_fuel(total, 2);
    T::lemma_lone_value(sample.latency_us);
    T::lemma_lone_value(sample.error_rate);
    T::lemma_lone_value(sample.throughput);
}

/// Aggregating an aggregate on its own changes nothing, where its signals compare equal to
/// themselves.
pub proof fn law_aggregating_again_changes_nothing<T: Number>(samples: Seq<Metrics<T>>)
    requires
        averaged(samples).latency_us.same_spec(averaged(samples).latency_us),
        averaged(samples).error_rate.same_spec(averaged(samples).error_rate),
        averaged(samples).throughput.same_spec(averaged(samples).throughput),
    ensures
        averaged(seq![averaged(samples)]).latency_us.same_spec(averaged(samples).latency_us),
        averaged(seq![averaged(samples)]).error_rate.same_spec(averaged(samples).error_rate),
        averaged(seq![averaged(samples)]).throughput.same_spec(averaged(samples).throughput),
{
    law_single_sample_is_its_own_average(averaged(samples));
}

/// Throughput never changes the verdict.
pub proof fn law_throughput_is_not_judged<T: Number>(
    thresholds: Thresholds<T>,
    baseline: Metrics<T>,
    canary: Metrics<T>,
    b: T,
    c: T,
)
    ensures
        thresholds.judge(
            Metrics { throughput: b, ..baseline },
            Metrics { throughput: c, ..canary },
        ) == thresholds.judge(baseline, canary),
{
}

/// Unless both error rates are zero, latency does not change the verdict.
pub proof fn law_error_rate_comes_first<T: Number>(
    thresholds: Thresholds<T>,
    baseline: Metrics<T>,
    canary: Metrics<T>,
    b: T,
    c: T,
)
    requires
        !Thresholds::<T>::error_free(baseline, canary),
    ensures
        thresholds.judge(
            Metrics { latency_us: b, ..baseline },
            Metrics { latency_us: c, ..canary },
        ) == thresholds.judge(baseline, canary),
{
}

} // verus!
