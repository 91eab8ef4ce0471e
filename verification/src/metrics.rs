//! Metric snapshots and their averages.

use vstd::prelude::*;

use crate::number::Number;

verus! {

/// Metric snapshot collected from a kernel over a sampling window.
#[derive(Debug, Clone)]
pub struct Metrics<T> {
    /// Average latency in microseconds.
    pub latency_us: T,
    /// Error rate in [0, 1].
    pub error_rate: T,
    /// Throughput in ops/sec.
    pub throughput: T,
}

/// The sum of `values`, added up from the front, starting at zero.
pub open spec fn total<T: Number>(values: Seq<T>) -> T
    decreases values.len(),
{
    if values.len() == 0 {
        T::whole_spec(0)
    } else {
        total(values.drop_last()).plus_spec(values.last())
    }
}

/// The average of `values`; zero when there are none.
pub open spec fn mean<T: Number>(values: Seq<T>) -> T {
    if values.len() == 0 {
        T::whole_spec(0)
    } else {
        total(values).over_spec(values.len() as usize)
    }
}

/// The latencies of `samples`, in order.
pub open spec fn latencies<T>(samples: Seq<Metrics<T>>) -> Seq<T> {
    samples.map_values(|m: Metrics<T>| m.latency_us)
}

/// The error rates of `samples`, in order.
pub open spec fn error_rates<T>(samples: Seq<Metrics<T>>) -> Seq<T> {
    samples.map_values(|m: Metrics<T>| m.error_rate)
}

/// The throughputs of `samples`, in order.
pub open spec fn throughputs<T>(samples: Seq<Metrics<T>>) -> Seq<T> {
    samples.map_values(|m: Metrics<T>| m.throughput)
}

/// The snapshot whose every signal is the average of that signal over `samples`.
pub open spec fn averaged<T: Number>(samples: Seq<Metrics<T>>) -> Metrics<T> {
    Metrics {
        latency_us: mean(latencies(samples)),
        error_rate: mean(error_rates(samples)),
        throughput: mean(throughputs(samples)),
    }
}

impl<T: Number> Metrics<T> {
    /// A snapshot with the given signals.
    pub fn new(latency_us: T, error_rate: T, throughput: T) -> (r: Self)
        ensures
            r.latency_us == latency_us,
            r.error_rate == error_rate,
            r.throughput == throughput,
    {
        Metrics { latency_us, error_rate, throughput }
    }

    /// Aggregate multiple metric snapshots into a single averaged snapshot.
    /// No snapshots aggregate to zeros.
    pub fn aggregate(samples: &[Metrics<T>]) -> (r: Self)
        ensures
            r == averaged(samples@),
    {
        if samples.len() == 0 {
            return Metrics::new(T::whole(0), T::whole(0), T::whole(0));
        }
        let n: usize = samples.len();
        let mut latency: T = T::whole(0);
        let mut errors: T = T::whole(0);
        let mut throughput: T = T::whole(0);
        let mut i: usize = 0;
        while i < n
            invariant
                i <= n,
                n == samples@.len(),
                latency == total(latencies(samples@.take(i as int))),
                errors == total(error_rates(samples@.take(i as int))),
                throughput == total(throughputs(samples@.take(i as int))),
            decreases n - i,
        {
            proof {
                let before = samples@.take(i as int);
                let after = samples@.take(i + 1);
                assert(latencies(after).drop_last() =~= latencies(before));
                assert(error_rates(after).drop_last() =~= error_rates(before));
                assert(throughputs(after).drop_last() =~= throughputs(before));
            }
            latency = latency.plus(samples[i].latency_us);
            errors = errors.plus(samples[i].error_rate);
            throughput = throughput.plus(samples[i].throughput);
            i += 1;
        }
        assert(samples@.take(n as int) =~= samples@);
        Metrics::new(latency.over(n), errors.over(n), throughput.over(n))
    }
}

} // verus!
