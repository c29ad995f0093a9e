//! The measurement loop: a warmup phase, then a timed phase that records
//! the time of each iteration, each phase ending at whichever of its stop
//! conditions fires first.
use std::time::Instant;

use vstd::prelude::*;

use crate::config::{Bencher, BencherView};
use crate::stats::{summarizes, BenchResult};

verus! {

/// A point in time of the monotonic clock; only differences are read.
#[verifier::external_type_specification]
#[verifier::external_body]
pub struct ExInstant(Instant);

/// The current time of the monotonic clock (`Instant::now`). Nothing is
/// stated of the reading.
#[verifier::external_body]
fn clock_now() -> Instant {
    Instant::now()
}

/// Nanoseconds elapsed since `start` (`Instant::elapsed`, then
/// `Duration::as_nanos`). Nothing is stated of the reading: it depends on the
/// clock.
#[verifier::external_body]
fn nanos_since(start: &Instant) -> u128 {
    start.elapsed().as_nanos()
}

/// Hands a value to the optimizer barrier (`std::hint::black_box`) so that
/// the computation that produced it is not removed.
#[verifier::external_body]
fn keep<R>(value: R) {
    std::hint::black_box(value);
}

/// Nanoseconds in a millisecond.
pub const NANOS_PER_MILLI: u128 = 1_000_000;

/// A phase is over once its time limit (in milliseconds) has elapsed, or
/// once it has run as many iterations as its cap allows.
pub open spec fn phase_over(
    time_limit_ms: Option<u64>,
    iter_cap: Option<u64>,
    elapsed_ns: u128,
    count: u64,
) -> bool {
    ||| (time_limit_ms matches Some(t) && elapsed_ns >= t * NANOS_PER_MILLI)
    ||| (iter_cap matches Some(m) && count >= m)
}

/// Decides whether a phase is over (see [`phase_over`]).
pub fn phase_finished(
    time_limit_ms: Option<u64>,
    iter_cap: Option<u64>,
    elapsed_ns: u128,
    count: u64,
) -> (r: bool)
    ensures
        r == phase_over(time_limit_ms, iter_cap, elapsed_ns, count),
{
    let by_time: bool = match time_limit_ms {
        Some(t) => elapsed_ns >= (t as u128) * NANOS_PER_MILLI,
        None => false,
    };
    let by_count: bool = match iter_cap {
        Some(m) => count >= m,
        None => false,
    };
    by_time || by_count
}

/// The time of one iteration in nanoseconds as a `u64`; an iteration that
/// took longer than `u64::MAX` nanoseconds (over 584 years) is recorded as
/// `u64::MAX`.
pub open spec fn sample_of(elapsed_ns: u128) -> u64 {
    if elapsed_ns > u64::MAX {
        u64::MAX
    } else {
        elapsed_ns as u64
    }
}

/// What a run yields for a configuration: the statistics of at least one
/// timed sample, no more of them than the iteration cap allows, and exactly
/// that many when there is no time limit; and a warmup count no larger than
/// the warmup cap, and equal to it when there is no warmup time limit.
pub open spec fn measured(r: BenchResult, config: BencherView) -> bool {
    &&& exists|s: Seq<u64>| summarizes(r, config.name, s)
    &&& r.iterations >= 1
    &&& (config.iters matches Some(n) ==> r.iterations <= n)
    &&& (config.time_ms is None && config.iters is Some ==> r.iterations == config.iters->0)
    &&& (config.warmup_iters matches Some(w) ==> r.warmup_iterations <= w)
    &&& (config.warmup_time_ms is None && config.warmup_iters is Some ==> r.warmup_iterations
        == config.warmup_iters->0)
}

/// The configurations a run can produce statistics for: each phase has a
/// stop condition, and neither the timed phase's time limit nor its
/// iteration cap is zero (with either at zero no iteration is timed, and
/// there is no mean to take).
pub open spec fn can_measure(config: BencherView) -> bool {
    &&& config.phases_bounded()
    &&& config.time_ms != Some(0u64)
    &&& config.iters != Some(0u64)
}

/// The elapsed times (in nanoseconds) a phase read at its checks, in
/// order, obey the stop rule: the check made after `k` iterations, for each
/// `k` before the last, found the phase not over, and the last check found
/// it over, or came after `u64::MAX` iterations. So the phase ran as many
/// iterations as there are checks before the last.
pub open spec fn stop_rule(time_limit_ms: Option<u64>, iter_cap: Option<u64>, checks: Seq<u128>) -> bool {
    &&& checks.len() >= 1
    &&& forall|k: int|
        0 <= k < checks.len() - 1 ==> !phase_over(
            time_limit_ms,
            iter_cap,
            #[trigger] checks[k],
            k as u64,
        )
    &&& (phase_over(time_limit_ms, iter_cap, checks.last(), (checks.len() - 1) as u64)
        || checks.len() - 1 == u64::MAX)
}

/// A benchmark run: the statistics of its timed iterations, when there
/// were any, and the elapsed times its warmup phase and its timed phase
/// read at their checks.
pub struct Run {
    pub result: Option<BenchResult>,
    pub warmup_checks: Ghost<Seq<u128>>,
    pub checks: Ghost<Seq<u128>>,
}

/// `run` is what the two phases of `config` give: each phase stopped by
/// the stop rule over the readings it saw; with timed iterations, their
/// statistics with as many samples, and as many warmup iterations, as
/// there were checks before the last; without, the one check of the timed
/// phase found its time limit already passed.
pub open spec fn ran(config: BencherView, run: Run) -> bool {
    &&& stop_rule(config.warmup_time_ms, config.warmup_iters, run.warmup_checks@)
    &&& stop_rule(config.time_ms, config.iters, run.checks@)
    &&& match run.result {
        Some(res) => {
            &&& measured(res, config)
            &&& res.iterations == run.checks@.len() - 1
            &&& res.warmup_iterations == run.warmup_checks@.len() - 1
        },
        None => {
            &&& run.checks@.len() == 1
            &&& config.time_ms matches Some(t)
            &&& run.checks@[0] >= t * NANOS_PER_MILLI
        },
    }
}

impl Bencher {
    /// Runs `f` until the warmup phase is over, then runs and times it until
    /// the timed phase is over, and returns the statistics of the timed runs
    /// with the number of warmup runs.
    ///
    /// Before each iteration a phase reads the time elapsed since it began;
    /// it ends at the first check where either of its stop conditions holds
    /// (see [`stop_rule`]), or after `u64::MAX` iterations. No statistics
    /// when the timed phase ends before its first iteration, which only a
    /// time limit that has passed by the first check can bring about: there
    /// is no mean to take then.
    pub fn bench<F: FnMut() -> R, R>(self, f: F) -> (r: Run)
        requires
            can_measure(self@),
            f.requires(()),
        ensures
            ran(self@, r),
    {
        let mut f = f;
        let warmup_time_ms: Option<u64> = self.warmup_time_ms();
        let warmup_iters: Option<u64> = self.warmup_iters();
        let time_ms: Option<u64> = self.bench_time_ms();
        let iters: Option<u64> = self.iters();

        // Warmup: run until the warmup time is reached or the warmup cap is hit.
        let warmup_start = clock_now();
        let mut warmup_count: u64 = 0;
        let ghost mut warmup_checks: Seq<u128> = Seq::empty();
        loop
            invariant_except_break
                f.requires(()),
                warmup_iters matches Some(w) ==> warmup_count <= w,
                warmup_checks.len() == warmup_count,
                forall|k: int|
                    0 <= k < warmup_checks.len() ==> !phase_over(
                        warmup_time_ms,
                        warmup_iters,
                        #[trigger] warmup_checks[k],
                        k as u64,
                    ),
            ensures
                f.requires(()),
                warmup_iters matches Some(w) ==> warmup_count <= w,
                warmup_time_ms is None && warmup_iters is Some ==> warmup_count == warmup_iters->0,
                warmup_checks.len() == warmup_count + 1,
                stop_rule(warmup_time_ms, warmup_iters, warmup_checks),
            decreases u64::MAX - warmup_count,
        {
            let elapsed: u128 = nanos_since(&warmup_start);
            proof {
                warmup_checks = warmup_checks.push(elapsed);
            }
            if phase_finished(warmup_time_ms, warmup_iters, elapsed, warmup_count)
                || warmup_count == u64::MAX {
                break;
            }
            keep(f());
            warmup_count = warmup_count + 1;
        }

        // Timed runs: run until the bench time is reached or the cap is hit.
        let mut times: Vec<u64> = Vec::new();
        let mut count: u64 = 0;
        let bench_start = clock_now();
        let ghost mut checks: Seq<u128> = Seq::empty();
        loop
            invariant_except_break
                f.requires(()),
                times@.len() == count,
                iters matches Some(n) ==> count <= n,
                iters != Some(0u64),
                checks.len() == count,
                forall|k: int|
                    0 <= k < checks.len() ==> !phase_over(
                        time_ms,
                        iters,
                        #[trigger] checks[k],
                        k as u64,
                    ),
            ensures
                times@.len() == count,
                iters matches Some(n) ==> count <= n,
                time_ms is None && iters is Some ==> count == iters->0,
                checks.len() == count + 1,
                stop_rule(time_ms, iters, checks),
                count == 0 ==> (time_ms matches Some(t) && checks[0] >= t * NANOS_PER_MILLI),
            decreases u64::MAX - count,
        {
            let elapsed: u128 = nanos_since(&bench_start);
            proof {
                checks = checks.push(elapsed);
            }
            if phase_finished(time_ms, iters, elapsed, count) || count == u64::MAX {
                break;
            }
            let start = clock_now();
            keep(f());
            let took: u128 = nanos_since(&start);
            let sample: u64 = if took > u64::MAX as u128 {
                u64::MAX
            } else {
                took as u64
            };
            times.push(sample);
            count = count + 1;
        }
        if count == 0 {
            return Run { result: None, warmup_checks: Ghost(warmup_checks), checks: Ghost(checks) };
        }
        let ghost samples = times@;
        let name = self.name().to_owned();
        let r = BenchResult::from_samples(name, times);
        assert(summarizes(r, self@.name, samples));
        let r = BenchResult { warmup_iterations: warmup_count, ..r };
        assert(summarizes(r, self@.name, samples));
        Run { result: Some(r), warmup_checks: Ghost(warmup_checks), checks: Ghost(checks) }
    }

    /// Runs a labeled benchmark variant without consuming `self`: the same
    /// limits, under the name `"<name>/<label>"` (see [`Bencher::bench`]).
    pub fn bench_labeled<F: FnMut() -> R, R>(&self, label: &str, f: F) -> (r: Run)
        requires
            can_measure(self@),
            f.requires(()),
        ensures
            ran(BencherView { name: self@.name + seq!['/'] + label@, ..self@ }, r),
    {
        let labeled = self.labeled(label);
        labeled.bench(f)
    }
}

} // verus!
