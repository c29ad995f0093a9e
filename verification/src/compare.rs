//! Comparison of a run's median with the median of the previous run.
use vstd::prelude::*;

verus! {

/// How a run compares with the previous one.
#[derive(PartialEq, Eq, Structural, Clone, Copy, Debug)]
pub enum Verdict {
    Faster,
    Same,
    Slower,
}

/// The verdict for a median of `median` nanoseconds against a previous
/// median of `prev` nanoseconds. The change in percent is
/// `100 * (median - prev) / prev`; below -5% the run is faster, above +5% it
/// is slower, otherwise the same. Without multiplying out the division: a
/// change `d = median - prev` is faster when `20 * d < -prev` and slower when
/// `20 * d > prev` (so against a previous median of zero any increase is
/// slower and no change is the same).
pub open spec fn verdict_of(prev: int, median: int) -> Verdict {
    let d = median - prev;
    if 20 * d < -prev {
        Verdict::Faster
    } else if 20 * d > prev {
        Verdict::Slower
    } else {
        Verdict::Same
    }
}

/// The word that stands for a verdict in reports and result files.
pub open spec fn verdict_word(v: Verdict) -> Seq<char> {
    match v {
        Verdict::Faster => "faster"@,
        Verdict::Same => "same"@,
        Verdict::Slower => "SLOWER"@,
    }
}

/// Position of a verdict from fastest to slowest.
pub open spec fn verdict_rank(v: Verdict) -> int {
    match v {
        Verdict::Faster => 0,
        Verdict::Same => 1,
        Verdict::Slower => 2,
    }
}

/// The comparison of a run's median with the previous run's median.
pub struct Comparison {
    /// `"faster"`, `"same"` or `"SLOWER"`.
    pub verdict: &'static str,
    pub kind: Verdict,
    /// The previous median, in nanoseconds.
    pub prev_ns: u64,
    /// This run's median, in nanoseconds.
    pub median_ns: u64,
    /// `median_ns - prev_ns`: negative when this run is faster.
    pub diff_ns: i128,
}

impl Verdict {
    /// The word for this verdict (`"faster"`, `"same"` or `"SLOWER"`).
    pub fn word(&self) -> (r: &'static str)
        ensures
            r@ == verdict_word(*self),
    {
        match self {
            Verdict::Faster => "faster",
            Verdict::Same => "same",
            Verdict::Slower => "SLOWER",
        }
    }
}

/// Compares this run's median (`median_ns`) with the previous run's median
/// (`prev_ns`), both in nanoseconds.
pub fn compare_to_previous(prev_ns: u64, median_ns: u64) -> (r: Comparison)
    ensures
        r.kind == verdict_of(prev_ns as int, median_ns as int),
        r.verdict@ == verdict_word(r.kind),
        r.prev_ns == prev_ns,
        r.median_ns == median_ns,
        r.diff_ns == median_ns - prev_ns,
{
    let diff: i128 = median_ns as i128 - prev_ns as i128;
    let twenty_diff: i128 = 20 * diff;
    let prev: i128 = prev_ns as i128;
    let kind: Verdict = if twenty_diff < -prev {
        Verdict::Faster
    } else if twenty_diff > prev {
        Verdict::Slower
    } else {
        Verdict::Same
    };
    Comparison { verdict: kind.word(), kind, prev_ns, median_ns, diff_ns: diff }
}

/// An unchanged median is judged the same.
pub proof fn lemma_unchanged_is_same(prev: u64)
    ensures
        verdict_of(prev as int, prev as int) == Verdict::Same,
{
}

/// The verdict never gets better as the median grows: a slower (larger)
/// median never gets a faster verdict than a smaller one.
pub proof fn lemma_verdict_monotone(prev: u64, m1: u64, m2: u64)
    requires
        m1 <= m2,
    ensures
        verdict_rank(verdict_of(prev as int, m1 as int)) <= verdict_rank(
            verdict_of(prev as int, m2 as int),
        ),
{
}

/// A run is judged the same exactly when its median is within 5% of the
/// previous median, and faster or slower as its median lies below or above
/// that band.
pub proof fn lemma_verdict_band(prev: u64, median: u64)
    ensures
        verdict_of(prev as int, median as int) == Verdict::Same <==> 20 * (median - prev) <= prev
            && 20 * (prev - median) <= prev,
        verdict_of(prev as int, median as int) == Verdict::Faster ==> median < prev,
        verdict_of(prev as int, median as int) == Verdict::Slower ==> median > prev,
{
}

} // verus!
