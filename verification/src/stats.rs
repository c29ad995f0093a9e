//! Statistics of a benchmark run, computed from the measured iteration
//! times (in nanoseconds).
use vstd::prelude::*;
use vstd::relations::{sorted_by, total_ordering};

verus! {

/// The order in which samples are sorted: ascending.
pub open spec fn ns_order() -> spec_fn(u64, u64) -> bool {
    |a: u64, b: u64| a <= b
}

/// The samples in ascending order.
pub open spec fn sorted_ns(s: Seq<u64>) -> Seq<u64> {
    s.sort_by(ns_order())
}

/// The sum of the samples.
pub open spec fn sum_ns(s: Seq<u64>) -> nat
    decreases s.len(),
{
    if s.len() == 0 {
        0
    } else {
        sum_ns(s.drop_last()) + s.last() as nat
    }
}

/// The mean of the samples, rounded down.
pub open spec fn mean_ns(s: Seq<u64>) -> int
    recommends
        s.len() > 0,
{
    sum_ns(s) as int / s.len() as int
}

/// The element at position `k` of the samples in ascending order (the
/// `k`-th smallest, counting from zero).
pub open spec fn order_stat(s: Seq<u64>, k: int) -> u64
    recommends
        0 <= k < s.len(),
{
    sorted_ns(s)[k]
}

/// Statistics from a benchmark run. All times are in nanoseconds.
#[derive(Debug)]
pub struct BenchResult {
    pub name: String,
    pub iterations: usize,
    pub total: u128,
    pub mean: u64,
    pub min: u64,
    pub max: u64,
    pub median: u64,
    /// How many untimed warmup iterations ran before the timed ones.
    pub warmup_iterations: u64,
}

/// `r` holds the statistics of the samples `s` for the benchmark `name`:
/// their count and sum, the mean rounded down, and the smallest, largest
/// and middle (the element at position `len / 2` in ascending order)
/// sample.
pub open spec fn summarizes(r: BenchResult, name: Seq<char>, s: Seq<u64>) -> bool {
    &&& s.len() > 0
    &&& r.name@ == name
    &&& r.iterations == s.len()
    &&& r.total == sum_ns(s)
    &&& r.mean == mean_ns(s)
    &&& r.min == order_stat(s, 0)
    &&& r.max == order_stat(s, s.len() - 1)
    &&& r.median == order_stat(s, s.len() as int / 2)
}

pub proof fn lemma_ns_order_total()
    ensures
        total_ordering(ns_order()),
{
}

/// Sorting a sequence of samples yields exactly `sorted_ns` of it.
pub proof fn lemma_sorted_is_sorted_ns(s: Seq<u64>, t: Seq<u64>)
    requires
        sorted_by(t, ns_order()),
        t.to_multiset() == s.to_multiset(),
    ensures
        t == sorted_ns(s),
{
    lemma_ns_order_total();
    s.lemma_sort_by_ensures(ns_order());
    vstd::seq_lib::lemma_sorted_unique(t, sorted_ns(s), ns_order());
}

/// The sum of `n` samples is at most `n` times the largest `u64`.
pub proof fn lemma_sum_bound(s: Seq<u64>)
    ensures
        sum_ns(s) <= s.len() * (u64::MAX as int),
    decreases s.len(),
{
    if s.len() > 0 {
        lemma_sum_bound(s.drop_last());
    }
}

/// The sum of a sequence extended by one element.
pub proof fn lemma_sum_push(s: Seq<u64>, x: u64)
    ensures
        sum_ns(s.push(x)) == sum_ns(s) + x,
{
    assert(s.push(x).drop_last() =~= s);
}

/// Sorts samples in ascending order (`slice::sort`): the result is sorted
/// and holds the same samples, each as often as before.
#[verifier::external_body]
fn sort_samples(v: &mut Vec<u64>)
    ensures
        sorted_by(final(v)@, ns_order()),
        final(v)@.to_multiset() == old(v)@.to_multiset(),
{
    v.sort();
}

/// The sum of the samples, in a type that cannot overflow for any number
/// of `u64` samples that fits in memory.
pub fn total_of(samples: &Vec<u64>) -> (r: u128)
    ensures
        r == sum_ns(samples@),
{
    let mut total: u128 = 0;
    let mut i: usize = 0;
    while i < samples.len()
        invariant
            i <= samples.len(),
            total == sum_ns(samples@.take(i as int)),
        decreases samples.len() - i,
    {
        proof {
            lemma_sum_push(samples@.take(i as int), samples@[i as int]);
            assert(samples@.take(i as int).push(samples@[i as int]) =~= samples@.take(i + 1));
            lemma_sum_bound(samples@.take(i + 1));
            assert((i + 1) * (u64::MAX as int) <= (usize::MAX as int) * (u64::MAX as int))
                by (nonlinear_arith)
                requires
                    i + 1 <= usize::MAX,
            ;
        }
        total = total + samples[i] as u128;
        i = i + 1;
    }
    assert(samples@.take(samples.len() as int) =~= samples@);
    total
}

impl BenchResult {
    /// The statistics of a run of benchmark `name` that measured `samples`
    /// (at least one: without samples there is no mean), with no warmup.
    pub fn from_samples(name: String, samples: Vec<u64>) -> (r: BenchResult)
        requires
            samples@.len() > 0,
        ensures
            summarizes(r, name@, samples@),
            r.warmup_iterations == 0,
    {
        let ghost s = samples@;
        let total: u128 = total_of(&samples);
        let n: usize = samples.len();
        let mut sorted = samples;
        sort_samples(&mut sorted);
        proof {
            lemma_sorted_is_sorted_ns(s, sorted@);
            sorted@.to_multiset_ensures();
            s.to_multiset_ensures();
            assert(sorted@.len() == s.len());
        }
        proof {
            lemma_sum_bound(s);
            assert(sum_ns(s) as int / (n as int) <= u64::MAX) by (nonlinear_arith)
                requires
                    sum_ns(s) <= n * (u64::MAX as int),
                    n > 0,
            ;
        }
        let mean: u64 = (total / (n as u128)) as u64;
        BenchResult {
            name,
            iterations: n,
            total,
            mean,
            min: sorted[0],
            max: sorted[n - 1],
            median: sorted[n / 2],
            warmup_iterations: 0,
        }
    }
}

/// Facts about the sorted samples: as many as the samples, in ascending
/// order, and each sample occurs among them.
pub proof fn lemma_sorted_ns_facts(s: Seq<u64>)
    ensures
        sorted_ns(s).len() == s.len(),
        forall|i: int, j: int| 0 <= i <= j < s.len() ==> sorted_ns(s)[i] <= sorted_ns(s)[j],
        forall|i: int| 0 <= i < s.len() ==> sorted_ns(s).contains(#[trigger] s[i]),
        forall|j: int| 0 <= j < s.len() ==> s.contains(#[trigger] sorted_ns(s)[j]),
{
    lemma_ns_order_total();
    s.lemma_sort_by_ensures(ns_order());
    let t = sorted_ns(s);
    s.to_multiset_ensures();
    t.to_multiset_ensures();
    assert forall|i: int, j: int| 0 <= i <= j < s.len() implies t[i] <= t[j] by {
        if i < j {
            assert((ns_order())(t[i], t[j]));
        }
    }
    assert forall|i: int| 0 <= i < s.len() implies t.contains(#[trigger] s[i]) by {
        assert(s.to_multiset().count(s[i]) > 0);
    }
    assert forall|j: int| 0 <= j < s.len() implies s.contains(#[trigger] t[j]) by {
        assert(t.to_multiset().count(t[j]) > 0);
    }
}

/// The smallest sample is at most the median, which is at most the largest
/// sample; and every sample lies between the smallest and the largest.
pub proof fn lemma_min_median_max(r: BenchResult, name: Seq<char>, s: Seq<u64>)
    requires
        summarizes(r, name, s),
    ensures
        r.min <= r.median <= r.max,
        forall|i: int| 0 <= i < s.len() ==> r.min <= #[trigger] s[i] <= r.max,
        s.contains(r.min) && s.contains(r.median) && s.contains(r.max),
{
    lemma_sorted_ns_facts(s);
    let t = sorted_ns(s);
    assert forall|i: int| 0 <= i < s.len() implies r.min <= #[trigger] s[i] <= r.max by {
        assert(t.contains(s[i]));
        let j = choose|j: int| 0 <= j < t.len() && t[j] == s[i];
    }
    if s.len() > 0 {
        assert(s.contains(t[0]));
        assert(s.contains(t[s.len() as int / 2]));
        assert(s.contains(t[s.len() - 1]));
    }
}

/// Bounds on a sum from bounds on its elements.
proof fn lemma_sum_between(s: Seq<u64>, lo: int, hi: int)
    requires
        forall|i: int| 0 <= i < s.len() ==> lo <= #[trigger] s[i] <= hi,
    ensures
        s.len() * lo <= sum_ns(s) <= s.len() * hi,
    decreases s.len(),
{
    if s.len() > 0 {
        let p = s.drop_last();
        assert forall|i: int| 0 <= i < p.len() implies lo <= #[trigger] p[i] <= hi by {
            assert(p[i] == s[i]);
        }
        lemma_sum_between(p, lo, hi);
        assert(s.last() == s[s.len() - 1]);
        assert(s.len() * lo == p.len() * lo + lo) by (nonlinear_arith)
            requires
                s.len() == p.len() + 1,
        ;
        assert(s.len() * hi == p.len() * hi + hi) by (nonlinear_arith)
            requires
                s.len() == p.len() + 1,
        ;
    }
}

/// The mean lies between the smallest and the largest sample.
pub proof fn lemma_mean_between(r: BenchResult, name: Seq<char>, s: Seq<u64>)
    requires
        summarizes(r, name, s),
    ensures
        r.min <= r.mean <= r.max,
{
    lemma_min_median_max(r, name, s);
    if s.len() > 0 {
        lemma_sum_between(s, r.min as int, r.max as int);
        let n = s.len() as int;
        let total = sum_ns(s) as int;
        assert(r.min <= total / n <= r.max) by (nonlinear_arith)
            requires
                n > 0,
                n * r.min <= total <= n * r.max,
        ;
    }
}

/// Removing one element from a sequence takes it out of the sum.
proof fn lemma_sum_remove(s: Seq<u64>, j: int)
    requires
        0 <= j < s.len(),
    ensures
        sum_ns(s) == sum_ns(s.remove(j)) + s[j],
    decreases s.len(),
{
    if j < s.len() - 1 {
        let p = s.drop_last();
        lemma_sum_remove(p, j);
        assert(s.remove(j).drop_last() =~= p.remove(j));
        assert(s.remove(j).last() == s.last());
    } else {
        assert(s.remove(j) =~= s.drop_last());
    }
}

/// Sequences with the same elements have the same sum.
proof fn lemma_sum_permutation(s1: Seq<u64>, s2: Seq<u64>)
    requires
        s1.to_multiset() == s2.to_multiset(),
    ensures
        sum_ns(s1) == sum_ns(s2),
    decreases s1.len(),
{
    s1.to_multiset_ensures();
    s2.to_multiset_ensures();
    if s1.len() == 0 {
        assert(s2.len() == 0);
    } else {
        let x = s1.last();
        assert(s1.to_multiset().count(x) > 0);
        assert(s2.contains(x));
        let j = choose|j: int| 0 <= j < s2.len() && s2[j] == x;
        let i = s1.len() - 1;
        let r1 = s1.remove(i);
        let r2 = s2.remove(j);
        assert(r1.to_multiset() =~= s1.to_multiset().remove(x));
        assert(r2.to_multiset() =~= s2.to_multiset().remove(x));
        lemma_sum_permutation(r1, r2);
        lemma_sum_remove(s1, i);
        lemma_sum_remove(s2, j);
    }
}

/// The statistics of a run do not depend on the order in which the samples
/// were taken: samples with the same elements give the same statistics.
pub proof fn lemma_summary_order_independent(
    r1: BenchResult,
    r2: BenchResult,
    name: Seq<char>,
    s1: Seq<u64>,
    s2: Seq<u64>,
)
    requires
        summarizes(r1, name, s1),
        summarizes(r2, name, s2),
        s1.to_multiset() == s2.to_multiset(),
    ensures
        r1.iterations == r2.iterations,
        r1.total == r2.total,
        r1.mean == r2.mean,
        r1.min == r2.min,
        r1.max == r2.max,
        r1.median == r2.median,
{
    s1.to_multiset_ensures();
    s2.to_multiset_ensures();
    assert(s1.len() == s2.len());
    lemma_sum_permutation(s1, s2);
    lemma_ns_order_total();
    s2.lemma_sort_by_ensures(ns_order());
    lemma_sorted_is_sorted_ns(s1, sorted_ns(s2));
}

} // verus!
