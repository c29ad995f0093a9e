use quickbench::{compare_to_previous, Bencher, BenchResult};

#[test]
fn iter_cap_stops_at_requested_count() {
    let mut count = 0u64;
    let result = Bencher::new("iter_cap")
        .without_warmup_time()
        .without_bench_time()
        .with_warmup_iters(10)
        .with_iters(50)
        .without_lock()
        .bench(|| count += 1)
        .result
        .expect("timed iterations");
    assert_eq!(result.iterations, 50, "should stop at iters cap");
    assert_eq!(count, 10 + 50, "warmup + measured iterations");
}

#[test]
fn time_cap_stops_within_budget() {
    let result = Bencher::new("time_cap")
        .with_warmup_time_ms(5)
        .with_bench_time_ms(20)
        .without_lock()
        .bench(|| std::hint::black_box(1u64 + 1))
        .result
        .expect("timed iterations");
    // Times are in nanoseconds: 200 ms.
    assert!(result.total <= 200_000_000, "ran far over budget: {:?}", result.total);
    assert!(result.iterations > 0);
}

#[test]
fn compare_to_previous_classifies_verdict() {
    // Medians are given in nanoseconds.
    let prev_ns = 100;
    let same = compare_to_previous(prev_ns, 102);
    assert_eq!(same.verdict, "same");

    let faster = compare_to_previous(prev_ns, 80);
    assert_eq!(faster.verdict, "faster");
    assert!(faster.diff_ns < 0);

    let slower = compare_to_previous(prev_ns, 120);
    assert_eq!(slower.verdict, "SLOWER");
    assert!(slower.diff_ns > 0);
}

#[test]
fn compare_boundaries_are_five_percent() {
    // exactly +5% and -5% are still the same
    assert_eq!(compare_to_previous(100, 105).verdict, "same");
    assert_eq!(compare_to_previous(100, 95).verdict, "same");
    assert_eq!(compare_to_previous(100, 106).verdict, "SLOWER");
    assert_eq!(compare_to_previous(100, 94).verdict, "faster");
    // an unchanged median is the same, also from zero
    assert_eq!(compare_to_previous(0, 0).verdict, "same");
    assert_eq!(compare_to_previous(0, 1).verdict, "SLOWER");
    assert_eq!(compare_to_previous(7, 7).verdict, "same");
    let c = compare_to_previous(u64::MAX, 0);
    assert_eq!(c.verdict, "faster");
    assert_eq!(c.diff_ns, -(u64::MAX as i128));
    assert_eq!(c.prev_ns, u64::MAX);
    assert_eq!(c.median_ns, 0);
}

#[test]
fn iters_only_runs_exactly_the_cap() {
    let mut calls = 0u64;
    let result = Bencher::new("exact")
        .without_warmup_time()
        .with_warmup_iters(0)
        .without_bench_time()
        .with_iters(7)
        .without_lock()
        .bench(|| calls += 1)
        .result
        .expect("timed iterations");
    assert_eq!(result.iterations, 7);
    assert_eq!(calls, 7);
    assert_eq!(result.name, "exact");
    assert!(result.min <= result.median && result.median <= result.max);
    assert!(result.min <= result.mean && result.mean <= result.max);
}

#[test]
fn a_single_iteration_is_its_own_statistics() {
    let result = Bencher::new("one")
        .without_warmup_time()
        .with_warmup_iters(0)
        .without_bench_time()
        .with_iters(1)
        .without_lock()
        .bench(|| ())
        .result
        .expect("timed iterations");
    assert_eq!(result.iterations, 1);
    assert_eq!(result.warmup_iterations, 0);
    assert_eq!(result.total, result.mean as u128);
    assert_eq!(result.min, result.mean);
    assert_eq!(result.max, result.mean);
    assert_eq!(result.median, result.mean);
}

#[test]
fn bench_labeled_names_the_variant() {
    let b = Bencher::new("sort")
        .without_warmup_time()
        .with_warmup_iters(1)
        .without_bench_time()
        .with_iters(3)
        .without_lock();
    let stable = b.bench_labeled("stable", || 1 + 1).result.expect("timed iterations");
    let unstable = b.bench_labeled("unstable", || 2 + 2).result.expect("timed iterations");
    assert_eq!(stable.warmup_iterations, 1);
    assert_eq!(stable.name, "sort/stable");
    assert_eq!(unstable.name, "sort/unstable");
    assert_eq!(stable.iterations, 3);
    assert_eq!(unstable.iterations, 3);
    // the base configuration is untouched
    assert_eq!(b.name(), "sort");
}

#[test]
fn statistics_of_unsorted_samples() {
    let r = BenchResult::from_samples("s".to_string(), vec![30, 10, 50, 20, 40]);
    assert_eq!(r.iterations, 5);
    assert_eq!(r.total, 150);
    assert_eq!(r.mean, 30);
    assert_eq!(r.min, 10);
    assert_eq!(r.max, 50);
    assert_eq!(r.median, 30);

    // an even count takes the upper middle element
    let r = BenchResult::from_samples("e".to_string(), vec![4, 1, 3, 2]);
    assert_eq!(r.median, 3);
    assert_eq!(r.mean, 2); // 10 / 4 rounded down
}

#[test]
fn statistics_do_not_depend_on_order() {
    let a = BenchResult::from_samples("a".to_string(), vec![5, 9, 1, 7, 7]);
    let b = BenchResult::from_samples("a".to_string(), vec![7, 1, 7, 9, 5]);
    assert_eq!(
        (a.iterations, a.total, a.mean, a.min, a.max, a.median),
        (b.iterations, b.total, b.mean, b.min, b.max, b.median)
    );
}

#[test]
fn total_does_not_overflow_u64() {
    let r = BenchResult::from_samples("big".to_string(), vec![u64::MAX, u64::MAX, u64::MAX]);
    assert_eq!(r.total, 3 * (u64::MAX as u128));
    assert_eq!(r.mean, u64::MAX);
}

#[test]
fn warmup_runs_up_to_its_cap() {
    let mut calls = 0u64;
    let result = Bencher::new("warm")
        .without_warmup_time()
        .with_warmup_iters(4)
        .without_bench_time()
        .with_iters(2)
        .without_lock()
        .bench(|| calls += 1)
        .result
        .expect("timed iterations");
    assert_eq!(result.warmup_iterations, 4);
    assert_eq!(result.iterations, 2);
    assert_eq!(calls, 6);
    let from_samples = BenchResult::from_samples("s".to_string(), vec![3]);
    assert_eq!(from_samples.warmup_iterations, 0);
    // the result can be printed for debugging, as can the configuration
    assert!(format!("{:?}", from_samples).contains("warmup_iterations: 0"));
    assert!(format!("{:?}", Bencher::new("dbg")).contains("dbg"));
}
