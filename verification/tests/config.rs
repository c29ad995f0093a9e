use std::path::PathBuf;

use quickbench::Bencher;

#[test]
fn new_uses_default_limits() {
    let b = Bencher::new("defaults");
    assert_eq!(b.name(), "defaults");
    assert_eq!(b.warmup_time_ms(), Some(1000));
    assert_eq!(b.bench_time_ms(), Some(5000));
    assert_eq!(b.warmup_iters(), None);
    assert_eq!(b.iters(), None);
    assert!(b.output_dir().is_none());
    assert!(b.uses_lock());
    assert!(b.is_runnable());
}

#[test]
fn default_has_an_empty_name() {
    let b = Bencher::default();
    assert_eq!(b.name(), "");
    assert_eq!(b.warmup_time_ms(), Some(1000));
    assert_eq!(b.bench_time_ms(), Some(5000));
}

#[test]
fn builders_set_one_field_each() {
    let b = Bencher::new("b")
        .with_warmup_time_ms(100)
        .with_bench_time_ms(500)
        .with_warmup_iters(3)
        .with_iters(9);
    assert_eq!(b.warmup_time_ms(), Some(100));
    assert_eq!(b.bench_time_ms(), Some(500));
    assert_eq!(b.warmup_iters(), Some(3));
    assert_eq!(b.iters(), Some(9));
    let b = b.without_warmup_time().without_bench_time().without_lock();
    assert_eq!(b.warmup_time_ms(), None);
    assert_eq!(b.bench_time_ms(), None);
    assert_eq!(b.warmup_iters(), Some(3));
    assert_eq!(b.iters(), Some(9));
    assert!(!b.uses_lock());
    assert!(b.is_runnable());
}

#[test]
fn removing_both_stop_conditions_is_not_runnable() {
    let b = Bencher::new("b").without_warmup_time();
    assert!(!b.is_runnable());
    let b = Bencher::new("b").without_bench_time();
    assert!(!b.is_runnable());
    let b = Bencher::new("b").without_bench_time().with_iters(1);
    assert!(b.is_runnable());
}

#[test]
fn output_dir_is_kept() {
    let b = Bencher::new("o").with_output_dir("/tmp/somewhere");
    assert_eq!(b.output_dir(), Some(&PathBuf::from("/tmp/somewhere")));
}

#[test]
fn labeled_copies_the_configuration() {
    let b = Bencher::new("base")
        .with_warmup_time_ms(7)
        .with_iters(11)
        .with_output_dir(PathBuf::from("/tmp/out"))
        .without_lock();
    let l = b.labeled("variant");
    assert_eq!(l.name(), "base/variant");
    assert_eq!(l.warmup_time_ms(), Some(7));
    assert_eq!(l.bench_time_ms(), Some(5000));
    assert_eq!(l.iters(), Some(11));
    assert_eq!(l.output_dir(), Some(&PathBuf::from("/tmp/out")));
    assert!(!l.uses_lock());
}
