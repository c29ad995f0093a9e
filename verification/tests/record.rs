use quickbench::duration::{duration_unit, TimeUnit};
use quickbench::report::{BOLD, CYAN, DIM, GREEN, RED, RESET, YELLOW};
use quickbench::{compare_to_previous, previous_median_ns, result_record, BenchResult};

fn sample_result() -> BenchResult {
    BenchResult::from_samples("persist_check".to_string(), vec![1500, 1000, 2000])
}

#[test]
fn previous_median_ns_parses_fixture_content() {
    assert_eq!(
        previous_median_ns("name: x\nmean: 1us\nmedian: 1us\nmedian_ns: 1234\n"),
        Some(1234)
    );
}

#[test]
fn previous_median_ns_without_the_line_is_none() {
    assert_eq!(previous_median_ns(""), None);
    assert_eq!(previous_median_ns("name: x\nmedian: 1us\n"), None);
}

#[test]
fn previous_median_ns_takes_the_first_matching_line() {
    assert_eq!(previous_median_ns("median_ns: 5\nmedian_ns: 6\n"), Some(5));
    // the first matching line decides, even when it does not hold a number
    assert_eq!(previous_median_ns("median_ns: x\nmedian_ns: 6\n"), None);
}

#[test]
fn previous_median_ns_trims_and_accepts_line_endings() {
    assert_eq!(previous_median_ns("median_ns:   42  \r\n"), Some(42));
    assert_eq!(previous_median_ns("median_ns:\t+7"), Some(7));
    assert_eq!(previous_median_ns("a\r\nmedian_ns: 0012\r\n"), Some(12));
    assert_eq!(previous_median_ns("  median_ns: 1\n"), None);
    assert_eq!(previous_median_ns("median_ns: 18446744073709551615\n"), Some(u64::MAX));
    assert_eq!(previous_median_ns("median_ns: 18446744073709551616\n"), None);
    assert_eq!(previous_median_ns("median_ns: -1\n"), None);
    assert_eq!(previous_median_ns("median_ns: +\n"), None);
    assert_eq!(previous_median_ns("median_ns:\n"), None);
}

#[test]
fn result_record_lists_the_statistics() {
    let r = sample_result();
    let content = result_record(&r);
    assert_eq!(
        content,
        "name: persist_check\nmedian_ns: 1500\nmean: 1.5µs\nmin: 1µs\nmax: 2µs\nmedian: 1.5µs\niterations: 3\n"
    );
    assert!(content.contains("name: persist_check"));
    assert!(content.contains("median_ns:"));
}

#[test]
fn result_record_reads_back_its_median() {
    for samples in [vec![1], vec![0], vec![3, 1, 2], vec![u64::MAX, 5], vec![1_234_567_891, 9]] {
        let r = BenchResult::from_samples("round/trip".to_string(), samples);
        assert_eq!(previous_median_ns(&result_record(&r)), Some(r.median));
    }
}

#[test]
fn summary_is_coloured() {
    let r = sample_result();
    let expected = format!(
        "{CYAN}{BOLD}[BENCH]{RESET} {BOLD}persist_check{RESET}:\n{YELLOW}1.5µs{RESET} {DIM}(min: 1µs, max: 2µs, median: 1.5µs, 3 iters){RESET}"
    );
    assert_eq!(r.summary(), expected);
}

#[test]
fn verdict_words_and_colours() {
    let faster = compare_to_previous(1000, 100);
    assert_eq!(faster.kind.word(), "faster");
    assert_eq!(faster.kind.color(), GREEN);
    let slower = compare_to_previous(100, 1000);
    assert_eq!(slower.kind.word(), "SLOWER");
    assert_eq!(slower.kind.color(), RED);
    let same = compare_to_previous(100, 100);
    assert_eq!(same.kind.word(), "same");
    assert_eq!(same.kind.color(), DIM);
}

#[test]
fn duration_units() {
    assert_eq!(duration_unit("123.456ms"), Some(("123.456".to_string(), TimeUnit::Millis)));
    assert_eq!(duration_unit(" 1.5µs\n"), Some(("1.5".to_string(), TimeUnit::Micros)));
    assert_eq!(duration_unit("7us"), Some(("7".to_string(), TimeUnit::Micros)));
    assert_eq!(duration_unit("12ns"), Some(("12".to_string(), TimeUnit::Nanos)));
    assert_eq!(duration_unit("1.234s"), Some(("1.234".to_string(), TimeUnit::Seconds)));
    assert_eq!(duration_unit("s"), Some(("".to_string(), TimeUnit::Seconds)));
    assert_eq!(duration_unit("5 min"), None);
    assert_eq!(duration_unit(""), None);
    assert_eq!(TimeUnit::Millis.nanos(), 1_000_000);
    assert_eq!(TimeUnit::Seconds.nanos(), 1_000_000_000);
}

#[test]
fn a_name_with_line_feeds_still_reads_back() {
    let r = BenchResult::from_samples("a\nb\r\nmedian: 5".to_string(), vec![7, 9, 8]);
    assert_eq!(previous_median_ns(&result_record(&r)), Some(8));
    // a later line of the name that starts with the key is read first
    let r = BenchResult::from_samples("x\nmedian_ns: 1".to_string(), vec![7]);
    assert_eq!(previous_median_ns(&result_record(&r)), Some(1));
}
