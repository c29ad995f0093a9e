use quickbench::signature::{bench_parameter, quick_bench_plan, FnParam, ParamError, QuickBenchError};
use quickbench::tokens::{tokenize, tokens_from_raw, IntError, RawToken, Token};
use quickbench::{ArgsError, QuickBenchArgs};

fn parsed(s: &str) -> QuickBenchArgs {
    match QuickBenchArgs::parse(s) {
        Ok(a) => a,
        Err(e) => panic!("{}: {}", s, e.message()),
    }
}

#[test]
fn empty_arguments_ignore_the_test() {
    let a = parsed("");
    assert_eq!(
        a,
        QuickBenchArgs { warmup_time_ms: None, bench_time_ms: None, warmup_iters: None, iters: None, ignore: true }
    );
    assert_eq!(parsed("   "), a);
}

#[test]
fn time_arguments() {
    let a = parsed("warmup_time_ms = 100, bench_time_ms = 500");
    assert_eq!(a.warmup_time_ms, Some(100));
    assert_eq!(a.bench_time_ms, Some(500));
    assert_eq!(a.warmup_iters, None);
    assert_eq!(a.iters, None);
    assert!(a.ignore);
}

#[test]
fn all_arguments_and_separators() {
    let a = parsed("warmup_time_ms=500,warmup_iters = 100 , bench_time_ms = 2000, iters = 500, ignore = false,");
    assert_eq!(a.warmup_time_ms, Some(500));
    assert_eq!(a.warmup_iters, Some(100));
    assert_eq!(a.bench_time_ms, Some(2000));
    assert_eq!(a.iters, Some(500));
    assert!(!a.ignore);
    // the comma between arguments is optional, and a later value wins
    let a = parsed("iters = 1 iters = 2");
    assert_eq!(a.iters, Some(2));
}

#[test]
fn integer_literal_forms() {
    assert_eq!(parsed("iters = 5_000").iters, Some(5000));
    assert_eq!(parsed("iters = 100u64").iters, Some(100));
    assert_eq!(parsed("iters = 0x10").iters, Some(16));
    assert_eq!(parsed("iters = 0o17").iters, Some(15));
    assert_eq!(parsed("iters = 0b101").iters, Some(5));
    assert_eq!(parsed("iters = 0xffu8").iters, Some(255));
    assert_eq!(parsed("iters = 18446744073709551615").iters, Some(u64::MAX));
}

fn error_of(s: &str) -> ArgsError {
    match QuickBenchArgs::parse(s) {
        Ok(a) => panic!("{} parsed as {:?}", s, a),
        Err(e) => e,
    }
}

#[test]
fn errors() {
    assert!(matches!(error_of("5 = 3"), ArgsError::ExpectedIdent));
    assert!(matches!(error_of("(iters) = 3"), ArgsError::ExpectedIdent));
    assert!(matches!(error_of("iters 3"), ArgsError::ExpectedEq));
    assert!(matches!(error_of("iters"), ArgsError::ExpectedEq));
    assert!(matches!(error_of("iters = x"), ArgsError::ExpectedInt));
    assert!(matches!(error_of("iters = 1.5"), ArgsError::ExpectedInt));
    assert!(matches!(error_of("iters = 1e3"), ArgsError::ExpectedInt));
    assert!(matches!(error_of("iters = \"5\""), ArgsError::ExpectedInt));
    assert!(matches!(error_of("iters = (5)"), ArgsError::ExpectedInt));
    assert!(matches!(error_of("iters = -1"), ArgsError::Int(IntError::InvalidDigit)));
    assert!(matches!(error_of("iters = - 1"), ArgsError::Int(IntError::InvalidDigit)));
    assert!(matches!(error_of("iters = -1.5"), ArgsError::ExpectedInt));
    assert!(matches!(
        error_of("iters = 18446744073709551616"),
        ArgsError::Int(IntError::TooLarge)
    ));
    assert!(matches!(error_of("ignore = 1"), ArgsError::ExpectedBool));
    assert!(matches!(error_of("ignore = yes"), ArgsError::ExpectedBool));
    assert!(matches!(error_of("ignore = -1"), ArgsError::ExpectedBool));
    assert!(matches!(error_of("iters = 1 /* open"), ArgsError::NotTokens));
    match error_of("bench_ms = 5") {
        ArgsError::UnknownKey(k) => assert_eq!(k, "bench_ms"),
        e => panic!("unexpected {:?}", e),
    }
    match error_of("r#iters = 5") {
        ArgsError::UnknownKey(k) => assert_eq!(k, "r#iters"),
        e => panic!("unexpected {:?}", e),
    }
    match error_of("fn = 5") {
        ArgsError::Keyword(k) => assert_eq!(k, "fn"),
        e => panic!("unexpected {:?}", e),
    }
}

#[test]
fn comments_and_whitespace_separate_tokens() {
    let a = parsed("iters = 5 /* five */, // the cap\n warmup_iters\u{2028}=\u{2028}2");
    assert_eq!(a.iters, Some(5));
    assert_eq!(a.warmup_iters, Some(2));
}

#[test]
fn later_arguments_win_and_order_does_not_matter() {
    assert_eq!(parsed("iters = 1, iters = 2"), parsed("iters = 2"));
    assert_eq!(
        parsed("iters = 3, warmup_iters = 4, ignore = false"),
        parsed("ignore = false, warmup_iters = 4, iters = 3")
    );
}

#[test]
fn error_messages() {
    assert_eq!(
        error_of("foo = 1").message(),
        "unknown quick_bench attribute: `foo` (expected: warmup_time_ms, bench_time_ms, warmup_iters, iters, ignore)"
    );
    assert_eq!(error_of("iters 1").message(), "expected `=`");
    assert_eq!(error_of("ignore = 1").message(), "expected boolean literal");
    assert_eq!(error_of("iters = -1").message(), "invalid digit found in string");
    assert_eq!(
        error_of("iters = 99999999999999999999").message(),
        "number too large to fit in target type"
    );
    assert_eq!(error_of("mut = 1").message(), "expected identifier, found keyword `mut`");
    assert_eq!(error_of("iters = y").message(), "expected integer literal");
}

#[test]
fn iteration_only_arguments_drop_the_time_limit() {
    let b = parsed("warmup_iters = 100, iters = 1000").bencher("it", "/tmp/dir");
    assert_eq!(b.name(), "it");
    assert_eq!(b.warmup_time_ms(), None);
    assert_eq!(b.bench_time_ms(), None);
    assert_eq!(b.warmup_iters(), Some(100));
    assert_eq!(b.iters(), Some(1000));
    assert_eq!(b.output_dir(), Some(&std::path::PathBuf::from("/tmp/dir")));
    assert!(b.uses_lock());
    assert!(b.is_runnable());
}

#[test]
fn arguments_keep_defaults_they_do_not_name() {
    let b = parsed("bench_time_ms = 300").bencher("t", "/tmp");
    assert_eq!(b.warmup_time_ms(), Some(1000));
    assert_eq!(b.bench_time_ms(), Some(300));
    let b = parsed("warmup_time_ms = 5, warmup_iters = 2, iters = 9").bencher("t", "/tmp");
    assert_eq!(b.warmup_time_ms(), Some(5));
    assert_eq!(b.warmup_iters(), Some(2));
    assert_eq!(b.bench_time_ms(), None);
    assert_eq!(b.iters(), Some(9));
    for text in ["", "iters = 1", "warmup_iters = 1", "ignore = false", "warmup_time_ms = 1, bench_time_ms = 2"] {
        assert!(parsed(text).bencher("t", "/tmp").is_runnable(), "{}", text);
    }
}

#[test]
fn bench_function_parameter_checks() {
    use_params();
}

fn use_params() {
    let ok = vec![FnParam::Ident("b".to_string())];
    assert_eq!(bench_parameter(&ok).unwrap(), "b");
    assert_eq!(bench_parameter(&vec![]).unwrap_err(), ParamError::NotOneParameter);
    let two = vec![FnParam::Ident("a".to_string()), FnParam::Ident("b".to_string())];
    assert_eq!(bench_parameter(&two).unwrap_err(), ParamError::NotOneParameter);
    assert_eq!(bench_parameter(&vec![FnParam::Receiver]).unwrap_err(), ParamError::SelfParameter);
    assert_eq!(bench_parameter(&vec![FnParam::Pattern]).unwrap_err(), ParamError::NotIdentifier);
    assert_eq!(
        ParamError::SelfParameter.message(),
        "quick_bench function cannot have self parameter"
    );
    assert_eq!(
        ParamError::NotOneParameter.message(),
        "quick_bench function must have exactly one parameter: `b: Bencher`"
    );
}

#[test]
fn plan_of_an_attributed_function() {
    let (name, param, b, ignore) = quick_bench_plan(
        "warmup_iters = 100, iters = 1_000",
        "fn bench_string_build(b: Bencher) { b.bench(|| ()); }",
        "/tmp/crate",
    )
    .unwrap();
    assert_eq!(name, "bench_string_build");
    assert_eq!(param, "b");
    assert!(ignore);
    assert_eq!(b.name(), "bench_string_build");
    assert_eq!(b.warmup_time_ms(), None);
    assert_eq!(b.bench_time_ms(), None);
    assert_eq!(b.warmup_iters(), Some(100));
    assert_eq!(b.iters(), Some(1000));
    assert_eq!(b.output_dir(), Some(&std::path::PathBuf::from("/tmp/crate")));

    let (_, param, b, ignore) =
        quick_bench_plan("ignore = false", "pub fn f(mut bencher: Bencher) {}", "/d").unwrap();
    assert_eq!(param, "bencher");
    assert!(!ignore);
    assert_eq!(b.warmup_time_ms(), Some(1000));
    assert_eq!(b.bench_time_ms(), Some(5000));
}

#[test]
fn plan_refusals() {
    let fun = "fn f(b: Bencher) {}";
    assert!(matches!(
        quick_bench_plan("nope = 1", fun, "/d"),
        Err(QuickBenchError::Args(ArgsError::UnknownKey(_)))
    ));
    assert!(matches!(quick_bench_plan("", "struct S;", "/d"), Err(QuickBenchError::NotAFunction)));
    assert!(matches!(
        quick_bench_plan("", "fn f() {}", "/d"),
        Err(QuickBenchError::Param(ParamError::NotOneParameter))
    ));
    assert!(matches!(
        quick_bench_plan("", "fn f(a: u8, b: u8) {}", "/d"),
        Err(QuickBenchError::Param(ParamError::NotOneParameter))
    ));
    assert!(matches!(
        quick_bench_plan("", "fn f(&self) {}", "/d"),
        Err(QuickBenchError::Param(ParamError::SelfParameter))
    ));
    assert!(matches!(
        quick_bench_plan("", "fn f((a, b): (u8, u8)) {}", "/d"),
        Err(QuickBenchError::Param(ParamError::NotIdentifier))
    ));
    // the arguments are read before the item
    assert!(matches!(
        quick_bench_plan("iters", "struct S;", "/d"),
        Err(QuickBenchError::Args(ArgsError::ExpectedEq))
    ));
    assert_eq!(
        quick_bench_plan("", "fn f() {}", "/d").unwrap_err().message(),
        "quick_bench function must have exactly one parameter: `b: Bencher`"
    );
}

#[test]
fn any_order_of_distinct_arguments() {
    let all = ["warmup_time_ms = 1", "bench_time_ms = 2", "warmup_iters = 3", "iters = 4", "ignore = false"];
    let expected = parsed(&all.join(", "));
    for rot in 0..all.len() {
        let mut v: Vec<&str> = all.to_vec();
        v.rotate_left(rot);
        v.swap(0, all.len() - 1);
        assert_eq!(parsed(&v.join(", ")), expected);
        assert_eq!(parsed(&v.join(" ")), expected);
    }
}

#[test]
fn token_trees_become_tokens_position_by_position() {
    let raw = vec![
        RawToken::Ident("iters".to_string()),
        RawToken::Punct('='),
        RawToken::Literal("1_000".to_string()),
        RawToken::Punct(','),
        RawToken::Group,
    ];
    let accepted = vec![true, false, false, false, false];
    let digits = vec![None, None, Some("1000".to_string()), None, None];
    let negated = vec![None, None, None, None, None];
    let toks = tokens_from_raw(&raw, &accepted, &digits, &negated);
    assert_eq!(toks.len(), 5);
    assert!(matches!(&toks[0], Token::Ident(n, true) if n == "iters"));
    assert!(matches!(toks[1], Token::Punct('=')));
    assert!(matches!(&toks[2], Token::Literal(Some(d), None) if d == "1000"));
    assert!(matches!(toks[3], Token::Punct(',')));
    assert!(matches!(toks[4], Token::Group));
    let mut toks = toks;
    toks.pop();
    let args = QuickBenchArgs::from_tokens(&toks);
    assert!(args.is_ok());
    assert_eq!(args.unwrap().iters, Some(1000));
}

#[test]
fn a_keyword_refused_by_syn_is_no_argument_name() {
    let toks = tokenize("fn = 3").expect("tokens");
    assert!(matches!(&toks[0], Token::Ident(n, false) if n == "fn"));
    let toks = tokenize("iters = -2").expect("tokens");
    assert!(matches!(&toks[2], Token::Punct('-')));
    assert!(matches!(&toks[3], Token::Literal(Some(d), Some(n)) if d == "2" && n == "-2"));
}
