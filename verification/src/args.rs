//! The arguments of the benchmark attribute, such as
//! `warmup_time_ms = 100, bench_time_ms = 500`, and the configuration they
//! give a benchmark. The text is lexed into Rust tokens by `proc_macro2`;
//! the arguments are read from the tokens here.
use std::path::PathBuf;

use vstd::prelude::*;

use crate::config::{default_view, Bencher, BencherView, DEFAULT_BENCH_TIME_MS, DEFAULT_WARMUP_TIME_MS};
use crate::text::chars_of;
use crate::tokens::{int_error, made_of_trees, parse_u64_text, tokenize, toks_of, IntError, Tok, Token};
use crate::text::parse_u64_spec;

verus! {

/// Arguments of the benchmark attribute.
#[derive(PartialEq, Eq, Structural, Clone, Copy, Debug)]
pub struct QuickBenchArgs {
    pub warmup_time_ms: Option<u64>,
    pub bench_time_ms: Option<u64>,
    pub warmup_iters: Option<u64>,
    pub iters: Option<u64>,
    /// Whether the generated test is marked `#[ignore]`.
    pub ignore: bool,
}

/// The arguments when none are given: no limits set, and the test ignored.
pub open spec fn no_args() -> QuickBenchArgs {
    QuickBenchArgs {
        warmup_time_ms: None,
        bench_time_ms: None,
        warmup_iters: None,
        iters: None,
        ignore: true,
    }
}

/// The argument names the attribute accepts.
#[derive(PartialEq, Eq, Structural, Clone, Copy, Debug)]
pub enum ArgKey {
    WarmupTimeMs,
    BenchTimeMs,
    WarmupIters,
    Iters,
    Ignore,
}

pub open spec fn key_of(name: Seq<char>) -> Option<ArgKey> {
    if name == "warmup_time_ms"@ {
        Some(ArgKey::WarmupTimeMs)
    } else if name == "bench_time_ms"@ {
        Some(ArgKey::BenchTimeMs)
    } else if name == "warmup_iters"@ {
        Some(ArgKey::WarmupIters)
    } else if name == "iters"@ {
        Some(ArgKey::Iters)
    } else if name == "ignore"@ {
        Some(ArgKey::Ignore)
    } else {
        None
    }
}

/// What one `name = value` argument sets.
#[derive(PartialEq, Eq, Structural, Clone, Copy, Debug)]
pub enum Update {
    /// A numeric argument (never `ArgKey::Ignore`) and its value.
    Number(ArgKey, u64),
    /// The value of `ignore`.
    Ignore(bool),
}

/// The key an update is for.
pub open spec fn update_key(u: Update) -> ArgKey {
    match u {
        Update::Number(k, _) => k,
        Update::Ignore(_) => ArgKey::Ignore,
    }
}

/// `a` with the update applied.
pub open spec fn apply(a: QuickBenchArgs, u: Update) -> QuickBenchArgs {
    match u {
        Update::Number(ArgKey::WarmupTimeMs, v) => QuickBenchArgs { warmup_time_ms: Some(v), ..a },
        Update::Number(ArgKey::BenchTimeMs, v) => QuickBenchArgs { bench_time_ms: Some(v), ..a },
        Update::Number(ArgKey::WarmupIters, v) => QuickBenchArgs { warmup_iters: Some(v), ..a },
        Update::Number(ArgKey::Iters, v) => QuickBenchArgs { iters: Some(v), ..a },
        Update::Number(ArgKey::Ignore, _) => a,
        Update::Ignore(b) => QuickBenchArgs { ignore: b, ..a },
    }
}

/// Why the arguments were refused.
#[derive(Debug)]
pub enum ArgsError {
    /// The text is no Rust token stream.
    NotTokens,
    /// An argument does not start with a name.
    ExpectedIdent,
    /// An argument starts with a keyword, not a name.
    Keyword(String),
    /// An argument name is not followed by `=`.
    ExpectedEq,
    /// A numeric argument is not given an integer literal.
    ExpectedInt,
    /// An integer literal's value is no `u64`.
    Int(IntError),
    /// `ignore` is not given `true` or `false`.
    ExpectedBool,
    /// An argument name that the attribute does not know.
    UnknownKey(String),
}

/// [`ArgsError`] with names as sequences of characters.
pub enum ArgsFault {
    NotTokens,
    ExpectedIdent,
    Keyword(Seq<char>),
    ExpectedEq,
    ExpectedInt,
    Int(IntError),
    ExpectedBool,
    UnknownKey(Seq<char>),
}

impl View for ArgsError {
    type V = ArgsFault;

    open spec fn view(&self) -> ArgsFault {
        match self {
            ArgsError::NotTokens => ArgsFault::NotTokens,
            ArgsError::ExpectedIdent => ArgsFault::ExpectedIdent,
            ArgsError::Keyword(name) => ArgsFault::Keyword(name@),
            ArgsError::ExpectedEq => ArgsFault::ExpectedEq,
            ArgsError::ExpectedInt => ArgsFault::ExpectedInt,
            ArgsError::Int(e) => ArgsFault::Int(*e),
            ArgsError::ExpectedBool => ArgsFault::ExpectedBool,
            ArgsError::UnknownKey(name) => ArgsFault::UnknownKey(name@),
        }
    }
}

/// The value given to argument `k` by the tokens `rest` that follow its
/// `=`, with the number of tokens it takes. `ignore` takes the identifier
/// `true` or `false`. A numeric argument takes an integer literal, or `-`
/// followed by one; its digits are read as a `u64`.
pub open spec fn entry_value(k: ArgKey, rest: Seq<Tok>) -> Result<(Update, int), ArgsFault> {
    if k == ArgKey::Ignore {
        if rest.len() > 0 && rest[0] is Ident && rest[0]->Ident_0 == "true"@ {
            Ok((Update::Ignore(true), 1))
        } else if rest.len() > 0 && rest[0] is Ident && rest[0]->Ident_0 == "false"@ {
            Ok((Update::Ignore(false), 1))
        } else {
            Err(ArgsFault::ExpectedBool)
        }
    } else {
        let (digits, n) = if rest.len() > 0 && rest[0] is Literal {
            (rest[0]->Literal_0, 1int)
        } else if rest.len() > 1 && rest[0] == Tok::Punct('-') && rest[1] is Literal {
            (rest[1]->Literal_1, 2int)
        } else {
            (None, 0int)
        };
        match digits {
            None => Err(ArgsFault::ExpectedInt),
            Some(d) => match parse_u64_spec(d) {
                Some(v) => Ok((Update::Number(k, v), n)),
                None => Err(ArgsFault::Int(int_error(d))),
            },
        }
    }
}

/// A value takes one or two of the tokens that follow its `=`.
pub proof fn lemma_entry_value_len(k: ArgKey, rest: Seq<Tok>)
    ensures
        entry_value(k, rest) matches Ok((u, n)) ==> 1 <= n <= rest.len(),
{
}

/// The arguments in the tokens `ts`, read on top of `acc`: a sequence of
/// `name = value` entries, each optionally followed by a comma. A later
/// entry for the same name wins.
pub open spec fn args_of(ts: Seq<Tok>, acc: QuickBenchArgs) -> Result<QuickBenchArgs, ArgsFault>
    decreases ts.len(),
{
    if ts.len() == 0 {
        Ok(acc)
    } else {
        match ts[0] {
            Tok::Ident(name, accepted) => if !accepted {
                Err(ArgsFault::Keyword(name))
            } else if !(ts.len() > 1 && ts[1] == Tok::Punct('=')) {
                Err(ArgsFault::ExpectedEq)
            } else {
                match key_of(name) {
                    None => Err(ArgsFault::UnknownKey(name)),
                    Some(k) => match entry_value(k, ts.skip(2)) {
                        Err(f) => Err(f),
                        Ok((u, n)) => {
                            proof {
                                lemma_entry_value_len(k, ts.skip(2));
                            }
                            let after = ts.skip(2 + n);
                            if after.len() > 0 && after[0] == Tok::Punct(',') {
                                args_of(after.skip(1), apply(acc, u))
                            } else {
                                args_of(after, apply(acc, u))
                            }
                        },
                    },
                }
            },
            _ => Err(ArgsFault::ExpectedIdent),
        }
    }
}

/// The outcome of reading arguments, with errors by their view.
pub open spec fn outcome(r: Result<QuickBenchArgs, ArgsError>) -> Result<QuickBenchArgs, ArgsFault> {
    match r {
        Ok(a) => Ok(a),
        Err(e) => Err(e@),
    }
}

/// Whether two texts are the same.
fn same_text(a: &str, b: &str) -> (r: bool)
    ensures
        r == (a@ == b@),
{
    let x = chars_of(a);
    let y = chars_of(b);
    if x.len() != y.len() {
        return false;
    }
    let mut i: usize = 0;
    while i < x.len()
        invariant
            i <= x@.len() == y@.len(),
            x@ == a@,
            y@ == b@,
            forall|t: int| 0 <= t < i ==> x@[t] == y@[t],
        decreases x@.len() - i,
    {
        if x[i] != y[i] {
            return false;
        }
        i = i + 1;
    }
    assert(x@ =~= y@);
    true
}

/// Which argument `name` is, if any.
fn key_named(name: &str) -> (r: Option<ArgKey>)
    ensures
        r == key_of(name@),
{
    if same_text(name, "warmup_time_ms") {
        Some(ArgKey::WarmupTimeMs)
    } else if same_text(name, "bench_time_ms") {
        Some(ArgKey::BenchTimeMs)
    } else if same_text(name, "warmup_iters") {
        Some(ArgKey::WarmupIters)
    } else if same_text(name, "iters") {
        Some(ArgKey::Iters)
    } else if same_text(name, "ignore") {
        Some(ArgKey::Ignore)
    } else {
        None
    }
}

fn apply_exec(a: QuickBenchArgs, u: Update) -> (r: QuickBenchArgs)
    ensures
        r == apply(a, u),
{
    match u {
        Update::Number(ArgKey::WarmupTimeMs, v) => QuickBenchArgs { warmup_time_ms: Some(v), ..a },
        Update::Number(ArgKey::BenchTimeMs, v) => QuickBenchArgs { bench_time_ms: Some(v), ..a },
        Update::Number(ArgKey::WarmupIters, v) => QuickBenchArgs { warmup_iters: Some(v), ..a },
        Update::Number(ArgKey::Iters, v) => QuickBenchArgs { iters: Some(v), ..a },
        Update::Number(ArgKey::Ignore, _) => a,
        Update::Ignore(b) => QuickBenchArgs { ignore: b, ..a },
    }
}

/// Reads the value of numeric argument `k` from the digits of an integer
/// literal, if it is one.
fn number_value(k: ArgKey, digits: &Option<String>) -> (r: Result<Update, ArgsError>)
    ensures
        match r {
            Ok(u) => opt_digits(*digits) matches Some(d) && parse_u64_spec(d) == Some(u->Number_1)
                && u == Update::Number(k, u->Number_1),
            Err(e) => match opt_digits(*digits) {
                None => e@ == ArgsFault::ExpectedInt,
                Some(d) => parse_u64_spec(d) is None && e@ == ArgsFault::Int(int_error(d)),
            },
        },
{
    match digits {
        None => Err(ArgsError::ExpectedInt),
        Some(d) => match parse_u64_text(d.as_str()) {
            Ok(v) => Ok(Update::Number(k, v)),
            Err(e) => Err(ArgsError::Int(e)),
        },
    }
}

pub open spec fn opt_digits(o: Option<String>) -> Option<Seq<char>> {
    crate::tokens::opt_view(o)
}

/// The value given to argument `k` by `toks[d..]` (see [`entry_value`]).
fn entry_value_exec(toks: &Vec<Token>, d: usize, k: ArgKey) -> (r: Result<(Update, usize), ArgsError>)
    requires
        d <= toks@.len(),
    ensures
        match r {
            Ok((u, n)) => entry_value(k, toks_of(toks@).skip(d as int)) == Ok::<(Update, int), ArgsFault>((u, n as int)),
            Err(e) => entry_value(k, toks_of(toks@).skip(d as int)) == Err::<(Update, int), ArgsFault>(e@),
        },
{
    let ghost rest = toks_of(toks@).skip(d as int);
    if k == ArgKey::Ignore {
        if d < toks.len() {
            assert(rest[0] == toks@[d as int]@);
            match &toks[d] {
                Token::Ident(name, _) => {
                    if same_text(name.as_str(), "true") {
                        return Ok((Update::Ignore(true), 1));
                    } else if same_text(name.as_str(), "false") {
                        return Ok((Update::Ignore(false), 1));
                    }
                },
                _ => {},
            }
        }
        return Err(ArgsError::ExpectedBool);
    }
    if d < toks.len() {
        assert(rest[0] == toks@[d as int]@);
        if let Token::Literal(digits, _) = &toks[d] {
            return match number_value(k, digits) {
                Ok(u) => Ok((u, 1)),
                Err(e) => Err(e),
            };
        }
        if d + 1 < toks.len() {
            assert(rest[1] == toks@[d + 1]@);
            if let Token::Punct(c) = &toks[d] {
                if *c == '-' {
                    if let Token::Literal(_, negated) = &toks[d + 1] {
                        return match number_value(k, negated) {
                            Ok(u) => Ok((u, 2)),
                            Err(e) => Err(e),
                        };
                    }
                }
            }
        }
    }
    Err(ArgsError::ExpectedInt)
}

/// Copies a name.
fn name_copy(name: &String) -> (r: String)
    ensures
        r@ == name@,
{
    name.clone()
}

impl QuickBenchArgs {
    /// Reads the arguments of the benchmark attribute from its tokens.
    pub fn from_tokens(toks: &Vec<Token>) -> (r: Result<QuickBenchArgs, ArgsError>)
        ensures
            match r {
                Ok(a) => args_of(toks_of(toks@), no_args()) == Ok::<QuickBenchArgs, ArgsFault>(a),
                Err(e) => args_of(toks_of(toks@), no_args()) == Err::<QuickBenchArgs, ArgsFault>(e@),
            },
    {
        let ghost ts = toks_of(toks@);
        let n: usize = toks.len();
        let mut acc = QuickBenchArgs {
            warmup_time_ms: None,
            bench_time_ms: None,
            warmup_iters: None,
            iters: None,
            ignore: true,
        };
        let mut pos: usize = 0;
        assert(ts.skip(0) =~= ts);
        loop
            invariant
                pos <= n == toks@.len(),
                ts == toks_of(toks@),
                args_of(ts, no_args()) == args_of(ts.skip(pos as int), acc),
            decreases n - pos,
        {
            let ghost rest = ts.skip(pos as int);
            if pos >= n {
                assert(rest.len() == 0);
                return Ok(acc);
            }
            assert(rest[0] == toks@[pos as int]@);
            let name: &String = match &toks[pos] {
                Token::Ident(name, accepted) => {
                    if !*accepted {
                        return Err(ArgsError::Keyword(name_copy(name)));
                    }
                    name
                },
                _ => {
                    return Err(ArgsError::ExpectedIdent);
                },
            };
            let eq: bool = pos + 1 < n && match &toks[pos + 1] {
                Token::Punct(c) => *c == '=',
                _ => false,
            };
            proof {
                if pos + 1 < n {
                    assert(rest[1] == toks@[pos + 1]@);
                }
            }
            if !eq {
                return Err(ArgsError::ExpectedEq);
            }
            let k: ArgKey = match key_named(name.as_str()) {
                None => {
                    return Err(ArgsError::UnknownKey(name_copy(name)));
                },
                Some(k) => k,
            };
            assert(rest.skip(2) =~= ts.skip(pos + 2));
            let (u, used) = match entry_value_exec(toks, pos + 2, k) {
                Err(e) => {
                    return Err(e);
                },
                Ok(p) => p,
            };
            acc = apply_exec(acc, u);
            let after: usize = pos + 2 + used;
            assert(rest.skip(2 + used) =~= ts.skip(after as int));
            let comma: bool = after < n && match &toks[after] {
                Token::Punct(c) => *c == ',',
                _ => false,
            };
            proof {
                if after < n {
                    assert(ts.skip(after as int)[0] == toks@[after as int]@);
                    assert(ts.skip(after as int).skip(1) =~= ts.skip(after + 1));
                }
            }
            if comma {
                pos = after + 1;
            } else {
                pos = after;
            }
        }
    }

    /// Reads the arguments of the benchmark attribute from their text: the
    /// text's tokens (see [`tokenize`]) read as [`from_tokens`] does. The
    /// tokens come from an outside lexer, so what is stated is that the
    /// result is what some tokens give, or that the text is no token stream.
    pub fn parse(attr: &str) -> (r: Result<QuickBenchArgs, ArgsError>)
        ensures
            (r matches Err(e) && e@ == ArgsFault::NotTokens) || exists|ts: Seq<Tok>|
                made_of_trees(ts) && args_of(ts, no_args()) == outcome(r),
    {
        match tokenize(attr) {
            None => Err(ArgsError::NotTokens),
            Some(toks) => {
                let r = Self::from_tokens(&toks);
                assert(args_of(toks_of(toks@), no_args()) == outcome(r));
                r
            },
        }
    }

    /// The configuration of benchmark `name` with these arguments and result
    /// files under `output_dir`. Each limit given is set; a phase given only
    /// an iteration cap runs without a time limit; a phase given nothing
    /// keeps the default time limit.
    pub fn bencher<P: Into<PathBuf>>(&self, name: &str, output_dir: P) -> (r: Bencher)
        ensures
            r@ == (BencherView { output_dir: r@.output_dir, ..args_view(*self, name@) }),
            r@.output_dir is Some,
            <P as vstd::std_specs::convert::IntoSpec<PathBuf>>::obeys_into_spec() ==> r@.output_dir
                == Some(<P as vstd::std_specs::convert::IntoSpec<PathBuf>>::into_spec(output_dir)),
    {
        let mut b = Bencher::new(name);
        if self.warmup_iters.is_some() && self.warmup_time_ms.is_none() {
            b = b.without_warmup_time();
        }
        if self.iters.is_some() && self.bench_time_ms.is_none() {
            b = b.without_bench_time();
        }
        if let Some(ms) = self.warmup_time_ms {
            b = b.with_warmup_time_ms(ms);
        }
        if let Some(ms) = self.bench_time_ms {
            b = b.with_bench_time_ms(ms);
        }
        if let Some(n) = self.warmup_iters {
            b = b.with_warmup_iters(n);
        }
        if let Some(n) = self.iters {
            b = b.with_iters(n);
        }
        b.with_output_dir(output_dir)
    }
}

/// The configuration that arguments `a` give benchmark `name` (before the
/// output directory is set).
pub open spec fn args_view(a: QuickBenchArgs, name: Seq<char>) -> BencherView {
    BencherView {
        warmup_time_ms: if a.warmup_time_ms is Some {
            a.warmup_time_ms
        } else if a.warmup_iters is Some {
            None
        } else {
            Some(DEFAULT_WARMUP_TIME_MS)
        },
        time_ms: if a.bench_time_ms is Some {
            a.bench_time_ms
        } else if a.iters is Some {
            None
        } else {
            Some(DEFAULT_BENCH_TIME_MS)
        },
        warmup_iters: a.warmup_iters,
        iters: a.iters,
        ..default_view(name)
    }
}

/// Whatever the arguments, the configuration they give can be run: each
/// phase keeps a time limit or gets an iteration cap.
pub proof fn lemma_args_runnable(a: QuickBenchArgs, name: Seq<char>)
    ensures
        args_view(a, name).phases_bounded(),
{
}



/// Each phase's limits come from that phase's arguments: its cap is the
/// cap given; its time limit is the one given, none when only a cap is
/// given, and the default one when neither is given.
pub proof fn lemma_phase_limits(a: QuickBenchArgs, name: Seq<char>)
    ensures
        args_view(a, name).warmup_iters == a.warmup_iters,
        a.warmup_time_ms is Some ==> args_view(a, name).warmup_time_ms == a.warmup_time_ms,
        a.warmup_time_ms is None && a.warmup_iters is Some ==> args_view(
            a,
            name,
        ).warmup_time_ms is None,
        a.warmup_time_ms is None && a.warmup_iters is None ==> args_view(a, name).warmup_time_ms
            == Some(DEFAULT_WARMUP_TIME_MS),
        args_view(a, name).iters == a.iters,
        a.bench_time_ms is Some ==> args_view(a, name).time_ms == a.bench_time_ms,
        a.bench_time_ms is None && a.iters is Some ==> args_view(a, name).time_ms is None,
        a.bench_time_ms is None && a.iters is None ==> args_view(a, name).time_ms == Some(
            DEFAULT_BENCH_TIME_MS,
        ),
{
}

/// The arguments of one phase do not change the other phase's limits: two
/// argument sets that agree on the warmup arguments give the same warmup
/// limits, and two that agree on the timed arguments give the same timed
/// limits.
pub proof fn lemma_phases_independent(a1: QuickBenchArgs, a2: QuickBenchArgs, name: Seq<char>)
    ensures
        a1.warmup_time_ms == a2.warmup_time_ms && a1.warmup_iters == a2.warmup_iters ==> {
            &&& args_view(a1, name).warmup_time_ms == args_view(a2, name).warmup_time_ms
            &&& args_view(a1, name).warmup_iters == args_view(a2, name).warmup_iters
        },
        a1.bench_time_ms == a2.bench_time_ms && a1.iters == a2.iters ==> {
            &&& args_view(a1, name).time_ms == args_view(a2, name).time_ms
            &&& args_view(a1, name).iters == args_view(a2, name).iters
        },
{
}

/// An `ignore` argument written with the literal `true` or `false` sets
/// whether the test is ignored to that literal's value, and reading goes
/// on after it (and after its comma, if one follows).
pub proof fn lemma_ignore_argument(b: bool, accepted: bool, rest: Seq<Tok>, acc: QuickBenchArgs)
    ensures
        args_of(
            seq![
                Tok::Ident("ignore"@, true),
                Tok::Punct('='),
                Tok::Ident(if b { "true"@ } else { "false"@ }, accepted),
            ] + rest,
            acc,
        ) == args_of(
            if rest.len() > 0 && rest[0] == Tok::Punct(',') {
                rest.skip(1)
            } else {
                rest
            },
            QuickBenchArgs { ignore: b, ..acc },
        ),
{
    reveal_strlit("ignore");
    reveal_strlit("true");
    reveal_strlit("false");
    reveal_strlit("warmup_time_ms");
    reveal_strlit("bench_time_ms");
    reveal_strlit("warmup_iters");
    reveal_strlit("iters");
    let value = if b { "true"@ } else { "false"@ };
    let ts = seq![Tok::Ident("ignore"@, true), Tok::Punct('='), Tok::Ident(value, accepted)] + rest;
    assert(ts[0] == Tok::Ident("ignore"@, true));
    assert(ts[1] == Tok::Punct('='));
    assert("ignore"@.len() == 6);
    assert("warmup_time_ms"@.len() == 14);
    assert("bench_time_ms"@.len() == 13);
    assert("warmup_iters"@.len() == 12);
    assert("iters"@.len() == 5);
    assert("true"@.len() == 4);
    assert("false"@.len() == 5);
    assert(key_of("ignore"@) == Some(ArgKey::Ignore));
    let after_eq = ts.skip(2);
    assert(after_eq[0] == Tok::Ident(value, accepted));
    assert(entry_value(ArgKey::Ignore, after_eq) == Ok::<(Update, int), ArgsFault>(
        (Update::Ignore(b), 1),
    ));
    assert(ts.skip(3) =~= rest);
}

/// `e` is one complete argument, `name = value`, optionally followed by a
/// comma; the result is what it sets.
pub open spec fn entry_of(e: Seq<Tok>) -> Option<Update> {
    if e.len() >= 3 && e[0] is Ident && e[0]->Ident_1 && e[1] == Tok::Punct('=') {
        match key_of(e[0]->Ident_0) {
            None => None,
            Some(k) => match entry_value(k, e.skip(2)) {
                Ok((u, n)) => if e.len() == 2 + n || (e.len() == 3 + n && e[2 + n] == Tok::Punct(
                    ',',
                )) {
                    Some(u)
                } else {
                    None
                },
                Err(_) => None,
            },
        }
    } else {
        None
    }
}

/// Whether an entry ends with its comma.
pub open spec fn ends_with_comma(e: Seq<Tok>) -> bool {
    e.len() > 0 && e.last() == Tok::Punct(',')
}

/// What may follow an entry without changing how it is read: anything after
/// a comma, otherwise anything that does not start with a comma.
pub open spec fn may_follow(e: Seq<Tok>, rest: Seq<Tok>) -> bool {
    ends_with_comma(e) || rest.len() == 0 || rest[0] != Tok::Punct(',')
}

/// An update that an argument can make (a number never goes to `ignore`).
pub open spec fn valid_update(u: Update) -> bool {
    u matches Update::Number(k, _) ==> k != ArgKey::Ignore
}

/// The value of a numeric argument in `a`.
pub open spec fn number_field(a: QuickBenchArgs, k: ArgKey) -> Option<u64> {
    match k {
        ArgKey::WarmupTimeMs => a.warmup_time_ms,
        ArgKey::BenchTimeMs => a.bench_time_ms,
        ArgKey::WarmupIters => a.warmup_iters,
        ArgKey::Iters => a.iters,
        ArgKey::Ignore => None,
    }
}

/// The updates applied in order.
pub open spec fn apply_all(acc: QuickBenchArgs, us: Seq<Update>) -> QuickBenchArgs
    decreases us.len(),
{
    if us.len() == 0 {
        acc
    } else {
        apply_all(apply(acc, us[0]), us.drop_first())
    }
}

/// The value of the last update of numeric argument `k`, if any.
pub open spec fn last_number(us: Seq<Update>, k: ArgKey) -> Option<u64>
    decreases us.len(),
{
    if us.len() == 0 {
        None
    } else {
        match us.last() {
            Update::Number(k2, v) => if k2 == k {
                Some(v)
            } else {
                last_number(us.drop_last(), k)
            },
            Update::Ignore(_) => last_number(us.drop_last(), k),
        }
    }
}

/// The value of the last update of `ignore`, if any.
pub open spec fn last_ignore(us: Seq<Update>) -> Option<bool>
    decreases us.len(),
{
    if us.len() == 0 {
        None
    } else {
        match us.last() {
            Update::Ignore(b) => Some(b),
            Update::Number(_, _) => last_ignore(us.drop_last()),
        }
    }
}

/// What a list of entries sets.
pub open spec fn entry_updates(es: Seq<Seq<Tok>>) -> Seq<Update> {
    es.map_values(|e: Seq<Tok>| entry_of(e)->0)
}

pub proof fn lemma_entry_valid(e: Seq<Tok>)
    ensures
        entry_of(e) matches Some(u) ==> valid_update(u) && update_key(u) == key_of(
            e[0]->Ident_0,
        )->0,
{
}

/// Reading an entry followed by more tokens applies what the entry sets,
/// then reads the rest.
pub proof fn lemma_entry_step(e: Seq<Tok>, rest: Seq<Tok>, acc: QuickBenchArgs)
    requires
        entry_of(e) is Some,
        may_follow(e, rest),
    ensures
        args_of(e + rest, acc) == args_of(rest, apply(acc, entry_of(e)->0)),
{
    let ts = e + rest;
    let name = e[0]->Ident_0;
    let k = key_of(name)->0;
    let v = e.skip(2);
    let w = ts.skip(2);
    assert(ts[0] == e[0] && ts[1] == e[1]);
    assert(w[0] == v[0]);
    if v.len() > 1 {
        assert(w[1] == v[1]);
    }
    lemma_entry_value_len(k, v);
    let (u, n) = entry_value(k, v)->Ok_0;
    if v.len() == 1 {
        assert(n == 1);
    }
    assert(entry_value(k, w) == entry_value(k, v));
    let after = ts.skip(2 + n);
    if e.len() == 2 + n {
        assert(after =~= rest);
        assert(!ends_with_comma(e)) by {
            if ends_with_comma(e) {
                assert(e.last() == e[1 + n]);
            }
        }
    } else {
        assert(after[0] == Tok::Punct(','));
        assert(after.skip(1) =~= rest);
    }
}

/// Applying two updates of the same argument leaves the later one.
pub proof fn lemma_apply_same_key(a: QuickBenchArgs, u1: Update, u2: Update)
    requires
        valid_update(u1),
        valid_update(u2),
        update_key(u1) == update_key(u2),
    ensures
        apply(apply(a, u1), u2) == apply(a, u2),
{
}

/// Updates of different arguments commute.
pub proof fn lemma_apply_commute(a: QuickBenchArgs, u1: Update, u2: Update)
    requires
        valid_update(u1),
        valid_update(u2),
        update_key(u1) != update_key(u2),
    ensures
        apply(apply(a, u1), u2) == apply(apply(a, u2), u1),
{
}

/// Of two arguments with the same name, the later one wins: the earlier one
/// may as well be left out.
pub proof fn lemma_later_argument_wins(e1: Seq<Tok>, e2: Seq<Tok>, rest: Seq<Tok>, acc: QuickBenchArgs)
    requires
        entry_of(e1) is Some,
        entry_of(e2) is Some,
        e1[0] == e2[0],
        may_follow(e2, rest),
    ensures
        args_of(e1 + e2 + rest, acc) == args_of(e2 + rest, acc),
{
    lemma_entry_valid(e1);
    lemma_entry_valid(e2);
    assert(e1 + e2 + rest =~= e1 + (e2 + rest));
    assert((e2 + rest)[0] == e2[0]);
    lemma_entry_step(e1, e2 + rest, acc);
    let a1 = apply(acc, entry_of(e1)->0);
    lemma_entry_step(e2, rest, a1);
    lemma_entry_step(e2, rest, acc);
    lemma_apply_same_key(acc, entry_of(e1)->0, entry_of(e2)->0);
}

/// Swapping two adjacent arguments with different names changes nothing.
pub proof fn lemma_argument_order_irrelevant(
    e1: Seq<Tok>,
    e2: Seq<Tok>,
    rest: Seq<Tok>,
    acc: QuickBenchArgs,
)
    requires
        entry_of(e1) is Some,
        entry_of(e2) is Some,
        e1[0] != e2[0],
        may_follow(e1, rest),
        may_follow(e2, rest),
    ensures
        args_of(e1 + e2 + rest, acc) == args_of(e2 + e1 + rest, acc),
{
    lemma_entry_valid(e1);
    lemma_entry_valid(e2);
    let u1 = entry_of(e1)->0;
    let u2 = entry_of(e2)->0;
    assert(e1 + e2 + rest =~= e1 + (e2 + rest));
    assert(e2 + e1 + rest =~= e2 + (e1 + rest));
    assert((e2 + rest)[0] == e2[0]);
    assert((e1 + rest)[0] == e1[0]);
    lemma_entry_step(e1, e2 + rest, acc);
    lemma_entry_step(e2, rest, apply(acc, u1));
    lemma_entry_step(e2, e1 + rest, acc);
    lemma_entry_step(e1, rest, apply(acc, u2));
    assert(update_key(u1) != update_key(u2)) by {
        let n1 = e1[0]->Ident_0;
        let n2 = e2[0]->Ident_0;
        assert(n1 != n2);
    }
    lemma_apply_commute(acc, u1, u2);
}

/// A list of arguments sets, in order, what each of them sets.
pub proof fn lemma_argument_list(es: Seq<Seq<Tok>>, acc: QuickBenchArgs)
    requires
        forall|i: int| 0 <= i < es.len() ==> #[trigger] entry_of(es[i]) is Some,
    ensures
        args_of(es.flatten(), acc) == Ok::<QuickBenchArgs, ArgsFault>(
            apply_all(acc, entry_updates(es)),
        ),
    decreases es.len(),
{
    if es.len() == 0 {
        assert(es.flatten() =~= Seq::<Tok>::empty());
    } else {
        let e = es[0];
        let tail = es.drop_first();
        assert(entry_of(es[0]) is Some);
        assert forall|i: int| 0 <= i < tail.len() implies #[trigger] entry_of(tail[i]) is Some by {
            assert(tail[i] == es[i + 1]);
            assert(entry_of(es[i + 1]) is Some);
        }
        let rest = tail.flatten();
        if tail.len() > 0 {
            assert(tail.flatten() == tail[0] + tail.drop_first().flatten());
            assert(entry_of(tail[0]) is Some);
            assert(rest[0] == tail[0][0]);
        }
        lemma_entry_step(e, rest, acc);
        lemma_argument_list(tail, apply(acc, entry_of(e)->0));
        assert(entry_updates(es).drop_first() =~= entry_updates(tail));
    }
}

/// Applying updates one after another: the last update is applied last.
proof fn lemma_apply_all_last(acc: QuickBenchArgs, us: Seq<Update>)
    requires
        us.len() > 0,
    ensures
        apply_all(acc, us) == apply(apply_all(acc, us.drop_last()), us.last()),
    decreases us.len(),
{
    if us.len() > 1 {
        lemma_apply_all_last(apply(acc, us[0]), us.drop_first());
        assert(us.drop_first().drop_last() =~= us.drop_last().drop_first());
        assert(us.drop_first().last() == us.last());
        assert(us.drop_last()[0] == us[0]);
        assert(apply_all(acc, us.drop_last()) == apply_all(
            apply(acc, us.drop_last()[0]),
            us.drop_last().drop_first(),
        ));
    } else {
        assert(us.drop_last() =~= Seq::<Update>::empty());
        assert(us.drop_first() =~= Seq::<Update>::empty());
        assert(us.last() == us[0]);
        assert(apply_all(acc, us) == apply_all(apply(acc, us[0]), us.drop_first()));
    }
}

/// After a list of updates, each numeric argument holds the value of its
/// last update, or what it held before when it had none; `ignore` likewise.
pub proof fn lemma_last_update_wins(acc: QuickBenchArgs, us: Seq<Update>, k: ArgKey)
    requires
        forall|i: int| 0 <= i < us.len() ==> valid_update(#[trigger] us[i]),
        k != ArgKey::Ignore,
    ensures
        number_field(apply_all(acc, us), k) == match last_number(us, k) {
            Some(v) => Some(v),
            None => number_field(acc, k),
        },
        apply_all(acc, us).ignore == match last_ignore(us) {
            Some(b) => b,
            None => acc.ignore,
        },
    decreases us.len(),
{
    if us.len() > 0 {
        let p = us.drop_last();
        assert forall|i: int| 0 <= i < p.len() implies valid_update(#[trigger] p[i]) by {
            assert(p[i] == us[i]);
        }
        lemma_last_update_wins(acc, p, k);
        lemma_apply_all_last(acc, us);
        assert(valid_update(us[us.len() - 1]));
    }
}

/// Every argument of a list of arguments is the value of the last argument
/// with its name, or its value when none is given (none for a limit, `true`
/// for `ignore`).
pub proof fn lemma_argument_list_values(es: Seq<Seq<Tok>>, k: ArgKey)
    requires
        forall|i: int| 0 <= i < es.len() ==> #[trigger] entry_of(es[i]) is Some,
        k != ArgKey::Ignore,
    ensures
        args_of(es.flatten(), no_args()) matches Ok(a) && number_field(a, k) == last_number(
            entry_updates(es),
            k,
        ) && a.ignore == match last_ignore(entry_updates(es)) {
            Some(b) => b,
            None => true,
        },
{
    lemma_argument_list(es, no_args());
    let us = entry_updates(es);
    assert forall|i: int| 0 <= i < us.len() implies valid_update(#[trigger] us[i]) by {
        assert(entry_of(es[i]) is Some);
        lemma_entry_valid(es[i]);
    }
    lemma_last_update_wins(no_args(), us, k);
}


/// No two updates are for the same argument.
pub open spec fn distinct_keys(us: Seq<Update>) -> bool {
    forall|i: int, j: int| 0 <= i < j < us.len() ==> update_key(us[i]) != update_key(us[j])
}

/// With no argument updated twice, the last value of an argument is its
/// only value.
proof fn lemma_last_member(us: Seq<Update>, k: ArgKey, v: u64, b: bool)
    requires
        distinct_keys(us),
    ensures
        last_number(us, k) == Some(v) <==> us.contains(Update::Number(k, v)),
        last_ignore(us) == Some(b) <==> us.contains(Update::Ignore(b)),
    decreases us.len(),
{
    if us.len() > 0 {
        let p = us.drop_last();
        let n = us.len() - 1;
        let x = us.last();
        assert(x == us[n]);
        assert(distinct_keys(p)) by {
            assert forall|i: int, j: int| 0 <= i < j < p.len() implies update_key(p[i])
                != update_key(p[j]) by {
                assert(p[i] == us[i] && p[j] == us[j]);
            }
        }
        lemma_last_member(p, k, v, b);
        // us contains y exactly when p does or y is the last update
        assert forall|y: Update| us.contains(y) <==> (p.contains(y) || y == x) by {
            if us.contains(y) {
                let i = choose|i: int| 0 <= i < us.len() && us[i] == y;
                if i < n {
                    assert(p[i] == y);
                }
            }
            if p.contains(y) {
                let i = choose|i: int| 0 <= i < p.len() && p[i] == y;
                assert(us[i] == y);
            }
        }
        // an update in p never has the key of the last one
        assert forall|y: Update| p.contains(y) implies update_key(y) != update_key(x) by {
            let i = choose|i: int| 0 <= i < p.len() && p[i] == y;
            assert(us[i] == y);
        }
    }
}

/// Updates of distinct arguments, applied in any order, give the same
/// arguments.
pub proof fn lemma_updates_order_irrelevant(acc: QuickBenchArgs, us1: Seq<Update>, us2: Seq<Update>)
    requires
        forall|i: int| 0 <= i < us1.len() ==> valid_update(#[trigger] us1[i]),
        forall|i: int| 0 <= i < us2.len() ==> valid_update(#[trigger] us2[i]),
        distinct_keys(us1),
        distinct_keys(us2),
        forall|u: Update| us1.contains(u) <==> us2.contains(u),
    ensures
        apply_all(acc, us1) == apply_all(acc, us2),
{
    let a1 = apply_all(acc, us1);
    let a2 = apply_all(acc, us2);
    assert forall|k: ArgKey| k != ArgKey::Ignore implies number_field(a1, k) == number_field(a2, k) by {
        lemma_last_update_wins(acc, us1, k);
        lemma_last_update_wins(acc, us2, k);
        match last_number(us1, k) {
            Some(v) => {
                lemma_last_member(us1, k, v, true);
                lemma_last_member(us2, k, v, true);
            },
            None => {
                if last_number(us2, k) is Some {
                    let v = last_number(us2, k)->0;
                    lemma_last_member(us1, k, v, true);
                    lemma_last_member(us2, k, v, true);
                }
            },
        }
    }
    lemma_last_update_wins(acc, us1, ArgKey::Iters);
    lemma_last_update_wins(acc, us2, ArgKey::Iters);
    match last_ignore(us1) {
        Some(b) => {
            lemma_last_member(us1, ArgKey::Iters, 0, b);
            lemma_last_member(us2, ArgKey::Iters, 0, b);
        },
        None => {
            if last_ignore(us2) is Some {
                let b = last_ignore(us2)->0;
                lemma_last_member(us1, ArgKey::Iters, 0, b);
                lemma_last_member(us2, ArgKey::Iters, 0, b);
            }
        },
    }
    assert(number_field(a1, ArgKey::WarmupTimeMs) == number_field(a2, ArgKey::WarmupTimeMs));
    assert(number_field(a1, ArgKey::BenchTimeMs) == number_field(a2, ArgKey::BenchTimeMs));
    assert(number_field(a1, ArgKey::WarmupIters) == number_field(a2, ArgKey::WarmupIters));
    assert(number_field(a1, ArgKey::Iters) == number_field(a2, ArgKey::Iters));
}

/// Arguments with distinct names may be written in any order: two lists of
/// the same arguments, each naming every argument at most once, give the
/// same arguments.
pub proof fn lemma_argument_permutation(es1: Seq<Seq<Tok>>, es2: Seq<Seq<Tok>>, acc: QuickBenchArgs)
    requires
        forall|i: int| 0 <= i < es1.len() ==> #[trigger] entry_of(es1[i]) is Some,
        forall|i: int| 0 <= i < es2.len() ==> #[trigger] entry_of(es2[i]) is Some,
        distinct_keys(entry_updates(es1)),
        distinct_keys(entry_updates(es2)),
        es1.to_multiset() == es2.to_multiset(),
    ensures
        args_of(es1.flatten(), acc) == args_of(es2.flatten(), acc),
{
    lemma_argument_list(es1, acc);
    lemma_argument_list(es2, acc);
    let us1 = entry_updates(es1);
    let us2 = entry_updates(es2);
    es1.to_multiset_ensures();
    es2.to_multiset_ensures();
    assert forall|i: int| 0 <= i < us1.len() implies valid_update(#[trigger] us1[i]) by {
        assert(entry_of(es1[i]) is Some);
        lemma_entry_valid(es1[i]);
    }
    assert forall|i: int| 0 <= i < us2.len() implies valid_update(#[trigger] us2[i]) by {
        assert(entry_of(es2[i]) is Some);
        lemma_entry_valid(es2[i]);
    }
    assert forall|u: Update| us1.contains(u) implies us2.contains(u) by {
        let i = choose|i: int| 0 <= i < us1.len() && us1[i] == u;
        assert(es1.contains(es1[i]));
        assert(es1.to_multiset().count(es1[i]) > 0);
        assert(es2.to_multiset().count(es1[i]) > 0);
        assert(es2.contains(es1[i]));
        let j = choose|j: int| 0 <= j < es2.len() && es2[j] == es1[i];
        assert(us2[j] == u);
    }
    assert forall|u: Update| us2.contains(u) implies us1.contains(u) by {
        let i = choose|i: int| 0 <= i < us2.len() && us2[i] == u;
        assert(es2.contains(es2[i]));
        assert(es2.to_multiset().count(es2[i]) > 0);
        assert(es1.to_multiset().count(es2[i]) > 0);
        assert(es1.contains(es2[i]));
        let j = choose|j: int| 0 <= j < es1.len() && es1[j] == es2[i];
        assert(us1[j] == u);
    }
    lemma_updates_order_irrelevant(acc, us1, us2);
}

/// The message for an unknown argument name `name`.
pub open spec fn unknown_key_message(name: Seq<char>) -> Seq<char> {
    "unknown quick_bench attribute: `"@ + name
        + "` (expected: warmup_time_ms, bench_time_ms, warmup_iters, iters, ignore)"@
}

/// The message that explains an error.
pub open spec fn fault_message(f: ArgsFault) -> Seq<char> {
    match f {
        ArgsFault::NotTokens => "cannot parse string into token stream"@,
        ArgsFault::ExpectedIdent => "expected identifier"@,
        ArgsFault::Keyword(name) => "expected identifier, found keyword `"@ + name + "`"@,
        ArgsFault::ExpectedEq => "expected `=`"@,
        ArgsFault::ExpectedInt => "expected integer literal"@,
        ArgsFault::Int(IntError::Empty) => "cannot parse integer from empty string"@,
        ArgsFault::Int(IntError::InvalidDigit) => "invalid digit found in string"@,
        ArgsFault::Int(IntError::TooLarge) => "number too large to fit in target type"@,
        ArgsFault::ExpectedBool => "expected boolean literal"@,
        ArgsFault::UnknownKey(name) => unknown_key_message(name),
    }
}

impl ArgsError {
    /// The message that explains this error (see [`fault_message`]).
    pub fn message(&self) -> (r: String)
        ensures
            r@ == fault_message(self@),
    {
        match self {
            ArgsError::NotTokens => "cannot parse string into token stream".to_owned(),
            ArgsError::ExpectedIdent => "expected identifier".to_owned(),
            ArgsError::Keyword(name) => {
                let mut m = "expected identifier, found keyword `".to_owned();
                m.append(name.as_str());
                m.append("`");
                m
            },
            ArgsError::ExpectedEq => "expected `=`".to_owned(),
            ArgsError::ExpectedInt => "expected integer literal".to_owned(),
            ArgsError::Int(IntError::Empty) => "cannot parse integer from empty string".to_owned(),
            ArgsError::Int(IntError::InvalidDigit) => "invalid digit found in string".to_owned(),
            ArgsError::Int(IntError::TooLarge) => "number too large to fit in target type".to_owned(),
            ArgsError::ExpectedBool => "expected boolean literal".to_owned(),
            ArgsError::UnknownKey(name) => {
                let mut m = "unknown quick_bench attribute: `".to_owned();
                m.append(name.as_str());
                m.append(
                    "` (expected: warmup_time_ms, bench_time_ms, warmup_iters, iters, ignore)",
                );
                m
            },
        }
    }
}

} // verus!
