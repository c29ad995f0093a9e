//! The function the benchmark attribute is put on: its name and the checks
//! made of its parameters (exactly one, named by a plain identifier), and
//! the plan of the benchmark test the attribute makes of it.
use vstd::prelude::*;

use crate::args::{args_view, no_args, outcome, args_of, ArgsError, ArgsFault, QuickBenchArgs};
use crate::config::{Bencher, BencherView};
use crate::tokens::{made_of_trees, tokenize, toks_of, Tok};

verus! {

/// One parameter of a function, as far as the checks look at it.
pub enum FnParam {
    /// `self`, `&self`, `&mut self` and the like.
    Receiver,
    /// A parameter named by an identifier (such as `b: Bencher` or
    /// `mut b: Bencher`), with that identifier.
    Ident(String),
    /// A parameter named by another pattern (such as `(a, b): (u8, u8)`).
    Pattern,
}

/// Why a function cannot carry the benchmark attribute.
#[derive(PartialEq, Eq, Structural, Clone, Copy, Debug)]
pub enum ParamError {
    /// The function has no parameter, or more than one.
    NotOneParameter,
    /// The parameter is not named by an identifier.
    NotIdentifier,
    /// The parameter is the receiver.
    SelfParameter,
}

/// The message for a refused function.
pub open spec fn param_error_message(e: ParamError) -> Seq<char> {
    match e {
        ParamError::NotOneParameter => "quick_bench function must have exactly one parameter: `b: Bencher`"@,
        ParamError::NotIdentifier => "parameter must be a simple identifier"@,
        ParamError::SelfParameter => "quick_bench function cannot have self parameter"@,
    }
}

/// What the parameter checks give for parameters `params`: the name of the
/// bencher parameter, or why the function is refused.
pub open spec fn param_check(params: Seq<FnParam>) -> Result<Seq<char>, ParamError> {
    if params.len() != 1 {
        Err(ParamError::NotOneParameter)
    } else {
        match params[0] {
            FnParam::Receiver => Err(ParamError::SelfParameter),
            FnParam::Pattern => Err(ParamError::NotIdentifier),
            FnParam::Ident(name) => Ok(name@),
        }
    }
}

/// The name of the bencher parameter of a function with parameters
/// `params`: the function must have exactly one parameter, named by an
/// identifier and not the receiver.
pub fn bench_parameter(params: &Vec<FnParam>) -> (r: Result<String, ParamError>)
    ensures
        match r {
            Ok(n) => param_check(params@) == Ok::<Seq<char>, ParamError>(n@),
            Err(e) => param_check(params@) == Err::<Seq<char>, ParamError>(e),
        },
{
    if params.len() != 1 {
        return Err(ParamError::NotOneParameter);
    }
    match &params[0] {
        FnParam::Receiver => Err(ParamError::SelfParameter),
        FnParam::Pattern => Err(ParamError::NotIdentifier),
        FnParam::Ident(name) => Ok(name.clone()),
    }
}

impl ParamError {
    /// The message for this error (see [`param_error_message`]).
    pub fn message(&self) -> (r: &'static str)
        ensures
            r@ == param_error_message(*self),
    {
        match self {
            ParamError::NotOneParameter => "quick_bench function must have exactly one parameter: `b: Bencher`",
            ParamError::NotIdentifier => "parameter must be a simple identifier",
            ParamError::SelfParameter => "quick_bench function cannot have self parameter",
        }
    }
}

/// The name and the parameters of the function item written in `item`
/// (`syn::parse_str::<syn::ItemFn>`, each parameter converted to a
/// [`FnParam`]); none when `item` is no function item. Nothing is stated of
/// the result: `syn` lexes through `proc_macro2`, whose lexer depends on the
/// context (see [`crate::tokens::lex`]).
#[verifier::external_body]
pub fn item_signature(item: &str) -> Option<(String, Vec<FnParam>)> {
    let f = syn::parse_str::<syn::ItemFn>(item).ok()?;
    let mut params = Vec::new();
    for arg in f.sig.inputs.iter() {
        params.push(match arg {
            syn::FnArg::Receiver(_) => FnParam::Receiver,
            syn::FnArg::Typed(t) => match &*t.pat {
                syn::Pat::Ident(p) => FnParam::Ident(p.ident.to_string()),
                _ => FnParam::Pattern,
            },
        });
    }
    Some((f.sig.ident.to_string(), params))
}

/// Why the benchmark attribute refuses what it is given.
#[derive(Debug)]
pub enum QuickBenchError {
    /// The attribute's arguments are refused.
    Args(ArgsError),
    /// The item is no function.
    NotAFunction,
    /// The function's parameters are refused.
    Param(ParamError),
}

/// What the benchmark attribute makes of a function: reads the attribute's
/// arguments `attr`, then the function item `item`, then checks its
/// parameters, stopping at the first that is refused. The plan is the test's
/// name (the function's), the name the bencher is bound to, the bencher
/// configured by the arguments for a benchmark named after the function
/// with result files under `manifest_dir`, and whether the test is ignored.
///
/// The tokens of `attr` and the signature of `item` come from outside
/// lexers and parsers, so what is stated is that the outcome is what the
/// arguments of some tokens and the checks of some parameters give.
pub fn quick_bench_plan(attr: &str, item: &str, manifest_dir: &str) -> (r: Result<
    (String, String, Bencher, bool),
    QuickBenchError,
>)
    ensures
        match r {
            Ok((name, param, b, ignore)) => {
                &&& exists|ts: Seq<Tok>, a: QuickBenchArgs|
                    made_of_trees(ts) && args_of(ts, no_args()) == Ok::<QuickBenchArgs, ArgsFault>(a) && b@ == (
                    BencherView { output_dir: b@.output_dir, ..args_view(a, name@) })
                        && ignore == a.ignore
                &&& b@.output_dir is Some
                &&& exists|ps: Seq<FnParam>| param_check(ps) == Ok::<Seq<char>, ParamError>(param@)
            },
            Err(QuickBenchError::Args(e)) => e@ == ArgsFault::NotTokens || exists|ts: Seq<Tok>|
                made_of_trees(ts) && args_of(ts, no_args()) == Err::<QuickBenchArgs, ArgsFault>(e@),
            Err(QuickBenchError::NotAFunction) => true,
            Err(QuickBenchError::Param(e)) => exists|ps: Seq<FnParam>|
                param_check(ps) == Err::<Seq<char>, ParamError>(e),
        },
{
    let args = match tokenize(attr) {
        None => {
            return Err(QuickBenchError::Args(ArgsError::NotTokens));
        },
        Some(toks) => match QuickBenchArgs::from_tokens(&toks) {
            Ok(a) => a,
            Err(e) => {
                assert(args_of(toks_of(toks@), no_args()) == outcome(Err(e)));
                return Err(QuickBenchError::Args(e));
            },
        },
    };
    let (name, params) = match item_signature(item) {
        None => {
            return Err(QuickBenchError::NotAFunction);
        },
        Some(sig) => sig,
    };
    let param = match bench_parameter(&params) {
        Ok(p) => p,
        Err(e) => {
            return Err(QuickBenchError::Param(e));
        },
    };
    let b = args.bencher(name.as_str(), manifest_dir);
    Ok((name, param, b, args.ignore))
}

impl QuickBenchError {
    /// The message for this error: the argument error's or the parameter
    /// error's message, or that the item is no function.
    pub fn message(&self) -> (r: String)
        ensures
            match self {
                QuickBenchError::Args(e) => r@ == crate::args::fault_message(e@),
                QuickBenchError::NotAFunction => r@ == "expected a function item"@,
                QuickBenchError::Param(e) => r@ == param_error_message(*e),
            },
    {
        match self {
            QuickBenchError::Args(e) => e.message(),
            QuickBenchError::NotAFunction => "expected a function item".to_owned(),
            QuickBenchError::Param(e) => e.message().to_owned(),
        }
    }
}

} // verus!
