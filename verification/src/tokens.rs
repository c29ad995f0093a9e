//! Rust tokens of attribute text, as `proc_macro2` lexes them, and the
//! value of an integer literal, as `syn` reads it.
use vstd::prelude::*;

use crate::text::{all_digits, chars_of, parse_u64_range, parse_u64_spec};

verus! {

/// One token tree of attribute text, as `proc_macro2` lexes it.
pub enum RawToken {
    /// An identifier or keyword, as written (a raw identifier keeps `r#`).
    Ident(String),
    /// A punctuation character.
    Punct(char),
    /// A literal, as written.
    Literal(String),
    /// A delimited group: `( .. )`, `[ .. ]` or `{ .. }`.
    Group,
}

/// Lexes `text` into Rust token trees: `str::parse::<proc_macro2::TokenStream>`,
/// with each top-level tree converted to a [`RawToken`] (an identifier and a
/// literal by their text, a punctuation by its character, a group as a
/// group); none when the text is no token stream. Nothing is stated of the
/// result: `proc_macro2` lexes with the compiler inside a procedural macro
/// and with its own lexer elsewhere, and the two can differ on one text.
#[verifier::external_body]
pub fn lex(text: &str) -> Option<Vec<RawToken>> {
    let stream = text.parse::<proc_macro2::TokenStream>().ok()?;
    let mut out = Vec::new();
    for tree in stream {
        out.push(match tree {
            proc_macro2::TokenTree::Ident(i) => RawToken::Ident(i.to_string()),
            proc_macro2::TokenTree::Punct(p) => RawToken::Punct(p.as_char()),
            proc_macro2::TokenTree::Literal(l) => RawToken::Literal(l.to_string()),
            proc_macro2::TokenTree::Group(_) => RawToken::Group,
        });
    }
    Some(out)
}

/// The base-10 digits of the integer literal that `text` is, as `syn` reads
/// it (`syn::parse_str::<syn::LitInt>`, then `LitInt::base10_digits`); none
/// when `text` is no integer literal. Nothing is stated of the result: `syn`
/// lexes through `proc_macro2`, whose lexer depends on the context (see
/// [`lex`]).
#[verifier::external_body]
pub fn int_literal_digits(text: &str) -> Option<String> {
    syn::parse_str::<syn::LitInt>(text).ok().map(|lit| lit.base10_digits().to_owned())
}

/// Whether `syn` accepts `name` as an identifier
/// (`syn::parse_str::<syn::Ident>` succeeds): keywords and `_` are refused.
/// Nothing is stated of the result (see [`lex`]).
#[verifier::external_body]
pub fn syn_accepts_ident(name: &str) -> bool {
    syn::parse_str::<syn::Ident>(name).is_ok()
}

/// A token of attribute text with what the arguments need to know of it.
pub enum Token {
    /// An identifier or keyword, and whether `syn` accepts it as an
    /// identifier.
    Ident(String, bool),
    Punct(char),
    /// A literal: the base-10 digits of the integer literal it is, and of
    /// the integer literal that it is with a `-` in front, if any.
    Literal(Option<String>, Option<String>),
    Group,
}

/// [`Token`] with its texts as sequences of characters.
pub enum Tok {
    Ident(Seq<char>, bool),
    Punct(char),
    Literal(Option<Seq<char>>, Option<Seq<char>>),
    Group,
}

pub open spec fn opt_view(o: Option<String>) -> Option<Seq<char>> {
    match o {
        Some(s) => Some(s@),
        None => None,
    }
}

impl View for Token {
    type V = Tok;

    open spec fn view(&self) -> Tok {
        match self {
            Token::Ident(s, ok) => Tok::Ident(s@, *ok),
            Token::Punct(c) => Tok::Punct(*c),
            Token::Literal(d, n) => Tok::Literal(opt_view(*d), opt_view(*n)),
            Token::Group => Tok::Group,
        }
    }
}

/// The tokens of a vector of tokens.
pub open spec fn toks_of(v: Seq<Token>) -> Seq<Tok> {
    v.map_values(|t: Token| t@)
}

/// [`RawToken`] with its texts as sequences of characters.
pub enum RawTok {
    Ident(Seq<char>),
    Punct(char),
    Literal(Seq<char>),
    Group,
}

impl View for RawToken {
    type V = RawTok;

    open spec fn view(&self) -> RawTok {
        match self {
            RawToken::Ident(s) => RawTok::Ident(s@),
            RawToken::Punct(c) => RawTok::Punct(*c),
            RawToken::Literal(s) => RawTok::Literal(s@),
            RawToken::Group => RawTok::Group,
        }
    }
}

/// The token made of a lexed token tree: an identifier with whether `syn`
/// accepts it (`accepted`), a literal with the digits `syn` reads in it and
/// in it with a `-` in front (`digits`, `negated`); punctuation and groups
/// as they are.
pub open spec fn token_from_raw(
    raw: RawTok,
    accepted: bool,
    digits: Option<Seq<char>>,
    negated: Option<Seq<char>>,
) -> Tok {
    match raw {
        RawTok::Ident(name) => Tok::Ident(name, accepted),
        RawTok::Punct(c) => Tok::Punct(c),
        RawTok::Literal(_) => Tok::Literal(digits, negated),
        RawTok::Group => Tok::Group,
    }
}

/// The tokens made of lexed token trees, position by position (see
/// [`token_from_raw`]).
pub open spec fn tokens_from_raw_spec(
    raw: Seq<RawTok>,
    accepted: Seq<bool>,
    digits: Seq<Option<Seq<char>>>,
    negated: Seq<Option<Seq<char>>>,
) -> Seq<Tok> {
    Seq::new(raw.len(), |i: int| token_from_raw(raw[i], accepted[i], digits[i], negated[i]))
}

/// `ts` is made of some lexed token trees and what `syn` said of them.
pub open spec fn made_of_trees(ts: Seq<Tok>) -> bool {
    exists|
        raw: Seq<RawTok>,
        accepted: Seq<bool>,
        digits: Seq<Option<Seq<char>>>,
        negated: Seq<Option<Seq<char>>>,
    |
        #![trigger tokens_from_raw_spec(raw, accepted, digits, negated)]
        accepted.len() == raw.len() && digits.len() == raw.len() && negated.len() == raw.len()
            && ts == tokens_from_raw_spec(raw, accepted, digits, negated)
}

/// The options of texts of a vector of optional strings.
pub open spec fn opt_views(v: Seq<Option<String>>) -> Seq<Option<Seq<char>>> {
    v.map_values(|o: Option<String>| opt_view(o))
}

/// Combines lexed token trees with what `syn` said of them: at position
/// `i`, whether it accepts the identifier (`accepted[i]`) and the digits it
/// reads in the literal and in the literal with a `-` in front
/// (`digits[i]`, `negated[i]`).
pub fn tokens_from_raw(
    raw: &Vec<RawToken>,
    accepted: &Vec<bool>,
    digits: &Vec<Option<String>>,
    negated: &Vec<Option<String>>,
) -> (r: Vec<Token>)
    requires
        accepted.len() == raw.len(),
        digits.len() == raw.len(),
        negated.len() == raw.len(),
    ensures
        toks_of(r@) == tokens_from_raw_spec(
            raw@.map_values(|t: RawToken| t@),
            accepted@,
            opt_views(digits@),
            opt_views(negated@),
        ),
{
    let ghost want = tokens_from_raw_spec(
        raw@.map_values(|t: RawToken| t@),
        accepted@,
        opt_views(digits@),
        opt_views(negated@),
    );
    let mut out: Vec<Token> = Vec::new();
    let mut i: usize = 0;
    while i < raw.len()
        invariant
            i <= raw.len(),
            accepted.len() == raw.len(),
            digits.len() == raw.len(),
            negated.len() == raw.len(),
            out.len() == i,
            want.len() == raw.len(),
            want == tokens_from_raw_spec(
                raw@.map_values(|t: RawToken| t@),
                accepted@,
                opt_views(digits@),
                opt_views(negated@),
            ),
            forall|k: int| 0 <= k < i ==> (#[trigger] out@[k])@ == want[k],
        decreases raw.len() - i,
    {
        let t = match &raw[i] {
            RawToken::Ident(name) => Token::Ident(name.clone(), accepted[i]),
            RawToken::Punct(c) => Token::Punct(*c),
            RawToken::Literal(_) => Token::Literal(digits[i].clone(), negated[i].clone()),
            RawToken::Group => Token::Group,
        };
        assert(t@ == want[i as int]);
        out.push(t);
        i = i + 1;
    }
    assert(toks_of(out@) =~= want);
    out
}

/// The tokens of attribute text: lexed by `proc_macro2`, each identifier
/// checked and each literal read by `syn` (see [`tokens_from_raw`]). None
/// when the text is no token stream.
pub fn tokenize(text: &str) -> (r: Option<Vec<Token>>)
    ensures
        r matches Some(v) ==> made_of_trees(toks_of(v@)),
{
    let raw = lex(text)?;
    let mut accepted: Vec<bool> = Vec::new();
    let mut digits: Vec<Option<String>> = Vec::new();
    let mut negated: Vec<Option<String>> = Vec::new();
    let mut i: usize = 0;
    while i < raw.len()
        invariant
            i <= raw.len(),
            accepted.len() == i,
            digits.len() == i,
            negated.len() == i,
        decreases raw.len() - i,
    {
        match &raw[i] {
            RawToken::Ident(name) => {
                accepted.push(syn_accepts_ident(name.as_str()));
                digits.push(None);
                negated.push(None);
            },
            RawToken::Literal(lit) => {
                let mut minus = "-".to_owned();
                minus.append(lit.as_str());
                accepted.push(false);
                digits.push(int_literal_digits(lit.as_str()));
                negated.push(int_literal_digits(minus.as_str()));
            },
            _ => {
                accepted.push(false);
                digits.push(None);
                negated.push(None);
            },
        }
        i = i + 1;
    }
    let toks = tokens_from_raw(&raw, &accepted, &digits, &negated);
    Some(toks)
}

/// Why `str::parse::<u64>` refuses a text.
#[derive(PartialEq, Eq, Structural, Clone, Copy, Debug)]
pub enum IntError {
    /// The text is empty.
    Empty,
    /// The text holds a character that is no digit (a sign alone counts).
    InvalidDigit,
    /// The number does not fit in a `u64`.
    TooLarge,
}

/// Why `str::parse::<u64>` refuses `d` (meaningful when it does): empty
/// text, a character that is no digit after an optional leading `+` (or a
/// sign alone), or a number too large for a `u64`.
pub open spec fn int_error(d: Seq<char>) -> IntError {
    if d.len() == 0 {
        IntError::Empty
    } else {
        let body = if d[0] == '+' {
            d.drop_first()
        } else {
            d
        };
        if body.len() > 0 && all_digits(body) {
            IntError::TooLarge
        } else {
            IntError::InvalidDigit
        }
    }
}

/// Parses `d` as `str::parse::<u64>` does: the value, or why not.
pub fn parse_u64_text(d: &str) -> (r: Result<u64, IntError>)
    ensures
        match r {
            Ok(v) => parse_u64_spec(d@) == Some(v),
            Err(e) => parse_u64_spec(d@) is None && e == int_error(d@),
        },
{
    let cs = chars_of(d);
    let n: usize = cs.len();
    assert(cs@.subrange(0, n as int) =~= cs@);
    match parse_u64_range(&cs, 0, n) {
        Some(v) => Ok(v),
        None => {
            if n == 0 {
                return Err(IntError::Empty);
            }
            let start: usize = if cs[0] == '+' {
                1
            } else {
                0
            };
            let ghost body = cs@.subrange(start as int, n as int);
            assert(body =~= (if cs@[0] == '+' { cs@.drop_first() } else { cs@ }));
            if start == n {
                return Err(IntError::InvalidDigit);
            }
            let mut i: usize = start;
            while i < n
                invariant
                    start <= i <= n == cs@.len(),
                    0 < n,
                    cs@ == d@,
                    parse_u64_spec(d@) is None,
                    body == cs@.subrange(start as int, n as int),
                    body == (if cs@[0] == '+' { cs@.drop_first() } else { cs@ }),
                    forall|t: int| start <= t < i ==> '0' <= #[trigger] cs@[t] <= '9',
                decreases n - i,
            {
                if cs[i] < '0' || cs[i] > '9' {
                    assert(!crate::text::is_digit(body[i - start]));
                    return Err(IntError::InvalidDigit);
                }
                i = i + 1;
            }
            assert(all_digits(body)) by {
                assert forall|t: int| 0 <= t < body.len() implies crate::text::is_digit(
                    #[trigger] body[t],
                ) by {
                    assert(body[t] == cs@[start + t]);
                }
            }
            Err(IntError::TooLarge)
        },
    }
}

} // verus!
