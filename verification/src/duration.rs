//! Reading the unit of a duration written as `Duration`'s `Debug` output
//! writes it, such as `123.456ms` or `1.234s`.
use vstd::prelude::*;

use crate::text::{chars_of, string_push, trim, trim_range};

verus! {

/// The unit a duration is written in.
#[derive(PartialEq, Eq, Structural, Clone, Copy, Debug)]
pub enum TimeUnit {
    Seconds,
    Millis,
    Micros,
    Nanos,
}

/// Whether `t` ends with the two characters `a`, `b`.
pub open spec fn ends_with2(t: Seq<char>, a: char, b: char) -> bool {
    t.len() >= 2 && t[t.len() - 2] == a && t[t.len() - 1] == b
}

/// The number and the unit of a duration text: surrounding whitespace is
/// removed, then the first of the suffixes `ms`, `µs`, `us`, `ns` and `s`
/// that ends the text gives the unit, and what precedes it is the number.
/// None when the text ends with none of them.
pub open spec fn split_unit(s: Seq<char>) -> Option<(Seq<char>, TimeUnit)> {
    let t = trim(s);
    if ends_with2(t, 'm', 's') {
        Some((t.take(t.len() - 2), TimeUnit::Millis))
    } else if ends_with2(t, '\u{b5}', 's') || ends_with2(t, 'u', 's') {
        Some((t.take(t.len() - 2), TimeUnit::Micros))
    } else if ends_with2(t, 'n', 's') {
        Some((t.take(t.len() - 2), TimeUnit::Nanos))
    } else if t.len() >= 1 && t[t.len() - 1] == 's' {
        Some((t.take(t.len() - 1), TimeUnit::Seconds))
    } else {
        None
    }
}

impl TimeUnit {
    /// Nanoseconds in one of this unit.
    pub fn nanos(&self) -> (r: u64)
        ensures
            r == match *self {
                TimeUnit::Seconds => 1_000_000_000u64,
                TimeUnit::Millis => 1_000_000u64,
                TimeUnit::Micros => 1_000u64,
                TimeUnit::Nanos => 1u64,
            },
    {
        match self {
            TimeUnit::Seconds => 1_000_000_000,
            TimeUnit::Millis => 1_000_000,
            TimeUnit::Micros => 1_000,
            TimeUnit::Nanos => 1,
        }
    }
}

/// Splits a duration text into its number and its unit (see
/// [`split_unit`]).
pub fn duration_unit(s: &str) -> (r: Option<(String, TimeUnit)>)
    ensures
        match r {
            Some((num, unit)) => split_unit(s@) == Some((num@, unit)),
            None => split_unit(s@) is None,
        },
{
    let cs = chars_of(s);
    let (a, b) = trim_range(&cs, 0, cs.len());
    let ghost t = cs@.subrange(a as int, b as int);
    assert(cs@.subrange(0, cs@.len() as int) =~= cs@);
    let len: usize = b - a;
    let cut: usize;
    let unit: TimeUnit;
    if len >= 2 && cs[b - 2] == 'm' && cs[b - 1] == 's' {
        cut = 2;
        unit = TimeUnit::Millis;
    } else if len >= 2 && (cs[b - 2] == '\u{b5}' || cs[b - 2] == 'u') && cs[b - 1] == 's' {
        cut = 2;
        unit = TimeUnit::Micros;
    } else if len >= 2 && cs[b - 2] == 'n' && cs[b - 1] == 's' {
        cut = 2;
        unit = TimeUnit::Nanos;
    } else if len >= 1 && cs[b - 1] == 's' {
        cut = 1;
        unit = TimeUnit::Seconds;
    } else {
        return None;
    }
    let end: usize = b - cut;
    let mut num = String::new();
    let mut i: usize = a;
    while i < end
        invariant
            a <= i <= end <= b <= cs@.len(),
            num@ == cs@.subrange(a as int, i as int),
        decreases end - i,
    {
        string_push(&mut num, cs[i]);
        assert(cs@.subrange(a as int, i + 1) =~= cs@.subrange(a as int, i as int).push(
            cs@[i as int],
        ));
        i = i + 1;
    }
    assert(num@ =~= t.take(t.len() - cut));
    Some((num, unit))
}

} // verus!
