//! The result file of a benchmark run, and reading the previous run's
//! median back from it.
use vstd::prelude::*;

use crate::stats::BenchResult;
use crate::text::{
    chars_of, decimal, find_newline, first_with_prefix, has_prefix, is_digit, lines,
    parse_u64_range, parse_u64_spec, push_decimal, slots, strip_cr, trim, trim_end, trim_range,
    trim_start,
};

verus! {

/// The text that `Duration`'s `Debug` formatting gives for a duration of
/// `nanos` nanoseconds, such as `1.5µs` or `2.000000001s`.
pub uninterp spec fn duration_debug_text(nanos: u64) -> Seq<char>;

/// Formats a duration of `nanos` nanoseconds as `Duration`'s `Debug`
/// implementation does (`format!("{:?}", Duration::from_nanos(nanos))`).
/// The text is named, not described: it is whatever the standard library
/// prints for that duration.
#[verifier::external_body]
pub fn duration_debug(nanos: u64) -> (r: String)
    ensures
        r@ == duration_debug_text(nanos),
{
    format!("{:?}", std::time::Duration::from_nanos(nanos))
}

/// The key of the line that holds the median in nanoseconds.
pub open spec fn median_ns_key() -> Seq<char> {
    seq!['m', 'e', 'd', 'i', 'a', 'n', '_', 'n', 's', ':']
}

/// The content of the result file for `r`: one `key: value` line each for
/// the name, the median in nanoseconds, the mean, minimum, maximum and
/// median as durations, and the number of iterations.
pub open spec fn record_text(r: BenchResult) -> Seq<char> {
    "name: "@ + r.name@ + "\n"@ + "median_ns: "@ + decimal(r.median as nat) + "\n"@
        + record_times(r)
}

/// The lines of the result file after the median in nanoseconds.
#[verifier::opaque]
pub open spec fn record_times(r: BenchResult) -> Seq<char> {
    "mean: "@ + duration_debug_text(r.mean) + "\n"@
        + "min: "@ + duration_debug_text(r.min) + "\n"@
        + "max: "@ + duration_debug_text(r.max) + "\n"@
        + "median: "@ + duration_debug_text(r.median) + "\n"@
        + "iterations: "@ + decimal(r.iterations as nat) + "\n"@
}

/// The median in nanoseconds that a result file records: the value after
/// `median_ns:` on the first line that starts with it, with surrounding
/// whitespace removed and read as a `u64`; none when no line starts with the
/// key or its value is not a number.
pub open spec fn recorded_median(content: Seq<char>) -> Option<u64> {
    match first_with_prefix(lines(content), median_ns_key()) {
        Some(l) => parse_u64_spec(trim(l.skip(median_ns_key().len() as int))),
        None => None,
    }
}

/// The content of the result file for `r`.
pub fn result_record(r: &BenchResult) -> (s: String)
    ensures
        s@ == record_text(*r),
{
    let mut s = String::new();
    s.append("name: ");
    s.append(r.name.as_str());
    s.append("\n");
    s.append("median_ns: ");
    push_decimal(&mut s, r.median as u128);
    s.append("\n");
    let ghost head = s@;
    s.append("mean: ");
    s.append(duration_debug(r.mean).as_str());
    s.append("\n");
    s.append("min: ");
    s.append(duration_debug(r.min).as_str());
    s.append("\n");
    s.append("max: ");
    s.append(duration_debug(r.max).as_str());
    s.append("\n");
    s.append("median: ");
    s.append(duration_debug(r.median).as_str());
    s.append("\n");
    s.append("iterations: ");
    push_decimal(&mut s, r.iterations as u128);
    s.append("\n");
    proof {
        reveal(record_times);
        assert(s@ =~= head + record_times(*r));
    }
    s
}

/// The median in nanoseconds recorded in the content of a result file (see
/// [`recorded_median`]).
pub fn previous_median_ns(content: &str) -> (r: Option<u64>)
    ensures
        r == recorded_median(content@),
{
    let cs = chars_of(content);
    let key = chars_of("median_ns:");
    proof {
        reveal_strlit("median_ns:");
        assert(key@ =~= median_ns_key());
    }
    let n: usize = cs.len();
    let mut pos: usize = 0;
    assert(cs@.skip(0) =~= cs@);
    while pos < n
        invariant
            pos <= n == cs@.len(),
            cs@ == content@,
            key@ == median_ns_key(),
            recorded_median(cs@) == match first_with_prefix(
                lines(cs@.skip(pos as int)),
                median_ns_key(),
            ) {
                Some(l) => parse_u64_spec(trim(l.skip(median_ns_key().len() as int))),
                None => None,
            },
        decreases n - pos,
    {
        let ghost rest = cs@.skip(pos as int);
        let e: usize = find_newline(&cs, pos);
        proof {
            crate::text::lemma_newline_index(rest);
        }
        let mut line_end: usize = e;
        if e < n && line_end > pos && cs[line_end - 1] == '\r' {
            line_end = line_end - 1;
        }
        let ghost line = cs@.subrange(pos as int, line_end as int);
        proof {
            let i = e - pos;
            if e < n {
                assert(rest.take(i) =~= cs@.subrange(pos as int, e as int));
                assert(line =~= strip_cr(rest.take(i)));
                assert(rest.skip(i + 1) =~= cs@.skip(e + 1));
                assert(lines(rest) == seq![line] + lines(cs@.skip(e + 1)));
                assert((seq![line] + lines(cs@.skip(e + 1))).drop_first() =~= lines(
                    cs@.skip(e + 1),
                ));
                assert(lines(rest)[0] == line);
                assert(lines(rest).drop_first() == lines(cs@.skip(e + 1)));
            } else {
                assert(line =~= rest);
                assert(lines(rest) == seq![line]);
                assert(seq![line].drop_first() =~= Seq::<Seq<char>>::empty());
                assert(lines(rest)[0] == line);
                assert(lines(rest).drop_first() == Seq::<Seq<char>>::empty());
            }
        }
        if has_prefix(&cs, pos, line_end, &key) {
            let (a, b) = trim_range(&cs, pos + key.len(), line_end);
            proof {
                assert(line.skip(median_ns_key().len() as int) =~= cs@.subrange(
                    pos + key@.len(),
                    line_end as int,
                ));
            }
            return parse_u64_range(&cs, a, b);
        }
        if e >= n {
            proof {
                assert(first_with_prefix(lines(rest).drop_first(), median_ns_key()) is None);
            }
            return None;
        }
        pos = e + 1;
    }
    proof {
        assert(cs@.skip(pos as int) =~= Seq::<char>::empty());
    }
    None
}

/// The lines of `a + "\n" + b`, when `a` holds no line feed.
pub proof fn lemma_lines_split(a: Seq<char>, b: Seq<char>)
    requires
        forall|t: int| 0 <= t < a.len() ==> a[t] != '\n',
    ensures
        lines(a + seq!['\n'] + b) == seq![strip_cr(a)] + lines(b),
{
    let c = a + seq!['\n'] + b;
    crate::text::lemma_newline_index_split(a, b);
    assert(c.take(a.len() as int) =~= a);
    assert(c.skip(a.len() as int + 1) =~= b);
}

/// The first line with the key, when the first line lacks it, is found in
/// the remaining lines.
pub proof fn lemma_first_with_prefix_skip(l: Seq<char>, rest: Seq<Seq<char>>, key: Seq<char>)
    requires
        !key.is_prefix_of(l),
    ensures
        first_with_prefix(seq![l] + rest, key) == first_with_prefix(rest, key),
{
    assert((seq![l] + rest).drop_first() =~= rest);
}

/// Dropping the carriage return of a line does not change whether the line
/// starts with the key.
proof fn lemma_strip_cr_prefix(l: Seq<char>)
    ensures
        median_ns_key().is_prefix_of(strip_cr(l)) == median_ns_key().is_prefix_of(l),
{
    let key = median_ns_key();
    if l.len() > 0 && l.last() == '\r' {
        if key.is_prefix_of(l) {
            assert(l.len() > key.len()) by {
                if l.len() == key.len() {
                    assert(l[9] == key[9]);
                }
            }
            assert(key =~= strip_cr(l).subrange(0, key.len() as int));
        }
        if key.is_prefix_of(strip_cr(l)) {
            assert(key =~= l.subrange(0, key.len() as int));
        }
    }
}

/// When no line of `a` starts with the key, the first line of
/// `a + "\n" + b` that does is the first such line of `b`.
pub proof fn lemma_lines_join_without_key(a: Seq<char>, b: Seq<char>)
    requires
        first_with_prefix(lines(a), median_ns_key()) is None,
    ensures
        first_with_prefix(lines(a + seq!['\n'] + b), median_ns_key()) == first_with_prefix(
            lines(b),
            median_ns_key(),
        ),
    decreases a.len(),
{
    let key = median_ns_key();
    crate::text::lemma_newline_index(a);
    let i = crate::text::newline_index(a);
    if i >= a.len() {
        lemma_lines_split(a, b);
        lemma_strip_cr_prefix(a);
        if a.len() > 0 {
            assert(lines(a) == seq![a]);
            assert(!key.is_prefix_of(a));
        } else {
            assert(!key.is_prefix_of(strip_cr(a)));
        }
        lemma_first_with_prefix_skip(strip_cr(a), lines(b), key);
    } else {
        let a1 = a.take(i);
        let a2 = a.skip(i + 1);
        assert(a =~= a1 + seq!['\n'] + a2);
        assert forall|t: int| 0 <= t < a1.len() implies a1[t] != '\n' by {
            assert(a1[t] == a[t]);
        }
        lemma_lines_split(a1, a2);
        assert(lines(a)[0] == strip_cr(a1));
        assert(!key.is_prefix_of(strip_cr(a1)));
        assert(lines(a).drop_first() =~= lines(a2));
        assert(first_with_prefix(lines(a2), key) is None);
        lemma_lines_join_without_key(a2, b);
        assert(a + seq!['\n'] + b =~= a1 + seq!['\n'] + (a2 + seq!['\n'] + b));
        lemma_lines_split(a1, a2 + seq!['\n'] + b);
        lemma_first_with_prefix_skip(strip_cr(a1), lines(a2 + seq!['\n'] + b), key);
    }
}

/// Reading the result file of a run gives back that run's median, provided
/// no line of the name line (a name may hold line feeds) starts with
/// `median_ns:`; the first line of it starts with `name: ` and never does.
pub proof fn lemma_record_round_trip(r: BenchResult)
    requires
        first_with_prefix(lines("name: "@ + r.name@), median_ns_key()) is None,
    ensures
        recorded_median(record_text(r)) == Some(r.median),
{
    reveal_strlit("\n");
    reveal_strlit("median_ns: ");
    let key = median_ns_key();
    let dm = decimal(r.median as nat);
    crate::text::lemma_decimal_digits(r.median as nat);
    crate::text::lemma_parse_decimal(r.median);
    let first = "name: "@ + r.name@;
    let second = "median_ns: "@ + dm;
    let tail = record_times(r);
    let after_first = second + seq!['\n'] + tail;
    let c = record_text(r);
    assert(c =~= first + seq!['\n'] + after_first);
    lemma_lines_join_without_key(first, after_first);
    assert forall|t: int| 0 <= t < second.len() implies second[t] != '\n' by {
        if t >= 11 {
            assert(second[t] == dm[t - 11]);
            assert(is_digit(dm[t - 11]));
        }
    }
    lemma_lines_split(second, tail);
    assert(second.last() == dm.last());
    assert(is_digit(dm[dm.len() - 1]));
    assert(strip_cr(second) == second);
    assert(key.is_prefix_of(second)) by {
        assert(key =~= second.subrange(0, key.len() as int));
    }
    assert((seq![second] + lines(tail))[0] == second);
    let v = second.skip(key.len() as int);
    assert(v =~= seq![' '] + dm);
    assert(v.drop_first() =~= dm);
    assert(trim_start(dm) == dm);
    assert(trim_start(v) == dm);
    assert(trim_end(dm) == dm);
    assert(trim(v) == dm);
}

/// A name without line feeds gives a name line that no line of starts with
/// `median_ns:`, so its result file reads back its median.
pub proof fn lemma_plain_name_reads_back(name: Seq<char>)
    requires
        !name.contains('\n'),
    ensures
        first_with_prefix(lines("name: "@ + name), median_ns_key()) is None,
{
    reveal_strlit("name: ");
    let first = "name: "@ + name;
    assert forall|t: int| 0 <= t < first.len() implies first[t] != '\n' by {
        if t >= 6 {
            assert(first[t] == name[t - 6]);
        }
    }
    crate::text::lemma_newline_index(first);
    assert(crate::text::newline_index(first) == first.len()) by {
        if crate::text::newline_index(first) < first.len() {
            assert(first[crate::text::newline_index(first)] == '\n');
        }
    }
    assert(lines(first) == seq![first]);
    assert(!median_ns_key().is_prefix_of(first)) by {
        assert(first[0] == 'n');
    }
    assert(seq![first].drop_first() =~= Seq::<Seq<char>>::empty());
    assert(lines(first)[0] == first);
    assert(first_with_prefix(Seq::<Seq<char>>::empty(), median_ns_key()) is None);
    assert(first_with_prefix(lines(first), median_ns_key()) == first_with_prefix(
        lines(first).drop_first(),
        median_ns_key(),
    ));
}

/// The result file of `r` holds, line by line and in this order, the name
/// of `r`, its median in nanoseconds as a decimal number, its mean,
/// minimum, maximum and median as durations, and its number of iterations
/// as a decimal number, each after its key.
pub proof fn lemma_record_fields(r: BenchResult)
    ensures
        record_text(r) == slots(
            seq![
                ("name: "@, r.name@),
                ("\nmedian_ns: "@, decimal(r.median as nat)),
                ("\nmean: "@, duration_debug_text(r.mean)),
                ("\nmin: "@, duration_debug_text(r.min)),
                ("\nmax: "@, duration_debug_text(r.max)),
                ("\nmedian: "@, duration_debug_text(r.median)),
                ("\niterations: "@, decimal(r.iterations as nat)),
                ("\n"@, Seq::<char>::empty()),
            ],
        ),
{
    reveal(record_times);
    reveal_with_fuel(slots, 9);
    reveal_strlit("name: ");
    reveal_strlit("\n");
    reveal_strlit("median_ns: ");
    reveal_strlit("\nmedian_ns: ");
    reveal_strlit("mean: ");
    reveal_strlit("\nmean: ");
    reveal_strlit("min: ");
    reveal_strlit("\nmin: ");
    reveal_strlit("max: ");
    reveal_strlit("\nmax: ");
    reveal_strlit("median: ");
    reveal_strlit("\nmedian: ");
    reveal_strlit("iterations: ");
    reveal_strlit("\niterations: ");
    assert(record_text(r) =~= slots(
        seq![
            ("name: "@, r.name@),
            ("\nmedian_ns: "@, decimal(r.median as nat)),
            ("\nmean: "@, duration_debug_text(r.mean)),
            ("\nmin: "@, duration_debug_text(r.min)),
            ("\nmax: "@, duration_debug_text(r.max)),
            ("\nmedian: "@, duration_debug_text(r.median)),
            ("\niterations: "@, decimal(r.iterations as nat)),
            ("\n"@, Seq::<char>::empty()),
        ],
    ));
}

} // verus!
