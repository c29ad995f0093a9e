//! The coloured console summary of a benchmark run.
use vstd::prelude::*;

use crate::compare::Verdict;
use crate::record::{duration_debug, duration_debug_text};
use crate::stats::BenchResult;
use crate::text::{decimal, push_decimal, slots};

verus! {

/// ANSI escape: reset all attributes.
pub const RESET: &'static str = "\x1b[0m";

/// ANSI escape: bold.
pub const BOLD: &'static str = "\x1b[1m";

/// ANSI escape: cyan text.
pub const CYAN: &'static str = "\x1b[36m";

/// ANSI escape: yellow text.
pub const YELLOW: &'static str = "\x1b[33m";

/// ANSI escape: green text.
pub const GREEN: &'static str = "\x1b[32m";

/// ANSI escape: red text.
pub const RED: &'static str = "\x1b[31m";

/// ANSI escape: dim text.
pub const DIM: &'static str = "\x1b[2m";

/// The summary of a run: a bold cyan `[BENCH]` tag and the bold name, then
/// on the next line the mean in yellow and, dimmed, the minimum, maximum,
/// median and number of iterations.
pub open spec fn summary_text(r: BenchResult) -> Seq<char> {
    CYAN@ + BOLD@ + "[BENCH]"@ + RESET@ + " "@ + BOLD@ + r.name@ + RESET@ + ":\n"@
        + YELLOW@ + duration_debug_text(r.mean) + RESET@ + " "@ + DIM@ + "(min: "@
        + duration_debug_text(r.min) + ", max: "@ + duration_debug_text(r.max)
        + ", median: "@ + duration_debug_text(r.median) + ", "@ + decimal(r.iterations as nat)
        + " iters)"@ + RESET@
}

impl BenchResult {
    /// The coloured summary of the run (see [`summary_text`]).
    pub fn summary(&self) -> (s: String)
        ensures
            s@ == summary_text(*self),
    {
        let mut s = String::new();
        s.append(CYAN);
        s.append(BOLD);
        s.append("[BENCH]");
        s.append(RESET);
        s.append(" ");
        s.append(BOLD);
        s.append(self.name.as_str());
        s.append(RESET);
        s.append(":\n");
        s.append(YELLOW);
        s.append(duration_debug(self.mean).as_str());
        s.append(RESET);
        s.append(" ");
        s.append(DIM);
        s.append("(min: ");
        s.append(duration_debug(self.min).as_str());
        s.append(", max: ");
        s.append(duration_debug(self.max).as_str());
        s.append(", median: ");
        s.append(duration_debug(self.median).as_str());
        s.append(", ");
        push_decimal(&mut s, self.iterations as u128);
        s.append(" iters)");
        s.append(RESET);
        s
    }
}

/// The summary of `r` shows, in this order: its name after the bold cyan
/// `[BENCH]` tag; its mean in yellow as the headline; then dimmed, in
/// brackets, its minimum, maximum and median as durations and its number
/// of iterations as a decimal number.
pub proof fn lemma_summary_fields(r: BenchResult)
    ensures
        summary_text(r) == slots(
            seq![
                (CYAN@ + BOLD@ + "[BENCH]"@ + RESET@ + " "@ + BOLD@, r.name@),
                (RESET@ + ":\n"@ + YELLOW@, duration_debug_text(r.mean)),
                (RESET@ + " "@ + DIM@ + "(min: "@, duration_debug_text(r.min)),
                (", max: "@, duration_debug_text(r.max)),
                (", median: "@, duration_debug_text(r.median)),
                (", "@, decimal(r.iterations as nat)),
                (" iters)"@ + RESET@, Seq::<char>::empty()),
            ],
        ),
{
    reveal_with_fuel(slots, 8);
    assert(summary_text(r) =~= slots(
        seq![
            (CYAN@ + BOLD@ + "[BENCH]"@ + RESET@ + " "@ + BOLD@, r.name@),
            (RESET@ + ":\n"@ + YELLOW@, duration_debug_text(r.mean)),
            (RESET@ + " "@ + DIM@ + "(min: "@, duration_debug_text(r.min)),
            (", max: "@, duration_debug_text(r.max)),
            (", median: "@, duration_debug_text(r.median)),
            (", "@, decimal(r.iterations as nat)),
            (" iters)"@ + RESET@, Seq::<char>::empty()),
        ],
    ));
}

/// The colour in which a verdict is shown: green for faster, red for
/// slower, dim for the same.
pub open spec fn verdict_color(v: Verdict) -> Seq<char> {
    match v {
        Verdict::Faster => GREEN@,
        Verdict::Slower => RED@,
        Verdict::Same => DIM@,
    }
}

impl Verdict {
    /// The colour in which this verdict is shown (see [`verdict_color`]).
    pub fn color(&self) -> (r: &'static str)
        ensures
            r@ == verdict_color(*self),
    {
        match self {
            Verdict::Faster => GREEN,
            Verdict::Slower => RED,
            Verdict::Same => DIM,
        }
    }
}

} // verus!
