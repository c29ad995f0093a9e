//! Simple benchmarking utilities for use in tests: a configuration builder,
//! the measurement loop, the statistics of a run, the result-file format,
//! the comparison with a previous run, and the arguments of the benchmark
//! attribute.
use vstd::prelude::*;

pub mod args;
pub mod compare;
pub mod config;
pub mod duration;
pub mod measure;
pub mod record;
pub mod report;
pub mod signature;
pub mod stats;
pub mod text;
pub mod tokens;

pub use args::{ArgsError, QuickBenchArgs};
pub use compare::{compare_to_previous, Comparison, Verdict};
pub use config::{Bencher, BencherView};
pub use measure::Run;
pub use record::{previous_median_ns, result_record};
pub use stats::BenchResult;

verus! {

} // verus!
