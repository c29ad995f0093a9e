//! The benchmark configuration: a builder that records how long, and how
//! many times, the warmup and measurement phases may run.
use std::path::PathBuf;

use vstd::prelude::*;

verus! {

/// `PathBuf` is carried through the configuration unchanged; nothing here
/// looks inside a path.
#[verifier::external_type_specification]
#[verifier::external_body]
pub struct ExPathBuf(PathBuf);

/// Default warmup time limit, in milliseconds (one second).
pub const DEFAULT_WARMUP_TIME_MS: u64 = 1000;

/// Default measurement time limit, in milliseconds (five seconds).
pub const DEFAULT_BENCH_TIME_MS: u64 = 5000;

/// The abstract content of a [`Bencher`].
pub struct BencherView {
    pub name: Seq<char>,
    pub warmup_time_ms: Option<u64>,
    pub time_ms: Option<u64>,
    pub warmup_iters: Option<u64>,
    pub iters: Option<u64>,
    pub output_dir: Option<PathBuf>,
    pub use_lock: bool,
}

impl BencherView {
    /// Each phase has at least one stop condition: a time limit or an
    /// iteration cap. This is what running a benchmark needs.
    pub open spec fn phases_bounded(self) -> bool {
        &&& (self.warmup_time_ms is Some || self.warmup_iters is Some)
        &&& (self.time_ms is Some || self.iters is Some)
    }
}

/// A simple bencher for measuring execution time in tests.
#[derive(Debug)]
pub struct Bencher {
    name: String,
    warmup_time_ms: Option<u64>,
    time_ms: Option<u64>,
    warmup_iters: Option<u64>,
    iters: Option<u64>,
    output_dir: Option<PathBuf>,
    use_lock: bool,
}

impl View for Bencher {
    type V = BencherView;

    closed spec fn view(&self) -> BencherView {
        BencherView {
            name: self.name@,
            warmup_time_ms: self.warmup_time_ms,
            time_ms: self.time_ms,
            warmup_iters: self.warmup_iters,
            iters: self.iters,
            output_dir: self.output_dir,
            use_lock: self.use_lock,
        }
    }
}

/// The configuration that [`Bencher::new`] starts from: one second of
/// warmup, five seconds of measurement, no iteration caps, no output
/// directory, and the cross-process lock in use.
pub open spec fn default_view(name: Seq<char>) -> BencherView {
    BencherView {
        name,
        warmup_time_ms: Some(DEFAULT_WARMUP_TIME_MS),
        time_ms: Some(DEFAULT_BENCH_TIME_MS),
        warmup_iters: None,
        iters: None,
        output_dir: None,
        use_lock: true,
    }
}

/// Copies a path (`<PathBuf as Clone>::clone`); the copy is the same path.
#[verifier::external_body]
fn clone_path(p: &PathBuf) -> (r: PathBuf)
    ensures
        r == *p,
{
    p.clone()
}

impl Default for Bencher {
    fn default() -> (r: Self)
        ensures
            r@ == default_view(Seq::<char>::empty()),
    {
        Bencher {
            name: String::new(),
            warmup_time_ms: Some(DEFAULT_WARMUP_TIME_MS),
            time_ms: Some(DEFAULT_BENCH_TIME_MS),
            warmup_iters: None,
            iters: None,
            output_dir: None,
            use_lock: true,
        }
    }
}

impl Bencher {
    /// Create a new bencher with the given name.
    pub fn new(name: &str) -> (r: Self)
        ensures
            r@ == default_view(name@),
    {
        let mut b = Bencher::default();
        b.name = name.to_owned();
        b
    }

    /// Set the warmup time in milliseconds.
    #[must_use]
    pub fn with_warmup_time_ms(self, ms: u64) -> (r: Self)
        ensures
            r@ == (BencherView { warmup_time_ms: Some(ms), ..self@ }),
    {
        Bencher { warmup_time_ms: Some(ms), ..self }
    }

    /// Set the benchmark time in milliseconds.
    #[must_use]
    pub fn with_bench_time_ms(self, ms: u64) -> (r: Self)
        ensures
            r@ == (BencherView { time_ms: Some(ms), ..self@ }),
    {
        Bencher { time_ms: Some(ms), ..self }
    }

    /// Disable warmup time limit (use only iteration count).
    #[must_use]
    pub fn without_warmup_time(self) -> (r: Self)
        ensures
            r@ == (BencherView { warmup_time_ms: None, ..self@ }),
    {
        Bencher { warmup_time_ms: None, ..self }
    }

    /// Disable bench time limit (use only iteration count).
    #[must_use]
    pub fn without_bench_time(self) -> (r: Self)
        ensures
            r@ == (BencherView { time_ms: None, ..self@ }),
    {
        Bencher { time_ms: None, ..self }
    }

    /// Set the maximum number of warmup iterations.
    #[must_use]
    pub fn with_warmup_iters(self, iters: u64) -> (r: Self)
        ensures
            r@ == (BencherView { warmup_iters: Some(iters), ..self@ }),
    {
        Bencher { warmup_iters: Some(iters), ..self }
    }

    /// Set the maximum number of benchmark iterations.
    #[must_use]
    pub fn with_iters(self, iters: u64) -> (r: Self)
        ensures
            r@ == (BencherView { iters: Some(iters), ..self@ }),
    {
        Bencher { iters: Some(iters), ..self }
    }

    /// Set the output directory for benchmark results.
    #[must_use]
    pub fn with_output_dir<P: Into<PathBuf>>(self, dir: P) -> (r: Self)
        ensures
            r@.output_dir is Some,
            <P as vstd::std_specs::convert::IntoSpec<PathBuf>>::obeys_into_spec() ==> r@.output_dir == Some(<P as vstd::std_specs::convert::IntoSpec<PathBuf>>::into_spec(dir)),
            r@ == (BencherView { output_dir: r@.output_dir, ..self@ }),
    {
        Bencher { output_dir: Some(dir.into()), ..self }
    }

    /// Run without taking the cross-process benchmark lock.
    #[must_use]
    pub fn without_lock(self) -> (r: Self)
        ensures
            r@ == (BencherView { use_lock: false, ..self@ }),
    {
        Bencher { use_lock: false, ..self }
    }

    /// The configuration for a labeled variant of this benchmark: the same
    /// limits and output directory, under the name `"<name>/<label>"`.
    pub fn labeled(&self, label: &str) -> (r: Bencher)
        ensures
            r@ == (BencherView { name: self@.name + seq!['/'] + label@, ..self@ }),
    {
        proof {
            reveal_strlit("/");
        }
        let mut name = self.name.clone();
        name.append("/");
        name.append(label);
        assert(name@ == self@.name + seq!['/'] + label@);
        let output_dir = match &self.output_dir {
            Some(p) => Some(clone_path(p)),
            None => None,
        };
        Bencher {
            name,
            warmup_time_ms: self.warmup_time_ms,
            time_ms: self.time_ms,
            warmup_iters: self.warmup_iters,
            iters: self.iters,
            output_dir,
            use_lock: self.use_lock,
        }
    }

    /// The benchmark's name.
    pub fn name(&self) -> (r: &str)
        ensures
            r@ == self@.name,
    {
        self.name.as_str()
    }

    /// The warmup time limit in milliseconds, if any.
    pub fn warmup_time_ms(&self) -> (r: Option<u64>)
        ensures
            r == self@.warmup_time_ms,
    {
        self.warmup_time_ms
    }

    /// The measurement time limit in milliseconds, if any.
    pub fn bench_time_ms(&self) -> (r: Option<u64>)
        ensures
            r == self@.time_ms,
    {
        self.time_ms
    }

    /// The warmup iteration cap, if any.
    pub fn warmup_iters(&self) -> (r: Option<u64>)
        ensures
            r == self@.warmup_iters,
    {
        self.warmup_iters
    }

    /// The measurement iteration cap, if any.
    pub fn iters(&self) -> (r: Option<u64>)
        ensures
            r == self@.iters,
    {
        self.iters
    }

    /// The output directory for result files, if any.
    pub fn output_dir(&self) -> (r: Option<&PathBuf>)
        ensures
            r matches Some(p) ==> self@.output_dir == Some(*p),
            r is None <==> self@.output_dir is None,
    {
        match &self.output_dir {
            Some(p) => Some(p),
            None => None,
        }
    }

    /// Whether the benchmark takes the cross-process lock while it runs.
    pub fn uses_lock(&self) -> (r: bool)
        ensures
            r == self@.use_lock,
    {
        self.use_lock
    }

    /// Whether each phase has a stop condition (see
    /// [`BencherView::phases_bounded`]).
    pub fn is_runnable(&self) -> (r: bool)
        ensures
            r == self@.phases_bounded(),
    {
        (self.warmup_time_ms.is_some() || self.warmup_iters.is_some())
            && (self.time_ms.is_some() || self.iters.is_some())
    }
}

} // verus!
