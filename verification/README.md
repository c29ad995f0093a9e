# quickbench

A small micro-benchmark harness: a configuration builder, a warmup phase and
a timed phase that each stop at a time limit or an iteration cap, the
statistics of the timed iterations, a plain-text result file per benchmark,
and a comparison of each run's median with the previous run's.

`src/` is the verified library (Verus):

- `config.rs` — the `Bencher` configuration and its builders.
- `measure.rs` — the measurement loop (`Bencher::bench`, `bench_labeled`),
  the stop decision of a phase, and the stop rule over the elapsed times a
  run read.
- `stats.rs` — `BenchResult` from the measured samples (count, sum, mean,
  minimum, median, maximum), with the laws that relate them.
- `compare.rs` — the faster / same / SLOWER verdict against the previous
  median (a ±5% band).
- `record.rs` — the result-file text and reading the median back from it.
- `report.rs` — the coloured console summary.
- `tokens.rs` — Rust tokens of attribute text: token trees lexed by
  `proc_macro2`, combined with what `syn` says of identifiers and integer
  literals.
- `args.rs` — the arguments of the benchmark attribute
  (`warmup_time_ms = 100, iters = 1_000, ...`), read from those tokens, the
  configuration they give, and the laws of argument lists.
- `signature.rs` — the checks of the function the attribute is put on.
- `duration.rs` — the unit of a duration as `Duration`'s `Debug` writes it.
- `text.rs` — decimal numbers, whitespace trimming and line splitting.

All times in the library are integer nanoseconds.

`app/` holds what needs the operating system: the cross-process named lock
that serializes benchmarks, printing, reading and writing the result files,
and the floating-point percentages shown to the user.
