//! Long-running benchmark bookkeeping: which measurement was taken, and where
//! its record is written.

use crate::paths::{path_join, pushed_path};
use std::time::{Duration, Instant};
use vstd::prelude::*;

verus! {

/// What kind of measurement a benchmark takes.
#[derive(Clone, Copy, Debug, PartialEq, Eq, Structural)]
pub enum Measurement {
    /// Throughput of the benchmarked function: the input size in bytes, and
    /// the elapsed time in whole seconds.
    Throughput(usize, usize),
}

impl Measurement {
    /// The name of the measurement's kind, as it is displayed.
    pub fn to_string(&self) -> (s: String)
        ensures
            s@ == "Throughput"@,
    {
        match self {
            Measurement::Throughput(_, _) => String::from_str("Throughput"),
        }
    }
}

/// A benchmark runner for long-running benchmarks.
pub struct Bencher {
    /// An id for the benchmark.
    pub id: Option<String>,
    /// The directory that the benchmark's record is written to.
    pub output: Option<String>,
    /// The last measurement taken.
    pub measurement: Option<Measurement>,
}

/// The directory that a record goes to when no output is set.
pub open spec fn default_output_dir() -> Seq<char> {
    "../target/benchmarks/"@
}

/// The directory that the record of a benchmark goes to.
pub open spec fn output_dir_of(output: Option<String>) -> Seq<char> {
    match output {
        Some(dir) => dir@,
        None => default_output_dir(),
    }
}

/// The file name of the record of a benchmark.
pub open spec fn record_name_of(id: Option<String>) -> Seq<char> {
    match id {
        Some(id) => id@ + ".json"@,
        None => "benchmark.json"@,
    }
}

/// Whole seconds as a `usize`, saturating at `usize::MAX`.
pub open spec fn saturating_secs(secs: u64) -> usize {
    if secs > usize::MAX {
        usize::MAX
    } else {
        secs as usize
    }
}

/// The measurement that a run of `measurement` records when it took `secs`
/// whole seconds: the size asked for, and the seconds.
pub open spec fn measured(measurement: Measurement, secs: u64) -> Measurement {
    match measurement {
        Measurement::Throughput(size, _) => Measurement::Throughput(size, saturating_secs(secs)),
    }
}

/// What a run records depends only on the size asked for and the time the
/// run took: the second field of the measurement asked for has no influence.
pub proof fn lemma_run_ignores_given_time(size: usize, given_a: usize, given_b: usize, secs: u64)
    ensures
        measured(Measurement::Throughput(size, given_a), secs) == measured(
            Measurement::Throughput(size, given_b),
            secs,
        ),
{
}

/// Reads the monotonic clock with `std::time::Instant::now`; nothing is
/// promised of the reading.
#[verifier::external_body]
fn clock_now() -> Instant {
    Instant::now()
}

/// The time from `start` to `end`, with `std::time::Instant::duration_since`
/// (which saturates at zero); nothing is promised of the value.
#[verifier::external_body]
fn clock_between(start: &Instant, end: &Instant) -> Duration {
    end.duration_since(*start)
}

/// The whole seconds of `elapsed`, with `std::time::Duration::as_secs`;
/// nothing is promised of the value.
#[verifier::external_body]
fn whole_secs(elapsed: &Duration) -> u64 {
    elapsed.as_secs()
}

/// A reading of the monotonic clock, `std::time::Instant`, carried through
/// without looking inside.
#[verifier::external_type_specification]
#[verifier::external_body]
pub struct ExInstant(Instant);

/// Setting the id decides the record file: once a bencher has the id `id`
/// and keeps its output directory, its record is `<id>.json` in that
/// directory (the default one when none is set).
pub proof fn lemma_record_path_follows_id(before: Bencher, after: Bencher, id: String)
    requires
        after.id == Some(id),
        after.output == before.output,
    ensures
        pushed_path(output_dir_of(after.output), record_name_of(after.id)) == pushed_path(
            output_dir_of(before.output),
            id@ + ".json"@,
        ),
{
}

impl Bencher {
    /// A bencher with no id, no output directory and no measurement.
    pub fn new() -> (b: Self)
        ensures
            b.id is None,
            b.output is None,
            b.measurement is None,
    {
        Bencher { id: None, output: None, measurement: None }
    }

    /// Sets the id of the benchmark.
    pub fn with_id(&mut self, id: String) -> (r: &mut Self)
        ensures
            r.id == Some(id),
            r.output == old(self).output,
            r.measurement == old(self).measurement,
            *final(self) == *final(r),
    {
        self.id = Some(id);
        self
    }

    /// Sets the output directory of the benchmark.
    pub fn with_output(&mut self, output: String) -> (r: &mut Self)
        ensures
            r.output == Some(output),
            r.id == old(self).id,
            r.measurement == old(self).measurement,
            *final(self) == *final(r),
    {
        self.output = Some(output);
        self
    }

    /// Records a throughput measurement of `size` bytes that took
    /// `elapsed_secs` whole seconds.
    pub fn record_throughput(&mut self, size: usize, elapsed_secs: u64)
        ensures
            final(self).measurement == Some(Measurement::Throughput(size, saturating_secs(elapsed_secs))),
            final(self).id == old(self).id,
            final(self).output == old(self).output,
    {
        let secs: usize = if elapsed_secs > usize::MAX as u64 {
            usize::MAX
        } else {
            elapsed_secs as usize
        };
        self.measurement = Some(Measurement::Throughput(size, secs));
    }

    /// Runs `func` once and takes the given measurement of it. For a
    /// throughput measurement, the input size is kept and the elapsed time
    /// is recorded in whole seconds (see `measured`); the elapsed time is
    /// also returned, for the report. The report names the benchmark, so an
    /// id must be set.
    pub fn run<F: FnOnce()>(&mut self, measurement: Measurement, func: F) -> (elapsed: Duration)
        requires
            old(self).id is Some,
            call_requires(func, ()),
        ensures
            call_ensures(func, (), ()),
            final(self).id == old(self).id,
            final(self).output == old(self).output,
            exists|secs: u64| final(self).measurement == Some(#[trigger] measured(measurement, secs)),
    {
        match measurement {
            Measurement::Throughput(size, _) => {
                let elapsed = self.run_throughput(size, func);
                proof {
                    let secs = choose|secs: u64|
                        self.measurement == Some(Measurement::Throughput(size, #[trigger] saturating_secs(secs)));
                    assert(self.measurement == Some(measured(measurement, secs)));
                }
                elapsed
            },
        }
    }

    fn run_throughput<F: FnOnce()>(&mut self, size: usize, func: F) -> (elapsed: Duration)
        requires
            call_requires(func, ()),
        ensures
            call_ensures(func, (), ()),
            final(self).id == old(self).id,
            final(self).output == old(self).output,
            exists|secs: u64|
                final(self).measurement == Some(Measurement::Throughput(size, #[trigger] saturating_secs(secs))),
    {
        let start = clock_now();
        func();
        let end = clock_now();
        let elapsed = clock_between(&start, &end);
        let secs = whole_secs(&elapsed);
        self.record_throughput(size, secs);
        elapsed
    }

    /// The path of the file that the benchmark's record is written to: the
    /// output directory (or the default one) joined with `<id>.json` (or
    /// `benchmark.json` when there is no id).
    pub fn get_path(&self) -> (path: String)
        ensures
            path@ == pushed_path(output_dir_of(self.output), record_name_of(self.id)),
    {
        let dir = match &self.output {
            Some(output) => output.clone(),
            None => String::from_str("../target/benchmarks/"),
        };
        let name = match &self.id {
            Some(id) => {
                let mut name = id.clone();
                name.append(".json");
                name
            },
            None => String::from_str("benchmark.json"),
        };
        path_join(&dir, &name)
    }
}

} // verus!
