use vstd::prelude::*;

use crate::filter::{pattern_matches, Filter};
use crate::throughput::Throughput;

verus! {

/// Default warmup budget: half a second.
pub const DEFAULT_WARMUP_NS: u64 = 500_000_000;

/// Default time aimed at for all samples together: two seconds.
pub const DEFAULT_SAMPLE_TIME_NS: u64 = 2_000_000_000;

/// Default number of samples.
pub const DEFAULT_SAMPLE_COUNT: usize = 100;

/// Parameters of a run. Durations are in nanoseconds.
#[derive(Clone)]
pub struct Config {
    /// Only benchmarks whose label this pattern matches are run.
    pub filter: Option<Filter>,
    /// Time spent calling the work before any sample is taken.
    pub warmup_ns: u64,
    /// Time aimed at for all samples of one benchmark together.
    pub sample_time_ns: u64,
    /// Number of timed batches; at least one.
    pub sample_count: usize,
    /// Work done by one call, if declared.
    pub throughput: Option<Throughput>,
}

impl Config {
    /// The configuration is usable: at least one sample is taken.
    pub open spec fn wf(&self) -> bool {
        self.sample_count >= 1
    }

    /// A benchmark whose rendered label is `text` is run: there is no
    /// filter, or the filter's pattern matches the text.
    pub open spec fn admits(&self, text: Seq<char>) -> bool {
        match self.filter {
            None => true,
            Some(f) => pattern_matches(f@, text),
        }
    }

    /// Sets the warmup budget.
    pub fn set_warmup(&mut self, warmup_ns: u64)
        ensures
            *final(self) == (Config { warmup_ns, ..*old(self) }),
    {
        self.warmup_ns = warmup_ns;
    }

    /// Sets the time aimed at for all samples together.
    pub fn set_sample_time(&mut self, sample_time_ns: u64)
        ensures
            *final(self) == (Config { sample_time_ns, ..*old(self) }),
    {
        self.sample_time_ns = sample_time_ns;
    }

    /// Sets the number of samples.
    pub fn set_sample_count(&mut self, sample_count: usize)
        requires
            sample_count >= 1,
        ensures
            *final(self) == (Config { sample_count, ..*old(self) }),
            final(self).wf(),
    {
        self.sample_count = sample_count;
    }

    /// Declares the work done by one call.
    pub fn set_throughput(&mut self, throughput: Throughput)
        ensures
            *final(self) == (Config { throughput: Some(throughput), ..*old(self) }),
    {
        self.throughput = Some(throughput);
    }

    /// Sets the pattern that labels must match to be run.
    pub fn set_filter(&mut self, filter: Filter)
        ensures
            *final(self) == (Config { filter: Some(filter), ..*old(self) }),
    {
        self.filter = Some(filter);
    }

    /// Whether a benchmark with the rendered label `text` is run: always
    /// when no filter is set, else when the filter matches the text.
    pub fn selects(&self, text: &str) -> (r: bool)
        ensures
            r == self.admits(text@),
    {
        match &self.filter {
            None => true,
            Some(f) => f.is_match(text),
        }
    }
}

impl Default for Config {
    fn default() -> (r: Self)
        ensures
            r.filter.is_none(),
            r.warmup_ns == DEFAULT_WARMUP_NS,
            r.sample_time_ns == DEFAULT_SAMPLE_TIME_NS,
            r.sample_count == DEFAULT_SAMPLE_COUNT,
            r.throughput.is_none(),
            r.wf(),
    {
        Config {
            filter: None,
            warmup_ns: DEFAULT_WARMUP_NS,
            sample_time_ns: DEFAULT_SAMPLE_TIME_NS,
            sample_count: DEFAULT_SAMPLE_COUNT,
            throughput: None,
        }
    }
}

} // verus!
