use vstd::prelude::*;

use crate::bench_result::{
    lemma_constant_samples, times_max, times_mean, times_min, BenchResult, Results,
};
use crate::config::Config;
use crate::label::{join_parts, Label};
use crate::sample::{lemma_constant_call_time, per_call_ps, Sample};
use crate::sampling_mode::{decided_mode, size_at, SamplingMode};
use crate::throughput::Throughput;

verus! {

/// What the caller does next for a benchmark.
#[derive(Debug, Clone, Copy, PartialEq, Eq, Structural)]
pub enum Step {
    /// Make `calls` untimed calls, then report with `record_warmup`.
    Warmup { calls: u64 },
    /// Make `size` timed calls, then report the time with `record_sample`.
    Sample { size: usize },
    /// Nothing is left to run.
    Done,
}

/// `x + y`, saturated at `u64::MAX`.
pub open spec fn sat_add(x: int, y: int) -> int {
    if x + y > u64::MAX {
        u64::MAX as int
    } else {
        x + y
    }
}

/// The mode with its factor lowered, where needed, so that every batch size
/// of `n` samples fits in `usize`.
pub open spec fn fitted_mode(mode: SamplingMode, n: int) -> SamplingMode {
    match mode {
        SamplingMode::Linear { sampling_factor } => if n * sampling_factor > usize::MAX {
            SamplingMode::Linear { sampling_factor: (usize::MAX as int / n) as usize }
        } else {
            mode
        },
        SamplingMode::Flat { .. } => mode,
    }
}

/// The run of one benchmark: warmup in batches that double, then the timed
/// batches of the chosen mode, then the folded result. The caller reads
/// the clock and makes the calls; this decides how many and when to stop.
pub struct Run {
    pub label: Label,
    /// The label passed the filter; an unselected run makes no call.
    pub selected: bool,
    pub warmup_budget_ns: u64,
    pub sample_time_ns: u64,
    pub sample_count: usize,
    pub throughput: Option<Throughput>,
    /// Still in warmup.
    pub warming: bool,
    /// Calls made during warmup.
    pub warmup_iters: u64,
    /// Size of the next warmup batch.
    pub warmup_batch: u64,
    /// Sizes of the timed batches, fixed when warmup ends.
    pub sizes: Vec<usize>,
    /// Samples taken so far, one per timed batch.
    pub samples: Vec<Sample>,
}

impl Run {
    /// The state is consistent: samples only after warmup, each for the
    /// batch size at its position, and `sample_count` positive batch sizes
    /// once warmup has ended.
    pub open spec fn wf(&self) -> bool {
        &&& self.sample_count >= 1
        &&& self.warmup_batch >= 1
        &&& self.warming ==> self.sizes@.len() == 0 && self.samples@.len() == 0
        &&& !self.warming ==> self.sizes@.len() == self.sample_count
        &&& self.samples@.len() <= self.sizes@.len()
        &&& forall|i: int| 0 <= i < self.sizes@.len() ==> self.sizes@[i] >= 1
        &&& forall|i: int|
            0 <= i < self.samples@.len() ==> self.samples@[i].sample_size == self.sizes@[i]
    }

    /// A run not started yet. It is selected when the configuration has no
    /// filter, or when its filter matches the rendered label.
    pub fn new(config: &Config, label: Label) -> (r: Run)
        requires
            config.wf(),
        ensures
            r.wf(),
            r.label == label,
            r.selected == config.admits(join_parts(label@)),
            r.warmup_budget_ns == config.warmup_ns,
            r.sample_time_ns == config.sample_time_ns,
            r.sample_count == config.sample_count,
            r.throughput == config.throughput,
            r.warming,
            r.warmup_iters == 0,
            r.warmup_batch == 1,
    {
        let text = label.render();
        let selected = config.selects(text.as_str());
        Run {
            label,
            selected,
            warmup_budget_ns: config.warmup_ns,
            sample_time_ns: config.sample_time_ns,
            sample_count: config.sample_count,
            throughput: config.throughput,
            warming: true,
            warmup_iters: 0,
            warmup_batch: 1,
            sizes: Vec::new(),
            samples: Vec::new(),
        }
    }

    /// The next thing to do, given `clock_ns`, the time since warmup began
    /// (read only during warmup). Warmup goes on while no call was made or
    /// the budget is not spent; when it ends the mode is chosen from the
    /// warmup's time and calls, and the batch sizes are fixed.
    pub fn next_step(&mut self, clock_ns: u64) -> (r: Step)
        requires
            old(self).wf(),
        ensures
            final(self).wf(),
            !old(self).selected ==> r == Step::Done && *final(self) == *old(self),
            old(self).selected && old(self).warming && (old(self).warmup_iters == 0 || clock_ns
                < old(self).warmup_budget_ns) ==> r == (Step::Warmup {
                calls: old(self).warmup_batch,
            }) && *final(self) == *old(self),
            old(self).selected && old(self).warming && !(old(self).warmup_iters == 0 || clock_ns
                < old(self).warmup_budget_ns) ==> {
                let mode = fitted_mode(
                    decided_mode(
                        old(self).sample_time_ns as int,
                        old(self).sample_count as int,
                        clock_ns as int,
                        old(self).warmup_iters as int,
                    ),
                    old(self).sample_count as int,
                );
                &&& !final(self).warming
                &&& final(self).sizes@.len() == old(self).sample_count
                &&& forall|k: int|
                    0 <= k < final(self).sizes@.len() ==> final(self).sizes@[k] == size_at(
                        mode,
                        k + 1,
                    )
                &&& r == (Step::Sample { size: final(self).sizes@[0] })
                &&& *final(self) == (Run {
                    warming: false,
                    sizes: final(self).sizes,
                    ..*old(self)
                })
            },
            old(self).selected && !old(self).warming ==> *final(self) == *old(self) && r == if old(
                self,
            ).samples@.len() < old(self).sizes@.len() {
                Step::Sample { size: old(self).sizes@[old(self).samples@.len() as int] }
            } else {
                Step::Done
            },
    {
        if !self.selected {
            return Step::Done;
        }
        if self.warming {
            if self.warmup_iters == 0 || clock_ns < self.warmup_budget_ns {
                return Step::Warmup { calls: self.warmup_batch };
            }
            let n = self.sample_count;
            let mut config = Config::default();
            config.set_sample_time(self.sample_time_ns);
            config.set_sample_count(n);
            let decided = SamplingMode::decide_mode(&config, clock_ns, self.warmup_iters);
            let mode = match decided {
                SamplingMode::Linear { sampling_factor } => {
                    if sampling_factor > usize::MAX / n {
                        assert(n * sampling_factor > usize::MAX) by (nonlinear_arith)
                            requires
                                sampling_factor > usize::MAX / n,
                                n >= 1,
                        ;
                        SamplingMode::Linear { sampling_factor: usize::MAX / n }
                    } else {
                        assert(n * sampling_factor <= usize::MAX) by (nonlinear_arith)
                            requires
                                sampling_factor <= usize::MAX / n,
                                n >= 1,
                        ;
                        decided
                    }
                },
                SamplingMode::Flat { .. } => decided,
            };
            proof {
                if let SamplingMode::Linear { sampling_factor } = mode {
                    if sampling_factor == usize::MAX / n {
                        assert(n * (usize::MAX / n) <= usize::MAX) by (nonlinear_arith)
                            requires
                                n >= 1,
                        ;
                    }
                }
            }
            let sizes = mode.sample_sizes(&config);
            self.sizes = sizes;
            self.warming = false;
            proof {
                assert forall|i: int| 0 <= i < self.sizes@.len() implies self.sizes@[i] >= 1 by {
                    match mode {
                        SamplingMode::Linear { sampling_factor } => {
                            if sampling_factor == usize::MAX / n {
                                assert(usize::MAX / n >= 1) by (nonlinear_arith)
                                    requires
                                        1 <= n <= usize::MAX,
                                ;
                            }
                            assert(sampling_factor >= 1);
                            assert((i + 1) * sampling_factor >= 1) by (nonlinear_arith)
                                requires
                                    i >= 0,
                                    sampling_factor >= 1,
                            ;
                        },
                        SamplingMode::Flat { .. } => {},
                    }
                }
            }
            return Step::Sample { size: self.sizes[0] };
        }
        if self.samples.len() < self.sizes.len() {
            Step::Sample { size: self.sizes[self.samples.len()] }
        } else {
            Step::Done
        }
    }

    /// Reports that the warmup batch of the last step was made: its calls
    /// are counted and the next batch is twice as large (both saturate).
    pub fn record_warmup(&mut self)
        requires
            old(self).wf(),
            old(self).warming,
        ensures
            final(self).wf(),
            *final(self) == (Run {
                warmup_iters: sat_add(
                    old(self).warmup_iters as int,
                    old(self).warmup_batch as int,
                ) as u64,
                warmup_batch: sat_add(
                    old(self).warmup_batch as int,
                    old(self).warmup_batch as int,
                ) as u64,
                ..*old(self)
            }),
    {
        let batch = self.warmup_batch;
        self.warmup_iters = if self.warmup_iters > u64::MAX - batch {
            u64::MAX
        } else {
            self.warmup_iters + batch
        };
        self.warmup_batch = if batch > u64::MAX - batch {
            u64::MAX
        } else {
            batch + batch
        };
    }

    /// Reports that the timed batch of the last step took `elapsed_ns`
    /// nanoseconds: its sample is taken.
    pub fn record_sample(&mut self, elapsed_ns: u64)
        requires
            old(self).wf(),
            !old(self).warming,
            old(self).samples@.len() < old(self).sizes@.len(),
        ensures
            final(self).wf(),
            ({
                let size = old(self).sizes@[old(self).samples@.len() as int];
                let t = per_call_ps(elapsed_ns as int, size as int);
                &&& final(self).samples@.len() == old(self).samples@.len() + 1
                &&& final(self).samples@.last() == (Sample {
                    iter_time_ps: if t > u64::MAX {
                        u64::MAX
                    } else {
                        t as u64
                    },
                    sample_size: size,
                })
                &&& final(self).samples@.drop_last() == old(self).samples@
            }),
            *final(self) == (Run { samples: final(self).samples, ..*old(self) }),
    {
        let size = self.sizes[self.samples.len()];
        let sample = Sample::from_duration(elapsed_ns, size);
        self.samples.push(sample);
        assert(self.samples@.drop_last() =~= old(self).samples@);
    }

    /// The result of the run: `None` when it was not selected or has
    /// batches left; otherwise the samples folded, with the declared
    /// throughput attached. A finished run holds one sample per batch,
    /// `sample_count` in all.
    pub fn finish(self) -> (r: Option<BenchResult>)
        requires
            self.wf(),
        ensures
            r.is_some() <==> self.selected && !self.warming && self.samples@.len()
                == self.sample_count,
            r matches Some(b) ==> {
                &&& b.label == self.label
                &&& b.min_ps == times_min(self.samples@)
                &&& b.max_ps == times_max(self.samples@)
                &&& b.mean_ps == times_mean(self.samples@)
                &&& b.throughput == self.throughput
            },
    {
        if !self.selected || self.warming || self.samples.len() < self.sizes.len() {
            return None;
        }
        let throughput = self.throughput;
        let result = BenchResult::from_samples(self.label, self.samples.as_slice());
        match throughput {
            Some(t) => Some(result.with_throughput(t)),
            None => Some(result),
        }
    }
}

/// A finished run whose every batch took `c` nanoseconds per call (each
/// recorded time is `size * c`, with `1000 c` within `u64`) holds one sample per batch, and its
/// least, greatest and mean per-call time are all exactly `1000 c`
/// picoseconds.
pub proof fn lemma_constant_call_time_run(run: Run, c: u64)
    requires
        run.wf(),
        !run.warming,
        run.samples@.len() == run.sizes@.len(),
        c * 1000 <= u64::MAX,
        forall|i: int|
            0 <= i < run.samples@.len() ==> run.samples@[i].iter_time_ps == per_call_ps(
                run.sizes@[i] * c,
                run.sizes@[i] as int,
            ),
    ensures
        run.samples@.len() == run.sample_count,
        times_min(run.samples@) == c * 1000,
        times_max(run.samples@) == c * 1000,
        times_mean(run.samples@) == c * 1000,
{
    assert forall|i: int| 0 <= i < run.samples@.len() implies run.samples@[i].iter_time_ps == (c
        * 1000) as u64 by {
        lemma_constant_call_time(c as int, run.sizes@[i] as int);
    }
    lemma_constant_samples(run.samples@, (c * 1000) as u64);
}

impl Results {
    /// Adds the result of a finished run; a run that was not selected, or
    /// not finished, adds nothing. Returns whether a result was added.
    pub fn add_run(&mut self, run: Run) -> (added: bool)
        requires
            run.wf(),
        ensures
            added <==> run.selected && !run.warming && run.samples@.len() == run.sample_count,
            !added ==> final(self)@ == old(self)@,
            added ==> final(self)@.len() == old(self)@.len() + 1 && final(self)@.drop_last()
                == old(self)@,
            added ==> {
                let b = final(self)@.last();
                &&& b.label == run.label
                &&& b.min_ps == times_min(run.samples@)
                &&& b.max_ps == times_max(run.samples@)
                &&& b.mean_ps == times_mean(run.samples@)
                &&& b.throughput == run.throughput
            },
    {
        match run.finish() {
            Some(result) => {
                self.push(result);
                assert(self@.drop_last() =~= old(self)@);
                true
            },
            None => false,
        }
    }
}

} // verus!
