use vstd::prelude::*;

use crate::label::{join_parts, Label};
use crate::scaled::{
    fixed_text, rate_digits, rate_unit, scale_throughput, scale_time, time_decimals, time_unit,
};
use crate::sample::Sample;
use crate::throughput::Throughput;

verus! {

/// The least per-call time of the samples.
pub open spec fn times_min(s: Seq<Sample>) -> int
    decreases s.len(),
{
    if s.len() <= 1 {
        s[0].iter_time_ps as int
    } else {
        let m = times_min(s.drop_last());
        let t = s.last().iter_time_ps as int;
        if t < m {
            t
        } else {
            m
        }
    }
}

/// The greatest per-call time of the samples.
pub open spec fn times_max(s: Seq<Sample>) -> int
    decreases s.len(),
{
    if s.len() <= 1 {
        s[0].iter_time_ps as int
    } else {
        let m = times_max(s.drop_last());
        let t = s.last().iter_time_ps as int;
        if t > m {
            t
        } else {
            m
        }
    }
}

/// The sum of the per-call times of the samples.
pub open spec fn times_sum(s: Seq<Sample>) -> int
    decreases s.len(),
{
    if s.len() == 0 {
        0
    } else {
        times_sum(s.drop_last()) + s.last().iter_time_ps as int
    }
}

/// The mean per-call time of the samples, rounded down.
pub open spec fn times_mean(s: Seq<Sample>) -> int {
    times_sum(s) / (s.len() as int)
}

proof fn lemma_times_bounds(s: Seq<Sample>)
    requires
        s.len() >= 1,
    ensures
        times_min(s) <= times_max(s),
        s.len() * times_min(s) <= times_sum(s) <= s.len() * times_max(s),
        times_max(s) <= u64::MAX,
        0 <= times_min(s),
    decreases s.len(),
{
    if s.len() > 1 {
        let p = s.drop_last();
        lemma_times_bounds(p);
        let n = p.len() as int;
        let t = s.last().iter_time_ps as int;
        let lo = times_min(s);
        let hi = times_max(s);
        assert(n * times_min(p) >= n * lo) by (nonlinear_arith)
            requires
                times_min(p) >= lo,
                n >= 0,
        ;
        assert(n * times_max(p) <= n * hi) by (nonlinear_arith)
            requires
                times_max(p) <= hi,
                n >= 0,
        ;
        assert((n + 1) * lo == n * lo + lo) by (nonlinear_arith);
        assert((n + 1) * hi == n * hi + hi) by (nonlinear_arith);
    } else {
        assert(times_sum(s.drop_last()) == 0);
    }
}

/// The mean of a non-empty set of samples lies between their least and
/// greatest per-call times.
pub proof fn lemma_mean_between_min_and_max(s: Seq<Sample>)
    requires
        s.len() >= 1,
    ensures
        times_min(s) <= times_mean(s) <= times_max(s),
{
    lemma_times_bounds(s);
    let n = s.len() as int;
    let sum = times_sum(s);
    let lo = times_min(s);
    let hi = times_max(s);
    assert(lo <= sum / n <= hi) by (nonlinear_arith)
        requires
            n >= 1,
            n * lo <= sum <= n * hi,
    ;
}

/// Samples that all took `c` picoseconds per call fold to a least,
/// greatest and mean per-call time of exactly `c`.
pub proof fn lemma_constant_samples(s: Seq<Sample>, c: u64)
    requires
        s.len() >= 1,
        forall|i: int| 0 <= i < s.len() ==> s[i].iter_time_ps == c,
    ensures
        times_min(s) == c,
        times_max(s) == c,
        times_mean(s) == c,
    decreases s.len(),
{
    let n = s.len() as int;
    if s.len() > 1 {
        lemma_constant_samples(s.drop_last(), c);
        assert(times_sum(s.drop_last()) == (n - 1) * c) by {
            lemma_constant_sum(s.drop_last(), c);
        }
    } else {
        assert(times_sum(s.drop_last()) == 0);
    }
    lemma_constant_sum(s, c);
    assert(n * c / n == c) by (nonlinear_arith)
        requires
            n >= 1,
    ;
}

proof fn lemma_constant_sum(s: Seq<Sample>, c: u64)
    requires
        forall|i: int| 0 <= i < s.len() ==> s[i].iter_time_ps == c,
    ensures
        times_sum(s) == s.len() * c,
    decreases s.len(),
{
    if s.len() > 0 {
        lemma_constant_sum(s.drop_last(), c);
        let n = s.len() as int;
        assert((n - 1) * c + c == n * c) by (nonlinear_arith);
    }
}

/// A time of `ps` picoseconds as shown in a summary: `1.50 ms`.
pub open spec fn time_text(ps: int) -> Seq<char> {
    fixed_text(ps, time_decimals(ps), time_unit(ps))
}

/// The rate of `t` done once every `ps` picoseconds as shown in a summary.
pub open spec fn rate_text(ps: int, t: Throughput) -> Seq<char> {
    fixed_text(rate_digits(ps, t), 6, rate_unit(ps, t))
}

/// The summary of a result: `<label>: Min: <v> | Mean: <v> | Max: <v>`,
/// then, when a throughput is declared, a second line
/// `Throughput: Min: <v> | Mean: <v> | Max: <v>` with the rates at those times.
pub open spec fn summary_text(r: BenchResult) -> Seq<char> {
    let head = join_parts(r.label@) + ": Min: "@ + time_text(r.min_ps as int) + " | Mean: "@
        + time_text(r.mean_ps as int) + " | Max: "@ + time_text(r.max_ps as int);
    match r.throughput {
        None => head,
        Some(t) => head + "\nThroughput: Min: "@ + rate_text(r.min_ps as int, t) + " | Mean: "@
            + rate_text(r.mean_ps as int, t) + " | Max: "@ + rate_text(r.max_ps as int, t),
    }
}

/// Summary statistics of one benchmark. Times are per call, in picoseconds.
#[derive(Debug)]
pub struct BenchResult {
    pub label: Label,
    pub min_ps: u64,
    pub max_ps: u64,
    pub mean_ps: u64,
    pub throughput: Option<Throughput>,
}

impl BenchResult {
    /// Folds the samples into their least, greatest and mean (rounded
    /// down) per-call times, in one pass.
    pub fn from_samples(label: Label, samples: &[Sample]) -> (r: BenchResult)
        requires
            samples@.len() >= 1,
        ensures
            r.label == label,
            r.min_ps == times_min(samples@),
            r.max_ps == times_max(samples@),
            r.mean_ps == times_mean(samples@),
            r.min_ps <= r.mean_ps <= r.max_ps,
            r.throughput.is_none(),
    {
        let n = samples.len();
        let mut min: u64 = samples[0].iter_time_ps;
        let mut max: u64 = samples[0].iter_time_ps;
        let mut sum: u128 = samples[0].iter_time_ps as u128;
        let mut i: usize = 1;
        proof {
            assert(samples@.subrange(0, 1).drop_last() =~= Seq::<Sample>::empty());
            assert(times_sum(samples@.subrange(0, 1).drop_last()) == 0);
        }
        while i < n
            invariant
                1 <= i <= n,
                n == samples@.len(),
                min == times_min(samples@.subrange(0, i as int)),
                max == times_max(samples@.subrange(0, i as int)),
                sum == times_sum(samples@.subrange(0, i as int)),
                sum <= i * (u64::MAX as int),
            decreases n - i,
        {
            let t = samples[i].iter_time_ps;
            proof {
                let next = samples@.subrange(0, i + 1);
                assert(next.drop_last() =~= samples@.subrange(0, i as int));
                assert((i + 1) * (u64::MAX as int) <= u128::MAX) by (nonlinear_arith)
                    requires
                        i < usize::MAX,
                ;
                assert((i + 1) * (u64::MAX as int) == i * (u64::MAX as int) + u64::MAX) by (
                nonlinear_arith);
            }
            if t < min {
                min = t;
            }
            if t > max {
                max = t;
            }
            sum = sum + t as u128;
            i = i + 1;
        }
        proof {
            assert(samples@.subrange(0, n as int) =~= samples@);
            lemma_mean_between_min_and_max(samples@);
        }
        let mean = (sum / n as u128) as u64;
        BenchResult { label, min_ps: min, max_ps: max, mean_ps: mean, throughput: None }
    }

    /// The human-readable summary of the result.
    pub fn render(&self) -> (r: String)
        ensures
            r@ == summary_text(*self),
    {
        let mut out = self.label.render();
        out.append(": Min: ");
        scale_time(self.min_ps).push_fixed(&mut out);
        out.append(" | Mean: ");
        scale_time(self.mean_ps).push_fixed(&mut out);
        out.append(" | Max: ");
        scale_time(self.max_ps).push_fixed(&mut out);
        if let Some(t) = self.throughput {
            out.append("\nThroughput: Min: ");
            scale_throughput(self.min_ps, t).push_fixed(&mut out);
            out.append(" | Mean: ");
            scale_throughput(self.mean_ps, t).push_fixed(&mut out);
            out.append(" | Max: ");
            scale_throughput(self.max_ps, t).push_fixed(&mut out);
        }
        out
    }

    /// The same result with a declared throughput attached.
    pub fn with_throughput(self, throughput: Throughput) -> (r: BenchResult)
        ensures
            r == (BenchResult { throughput: Some(throughput), ..self }),
    {
        BenchResult { throughput: Some(throughput), ..self }
    }
}

/// The results of a run, in the order the benchmarks finished.
#[derive(Debug)]
pub struct Results {
    results: Vec<BenchResult>,
}

impl View for Results {
    type V = Seq<BenchResult>;

    closed spec fn view(&self) -> Seq<BenchResult> {
        self.results@
    }
}

impl Results {
    /// No results yet.
    pub fn new() -> (r: Self)
        ensures
            r@ == Seq::<BenchResult>::empty(),
    {
        Results { results: Vec::new() }
    }

    /// Appends a finished result.
    pub fn push(&mut self, value: BenchResult)
        ensures
            final(self)@ == old(self)@.push(value),
    {
        self.results.push(value);
    }

    /// Number of results.
    pub fn len(&self) -> (r: usize)
        ensures
            r == self@.len(),
    {
        self.results.len()
    }

    /// The result at `index`, in the order they were pushed.
    pub fn get(&self, index: usize) -> (r: Option<&BenchResult>)
        ensures
            index < self@.len() ==> r == Some(&self@[index as int]),
            index >= self@.len() ==> r.is_none(),
    {
        if index < self.results.len() {
            Some(&self.results[index])
        } else {
            None
        }
    }
}

impl Default for Results {
    fn default() -> (r: Self)
        ensures
            r@ == Seq::<BenchResult>::empty(),
    {
        Results::new()
    }
}

} // verus!
