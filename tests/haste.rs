use haste::bench_result::BenchResult;
use haste::config::{Config, DEFAULT_SAMPLE_COUNT, DEFAULT_SAMPLE_TIME_NS, DEFAULT_WARMUP_NS};
use haste::label::Label;
use haste::run::{Run, Step};
use haste::sample::Sample;
use haste::sampling_mode::SamplingMode;
use haste::scaled::{scale_throughput, scale_time};
use haste::{Filter, Results, Throughput};

fn config(warmup_ns: u64, sample_time_ns: u64, sample_count: usize) -> Config {
    let mut c = Config::default();
    c.set_warmup(warmup_ns);
    c.set_sample_time(sample_time_ns);
    c.set_sample_count(sample_count);
    c
}

fn sample(ps: u64) -> Sample {
    Sample { iter_time_ps: ps, sample_size: 1 }
}

#[test]
fn label_joins_parts_with_slashes() {
    let label = Label::new("foo").with_part(&1.to_string()).with_part("bar");
    assert_eq!(label.render(), "foo/1/bar");
}

#[test]
fn label_root_alone() {
    assert_eq!(Label::new("fib").render(), "fib");
    assert_eq!(Label::from("x").render(), "x");
}

#[test]
fn config_defaults() {
    let c = Config::default();
    assert_eq!(c.warmup_ns, DEFAULT_WARMUP_NS);
    assert_eq!(c.warmup_ns, 500_000_000);
    assert_eq!(c.sample_time_ns, DEFAULT_SAMPLE_TIME_NS);
    assert_eq!(c.sample_time_ns, 2_000_000_000);
    assert_eq!(c.sample_count, DEFAULT_SAMPLE_COUNT);
    assert_eq!(c.sample_count, 100);
    assert!(c.filter.is_none());
    assert!(c.throughput.is_none());
}

#[test]
fn config_setters() {
    let mut c = config(1, 2, 3);
    c.set_throughput(Throughput::Items(4));
    assert_eq!((c.warmup_ns, c.sample_time_ns, c.sample_count), (1, 2, 3));
    assert_eq!(c.throughput, Some(Throughput::Items(4)));
}

#[test]
fn filter_selects_matching_labels() {
    let mut c = Config::default();
    assert!(c.selects("anything"));
    c.set_filter(Filter::new("fib").unwrap());
    assert!(c.selects("bench/fib/3"));
    assert!(!c.selects("sort/10"));
}

#[test]
fn filter_keeps_its_pattern() {
    let f = Filter::new("^a.c$").unwrap();
    assert_eq!(f.pattern(), "^a.c$");
    assert!(f.is_match("abc"));
    assert!(!f.is_match("abcd"));
}

#[test]
fn invalid_filter_is_rejected() {
    let err = Filter::new("(").unwrap_err();
    assert_eq!(err.pattern, "(");
    assert!(!err.message.is_empty());
}

#[test]
fn run_selection_follows_the_filter() {
    let mut c = config(0, 1_000, 2);
    c.set_filter(Filter::new("fib/3").unwrap());
    assert!(Run::new(&c, Label::new("fib").with_part("3")).selected);
    assert!(!Run::new(&c, Label::new("fib").with_part("4")).selected);
}

#[test]
fn flat_sizes_are_all_equal() {
    let sizes = SamplingMode::Flat { sample_size: 7 }.sample_sizes(&config(0, 0, 4));
    assert_eq!(sizes, vec![7, 7, 7, 7]);
}

#[test]
fn linear_sizes_rise_by_the_factor() {
    let sizes = SamplingMode::Linear { sampling_factor: 3 }.sample_sizes(&config(0, 0, 5));
    assert_eq!(sizes, vec![3, 6, 9, 12, 15]);
    assert!(sizes.windows(2).all(|w| w[0] < w[1]));
}

#[test]
fn sizes_can_be_regenerated() {
    let mode = SamplingMode::Linear { sampling_factor: 2 };
    let c = config(0, 0, 3);
    assert_eq!(mode.sample_sizes(&c), mode.sample_sizes(&c));
}

#[test]
fn decide_linear_for_fast_calls() {
    // 1000 ns per call, 2 s over 100 samples: d = ceil(2e9 / (1000 * 5050)) = 397.
    let c = config(0, 2_000_000_000, 100);
    let mode = SamplingMode::decide_mode(&c, 500_000_000, 500_000);
    assert_eq!(mode, SamplingMode::Linear { sampling_factor: 397 });
    let total: u64 = mode.sample_sizes(&c).iter().map(|&s| s as u64).sum();
    assert!(total * 1000 >= 2_000_000_000);
    assert!((total - 5050) * 1000 < 2_000_000_000);
}

#[test]
fn decide_flat_for_slow_calls() {
    // 50 ms per call, 2 s over 10 samples: d would be 1, size = ceil(2e9 / 5e8) = 4.
    let c = config(0, 2_000_000_000, 10);
    let mode = SamplingMode::decide_mode(&c, 500_000_000, 10);
    assert_eq!(mode, SamplingMode::Flat { sample_size: 4 });
}

#[test]
fn decide_flat_size_is_at_least_one() {
    let c = config(0, 2_000_000_000, 100);
    let mode = SamplingMode::decide_mode(&c, 500_000_000, 5);
    assert_eq!(mode, SamplingMode::Flat { sample_size: 1 });
}

#[test]
fn decide_clamps_zero_warmup() {
    // Zero time and zero calls: the mean is taken as one picosecond.
    // ceil(2e12 ps / 5050) = 396_039_604.
    let c = config(0, 2_000_000_000, 100);
    let mode = SamplingMode::decide_mode(&c, 0, 0);
    assert_eq!(mode, SamplingMode::Linear { sampling_factor: 396_039_604 });
}

#[test]
fn decide_mean_floor_is_independent_of_call_count() {
    // 100 ns over one sample with a mean of at most one picosecond.
    let c = config(0, 100, 1);
    let expected = SamplingMode::Linear { sampling_factor: 100_000 };
    assert_eq!(SamplingMode::decide_mode(&c, 0, 1), expected);
    assert_eq!(SamplingMode::decide_mode(&c, 0, 1000), expected);
    assert_eq!(SamplingMode::decide_mode(&c, 1, 1_000_000), expected);
    assert_eq!(SamplingMode::decide_mode(&c, 1, 1000), expected);
}

#[test]
fn decide_uses_sub_nanosecond_means() {
    // 1 ns over 4 calls: 250 ps per call; 100 ns / 250 ps = 400.
    let c = config(0, 100, 1);
    assert_eq!(SamplingMode::decide_mode(&c, 1, 4), SamplingMode::Linear { sampling_factor: 400 });
}

#[test]
fn sample_time_per_call_in_picoseconds() {
    let s = Sample::from_duration(1000, 3);
    assert_eq!(s.iter_time_ps, 333_333);
    assert_eq!(s.sample_size, 3);
    assert_eq!(Sample::from_duration(u64::MAX, 1).iter_time_ps, u64::MAX);
}

#[test]
fn fold_gives_min_mean_max() {
    let r = BenchResult::from_samples(Label::new("x"), &[sample(5), sample(1), sample(9)]);
    assert_eq!((r.min_ps, r.mean_ps, r.max_ps), (1, 5, 9));
    assert!(r.throughput.is_none());
    assert!(r.min_ps <= r.mean_ps && r.mean_ps <= r.max_ps);
}

#[test]
fn fold_of_one_sample() {
    let r = BenchResult::from_samples(Label::new("x"), &[sample(42)]);
    assert_eq!((r.min_ps, r.mean_ps, r.max_ps), (42, 42, 42));
}

#[test]
fn fold_mean_rounds_down() {
    let r = BenchResult::from_samples(Label::new("x"), &[sample(1), sample(2)]);
    assert_eq!(r.mean_ps, 1);
    let big = BenchResult::from_samples(Label::new("x"), &[sample(u64::MAX), sample(u64::MAX)]);
    assert_eq!(big.mean_ps, u64::MAX);
}

#[test]
fn time_units_scale() {
    assert_eq!(scale_time(500_000).render(), "500 ns");
    assert_eq!(scale_time(1_500_000_000).render(), "1.5 ms");
    assert_eq!(scale_time(500).render(), "500 ps");
    assert_eq!(scale_time(2_250_000).render(), "2.25 µs");
    assert_eq!(scale_time(3_000_000_000_000).render(), "3 s");
    assert_eq!(scale_time(0).render(), "0 ps");
    assert_eq!(scale_time(1_000).render(), "1 ns");
}

#[test]
fn byte_rate_scales_by_1024() {
    let one_second = 1_000_000_000_000;
    assert_eq!(scale_throughput(one_second, Throughput::Bytes(2_097_152)).render(), "2 MiB/s");
    assert_eq!(scale_throughput(one_second, Throughput::Bytes(512)).render(), "512 B/s");
    assert_eq!(scale_throughput(one_second, Throughput::Bytes(1536)).render(), "1.5 KiB/s");
    assert_eq!(scale_throughput(one_second, Throughput::Bytes(3 << 30)).render(), "3 GiB/s");
}

#[test]
fn item_rate_scales_by_1000() {
    // 1000 items per millisecond.
    let r = scale_throughput(1_000_000_000, Throughput::Items(1000));
    assert_eq!(r.render(), "1 Melem/s");
    assert_eq!(scale_throughput(1_000_000_000_000, Throughput::Items(7)).render(), "7 elem/s");
    assert_eq!(scale_throughput(1_000_000_000_000, Throughput::Items(2500)).render(), "2.5 Kelem/s");
    assert_eq!(scale_throughput(1, Throughput::Items(4)).render(), "4000 Gelem/s");
}

#[test]
fn rate_keeps_six_decimals() {
    // 1030 / 1024 = 1.005859375
    let r = scale_throughput(1_000_000_000_000, Throughput::Bytes(1030));
    assert_eq!(r.render(), "1.005859 KiB/s");
}

#[test]
fn summary_rate_rounds_to_nearest() {
    let r = BenchResult::from_samples(Label::new("b"), &[sample(1_000_000_000_000)])
        .with_throughput(Throughput::Bytes(1030));
    assert_eq!(
        r.render(),
        "b: Min: 1.00 s | Mean: 1.00 s | Max: 1.00 s\nThroughput: Min: 1.01 KiB/s | Mean: 1.01 KiB/s | Max: 1.01 KiB/s"
    );
}

#[test]
fn rate_of_zero_time_is_finite() {
    assert_eq!(scale_throughput(0, Throughput::Items(1)).render(), "1000 Gelem/s");
}

#[test]
fn summary_line() {
    let r = BenchResult::from_samples(
        Label::new("fib").with_part("32"),
        &[sample(1_234_567), sample(1_500_000_000), sample(999)],
    );
    // mean = (1_234_567 + 1_500_000_000 + 999) / 3 = 500_411_855
    assert_eq!(r.render(), "fib/32: Min: 999.00 ps | Mean: 500.41 µs | Max: 1.50 ms");
}

#[test]
fn summary_rounds_half_up() {
    let r = BenchResult::from_samples(Label::new("r"), &[sample(1_235_000)]);
    assert_eq!(r.render(), "r: Min: 1.24 µs | Mean: 1.24 µs | Max: 1.24 µs");
}

#[test]
fn summary_with_throughput() {
    let r = BenchResult::from_samples(Label::new("copy"), &[sample(1_000_000_000_000)])
        .with_throughput(Throughput::Bytes(2_097_152));
    assert_eq!(
        r.render(),
        "copy: Min: 1.00 s | Mean: 1.00 s | Max: 1.00 s\nThroughput: Min: 2.00 MiB/s | Mean: 2.00 MiB/s | Max: 2.00 MiB/s"
    );
}

#[test]
fn results_keep_order() {
    let mut results = Results::default();
    assert_eq!(results.len(), 0);
    results.push(BenchResult::from_samples(Label::new("a"), &[sample(1)]));
    results.push(BenchResult::from_samples(Label::new("b"), &[sample(2)]));
    assert_eq!(results.len(), 2);
    assert_eq!(results.get(0).unwrap().label.render(), "a");
    assert_eq!(results.get(1).unwrap().label.render(), "b");
    assert!(results.get(2).is_none());
}

#[test]
fn warmup_always_makes_one_batch() {
    let mut run = Run::new(&config(0, 1_000, 3), Label::new("w"));
    assert_eq!(run.next_step(1_000_000), Step::Warmup { calls: 1 });
    run.record_warmup();
    assert!(matches!(run.next_step(1_000_000), Step::Sample { .. }));
}

#[test]
fn warmup_batches_double() {
    let mut run = Run::new(&config(100, 1_000, 3), Label::new("w"));
    let mut batches = Vec::new();
    let mut clock = 0;
    while let Step::Warmup { calls } = run.next_step(clock) {
        batches.push(calls);
        run.record_warmup();
        clock += 10 * calls;
    }
    assert_eq!(batches, vec![1, 2, 4, 8]);
    assert_eq!(run.warmup_iters, 15);
}

#[test]
fn unmatched_filter_runs_nothing() {
    let mut c = config(0, 1_000, 5);
    c.set_filter(Filter::new("^sort").unwrap());
    let mut run = Run::new(&c, Label::new("fib").with_part("3"));
    assert!(!run.selected);
    assert_eq!(run.next_step(0), Step::Done);
    let mut results = Results::default();
    assert!(!results.add_run(run));
    assert_eq!(results.len(), 0);
}

/// Drives a run with a simulated clock: every call takes `call_ns`.
fn simulate(c: &Config, label: Label, call_ns: u64) -> (Results, usize) {
    let mut run = Run::new(c, label);
    let mut clock = 0;
    let mut batches = 0;
    loop {
        match run.next_step(clock) {
            Step::Warmup { calls } => {
                clock += calls * call_ns;
                run.record_warmup();
            }
            Step::Sample { size } => {
                batches += 1;
                run.record_sample(size as u64 * call_ns);
            }
            Step::Done => break,
        }
    }
    let mut results = Results::default();
    assert!(results.add_run(run));
    (results, batches)
}

#[test]
fn end_to_end_constant_call_time() {
    let c = config(0, 1_000_000, 5);
    let (results, batches) = simulate(&c, Label::new("const"), 250);
    assert_eq!(batches, 5);
    let r = results.get(0).unwrap();
    assert_eq!(r.mean_ps, 250_000);
    assert_eq!(r.min_ps, 250_000);
    assert_eq!(r.max_ps, 250_000);
    assert_eq!(r.label.render(), "const");
}

#[test]
fn end_to_end_with_throughput() {
    let mut c = config(1_000, 1_000_000, 4);
    c.set_throughput(Throughput::Bytes(1024));
    let (results, batches) = simulate(&c, Label::new("t"), 1_000);
    assert_eq!(batches, 4);
    let r = results.get(0).unwrap();
    assert_eq!(r.throughput, Some(Throughput::Bytes(1024)));
    assert_eq!(r.mean_ps, 1_000_000);
}

#[test]
fn end_to_end_batches_follow_the_mode() {
    // One call per 10 ns, 1100 ns over 10 samples: d = ceil(1100 / (10 * 55)) = 2.
    let c = config(0, 1_100, 10);
    let mut run = Run::new(&c, Label::new("m"));
    assert_eq!(run.next_step(0), Step::Warmup { calls: 1 });
    run.record_warmup();
    let mut sizes = Vec::new();
    while let Step::Sample { size } = run.next_step(10) {
        sizes.push(size);
        run.record_sample(10 * size as u64);
    }
    assert_eq!(sizes, vec![2, 4, 6, 8, 10, 12, 14, 16, 18, 20]);
    assert_eq!(run.samples.len(), 10);
}
