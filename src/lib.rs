//! A micro-benchmark engine: warmup calibration, choice of batch sizes,
//! reduction of timed batches into summary statistics, and their rendering.
//! Clock readings and calls of the benchmarked work are made by the caller,
//! which hands plain numbers to the functions here (see `run::Run`).

pub mod bench_result;
pub mod config;
pub mod decimal;
pub mod filter;
pub mod label;
pub mod run;
pub mod sample;
pub mod sampling_mode;
pub mod scaled;
pub mod throughput;

pub use bench_result::{BenchResult, Results};
pub use config::Config;
pub use filter::{Filter, InvalidFilter};
pub use label::Label;
pub use run::{Run, Step};
pub use sample::Sample;
pub use sampling_mode::SamplingMode;
pub use throughput::Throughput;
