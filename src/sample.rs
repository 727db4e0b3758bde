use vstd::prelude::*;

verus! {

/// Time of one call, in picoseconds, of a batch of `size` calls that took
/// `elapsed_ns` nanoseconds together (rounded down).
pub open spec fn per_call_ps(elapsed_ns: int, size: int) -> int {
    elapsed_ns * 1000 / size
}

/// A batch of `size` calls that each took `c` nanoseconds gives a per-call
/// time of exactly `1000 c` picoseconds.
pub proof fn lemma_constant_call_time(c: int, size: int)
    requires
        c >= 0,
        size >= 1,
    ensures
        per_call_ps(size * c, size) == c * 1000,
{
    assert((size * c) * 1000 / size == c * 1000) by (nonlinear_arith)
        requires
            size >= 1,
    ;
}

/// One timed batch.
#[derive(Debug, Clone, Copy, PartialEq, Eq, Structural)]
pub struct Sample {
    /// Time of one call in picoseconds, saturated at `u64::MAX`.
    pub iter_time_ps: u64,
    /// Number of calls in the batch.
    pub sample_size: usize,
}

impl Sample {
    /// The sample of a batch of `sample_size` calls that took `elapsed_ns`
    /// nanoseconds.
    pub fn from_duration(elapsed_ns: u64, sample_size: usize) -> (r: Self)
        requires
            sample_size >= 1,
        ensures
            r.sample_size == sample_size,
            r.iter_time_ps == if per_call_ps(elapsed_ns as int, sample_size as int) > u64::MAX {
                u64::MAX as int
            } else {
                per_call_ps(elapsed_ns as int, sample_size as int)
            },
    {
        let total_ps = elapsed_ns as u128 * 1000;
        let per_call = total_ps / sample_size as u128;
        let iter_time_ps = if per_call > u64::MAX as u128 {
            u64::MAX
        } else {
            per_call as u64
        };
        Sample { iter_time_ps, sample_size }
    }
}

} // verus!
