use vstd::prelude::*;

verus! {

/// Declared amount of work done by one call of a benchmark, used to turn
/// a per-call time into a rate.
#[derive(Clone, Copy, Debug, PartialEq, Eq, Structural)]
pub enum Throughput {
    /// Bytes processed by one call.
    Bytes(u64),
    /// Items processed by one call.
    Items(u64),
}

} // verus!
