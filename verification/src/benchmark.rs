//! Throughput figures the node advertises.

use vstd::prelude::*;

verus! {

pub struct Benchmark {
    theoretical_tps: u64,
}

impl Benchmark {
    pub closed spec fn spec_tps(&self) -> u64 {
        self.theoretical_tps
    }

    /// The advertised figures: fifty thousand transactions per second.
    pub fn new() -> (b: Self)
        ensures
            b.spec_tps() == 50_000u64,
    {
        Benchmark { theoretical_tps: 50_000 }
    }

    /// The theoretical throughput, in transactions per second.
    pub fn theoretical_tps(&self) -> (r: u64)
        ensures
            r == self.spec_tps(),
    {
        self.theoretical_tps
    }

    /// The target block time, in milliseconds.
    pub fn block_time_ms(&self) -> (r: u64)
        ensures
            r == 500u64,
    {
        500
    }
}

} // verus!
