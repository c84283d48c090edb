//! CPU sensors: the counters and text formats behind the temperature,
//! load and frequency readings of each platform.

pub mod linux;
pub mod windows;

use vstd::prelude::*;

verus! {

/// A sensor source for platforms without one: every reading is absent.
pub struct DummyProvider;

impl DummyProvider {
    pub fn new() -> (p: Self) {
        DummyProvider
    }
}

impl Default for DummyProvider {
    fn default() -> (p: Self) {
        Self::new()
    }
}

/// Busy and total time between two readings of the CPU counters.
pub struct LoadSample {
    /// Time spent busy since the previous sample.
    pub busy: u64,
    /// Time passed since the previous sample.
    pub total: u64,
}

/// `a - b`, or zero when `b` is larger (`u64::saturating_sub`).
pub open spec fn sat_sub(a: u64, b: u64) -> u64 {
    if a >= b {
        (a - b) as u64
    } else {
        0
    }
}

} // verus!
