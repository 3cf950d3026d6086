//! A latency value prepared for the final report: whole milliseconds plus
//! the fractional nanosecond part, so a caller can print a fixed-point
//! `<millis>.<6 digits> ms` figure without floating point.
use vstd::prelude::*;

verus! {

/// One latency, held in nanoseconds.
pub struct PrettyDuration {
    nanos: u64,
}

impl View for PrettyDuration {
    type V = u64;

    closed spec fn view(&self) -> u64 {
        self.nanos
    }
}

impl PrettyDuration {
    /// Wraps a latency given in nanoseconds.
    pub fn from_nanos(nanos: u64) -> (r: PrettyDuration)
        ensures
            r@ == nanos,
    {
        PrettyDuration { nanos }
    }

    /// The latency back, in nanoseconds.
    pub fn as_nanos(&self) -> (n: u64)
        ensures
            n == self@,
    {
        self.nanos
    }

    /// The whole-millisecond part.
    pub fn millis_whole(&self) -> (m: u64)
        ensures
            m == self@ as int / 1_000_000,
    {
        self.nanos / 1_000_000
    }

    /// The fractional part below one millisecond, in nanoseconds: printed
    /// as six decimal digits it is exactly the fraction of a millisecond.
    pub fn millis_frac_nanos(&self) -> (f: u64)
        ensures
            f == self@ as int % 1_000_000,
            f < 1_000_000,
    {
        self.nanos % 1_000_000
    }
}

} // verus!
