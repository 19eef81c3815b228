//! Instants as the library stores them: whole seconds since the Unix epoch
//! and the nanoseconds past that second.

use vstd::prelude::*;

verus! {

/// A UTC instant.
#[derive(Clone, Copy, Debug, PartialEq, Eq)]
pub struct Timestamp {
    pub secs: i64,
    pub nanos: u32,
}

/// Largest magnitude of `secs` the library accepts (far beyond any
/// calendar date that chrono can represent).
pub const MAX_ABS_SECS: i64 = 0x2000_0000_0000_0000;

impl Timestamp {
    pub open spec fn total_nanos(self) -> int {
        self.secs * 1_000_000_000 + self.nanos
    }

    pub open spec fn in_range(self) -> bool {
        -MAX_ABS_SECS <= self.secs <= MAX_ABS_SECS && self.nanos < 2_000_000_000
    }
}

/// Whole seconds from `start` to `end`, rounded toward zero
/// (what `(end - start).num_seconds()` gives for two instants).
pub open spec fn whole_seconds_between(start: Timestamp, end: Timestamp) -> int {
    let d = end.total_nanos() - start.total_nanos();
    if d >= 0 {
        d / 1_000_000_000
    } else {
        -((-d) / 1_000_000_000)
    }
}

/// Signed whole seconds from `start` to `end`, rounded toward zero.
pub fn seconds_between(start: Timestamp, end: Timestamp) -> (s: i64)
    requires
        start.in_range(),
        end.in_range(),
    ensures
        s == whole_seconds_between(start, end),
{
    let a: i128 = (start.secs as i128) * 1_000_000_000i128 + (start.nanos as i128);
    let b: i128 = (end.secs as i128) * 1_000_000_000i128 + (end.nanos as i128);
    let d: i128 = b - a;
    assert(d == end.total_nanos() - start.total_nanos());
    if d >= 0 {
        let q: i128 = d / 1_000_000_000i128;
        assert(q < 0x7fff_ffff_ffff_ffff) by (nonlinear_arith)
            requires
                q == d / 1_000_000_000,
                0 <= d <= 0x4000_0000_0000_0000 * 1_000_000_000 + 2_000_000_000,
        ;
        q as i64
    } else {
        let e: i128 = 0 - d;
        let q: i128 = e / 1_000_000_000i128;
        assert(q < 0x7fff_ffff_ffff_ffff) by (nonlinear_arith)
            requires
                q == e / 1_000_000_000,
                0 < e <= 0x4000_0000_0000_0000 * 1_000_000_000 + 2_000_000_000,
        ;
        (0 - q) as i64
    }
}

} // verus!
