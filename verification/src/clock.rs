//! The clock, and the time between two of its readings.

use vstd::prelude::*;

verus! {

/// `time::precise_time_ns` returns the value of a high-resolution counter in
/// nanoseconds since an unspecified epoch. The value depends on the moment of
/// the call and on the platform's clock, so nothing is claimed of it.
pub assume_specification[ time::precise_time_ns ]() -> (now: u64)
;

/// The nanoseconds from the reading `start` to the later reading `end`. A
/// reading that lies before `start` counts as no time at all.
pub open spec fn elapsed(start: u64, end: u64) -> nat {
    if end >= start {
        (end - start) as nat
    } else {
        0
    }
}

/// Reads the clock: nanoseconds since an unspecified epoch. Only the
/// difference of two readings means anything.
pub fn _time() -> u64 {
    time::precise_time_ns()
}

/// The nanoseconds from the reading `start` to the reading `end`.
pub fn elapsed_between(start: u64, end: u64) -> (ns: u64)
    ensures
        ns as nat == elapsed(start, end),
        start <= end ==> ns == end - start,
{
    if end >= start {
        end - start
    } else {
        0
    }
}

} // verus!
