//! Timing one block of code.

use vstd::prelude::*;
use crate::clock::{_time, elapsed, elapsed_between};
use crate::line::{timed_line, timed_text};

verus! {

/// The value that a timed block produced, with the line that reports how long
/// it took.
pub fn report<R>(label: &str, start: u64, value: R, end: u64) -> (out: (R, String))
    ensures
        out.0 == value,
        out.1@ == timed_text(label@, elapsed(start, end)),
{
    (value, timed_line(label, elapsed_between(start, end)))
}

/// Runs `block` once, between two readings of the clock, and hands back what
/// it returned together with the line that reports the time between the two
/// readings.
pub fn timed<R, F: FnOnce() -> R>(label: &str, block: F) -> (out: (R, String))
    requires
        block.requires(()),
    ensures
        block.ensures((), out.0),
        exists|start: u64, end: u64| out.1@ == timed_text(label@, elapsed(start, end)),
{
    let start: u64 = _time();
    let value = block();
    let end: u64 = _time();
    report(label, start, value, end)
}

} // verus!
