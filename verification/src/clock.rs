//! The timer tick counter.
//!
//! Every timer interrupt runs the scheduler (see [`crate::proc::switch`])
//! and counts one tick here. The counter wraps at the top of its range.

use vstd::prelude::*;

verus! {

/// The number of timer ticks seen since boot.
#[derive(Clone, Copy, PartialEq, Eq, Structural, Debug)]
pub struct TickCounter {
    pub value: u64,
}

impl TickCounter {
    /// A counter at zero.
    pub fn new() -> (r: TickCounter)
        ensures
            r.value == 0,
    {
        TickCounter { value: 0 }
    }
}

/// The counter's current value.
pub fn read_counter(counter: &TickCounter) -> (r: u64)
    ensures
        r == counter.value,
{
    counter.value
}

/// Count one tick; returns the value before the increment. The counter
/// wraps around at the top of its range.
pub fn inc_counter(counter: &mut TickCounter) -> (r: u64)
    ensures
        r == old(counter).value,
        final(counter).value == if old(counter).value < u64::MAX {
            old(counter).value + 1
        } else {
            0
        },
{
    let previous = counter.value;
    counter.value = if counter.value < u64::MAX {
        counter.value + 1
    } else {
        0
    };
    previous
}

} // verus!
