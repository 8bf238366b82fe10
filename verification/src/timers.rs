//! The 60 Hz countdown of the delay and sound timers.
use vstd::prelude::*;

verus! {

/// A timer after one tick: a running timer counts down by one; a stopped
/// timer (zero) stays at zero.
pub open spec fn ticked(value: u8) -> u8 {
    if value > 0 {
        (value - 1) as u8
    } else {
        0
    }
}

/// A timer after `n` ticks.
pub open spec fn ticked_times(value: u8, n: nat) -> u8
    decreases n,
{
    if n == 0 {
        value
    } else {
        ticked(ticked_times(value, (n - 1) as nat))
    }
}

/// One timer tick.
pub fn tick(value: u8) -> (next: u8)
    ensures
        next == ticked(value),
{
    if value > 0 {
        value - 1
    } else {
        0
    }
}

} // verus!
