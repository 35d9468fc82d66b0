//! The pace of the host: how long it rests between two cycles.

use vstd::prelude::*;
use crate::machine::FRAME_RATE;

verus! {

/// The time that one cycle is given, in nanoseconds: a whole number of
/// milliseconds, as many as fit `FRAME_RATE` times into a second.
pub const FRAME_INTERVAL_NANOS: u64 = (1000 / FRAME_RATE) * 1_000_000;

/// How long the host has to pause, in nanoseconds, once a cycle and what
/// came with it have taken `elapsed_nanos`: what is left of the time that a
/// cycle is given, and nothing if that time is used up.
pub fn remaining_pause_nanos(elapsed_nanos: u128) -> (ns: u64)
    ensures
        ns == (if elapsed_nanos < FRAME_INTERVAL_NANOS {
            FRAME_INTERVAL_NANOS - elapsed_nanos
        } else {
            0
        }),
{
    if elapsed_nanos < FRAME_INTERVAL_NANOS as u128 {
        FRAME_INTERVAL_NANOS - elapsed_nanos as u64
    } else {
        0
    }
}

} // verus!
