//! Frame-budget arithmetic for the display loop. The loop runs at a capped
//! rate: after each step it sleeps for the rest of the frame period minus a
//! small safety margin, then busy-spins up to the exact frame boundary. The
//! subtraction is guarded, so a step that overruns the budget never
//! underflows — the loop then simply goes on without waiting.

use vstd::prelude::*;

verus! {

/// The frame period of the 24 frames-per-second cap, rounded to whole
/// microseconds.
pub const FRAME_MICROS: u64 = 41667;

/// How much of the wait is left to the busy-spin rather than the sleep,
/// in microseconds.
pub const SLEEP_MARGIN_MICROS: u64 = 1000;

/// How long to sleep after a step that took `elapsed` microseconds: nothing
/// when the step used the whole frame period, otherwise the rest of the
/// period minus the safety margin, clamped at zero.
pub open spec fn sleep_budget(elapsed: u64) -> Option<u64> {
    if elapsed >= FRAME_MICROS {
        None
    } else if FRAME_MICROS - elapsed > SLEEP_MARGIN_MICROS {
        Some((FRAME_MICROS - elapsed - SLEEP_MARGIN_MICROS) as u64)
    } else {
        Some(0u64)
    }
}

/// Decides the sleep after one step: `None` when the step already used the
/// whole frame period (the loop goes on at once, it never tries to catch
/// up), otherwise the remaining time minus the safety margin, clamped at
/// zero so the subtraction can never underflow.
pub fn sleep_micros(elapsed: u64) -> (wait: Option<u64>)
    ensures
        wait == sleep_budget(elapsed),
        wait is Some <==> elapsed < FRAME_MICROS,
{
    if elapsed >= FRAME_MICROS {
        None
    } else if FRAME_MICROS - elapsed > SLEEP_MARGIN_MICROS {
        Some(FRAME_MICROS - elapsed - SLEEP_MARGIN_MICROS)
    } else {
        Some(0)
    }
}

} // verus!
