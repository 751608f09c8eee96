//! The delay timer clock. Setting the timer records a base value and a
//! clock reading; a read computes how much of the base is left, one unit
//! decaying every 16 milliseconds.

use vstd::prelude::*;

verus! {

/// Milliseconds per timer tick: one unit decays every 16 ms, close to the
/// 60 Hz refresh cadence.
pub const MILLIS_PER_TICK: u128 = 16;

/// A point in time taken from the process clock, kept as the delay timer's
/// decay reference. Opaque to the verifier.
#[verifier::external_type_specification]
#[verifier::external_body]
pub struct ExInstant(std::time::Instant);

/// Relies on std::time::Instant::now: a reading of the monotonic clock.
/// Nothing is assumed of its value.
#[verifier::external_body]
pub(crate) fn instant_now() -> (t: std::time::Instant) {
    std::time::Instant::now()
}

/// Relies on std::time::Instant::elapsed: the whole milliseconds since `t`
/// was taken. The value depends on the clock, so nothing is assumed of it.
#[verifier::external_body]
pub(crate) fn elapsed_millis(t: &std::time::Instant) -> (ms: u128) {
    t.elapsed().as_millis()
}

/// What remains of a delay timer set to `base` after `ms` milliseconds have
/// passed: one unit per 16 ms gone, floored at zero.
pub open spec fn spec_decayed(base: u8, ms: u128) -> u8 {
    if ms / MILLIS_PER_TICK >= base {
        0
    } else {
        (base - ms / MILLIS_PER_TICK) as u8
    }
}

/// Computes the decayed timer value from the base value and the elapsed
/// time in milliseconds.
pub fn decayed_timer(base: u8, ms: u128) -> (r: u8)
    ensures
        r == spec_decayed(base, ms),
{
    let ticks = ms / MILLIS_PER_TICK;
    if ticks >= base as u128 {
        0
    } else {
        assert(ticks < 256 ==> ticks as u8 == ticks) by (bit_vector);
        base - ticks as u8
    }
}

} // verus!
