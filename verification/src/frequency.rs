//! The rate-limit gate: a pure decision over a persisted last-update
//! timestamp, a configured period, and the current time. The sum
//! `last_update + period` is computed with checked arithmetic; overflow is a
//! distinct outcome, never a silent wraparound. The boundary is exclusive:
//! the cooldown has elapsed only when `last_update + period < now`.

use vstd::prelude::*;

use solana_program::sysvar::Sysvar;

verus! {

/// The three outcomes of the check: the cooldown has elapsed, it has not,
/// or the sum overflowed the integer range.
#[derive(Clone, Copy, Debug, PartialEq, Eq, Structural)]
pub enum GateOutcome {
    Pass,
    Fail,
    Overflow,
}

/// What the check decides: overflow when `last_update + period` exceeds the
/// integer range, a pass exactly when the sum is strictly below `now`.
pub open spec fn spec_frequency_gate(last_update: u64, period: u64, now: u64) -> GateOutcome {
    if last_update + period > u64::MAX {
        GateOutcome::Overflow
    } else if last_update + period < now {
        GateOutcome::Pass
    } else {
        GateOutcome::Fail
    }
}

/// Decide whether a cooldown of `period` starting at `last_update` has
/// elapsed by `now`.
pub fn frequency_gate(last_update: u64, period: u64, now: u64) -> (r: GateOutcome)
    ensures
        r == spec_frequency_gate(last_update, period, now),
{
    match last_update.checked_add(period) {
        Some(sum) => {
            if sum < now {
                GateOutcome::Pass
            } else {
                GateOutcome::Fail
            }
        },
        None => GateOutcome::Overflow,
    }
}

/// Relies on the clock sysvar query (`Clock::get` of the ledger runtime) for
/// the current wall timestamp. The time is environmental, so nothing is
/// promised of the value: callers state what holds of every outcome.
#[verifier::external_body]
pub(crate) fn clock_time() -> (r: Option<i64>)
{
    solana_program::clock::Clock::get().ok().map(|c| c.unix_timestamp)
}

/// The current time as the rate limiter consumes it: a clock failure or a
/// timestamp before the epoch yields nothing.
pub(crate) fn current_time() -> (r: Option<u64>) {
    match clock_time() {
        Some(t) => {
            if t >= 0 {
                Some(t as u64)
            } else {
                None
            }
        },
        None => None,
    }
}

} // verus!
