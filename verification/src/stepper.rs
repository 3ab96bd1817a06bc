//! The background stepper's decision rule. The worker thread sleeps for
//! the configured delay, wakes, and calls this rule; the thread itself
//! only performs what the rule decides: step the engine once and request
//! a repaint, or do nothing until the next wake.
use vstd::prelude::*;

verus! {

/// What one wake of the stepper does.
pub struct WakeOutcome {
    /// Whether the engine is to advance by one step this cycle. A
    /// repaint is requested exactly when it does.
    pub step: bool,
    /// The generation counter after the cycle, given the counter stood
    /// at the value passed in when the stepper woke.
    pub generation: u128,
}

/// One wake cycle: step exactly when the run flag is set, leaving the
/// generation counter advanced by one; a cleared flag leaves the
/// generation untouched and triggers nothing.
pub fn wake_cycle(is_running: bool, generation: u128) -> (outcome: WakeOutcome)
    requires
        generation < u128::MAX,
    ensures
        outcome.step == is_running,
        is_running ==> outcome.generation == generation + 1,
        !is_running ==> outcome.generation == generation,
{
    if is_running {
        WakeOutcome { step: true, generation: generation + 1 }
    } else {
        WakeOutcome { step: false, generation }
    }
}

} // verus!
