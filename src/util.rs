//! Gate voltages and the edge trigger that turns a voltage stream into
//! discrete trigger events.

use vstd::prelude::*;

use crate::voltage::Voltage;

verus! {

/// The bit pattern of a low gate, `0.0`.
pub const GATE_LOW_BITS: u32 = 0;

/// The bit pattern of a high gate, `10.0`.
pub const GATE_HIGH_BITS: u32 = 0x4120_0000;

/// The bit pattern of `0.1`: at or below it a high trigger input falls low.
pub const TRIGGER_LOW_THRESHOLD_BITS: u32 = 0x3dcc_cccd;

/// The bit pattern of `1.0`: at or above it a low trigger input rises.
pub const TRIGGER_HIGH_THRESHOLD_BITS: u32 = 0x3f80_0000;

#[derive(Clone, Copy, Debug, PartialEq, Eq, Structural)]
pub enum InputTriggerState {
    Low,
    High,
}

pub open spec fn trigger_low_threshold() -> Voltage {
    Voltage { bits: TRIGGER_LOW_THRESHOLD_BITS }
}

pub open spec fn trigger_high_threshold() -> Voltage {
    Voltage { bits: TRIGGER_HIGH_THRESHOLD_BITS }
}

/// A trigger event happens on a rise from the low state to a voltage at or
/// above the high threshold.
pub open spec fn trigger_fires(state: InputTriggerState, value: Voltage) -> bool {
    state == InputTriggerState::Low && value.spec_ge(trigger_high_threshold())
}

/// The state after observing `value`: a low trigger rises at the high
/// threshold, a high one falls at the low threshold, and values in between
/// keep the state.
pub open spec fn trigger_next(state: InputTriggerState, value: Voltage) -> InputTriggerState {
    match state {
        InputTriggerState::Low => if value.spec_ge(trigger_high_threshold()) {
            InputTriggerState::High
        } else {
            InputTriggerState::Low
        },
        InputTriggerState::High => if value.spec_le(trigger_low_threshold()) {
            InputTriggerState::Low
        } else {
            InputTriggerState::High
        },
    }
}

/// Generates trigger events from an input port's voltage, with hysteresis
/// between the two thresholds.
#[derive(Clone, Copy)]
pub struct InputTrigger {
    state: InputTriggerState,
}

impl View for InputTrigger {
    type V = InputTriggerState;

    closed spec fn view(&self) -> InputTriggerState {
        self.state
    }
}

impl InputTrigger {
    pub fn new() -> (t: InputTrigger)
        ensures
            t@ == InputTriggerState::Low,
    {
        InputTrigger { state: InputTriggerState::Low }
    }

    /// Observes one voltage; true exactly when it makes a low trigger rise.
    pub fn process_voltage(&mut self, value: Voltage) -> (triggered: bool)
        ensures
            triggered == trigger_fires(old(self)@, value),
            final(self)@ == trigger_next(old(self)@, value),
    {
        match self.state {
            InputTriggerState::Low => {
                let triggered = value.ge(Voltage { bits: TRIGGER_HIGH_THRESHOLD_BITS });
                if triggered {
                    self.state = InputTriggerState::High;
                }
                triggered
            },
            InputTriggerState::High => {
                if value.le(Voltage { bits: TRIGGER_LOW_THRESHOLD_BITS }) {
                    self.state = InputTriggerState::Low;
                }
                false
            },
        }
    }

    /// Re-arms the trigger, whatever the last voltage was.
    pub fn reset(&mut self)
        ensures
            final(self)@ == InputTriggerState::Low,
    {
        self.state = InputTriggerState::Low;
    }

    pub fn state(&self) -> (s: InputTriggerState)
        ensures
            s == self@,
    {
        self.state
    }
}

/// Voltages strictly inside the hysteresis band, above the low threshold
/// and below the high one, keep the trigger's state and fire nothing.
pub proof fn lemma_hysteresis_band(state: InputTriggerState, value: Voltage)
    requires
        !value.spec_is_nan(),
        trigger_low_threshold().rank() < value.rank() < trigger_high_threshold().rank(),
    ensures
        trigger_next(state, value) == state,
        !trigger_fires(state, value),
{
}

} // verus!
