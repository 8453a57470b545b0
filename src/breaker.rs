//! The breaker: passes a stereo pair through until a sample's magnitude
//! reaches the threshold, then mutes it and raises a fault gate until a
//! reset trigger arrives.

use vstd::prelude::*;

use crate::rack::{
    monophonic_or_zero,
    with_channel_count,
    with_voltages,
    Port,
};
use crate::util::{
    trigger_fires,
    trigger_next,
    InputTrigger,
    InputTriggerState,
    GATE_HIGH_BITS,
    GATE_LOW_BITS,
};
use crate::voltage::Voltage;

verus! {

/// The bit pattern of `12.0`: a sample whose magnitude reaches it trips the
/// breaker.
pub const THRESHOLD_BITS: u32 = 0x4140_0000;

pub open spec fn threshold() -> Voltage {
    Voltage { bits: THRESHOLD_BITS }
}

/// A sample trips the breaker when `|v| >= 12.0`. As a float comparison
/// this is false for a NaN.
pub open spec fn trips(v: Voltage) -> bool {
    v.spec_abs().spec_ge(threshold())
}

/// Some channel of a connected port trips the breaker.
pub open spec fn port_out_of_range(port: Option<Seq<Voltage>>) -> bool {
    match port {
        None => false,
        Some(voltages) => exists|i: int| 0 <= i < voltages.len() && #[trigger] trips(voltages[i]),
    }
}

#[derive(Clone, Copy, Debug, PartialEq, Eq, Structural)]
pub enum BreakerState {
    Closed,
    Open,
}

/// The breaker's state and that of its reset trigger.
pub struct BreakerView {
    pub state: BreakerState,
    pub reset_trigger: InputTriggerState,
}

/// What one call reads: the two signal inputs and the reset voltage.
pub struct BreakerCall {
    pub left: Option<Seq<Voltage>>,
    pub right: Option<Seq<Voltage>>,
    pub reset: Voltage,
}

/// One call: a firing reset trigger closes the breaker; a closed breaker
/// then opens when either input is out of range. An open breaker that is
/// not reset stays open.
pub open spec fn breaker_next(b: BreakerView, call: BreakerCall) -> BreakerView {
    let closed = trigger_fires(b.reset_trigger, call.reset) || b.state == BreakerState::Closed;
    BreakerView {
        state: if closed && !port_out_of_range(call.left) && !port_out_of_range(call.right) {
            BreakerState::Closed
        } else {
            BreakerState::Open
        },
        reset_trigger: trigger_next(b.reset_trigger, call.reset),
    }
}

/// The breaker after a sequence of calls.
pub open spec fn breaker_run(start: BreakerView, calls: Seq<BreakerCall>) -> BreakerView
    decreases calls.len(),
{
    if calls.len() == 0 {
        start
    } else {
        breaker_next(breaker_run(start, calls.drop_last()), calls.last())
    }
}

/// An output that follows `input`: a copy, or zeros at the same width when
/// muted. A disconnected input asks the output for no channels.
pub open spec fn copied_or_muted(
    output: Option<Seq<Voltage>>,
    input: Option<Seq<Voltage>>,
    mute: bool,
) -> Option<Seq<Voltage>> {
    match input {
        None => with_channel_count(output, 0),
        Some(voltages) => with_voltages(
            output,
            if mute {
                Seq::new(voltages.len(), |i: int| Voltage::zero())
            } else {
                voltages
            },
        ),
    }
}

/// A gate output after it is set to a single voltage.
pub open spec fn gate_set(output: Option<Seq<Voltage>>, gate: Voltage) -> Option<Seq<Voltage>> {
    match output {
        None => None,
        Some(_) => Some(seq![gate]),
    }
}

pub struct BreakerInputs {
    pub left: Port,
    pub right: Port,
    pub reset_trigger: Port,
}

impl BreakerInputs {
    pub open spec fn call(&self) -> BreakerCall {
        BreakerCall {
            left: self.left@,
            right: self.right@,
            reset: monophonic_or_zero(self.reset_trigger@),
        }
    }
}

pub struct BreakerOutputs {
    pub tripped_gate: Port,
    pub left: Port,
    pub right: Port,
}

pub struct Breaker {
    state: BreakerState,
    reset_trigger: InputTrigger,
}

impl View for Breaker {
    type V = BreakerView;

    closed spec fn view(&self) -> BreakerView {
        BreakerView { state: self.state, reset_trigger: self.reset_trigger@ }
    }
}

impl Default for Breaker {
    /// A closed breaker whose reset trigger is low.
    fn default() -> (b: Breaker)
        ensures
            b@ == (BreakerView { state: BreakerState::Closed, reset_trigger: InputTriggerState::Low }),
    {
        Breaker { state: BreakerState::Closed, reset_trigger: InputTrigger::new() }
    }
}

impl Breaker {
    /// Runs one call. The state moves as `breaker_next` says; then, from the
    /// new state alone, a closed breaker copies its inputs to its outputs
    /// with a low gate, and an open one writes zeros at the inputs' widths
    /// with a high gate. `tripped_status` reports whether it is open.
    pub fn process(
        &mut self,
        inputs: &BreakerInputs,
        outputs: &mut BreakerOutputs,
        tripped_status: &mut bool,
    )
        ensures
            final(self)@ == breaker_next(old(self)@, inputs.call()),
            *final(tripped_status) == (final(self)@.state == BreakerState::Open),
            final(outputs).tripped_gate@ == gate_set(
                old(outputs).tripped_gate@,
                if final(self)@.state == BreakerState::Open {
                    Voltage { bits: GATE_HIGH_BITS }
                } else {
                    Voltage { bits: GATE_LOW_BITS }
                },
            ),
            final(outputs).left@ == copied_or_muted(
                old(outputs).left@,
                inputs.left@,
                final(self)@.state == BreakerState::Open,
            ),
            final(outputs).right@ == copied_or_muted(
                old(outputs).right@,
                inputs.right@,
                final(self)@.state == BreakerState::Open,
            ),
    {
        let reset_trigger_voltage = inputs.reset_trigger.get_zero_normaled_monophonic_voltage();
        if self.reset_trigger.process_voltage(reset_trigger_voltage) {
            self.state = BreakerState::Closed;
        }
        if self.state == BreakerState::Closed {
            let left_tripped = match inputs.left.as_slice() {
                Some(left) => out_of_range(left),
                None => false,
            };
            let right_tripped = match inputs.right.as_slice() {
                Some(right) => out_of_range(right),
                None => false,
            };
            if left_tripped || right_tripped {
                self.state = BreakerState::Open;
            }
        }
        let mute = match self.state {
            BreakerState::Closed => {
                outputs.tripped_gate.set_monophonic_voltage(Voltage { bits: GATE_LOW_BITS });
                *tripped_status = false;
                false
            },
            BreakerState::Open => {
                outputs.tripped_gate.set_monophonic_voltage(Voltage { bits: GATE_HIGH_BITS });
                *tripped_status = true;
                true
            },
        };
        copy_or_mute(&inputs.left, &mut outputs.left, mute);
        copy_or_mute(&inputs.right, &mut outputs.right, mute);
    }
}

/// Whether any of `values` trips the breaker. NaNs never do.
fn out_of_range(values: &[Voltage]) -> (r: bool)
    ensures
        r == exists|i: int| 0 <= i < values@.len() && #[trigger] trips(values@[i]),
{
    let mut i: usize = 0;
    while i < values.len()
        invariant
            0 <= i <= values@.len(),
            forall|j: int| 0 <= j < i ==> !#[trigger] trips(values@[j]),
        decreases values@.len() - i,
    {
        let tripped = values[i].abs().ge(Voltage { bits: THRESHOLD_BITS });
        assert(tripped == trips(values@[i as int]));
        if tripped {
            return true;
        }
        i = i + 1;
    }
    false
}

/// Copies `src` to `dest`, or writes zeros at `src`'s width when muted.
fn copy_or_mute(src: &Port, dest: &mut Port, mute: bool)
    ensures
        final(dest)@ == copied_or_muted(old(dest)@, src@, mute),
{
    match src.as_slice() {
        Some(voltages) => {
            if !mute {
                dest.set_voltages_from_slice(voltages);
            } else {
                let zeroes = [Voltage { bits: 0 }; 16];
                let muted = &zeroes[0..voltages.len()];
                assert(muted@ =~= Seq::new(voltages@.len(), |i: int| Voltage::zero()));
                dest.set_voltages_from_slice(muted);
            }
        },
        None => {
            dest.set_polyphony_count(0);
        },
    }
}

/// Once a call's inputs trip the breaker, it is open after that call and
/// after every later one, up to the first call in which the reset trigger
/// fires (a rising edge on the reset input).
pub proof fn lemma_breaker_latch(start: BreakerView, calls: Seq<BreakerCall>, i: int, j: int)
    requires
        0 <= i < j <= calls.len(),
        port_out_of_range(calls[i].left) || port_out_of_range(calls[i].right),
        forall|k: int|
            i < k < j ==> !trigger_fires(
                #[trigger] breaker_run(start, calls.take(k)).reset_trigger,
                calls[k].reset,
            ),
    ensures
        breaker_run(start, calls.take(j)).state == BreakerState::Open,
    decreases j - i,
{
    assert(calls.take(j).drop_last() =~= calls.take(j - 1));
    assert(calls.take(j).last() == calls[j - 1]);
    if j > i + 1 {
        lemma_breaker_latch(start, calls, i, j - 1);
        assert(!trigger_fires(breaker_run(start, calls.take(j - 1)).reset_trigger, calls[j - 1].reset));
    }
}

/// In a call where the reset trigger fires, the breaker ends open exactly
/// when that call's own inputs are out of range, whatever its state before.
pub proof fn lemma_reset_judges_afresh(b: BreakerView, call: BreakerCall)
    requires
        trigger_fires(b.reset_trigger, call.reset),
    ensures
        (breaker_next(b, call).state == BreakerState::Open) == (port_out_of_range(call.left)
            || port_out_of_range(call.right)),
{
}

/// A NaN sample never trips the breaker: a closed breaker whose inputs hold
/// only NaNs and samples of magnitude below the threshold stays closed.
pub proof fn lemma_nan_never_opens(b: BreakerView, call: BreakerCall)
    requires
        b.state == BreakerState::Closed,
        call.left matches Some(left) ==> forall|i: int|
            0 <= i < left.len() ==> (#[trigger] left[i]).spec_is_nan() || left[i].spec_abs().rank()
                < threshold().rank(),
        call.right matches Some(right) ==> forall|i: int|
            0 <= i < right.len() ==> (#[trigger] right[i]).spec_is_nan() || right[i].spec_abs().rank()
                < threshold().rank(),
    ensures
        breaker_next(b, call).state == BreakerState::Closed,
{
    if port_out_of_range(call.left) {
        let left = call.left.unwrap();
        let i = choose|i: int| 0 <= i < left.len() && #[trigger] trips(left[i]);
        assert(left[i].spec_is_nan() ==> left[i].spec_abs().spec_is_nan());
    }
    if port_out_of_range(call.right) {
        let right = call.right.unwrap();
        let i = choose|i: int| 0 <= i < right.len() && #[trigger] trips(right[i]);
        assert(right[i].spec_is_nan() ==> right[i].spec_abs().spec_is_nan());
    }
}

} // verus!
