use potential::util::{InputTrigger, InputTriggerState};
use potential::voltage::Voltage;

fn v(x: f32) -> Voltage {
    Voltage { bits: x.to_bits() }
}

#[test]
fn hysteresis_sequence() {
    let mut t = InputTrigger::new();
    let inputs = [0.0f32, 0.5, 1.0, 0.5, 0.05];
    let expected_events = [false, false, true, false, false];
    let expected_states = [
        InputTriggerState::Low,
        InputTriggerState::Low,
        InputTriggerState::High,
        InputTriggerState::High,
        InputTriggerState::Low,
    ];
    for k in 0..inputs.len() {
        assert_eq!(t.process_voltage(v(inputs[k])), expected_events[k]);
        assert_eq!(t.state(), expected_states[k]);
    }
}

#[test]
fn trigger_fires_once_per_rise() {
    let mut t = InputTrigger::new();
    assert!(t.process_voltage(v(10.0)));
    assert!(!t.process_voltage(v(10.0)));
    assert!(!t.process_voltage(v(0.1)));
    assert_eq!(t.state(), InputTriggerState::Low);
    assert!(t.process_voltage(v(1.0)));
}

#[test]
fn nan_neither_rises_nor_falls() {
    let mut t = InputTrigger::new();
    assert!(!t.process_voltage(v(f32::NAN)));
    assert_eq!(t.state(), InputTriggerState::Low);
    assert!(t.process_voltage(v(5.0)));
    assert!(!t.process_voltage(v(f32::NAN)));
    assert_eq!(t.state(), InputTriggerState::High);
    assert!(!t.process_voltage(v(-3.0)));
    assert_eq!(t.state(), InputTriggerState::Low);
}

#[test]
fn reset_rearms() {
    let mut t = InputTrigger::new();
    assert!(t.process_voltage(v(2.0)));
    t.reset();
    assert_eq!(t.state(), InputTriggerState::Low);
    assert!(t.process_voltage(v(2.0)));
}
