use potential::breaker::{Breaker, BreakerInputs, BreakerOutputs};
use potential::rack::Port;
use potential::voltage::Voltage;

fn v(x: f32) -> Voltage {
    Voltage { bits: x.to_bits() }
}

fn port(values: &[f32]) -> Port {
    let mut p = Port::default();
    let vs: Vec<Voltage> = values.iter().map(|x| v(*x)).collect();
    p.set_voltages_from_slice(&vs);
    p
}

fn floats(port: &Port) -> Option<Vec<f32>> {
    port.as_slice().map(|s| s.iter().map(|x| f32::from_bits(x.bits)).collect())
}

fn outputs() -> BreakerOutputs {
    BreakerOutputs { tripped_gate: Port::default(), left: Port::default(), right: Port::default() }
}

fn call(b: &mut Breaker, left: &[f32], right: &[f32], reset: f32, out: &mut BreakerOutputs) -> bool {
    let inputs = BreakerInputs { left: port(left), right: port(right), reset_trigger: port(&[reset]) };
    let mut tripped = false;
    b.process(&inputs, out, &mut tripped);
    tripped
}

#[test]
fn trip_then_reset_scenario() {
    let mut b = Breaker::default();
    let mut out = outputs();
    assert!(call(&mut b, &[15.0], &[0.0], 0.0, &mut out));
    assert_eq!(floats(&out.tripped_gate), Some(vec![10.0]));
    assert_eq!(floats(&out.left), Some(vec![0.0]));
    assert!(!call(&mut b, &[0.0], &[0.0], 10.0, &mut out));
    assert_eq!(floats(&out.tripped_gate), Some(vec![0.0]));
    assert_eq!(floats(&out.left), Some(vec![0.0]));
}

#[test]
fn closed_breaker_copies_inputs() {
    let mut b = Breaker::default();
    let mut out = outputs();
    assert!(!call(&mut b, &[1.0, -11.5, 3.0], &[-2.0], 0.0, &mut out));
    assert_eq!(floats(&out.left), Some(vec![1.0, -11.5, 3.0]));
    assert_eq!(floats(&out.right), Some(vec![-2.0]));
    assert_eq!(floats(&out.tripped_gate), Some(vec![0.0]));
}

#[test]
fn negative_and_right_samples_trip() {
    let mut b = Breaker::default();
    let mut out = outputs();
    assert!(call(&mut b, &[0.0, 0.0], &[1.0, -12.0, 2.0], 0.0, &mut out));
    assert_eq!(floats(&out.left), Some(vec![0.0, 0.0]));
    assert_eq!(floats(&out.right), Some(vec![0.0, 0.0, 0.0]));
}

#[test]
fn open_breaker_latches_until_reset_edge() {
    let mut b = Breaker::default();
    let mut out = outputs();
    assert!(call(&mut b, &[20.0], &[0.0], 0.0, &mut out));
    assert!(call(&mut b, &[1.0], &[1.0], 0.0, &mut out));
    assert_eq!(floats(&out.left), Some(vec![0.0]));
    assert!(call(&mut b, &[1.0], &[1.0], 0.5, &mut out));
    assert!(!call(&mut b, &[1.0], &[1.0], 1.0, &mut out));
    assert_eq!(floats(&out.left), Some(vec![1.0]));
}

#[test]
fn reset_edge_judges_current_inputs() {
    let mut b = Breaker::default();
    let mut out = outputs();
    assert!(call(&mut b, &[13.0], &[0.0], 0.0, &mut out));
    assert!(call(&mut b, &[13.0], &[0.0], 10.0, &mut out));
    // The reset input is still high: no new edge, so the breaker stays open.
    assert!(call(&mut b, &[0.0], &[0.0], 10.0, &mut out));
    assert!(call(&mut b, &[0.0], &[0.0], 0.0, &mut out));
    assert!(!call(&mut b, &[0.0], &[0.0], 10.0, &mut out));
}

#[test]
fn nan_never_trips() {
    let mut b = Breaker::default();
    let mut out = outputs();
    assert!(!call(&mut b, &[f32::NAN, -f32::NAN], &[f32::NAN], 0.0, &mut out));
    let left: Vec<u32> = out.left.as_slice().unwrap().iter().map(|x| x.bits).collect();
    assert_eq!(left, vec![f32::NAN.to_bits(), (-f32::NAN).to_bits()]);
    assert!(call(&mut b, &[f32::INFINITY], &[0.0], 0.0, &mut out));
}

#[test]
fn disconnected_inputs_propagate() {
    let mut b = Breaker::default();
    let mut out = BreakerOutputs {
        tripped_gate: Port::default(),
        left: Port::disconnected(),
        right: Port::default(),
    };
    let inputs = BreakerInputs {
        left: Port::disconnected(),
        right: Port::disconnected(),
        reset_trigger: Port::disconnected(),
    };
    let mut tripped = true;
    b.process(&inputs, &mut out, &mut tripped);
    assert!(!tripped);
    assert!(out.left.as_slice().is_none());
    assert_eq!(floats(&out.right), Some(vec![0.0]));
    assert_eq!(floats(&out.tripped_gate), Some(vec![0.0]));
}
