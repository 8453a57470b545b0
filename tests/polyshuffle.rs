use potential::polyshuffle::{PolyShuffle, PolyShuffleInput, PolyShuffleOutput};
use potential::rack::Port;
use potential::util::{GATE_HIGH_BITS, GATE_LOW_BITS};
use potential::voltage::Voltage;

fn v(x: f32) -> Voltage {
    Voltage { bits: x.to_bits() }
}

fn floats(port: &Port) -> Option<Vec<f32>> {
    port.as_slice().map(|s| s.iter().map(|x| f32::from_bits(x.bits)).collect())
}

fn sorted(mut values: Vec<f32>) -> Vec<f32> {
    values.sort_unstable_by(|a, b| a.partial_cmp(b).unwrap());
    values
}

#[test]
fn test_shuffle() {
    let mut p = PolyShuffle::new();
    let mut i1 = Port::default();
    let mut o1 = Port::default();
    let mut t_low = Port::default();
    let mut t_high = Port::default();
    let initial_voltages: Vec<Voltage> = vec![
        0.0, 0.5, 1.0, 1.5, 2.0, 2.5, 3.0, 3.5, 4.0, 4.5, 5.0, 5.5, 6.0, 6.5, 7.0, 7.5,
    ]
    .into_iter()
    .map(v)
    .collect();

    i1.set_voltages_from_slice(initial_voltages.as_slice());
    t_low.set_monophonic_voltage(Voltage { bits: GATE_LOW_BITS });
    t_high.set_monophonic_voltage(Voltage { bits: GATE_HIGH_BITS });

    // Test the initial state (channel permutation is unmodified).
    {
        let inputs = PolyShuffleInput { poly: i1, shuffle_trigger: t_low };
        let mut outputs = PolyShuffleOutput { shuffled_poly: o1 };
        p.process(&inputs, &mut outputs);
        o1 = outputs.shuffled_poly;
        assert_eq!(i1.as_slice(), o1.as_slice());
    }

    // Again, with the trigger input high this time.
    {
        let inputs = PolyShuffleInput { poly: i1, shuffle_trigger: t_high };
        let mut outputs = PolyShuffleOutput { shuffled_poly: o1 };
        p.process(&inputs, &mut outputs);
        o1 = outputs.shuffled_poly;

        // The output order should differ from before (unless we got extremely
        // unlucky with the permutation).
        assert_ne!(i1.as_slice(), o1.as_slice());

        // However, sorting the voltages gives back the input order without
        // any going missing.
        assert_eq!(floats(&i1).unwrap(), sorted(floats(&o1).unwrap()));
    }

    // Test the polyphony count changing. The shuffle trigger is low again.
    {
        let n: usize = 8;
        i1.set_polyphony_count(n);
        let inputs = PolyShuffleInput { poly: i1, shuffle_trigger: t_low };
        let mut outputs = PolyShuffleOutput { shuffled_poly: o1 };
        p.process(&inputs, &mut outputs);
        o1 = outputs.shuffled_poly;

        assert_eq!(i1.as_slice().unwrap().len(), o1.as_slice().unwrap().len());
        assert_ne!(i1.as_slice().unwrap(), o1.as_slice().unwrap());

        // This should also pass the re-sorting test.
        assert_eq!(floats(&i1).unwrap(), sorted(floats(&o1).unwrap()));
    }
}

fn ascending(n: usize) -> Port {
    let mut p = Port::default();
    let values: Vec<Voltage> = (0..n).map(|i| v(i as f32 * 0.25 - 1.0)).collect();
    p.set_voltages_from_slice(&values);
    p
}

fn trigger(x: f32) -> Port {
    let mut p = Port::default();
    p.set_monophonic_voltage(v(x));
    p
}

fn run(p: &mut PolyShuffle, poly: Port, trig: f32) -> Port {
    let inputs = PolyShuffleInput { poly, shuffle_trigger: trigger(trig) };
    let mut outputs = PolyShuffleOutput { shuffled_poly: Port::default() };
    p.process(&inputs, &mut outputs);
    outputs.shuffled_poly
}

#[test]
fn one_trigger_permutes_sixteen_channels() {
    let mut p = PolyShuffle::new();
    let input = ascending(16);
    let out = run(&mut p, input, 10.0);
    let expected = floats(&input).unwrap();
    let got = floats(&out).unwrap();
    assert_ne!(expected, got);
    assert_eq!(expected, sorted(got));
}

#[test]
fn every_width_is_a_bijection_without_reshuffle() {
    let mut p = PolyShuffle::with_seed(7);
    run(&mut p, ascending(16), 10.0);
    for n in [16usize, 1, 5, 16, 9, 2, 9, 13] {
        let input = ascending(n);
        let out = run(&mut p, input, 0.0);
        assert_eq!(out.get_polyphony_count(), Some(n));
        assert_eq!(floats(&input).unwrap(), sorted(floats(&out).unwrap()));
    }
}

#[test]
fn mapping_is_stable_until_the_next_trigger() {
    let mut p = PolyShuffle::new();
    let first = run(&mut p, ascending(12), 10.0);
    // A trigger held high is no new edge.
    let held = run(&mut p, ascending(12), 10.0);
    assert_eq!(floats(&first), floats(&held));
    run(&mut p, ascending(3), 0.0);
    let again = run(&mut p, ascending(12), 0.0);
    assert_eq!(floats(&first), floats(&again));
}

#[test]
fn repeated_triggers_keep_a_permutation() {
    let mut p = PolyShuffle::with_seed(12345);
    for round in 0..20 {
        let n = 1 + round % 16;
        let input = ascending(n);
        run(&mut p, input, 0.0);
        let out = run(&mut p, input, 10.0);
        assert_eq!(floats(&input).unwrap(), sorted(floats(&out).unwrap()));
    }
}

#[test]
fn disconnected_input_requests_no_channels() {
    let mut p = PolyShuffle::default();
    let out = run(&mut p, Port::disconnected(), 0.0);
    assert_eq!(floats(&out), Some(vec![0.0]));
    let inputs = PolyShuffleInput { poly: ascending(4), shuffle_trigger: Port::disconnected() };
    let mut outputs = PolyShuffleOutput { shuffled_poly: Port::disconnected() };
    p.process(&inputs, &mut outputs);
    assert!(outputs.shuffled_poly.as_slice().is_none());
}
