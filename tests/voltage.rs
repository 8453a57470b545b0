use potential::voltage::Voltage;

fn v(x: f32) -> Voltage {
    Voltage { bits: x.to_bits() }
}

#[test]
fn float_operations_match_f32() {
    let samples = [
        0.0f32, -0.0, 1.0, -1.0, 0.1, 12.0, -12.0, 11.999999, 1e-40, -1e-40, 3.4e38,
        f32::INFINITY, f32::NEG_INFINITY, f32::NAN, -f32::NAN,
    ];
    for &a in samples.iter() {
        assert_eq!(v(a).abs().bits, a.abs().to_bits());
        assert_eq!(v(a).is_nan(), a.is_nan());
        assert_eq!(v(a).is_finite(), a.is_finite());
        if a.is_nan() {
            assert!(f32::from_bits(v(a).signum().bits).is_nan());
        } else {
            assert_eq!(v(a).signum().bits, a.signum().to_bits());
        }
        for &b in samples.iter() {
            assert_eq!(v(a).ge(v(b)), a >= b, "{} >= {}", a, b);
            assert_eq!(v(a).le(v(b)), a <= b, "{} <= {}", a, b);
            assert_eq!(v(a).copysign(v(b)).bits, a.copysign(b).to_bits());
        }
    }
}
