use phosphor::binary32::{Binary32, INFINITY_BITS, ONE_BITS, SIGN_BIT, ZERO_BITS};

fn b(v: f32) -> Binary32 {
    Binary32::from_bits(v.to_bits())
}

fn probes() -> Vec<f32> {
    vec![
        0.0,
        -0.0,
        1.0,
        -1.0,
        1e-4,
        1e-6,
        31.8e-9,
        0.00288,
        f32::MIN_POSITIVE,
        -f32::MIN_POSITIVE,
        f32::from_bits(1),
        f32::from_bits(0x8000_0001),
        f32::MAX,
        f32::MIN,
        f32::INFINITY,
        f32::NEG_INFINITY,
        f32::NAN,
        f32::from_bits(0xffc0_0000),
        f32::from_bits(0x7f80_0001),
        5000.0,
        0.5,
        -0.5,
    ]
}

#[test]
fn comparisons_agree_with_the_hardware() {
    for &x in &probes() {
        for &y in &probes() {
            assert_eq!(b(x).lt(b(y)), x < y, "{x} < {y}");
            assert_eq!(b(x).le(b(y)), x <= y, "{x} <= {y}");
            assert_eq!(b(x).gt(b(y)), x > y, "{x} > {y}");
            assert_eq!(b(x).ge(b(y)), x >= y, "{x} >= {y}");
        }
    }
}

#[test]
fn classification_agrees_with_the_hardware() {
    for &x in &probes() {
        assert_eq!(b(x).check_nan(), x.is_nan(), "{x}");
        assert_eq!(b(x).is_zero(), x == 0.0, "{x}");
    }
}

#[test]
fn both_zeros_are_zero_and_equal_in_order() {
    assert!(b(0.0).is_zero());
    assert!(b(-0.0).is_zero());
    assert!(b(0.0).le(b(-0.0)));
    assert!(b(-0.0).le(b(0.0)));
    assert!(!b(0.0).lt(b(-0.0)));
    assert_ne!(b(0.0), b(-0.0));
}

#[test]
fn nan_is_unordered() {
    let nan = b(f32::NAN);
    assert!(!nan.lt(nan));
    assert!(!nan.le(nan));
    assert!(!nan.ge(b(1.0)));
    assert!(!b(1.0).gt(nan));
    assert_eq!(nan, nan);
}

#[test]
fn constants_encode_what_they_say() {
    assert_eq!(ZERO_BITS, 0.0f32.to_bits());
    assert_eq!(ONE_BITS, 1.0f32.to_bits());
    assert_eq!(INFINITY_BITS, f32::INFINITY.to_bits());
    assert_eq!(SIGN_BIT, (-0.0f32).to_bits());
    assert_eq!(Binary32::zero().to_bits(), 0.0f32.to_bits());
    assert_eq!(Binary32::one().to_bits(), 1.0f32.to_bits());
    assert_eq!(Binary32::default().to_bits(), 0);
}

#[test]
fn bits_round_trip() {
    for &x in &probes() {
        assert_eq!(b(x).to_bits(), x.to_bits());
    }
}
