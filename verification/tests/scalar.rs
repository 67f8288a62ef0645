use rust_mesh::scalar::{clamp_unit, negate, within_unit, INFINITY, MINUS_ONE, ONE, SIGN, ZERO};

fn sample_values() -> Vec<f32> {
    vec![
        0.0,
        -0.0,
        1.0,
        -1.0,
        0.5,
        -0.5,
        0.99999994,
        1.0000001,
        1.0000002,
        -1.0000001,
        2.0,
        -2.0,
        1.0e-40,
        -1.0e-40,
        f32::MIN_POSITIVE,
        f32::MAX,
        f32::MIN,
        f32::INFINITY,
        f32::NEG_INFINITY,
        f32::EPSILON,
        3.4e38,
        -7.25,
    ]
}

#[test]
fn constants_are_the_bit_patterns_they_name() {
    assert_eq!(ZERO, 0.0f32.to_bits());
    assert_eq!(ONE, 1.0f32.to_bits());
    assert_eq!(MINUS_ONE, (-1.0f32).to_bits());
    assert_eq!(SIGN, (-0.0f32).to_bits());
    assert_eq!(INFINITY, f32::INFINITY.to_bits());
}

#[test]
fn negate_is_the_negation_of_the_number() {
    for x in sample_values() {
        assert_eq!(negate(x.to_bits()), (-x).to_bits(), "value {}", x);
    }
}

#[test]
fn negate_flips_the_sign_of_a_nan_and_keeps_its_payload() {
    let nan = f32::NAN.to_bits();
    assert_eq!(negate(nan), nan ^ 0x8000_0000);
    assert!(f32::from_bits(negate(nan)).is_nan());
}

#[test]
fn negate_twice_is_the_identity() {
    for x in sample_values() {
        assert_eq!(negate(negate(x.to_bits())), x.to_bits());
    }
}

#[test]
fn clamp_unit_agrees_with_clamping_the_number() {
    for x in sample_values() {
        assert_eq!(clamp_unit(x.to_bits()), x.clamp(-1.0, 1.0).to_bits(), "value {}", x);
    }
}

#[test]
fn clamp_unit_agrees_with_clamping_on_a_sweep_of_bit_patterns() {
    let mut bits: u32 = 0;
    loop {
        let x = f32::from_bits(bits);
        if !x.is_nan() {
            assert_eq!(clamp_unit(bits), x.clamp(-1.0, 1.0).to_bits(), "bits {:#x}", bits);
        }
        match bits.checked_add(0x0001_0003) {
            Some(next) => bits = next,
            None => break,
        }
    }
}

#[test]
fn clamp_unit_keeps_the_bounds_themselves() {
    assert_eq!(clamp_unit(ONE), ONE);
    assert_eq!(clamp_unit(MINUS_ONE), MINUS_ONE);
    assert_eq!(clamp_unit(ONE + 1), ONE);
    assert_eq!(clamp_unit(ONE - 1), ONE - 1);
    assert_eq!(clamp_unit(MINUS_ONE + 1), MINUS_ONE);
    assert_eq!(clamp_unit(MINUS_ONE - 1), MINUS_ONE - 1);
}

#[test]
fn clamp_unit_keeps_signed_zero() {
    assert_eq!(clamp_unit(ZERO), ZERO);
    assert_eq!(clamp_unit(SIGN), SIGN);
}

#[test]
fn clamp_unit_brings_infinities_to_the_bounds() {
    assert_eq!(clamp_unit(f32::INFINITY.to_bits()), ONE);
    assert_eq!(clamp_unit(f32::NEG_INFINITY.to_bits()), MINUS_ONE);
}

#[test]
fn clamp_unit_leaves_a_nan_as_it_is() {
    let nan = f32::NAN.to_bits();
    assert_eq!(clamp_unit(nan), nan);
    assert_eq!(clamp_unit(nan | SIGN), nan | SIGN);
    assert_eq!(clamp_unit(0x7F80_0001), 0x7F80_0001);
    assert_eq!(clamp_unit(0xFFFF_FFFF), 0xFFFF_FFFF);
}

#[test]
fn overshooting_dot_product_gives_angle_zero() {
    let dot: f32 = 1.0000002;
    assert!(dot > 1.0);
    assert!(dot.acos().is_nan());
    let clamped = f32::from_bits(clamp_unit(dot.to_bits()));
    assert_eq!(clamped, 1.0);
    assert_eq!(clamped.acos(), 0.0);
}

#[test]
fn undershooting_dot_product_gives_a_half_turn() {
    let dot: f32 = -1.0000002;
    let clamped = f32::from_bits(clamp_unit(dot.to_bits()));
    assert_eq!(clamped, -1.0);
    assert_eq!(clamped.acos(), std::f32::consts::PI);
}

#[test]
fn within_unit_agrees_with_comparing_the_number() {
    for x in sample_values() {
        assert_eq!(within_unit(x.to_bits()), x <= 1.0, "value {}", x);
    }
}

#[test]
fn within_unit_agrees_with_comparing_on_a_sweep_of_bit_patterns() {
    let mut bits: u32 = 0;
    loop {
        assert_eq!(within_unit(bits), f32::from_bits(bits) <= 1.0, "bits {:#x}", bits);
        match bits.checked_add(0x0001_0003) {
            Some(next) => bits = next,
            None => break,
        }
    }
}

#[test]
fn within_unit_counts_the_rim_in() {
    assert!(within_unit(ONE));
    assert!(within_unit(ONE - 1));
    assert!(!within_unit(ONE + 1));
    assert!(within_unit(MINUS_ONE));
    assert!(within_unit(MINUS_ONE + 1));
    assert!(within_unit(ZERO));
    assert!(within_unit(SIGN));
}

#[test]
fn within_unit_is_false_of_a_nan_and_of_infinity() {
    assert!(!within_unit(f32::NAN.to_bits()));
    assert!(!within_unit(f32::NAN.to_bits() | SIGN));
    assert!(!within_unit(INFINITY));
    assert!(within_unit(f32::NEG_INFINITY.to_bits()));
}
