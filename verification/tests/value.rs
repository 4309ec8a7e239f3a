use rpn::value::{
    abs_bits, ceil_cmp, floor_cmp, value_greater, value_is_zero, EPSILON, EULER, INFINITY, PI,
    SIGN, TAU,
};

fn samples() -> Vec<f64> {
    let mut values = vec![
        0.0,
        -0.0,
        1.0,
        -1.0,
        3.0,
        7.0,
        -2.5,
        0.1,
        -0.1,
        1e300,
        -1e300,
        1e-300,
        -1e-300,
        f64::MIN_POSITIVE,
        -f64::MIN_POSITIVE,
        f64::from_bits(1),
        -f64::from_bits(1),
        f64::MAX,
        f64::MIN,
        f64::EPSILON,
        f64::INFINITY,
        f64::NEG_INFINITY,
        f64::NAN,
        -f64::NAN,
        f64::from_bits(0x7ff0_0000_0000_0001),
        f64::from_bits(0xfff0_0000_0000_0001),
        f64::from_bits(0x7fff_ffff_ffff_ffff),
        f64::from_bits(0xffff_ffff_ffff_ffff),
    ];
    let mut seed: u64 = 0x9e37_79b9_7f4a_7c15;
    for _ in 0..300 {
        seed ^= seed << 13;
        seed ^= seed >> 7;
        seed ^= seed << 17;
        values.push(f64::from_bits(seed));
    }
    values
}

#[test]
fn constants_are_the_bits_of_the_numbers() {
    assert_eq!(EPSILON, f64::EPSILON.to_bits());
    assert_eq!(EULER, std::f64::consts::E.to_bits());
    assert_eq!(PI, std::f64::consts::PI.to_bits());
    assert_eq!(TAU, std::f64::consts::TAU.to_bits());
    assert_eq!(INFINITY, f64::INFINITY.to_bits());
    assert_eq!(SIGN, (-0.0f64).to_bits());
}

#[test]
fn abs_bits_clears_the_sign() {
    for x in samples() {
        assert_eq!(abs_bits(x.to_bits()), x.abs().to_bits());
    }
}

#[test]
fn zero_is_told_from_the_bits() {
    for x in samples() {
        assert_eq!(value_is_zero(x.to_bits()), x == 0f64, "{:?}", x);
    }
    assert!(value_is_zero(0));
    assert!(value_is_zero(SIGN));
    assert!(!value_is_zero(1));
}

#[test]
fn greater_agrees_with_the_numbers() {
    for a in samples() {
        for b in samples() {
            assert_eq!(value_greater(a.to_bits(), b.to_bits()), a > b, "{:?} > {:?}", a, b);
        }
    }
}

#[test]
fn floor_cmp_selects_as_the_numbers_compare() {
    for a in samples() {
        for b in samples() {
            let expected = if a > b { a } else { b };
            assert_eq!(floor_cmp(a.to_bits(), b.to_bits()), expected.to_bits());
        }
    }
    assert_eq!(floor_cmp(3f64.to_bits(), 7f64.to_bits()), 7f64.to_bits());
    assert_eq!(floor_cmp(7f64.to_bits(), 3f64.to_bits()), 7f64.to_bits());
}

#[test]
fn ceil_cmp_selects_as_the_numbers_compare() {
    for a in samples() {
        for b in samples() {
            let expected = if a < b { a } else { b };
            assert_eq!(ceil_cmp(a.to_bits(), b.to_bits()), expected.to_bits());
        }
    }
    assert_eq!(ceil_cmp(3f64.to_bits(), 7f64.to_bits()), 3f64.to_bits());
    assert_eq!(ceil_cmp(7f64.to_bits(), 3f64.to_bits()), 3f64.to_bits());
}
