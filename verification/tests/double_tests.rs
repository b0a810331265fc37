use ray_trace::double::{Double, INFINITY_BITS, ONE_BITS, SIGN_BIT};

fn d(x: f64) -> Double {
    Double::from_bits(x.to_bits())
}

fn samples() -> Vec<f64> {
    vec![
        0.0,
        -0.0,
        1.0,
        -1.0,
        0.5,
        -0.5,
        0.001,
        0.33,
        0.66,
        0.9,
        1.5,
        2.0,
        255.99,
        1e-300,
        -1e-300,
        1e300,
        -1e300,
        f64::MIN_POSITIVE,
        -f64::MIN_POSITIVE,
        f64::MIN_POSITIVE / 4.0,
        f64::from_bits(1),
        -f64::from_bits(1),
        f64::MAX,
        f64::MIN,
        f64::EPSILON,
        1.0 + f64::EPSILON,
        1.0 - f64::EPSILON / 2.0,
        f64::INFINITY,
        f64::NEG_INFINITY,
        f64::NAN,
        -f64::NAN,
        f64::from_bits(0x7ff0_0000_0000_0001),
        f64::from_bits(0xfff8_0000_0000_0000),
    ]
}

#[test]
fn lt_agrees_with_the_order_of_doubles() {
    for a in samples() {
        for b in samples() {
            assert_eq!(d(a).lt(d(b)), a < b, "{:?} < {:?}", a, b);
        }
    }
}

#[test]
fn gt_agrees_with_the_order_of_doubles() {
    for a in samples() {
        for b in samples() {
            assert_eq!(d(a).gt(d(b)), a > b, "{:?} > {:?}", a, b);
        }
    }
}

#[test]
fn is_nan_agrees_with_doubles() {
    for a in samples() {
        assert_eq!(d(a).is_nan(), a.is_nan(), "{:?}", a);
    }
}

#[test]
fn nan_is_below_nothing_and_nothing_is_below_nan() {
    let nan = d(f64::NAN);
    for a in samples() {
        assert!(!nan.lt(d(a)));
        assert!(!d(a).lt(nan));
        assert!(!nan.gt(d(a)));
        assert!(!d(a).gt(nan));
    }
}

#[test]
fn the_two_zeros_are_neither_below_the_other() {
    assert!(!d(0.0).lt(d(-0.0)));
    assert!(!d(-0.0).lt(d(0.0)));
    assert!(d(-0.0) != d(0.0));
}

#[test]
fn truncate_agrees_with_the_cast_of_doubles() {
    let mut values = samples();
    values.extend_from_slice(&[
        0.999_999_999_999,
        254.999,
        255.0,
        255.5,
        256.0,
        127.995,
        65535.9,
        2147483648.0,
        4294967294.5,
        4294967295.0,
        4294967295.5,
        4294967296.0,
        4294967297.0,
        1e10,
        1e20,
        -3.7,
        3.7,
        9007199254740993.0,
    ]);
    for a in values {
        assert_eq!(d(a).truncate(), a as u32, "{:?}", a);
    }
}

#[test]
fn truncate_cuts_towards_zero() {
    assert_eq!(d(0.0).truncate(), 0);
    assert_eq!(d(0.99).truncate(), 0);
    assert_eq!(d(1.0).truncate(), 1);
    assert_eq!(d(1.99).truncate(), 1);
    assert_eq!(d(255.99).truncate(), 255);
    assert_eq!(d(-5.0).truncate(), 0);
    assert_eq!(d(f64::NAN).truncate(), 0);
    assert_eq!(d(f64::INFINITY).truncate(), u32::MAX);
    assert_eq!(d(1e12).truncate(), u32::MAX);
}

#[test]
fn truncate_agrees_on_a_sweep_of_exponents() {
    let mut x = 1.0e-5_f64;
    while x < 1.0e12 {
        assert_eq!(d(x).truncate(), x as u32, "{:?}", x);
        assert_eq!(d(-x).truncate(), (-x) as u32, "{:?}", -x);
        x *= 1.37;
    }
}

#[test]
fn constants_are_the_patterns_of_their_doubles() {
    assert_eq!(Double::zero().to_bits(), 0.0_f64.to_bits());
    assert_eq!(Double::one().to_bits(), 1.0_f64.to_bits());
    assert_eq!(Double::infinity().to_bits(), f64::INFINITY.to_bits());
    assert_eq!(ONE_BITS, 1.0_f64.to_bits());
    assert_eq!(INFINITY_BITS, f64::INFINITY.to_bits());
    assert_eq!(SIGN_BIT, (-0.0_f64).to_bits());
}

#[test]
fn bits_go_in_and_out_unchanged() {
    for a in samples() {
        assert_eq!(d(a).to_bits(), a.to_bits());
        assert_eq!(Double::from_bits(a.to_bits()), d(a));
    }
}

#[test]
fn infinity_is_above_every_finite_double() {
    for a in samples() {
        if a.is_finite() {
            assert!(d(a).lt(Double::infinity()));
        }
    }
    assert!(!Double::infinity().lt(Double::infinity()));
}

#[test]
fn the_order_is_transitive_on_the_samples() {
    let all = samples();
    for a in &all {
        for b in &all {
            for c in &all {
                if d(*a).lt(d(*b)) && d(*b).lt(d(*c)) {
                    assert!(d(*a).lt(d(*c)));
                }
            }
        }
    }
}

#[test]
fn neg_agrees_with_multiplying_by_minus_one() {
    for a in samples() {
        if a.is_nan() {
            assert!(d(a).neg().is_nan());
        } else {
            assert_eq!(d(a).neg().to_bits(), (a * -1.0).to_bits(), "{:?}", a);
            assert_eq!(d(a).neg().to_bits(), (-a).to_bits(), "{:?}", a);
        }
    }
}

#[test]
fn neg_twice_is_the_number_itself() {
    for a in samples() {
        assert_eq!(d(a).neg().neg(), d(a));
    }
}
