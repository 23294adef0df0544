use pathtracer::scalar::{Scalar, EPSILON_BITS, FRACTION_SPAN, INFINITY_BITS, ONE_BITS, SIGN_BIT};

fn s(x: f32) -> Scalar {
    Scalar::from_bits(x.to_bits())
}

fn samples() -> Vec<f32> {
    vec![
        0.0,
        -0.0,
        1.0,
        -1.0,
        0.001,
        0.5,
        -0.5,
        2.0,
        1e-4,
        -1e-4,
        1e-45,
        -1e-45,
        1.1754942e-38,
        1.1754944e-38,
        3.4028235e38,
        -3.4028235e38,
        f32::INFINITY,
        f32::NEG_INFINITY,
        f32::NAN,
        -f32::NAN,
        f32::from_bits(0x7f80_0001),
        f32::from_bits(0xffff_ffff),
    ]
}

#[test]
fn constants_are_the_patterns_they_name() {
    assert_eq!(ONE_BITS, 1.0f32.to_bits());
    assert_eq!(EPSILON_BITS, 1e-4f32.to_bits());
    assert_eq!(INFINITY_BITS, f32::INFINITY.to_bits());
    assert_eq!(SIGN_BIT, (-0.0f32).to_bits());
    assert_eq!(FRACTION_SPAN, 1 << 23);
}

#[test]
fn from_bits_keeps_the_pattern() {
    assert_eq!(Scalar::from_bits(0x3f80_0000).bits, 0x3f80_0000);
    assert_eq!(s(-2.5).bits, 0xc020_0000);
}

#[test]
fn is_nan_agrees_with_the_hardware() {
    for x in samples() {
        assert_eq!(s(x).is_nan(), x.is_nan(), "{}", x);
    }
}

#[test]
fn lt_agrees_with_the_hardware() {
    for a in samples() {
        for b in samples() {
            assert_eq!(s(a).lt(s(b)), a < b, "{} < {}", a, b);
        }
    }
}

#[test]
fn gt_agrees_with_the_hardware() {
    for a in samples() {
        for b in samples() {
            assert_eq!(s(a).gt(s(b)), a > b, "{} > {}", a, b);
        }
    }
}

#[test]
fn lt_agrees_with_the_hardware_across_the_patterns() {
    let mut a: u32 = 0;
    let mut b: u32 = 0x9e37_79b9;
    for _ in 0..200_000 {
        let fa = f32::from_bits(a);
        let fb = f32::from_bits(b);
        assert_eq!(Scalar::from_bits(a).lt(Scalar::from_bits(b)), fa < fb, "{:#x} {:#x}", a, b);
        a = a.wrapping_mul(1_664_525).wrapping_add(1_013_904_223);
        b = b.wrapping_mul(22_695_477).wrapping_add(1);
    }
}

#[test]
fn zero_is_not_below_negative_zero() {
    assert!(!s(-0.0).lt(s(0.0)));
    assert!(!s(0.0).lt(s(-0.0)));
}

#[test]
fn nothing_is_below_or_above_what_is_no_number() {
    assert!(!s(f32::NAN).lt(s(1.0)));
    assert!(!s(1.0).lt(s(f32::NAN)));
    assert!(!s(f32::NAN).gt(s(1.0)));
    assert!(!s(f32::NAN).lt(s(f32::NAN)));
}

#[test]
fn abs_clears_the_sign() {
    for x in samples() {
        assert_eq!(s(x).abs().bits, x.abs().to_bits(), "{}", x);
    }
    assert_eq!(s(-3.0).abs().bits, 3.0f32.to_bits());
}

#[test]
fn neg_turns_the_sign() {
    for x in samples() {
        assert_eq!(s(x).neg().bits, (-x).to_bits(), "{}", x);
    }
    assert_eq!(s(3.0).neg().bits, (-3.0f32).to_bits());
    assert_eq!(s(0.0).neg().bits, 0x8000_0000);
}
