use raytracer::color::CHANNEL_MAX;
use raytracer::intersect::{EPSILON, NEG_EPSILON};
use raytracer::objects::BIAS;
use raytracer::scalar::{Scalar, HIDDEN_BIT, INFINITY_BITS, ONE, SIGN_BIT, ZERO};
use raytracer::shading::{LIT, SHADOWED};

fn s(v: f64) -> Scalar {
    Scalar::from_bits(v.to_bits())
}

fn samples() -> Vec<f64> {
    vec![
        0.0,
        -0.0,
        0.4,
        0.5,
        0.999999,
        1.0,
        -1.0,
        1.5,
        2.0,
        0.0000001,
        -0.0000001,
        0.01,
        0.22,
        0.33,
        127.9,
        254.999,
        255.0,
        255.5,
        256.0,
        1.0e300,
        -1.0e300,
        f64::MAX,
        f64::MIN,
        f64::MIN_POSITIVE,
        5.0e-324,
        -5.0e-324,
        f64::INFINITY,
        f64::NEG_INFINITY,
        f64::NAN,
        -f64::NAN,
    ]
}

#[test]
fn less_than_agrees_with_the_hardware() {
    for a in samples() {
        for b in samples() {
            assert_eq!(s(a).less_than(&s(b)), a < b, "{} < {}", a, b);
        }
    }
}

#[test]
fn greater_than_agrees_with_the_hardware() {
    for a in samples() {
        for b in samples() {
            assert_eq!(s(a).greater_than(&s(b)), a > b, "{} > {}", a, b);
        }
    }
}

#[test]
fn both_zeros_compare_equal() {
    assert!(!s(-0.0).less_than(&s(0.0)));
    assert!(!s(0.0).less_than(&s(-0.0)));
    assert!(!s(0.0).greater_than(&s(-0.0)));
}

#[test]
fn nothing_compares_with_what_is_not_a_number() {
    for a in samples() {
        assert!(!s(a).less_than(&s(f64::NAN)));
        assert!(!s(f64::NAN).less_than(&s(a)));
        assert!(!s(a).greater_than(&s(f64::NAN)));
        assert!(!s(f64::NAN).greater_than(&s(a)));
    }
}

#[test]
fn from_bits_keeps_the_pattern() {
    assert_eq!(Scalar::from_bits(0x4008_0000_0000_0000).bits, 3.0_f64.to_bits());
    assert_eq!(Scalar::from_bits(0).bits, 0);
    assert_eq!(Scalar::from_bits(u64::MAX).bits, u64::MAX);
}

#[test]
fn to_byte_agrees_with_the_saturating_cast() {
    for a in samples() {
        assert_eq!(s(a).to_byte(), a as u8, "{} as u8", a);
    }
}

#[test]
fn to_byte_cuts_towards_zero() {
    assert_eq!(s(0.999999).to_byte(), 0);
    assert_eq!(s(1.0).to_byte(), 1);
    assert_eq!(s(1.999).to_byte(), 1);
    assert_eq!(s(127.9).to_byte(), 127);
    assert_eq!(s(254.999).to_byte(), 254);
    assert_eq!(s(255.0).to_byte(), 255);
}

#[test]
fn to_byte_saturates() {
    assert_eq!(s(255.5).to_byte(), 255);
    assert_eq!(s(256.0).to_byte(), 255);
    assert_eq!(s(1.0e300).to_byte(), 255);
    assert_eq!(s(f64::INFINITY).to_byte(), 255);
    assert_eq!(s(-0.5).to_byte(), 0);
    assert_eq!(s(-3.0).to_byte(), 0);
    assert_eq!(s(f64::NEG_INFINITY).to_byte(), 0);
    assert_eq!(s(f64::NAN).to_byte(), 0);
}

#[test]
fn to_byte_of_every_whole_byte() {
    for n in 0..=255u8 {
        assert_eq!(s(n as f64).to_byte(), n);
        assert_eq!(s(n as f64 + 0.75).to_byte(), n);
    }
}

fn capped_reference(v: f64, floor: f64, max: f64) -> f64 {
    if v < floor {
        return floor;
    }
    if v > max {
        return max;
    }
    v
}

#[test]
fn capped_agrees_with_the_comparisons() {
    for a in samples() {
        let got = s(a).capped(&s(0.0), &s(255.0));
        let want = capped_reference(a, 0.0, 255.0);
        assert_eq!(got.bits, want.to_bits(), "capped {}", a);
    }
}

#[test]
fn capped_holds_a_number_between_the_bounds() {
    assert_eq!(s(-4.0).capped(&s(0.0), &s(255.0)).bits, 0.0_f64.to_bits());
    assert_eq!(s(300.0).capped(&s(0.0), &s(255.0)).bits, 255.0_f64.to_bits());
    assert_eq!(s(12.5).capped(&s(0.0), &s(255.0)).bits, 12.5_f64.to_bits());
    assert_eq!(s(2.0).capped(&s(3.0), &s(4.0)).bits, 3.0_f64.to_bits());
}

#[test]
fn capped_leaves_what_is_not_a_number() {
    let nan = s(f64::NAN);
    assert_eq!(nan.capped(&s(0.0), &s(255.0)).bits, nan.bits);
}

#[test]
fn the_constants_are_the_patterns_of_their_numbers() {
    assert_eq!(ZERO, 0.0_f64.to_bits());
    assert_eq!(ONE, 1.0_f64.to_bits());
    assert_eq!(EPSILON, 0.0000001_f64.to_bits());
    assert_eq!(NEG_EPSILON, (-0.0000001_f64).to_bits());
    assert_eq!(BIAS, 0.01_f64.to_bits());
    assert_eq!(LIT, 1.0_f64.to_bits());
    assert_eq!(SHADOWED, 0.22_f64.to_bits());
    assert_eq!(CHANNEL_MAX, 255.0_f64.to_bits());
    assert_eq!(INFINITY_BITS, f64::INFINITY.to_bits());
    assert_eq!(SIGN_BIT, (-0.0_f64).to_bits());
    assert_eq!(HIDDEN_BIT, 1u64 << 52);
}

/// A fixed row of bit patterns that covers every exponent and both signs.
fn patterns() -> Vec<u64> {
    let mut state: u64 = 0x9E37_79B9_7F4A_7C15;
    let mut out = Vec::new();
    for _ in 0..20000 {
        state = state.wrapping_mul(6364136223846793005).wrapping_add(1442695040888963407);
        out.push(state);
        // The same fraction near the exponents where a byte is decided.
        let fraction = state & 0x000F_FFFF_FFFF_FFFF;
        let exponent = 1015 + (state >> 60);
        out.push((exponent << 52) | fraction);
        out.push((1u64 << 63) | (exponent << 52) | fraction);
    }
    out
}

#[test]
fn the_order_agrees_with_the_hardware_on_many_patterns() {
    let all = patterns();
    for pair in all.windows(2) {
        let (a, b) = (pair[0], pair[1]);
        let (x, y) = (f64::from_bits(a), f64::from_bits(b));
        assert_eq!(Scalar::from_bits(a).less_than(&Scalar::from_bits(b)), x < y, "{} < {}", x, y);
        assert_eq!(Scalar::from_bits(a).greater_than(&Scalar::from_bits(b)), x > y, "{} > {}", x, y);
    }
}

#[test]
fn to_byte_agrees_with_the_cast_on_many_patterns() {
    for a in patterns() {
        let x = f64::from_bits(a);
        assert_eq!(Scalar::from_bits(a).to_byte(), x as u8, "{} as u8", x);
    }
}
