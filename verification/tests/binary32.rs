use peak_limiter::binary32::{abs, is_finite, is_nan, less_than, peak, INFINITY, ONE, SIGN_BIT};

const PATTERNS: [u32; 24] = [
    0x0000_0000, // 0
    0x8000_0000, // -0
    0x0000_0001, // smallest subnormal
    0x8000_0001,
    0x007f_ffff, // largest subnormal
    0x807f_ffff,
    0x0080_0000, // smallest normal
    0x8080_0000,
    0x3dcc_cccd, // 0.1
    0x3f7f_ffff, // just under 1
    0x3f80_0000, // 1
    0x3f80_0001, // just over 1
    0xbf80_0000, // -1
    0x4000_0000, // 2
    0xc000_0000, // -2
    0x7f7f_ffff, // largest finite
    0xff7f_ffff,
    0x7f80_0000, // infinity
    0xff80_0000, // -infinity
    0x7f80_0001, // signalling NaN
    0x7fc0_0000, // quiet NaN
    0xffc0_0000, // quiet NaN, sign set
    0xffff_ffff, // NaN, all bits set
    0x4049_0fdb, // pi
];

#[test]
fn named_patterns_are_what_they_say() {
    assert_eq!(ONE, 1.0f32.to_bits());
    assert_eq!(INFINITY, f32::INFINITY.to_bits());
    assert_eq!(SIGN_BIT, (-0.0f32).to_bits());
}

#[test]
fn classification_agrees_with_the_hardware() {
    for &p in PATTERNS.iter() {
        let x = f32::from_bits(p);
        assert_eq!(is_nan(p), x.is_nan(), "is_nan of {:#010x}", p);
        assert_eq!(is_finite(p), x.is_finite(), "is_finite of {:#010x}", p);
    }
}

#[test]
fn abs_clears_the_sign_only() {
    for &p in PATTERNS.iter() {
        assert_eq!(abs(p), p & 0x7fff_ffff);
        if !f32::from_bits(p).is_nan() {
            assert_eq!(abs(p), f32::from_bits(p).abs().to_bits());
        }
    }
    assert_eq!(abs((-2.5f32).to_bits()), 2.5f32.to_bits());
}

#[test]
fn less_than_agrees_with_the_hardware() {
    for &a in PATTERNS.iter() {
        for &b in PATTERNS.iter() {
            let expected = f32::from_bits(a) < f32::from_bits(b);
            assert_eq!(less_than(a, b), expected, "{:#010x} < {:#010x}", a, b);
        }
    }
}

#[test]
fn less_than_treats_the_zeros_as_equal() {
    assert!(!less_than(0x8000_0000, 0x0000_0000));
    assert!(!less_than(0x0000_0000, 0x8000_0000));
    assert!(less_than(0x8000_0001, 0x0000_0000));
    assert!(less_than(0x8000_0000, 0x0000_0001));
}

#[test]
fn less_than_is_false_beside_a_nan() {
    let nan = f32::NAN.to_bits();
    assert!(!less_than(nan, ONE));
    assert!(!less_than(ONE, nan));
    assert!(!less_than(nan, nan));
}

#[test]
fn less_than_orders_a_sweep_of_numbers() {
    let mut values: Vec<f32> = Vec::new();
    let mut x = -1.0e30f32;
    while x < -1.0e-30 {
        values.push(x);
        x /= 7.3;
    }
    values.push(0.0);
    let mut y = 1.0e-30f32;
    while y < 1.0e30 {
        values.push(y);
        y *= 5.1;
    }
    for &a in values.iter() {
        for &b in values.iter() {
            assert_eq!(less_than(a.to_bits(), b.to_bits()), a < b, "{} < {}", a, b);
        }
    }
}

#[test]
fn peak_is_the_larger_magnitude() {
    assert_eq!(peak(0.25f32.to_bits(), (-0.75f32).to_bits()), 0.75f32.to_bits());
    assert_eq!(peak((-2.0f32).to_bits(), 0.5f32.to_bits()), 2.0f32.to_bits());
    assert_eq!(peak(0.5f32.to_bits(), 0.5f32.to_bits()), 0.5f32.to_bits());
    assert_eq!(peak((-0.0f32).to_bits(), 0.0f32.to_bits()), 0.0f32.to_bits());
    assert_eq!(peak(f32::NEG_INFINITY.to_bits(), 3.0f32.to_bits()), f32::INFINITY.to_bits());
}

#[test]
fn peak_passes_over_what_is_not_a_number() {
    let nan = f32::NAN.to_bits();
    assert_eq!(peak(nan, (-0.5f32).to_bits()), 0.5f32.to_bits());
    assert_eq!(peak(0.5f32.to_bits(), nan), 0.5f32.to_bits());
    assert!(is_nan(peak(nan, nan)));
}

#[test]
fn peak_agrees_with_the_hardware() {
    for &a in PATTERNS.iter() {
        for &b in PATTERNS.iter() {
            let expected = f32::from_bits(a).abs().max(f32::from_bits(b).abs());
            let got = peak(a, b);
            if expected.is_nan() {
                assert!(is_nan(got));
            } else {
                assert_eq!(got, expected.to_bits(), "peak of {:#010x}, {:#010x}", a, b);
            }
        }
    }
}
