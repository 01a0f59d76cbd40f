use peak_limiter::params::{
    clamp, clamp_ceiling_db, clamp_makeup_db, clamp_release_ms, flag_is_set, CEILING_DB_MAX,
    CEILING_DB_MIN, DEFAULT_CEILING_DB, DEFAULT_RELEASE_MS, MAKEUP_DB_MAX, MAKEUP_DB_MIN,
    RELEASE_MS_MAX, RELEASE_MS_MIN,
};

fn clamped(v: f32, min: f32, max: f32) -> f32 {
    f32::from_bits(clamp(v.to_bits(), min.to_bits(), max.to_bits()))
}

#[test]
fn bounds_and_defaults_are_what_they_say() {
    assert_eq!(CEILING_DB_MIN, (-60.0f32).to_bits());
    assert_eq!(CEILING_DB_MAX, 0.0f32.to_bits());
    assert_eq!(MAKEUP_DB_MIN, (-24.0f32).to_bits());
    assert_eq!(MAKEUP_DB_MAX, 24.0f32.to_bits());
    assert_eq!(RELEASE_MS_MIN, 0.1f32.to_bits());
    assert_eq!(RELEASE_MS_MAX, 5000.0f32.to_bits());
    assert_eq!(DEFAULT_CEILING_DB, (-0.3f32).to_bits());
    assert_eq!(DEFAULT_RELEASE_MS, 120.0f32.to_bits());
}

#[test]
fn clamp_gives_min_for_nan() {
    assert_eq!(clamped(f32::NAN, -60.0, 0.0), -60.0);
    assert_eq!(clamp(0x7f80_0001, 3, 9), 3);
    assert_eq!(clamp(0xffff_ffff, 3, 9), 3);
}

#[test]
fn clamp_gives_min_for_both_infinities() {
    assert_eq!(clamped(f32::INFINITY, -24.0, 24.0), -24.0);
    assert_eq!(clamped(f32::NEG_INFINITY, -24.0, 24.0), -24.0);
    assert_eq!(clamped(f32::INFINITY, 0.1, 5000.0), 0.1);
}

#[test]
fn clamp_keeps_what_is_in_range_bit_for_bit() {
    for &v in [-60.0f32, -59.999, -30.0, -0.3, -1.0e-40, -0.0, 0.0].iter() {
        assert_eq!(clamp(v.to_bits(), CEILING_DB_MIN, CEILING_DB_MAX), v.to_bits(), "{}", v);
    }
    for &v in [0.1f32, 0.2, 1.0, 120.0, 4999.9995, 5000.0].iter() {
        assert_eq!(clamp(v.to_bits(), RELEASE_MS_MIN, RELEASE_MS_MAX), v.to_bits(), "{}", v);
    }
}

#[test]
fn clamp_cuts_at_both_ends() {
    assert_eq!(clamped(-60.001, -60.0, 0.0), -60.0);
    assert_eq!(clamped(-1.0e30, -60.0, 0.0), -60.0);
    assert_eq!(clamped(1.0e-40, -60.0, 0.0), 0.0);
    assert_eq!(clamped(12.0, -60.0, 0.0), 0.0);
    assert_eq!(clamped(f32::MAX, -24.0, 24.0), 24.0);
    assert_eq!(clamped(f32::MIN, -24.0, 24.0), -24.0);
    assert_eq!(clamped(0.0999, 0.1, 5000.0), 0.1);
    assert_eq!(clamped(5000.5, 0.1, 5000.0), 5000.0);
}

#[test]
fn clamp_agrees_with_a_direct_computation() {
    let values = [
        f32::NAN,
        f32::INFINITY,
        f32::NEG_INFINITY,
        f32::MAX,
        f32::MIN,
        -61.0,
        -60.0,
        -24.5,
        -24.0,
        -0.0,
        0.0,
        1.0e-42,
        0.05,
        0.1,
        7.0,
        24.0,
        25.0,
        5000.0,
        5001.0,
    ];
    let ranges = [(-60.0f32, 0.0f32), (-24.0, 24.0), (0.1, 5000.0)];
    for &(min, max) in ranges.iter() {
        for &v in values.iter() {
            let expected = if !v.is_finite() {
                min
            } else if v < min {
                min
            } else if v > max {
                max
            } else {
                v
            };
            assert_eq!(
                clamp(v.to_bits(), min.to_bits(), max.to_bits()),
                expected.to_bits(),
                "{} into [{}, {}]",
                v,
                min,
                max
            );
        }
    }
}

#[test]
fn clamp_with_a_bound_that_is_not_a_number_keeps_finite_values() {
    let nan = f32::NAN.to_bits();
    assert_eq!(clamp(5.0f32.to_bits(), nan, nan), 5.0f32.to_bits());
    assert_eq!(clamp(f32::INFINITY.to_bits(), nan, 1.0f32.to_bits()), nan);
}

#[test]
fn ceiling_is_held_to_its_range() {
    assert_eq!(clamp_ceiling_db((-0.3f32).to_bits()), (-0.3f32).to_bits());
    assert_eq!(clamp_ceiling_db(3.0f32.to_bits()), 0.0f32.to_bits());
    assert_eq!(clamp_ceiling_db((-100.0f32).to_bits()), (-60.0f32).to_bits());
    assert_eq!(clamp_ceiling_db(f32::NAN.to_bits()), (-60.0f32).to_bits());
}

#[test]
fn makeup_is_held_to_its_range() {
    assert_eq!(clamp_makeup_db(6.0f32.to_bits()), 6.0f32.to_bits());
    assert_eq!(clamp_makeup_db(24.5f32.to_bits()), 24.0f32.to_bits());
    assert_eq!(clamp_makeup_db((-30.0f32).to_bits()), (-24.0f32).to_bits());
    assert_eq!(clamp_makeup_db(f32::INFINITY.to_bits()), (-24.0f32).to_bits());
}

#[test]
fn release_is_held_to_its_range() {
    assert_eq!(clamp_release_ms(120.0f32.to_bits()), 120.0f32.to_bits());
    assert_eq!(clamp_release_ms(0.0f32.to_bits()), 0.1f32.to_bits());
    assert_eq!(clamp_release_ms((-5.0f32).to_bits()), 0.1f32.to_bits());
    assert_eq!(clamp_release_ms(1.0e9f32.to_bits()), 5000.0f32.to_bits());
    assert_eq!(clamp_release_ms(f32::NEG_INFINITY.to_bits()), 0.1f32.to_bits());
}

#[test]
fn any_flag_but_zero_is_on() {
    assert!(!flag_is_set(0));
    assert!(flag_is_set(1));
    assert!(flag_is_set(2));
    assert!(flag_is_set(0x8000_0000));
    assert!(flag_is_set(u32::MAX));
}
