use peak_limiter::arithmetic::Operation;
use peak_limiter::limiter::{limiter_new, limiter_set_params, Limiter};

fn float_unit(op: Operation) -> u32 {
    let f = f32::from_bits;
    let r = match op {
        Operation::Multiply(a, b) => f(a) * f(b),
        Operation::Divide(a, b) => f(a) / f(b),
        Operation::Add(a, b) => f(a) + f(b),
        Operation::Subtract(a, b) => f(a) - f(b),
        Operation::Power(a, b) => f(a).powf(f(b)),
        Operation::Exponential(a) => f(a).exp(),
    };
    r.to_bits()
}

fn fresh(sample_rate_hz: f32) -> Limiter {
    limiter_new(sample_rate_hz.to_bits(), &float_unit)
}

fn set(l: &mut Limiter, ceiling_db: f32, release_ms: f32, makeup_db: f32, bypass: u32, link: u32) {
    limiter_set_params(
        l,
        ceiling_db.to_bits(),
        release_ms.to_bits(),
        makeup_db.to_bits(),
        bypass,
        link,
        &float_unit,
    );
}

fn ceiling(l: &Limiter) -> f32 {
    f32::from_bits(l.settings().ceiling_lin)
}

fn makeup(l: &Limiter) -> f32 {
    f32::from_bits(l.settings().makeup_lin)
}

fn release(l: &Limiter) -> f32 {
    f32::from_bits(l.settings().release_coeff)
}

#[test]
fn a_new_limiter_has_the_defaults() {
    let l = fresh(48000.0);
    assert!((ceiling(&l) - 0.96605).abs() < 1.0e-5);
    assert_eq!(ceiling(&l).to_bits(), 10.0f32.powf(-0.3 / 20.0).to_bits());
    assert_eq!(makeup(&l), 1.0);
    assert!((release(&l) - 0.9998264).abs() < 1.0e-6);
    assert!(!l.bypass());
    assert!(l.stereo_link());
    assert_eq!(l.gain_linked(), 1.0f32.to_bits());
    assert_eq!(l.gain_ch0(), 1.0f32.to_bits());
    assert_eq!(l.gain_ch1(), 1.0f32.to_bits());
    assert_eq!(l.sample_rate_hz(), 48000.0f32.to_bits());
}

#[test]
fn a_new_limiter_keeps_whatever_sample_rate_it_is_given() {
    let l = fresh(f32::NAN);
    assert_eq!(l.sample_rate_hz(), f32::NAN.to_bits());
    assert_eq!(release(&l).to_bits(), (-1.0f32).exp().to_bits());
}

#[test]
fn set_params_converts_what_is_in_range() {
    let mut l = fresh(44100.0);
    set(&mut l, -6.0, 250.0, 3.0, 0, 1);
    assert_eq!(ceiling(&l).to_bits(), 10.0f32.powf(-6.0 / 20.0).to_bits());
    assert!((ceiling(&l) - 0.5011872).abs() < 1.0e-6);
    assert_eq!(makeup(&l).to_bits(), 10.0f32.powf(3.0 / 20.0).to_bits());
    assert!((makeup(&l) - 1.4125376).abs() < 1.0e-6);
    let n = (250.0f32 / 1000.0 * 44100.0).max(1.0);
    assert_eq!(release(&l).to_bits(), (-1.0f32 / n).exp().to_bits());
    assert!(!l.bypass());
    assert!(l.stereo_link());
}

#[test]
fn set_params_corrects_what_is_out_of_range() {
    let mut l = fresh(48000.0);
    set(&mut l, 12.0, 1.0e9, 100.0, 0, 0);
    assert_eq!(ceiling(&l), 1.0);
    assert_eq!(makeup(&l).to_bits(), 10.0f32.powf(24.0 / 20.0).to_bits());
    let n = (5000.0f32 / 1000.0 * 48000.0).max(1.0);
    assert_eq!(release(&l).to_bits(), (-1.0f32 / n).exp().to_bits());
    set(&mut l, -200.0, -1.0, -100.0, 0, 0);
    assert_eq!(ceiling(&l).to_bits(), 10.0f32.powf(-60.0 / 20.0).to_bits());
    assert_eq!(makeup(&l).to_bits(), 10.0f32.powf(-24.0 / 20.0).to_bits());
    let m = (0.1f32 / 1000.0 * 48000.0).max(1.0);
    assert_eq!(release(&l).to_bits(), (-1.0f32 / m).exp().to_bits());
}

#[test]
fn set_params_takes_the_minimum_for_what_is_not_finite() {
    let mut l = fresh(48000.0);
    set(&mut l, f32::NAN, f32::INFINITY, f32::NEG_INFINITY, 0, 0);
    assert_eq!(ceiling(&l).to_bits(), 10.0f32.powf(-60.0 / 20.0).to_bits());
    assert_eq!(makeup(&l).to_bits(), 10.0f32.powf(-24.0 / 20.0).to_bits());
    let m = (0.1f32 / 1000.0 * 48000.0).max(1.0);
    assert_eq!(release(&l).to_bits(), (-1.0f32 / m).exp().to_bits());
}

#[test]
fn set_params_keeps_the_ceiling_within_zero_and_one() {
    let mut l = fresh(48000.0);
    for &db in [f32::NAN, -1.0e9, -60.0, -59.0, -12.0, -0.3, 0.0, 0.1, 60.0, f32::MAX].iter() {
        set(&mut l, db, 120.0, 0.0, 0, 1);
        assert!(ceiling(&l) > 0.0 && ceiling(&l) <= 1.0, "{} dB gave {}", db, ceiling(&l));
    }
}

#[test]
fn set_params_reads_flags_as_zero_or_not() {
    let mut l = fresh(48000.0);
    set(&mut l, -0.3, 120.0, 0.0, 1, 0);
    assert!(l.bypass());
    assert!(!l.stereo_link());
    set(&mut l, -0.3, 120.0, 0.0, 0, 77);
    assert!(!l.bypass());
    assert!(l.stereo_link());
    set(&mut l, -0.3, 120.0, 0.0, u32::MAX, 0x8000_0000);
    assert!(l.bypass());
    assert!(l.stereo_link());
}

#[test]
fn set_params_leaves_gains_and_sample_rate() {
    let mut l = fresh(22050.0);
    set(&mut l, -12.0, 10.0, 6.0, 1, 0);
    assert_eq!(l.gain_linked(), 1.0f32.to_bits());
    assert_eq!(l.gain_ch0(), 1.0f32.to_bits());
    assert_eq!(l.gain_ch1(), 1.0f32.to_bits());
    assert_eq!(l.sample_rate_hz(), 22050.0f32.to_bits());
}

#[test]
fn set_params_uses_the_limiters_own_sample_rate() {
    let mut slow = fresh(8000.0);
    let mut fast = fresh(96000.0);
    set(&mut slow, -0.3, 120.0, 0.0, 0, 1);
    set(&mut fast, -0.3, 120.0, 0.0, 0, 1);
    assert!(release(&fast) > release(&slow));
    assert_eq!(release(&slow).to_bits(), (-1.0f32 / (120.0f32 / 1000.0 * 8000.0)).exp().to_bits());
}
