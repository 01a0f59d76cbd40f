//! Conversions from what a user sets to what the signal path works with:
//! decibels to linear gain, and a release time to a one-pole smoothing
//! coefficient.

use crate::arithmetic::{computes, evaluate, total, Operation};
use crate::binary32::{
    is_nan, lemma_size, lemma_value_of_one, less_than, scale, spec_is_nan, spec_less_than, value,
    ONE,
};
use crate::params::{clamp_release_ms, spec_clamp, RELEASE_MS_MAX, RELEASE_MS_MIN};
use vstd::arithmetic::power2::lemma2_to64;
use vstd::prelude::*;

verus! {

/// The pattern of ten, the base of the decibel scale.
pub const TEN: u32 = 0x4120_0000;

/// The pattern of twenty, the decibels in one decade of amplitude.
pub const TWENTY: u32 = 0x41a0_0000;

/// The pattern of one thousand, the milliseconds in a second.
pub const THOUSAND: u32 = 0x447a_0000;

/// The pattern of minus one.
pub const MINUS_ONE: u32 = 0xbf80_0000;

/// The numbers that the constants of the conversions stand for, in steps of
/// 2^-149.
pub proof fn lemma_constant_values()
    ensures
        value(TEN) == 10 * scale(),
        value(TWENTY) == 20 * scale(),
        value(THOUSAND) == 1000 * scale(),
        value(MINUS_ONE) == -scale(),
{
    lemma2_to64();
    lemma_size(0x4120_0000, 130, 0x20_0000, 10, 20);
    lemma_size(0x41a0_0000, 131, 0x20_0000, 20, 19);
    lemma_size(0x447a_0000, 136, 0x7a_0000, 1000, 14);
    lemma_value_of_one();
}

/// `lin` is ten raised to `exponent`, and `exponent` is `db` over twenty.
pub open spec fn db_to_lin_steps<K: Fn(Operation) -> u32>(
    k: &K,
    db: u32,
    exponent: u32,
    lin: u32,
) -> bool {
    &&& computes(k, Operation::Divide(db, TWENTY), exponent)
    &&& computes(k, Operation::Power(TEN, exponent), lin)
}

/// `lin` is the linear gain of `db` decibels, `10^(db/20)`, as the unit `k`
/// computes it.
pub open spec fn is_db_to_lin<K: Fn(Operation) -> u32>(k: &K, db: u32, lin: u32) -> bool {
    exists|exponent: u32| db_to_lin_steps(k, db, exponent, lin)
}

/// Converts decibels to linear gain.
pub fn db_to_lin<K: Fn(Operation) -> u32>(db: u32, k: &K) -> (lin: u32)
    requires
        total(k),
    ensures
        is_db_to_lin(k, db, lin),
{
    let exponent: u32 = evaluate(k, Operation::Divide(db, TWENTY));
    let lin: u32 = evaluate(k, Operation::Power(TEN, exponent));
    assert(db_to_lin_steps(k, db, exponent, lin));
    lin
}

/// The length of the release in samples, held to at least one: `product`
/// itself where it is a number not below one, and one elsewhere.
pub open spec fn spec_release_samples(product: u32) -> u32 {
    if spec_is_nan(product) || spec_less_than(product, ONE) {
        ONE
    } else {
        product
    }
}

/// Holds the product of release time and sample rate to at least one sample.
#[verifier::when_used_as_spec(spec_release_samples)]
pub fn release_samples(product: u32) -> (n: u32)
    ensures
        n == spec_release_samples(product),
        !spec_is_nan(n),
        value(n) >= scale(),
{
    proof {
        lemma_value_of_one();
    }
    if is_nan(product) || less_than(product, ONE) {
        ONE
    } else {
        product
    }
}

/// The chain from a release time to its coefficient: the time, corrected into
/// its range, over a thousand gives `seconds`; `seconds` times the sample
/// rate gives `product`; minus one over the release length in samples gives
/// `slope`; and Euler's number raised to `slope` gives `coeff`.
pub open spec fn release_coeff_steps<K: Fn(Operation) -> u32>(
    k: &K,
    release_ms: u32,
    sample_rate_hz: u32,
    seconds: u32,
    product: u32,
    slope: u32,
    coeff: u32,
) -> bool {
    &&& computes(
        k,
        Operation::Divide(spec_clamp(release_ms, RELEASE_MS_MIN, RELEASE_MS_MAX), THOUSAND),
        seconds,
    )
    &&& computes(k, Operation::Multiply(seconds, sample_rate_hz), product)
    &&& computes(k, Operation::Divide(MINUS_ONE, spec_release_samples(product)), slope)
    &&& computes(k, Operation::Exponential(slope), coeff)
}

/// `coeff` is the smoothing coefficient `exp(-1/n)` of a release of
/// `release_ms` milliseconds at `sample_rate_hz`, with `n` the release length
/// in samples and at least one, as the unit `k` computes it.
pub open spec fn is_release_coeff<K: Fn(Operation) -> u32>(
    k: &K,
    release_ms: u32,
    sample_rate_hz: u32,
    coeff: u32,
) -> bool {
    exists|seconds: u32, product: u32, slope: u32|
        release_coeff_steps(k, release_ms, sample_rate_hz, seconds, product, slope, coeff)
}

/// Converts a release time in milliseconds to a smoothing coefficient.
pub fn release_coeff_for_ms<K: Fn(Operation) -> u32>(
    release_ms: u32,
    sample_rate_hz: u32,
    k: &K,
) -> (coeff: u32)
    requires
        total(k),
    ensures
        is_release_coeff(k, release_ms, sample_rate_hz, coeff),
{
    let r_ms: u32 = clamp_release_ms(release_ms);
    let seconds: u32 = evaluate(k, Operation::Divide(r_ms, THOUSAND));
    let product: u32 = evaluate(k, Operation::Multiply(seconds, sample_rate_hz));
    let n: u32 = release_samples(product);
    let slope: u32 = evaluate(k, Operation::Divide(MINUS_ONE, n));
    let coeff: u32 = evaluate(k, Operation::Exponential(slope));
    assert(release_coeff_steps(k, release_ms, sample_rate_hz, seconds, product, slope, coeff));
    coeff
}

} // verus!
