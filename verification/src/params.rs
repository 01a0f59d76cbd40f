//! Parameter sanitation: every input, however invalid, is corrected into the
//! range that the limiter accepts, never rejected.

use crate::binary32::{
    is_finite, is_infinite, lemma_size, less_than, scale, spec_is_finite, spec_is_nan,
    spec_less_than, value,
};
use vstd::arithmetic::power2::{
    lemma2_to64, lemma_pow2_adds, lemma_pow2_pos, lemma_pow2_strictly_increases, pow2,
};
use vstd::prelude::*;

verus! {

/// Lowest ceiling, -60 dB.
pub const CEILING_DB_MIN: u32 = 0xc270_0000;

/// Highest ceiling, 0 dB.
pub const CEILING_DB_MAX: u32 = 0x0000_0000;

/// Lowest makeup gain, -24 dB.
pub const MAKEUP_DB_MIN: u32 = 0xc1c0_0000;

/// Highest makeup gain, 24 dB.
pub const MAKEUP_DB_MAX: u32 = 0x41c0_0000;

/// Shortest release time: the single-precision number nearest to 0.1 ms.
pub const RELEASE_MS_MIN: u32 = 0x3dcc_cccd;

/// Longest release time, 5000 ms.
pub const RELEASE_MS_MAX: u32 = 0x459c_4000;

/// Ceiling of a new limiter: the single-precision number nearest to -0.3 dB.
pub const DEFAULT_CEILING_DB: u32 = 0xbe99_999a;

/// Release time of a new limiter, 120 ms.
pub const DEFAULT_RELEASE_MS: u32 = 0x42f0_0000;

/// `v` brought into `[min, max]`; `min` where `v` is not finite.
pub open spec fn spec_clamp(v: u32, min: u32, max: u32) -> u32 {
    if !spec_is_finite(v) {
        min
    } else if spec_less_than(v, min) {
        min
    } else if spec_less_than(max, v) {
        max
    } else {
        v
    }
}

/// Brings `v` into `[min, max]`. A `v` that is not a number or is infinite
/// gives `min`, so that a corrupted input degrades to the least allowed value.
#[verifier::when_used_as_spec(spec_clamp)]
pub fn clamp(v: u32, min: u32, max: u32) -> (r: u32)
    ensures
        r == spec_clamp(v, min, max),
        spec_is_nan(v) || is_infinite(v) ==> r == min,
        spec_is_finite(v) && !spec_is_nan(min) && !spec_is_nan(max) && value(min) <= value(v)
            <= value(max) ==> r == v,
{
    if !is_finite(v) {
        return min;
    }
    if less_than(v, min) {
        min
    } else if less_than(max, v) {
        max
    } else {
        v
    }
}

/// A clamp between ordered bounds gives one of `v`, `min` and `max`, and a
/// number that lies within the bounds.
pub proof fn lemma_clamp_within_bounds(v: u32, min: u32, max: u32)
    requires
        !spec_is_nan(min),
        !spec_is_nan(max),
        value(min) <= value(max),
    ensures
        spec_clamp(v, min, max) == v || spec_clamp(v, min, max) == min || spec_clamp(v, min, max)
            == max,
        !spec_is_nan(spec_clamp(v, min, max)),
        value(min) <= value(spec_clamp(v, min, max)) <= value(max),
        spec_is_finite(min) && spec_is_finite(max) ==> spec_is_finite(spec_clamp(v, min, max)),
{
}

/// Clamping what a clamp has given changes nothing.
pub proof fn lemma_clamp_idempotent(v: u32, min: u32, max: u32)
    requires
        spec_is_finite(min),
        spec_is_finite(max),
        value(min) <= value(max),
    ensures
        spec_clamp(spec_clamp(v, min, max), min, max) == spec_clamp(v, min, max),
{
}

/// The numbers that the bounds and defaults stand for, in steps of 2^-149.
/// The two that no pattern holds exactly are off by a power of two far below
/// their last digit: ten times the shortest release is 1 + 2^-26, ten times
/// the default ceiling is -(3 + 2^-23).
pub proof fn lemma_parameter_values()
    ensures
        value(CEILING_DB_MIN) == -60 * scale(),
        value(CEILING_DB_MAX) == 0,
        value(MAKEUP_DB_MIN) == -24 * scale(),
        value(MAKEUP_DB_MAX) == 24 * scale(),
        10 * value(RELEASE_MS_MIN) == scale() + pow2(123),
        value(RELEASE_MS_MAX) == 5000 * scale(),
        10 * value(DEFAULT_CEILING_DB) == -(3 * scale() + pow2(126)),
        value(DEFAULT_RELEASE_MS) == 120 * scale(),
{
    lemma2_to64();
    lemma_size(0x4270_0000, 132, 0x70_0000, 60, 18);
    lemma_size(0x41c0_0000, 131, 0x40_0000, 24, 19);
    lemma_size(0x459c_4000, 139, 0x1c_4000, 5000, 11);
    lemma_size(0x42f0_0000, 133, 0x70_0000, 120, 17);
    lemma_size(0x3dcc_cccd, 123, 0x4c_cccd, 13421773, 0);
    lemma_size(0x3e99_999a, 125, 0x19_999a, 5033165, 1);
    lemma_pow2_adds(26, 123);
    lemma_pow2_adds(1, 122);
    lemma_pow2_adds(24, 125);
    lemma_pow2_adds(1, 125);
}

/// Corrects a ceiling given in decibels into [-60, 0].
pub fn clamp_ceiling_db(db: u32) -> (r: u32)
    ensures
        r == spec_clamp(db, CEILING_DB_MIN, CEILING_DB_MAX),
        spec_is_finite(r),
        -60 * scale() <= value(r) <= 0,
{
    proof {
        lemma_parameter_values();
    }
    clamp(db, CEILING_DB_MIN, CEILING_DB_MAX)
}

/// Corrects a makeup gain given in decibels into [-24, 24].
pub fn clamp_makeup_db(db: u32) -> (r: u32)
    ensures
        r == spec_clamp(db, MAKEUP_DB_MIN, MAKEUP_DB_MAX),
        spec_is_finite(r),
        -24 * scale() <= value(r) <= 24 * scale(),
{
    proof {
        lemma_parameter_values();
    }
    clamp(db, MAKEUP_DB_MIN, MAKEUP_DB_MAX)
}

/// Corrects a release time given in milliseconds into [0.1, 5000].
pub fn clamp_release_ms(ms: u32) -> (r: u32)
    ensures
        r == spec_clamp(ms, RELEASE_MS_MIN, RELEASE_MS_MAX),
        spec_is_finite(r),
        value(RELEASE_MS_MIN) <= value(r) <= 5000 * scale(),
        0 < value(r),
{
    proof {
        lemma_parameter_values();
        lemma_pow2_pos(123);
        lemma_pow2_strictly_increases(123, 149);
    }
    clamp(ms, RELEASE_MS_MIN, RELEASE_MS_MAX)
}

/// Reads an integer flag: any value but zero switches it on.
pub fn flag_is_set(flag: u32) -> (on: bool)
    ensures
        on == (flag != 0),
{
    flag != 0
}

} // verus!
