//! Single-precision numbers as 32-bit patterns.
//!
//! A pattern holds a sign bit, eight exponent bits and twenty-three fraction
//! bits. Its meaning is given by [`value`]: the number it stands for, counted
//! in steps of 2^-149, the distance between the two smallest magnitudes.

use vstd::arithmetic::power2::{
    lemma2_to64, lemma_pow2_adds, lemma_pow2_pos, lemma_pow2_strictly_increases,
    lemma_pow2_unfold, pow2,
};
use vstd::prelude::*;

verus! {

/// The bit that holds the sign.
pub const SIGN_BIT: u32 = 0x8000_0000;

/// The pattern of positive infinity; also the least magnitude that is not finite.
pub const INFINITY: u32 = 0x7f80_0000;

/// The pattern of the number one.
pub const ONE: u32 = 0x3f80_0000;

/// Two to the twenty-third: how many fractions one exponent holds.
pub const FRACTION_SPAN: u32 = 0x80_0000;

/// The pattern with its sign bit cleared.
pub open spec fn spec_abs(x: u32) -> u32 {
    if x >= SIGN_BIT {
        (x - SIGN_BIT) as u32
    } else {
        x
    }
}

/// Whether the sign bit is set.
pub open spec fn is_negative(x: u32) -> bool {
    x >= SIGN_BIT
}

/// Whether the pattern is not a number.
pub open spec fn spec_is_nan(x: u32) -> bool {
    spec_abs(x) > INFINITY
}

/// Whether the pattern is positive or negative infinity.
pub open spec fn is_infinite(x: u32) -> bool {
    spec_abs(x) == INFINITY
}

/// Whether the pattern is a zero, a subnormal or a normal number.
pub open spec fn spec_is_finite(x: u32) -> bool {
    spec_abs(x) < INFINITY
}

/// The size of the number with magnitude bits `m`, in steps of 2^-149.
///
/// With exponent field `e` and fraction field `f` this is `f` where `e` is
/// zero and `(2^23 + f) * 2^(e - 1)` elsewhere. At the magnitude of infinity
/// the same formula gives 2^277, twice the size of the largest power of two
/// among the finite numbers, so that infinity lies beyond all of them.
pub open spec fn magnitude_value(m: u32) -> nat {
    let e = (m / FRACTION_SPAN) as nat;
    let f = (m % FRACTION_SPAN) as nat;
    if e == 0 {
        f
    } else {
        (FRACTION_SPAN as nat + f) * pow2((e - 1) as nat)
    }
}

/// The number that `x` stands for, in steps of 2^-149. Both zeros give 0.
/// It carries no meaning where `x` is not a number.
pub open spec fn value(x: u32) -> int {
    if is_negative(x) {
        -(magnitude_value(spec_abs(x)) as int)
    } else {
        magnitude_value(spec_abs(x)) as int
    }
}

/// The size of the number one, 2^149 steps: what a value is scaled by.
pub open spec fn scale() -> nat {
    pow2(149)
}

/// `a < b` as numbers; false where either is not a number.
pub open spec fn spec_less_than(a: u32, b: u32) -> bool {
    !spec_is_nan(a) && !spec_is_nan(b) && value(a) < value(b)
}

/// A larger magnitude pattern stands for a larger size.
pub proof fn lemma_magnitude_value_increases(m1: u32, m2: u32)
    requires
        m1 < m2,
    ensures
        magnitude_value(m1) < magnitude_value(m2),
{
    let s = FRACTION_SPAN as nat;
    let e1 = (m1 / FRACTION_SPAN) as nat;
    let f1 = (m1 % FRACTION_SPAN) as nat;
    let e2 = (m2 / FRACTION_SPAN) as nat;
    let f2 = (m2 % FRACTION_SPAN) as nat;
    assert(e1 <= e2);
    if e1 == e2 {
        assert(f1 < f2);
        if e1 > 0 {
            let weight = pow2((e1 - 1) as nat);
            lemma_pow2_pos((e1 - 1) as nat);
            assert((s + f1) * weight < (s + f2) * weight) by (nonlinear_arith)
                requires
                    f1 < f2,
                    weight > 0,
            ;
        }
    } else {
        let upper = pow2((e2 - 1) as nat);
        lemma_pow2_pos((e2 - 1) as nat);
        assert(s * upper <= (s + f2) * upper) by (nonlinear_arith)
            requires
                upper > 0,
        ;
        if e1 == 0 {
            assert(s <= s * upper) by (nonlinear_arith)
                requires
                    upper > 0,
            ;
        } else {
            let lower = pow2((e1 - 1) as nat);
            lemma_pow2_pos((e1 - 1) as nat);
            lemma_pow2_unfold(e1);
            if e1 < e2 - 1 {
                lemma_pow2_strictly_increases(e1, (e2 - 1) as nat);
            }
            assert(pow2(e1) <= upper);
            assert((s + f1) * lower < s * upper) by (nonlinear_arith)
                requires
                    f1 < s,
                    lower > 0,
                    2 * lower <= upper,
            ;
        }
    }
}

/// Magnitude patterns are ordered as the sizes they stand for.
pub proof fn lemma_magnitude_order(m1: u32, m2: u32)
    ensures
        m1 < m2 <==> magnitude_value(m1) < magnitude_value(m2),
        m1 == m2 <==> magnitude_value(m1) == magnitude_value(m2),
{
    if m1 < m2 {
        lemma_magnitude_value_increases(m1, m2);
    }
    if m2 < m1 {
        lemma_magnitude_value_increases(m2, m1);
    }
}

/// The size of a magnitude pattern made of a nonzero exponent field
/// `exponent` and a fraction field `fraction`, as a multiple `count` of a
/// power of two.
pub proof fn lemma_size(m: u32, exponent: nat, fraction: nat, count: nat, shift: nat)
    requires
        0 < exponent,
        fraction < FRACTION_SPAN,
        m == exponent * FRACTION_SPAN + fraction,
        shift < exponent,
        FRACTION_SPAN + fraction == count * pow2(shift),
    ensures
        magnitude_value(m) == count * pow2((exponent - 1 + shift) as nat),
{
    let rest = (exponent - 1) as nat;
    assert(m / FRACTION_SPAN == exponent && m % FRACTION_SPAN == fraction) by (nonlinear_arith)
        requires
            m == exponent * FRACTION_SPAN + fraction,
            fraction < FRACTION_SPAN,
            FRACTION_SPAN == 0x80_0000,
    ;
    lemma_pow2_adds(shift, rest);
    assert((count * pow2(shift)) * pow2(rest) == count * (pow2(shift) * pow2(rest)))
        by (nonlinear_arith);
}

/// The pattern `ONE` stands for the number one.
pub proof fn lemma_value_of_one()
    ensures
        value(ONE) == scale(),
        scale() > 0,
{
    lemma2_to64();
    lemma_size(0x3f80_0000, 127, 0, 1, 23);
    lemma_pow2_pos(149);
}

/// Clears the sign bit.
#[verifier::when_used_as_spec(spec_abs)]
pub fn abs(x: u32) -> (r: u32)
    ensures
        r == spec_abs(x),
        r < SIGN_BIT,
        spec_is_nan(r) == spec_is_nan(x),
        value(r) == if value(x) < 0 { -value(x) } else { value(x) },
{
    let r: u32 = x & 0x7fff_ffff;
    assert(x & 0x7fff_ffff == if x >= 0x8000_0000u32 { (x - 0x8000_0000u32) as u32 } else { x })
        by (bit_vector);
    r
}

/// Tells whether the pattern is not a number.
#[verifier::when_used_as_spec(spec_is_nan)]
pub fn is_nan(x: u32) -> (r: bool)
    ensures
        r == spec_is_nan(x),
{
    abs(x) > INFINITY
}

/// Tells whether the pattern is a finite number.
#[verifier::when_used_as_spec(spec_is_finite)]
pub fn is_finite(x: u32) -> (r: bool)
    ensures
        r == spec_is_finite(x),
{
    abs(x) < INFINITY
}

/// The place of a pattern in the order of the numbers: its magnitude
/// pattern, negated where the sign bit is set.
pub open spec fn rank(x: u32) -> int {
    if is_negative(x) {
        -(spec_abs(x) as int)
    } else {
        spec_abs(x) as int
    }
}

/// Patterns are ordered by rank as the numbers they stand for are by size,
/// so that two numbers are compared by comparing two integers.
pub proof fn lemma_order_by_rank(a: u32, b: u32)
    ensures
        value(a) < value(b) <==> rank(a) < rank(b),
        value(a) == value(b) <==> rank(a) == rank(b),
{
    lemma_magnitude_order(spec_abs(a), spec_abs(b));
    lemma_magnitude_order(spec_abs(a), 0);
    lemma_magnitude_order(spec_abs(b), 0);
}

/// Compares two patterns as the numbers they stand for.
#[verifier::when_used_as_spec(spec_less_than)]
pub fn less_than(a: u32, b: u32) -> (r: bool)
    ensures
        r == spec_less_than(a, b),
{
    if is_nan(a) || is_nan(b) {
        return false;
    }
    proof {
        lemma_order_by_rank(a, b);
    }
    let ra: i64 = if a >= SIGN_BIT {
        -(abs(a) as i64)
    } else {
        abs(a) as i64
    };
    let rb: i64 = if b >= SIGN_BIT {
        -(abs(b) as i64)
    } else {
        abs(b) as i64
    };
    ra < rb
}

/// The larger of the magnitudes of two samples, passing over one that is not
/// a number: the level that a detector fed with both of them sees.
pub open spec fn spec_peak(left: u32, right: u32) -> u32 {
    let l = spec_abs(left);
    let r = spec_abs(right);
    if spec_is_nan(l) {
        r
    } else if spec_is_nan(r) {
        l
    } else if spec_less_than(l, r) {
        r
    } else {
        l
    }
}

/// Computes the larger magnitude of two samples.
#[verifier::when_used_as_spec(spec_peak)]
pub fn peak(left: u32, right: u32) -> (p: u32)
    ensures
        p == spec_peak(left, right),
        p == spec_abs(left) || p == spec_abs(right),
        spec_is_nan(p) <==> spec_is_nan(left) && spec_is_nan(right),
        !spec_is_nan(left) ==> value(p) >= value(spec_abs(left)),
        !spec_is_nan(right) ==> value(p) >= value(spec_abs(right)),
{
    let l: u32 = abs(left);
    let r: u32 = abs(right);
    proof {
        lemma_order_by_rank(l, r);
    }
    if is_nan(l) {
        r
    } else if is_nan(r) {
        l
    } else if l < r {
        r
    } else {
        l
    }
}

} // verus!
