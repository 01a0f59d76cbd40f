//! What it means for the arithmetic unit to round well, and what the limiter
//! then keeps of its promise in numbers.
//!
//! Single-precision arithmetic gives, of a product or a quotient that is
//! neither too large nor too small to be held, the nearest number that a
//! pattern stands for: one that differs from the exact result by no more than
//! one part in 2^24. The laws here take that of the results they speak of as
//! a hypothesis, and conclude what then holds of the output.

use crate::binary32::{lemma_value_of_one, scale, spec_abs, spec_is_nan, value, ONE};
use vstd::arithmetic::power2::lemma_pow2_pos;
use vstd::math::abs;
use vstd::prelude::*;

verus! {

/// How many parts the exact result is divided into, of which a rounded
/// result may be off by one: 2^24.
pub open spec fn parts() -> int {
    0x100_0000
}

/// `r` is `a * b` to within one part in 2^24 of the product.
pub open spec fn rounds_product(a: u32, b: u32, r: u32) -> bool {
    &&& !spec_is_nan(a)
    &&& !spec_is_nan(b)
    &&& !spec_is_nan(r)
    &&& parts() * abs(value(r) * scale() - value(a) * value(b)) <= abs(value(a) * value(b))
}

/// `r` is `a / b` to within one part in 2^24 of the quotient.
pub open spec fn rounds_quotient(a: u32, b: u32, r: u32) -> bool {
    &&& !spec_is_nan(a)
    &&& !spec_is_nan(b)
    &&& !spec_is_nan(r)
    &&& parts() * abs(value(r) * value(b) - value(a) * scale()) <= abs(value(a) * scale())
}

/// The magnitude of `y` is `c` to within two roundings: it differs from `c`
/// by no more than `(2^-23 + 2^-48) * c`.
pub open spec fn holds_at(y: u32, c: u32) -> bool {
    &&& !spec_is_nan(y)
    &&& parts() * parts() * abs(abs(value(y)) - value(c)) <= (2 * parts() + 1) * value(c)
}

/// A sample multiplied by the rounded quotient of a ceiling and the sample's
/// own magnitude comes out at the ceiling, to within the two roundings.
pub proof fn lemma_scaled_to_ceiling(ceiling: u32, sample: u32, ratio: u32, y: u32)
    requires
        0 < value(ceiling),
        rounds_quotient(ceiling, spec_abs(sample), ratio),
        rounds_product(sample, ratio, y),
    ensures
        holds_at(y, ceiling),
{
    let e = parts();
    let u = scale() as int;
    let c = value(ceiling);
    let s = value(sample);
    let l = value(spec_abs(sample));
    let q = value(ratio);
    let v = value(y);
    let w = abs(v);
    lemma_pow2_pos(149);
    assert(l == abs(s));
    // The quotient is within one part of the exact one.
    let cu = c * u;
    let ql = q * l;
    assert(cu > 0) by (nonlinear_arith)
        requires
            cu == c * u,
            c > 0,
            u > 0,
    ;
    assert(e * abs(ql - cu) <= cu);
    assert(e * ql <= (e + 1) * cu && (e - 1) * cu <= e * ql);
    assert(ql > 0);
    // So is the product, whose exact size is that of the quotient times the
    // magnitude of the sample.
    let sq = s * q;
    let vu = v * u;
    let wu = w * u;
    assert(abs(sq) == ql) by (nonlinear_arith)
        requires
            sq == s * q,
            ql == q * l,
            l == s || l == -s,
            ql > 0,
            l >= 0,
            abs(sq) == sq || abs(sq) == -sq,
            abs(sq) >= 0,
    ;
    assert(wu == abs(vu)) by (nonlinear_arith)
        requires
            wu == w * u,
            vu == v * u,
            w == v || w == -v,
            w >= 0,
            u > 0,
            abs(vu) == vu || abs(vu) == -vu,
            abs(vu) >= 0,
    ;
    assert(e * abs(vu - sq) <= ql);
    assert(e * wu <= (e + 1) * ql && (e - 1) * ql <= e * wu);
    // Both together, and the unit cancelled.
    assert(e * e * wu <= (e + 1) * (e + 1) * cu && (e - 1) * (e - 1) * cu <= e * e * wu)
        by (nonlinear_arith)
        requires
            e * wu <= (e + 1) * ql,
            (e - 1) * ql <= e * wu,
            e * ql <= (e + 1) * cu,
            (e - 1) * cu <= e * ql,
            e == 0x100_0000,
    ;
    assert(e * e * w <= (e + 1) * (e + 1) * c && (e - 1) * (e - 1) * c <= e * e * w)
        by (nonlinear_arith)
        requires
            e * e * wu <= (e + 1) * (e + 1) * cu,
            (e - 1) * (e - 1) * cu <= e * e * wu,
            wu == w * u,
            cu == c * u,
            u > 0,
            e == 0x100_0000,
    ;
    let d = abs(w - c);
    assert(e * e * d <= (2 * e + 1) * c) by (nonlinear_arith)
        requires
            e * e * w <= (e + 1) * (e + 1) * c,
            (e - 1) * (e - 1) * c <= e * e * w,
            d == w - c || d == c - w,
            c > 0,
            e == 0x100_0000,
    ;
}

/// The four results of one smoothing step are exact: `decayed` is
/// `gain * coeff`, `weight` is `1 - coeff`, `rise` is `weight * target`, and
/// `next` is `decayed + rise`, none of them rounded.
pub open spec fn release_is_exact(
    gain: u32,
    coeff: u32,
    target: u32,
    decayed: u32,
    weight: u32,
    rise: u32,
    next: u32,
) -> bool {
    &&& !spec_is_nan(decayed) && !spec_is_nan(weight) && !spec_is_nan(rise) && !spec_is_nan(next)
    &&& value(decayed) * scale() == value(gain) * value(coeff)
    &&& value(weight) == value(ONE) - value(coeff)
    &&& value(rise) * scale() == value(weight) * value(target)
    &&& value(next) == value(decayed) + value(rise)
}

/// An exact smoothing step with a coefficient in [0, 1] ends between the
/// gain and the target that it moves toward.
pub proof fn lemma_exact_release_is_between(
    gain: u32,
    coeff: u32,
    target: u32,
    decayed: u32,
    weight: u32,
    rise: u32,
    next: u32,
)
    requires
        0 <= value(coeff) <= scale(),
        value(gain) <= value(target),
        release_is_exact(gain, coeff, target, decayed, weight, rise, next),
    ensures
        value(gain) <= value(next) <= value(target),
{
    let u = scale() as int;
    let g = value(gain);
    let r = value(coeff);
    let t = value(target);
    let d = value(decayed);
    let w = value(weight);
    let i = value(rise);
    let n = value(next);
    lemma_value_of_one();
    assert(g <= n <= t) by (nonlinear_arith)
        requires
            u > 0,
            0 <= r <= u,
            g <= t,
            d * u == g * r,
            w == u - r,
            i * u == w * t,
            n == d + i,
    ;
}

} // verus!
