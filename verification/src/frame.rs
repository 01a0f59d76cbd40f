//! One frame through the limiter: a sample under its own gain, or a stereo
//! pair under a shared one.

use crate::arithmetic::{computes, evaluate, total, Operation};
use crate::binary32::{abs, peak, spec_abs, spec_less_than, spec_peak, value};
use crate::gain::{is_gain_update, lemma_attack_is_immediate, update_gain};
use crate::limiter::Settings;
use crate::rounding::{holds_at, lemma_scaled_to_ceiling, rounds_product, rounds_quotient};
use vstd::prelude::*;

verus! {

/// One sample through its own gain, by way of the sample after makeup gain:
/// `scaled` is `x` times the makeup gain, the gain is updated for the
/// magnitude of `scaled`, and `y` is `scaled` times the updated gain.
pub open spec fn limited_steps<K: Fn(Operation) -> u32>(
    k: &K,
    s: Settings,
    x: u32,
    gain: u32,
    scaled: u32,
    next: u32,
    y: u32,
) -> bool {
    &&& computes(k, Operation::Multiply(x, s.makeup_lin), scaled)
    &&& is_gain_update(k, s.ceiling_lin, s.release_coeff, spec_abs(scaled), gain, next)
    &&& computes(k, Operation::Multiply(scaled, next), y)
}

/// `x` under the gain `gain` gives `y` and leaves the gain at `next`.
pub open spec fn is_limited<K: Fn(Operation) -> u32>(
    k: &K,
    s: Settings,
    x: u32,
    gain: u32,
    next: u32,
    y: u32,
) -> bool {
    exists|scaled: u32| limited_steps(k, s, x, gain, scaled, next, y)
}

/// Limits one sample under its own gain.
pub fn limit_sample<K: Fn(Operation) -> u32>(x: u32, gain: u32, s: &Settings, k: &K) -> (r: (
    u32,
    u32,
))
    requires
        total(k),
    ensures
        is_limited(k, *s, x, gain, r.0, r.1),
{
    let scaled: u32 = evaluate(k, Operation::Multiply(x, s.makeup_lin));
    let next: u32 = update_gain(abs(scaled), gain, s.ceiling_lin, s.release_coeff, k);
    let y: u32 = evaluate(k, Operation::Multiply(scaled, next));
    assert(limited_steps(k, *s, x, gain, scaled, next, y));
    (next, y)
}

/// One stereo frame through one gain, by way of the samples after makeup
/// gain: the gain is updated for the larger of their magnitudes, and both
/// are multiplied by the updated gain.
pub open spec fn linked_steps<K: Fn(Operation) -> u32>(
    k: &K,
    s: Settings,
    left: u32,
    right: u32,
    gain: u32,
    scaled_left: u32,
    scaled_right: u32,
    next: u32,
    out_left: u32,
    out_right: u32,
) -> bool {
    &&& computes(k, Operation::Multiply(left, s.makeup_lin), scaled_left)
    &&& computes(k, Operation::Multiply(right, s.makeup_lin), scaled_right)
    &&& is_gain_update(
        k,
        s.ceiling_lin,
        s.release_coeff,
        spec_peak(scaled_left, scaled_right),
        gain,
        next,
    )
    &&& computes(k, Operation::Multiply(scaled_left, next), out_left)
    &&& computes(k, Operation::Multiply(scaled_right, next), out_right)
}

/// The frame `(left, right)` under the shared gain `gain` gives
/// `(out_left, out_right)` and leaves the gain at `next`.
pub open spec fn is_linked<K: Fn(Operation) -> u32>(
    k: &K,
    s: Settings,
    left: u32,
    right: u32,
    gain: u32,
    next: u32,
    out_left: u32,
    out_right: u32,
) -> bool {
    exists|scaled_left: u32, scaled_right: u32|
        linked_steps(
            k,
            s,
            left,
            right,
            gain,
            scaled_left,
            scaled_right,
            next,
            out_left,
            out_right,
        )
}

/// Limits one stereo frame under a shared gain.
pub fn limit_linked<K: Fn(Operation) -> u32>(
    left: u32,
    right: u32,
    gain: u32,
    s: &Settings,
    k: &K,
) -> (r: (u32, u32, u32))
    requires
        total(k),
    ensures
        is_linked(k, *s, left, right, gain, r.0, r.1, r.2),
{
    let scaled_left: u32 = evaluate(k, Operation::Multiply(left, s.makeup_lin));
    let scaled_right: u32 = evaluate(k, Operation::Multiply(right, s.makeup_lin));
    let level: u32 = peak(scaled_left, scaled_right);
    let next: u32 = update_gain(level, gain, s.ceiling_lin, s.release_coeff, k);
    let out_left: u32 = evaluate(k, Operation::Multiply(scaled_left, next));
    let out_right: u32 = evaluate(k, Operation::Multiply(scaled_right, next));
    assert(linked_steps(
        k,
        *s,
        left,
        right,
        gain,
        scaled_left,
        scaled_right,
        next,
        out_left,
        out_right,
    ));
    (next, out_left, out_right)
}

/// Attack does not overshoot. A sample that makeup gain lifts above the
/// ceiling, met by a gain that is higher than the sample allows, leaves at
/// the ceiling on that very sample: the gain becomes the ratio of ceiling and
/// magnitude itself, and where the unit rounds that ratio and the product
/// well, the magnitude of the output is the ceiling to within the two
/// roundings.
pub proof fn lemma_attack_holds_the_ceiling<K: Fn(Operation) -> u32>(
    k: &K,
    s: Settings,
    x: u32,
    gain: u32,
    scaled: u32,
    next: u32,
    y: u32,
)
    requires
        limited_steps(k, s, x, gain, scaled, next, y),
        0 < value(s.ceiling_lin),
        spec_less_than(s.ceiling_lin, spec_abs(scaled)),
        forall|q: u32| #[trigger]
            computes(k, Operation::Divide(s.ceiling_lin, spec_abs(scaled)), q) ==> {
                &&& spec_less_than(q, gain)
                &&& rounds_quotient(s.ceiling_lin, spec_abs(scaled), q)
            },
        forall|p: u32| #[trigger]
            computes(k, Operation::Multiply(scaled, next), p) ==> rounds_product(scaled, next, p),
    ensures
        computes(k, Operation::Divide(s.ceiling_lin, spec_abs(scaled)), next),
        holds_at(y, s.ceiling_lin),
{
    lemma_attack_is_immediate(k, s.ceiling_lin, s.release_coeff, spec_abs(scaled), gain, next);
    lemma_scaled_to_ceiling(s.ceiling_lin, scaled, next, y);
}

/// Attack does not overshoot in linked stereo either: the louder channel of
/// a frame above the ceiling leaves at the ceiling, to within the two
/// roundings, and one of the two channels is the louder one.
pub proof fn lemma_linked_attack_holds_the_ceiling<K: Fn(Operation) -> u32>(
    k: &K,
    s: Settings,
    left: u32,
    right: u32,
    gain: u32,
    scaled_left: u32,
    scaled_right: u32,
    next: u32,
    out_left: u32,
    out_right: u32,
)
    requires
        linked_steps(
            k,
            s,
            left,
            right,
            gain,
            scaled_left,
            scaled_right,
            next,
            out_left,
            out_right,
        ),
        0 < value(s.ceiling_lin),
        spec_less_than(s.ceiling_lin, spec_peak(scaled_left, scaled_right)),
        forall|q: u32| #[trigger]
            computes(
                k,
                Operation::Divide(s.ceiling_lin, spec_peak(scaled_left, scaled_right)),
                q,
            ) ==> {
                &&& spec_less_than(q, gain)
                &&& rounds_quotient(s.ceiling_lin, spec_peak(scaled_left, scaled_right), q)
            },
        forall|p: u32| #[trigger]
            computes(k, Operation::Multiply(scaled_left, next), p) ==> rounds_product(
                scaled_left,
                next,
                p,
            ),
        forall|p: u32| #[trigger]
            computes(k, Operation::Multiply(scaled_right, next), p) ==> rounds_product(
                scaled_right,
                next,
                p,
            ),
    ensures
        computes(
            k,
            Operation::Divide(s.ceiling_lin, spec_peak(scaled_left, scaled_right)),
            next,
        ),
        spec_abs(scaled_left) == spec_peak(scaled_left, scaled_right) ==> holds_at(
            out_left,
            s.ceiling_lin,
        ),
        spec_abs(scaled_right) == spec_peak(scaled_left, scaled_right) ==> holds_at(
            out_right,
            s.ceiling_lin,
        ),
        spec_abs(scaled_left) == spec_peak(scaled_left, scaled_right) || spec_abs(scaled_right)
            == spec_peak(scaled_left, scaled_right),
{
    let level = spec_peak(scaled_left, scaled_right);
    lemma_attack_is_immediate(k, s.ceiling_lin, s.release_coeff, level, gain, next);
    if spec_abs(scaled_left) == level {
        lemma_scaled_to_ceiling(s.ceiling_lin, scaled_left, next, out_left);
    }
    if spec_abs(scaled_right) == level {
        lemma_scaled_to_ceiling(s.ceiling_lin, scaled_right, next, out_right);
    }
}

} // verus!
