//! The gain smoother: one running gain, dropped at once to what a transient
//! asks for and raised back toward one by a one-pole filter.

use crate::arithmetic::{computes, evaluate, total, Operation};
use crate::binary32::{
    lemma_value_of_one, less_than, scale, spec_is_nan, spec_less_than, value, ONE,
};
use crate::rounding::{lemma_exact_release_is_between, release_is_exact};
use vstd::prelude::*;

verus! {

/// `target` is the gain that holds a signal of magnitude `level` at
/// `ceiling`: the unit's quotient of the two where the level is above the
/// ceiling, and one where it is not.
pub open spec fn is_target<K: Fn(Operation) -> u32>(
    k: &K,
    ceiling: u32,
    level: u32,
    target: u32,
) -> bool {
    if spec_less_than(ceiling, level) {
        computes(k, Operation::Divide(ceiling, level), target)
    } else {
        target == ONE
    }
}

/// Finds the gain that a level asks for.
pub fn target_gain<K: Fn(Operation) -> u32>(level: u32, ceiling: u32, k: &K) -> (target: u32)
    requires
        total(k),
    ensures
        is_target(k, ceiling, level, target),
{
    if less_than(ceiling, level) {
        evaluate(k, Operation::Divide(ceiling, level))
    } else {
        ONE
    }
}

/// The four requests of one smoothing step: `gain * coeff`, `1 - coeff`,
/// that weight times `target`, and the sum of the two products.
pub open spec fn release_steps<K: Fn(Operation) -> u32>(
    k: &K,
    gain: u32,
    coeff: u32,
    target: u32,
    decayed: u32,
    weight: u32,
    rise: u32,
    next: u32,
) -> bool {
    &&& computes(k, Operation::Multiply(gain, coeff), decayed)
    &&& computes(k, Operation::Subtract(ONE, coeff), weight)
    &&& computes(k, Operation::Multiply(weight, target), rise)
    &&& computes(k, Operation::Add(decayed, rise), next)
}

/// `next` is `gain * coeff + (1 - coeff) * target` as the unit computes it.
pub open spec fn is_released<K: Fn(Operation) -> u32>(
    k: &K,
    gain: u32,
    coeff: u32,
    target: u32,
    next: u32,
) -> bool {
    exists|decayed: u32, weight: u32, rise: u32|
        release_steps(k, gain, coeff, target, decayed, weight, rise, next)
}

/// Moves a gain one smoothing step toward its target.
pub fn release<K: Fn(Operation) -> u32>(gain: u32, coeff: u32, target: u32, k: &K) -> (next: u32)
    requires
        total(k),
    ensures
        is_released(k, gain, coeff, target, next),
{
    let decayed: u32 = evaluate(k, Operation::Multiply(gain, coeff));
    let weight: u32 = evaluate(k, Operation::Subtract(ONE, coeff));
    let rise: u32 = evaluate(k, Operation::Multiply(weight, target));
    let next: u32 = evaluate(k, Operation::Add(decayed, rise));
    assert(release_steps(k, gain, coeff, target, decayed, weight, rise, next));
    next
}

/// `next` follows `gain` under the limiting rule: a target below the gain is
/// taken over as it is, with no smoothing; any other target is approached by
/// one smoothing step.
pub open spec fn is_next_gain<K: Fn(Operation) -> u32>(
    k: &K,
    coeff: u32,
    gain: u32,
    target: u32,
    next: u32,
) -> bool {
    if spec_less_than(target, gain) {
        next == target
    } else {
        is_released(k, gain, coeff, target, next)
    }
}

/// Applies the limiting rule to a gain and its target.
pub fn next_gain<K: Fn(Operation) -> u32>(gain: u32, target: u32, coeff: u32, k: &K) -> (next:
    u32)
    requires
        total(k),
    ensures
        is_next_gain(k, coeff, gain, target, next),
{
    if less_than(target, gain) {
        target
    } else {
        release(gain, coeff, target, k)
    }
}

/// `next` follows `gain` after a sample of magnitude `level`, by way of the
/// target `target`.
pub open spec fn gain_update_steps<K: Fn(Operation) -> u32>(
    k: &K,
    ceiling: u32,
    coeff: u32,
    level: u32,
    gain: u32,
    target: u32,
    next: u32,
) -> bool {
    &&& is_target(k, ceiling, level, target)
    &&& is_next_gain(k, coeff, gain, target, next)
}

/// `next` follows `gain` after a sample of magnitude `level`.
pub open spec fn is_gain_update<K: Fn(Operation) -> u32>(
    k: &K,
    ceiling: u32,
    coeff: u32,
    level: u32,
    gain: u32,
    next: u32,
) -> bool {
    exists|target: u32| gain_update_steps(k, ceiling, coeff, level, gain, target, next)
}

/// Updates a gain for one sample of magnitude `level`.
pub fn update_gain<K: Fn(Operation) -> u32>(
    level: u32,
    gain: u32,
    ceiling: u32,
    coeff: u32,
    k: &K,
) -> (next: u32)
    requires
        total(k),
    ensures
        is_gain_update(k, ceiling, coeff, level, gain, next),
{
    let target: u32 = target_gain(level, ceiling, k);
    let next: u32 = next_gain(gain, target, coeff, k);
    assert(gain_update_steps(k, ceiling, coeff, level, gain, target, next));
    next
}

/// Attack takes no time. Where the level is above the ceiling and every
/// quotient the unit gives for the two is below the running gain, the next
/// gain is such a quotient itself, not a value between the two, and it is
/// below the gain it replaces.
pub proof fn lemma_attack_is_immediate<K: Fn(Operation) -> u32>(
    k: &K,
    ceiling: u32,
    coeff: u32,
    level: u32,
    gain: u32,
    next: u32,
)
    requires
        spec_less_than(ceiling, level),
        forall|q: u32|
            computes(k, Operation::Divide(ceiling, level), q) ==> spec_less_than(q, gain),
        is_gain_update(k, ceiling, coeff, level, gain, next),
    ensures
        computes(k, Operation::Divide(ceiling, level), next),
        !spec_is_nan(next),
        value(next) < value(gain),
{
}

/// A signal at or under the ceiling, or one that is not a number, asks for a
/// gain of one: the next gain is then one smoothing step from the old gain
/// toward one, unless the old gain is above one, in which case it is one.
pub proof fn lemma_quiet_signal_releases<K: Fn(Operation) -> u32>(
    k: &K,
    ceiling: u32,
    coeff: u32,
    level: u32,
    gain: u32,
    next: u32,
)
    requires
        !spec_less_than(ceiling, level),
        is_gain_update(k, ceiling, coeff, level, gain, next),
    ensures
        if spec_less_than(ONE, gain) {
            next == ONE
        } else {
            is_released(k, gain, coeff, ONE, next)
        },
{
}

/// Release recovers and does not pass one. After a quiet sample, a gain at
/// or below one, smoothed by a coefficient in [0, 1], is followed by a gain
/// that is not below it and not above one, where the four results of the
/// smoothing step are exact.
pub proof fn lemma_exact_release_recovers<K: Fn(Operation) -> u32>(
    k: &K,
    ceiling: u32,
    coeff: u32,
    level: u32,
    gain: u32,
    next: u32,
)
    requires
        !spec_less_than(ceiling, level),
        !spec_is_nan(gain),
        value(gain) <= scale(),
        0 <= value(coeff) <= scale(),
        is_gain_update(k, ceiling, coeff, level, gain, next),
        forall|decayed: u32, weight: u32, rise: u32| #[trigger]
            release_steps(k, gain, coeff, ONE, decayed, weight, rise, next) ==> release_is_exact(
                gain,
                coeff,
                ONE,
                decayed,
                weight,
                rise,
                next,
            ),
    ensures
        !spec_is_nan(next),
        value(gain) <= value(next) <= scale(),
{
    lemma_value_of_one();
    lemma_quiet_signal_releases(k, ceiling, coeff, level, gain, next);
    let (decayed, weight, rise) = choose|decayed: u32, weight: u32, rise: u32|
        release_steps(k, gain, coeff, ONE, decayed, weight, rise, next);
    lemma_exact_release_is_between(gain, coeff, ONE, decayed, weight, rise, next);
}

} // verus!
