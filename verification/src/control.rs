//! The decisions of the adaptive step: the norm of the error estimate, and
//! whether a step is accepted.
//!
//! The scaled errors of the four components are doubles, held as bit
//! patterns. A step whose largest scaled error is above one is rejected
//! and tried again with a smaller step size. Any other step is accepted,
//! and the step size grows if the error was below one half.

use vstd::prelude::*;
use crate::double::{
    gt, larger_of, less, lt, maximum, minimum, nan, smaller_of, NAN_BITS,
};

verus! {

/// The scaled error above which a step is rejected: the bit pattern of
/// the double 1.0.
pub const REJECT_ABOVE_BITS: u64 = 0x3FF0_0000_0000_0000;

/// The scaled error below which the step size grows: the bit pattern of
/// the double 0.5.
pub const GROW_BELOW_BITS: u64 = 0x3FE0_0000_0000_0000;

/// The factor that keeps the next step size on the safe side: the bit
/// pattern of the double 0.9.
pub const SAFETY_BITS: u64 = 0x3FEC_CCCC_CCCC_CCCD;

/// The least factor by which a rejected step shrinks: the bit pattern of
/// the double 0.2.
pub const LEAST_SHRINK_BITS: u64 = 0x3FC9_9999_9999_999A;

/// The exponent of the error in the factor of a rejected step: the bit
/// pattern of the double -0.25.
pub const SHRINK_EXPONENT_BITS: u64 = 0xBFD0_0000_0000_0000;

/// The largest factor by which an accepted step grows: the bit pattern of
/// the double 5.0.
pub const MOST_GROWTH_BITS: u64 = 0x4014_0000_0000_0000;

/// The exponent of the error in the factor of an accepted step: the bit
/// pattern of the double -0.2.
pub const GROWTH_EXPONENT_BITS: u64 = 0xBFC9_9999_9999_999A;

/// What becomes of an attempted step.
#[derive(Clone, Copy, Debug, PartialEq, Eq, Structural)]
pub enum StepVerdict {
    /// State and time stay as they were, and the step size shrinks.
    Rejected,
    /// State and time advance, and the step size grows.
    AcceptedAndGrown,
    /// State and time advance, and the step size stays as it was.
    Accepted,
}

/// The running maximum after the next error. The next error wins unless
/// the maximum is greater than it: so it replaces a maximum that is not a
/// number, and wins if it is not a number itself.
pub open spec fn running_maximum(maximum: u64, next: u64) -> u64 {
    if less(next, maximum) {
        maximum
    } else {
        next
    }
}

/// The norm of the scaled errors: their running maximum, in order,
/// started from not-a-number.
pub open spec fn max_norm_of(errors: Seq<u64>) -> u64
    decreases errors.len(),
{
    if errors.len() == 0 {
        NAN_BITS
    } else {
        running_maximum(max_norm_of(errors.drop_last()), errors.last())
    }
}

/// The verdict on a step with the given norm of the scaled errors. A norm
/// that is not a number is neither above one nor below one half.
pub open spec fn verdict_of(max_error: u64) -> StepVerdict {
    if less(REJECT_ABOVE_BITS, max_error) {
        StepVerdict::Rejected
    } else if less(max_error, GROW_BELOW_BITS) {
        StepVerdict::AcceptedAndGrown
    } else {
        StepVerdict::Accepted
    }
}

/// The factor by which a rejected step shrinks: the factor `raw` that
/// the error suggests, but no less than the least one.
pub open spec fn shrink_factor_of(raw: u64) -> u64 {
    larger_of(raw, LEAST_SHRINK_BITS)
}

/// The factor by which an accepted step grows: the factor `raw` that the
/// error suggests, but no more than the largest one.
pub open spec fn growth_factor_of(raw: u64) -> u64 {
    smaller_of(raw, MOST_GROWTH_BITS)
}

/// The step size for the next attempt: the grown step size, but no more
/// than the largest step size allowed.
pub open spec fn capped_step_of(step: u64, max_step: u64) -> u64 {
    smaller_of(step, max_step)
}

/// The norm of the scaled errors of one step.
pub fn max_norm(errors: &[u64]) -> (norm: u64)
    ensures
        norm == max_norm_of(errors@),
{
    let mut norm: u64 = NAN_BITS;
    let mut i: usize = 0;
    assert(errors@.take(0) =~= Seq::<u64>::empty());
    while i < errors.len()
        invariant
            i <= errors@.len(),
            norm == max_norm_of(errors@.take(i as int)),
        decreases errors@.len() - i,
    {
        proof {
            let upto = errors@.take(i + 1);
            assert(upto.drop_last() =~= errors@.take(i as int));
            assert(upto.last() == errors@[i as int]);
        }
        if !gt(norm, errors[i]) {
            norm = errors[i];
        }
        i += 1;
    }
    assert(errors@.take(i as int) =~= errors@);
    norm
}

/// Decides what becomes of a step with the given norm of the scaled
/// errors.
pub fn judge(max_error: u64) -> (verdict: StepVerdict)
    ensures
        verdict == verdict_of(max_error),
{
    if gt(max_error, REJECT_ABOVE_BITS) {
        StepVerdict::Rejected
    } else if lt(max_error, GROW_BELOW_BITS) {
        StepVerdict::AcceptedAndGrown
    } else {
        StepVerdict::Accepted
    }
}

/// The factor by which a rejected step shrinks, from the factor that the
/// error suggests.
pub fn shrink_factor(raw: u64) -> (factor: u64)
    ensures
        factor == shrink_factor_of(raw),
{
    maximum(raw, LEAST_SHRINK_BITS)
}

/// The factor by which an accepted step grows, from the factor that the
/// error suggests.
pub fn growth_factor(raw: u64) -> (factor: u64)
    ensures
        factor == growth_factor_of(raw),
{
    minimum(raw, MOST_GROWTH_BITS)
}

/// The step size for the next attempt, from the grown step size.
pub fn capped_step(step: u64, max_step: u64) -> (next: u64)
    ensures
        next == capped_step_of(step, max_step),
{
    minimum(step, max_step)
}

/// The factor of a rejected step is a number that is not below the least
/// one, the factor of an accepted step is a number that is not above the
/// largest one, and the next step size is not above the largest step size
/// allowed.
pub proof fn lemma_factors_within_bounds(raw: u64, step: u64, max_step: u64)
    ensures
        !nan(shrink_factor_of(raw)),
        !less(shrink_factor_of(raw), LEAST_SHRINK_BITS),
        !nan(growth_factor_of(raw)),
        !less(MOST_GROWTH_BITS, growth_factor_of(raw)),
        !less(max_step, capped_step_of(step, max_step)),
        nan(capped_step_of(step, max_step)) <==> nan(step) && nan(max_step),
{
}

/// A step is rejected exactly when its error is above one, and its step
/// size grows exactly when its error is below one half; an error that is
/// not a number does neither.
pub proof fn lemma_verdict(max_error: u64)
    ensures
        verdict_of(max_error) == StepVerdict::Rejected <==> less(REJECT_ABOVE_BITS, max_error),
        verdict_of(max_error) == StepVerdict::AcceptedAndGrown <==> less(max_error, GROW_BELOW_BITS),
        nan(max_error) ==> verdict_of(max_error) == StepVerdict::Accepted,
{
}

/// Where every scaled error is a number, the norm is one of them, and
/// none of them is greater.
pub proof fn lemma_max_norm_of_numbers(errors: Seq<u64>)
    requires
        errors.len() > 0,
        forall|i: int| 0 <= i < errors.len() ==> !nan(#[trigger] errors[i]),
    ensures
        exists|i: int| 0 <= i < errors.len() && errors[i] == max_norm_of(errors),
        forall|i: int| 0 <= i < errors.len() ==> !less(max_norm_of(errors), #[trigger] errors[i]),
    decreases errors.len(),
{
    let front = errors.drop_last();
    let norm = max_norm_of(errors);
    if front.len() == 0 {
        assert(errors[0] == errors.last());
        assert(max_norm_of(front) == NAN_BITS);
        assert(norm == errors[0]);
    } else {
        lemma_max_norm_of_numbers(front);
        let i = choose|i: int| 0 <= i < front.len() && front[i] == max_norm_of(front);
        assert(front[i] == errors[i]);
        if norm == errors.last() {
            assert(errors[errors.len() - 1] == norm);
        } else {
            assert(errors[i] == norm);
        }
        assert forall|k: int| 0 <= k < errors.len() implies !less(norm, #[trigger] errors[k]) by {
            if k < front.len() {
                assert(front[k] == errors[k]);
            }
        }
    }
}

/// A last scaled error that is not a number makes the norm not a number,
/// and the step accepted.
pub proof fn lemma_max_norm_of_trailing_nan(errors: Seq<u64>)
    requires
        errors.len() > 0,
        nan(errors.last()),
    ensures
        max_norm_of(errors) == errors.last(),
        verdict_of(max_norm_of(errors)) == StepVerdict::Accepted,
{
}

} // verus!
