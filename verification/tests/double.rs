use pendulum_basins::control::{
    capped_step, growth_factor, judge, max_norm, shrink_factor, StepVerdict,
    GROWTH_EXPONENT_BITS, GROW_BELOW_BITS, LEAST_SHRINK_BITS, MOST_GROWTH_BITS,
    REJECT_ABOVE_BITS, SAFETY_BITS, SHRINK_EXPONENT_BITS,
};
use pendulum_basins::double::{
    gt, is_nan, lt, maximum, minimum, negate, INFINITY_BITS, NAN_BITS, SIGN_BIT,
};

fn samples() -> Vec<f64> {
    vec![
        0.0,
        -0.0,
        f64::from_bits(1),
        -f64::from_bits(1),
        f64::MIN_POSITIVE,
        -f64::MIN_POSITIVE,
        1e-300,
        0.1,
        -0.1,
        0.5,
        -0.5,
        1.0,
        -1.0,
        1.0 + f64::EPSILON,
        1.5,
        5.0,
        -5.0,
        1e300,
        -1e300,
        f64::MAX,
        f64::MIN,
        f64::INFINITY,
        f64::NEG_INFINITY,
        f64::NAN,
        -f64::NAN,
        f64::from_bits(0x7FF0_0000_0000_0001),
        f64::from_bits(0xFFFF_FFFF_FFFF_FFFF),
    ]
}

#[test]
fn bit_constants_are_the_documented_doubles() {
    assert_eq!(SIGN_BIT, (-0.0f64).to_bits());
    assert_eq!(INFINITY_BITS, f64::INFINITY.to_bits());
    assert_eq!(NAN_BITS, f64::NAN.to_bits());
    assert_eq!(f64::from_bits(REJECT_ABOVE_BITS), 1.0);
    assert_eq!(f64::from_bits(GROW_BELOW_BITS), 0.5);
    assert_eq!(f64::from_bits(SAFETY_BITS), 0.9);
    assert_eq!(f64::from_bits(LEAST_SHRINK_BITS), 0.2);
    assert_eq!(f64::from_bits(SHRINK_EXPONENT_BITS), -0.25);
    assert_eq!(f64::from_bits(MOST_GROWTH_BITS), 5.0);
    assert_eq!(f64::from_bits(GROWTH_EXPONENT_BITS), -0.20);
}

#[test]
fn lt_agrees_with_the_order_of_doubles() {
    for &a in &samples() {
        for &b in &samples() {
            assert_eq!(lt(a.to_bits(), b.to_bits()), a < b);
        }
    }
}

#[test]
fn gt_agrees_with_the_order_of_doubles() {
    for &a in &samples() {
        for &b in &samples() {
            assert_eq!(gt(a.to_bits(), b.to_bits()), a > b);
        }
    }
}

#[test]
fn is_nan_agrees_with_doubles() {
    for &a in &samples() {
        assert_eq!(is_nan(a.to_bits()), a.is_nan());
    }
}

#[test]
fn negate_agrees_with_doubles() {
    for &a in &samples() {
        assert_eq!(negate(a.to_bits()), (-a).to_bits());
    }
}

#[test]
fn zeros_are_equal_as_numbers() {
    let plus = 0.0f64.to_bits();
    let minus = (-0.0f64).to_bits();
    assert!(!lt(plus, minus));
    assert!(!lt(minus, plus));
    assert!(!gt(plus, minus));
}

#[test]
fn nan_is_in_no_order() {
    let nan = f64::NAN.to_bits();
    assert!(!lt(nan, nan));
    assert!(!lt(nan, 1.0f64.to_bits()));
    assert!(!lt(1.0f64.to_bits(), nan));
    assert!(!gt(nan, f64::NEG_INFINITY.to_bits()));
}

#[test]
fn judge_rejects_above_one() {
    assert_eq!(judge(1.5f64.to_bits()), StepVerdict::Rejected);
    assert_eq!(judge((1.0 + f64::EPSILON).to_bits()), StepVerdict::Rejected);
    assert_eq!(judge(f64::INFINITY.to_bits()), StepVerdict::Rejected);
}

#[test]
fn judge_keeps_the_step_between_one_half_and_one() {
    assert_eq!(judge(1.0f64.to_bits()), StepVerdict::Accepted);
    assert_eq!(judge(0.75f64.to_bits()), StepVerdict::Accepted);
    assert_eq!(judge(0.5f64.to_bits()), StepVerdict::Accepted);
}

#[test]
fn judge_grows_below_one_half() {
    assert_eq!(judge(0.49f64.to_bits()), StepVerdict::AcceptedAndGrown);
    assert_eq!(judge(0.0f64.to_bits()), StepVerdict::AcceptedAndGrown);
    assert_eq!(judge(f64::from_bits(1).to_bits()), StepVerdict::AcceptedAndGrown);
}

#[test]
fn judge_accepts_an_error_that_is_no_number() {
    assert_eq!(judge(f64::NAN.to_bits()), StepVerdict::Accepted);
    assert_eq!(judge((-f64::NAN).to_bits()), StepVerdict::Accepted);
}

#[test]
fn max_norm_is_the_largest_error() {
    let errors = [0.25f64, 3.5, 0.0, 1.0].map(f64::to_bits);
    assert_eq!(f64::from_bits(max_norm(&errors)), 3.5);
    let errors = [0.25f64, 0.125, 0.0, 0.3].map(f64::to_bits);
    assert_eq!(f64::from_bits(max_norm(&errors)), 0.3);
    let errors = [7.0f64].map(f64::to_bits);
    assert_eq!(f64::from_bits(max_norm(&errors)), 7.0);
}

#[test]
fn max_norm_of_nothing_is_no_number() {
    assert_eq!(max_norm(&[]), f64::NAN.to_bits());
}

#[test]
fn max_norm_forgets_an_early_nan_and_keeps_a_late_one() {
    let early = [f64::NAN, 0.5, 0.25, 0.125].map(f64::to_bits);
    assert_eq!(f64::from_bits(max_norm(&early)), 0.5);
    let middle = [2.0, f64::NAN, 0.25, 0.125].map(f64::to_bits);
    assert_eq!(f64::from_bits(max_norm(&middle)), 0.25);
    let late = [2.0, 0.5, 0.25, f64::NAN].map(f64::to_bits);
    assert!(f64::from_bits(max_norm(&late)).is_nan());
}

#[test]
fn max_norm_agrees_with_the_fold_over_doubles() {
    let values = samples();
    for &a in &values {
        for &b in &values {
            for &c in &[0.0, 0.75, f64::NAN, f64::INFINITY] {
                let errors = [a, b, c, 0.5];
                let folded = errors.iter().fold(f64::NAN, |m, e| if m > *e { m } else { *e });
                assert_eq!(max_norm(&errors.map(f64::to_bits)), folded.to_bits());
            }
        }
    }
}

#[test]
fn maximum_and_minimum_agree_with_doubles() {
    for &a in &samples() {
        for &b in &samples() {
            let (most, least) = (maximum(a.to_bits(), b.to_bits()), minimum(a.to_bits(), b.to_bits()));
            if a.is_nan() && b.is_nan() {
                assert!(is_nan(most) && is_nan(least));
            } else if a == b {
                assert_eq!(f64::from_bits(most), a.max(b));
                assert_eq!(f64::from_bits(least), a.min(b));
            } else {
                assert_eq!(most, a.max(b).to_bits());
                assert_eq!(least, a.min(b).to_bits());
            }
        }
    }
}

#[test]
fn maximum_and_minimum_ignore_what_is_no_number() {
    let nan = f64::NAN.to_bits();
    let two = 2.0f64.to_bits();
    assert_eq!(maximum(nan, two), two);
    assert_eq!(maximum(two, nan), two);
    assert_eq!(minimum(nan, two), two);
    assert_eq!(minimum(two, nan), two);
}

#[test]
fn shrink_factor_is_at_least_a_fifth() {
    assert_eq!(f64::from_bits(shrink_factor(0.75f64.to_bits())), 0.75);
    assert_eq!(f64::from_bits(shrink_factor(0.2f64.to_bits())), 0.2);
    assert_eq!(f64::from_bits(shrink_factor(0.05f64.to_bits())), 0.2);
    assert_eq!(f64::from_bits(shrink_factor(0.0f64.to_bits())), 0.2);
    assert_eq!(f64::from_bits(shrink_factor(f64::NAN.to_bits())), 0.2);
}

#[test]
fn growth_factor_is_at_most_five() {
    assert_eq!(f64::from_bits(growth_factor(1.25f64.to_bits())), 1.25);
    assert_eq!(f64::from_bits(growth_factor(5.0f64.to_bits())), 5.0);
    assert_eq!(f64::from_bits(growth_factor(80.0f64.to_bits())), 5.0);
    assert_eq!(f64::from_bits(growth_factor(f64::INFINITY.to_bits())), 5.0);
    assert_eq!(f64::from_bits(growth_factor(f64::NAN.to_bits())), 5.0);
}

#[test]
fn next_step_is_capped() {
    assert_eq!(f64::from_bits(capped_step(0.05f64.to_bits(), 0.1f64.to_bits())), 0.05);
    assert_eq!(f64::from_bits(capped_step(0.25f64.to_bits(), 0.1f64.to_bits())), 0.1);
    assert_eq!(f64::from_bits(capped_step(0.1f64.to_bits(), 0.1f64.to_bits())), 0.1);
}
