//! The classifier and the tableau driven by a double-precision pendulum.

use pendulum_basins::classifier::{
    IntegrationResult, Observation, Region, Tracker, ATTRACTOR_TOLERANCE_BITS, INITIAL_STEP_BITS,
};
use pendulum_basins::control::{
    capped_step, growth_factor, judge, max_norm, shrink_factor, StepVerdict,
    GROWTH_EXPONENT_BITS, SAFETY_BITS, SHRINK_EXPONENT_BITS,
};
use pendulum_basins::tableau::{coupling, fifth_order_weight, fourth_order_weight, Ratio, STAGES};

struct Pendulum {
    height: f64,
    mass: f64,
    gravity: f64,
    drag: f64,
    length: f64,
    attractors: Vec<(f64, f64, f64)>,
}

struct Tolerances {
    rel_tol: f64,
    abs_tol: f64,
    max_step_size: f64,
}

fn double(ratio: Ratio) -> f64 {
    ratio.num as f64 / ratio.den as f64
}

fn gravity_term(system: &Pendulum, x: &[f64; 4]) -> f64 {
    let sqrt_term = (1.0 - (x[0] * x[0] + x[1] * x[1]) / (system.length * system.length)).sqrt();
    -(system.gravity / system.length) * sqrt_term
}

fn evaluate(system: &Pendulum, x: &[f64; 4]) -> [f64; 4] {
    let sqrt_term = (1.0 - (x[0] * x[0] + x[1] * x[1]) / (system.length * system.length)).sqrt();
    let gravity_term = -(system.gravity / system.length) * sqrt_term;
    let plane_offset = system.height + system.length * (1.0 - sqrt_term);
    let mut x_force = 0.0;
    let mut y_force = 0.0;
    for &(ax, ay, coefficient) in &system.attractors {
        let dx = x[0] - ax;
        let dy = x[1] - ay;
        let factor = -coefficient / (dx * dx + dy * dy + plane_offset * plane_offset).powf(1.5);
        x_force += dx * factor;
        y_force += dy * factor;
    }
    [
        x[2],
        x[3],
        x[0] * gravity_term + (-system.drag * x[2] + x_force) / system.mass,
        x[1] * gravity_term + (-system.drag * x[3] + y_force) / system.mass,
    ]
}

fn do_step(
    tolerances: &Tolerances,
    system: &Pendulum,
    x: &mut [f64; 4],
    t: &mut f64,
    h: &mut f64,
) -> bool {
    let mut k = [[0.0; 4]; 6];
    k[0] = evaluate(system, x);
    for s in 1..STAGES {
        let mut state = [0.0; 4];
        for i in 0..4 {
            let mut sum = double(coupling(s, 0)) * k[0][i];
            for j in 1..s {
                sum += double(coupling(s, j)) * k[j][i];
            }
            state[i] = x[i] + *h * sum;
        }
        k[s] = evaluate(system, &state);
    }
    let mut candidate = [0.0; 4];
    let mut scaled_errors = [0u64; 4];
    for i in 0..4 {
        let mut fifth = 0.0;
        let mut difference = 0.0;
        for j in 0..STAGES {
            let b5 = double(fifth_order_weight(j));
            let b4 = double(fourth_order_weight(j));
            fifth += b5 * k[j][i];
            difference += (b5 - b4) * k[j][i];
        }
        candidate[i] = x[i] + *h * fifth;
        let scale = tolerances.abs_tol + tolerances.rel_tol * candidate[i].abs();
        scaled_errors[i] = ((*h * difference).abs() / scale).to_bits();
    }
    let max_error = f64::from_bits(max_norm(&scaled_errors));
    let safety = f64::from_bits(SAFETY_BITS);
    match judge(max_error.to_bits()) {
        StepVerdict::Rejected => {
            let factor = safety * max_error.powf(f64::from_bits(SHRINK_EXPONENT_BITS));
            *h *= f64::from_bits(shrink_factor(factor.to_bits()));
            false
        }
        StepVerdict::AcceptedAndGrown => {
            *t += *h;
            *x = candidate;
            let factor = safety * max_error.powf(f64::from_bits(GROWTH_EXPONENT_BITS));
            let grown = *h * f64::from_bits(growth_factor(factor.to_bits()));
            *h = f64::from_bits(capped_step(grown.to_bits(), tolerances.max_step_size.to_bits()));
            true
        }
        StepVerdict::Accepted => {
            *t += *h;
            *x = candidate;
            true
        }
    }
}

fn regions_of(system: &Pendulum) -> Vec<Region> {
    let tol = f64::from_bits(ATTRACTOR_TOLERANCE_BITS);
    system
        .attractors
        .iter()
        .map(|&(ax, ay, _)| Region {
            x_low: (ax - tol).to_bits(),
            x_high: (ax + tol).to_bits(),
            y_low: (ay - tol).to_bits(),
            y_high: (ay + tol).to_bits(),
        })
        .collect()
}

fn integrate_point(
    tolerances: &Tolerances,
    system: &Pendulum,
    point: &mut [f64; 4],
) -> (IntegrationResult, u32) {
    let mut time = 0.0;
    let mut step_size = f64::from_bits(INITIAL_STEP_BITS);
    let mut tracker = Tracker::new(regions_of(system));
    while !tracker.exhausted() {
        let accepted = do_step(tolerances, system, point, &mut time, &mut step_size);
        let observation = Observation {
            accepted,
            time: time.to_bits(),
            x: point[0].to_bits(),
            y: point[1].to_bits(),
            elapsed: (time - f64::from_bits(tracker.region_entry_time())).to_bits(),
        };
        if let Some(result) = tracker.observe(observation) {
            return (result, tracker.trial_count());
        }
    }
    (tracker.finish(), tracker.trial_count())
}

fn three_magnets() -> Pendulum {
    Pendulum {
        height: 0.05,
        mass: 1.0,
        gravity: 9.8,
        drag: 0.2,
        length: 10.0,
        attractors: vec![(-0.5, 0.8660254, 1.0), (-0.5, -0.8660254, 1.0), (1.0, 0.0, 1.0)],
    }
}

fn fine_tolerances() -> Tolerances {
    Tolerances { rel_tol: 1e-6, abs_tol: 1e-6, max_step_size: 0.1 }
}

#[test]
fn without_attractors_the_model_is_a_damped_pendulum() {
    let system = Pendulum {
        height: 0.05,
        mass: 2.0,
        gravity: 9.8,
        drag: 0.2,
        length: 10.0,
        attractors: Vec::new(),
    };
    let state = [0.75, -1.25, 0.5, -0.125];
    let derivative = evaluate(&system, &state);
    let gravity = gravity_term(&system, &state);
    assert_eq!(derivative[0], 0.5);
    assert_eq!(derivative[1], -0.125);
    assert_eq!(derivative[2], state[0] * gravity - system.drag * state[2] / system.mass);
    assert_eq!(derivative[3], state[1] * gravity - system.drag * state[3] / system.mass);
}

#[test]
fn rejected_step_shrinks_within_bounds() {
    let system = three_magnets();
    let before = [3.0, 2.0, 0.0, 0.0];
    let mut state = before;
    let mut time = 1.5;
    let mut step = 0.5;
    let accepted = do_step(&fine_tolerances(), &system, &mut state, &mut time, &mut step);
    assert!(!accepted);
    assert_eq!(state, before);
    assert_eq!(time, 1.5);
    assert!(0.2 * 0.5 <= step && step <= 0.5);
}

#[test]
fn accepted_step_grows_within_bounds() {
    let system = three_magnets();
    let tolerances = fine_tolerances();
    let mut state = [0.001, 0.001, 0.0, 0.0];
    let mut time = 0.0;
    let mut step = 1e-4;
    let accepted = do_step(&tolerances, &system, &mut state, &mut time, &mut step);
    assert!(accepted);
    assert_eq!(time, 1e-4);
    assert!(step >= 1e-4);
    assert!(step <= tolerances.max_step_size.min(5.0 * 1e-4));
}

#[test]
fn step_is_repeatable() {
    let system = three_magnets();
    let tolerances = fine_tolerances();
    let mut first = ([0.3, -0.4, 0.1, 0.2], 0.0, 0.01);
    let mut second = first;
    let a = do_step(&tolerances, &system, &mut first.0, &mut first.1, &mut first.2);
    let b = do_step(&tolerances, &system, &mut second.0, &mut second.1, &mut second.2);
    assert_eq!(a, b);
    assert_eq!(first.0.map(f64::to_bits), second.0.map(f64::to_bits));
    assert_eq!(first.1.to_bits(), second.1.to_bits());
    assert_eq!(first.2.to_bits(), second.2.to_bits());
}

#[test]
fn start_on_an_attractor_settles_there() {
    let system = three_magnets();
    let mut point = [1.0, 0.0, 0.0, 0.0];
    let (result, trials) = integrate_point(&fine_tolerances(), &system, &mut point);
    assert_eq!(result.converge_result, 2);
    assert!(f64::from_bits(result.converge_time) > 5.0);
    assert!(result.step_count <= trials);
    assert!(trials < 1000);
}

#[test]
fn start_on_a_lone_attractor_settles_at_index_zero() {
    let system = Pendulum {
        height: 0.05,
        mass: 1.0,
        gravity: 9.8,
        drag: 0.2,
        length: 10.0,
        attractors: vec![(1.0, 0.0, 1.0)],
    };
    let mut point = [1.0, 0.0, 0.0, 0.0];
    let (result, trials) = integrate_point(&fine_tolerances(), &system, &mut point);
    assert_eq!(result.converge_result, 0);
    assert!(trials < 1000);
}

#[test]
fn near_unstable_start_ends_within_the_budget() {
    let system = three_magnets();
    let mut point = [0.001, 0.001, 0.0, 0.0];
    let (result, trials) = integrate_point(&fine_tolerances(), &system, &mut point);
    assert!(trials <= 1000);
    assert!(result.step_count <= trials);
    assert!((-2..=2).contains(&result.converge_result));
}

#[test]
fn classification_of_a_point_is_repeatable() {
    let system = three_magnets();
    let tolerances = fine_tolerances();
    let mut first = [0.7, -0.3, 0.0, 0.0];
    let mut second = first;
    let a = integrate_point(&tolerances, &system, &mut first);
    let b = integrate_point(&tolerances, &system, &mut second);
    assert_eq!(a, b);
    assert_eq!(first.map(f64::to_bits), second.map(f64::to_bits));
}

#[test]
fn leaving_the_sphere_never_aborts() {
    let system = three_magnets();
    let mut point = [20.0, 0.0, 0.0, 0.0];
    let (result, trials) = integrate_point(&fine_tolerances(), &system, &mut point);
    assert_eq!(trials, 1000);
    assert_eq!(result.converge_result, -2);
}
