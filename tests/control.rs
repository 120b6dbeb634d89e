use numerics::damping::{DampedAction, DampedEvent, DampedNewton, DEFAULT_FLOOR_DEN, DEFAULT_FLOOR_NUM};
use numerics::iteration::{PlainAction, PlainNewton, DEFAULT_MAX_ITERATIONS};

#[test]
fn floor_exponent_of_default_floor() {
    let c = DampedNewton::new(DEFAULT_FLOOR_NUM, DEFAULT_FLOOR_DEN).unwrap();
    // 2^-9 ≈ 1.95e-3 is admitted, 2^-10 ≈ 9.8e-4 is below 1e-3.
    assert_eq!(c.floor_exp, 9);
    assert_eq!(c.lambda_exp, 0);
    assert_eq!(c.action(), DampedAction::Linearize);
}

#[test]
fn floor_exponent_of_other_floors() {
    assert_eq!(DampedNewton::new(1, 1).unwrap().floor_exp, 0);
    assert_eq!(DampedNewton::new(1, 2).unwrap().floor_exp, 1);
    assert_eq!(DampedNewton::new(3, 1000).unwrap().floor_exp, 8);
    assert_eq!(DampedNewton::new(1, u64::MAX).unwrap().floor_exp, 63);
}

#[test]
fn floor_outside_unit_interval_is_refused() {
    assert!(DampedNewton::new(0, 1).is_none());
    assert!(DampedNewton::new(2, 1).is_none());
}

#[test]
fn damping_never_goes_below_floor() {
    let mut c = DampedNewton::new(1, 1000).unwrap();
    assert_eq!(c.handle(DampedEvent::Linearized), DampedAction::Trial { halvings: 0 });
    let mut seen = vec![0u32];
    loop {
        match c.handle(DampedEvent::Rejected) {
            DampedAction::Trial { halvings } => seen.push(halvings),
            DampedAction::Failed => break,
            other => panic!("unexpected action {:?}", other),
        }
    }
    assert_eq!(seen, (0..=9).collect::<Vec<u32>>());
    for k in &seen {
        assert!(0.5f64.powi(*k as i32) >= 1e-3);
    }
    assert!(0.5f64.powi(10) < 1e-3);
    assert_eq!(c.action(), DampedAction::Failed);
}

#[test]
fn accepted_factor_doubles_capped_at_one() {
    let mut c = DampedNewton::new(1, 1000).unwrap();
    c.handle(DampedEvent::Linearized);
    c.handle(DampedEvent::Rejected);
    c.handle(DampedEvent::Rejected);
    assert_eq!(c.action(), DampedAction::Trial { halvings: 2 });
    assert_eq!(c.handle(DampedEvent::Accepted { converged: false }), DampedAction::Linearize);
    // λ = 1/4 was accepted: the next search starts at 1/2.
    assert_eq!(c.handle(DampedEvent::Linearized), DampedAction::Trial { halvings: 1 });
    c.handle(DampedEvent::Accepted { converged: false });
    assert_eq!(c.handle(DampedEvent::Linearized), DampedAction::Trial { halvings: 0 });
    c.handle(DampedEvent::Accepted { converged: false });
    assert_eq!(c.handle(DampedEvent::Linearized), DampedAction::Trial { halvings: 0 });
    assert_eq!(c.handle(DampedEvent::Accepted { converged: true }), DampedAction::Converged);
}

#[test]
fn out_of_turn_event_is_ignored() {
    let mut c = DampedNewton::new(1, 1000).unwrap();
    assert_eq!(c.handle(DampedEvent::Rejected), DampedAction::Linearize);
    assert_eq!(c.handle(DampedEvent::Accepted { converged: true }), DampedAction::Linearize);
    c.handle(DampedEvent::Linearized);
    assert_eq!(c.handle(DampedEvent::Linearized), DampedAction::Trial { halvings: 0 });
}

fn damped_scalar(f: impl Fn(f64) -> f64, jf: impl Fn(f64) -> f64, mut x: f64) -> Option<(f64, Vec<u32>)> {
    let (rtol, atol) = (1e-4, 1e-6);
    let mut c = DampedNewton::new(DEFAULT_FLOOR_NUM, DEFAULT_FLOOR_DEN).unwrap();
    let mut trials = Vec::new();
    let (mut j, mut delta) = (1.0, 0.0);
    let mut action = c.action();
    loop {
        action = match action {
            DampedAction::Linearize => {
                j = jf(x);
                delta = f(x) / j;
                c.handle(DampedEvent::Linearized)
            }
            DampedAction::Trial { halvings } => {
                trials.push(halvings);
                let lambda = 0.5f64.powi(halvings as i32);
                let cand = x - lambda * delta;
                let dc = (f(cand) / j).abs();
                if dc < (1.0 - lambda / 2.0) * delta.abs() {
                    x = cand;
                    let converged = dc < rtol * x.abs() || dc < atol;
                    c.handle(DampedEvent::Accepted { converged })
                } else {
                    c.handle(DampedEvent::Rejected)
                }
            }
            DampedAction::Converged => return Some((x, trials)),
            DampedAction::Failed => return None,
        }
    }
}

#[test]
fn damped_newton_square_root_of_three() {
    let (x, trials) = damped_scalar(|x| x * x - 3.0, |x| 2.0 * x, 2.0).unwrap();
    // The last accepted correction met rtol = 1e-4 relative to x.
    assert!((x - 1.7320508).abs() < 1e-4 * x.abs());
    assert!(trials.len() >= 2);
    assert!(trials.iter().all(|k| *k <= 9));
}

#[test]
fn damped_newton_fails_without_admissible_step() {
    // x² + 1 has no real root: the search runs out of damping.
    assert!(damped_scalar(|x| x * x + 1.0, |x| 2.0 * x, 0.5).is_none());
}

#[test]
fn plain_budget_default_and_zero() {
    assert_eq!(DEFAULT_MAX_ITERATIONS, 10000);
    let c = PlainNewton::new(0);
    assert_eq!(c.action(), PlainAction::Exhausted);
    let c = PlainNewton::new(DEFAULT_MAX_ITERATIONS);
    assert_eq!(c.action(), PlainAction::Step);
}

#[test]
fn plain_gives_up_after_budget() {
    let mut c = PlainNewton::new(3);
    assert_eq!(c.handle(false), PlainAction::Step);
    assert_eq!(c.handle(false), PlainAction::Step);
    assert_eq!(c.handle(false), PlainAction::Exhausted);
    assert_eq!(c.taken, 3);
    assert_eq!(c.handle(true), PlainAction::Exhausted);
    assert_eq!(c.taken, 3);
}

#[test]
fn plain_at_exact_root_converges_in_one_step() {
    // Linear system A x = b started at its root: F(x) = 0, so δ = 0.
    let a: [[f64; 2]; 2] = [[2.0, 1.0], [1.0, 3.0]];
    let root: [f64; 2] = [1.0, -2.0];
    let b = [a[0][0] * root[0] + a[0][1] * root[1], a[1][0] * root[0] + a[1][1] * root[1]];
    let mut x = root;
    let mut c = PlainNewton::new(DEFAULT_MAX_ITERATIONS);
    while c.action() == PlainAction::Step {
        let r = [a[0][0] * x[0] + a[0][1] * x[1] - b[0], a[1][0] * x[0] + a[1][1] * x[1] - b[1]];
        let det = a[0][0] * a[1][1] - a[0][1] * a[1][0];
        let d = [(a[1][1] * r[0] - a[0][1] * r[1]) / det, (a[0][0] * r[1] - a[1][0] * r[0]) / det];
        x = [x[0] - d[0], x[1] - d[1]];
        let dn = (d[0] * d[0] + d[1] * d[1]).sqrt();
        let xn = (x[0] * x[0] + x[1] * x[1]).sqrt();
        c.handle(dn < 1e-6 || dn < 1e-4 * xn);
    }
    assert_eq!(c.action(), PlainAction::Converged);
    assert_eq!(c.taken, 1);
    assert_eq!(x, root);
}
