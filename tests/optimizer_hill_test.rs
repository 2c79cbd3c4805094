use rustybrain::bandit::UNIT;
use rustybrain::optimizer::HillClimber1D;
use rustybrain::optimizer::Optimizer;

fn units(x: f64) -> i64 {
    (x * UNIT as f64).round() as i64
}

fn as_real(v: i64) -> f64 {
    v as f64 / UNIT as f64
}

// Simple convex reward surface: maximum at x = 3.0
fn reward_fn(x: f64) -> f64 {
    // -(x - 3)^2 + 10
    -(x - 3.0).powi(2) + 10.0
}

#[test]
fn hill_climber_converges_near_optimum() {
    let mut opt = HillClimber1D::with_params(
        units(0.0),  // x0
        units(0.5),  // step
        units(0.01), // min_step
        units(1.1),  // grow
        units(0.5),  // shrink
    );

    // Iterate a fixed number of steps deterministically.
    for _ in 0..100 {
        let x = opt.suggest();
        let r = reward_fn(as_real(x));
        opt.observe(units(r));
    }

    let x_star = as_real(opt.param());
    assert!((x_star - 3.0).abs() < 0.2, "expected ~3.0, got {}", x_star);
}

#[test]
fn hill_climber_is_deterministic() {
    let mut a = HillClimber1D::new(units(1.0));
    let mut b = HillClimber1D::new(units(1.0));

    for _ in 0..50 {
        let xa = a.suggest();
        let xb = b.suggest();
        assert!((as_real(xa) - as_real(xb)).abs() < 1e-12);

        let ra = reward_fn(as_real(xa));
        let rb = reward_fn(as_real(xb));
        assert!((ra - rb).abs() < 1e-12);

        a.observe(units(ra));
        b.observe(units(rb));
    }

    assert!((as_real(a.param()) - as_real(b.param())).abs() < 1e-12);
}

#[test]
fn hill_climber_first_steps() {
    let mut opt = HillClimber1D::with_params(0, 100, 10, units(2.0), units(0.5));
    // First suggestion is x itself; the first observation sets the baseline.
    assert_eq!(opt.suggest(), 0);
    opt.observe(5);
    assert_eq!(opt.param(), 0);
    // An improvement is adopted and the step doubles.
    assert_eq!(opt.suggest(), 100);
    opt.observe(6);
    assert_eq!(opt.param(), 100);
    assert_eq!(opt.suggest(), 300);
    // A regression keeps x, reverses and halves the step.
    opt.observe(1);
    assert_eq!(opt.param(), 100);
    assert_eq!(opt.suggest(), 0);
    // A tie counts as an improvement.
    opt.observe(6);
    assert_eq!(opt.param(), 0);
}

#[test]
fn hill_climber_step_never_below_min() {
    let mut opt = HillClimber1D::with_params(0, 40, 30, units(1.5), units(0.5));
    opt.suggest();
    opt.observe(10);
    assert_eq!(opt.suggest(), 40);
    opt.observe(0);
    // 40 * 0.5 = 20 is below the minimum step of 30.
    assert_eq!(opt.suggest(), -30);
}

#[test]
fn hill_climber_reset_clears_history() {
    let mut opt = HillClimber1D::with_params(0, 100, 10, units(2.0), units(0.5));
    opt.suggest();
    opt.observe(1);
    opt.suggest();
    opt.observe(0);
    Optimizer::reset(&mut opt, 500);
    assert_eq!(opt.param(), 500);
    assert_eq!(opt.suggest(), 500);
    opt.observe(3);
    // Direction is up again after the reset.
    assert_eq!(opt.suggest(), 550);
}

fn one_round(o: &mut dyn Optimizer) -> i64 {
    let x = o.suggest();
    o.observe(x);
    o.param()
}

#[test]
fn hill_climber_through_the_trait() {
    let mut opt = HillClimber1D::new(units(2.0));
    assert_eq!(one_round(&mut opt), units(2.0));
}
