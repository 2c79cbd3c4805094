use rustybrain::bandit::ucb1::Ucb1;
use rustybrain::bandit::{BanditError, UNIT};

fn units(x: f64) -> i64 {
    (x * UNIT as f64).round() as i64
}

/// Each arm's exploration bonus `c * sqrt(2 ln(total) / count)` in reward units
/// (zero while some arm is untried, when the bonus is not read).
fn bonuses(agent: &Ucb1) -> Vec<i64> {
    let counts = agent.counts();
    if counts.iter().any(|&n| n == 0) {
        return vec![0; counts.len()];
    }
    let t = agent.total_pulls() as f64;
    let c = agent.c() as f64;
    counts
        .iter()
        .map(|&n| (c * (2.0 * t.ln() / n as f64).sqrt()).round() as i64)
        .collect()
}

fn select(agent: &Ucb1) -> usize {
    agent.select_arm(&bonuses(agent))
}

#[test]
fn test_initial_selection_cycles_through_arms() {
    let mut agent = Ucb1::new(3, units(2.0)).unwrap();
    // Each time we select an arm, mark it as pulled.
    let mut seen = vec![false; 3];
    for _ in 0..3 {
        let arm = select(&agent);
        seen[arm] = true;
        agent.update(arm, units(1.0));
    }
    // After 3 updates, all arms should have been explored once.
    assert!(seen.iter().all(|&v| v), "all arms should be tried once");
}

#[test]
fn test_update_and_exploitation() {
    let mut agent = Ucb1::new(2, units(2.0)).unwrap();
    agent.update(0, units(1.0));
    agent.update(0, units(1.0));
    agent.update(1, units(0.1));
    // Arm 0 has higher mean; should be selected next.
    let arm = select(&agent);
    assert_eq!(arm, 0);
}

#[test]
fn test_deterministic_behavior() {
    let mut a1 = Ucb1::new(3, units(2.0)).unwrap();
    let mut a2 = Ucb1::new(3, units(2.0)).unwrap();

    for _ in 0..10 {
        let arm1 = select(&a1);
        let arm2 = select(&a2);
        assert_eq!(arm1, arm2);
        a1.update(arm1, units(1.0));
        a2.update(arm2, units(1.0));
    }
}

#[test]
fn test_average_updates_correctly() {
    let mut agent = Ucb1::new(1, units(2.0)).unwrap();
    agent.update(0, units(1.0));
    agent.update(0, units(3.0));
    assert_eq!(agent.values()[0], units(2.0));
    assert_eq!(agent.counts()[0], 2);
}

#[test]
fn ucb1_cold_start_visits_arms_in_order() {
    let mut agent = Ucb1::new(3, units(0.5)).unwrap();
    let mut visited = Vec::new();
    for _ in 0..3 {
        let arm = select(&agent);
        visited.push(arm);
        agent.update(arm, units(1.0));
    }
    assert_eq!(visited, vec![0, 1, 2]);
    assert_eq!(agent.cold_start_arm(), None);
    assert_eq!(agent.total_pulls(), 3);
}

#[test]
fn ucb1_cold_start_ignores_bonuses() {
    let mut agent = Ucb1::new(3, units(1.0)).unwrap();
    agent.update(0, units(9.0));
    assert_eq!(agent.select_arm(&[100, 0, 0]), 1);
    assert_eq!(agent.cold_start_arm(), Some(1));
}

#[test]
fn ucb1_bonus_can_outweigh_mean() {
    let mut agent = Ucb1::new(2, units(1.0)).unwrap();
    agent.update(0, units(1.0));
    agent.update(1, units(0.5));
    assert_eq!(agent.select_arm(&[0, 0]), 0);
    assert_eq!(agent.select_arm(&[0, units(0.6)]), 1);
    // Equal scores go to the lower index.
    assert_eq!(agent.select_arm(&[0, units(0.5)]), 0);
}

#[test]
fn ucb1_rejects_bad_parameters() {
    assert_eq!(Ucb1::new(0, units(1.0)).err(), Some(BanditError::ZeroArms));
    assert_eq!(Ucb1::new(2, units(-0.5)).err(), Some(BanditError::NegativeExploration));
    assert!(Ucb1::new(2, 0).is_ok());
}
