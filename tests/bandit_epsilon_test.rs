use rustybrain::bandit::epsilon_greedy::EpsilonGreedy;
use rustybrain::bandit::{BanditError, UNIT};

fn units(x: f64) -> i64 {
    (x * UNIT as f64).round() as i64
}

#[test]
fn test_initialization() {
    let agent = EpsilonGreedy::new(3, units(0.1)).unwrap();
    assert_eq!(agent.counts().len(), 3);
    assert_eq!(agent.values().len(), 3);
}

#[test]
fn test_exploitation_when_epsilon_zero() {
    let mut agent = EpsilonGreedy::new(3, units(0.0)).unwrap();
    // Manually bias arm 2
    agent.update(2, units(10.0));
    agent.update(1, units(1.0));
    agent.update(0, units(1.0));
    // Should always pick the best arm (index 2)
    for _ in 0..20 {
        let arm = agent.select_arm();
        assert_eq!(arm, 2);
    }
}

#[test]
fn test_exploration_when_epsilon_high() {
    let mut agent = EpsilonGreedy::new(3, units(1.0)).unwrap();
    let mut seen = vec![false; 3];
    for _ in 0..100 {
        let arm = agent.select_arm();
        seen[arm] = true;
    }
    assert!(seen.iter().all(|&s| s), "All arms should be explored");
}

#[test]
fn test_reward_update_increments_average() {
    let mut agent = EpsilonGreedy::new(1, units(0.1)).unwrap();
    agent.update(0, units(1.0));
    agent.update(0, units(3.0));
    // avg should be (1 + 3) / 2 = 2.0
    assert_eq!(agent.values()[0], units(2.0));
    assert_eq!(agent.counts()[0], 2);
}

#[test]
fn test_deterministic_behavior_with_seed() {
    let mut agent1 = EpsilonGreedy::new(3, units(0.5)).unwrap();
    let mut agent2 = EpsilonGreedy::new(3, units(0.5)).unwrap();
    let sequence1: Vec<_> = (0..10).map(|_| agent1.select_arm()).collect();
    let sequence2: Vec<_> = (0..10).map(|_| agent2.select_arm()).collect();
    assert_eq!(sequence1, sequence2, "Deterministic RNG ensures reproducibility");
}

#[test]
fn epsilon_greedy_rejects_bad_parameters() {
    assert_eq!(EpsilonGreedy::new(0, units(0.1)).err(), Some(BanditError::ZeroArms));
    assert_eq!(EpsilonGreedy::new(3, units(1.5)).err(), Some(BanditError::EpsilonOutOfRange));
    assert_eq!(EpsilonGreedy::new(3, units(-0.1)).err(), Some(BanditError::EpsilonOutOfRange));
    assert!(EpsilonGreedy::new(3, units(1.0)).is_ok());
}

#[test]
fn epsilon_zero_ties_go_to_lowest_index() {
    let mut agent = EpsilonGreedy::new(4, 0).unwrap();
    agent.update(1, units(5.0));
    agent.update(3, units(5.0));
    for _ in 0..10 {
        assert_eq!(agent.select_arm(), 1);
    }
    assert_eq!(agent.exploit_arm(), 1);
}

#[test]
fn epsilon_zero_compares_exact_means() {
    // Arm 0 averages 1.5 over two pulls, arm 1 averages 1.4 over five.
    let mut agent = EpsilonGreedy::new(2, 0).unwrap();
    agent.update(0, units(1.0));
    agent.update(0, units(2.0));
    for _ in 0..4 {
        agent.update(1, units(1.5));
    }
    agent.update(1, units(1.0));
    assert_eq!(agent.select_arm(), 0);
    assert_eq!(agent.sums(), &[units(3.0) as i128, units(7.0) as i128]);
}

#[test]
fn constant_reward_mean_is_exact() {
    let mut agent = EpsilonGreedy::new(2, units(0.3)).unwrap();
    for _ in 0..7 {
        agent.update(1, units(0.7));
    }
    assert_eq!(agent.values(), vec![0, units(0.7)]);
    assert_eq!(agent.counts(), &[0, 7]);
}

#[test]
fn negative_mean_rounds_down() {
    let mut agent = EpsilonGreedy::new(1, 0).unwrap();
    agent.update(0, -1);
    agent.update(0, -2);
    assert_eq!(agent.values(), vec![-2]);
}

#[test]
fn seeds_can_be_chosen() {
    let mut a = EpsilonGreedy::with_seed(5, units(1.0), 7).unwrap();
    let mut b = EpsilonGreedy::with_seed(5, units(1.0), 7).unwrap();
    let sa: Vec<usize> = (0..20).map(|_| a.select_arm()).collect();
    let sb: Vec<usize> = (0..20).map(|_| b.select_arm()).collect();
    assert_eq!(sa, sb);
    assert!(sa.iter().all(|&k| k < 5));
    assert!(sa.iter().any(|&k| k != sa[0]));
}

#[test]
fn choose_arm_explores_below_epsilon() {
    let mut agent = EpsilonGreedy::new(3, units(0.25)).unwrap();
    agent.update(1, units(2.0));
    // A draw below epsilon takes the explored arm, otherwise the greedy one.
    assert_eq!(agent.choose_arm(0, 2), 2);
    assert_eq!(agent.choose_arm(249_999, 0), 0);
    assert_eq!(agent.choose_arm(250_000, 2), 1);
    assert_eq!(agent.choose_arm(999_999, 0), 1);
}
