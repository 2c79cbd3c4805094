use rustybrain::bandit::UNIT;
use rustybrain::registry::{RegistryError, StrategyKind, StrategyRegistry};

fn units(x: f64) -> i64 {
    (x * UNIT as f64).round() as i64
}

#[test]
fn registry_happy_path_epsilon_greedy() {
    let mut reg = StrategyRegistry::new();
    let id = reg.create("epsilon_greedy", units(0.1), 3).unwrap();
    assert_eq!(id.len(), 36);
    assert!(reg.contains(&id));
    let arm = reg.select(&id, &[]).unwrap();
    assert!(arm < 3, "arm index should be within num_arms");
    reg.update(&id, arm, units(1.0)).unwrap();
    reg.update(&id, arm, units(3.0)).unwrap();
    let st = reg.stats(&id).unwrap();
    assert_eq!(st.mean, units(2.0));
    assert_eq!(st.min, units(1.0));
    assert_eq!(st.max, units(3.0));
    assert_eq!(st.count, 2);
}

#[test]
fn registry_ucb1_stats_use_arm_means() {
    let mut reg = StrategyRegistry::new();
    let id = reg.create("ucb1", units(2.0), 3).unwrap();
    for k in 0..3 {
        assert_eq!(reg.select(&id, &[]).unwrap(), k);
        reg.update(&id, k, units(k as f64 + 1.0)).unwrap();
    }
    reg.update(&id, 2, units(1.0)).unwrap();
    let st = reg.stats(&id).unwrap();
    // Arm means are 1.0, 2.0 and 2.0.
    assert_eq!(st.min, units(1.0));
    assert_eq!(st.max, units(2.0));
    assert_eq!(st.mean, 1_666_666);
    assert_eq!(st.count, 4);
    // Once every arm was tried, UCB1 needs one bonus per arm.
    assert_eq!(reg.select(&id, &[]), Err(RegistryError::InvalidArgument));
    assert_eq!(reg.select(&id, &[0, 0, units(5.0)]), Ok(2));
    assert_eq!(reg.select(&id, &[0, units(0.5), 0]), Ok(1));
}

#[test]
fn registry_not_found() {
    let mut reg = StrategyRegistry::new();
    let id = reg.create("epsilon_greedy", units(0.0), 2).unwrap();
    let missing = "does-not-exist".to_string();
    assert_eq!(reg.select(&missing, &[]), Err(RegistryError::NotFound));
    assert_eq!(reg.update(&missing, 0, units(1.0)), Err(RegistryError::NotFound));
    assert_eq!(reg.stats(&missing), Err(RegistryError::NotFound));
    assert_eq!(reg.len(), 1);
    assert_eq!(reg.stats(&id).unwrap().count, 0);
}

#[test]
fn registry_rejects_invalid_arguments() {
    let mut reg = StrategyRegistry::new();
    assert_eq!(reg.create("thompson", units(0.1), 3), Err(RegistryError::InvalidArgument));
    assert_eq!(reg.create("epsilon_greedy", units(0.1), 0), Err(RegistryError::InvalidArgument));
    assert_eq!(reg.create("epsilon_greedy", units(1.5), 3), Err(RegistryError::InvalidArgument));
    assert_eq!(reg.create("ucb1", units(-1.0), 3), Err(RegistryError::InvalidArgument));
    assert_eq!(reg.len(), 0);
    let id = reg.create("ucb1", units(0.0), 2).unwrap();
    assert_eq!(reg.update(&id, 2, units(1.0)), Err(RegistryError::InvalidArgument));
    assert_eq!(reg.stats(&id).unwrap().count, 0);
}

#[test]
fn registry_ids_are_unique() {
    let mut reg = StrategyRegistry::new();
    let a = reg.create_with_id("a".to_string(), "ucb1", 0, 2).unwrap();
    assert_eq!(a, "a");
    assert_eq!(
        reg.create_with_id("a".to_string(), "epsilon_greedy", 0, 2),
        Err(RegistryError::DuplicateId)
    );
    let b = reg.create("epsilon_greedy", 0, 2).unwrap();
    assert_ne!(a, b);
    assert_eq!(reg.len(), 2);
}

#[test]
fn registry_entries_are_independent() {
    let mut reg = StrategyRegistry::new();
    let a = reg.create("epsilon_greedy", 0, 2).unwrap();
    let b = reg.create("epsilon_greedy", 0, 2).unwrap();
    reg.update(&a, 1, units(4.0)).unwrap();
    assert_eq!(reg.select(&a, &[]), Ok(1));
    assert_eq!(reg.select(&b, &[]), Ok(0));
    assert_eq!(reg.stats(&b).unwrap().count, 0);
}

#[test]
fn registry_tracker_window_is_bounded() {
    let mut reg = StrategyRegistry::new();
    let id = reg.create("epsilon_greedy", units(0.5), 2).unwrap();
    for i in 0..60 {
        reg.update(&id, 0, i).unwrap();
    }
    let st = reg.stats(&id).unwrap();
    assert_eq!(st.count, 50);
    assert_eq!(st.min, 10);
    assert_eq!(st.max, 59);
}

#[test]
fn strategy_kind_parsing() {
    assert_eq!(StrategyKind::parse("epsilon_greedy"), Some(StrategyKind::EpsilonGreedy));
    assert_eq!(StrategyKind::parse("ucb1"), Some(StrategyKind::Ucb1));
    assert_eq!(StrategyKind::parse("UCB1"), None);
}
