use rustybrain::bandit::UNIT;
use rustybrain::reward_normalizer::RewardNormalizer;

fn units(x: f64) -> i64 {
    (x * UNIT as f64).round() as i64
}

#[test]
fn test_empty_buffer_returns_neutral() {
    let rn = RewardNormalizer::new(5);
    assert!(rn.is_neutral());
}

#[test]
fn test_constant_rewards_returns_neutral() {
    let mut rn = RewardNormalizer::new(3);
    for _ in 0..3 {
        rn.update(units(10.0));
    }
    assert!(rn.is_neutral());
}

#[test]
fn normalizer_with_spread_is_informative() {
    let mut rn = RewardNormalizer::new(5);
    for i in 1..=5 {
        rn.update(units(i as f64));
    }
    assert!(!rn.is_neutral());
    assert_eq!(rn.count(), 5);
}

#[test]
fn normalizer_window_slides_back_to_neutral() {
    let mut rn = RewardNormalizer::new(3);
    rn.update(units(1.0));
    rn.update(units(2.0));
    assert!(!rn.is_neutral());
    for _ in 0..3 {
        rn.update(units(7.0));
    }
    assert_eq!(rn.values(), &[units(7.0), units(7.0), units(7.0)]);
    assert!(rn.is_neutral());
}
