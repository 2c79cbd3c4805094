use rustybrain::bandit::UNIT;
use rustybrain::metrics::reward_tracker::RewardTracker;

fn units(x: f64) -> i64 {
    (x * UNIT as f64).round() as i64
}

#[test]
fn test_empty_tracker() {
    let rt = RewardTracker::new(3);
    assert_eq!(rt.count(), 0);
    assert_eq!(rt.mean(), units(0.0));
    assert_eq!(rt.min(), units(0.0));
    assert_eq!(rt.max(), units(0.0));
}

#[test]
fn test_basic_stats() {
    let mut rt = RewardTracker::new(3);
    rt.update(units(1.0));
    rt.update(units(2.0));
    rt.update(units(3.0));

    assert_eq!(rt.mean(), units(2.0));
    assert_eq!(rt.min(), units(1.0));
    assert_eq!(rt.max(), units(3.0));
}

#[test]
fn test_window_rolls_over() {
    let mut rt = RewardTracker::new(3);
    for i in 1..=5 {
        rt.update(units(i as f64));
    }
    // now holds [3.0, 4.0, 5.0]
    assert_eq!(rt.values(), &[units(3.0), units(4.0), units(5.0)]);
    assert_eq!(rt.mean(), units(4.0));
    assert_eq!(rt.min(), units(3.0));
    assert_eq!(rt.max(), units(5.0));
    assert_eq!(rt.count(), 3);
}

#[test]
fn tracker_mean_rounds_down() {
    let mut rt = RewardTracker::new(4);
    rt.update(1);
    rt.update(2);
    assert_eq!(rt.mean(), 1);
    rt.update(-4);
    assert_eq!(rt.mean(), -1);
    assert_eq!(rt.min(), -4);
    assert_eq!(rt.max(), 2);
}

#[test]
fn tracker_handles_extreme_rewards() {
    let mut rt = RewardTracker::new(2);
    rt.update(i64::MAX);
    rt.update(i64::MAX);
    assert_eq!(rt.mean(), i64::MAX);
    rt.update(i64::MIN);
    assert_eq!(rt.mean(), -1);
    assert_eq!(rt.min(), i64::MIN);
}

#[test]
fn tracker_count_never_exceeds_window() {
    let mut rt = RewardTracker::new(2);
    for i in 0..10 {
        rt.update(i);
        assert!(rt.count() <= 2);
    }
    assert_eq!(rt.values(), &[8, 9]);
}
