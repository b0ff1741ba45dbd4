use lag_lab::generators::{workspace_bootstrap, MarketLagGenerator};

#[test]
fn workspace_builds() {
    assert!(workspace_bootstrap());
}

#[test]
fn lag_stays_within_expected_bounds_when_base_is_less_than_jitter() {
    let base = 10_u64;
    let jitter = 50_u64;
    let min = base.saturating_sub(jitter);
    let max = base.saturating_add(jitter);
    let mut lag = MarketLagGenerator::new(7, base, jitter);

    for _ in 0..1_000 {
        let sample = lag.next_lag_ms();
        assert!((min..=max).contains(&sample));
    }
}

#[test]
fn lag_near_u64_max_stays_within_bounds() {
    let base = u64::MAX - 4;
    let jitter = 10_u64;
    let min = base.saturating_sub(jitter);
    let max = base.saturating_add(jitter);
    let mut lag = MarketLagGenerator::new(99, base, jitter);

    for _ in 0..1_000 {
        let sample = lag.next_lag_ms();
        assert!((min..=max).contains(&sample));
    }
}

#[test]
fn seeded_lag_generators_are_deterministic() {
    let mut lag_a = MarketLagGenerator::new(42, 100, 40);
    let mut lag_b = MarketLagGenerator::new(42, 100, 40);

    let ticks_a: Vec<u64> = (0..10).map(|_| lag_a.next_lag_ms()).collect();
    let ticks_b: Vec<u64> = (0..10).map(|_| lag_b.next_lag_ms()).collect();

    assert_eq!(ticks_a, ticks_b);
}

#[test]
fn zero_jitter_always_returns_the_base_lag() {
    let mut lag = MarketLagGenerator::new(5, 120, 0);
    for _ in 0..10 {
        assert_eq!(lag.next_lag_ms(), 120);
    }
}
