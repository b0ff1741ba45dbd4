use lag_lab::benchmark::{calculate_orders_per_sec, meets_target_orders_per_sec};

#[test]
fn calculates_orders_per_second_from_elapsed_nanos() {
    let achieved = calculate_orders_per_sec(1_500, 1_000_000_000);
    assert_eq!(achieved, 1_500);
}

#[test]
fn handles_sub_second_windows() {
    let achieved = calculate_orders_per_sec(500, 250_000_000);
    assert_eq!(achieved, 2_000);
}

#[test]
fn zero_elapsed_nanos_returns_zero() {
    let achieved = calculate_orders_per_sec(500, 0);
    assert_eq!(achieved, 0);
}

#[test]
fn meets_target_when_achieved_is_equal_or_greater() {
    assert!(meets_target_orders_per_sec(1_000, 1_000));
    assert!(meets_target_orders_per_sec(1_001, 1_000));
    assert!(!meets_target_orders_per_sec(999, 1_000));
}

#[test]
fn saturates_at_the_largest_reportable_rate() {
    let achieved = calculate_orders_per_sec(u64::MAX, 1);
    assert_eq!(achieved, u64::MAX);
}
