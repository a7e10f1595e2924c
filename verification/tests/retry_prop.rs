use std::time::Duration;

use home_camera::retry::RetryPolicy;

#[test]
fn delay_is_monotonic() {
    for base in [1u64, 7, 250, 999] {
        for cap in [1000u64, 8000, 19_999] {
            let policy = RetryPolicy {
                max_retries: 5,
                base_delay_ms: base,
                max_delay_ms: cap,
            };
            for a in 0u32..20 {
                for b in a..20 {
                    let d1 = policy.delay_for_attempt(a);
                    let d2 = policy.delay_for_attempt(b);
                    assert!(d1 <= d2);
                    assert!(d2.as_millis() <= cap as u128);
                }
            }
        }
    }
}

#[test]
fn first_delay_is_base_delay() {
    let policy = RetryPolicy::default();
    assert_eq!(
        policy.delay_for_attempt(0).as_millis(),
        policy.base_delay_ms as u128
    );
}

#[test]
fn default_policy_values() {
    let policy = RetryPolicy::default();
    assert_eq!(policy.max_retries, 5);
    assert_eq!(policy.base_delay_ms, 250);
    assert_eq!(policy.max_delay_ms, 8_000);
}

#[test]
fn delay_doubles_until_the_cap() {
    let policy = RetryPolicy::default();
    let expected = [250u64, 500, 1000, 2000, 4000, 8000, 8000, 8000];
    for (attempt, ms) in expected.iter().enumerate() {
        assert_eq!(policy.delay_for_attempt(attempt as u32), Duration::from_millis(*ms));
        assert_eq!(policy.delay_ms_for_attempt(attempt as u32), *ms);
    }
}

#[test]
fn doubling_stops_after_twenty_attempts() {
    let policy = RetryPolicy {
        max_retries: 0,
        base_delay_ms: 1,
        max_delay_ms: u64::MAX,
    };
    assert_eq!(policy.delay_ms_for_attempt(20), 1 << 20);
    assert_eq!(policy.delay_ms_for_attempt(21), 1 << 20);
    assert_eq!(policy.delay_ms_for_attempt(u32::MAX), 1 << 20);
}

#[test]
fn huge_base_saturates() {
    let policy = RetryPolicy {
        max_retries: 0,
        base_delay_ms: u64::MAX / 2,
        max_delay_ms: u64::MAX,
    };
    assert_eq!(policy.delay_ms_for_attempt(0), u64::MAX / 2);
    assert_eq!(policy.delay_ms_for_attempt(1), u64::MAX - 1);
    assert_eq!(policy.delay_ms_for_attempt(2), u64::MAX);
}
