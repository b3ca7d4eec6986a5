use apprunner::process::restart::{RestartPolicy, MAX_RETRIES};

#[test]
fn test_crash_counter_increments() {
    let mut policy = RestartPolicy::new();
    assert_eq!(policy.crash_count(), 0);
    policy.record_crash();
    assert_eq!(policy.crash_count(), 1);
    policy.record_crash();
    assert_eq!(policy.crash_count(), 2);
}

#[test]
fn test_reset_clears_counter() {
    let mut policy = RestartPolicy::new();
    policy.record_crash();
    policy.record_crash();
    assert_eq!(policy.crash_count(), 2);
    policy.reset();
    assert_eq!(policy.crash_count(), 0);
}

#[test]
fn test_record_crash_returns_false_at_max() {
    let mut policy = RestartPolicy::new();
    for _ in 0..MAX_RETRIES {
        assert!(policy.record_crash());
    }
    assert!(!policy.record_crash());
}

#[test]
fn test_is_exhausted() {
    let mut policy = RestartPolicy::new();
    assert!(!policy.is_exhausted());
    for _ in 0..MAX_RETRIES {
        policy.record_crash();
    }
    assert!(policy.is_exhausted());
}

#[test]
fn default_policy_is_fresh() {
    let policy = RestartPolicy::default();
    assert_eq!(policy.crash_count(), 0);
    assert!(!policy.is_exhausted());
}

#[test]
fn crashes_keep_counting_past_the_limit() {
    let mut policy = RestartPolicy::new();
    for _ in 0..7 {
        policy.record_crash();
    }
    assert_eq!(policy.crash_count(), 7);
    assert!(policy.is_exhausted());
}

#[test]
fn record_crash_answers_against_five_retries() {
    let mut p = RestartPolicy::new();
    for n in 1..=5 {
        assert!(p.record_crash());
        assert_eq!(p.crash_count(), n);
    }
    assert!(p.is_exhausted());
    assert!(!p.record_crash());
    assert_eq!(MAX_RETRIES, 5);
}
