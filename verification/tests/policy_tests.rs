use wasmatrix::policy::{CrashInfo, RestartPolicyEvaluator};
use wasmatrix::types::{RestartPolicy, RestartPolicyType};

#[test]
fn test_restart_policy_never() {
    let policy = RestartPolicy::never();
    let crash_info = CrashInfo::new();

    let result = RestartPolicyEvaluator::should_restart(&policy, &crash_info);
    assert!(result.is_none());
}

#[test]
fn test_restart_policy_always() {
    let policy = RestartPolicy::always();
    let crash_info = CrashInfo::new();

    let result = RestartPolicyEvaluator::should_restart(&policy, &crash_info);
    assert_eq!(result, Some(0));
}

#[test]
fn lib_test_restart_policy_on_failure() {
    let policy = RestartPolicy::on_failure(3, 5);
    let mut crash_info = CrashInfo::new();

    // First crash - should restart with 5s delay
    crash_info.record_crash();
    let result = RestartPolicyEvaluator::should_restart(&policy, &crash_info);
    assert_eq!(result, Some(5));

    // Second crash - should restart with 10s delay (exponential backoff)
    crash_info.record_crash();
    let result = RestartPolicyEvaluator::should_restart(&policy, &crash_info);
    assert_eq!(result, Some(10));

    // Third crash - should restart with 20s delay
    crash_info.record_crash();
    let result = RestartPolicyEvaluator::should_restart(&policy, &crash_info);
    assert_eq!(result, Some(20));

    // Fourth crash - exceeds max_retries (3), should not restart
    crash_info.record_crash();
    let result = RestartPolicyEvaluator::should_restart(&policy, &crash_info);
    assert!(result.is_none());
}

#[test]
fn test_crash_info_backoff_calculation() {
    let mut crash_info = CrashInfo::new();

    // Test exponential backoff
    crash_info.record_crash();
    assert_eq!(crash_info.calculate_backoff(5), 5); // 5 * 2^0

    crash_info.record_crash();
    assert_eq!(crash_info.calculate_backoff(5), 10); // 5 * 2^1

    crash_info.record_crash();
    assert_eq!(crash_info.calculate_backoff(5), 20); // 5 * 2^2

    crash_info.record_crash();
    assert_eq!(crash_info.calculate_backoff(5), 40); // 5 * 2^3

    // Test capping at 300 seconds
    for _ in 0..10 {
        crash_info.record_crash();
    }
    assert_eq!(crash_info.calculate_backoff(5), 300); // capped at 300
}

#[test]
fn test_restart_policy_on_failure() {
    let policy = RestartPolicy::on_failure(3, 5);
    assert_eq!(policy.policy_type, RestartPolicyType::OnFailure);
    assert_eq!(policy.max_retries, Some(3));
    assert_eq!(policy.backoff_seconds, Some(5));
}

#[test]
fn backoff_cap_after_twenty_crashes() {
    // 20 consecutive crashes with base 5: the exponent caps at 8 and the
    // delay at 300 seconds.
    let mut crash_info = CrashInfo::new();
    for _ in 0..20 {
        crash_info.record_crash();
    }
    assert_eq!(crash_info.crash_count, 20);
    assert_eq!(crash_info.calculate_backoff(5), 300);
}

#[test]
fn backoff_formula_exact_values() {
    let mut crash_info = CrashInfo::new();
    crash_info.record_crash();
    // n = 1, b = 7: min(7 * 2^0, 300) = 7
    assert_eq!(crash_info.calculate_backoff(7), 7);
    // a huge base is capped at the ceiling outright
    assert_eq!(crash_info.calculate_backoff(1_000_000), 300);
    // base 0 yields 0
    assert_eq!(crash_info.calculate_backoff(0), 0);
    for _ in 0..8 {
        crash_info.record_crash();
    }
    // n = 9, b = 1: min(2^8, 300) = 256
    assert_eq!(crash_info.calculate_backoff(1), 256);
    crash_info.record_crash();
    // n = 10: exponent stays capped at 8
    assert_eq!(crash_info.calculate_backoff(1), 256);
}

#[test]
fn on_failure_default_backoff_base_is_five() {
    let policy = RestartPolicy {
        policy_type: RestartPolicyType::OnFailure,
        max_retries: Some(10),
        backoff_seconds: None,
    };
    let mut crash_info = CrashInfo::new();
    crash_info.record_crash();
    crash_info.record_crash();
    assert_eq!(
        RestartPolicyEvaluator::should_restart(&policy, &crash_info),
        Some(10)
    );
}

#[test]
fn on_failure_without_retry_limit_always_restarts() {
    let policy = RestartPolicy {
        policy_type: RestartPolicyType::OnFailure,
        max_retries: None,
        backoff_seconds: Some(1),
    };
    let mut crash_info = CrashInfo::new();
    for _ in 0..50 {
        crash_info.record_crash();
    }
    assert_eq!(
        RestartPolicyEvaluator::should_restart(&policy, &crash_info),
        Some(256)
    );
}
