use fuse::error::FuseError;
use fuse::inference::ab_testing::{has_sufficient_samples, validate_ab_test, RouteCounter, Variant};

#[test]
fn test_config_validation_empty_name() {
    assert!(validate_ab_test("", "model-a", "model-b", 10).is_err());
}

#[test]
fn test_config_validation_zero_samples() {
    assert!(validate_ab_test("test", "model-a", "model-b", 0).is_err());
}

#[test]
fn test_config_validation_same_models() {
    assert!(validate_ab_test("test", "same", "same", 10).is_err());
}

#[test]
fn validation_accepts_distinct_models_and_reports_first_problem() {
    assert!(validate_ab_test("test-experiment", "model-a", "model-b", 10).is_ok());
    match validate_ab_test("", "same", "same", 0) {
        Err(FuseError::ValidationError(m)) => assert_eq!(m, "A/B test name cannot be empty"),
        _ => panic!("expected a validation error"),
    }
    match validate_ab_test("x", "same", "same", 0) {
        Err(FuseError::ValidationError(m)) => assert_eq!(m, "min_samples must be > 0"),
        _ => panic!("expected a validation error"),
    }
    match validate_ab_test("x", "same", "same", 1) {
        Err(FuseError::ValidationError(m)) => assert_eq!(m, "model_a and model_b must be different"),
        _ => panic!("expected a validation error"),
    }
}

#[test]
fn test_routing_distribution() {
    let mut counter = RouteCounter::new(true);
    let mut a_count = 0u64;
    let mut b_count = 0u64;
    for _ in 0..100 {
        let bucket = counter.next_bucket().unwrap();
        let variant = if (bucket as f64) < 70.0 { Variant::A } else { Variant::B };
        match variant {
            Variant::A => a_count += 1,
            Variant::B => b_count += 1,
        }
    }
    assert_eq!(a_count, 70);
    assert_eq!(b_count, 30);
    assert_eq!(counter.request_count(), 100);
}

#[test]
fn buckets_cycle_through_a_hundred() {
    let mut counter = RouteCounter::new(true);
    let buckets: Vec<u64> = (0..201).map(|_| counter.next_bucket().unwrap()).collect();
    assert_eq!(buckets[0], 0);
    assert_eq!(buckets[99], 99);
    assert_eq!(buckets[100], 0);
    assert_eq!(buckets[200], 0);
}

#[test]
fn test_routing_disabled() {
    let mut counter = RouteCounter::new(false);
    match counter.next_bucket() {
        Err(FuseError::FeatureDisabled(m)) => assert_eq!(m, "A/B test is disabled"),
        _ => panic!("expected the test to be disabled"),
    }
    assert_eq!(counter.request_count(), 0);
}

#[test]
fn test_sufficient_samples() {
    assert!(!has_sufficient_samples(0, 0, 2));
    assert!(!has_sufficient_samples(2, 1, 2));
    assert!(has_sufficient_samples(2, 2, 2));
}

#[test]
fn disabling_stops_routing() {
    let mut counter = RouteCounter::new(true);
    counter.next_bucket().unwrap();
    counter.disable();
    assert!(!counter.is_enabled());
    assert!(counter.next_bucket().is_err());
    assert_eq!(counter.request_count(), 1);
}
