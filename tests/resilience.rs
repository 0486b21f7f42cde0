use amazon_rose_forest::circuit_breaker::{CircuitBreaker, CircuitBreakerConfig, CircuitState};
use amazon_rose_forest::retry::RetryStrategy;

#[test]
fn breaker_opens_probes_and_closes() {
    let mut cb = CircuitBreaker::new();
    assert_eq!(cb.config().failure_threshold, 5);
    assert_eq!(cb.config().half_open_max_attempts, 3);
    assert!(cb.allow_operation_at(1_000));
    for i in 0..4u64 {
        cb.record_failure_at(1_000 + i);
        assert_eq!(cb.state(), CircuitState::Closed { failures: (i + 1) as u32 });
    }
    cb.record_failure_at(2_000);
    assert_eq!(cb.state(), CircuitState::Open { since: 2_000 });
    assert!(!cb.allow_operation_at(2_001));
    assert!(!cb.allow_operation_at(62_000));
    assert!(cb.allow_operation_at(62_001));
    assert_eq!(cb.state(), CircuitState::HalfOpen { attempts: 0, successes: 0 });
    cb.record_success();
    cb.record_success();
    assert_eq!(cb.state(), CircuitState::HalfOpen { attempts: 0, successes: 2 });
    cb.record_success();
    assert_eq!(cb.state(), CircuitState::Closed { failures: 0 });
}

#[test]
fn breaker_half_open_failure_reopens() {
    let mut cb = CircuitBreaker::with_config(CircuitBreakerConfig {
        failure_threshold: 1,
        reset_timeout_ms: 10,
        half_open_max_attempts: 2,
    });
    cb.record_failure_at(5);
    assert_eq!(cb.state(), CircuitState::Open { since: 5 });
    assert!(cb.allow_operation_at(16));
    cb.record_failure_at(20);
    assert_eq!(cb.state(), CircuitState::Open { since: 20 });
    cb.reset();
    assert_eq!(cb.state(), CircuitState::Closed { failures: 0 });
}

#[test]
fn breaker_success_while_open_starts_probing() {
    let mut cb = CircuitBreaker::with_config(CircuitBreakerConfig {
        failure_threshold: 1,
        reset_timeout_ms: 10,
        half_open_max_attempts: 3,
    });
    cb.record_failure_at(0);
    cb.record_success();
    assert_eq!(cb.state(), CircuitState::HalfOpen { attempts: 1, successes: 1 });
    assert!(cb.allow_operation_at(1));
}

#[test]
fn retry_delays_grow_and_stop() {
    let mut r = RetryStrategy::new(100, 1_000, 5);
    assert_eq!(r.current_ceiling(), 100);
    let ceilings = [100u64, 200, 400, 800, 1_000];
    for c in ceilings {
        assert_eq!(r.current_ceiling(), c);
        let d = r.next_delay().unwrap();
        assert!(d <= c);
    }
    assert_eq!(r.next_delay(), None);
    r.reset();
    assert_eq!(r.current_ceiling(), 100);
    assert!(r.next_delay().is_some());
}

#[test]
fn retry_ceiling_saturates_at_cap() {
    let mut r = RetryStrategy::new(u64::MAX / 2, u64::MAX, 70);
    for _ in 0..69 {
        r.next_delay();
    }
    assert_eq!(r.current_ceiling(), u64::MAX);
    let mut z = RetryStrategy::new(0, 10, 1);
    assert_eq!(z.next_delay(), Some(0));
    assert_eq!(z.next_delay(), None);
}
