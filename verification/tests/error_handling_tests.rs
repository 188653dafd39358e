use leptos_ws_pro::error_handling::{CircuitBreaker, ErrorContext, ErrorRecoveryHandler};
use leptos_ws_pro::resilience::{
    BufferError, ConnectionError, ConnectionState, HealthMonitor, HealthStatus, MessageBuffer, ReconnectionStrategy,
    ResilientConnection,
};
use std::time::Duration;

#[test]
fn test_error_context_creation() {
    let context = ErrorContext::new("test_operation", "test_component");
    assert_eq!(context.operation, "test_operation");
    assert_eq!(context.component, "test_component");
    assert_eq!(context.attempt_number, 1);
    assert!(context.timestamp > 0);
}

#[test]
fn error_handling_test_circuit_breaker() {
    let mut cb = CircuitBreaker::new();
    assert!(cb.allow_request());
    assert_eq!(cb.get_state(), "closed");
    for _ in 0..5 {
        cb.record_failure();
    }
    assert_eq!(cb.get_state(), "open");
    assert!(!cb.allow_request());
    cb.record_success();
    assert_eq!(cb.get_state(), "open");
    assert!(!cb.allow_request());
}

#[test]
fn circuit_breaker_half_opens_after_timeout() {
    let mut cb = CircuitBreaker::new();
    for _ in 0..5 {
        cb.record_failure_at(1_000);
    }
    assert!(!cb.allow_request_at(1_001));
    assert!(cb.allow_request_at(1_000_000));
    assert_eq!(cb.get_state(), "half-open");
    cb.record_success();
    assert_eq!(cb.get_state(), "closed");
}

#[test]
fn backoff_doubles_and_caps() {
    assert_eq!(ErrorRecoveryHandler::next_backoff(1, 3, 100, 1_000), Some(200));
    assert_eq!(ErrorRecoveryHandler::next_backoff(2, 3, 400, 1_000), Some(800));
    assert_eq!(ErrorRecoveryHandler::next_backoff(2, 3, 600, 1_000), Some(1_000));
    assert_eq!(ErrorRecoveryHandler::next_backoff(3, 3, 100, 1_000), None);
}

#[test]
fn mod_test_circuit_breaker() {
    let mut breaker = leptos_ws_pro::resilience::CircuitBreaker::new(3, 2, Duration::from_secs(1));
    assert!(!breaker.should_trip());
    breaker.record_failure();
    breaker.record_failure();
    breaker.record_failure();
    assert!(breaker.should_trip());
}

#[test]
fn mod_test_health_monitor() {
    let mut monitor = HealthMonitor::new(Duration::from_secs(1), Duration::from_secs(5));
    assert_eq!(monitor.check(), HealthStatus::Unhealthy);
    monitor.record_heartbeat();
    assert_eq!(monitor.check(), HealthStatus::Healthy);
}

#[test]
fn test_message_buffer() {
    let mut buffer = MessageBuffer::new(10);
    assert!(buffer.is_empty());
    for i in 0..5 {
        buffer.push(i).unwrap();
    }
    assert_eq!(buffer.len(), 5);
    for i in (0..5).rev() {
        assert_eq!(buffer.pop(), Some(i));
    }
    assert!(buffer.is_empty());
}

#[test]
fn message_buffer_full() {
    let mut buffer = MessageBuffer::new(1);
    buffer.push(1u8).unwrap();
    assert_eq!(buffer.push(2u8), Err(BufferError::BufferFull));
    buffer.clear();
    assert!(buffer.is_empty());
}

#[test]
fn resilience_breaker_open_until_timeout() {
    let mut breaker = leptos_ws_pro::resilience::CircuitBreaker::new(2, 1, Duration::from_secs(1));
    breaker.record_failure_at(0);
    assert!(!breaker.should_trip_at(10));
    breaker.record_failure_at(0);
    assert!(breaker.should_trip_at(500));
    assert!(!breaker.should_trip_at(2_000));
}

fn resilient(strategy: ReconnectionStrategy) -> ResilientConnection<u32> {
    ResilientConnection::new(
        strategy,
        leptos_ws_pro::resilience::CircuitBreaker::new(2, 1, Duration::from_secs(1)),
        MessageBuffer::new(4),
        HealthMonitor::new(Duration::from_secs(1), Duration::from_secs(5)),
    )
}

#[test]
fn reconnection_waits_by_strategy() {
    let mut c = resilient(ReconnectionStrategy::default());
    assert_eq!(c.connection_state(), ConnectionState::Disconnected);
    assert_eq!(c.begin_reconnection(), Some(Duration::from_secs(2)));
    assert_eq!(c.connection_state(), ConnectionState::Reconnecting);
    let mut capped = resilient(ReconnectionStrategy::ExponentialBackoff {
        initial: Duration::from_secs(40),
        max: Duration::from_secs(60),
        jitter_per_mille: 0,
    });
    assert_eq!(capped.begin_reconnection(), Some(Duration::from_secs(60)));
    let mut adaptive = resilient(ReconnectionStrategy::Adaptive { success_threshold: 1, failure_threshold: 1 });
    assert_eq!(adaptive.begin_reconnection(), Some(Duration::from_secs(1)));
    let mut fixed = resilient(ReconnectionStrategy::Fixed(Duration::from_millis(250)));
    assert_eq!(fixed.begin_reconnection(), Some(Duration::from_millis(250)));
    let mut none = resilient(ReconnectionStrategy::Disabled);
    assert_eq!(none.begin_reconnection(), None);
    assert_eq!(none.connection_state(), ConnectionState::Reconnecting);
}

#[test]
fn reconnection_outcomes_and_flush() {
    let mut c = resilient(ReconnectionStrategy::Fixed(Duration::from_millis(10)));
    assert!(!c.needs_reconnection_at(0));
    c.begin_reconnection();
    c.finish_reconnection_at(&Err(ConnectionError::Timeout("t".to_string())), 100);
    assert_eq!(c.connection_state(), ConnectionState::Reconnecting);
    c.finish_reconnection_at(&Err(ConnectionError::CircuitBreakerOpen), 200);
    assert!(c.needs_reconnection_at(300));
    assert!(!c.needs_reconnection_at(5_000));
    let outcome = c.connect();
    assert!(outcome.is_ok());
    c.finish_reconnection(&outcome);
    assert_eq!(c.connection_state(), ConnectionState::Connected);
    assert!(!c.needs_reconnection_at(300));
    c.flush_buffer();
    assert_eq!(c.connection_state(), ConnectionState::Connected);
}

#[test]
fn breaker_admission_before_a_call() {
    let mut breaker = leptos_ws_pro::error_handling::circuit_breaker::CircuitBreaker::new();
    assert!(breaker.begin_call_at(0));
    for _ in 0..5 {
        breaker.record_failure_at(1_000);
    }
    assert_eq!(breaker.get_state(), "open");
    assert!(!breaker.begin_call_at(30_000));
    assert_eq!(breaker.get_state(), "open");
    assert!(breaker.begin_call_at(61_000));
    assert_eq!(breaker.get_state(), "half-open");
    breaker.record_success();
    assert_eq!(breaker.get_state(), "closed");
}

#[test]
fn test_reconnection_strategy_default() {
    let strategy = ReconnectionStrategy::default();
    match strategy {
        ReconnectionStrategy::ExponentialBackoff { initial, max, jitter_per_mille } => {
            assert_eq!(initial, Duration::from_secs(1));
            assert_eq!(max, Duration::from_secs(60));
            assert_eq!(jitter_per_mille as f64 / 1000.0, 0.1);
        }
        _ => panic!("Expected ExponentialBackoff strategy"),
    }
}

#[test]
fn retry_attempts_open_and_reclose_the_breaker() {
    let mut h = leptos_ws_pro::error_handling::ErrorRecoveryHandler::new();
    for t in 0..5u64 {
        assert!(h.before_attempt_at(t));
        h.after_attempt_at(false, t);
    }
    assert!(!h.before_attempt_at(10));
    assert!(!h.before_attempt_at(60_004));
    assert!(h.before_attempt_at(60_005));
    h.after_attempt_at(true, 60_006);
    assert!(h.before_attempt_at(60_007));
}
