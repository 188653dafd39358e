use leptos_ws_pro::monitoring::alerts::Alert as AckAlert;
use leptos_ws_pro::monitoring::{Alert, AlertLevel, HealthCheck, HealthMonitor, HealthStatus, TraceSpan};
use std::time::Duration;

#[test]
fn monitoring_test_health_monitor() {
    let mut monitor = HealthMonitor::new(Duration::from_secs(30));
    monitor.record_check("database", true, None);
    monitor.record_check("redis", false, Some("Connection timeout".to_string()));
    assert_eq!(monitor.get_component_health("database"), Some(HealthStatus::Healthy));
    assert_eq!(monitor.get_component_health("redis"), Some(HealthStatus::Unhealthy));
    assert_eq!(monitor.get_overall_health(), HealthStatus::Degraded);
}

#[test]
fn overall_health_thresholds() {
    let mut m = HealthMonitor::new(Duration::from_secs(30));
    assert_eq!(m.get_overall_health(), HealthStatus::Unknown);
    for c in ["a", "b", "c", "d", "e"] {
        m.record_check_at(c, true, None, 1);
    }
    assert_eq!(m.get_overall_health(), HealthStatus::Healthy);
    m.record_check_at("a", false, None, 2);
    assert_eq!(m.get_overall_health(), HealthStatus::Degraded);
    m.record_check_at("b", false, None, 3);
    assert_eq!(m.get_overall_health(), HealthStatus::Degraded);
    m.record_check_at("c", false, None, 4);
    assert_eq!(m.get_overall_health(), HealthStatus::Unhealthy);
    assert_eq!(m.get_component_health("zzz"), None);
}

#[test]
fn health_check_history_is_bounded() {
    let mut c = HealthCheck::new("svc".to_string());
    for i in 0..150u64 {
        c.record_result_at(i % 2 == 0, None, i);
    }
    assert_eq!(c.history.len(), 100);
    assert_eq!(c.history[0].timestamp, 50);
    assert_eq!(c.last_check, Some(149));
}

#[test]
fn health_check_consecutive_failures() {
    let mut c = HealthCheck::new("svc".to_string());
    assert!(c.is_healthy());
    c.record_result_at(false, Some("down".to_string()), 1);
    assert_eq!(c.consecutive_failures, 1);
    assert!(!c.is_healthy());
    c.record_result_at(true, None, 2);
    assert_eq!(c.consecutive_failures, 0);
    assert!(c.is_healthy());
}

#[test]
fn test_trace_span() {
    let mut span = TraceSpan::start_at("test_operation", "t".to_string(), "s".to_string(), 100, true);
    span.add_tag("user_id", "123");
    span.add_tag("endpoint", "/api/test");
    let finished_span = span.finish();
    assert!(finished_span.duration().is_some());
    assert_eq!(finished_span.tags.get("user_id"), Some(&"123".to_string()));
}

#[test]
fn trace_span_duration() {
    let span = TraceSpan::start_at("op", "t".to_string(), "s".to_string(), 1_000, false);
    assert_eq!(span.duration_ms(), None);
    let done = span.finish_at(1_250);
    assert_eq!(done.duration_ms(), Some(250));
    assert_eq!(done.duration(), Some(Duration::from_millis(250)));
}

#[test]
fn alerts_new_and_acknowledge() {
    let a = Alert::new_at(AlertLevel::Warning, "t".to_string(), "d".to_string(), "id".to_string(), 5_999);
    assert_eq!(a.timestamp, 5);
    assert!(!a.resolved);
    let b = Alert::new(AlertLevel::Critical, "t".to_string(), "d".to_string());
    assert_eq!(b.id.len(), 36);
    let mut c = AckAlert::new(AlertLevel::Info, "x".to_string(), "y".to_string());
    assert!(!c.acknowledged);
    c.acknowledge();
    assert!(c.acknowledged);
}

#[test]
fn health_check_follows_the_last_outcome() {
    let mut c = HealthCheck::new("db".to_string());
    assert!(c.is_healthy());
    for (i, ok) in [false, false, true, false, false, false, false].iter().enumerate() {
        c.record_result_at(*ok, None, i as u64);
        assert_eq!(c.is_healthy(), *ok);
        assert_eq!(c.is_healthy, c.consecutive_failures == 0);
    }
    assert_eq!(c.consecutive_failures, 4);
}
