use leptos_ws_pro::metrics::{ConnectionHealthCheck, HealthCheck, HealthChecker, HealthStatus, PerformanceProfiler};
use std::time::Duration;

#[test]
fn test_health_checker() {
    let mut checker = HealthChecker::new();
    let connection_check = ConnectionHealthCheck::new(Duration::from_secs(5));
    checker.add_check(connection_check);
    let results = checker.run_checks();
    assert_eq!(results.len(), 1);
    assert_eq!(results.get("connection"), Some(&HealthStatus::Unknown));
}

#[test]
fn test_connection_health_check() {
    let mut check = ConnectionHealthCheck::new(Duration::from_secs(1));
    assert_eq!(check.check(), HealthStatus::Unknown);
    check.record_heartbeat();
    assert_eq!(check.check(), HealthStatus::Healthy);
}

#[test]
fn connection_health_check_times_out() {
    let mut check = ConnectionHealthCheck::new(Duration::from_millis(100));
    check.record_heartbeat_at(1_000);
    assert_eq!(check.check_at(1_099), HealthStatus::Healthy);
    assert_eq!(check.check_at(1_100), HealthStatus::Unhealthy("Heartbeat timeout".to_string()));
    assert_eq!(check.name(), "connection");
}

#[test]
fn health_checker_all_healthy() {
    let mut checker = HealthChecker::new();
    assert!(checker.is_healthy());
    checker.add_check(ConnectionHealthCheck::new(Duration::from_secs(5)));
    assert!(!checker.is_healthy());
}

#[test]
fn profiler_statistics_exact() {
    let mut p = PerformanceProfiler::new(100);
    for (start, end) in [(0u64, 30u64), (0, 10), (0, 20), (0, 40)] {
        let m = p.start_measurement_at("op", start);
        p.record_measurement_at(m, end);
    }
    let s = p.get_statistics("op").unwrap();
    assert_eq!(s.count, 4);
    assert_eq!(s.min, Duration::from_nanos(10));
    assert_eq!(s.max, Duration::from_nanos(40));
    assert_eq!(s.median, Duration::from_nanos(25));
    assert_eq!(s.avg, Duration::from_nanos(25));
    assert_eq!(s.p95, Duration::from_nanos(40));
    assert_eq!(s.p99, Duration::from_nanos(40));
    assert!(p.get_statistics("other").is_none());
}

#[test]
fn profiler_keeps_a_window() {
    let mut p = PerformanceProfiler::new(2);
    for d in [5u64, 6, 7] {
        let m = p.start_measurement_at("w", 0);
        p.record_measurement_at(m, d);
    }
    let s = p.get_statistics("w").unwrap();
    assert_eq!(s.count, 2);
    assert_eq!(s.min, Duration::from_nanos(6));
}

#[test]
fn test_performance_profiler() {
    let mut profiler = PerformanceProfiler::new(100);
    let measurement = profiler.start_measurement("test");
    let began = std::time::Instant::now();
    while began.elapsed() < Duration::from_millis(10) {}
    profiler.record_measurement(measurement);
    let stats = profiler.get_statistics("test");
    assert!(stats.is_some());
    let stats = stats.unwrap();
    assert_eq!(stats.count, 1);
    assert!(stats.avg >= Duration::from_millis(10));
}
