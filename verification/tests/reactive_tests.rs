use leptos_ws_pro::reactive::{ConnectionMetrics, ConnectionStatus, PresenceMap, UserPresence, WebSocketConfig, WebSocketProvider};
use leptos_ws_pro::transport::ConnectionState;

#[test]
fn test_config_creation() {
    let config = WebSocketConfig::new("ws://example.com/ws");
    assert_eq!(config.url, "ws://example.com/ws");
    assert_eq!(config.protocols, Vec::<String>::new());
    assert_eq!(config.heartbeat_interval, Some(30000));
}

#[test]
fn test_provider_validation() {
    let provider = WebSocketProvider::new("ws://example.com/ws");
    assert!(provider.validate().is_ok());
    let provider = WebSocketProvider::new("http://example.com");
    assert!(provider.validate().is_err());
    let provider = WebSocketProvider::new("");
    assert!(provider.validate().is_err());
}

#[test]
fn test_config_builder() {
    let config = WebSocketConfig::new("ws://example.com/ws")
        .with_protocols(vec!["chat".to_string()])
        .with_heartbeat_interval(60000)
        .with_max_reconnect_attempts(10);
    assert_eq!(config.protocols, vec!["chat"]);
    assert_eq!(config.heartbeat_interval, Some(60000));
    assert_eq!(config.max_reconnect_attempts, Some(10));
}

#[test]
fn provider_validation_messages() {
    assert_eq!(WebSocketProvider::new("").validate(), Err("WebSocket URL cannot be empty".to_string()));
    assert_eq!(
        WebSocketProvider::new("http://x").validate(),
        Err("WebSocket URL must start with 'ws://' or 'wss://'".to_string())
    );
    assert!(WebSocketProvider::new("wss://secure").validate().is_ok());
    let c = WebSocketConfig::new("ws://a").with_heartbeat_interval(0);
    assert_eq!(WebSocketProvider::with_config(c).validate(), Err("Heartbeat interval must be greater than 0".to_string()));
    let c = WebSocketConfig::new("ws://a").with_reconnect_interval(0);
    assert_eq!(WebSocketProvider::with_config(c).validate(), Err("Reconnect interval must be greater than 0".to_string()));
    let c = WebSocketConfig::new("ws://a").with_max_reconnect_attempts(0);
    assert_eq!(WebSocketProvider::with_config(c).validate(), Err("Max reconnect attempts must be greater than 0".to_string()));
    let p = WebSocketProvider::new("ws://a").with_url("ftp://b");
    assert_eq!(p.config().url, "ftp://b");
    assert!(p.validate().is_err());
}

#[test]
fn config_defaults() {
    let c = WebSocketConfig::default();
    assert_eq!(c.url, "ws://localhost:8080/ws");
    assert_eq!(c.reconnect_interval, Some(1000));
    assert_eq!(c.max_reconnect_attempts, Some(5));
}

#[test]
fn test_presence_map_operations() {
    let mut presence_map = PresenceMap::new();
    assert!(presence_map.is_empty());
    let user1 = UserPresence::online("user1".to_string());
    presence_map.update_user("user1".to_string(), user1.clone());
    assert_eq!(presence_map.online_count(), 1);
    assert_eq!(presence_map.get_user("user1"), Some(&user1));
}

#[test]
fn test_user_presence_creation() {
    let user = UserPresence::online("test_user".to_string());
    assert_eq!(user.user_id, "test_user");
    assert_eq!(user.status, "online");
    assert!(user.is_online());
}

#[test]
fn test_connection_metrics() {
    let mut metrics = ConnectionMetrics::new();
    metrics.record_bytes_sent(100);
    metrics.record_message_sent();
    metrics.record_bytes_received(200);
    metrics.record_message_received();
    assert_eq!(metrics.bytes_sent, 100);
    assert_eq!(metrics.bytes_received, 200);
    assert_eq!(metrics.total_bytes(), 300);
    assert_eq!(metrics.total_messages(), 2);
}

#[test]
fn test_presence_cleanup() {
    let mut presence_map = PresenceMap::new();
    let mut user = UserPresence::online("user1".to_string());
    user.last_seen = 0;
    presence_map.update_user("user1".to_string(), user);
    assert_eq!(presence_map.online_count(), 1);
    presence_map.cleanup_stale(1000);
    assert_eq!(presence_map.online_count(), 0);
}

#[test]
fn presence_cleanup_keeps_fresh_users() {
    let mut m = PresenceMap::new_at(0);
    m.update_user_at("a".to_string(), UserPresence::new_at("a".to_string(), "online".to_string(), 9_500), 9_500);
    m.update_user_at("b".to_string(), UserPresence::new_at("b".to_string(), "away".to_string(), 1_000), 9_500);
    m.cleanup_stale_at(1_000, 10_000);
    assert!(m.contains_key("a"));
    assert!(!m.contains_key("b"));
    assert_eq!(m.len(), 1);
    assert_eq!(m.user_ids(), vec!["a".to_string()]);
}

#[test]
fn presence_insert_then_get_and_remove() {
    let mut m = PresenceMap::new();
    let p = UserPresence::away("u".to_string());
    m.update_user("u".to_string(), p.clone());
    assert_eq!(m.get("u"), Some(&p));
    assert_eq!(m.remove_user("u"), Some(p));
    assert_eq!(m.remove_user("u"), None);
    assert!(m.is_empty());
}

#[test]
fn presence_staleness_and_status() {
    let mut p = UserPresence::new_at("x".to_string(), "online".to_string(), 1000);
    assert_eq!(p.age_ms_at(1500), 500);
    assert_eq!(p.age_ms_at(500), 0);
    assert!(p.is_stale_at(100, 1500));
    assert!(!p.is_stale_at(500, 1500));
    p.update_status_at("offline".to_string(), 2000);
    assert!(p.is_offline());
    assert_eq!(p.last_seen, 2000);
}

#[test]
fn metrics_reset_and_uptime() {
    let mut m = ConnectionMetrics::default();
    m.record_bytes_sent(5);
    m.update_uptime(77);
    assert_eq!(m.connection_uptime, 77);
    m.reset();
    assert_eq!(m, ConnectionMetrics::new());
}

#[test]
fn test_connection_status() {
    let status = ConnectionStatus::default();
    assert!(status.is_disconnected());
    assert!(!status.is_connected());
    assert!(!status.is_connecting());
}

#[test]
fn test_connection_status_from_state() {
    let status = ConnectionStatus::from_state(ConnectionState::Connected);
    assert!(status.is_connected());
    assert!(status.connected_at.is_some());
}

#[test]
fn connection_status_duration() {
    let s = ConnectionStatus::from_state_at(ConnectionState::Connected, 1_000);
    assert_eq!(s.connection_duration_at(1_250), Some(250));
    let d = ConnectionStatus::from_state_at(ConnectionState::Failed, 1_000);
    assert_eq!(d.connection_duration_at(1_250), None);
    assert!(d.connection_duration().is_none());
}
