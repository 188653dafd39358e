use leptos_ws_pro::performance::manager::{MessagePriority, PerformanceTestData, SizeCategory};
use leptos_ws_pro::performance::middleware::PerformanceMiddleware;
use leptos_ws_pro::performance::{
    ConnectionPool, MessageBatcher, MessageCache, PerformanceConfig, PerformanceError, PerformanceManager,
    PerformanceProfiler, PooledConnection,
};
use leptos_ws_pro::transport::{Message, MessageType};
use std::time::Duration;

#[test]
fn test_connection_pool() {
    let mut pool = ConnectionPool::new(2);
    let conn1 = pool.get_connection("ws://localhost:8080").unwrap();
    let _conn2 = pool.get_connection("ws://localhost:8080").unwrap();
    assert!(pool.get_connection("ws://localhost:8080").is_err());
    pool.return_connection(conn1);
    assert!(pool.get_connection("ws://localhost:8080").is_ok());
}

#[test]
fn pool_drops_unhealthy_and_idle() {
    let mut pool = ConnectionPool::new(3);
    let c = pool.get_connection_at("ws://a", 0).unwrap();
    assert_eq!(pool.active_connections(), 1);
    pool.return_connection_at(c, 100_000);
    assert_eq!(pool.active_connections(), 0);
    let c1 = pool.get_connection_at("ws://a", 1_000).unwrap();
    let c2 = pool.get_connection_at("ws://b", 1_000).unwrap();
    pool.return_connection_at(c1, 1_500);
    pool.return_connection_at(c2, 1_500);
    assert_eq!(pool.available_connections(), 2);
    pool.cleanup_idle_connections_at(400_000);
    assert_eq!(pool.available_connections(), 0);
    assert_eq!(pool.active_connections(), 0);
}

#[test]
fn pool_simulated_failure() {
    let mut pool = ConnectionPool::new_simple(5);
    let a = pool.get_connection_at("ws://a", 0).unwrap();
    let b = pool.get_connection_at("ws://a", 0).unwrap();
    pool.return_connection_at(a, 1);
    pool.return_connection_at(b, 1);
    pool.simulate_connection_failure(1);
    assert_eq!(pool.available_connections(), 1);
    assert_eq!(pool.active_connections(), 1);
    assert_eq!(pool.max_connections(), 5);
}

#[test]
fn test_message_batcher() {
    let mut batcher = MessageBatcher::new(3, Duration::from_millis(100));
    batcher.add_message(b"message1".to_vec()).unwrap();
    batcher.add_message(b"message2".to_vec()).unwrap();
    assert_eq!(batcher.pending_count(), 2);
    batcher.add_message(b"message3".to_vec()).unwrap();
    assert_eq!(batcher.pending_count(), 0);
}

#[test]
fn batcher_flush_and_timeout() {
    let mut b = MessageBatcher::new_at(10, Duration::from_millis(100), 0);
    assert!(!b.should_flush_at(500));
    b.add_message_at(vec![1], 10).unwrap();
    assert!(!b.should_flush_at(50));
    assert!(b.should_flush_at(100));
    assert_eq!(b.flush_messages_at(120), vec![vec![1u8]]);
    assert_eq!(b.pending_count(), 0);
    assert_eq!(b.get_optimal_batch_size(), 10);
}

#[test]
fn test_message_cache() {
    let mut cache = MessageCache::new(2, Duration::from_secs(1));
    cache.set("key1".to_string(), b"value1".to_vec());
    cache.set("key2".to_string(), b"value2".to_vec());
    assert_eq!(cache.get("key1"), Some(b"value1".to_vec()));
    assert_eq!(cache.get("key2"), Some(b"value2".to_vec()));
    cache.set("key3".to_string(), b"value3".to_vec());
    assert_eq!(cache.len(), 2);
}

#[test]
fn cache_evicts_oldest_and_expires() {
    let mut cache = MessageCache::new(2, Duration::from_millis(1000));
    cache.set_at("a".to_string(), vec![1], 10);
    cache.set_at("b".to_string(), vec![2], 20);
    cache.set_at("c".to_string(), vec![3], 30);
    assert_eq!(cache.get_at("a", 40), None);
    assert_eq!(cache.get_at("b", 40), Some(vec![2]));
    assert_eq!(cache.get_at("c", 1_030), None);
    cache.cleanup_expired_at(1_025);
    assert_eq!(cache.len(), 1);
    assert_eq!(cache.capacity(), 2);
}

#[test]
fn test_profiler() {
    let mut profiler = PerformanceProfiler::new();
    profiler.start_span("test_operation");
    let began = std::time::Instant::now();
    while began.elapsed() < Duration::from_millis(10) {}
    profiler.end_span("test_operation");
    let stats = profiler.get_stats("test_operation").unwrap();
    assert_eq!(stats.count, 1);
    assert!(stats.average >= Duration::from_millis(10));
}

#[test]
fn span_profiler_stats() {
    let mut p = PerformanceProfiler::default();
    for (s, e) in [(0u64, 10u64), (100, 130), (200, 205)] {
        p.start_span_at("x", s);
        p.end_span_at("x", e);
    }
    p.end_span_at("never-started", 5);
    assert!(p.get_stats("never-started").is_none());
    let st = p.get_stats("x").unwrap();
    assert_eq!(st.count, 3);
    assert_eq!(st.total, Duration::from_nanos(45));
    assert_eq!(st.average, Duration::from_nanos(15));
    assert_eq!(st.min, Duration::from_nanos(5));
    assert_eq!(st.max, Duration::from_nanos(30));
}

#[test]
fn pooled_connection_health() {
    let mut c = PooledConnection::new_at("ws://x".to_string(), 0);
    assert!(c.is_healthy_at(59_999));
    assert!(!c.is_healthy_at(60_000));
    c.mark_used_at(60_000);
    assert_eq!(c.request_count, 1);
    assert!(c.is_healthy_at(60_001));
}

#[test]
fn manager_respects_config() {
    let mut cfg = PerformanceConfig::default();
    assert_eq!(cfg.max_pool_size, 10);
    cfg.enable_connection_pooling = false;
    cfg.enable_message_batching = false;
    let mut m = PerformanceManager::new(cfg);
    assert!(matches!(m.get_connection("ws://x"), Err(PerformanceError::PoolingDisabled)));
    assert!(matches!(m.queue_message(vec![1]), Err(PerformanceError::BatchingDisabled)));
    assert_eq!(m.flush_messages().unwrap(), Vec::<Vec<u8>>::new());
    assert!(m.should_compress(1024));
    assert!(!m.should_compress(1023));
    let data = PerformanceTestData {
        id: "7".to_string(),
        payload: vec![9, 9],
        priority: MessagePriority::High,
        size_category: SizeCategory::Small,
    };
    m.cache_message(data);
    assert_eq!(m.get_cached("msg_7"), Some(vec![9, 9]));
    assert!(!m.is_memory_pressure_detected());
    assert_eq!(m.optimize_bandwidth(&[1, 2]).unwrap(), vec![1, 2]);
}

#[test]
fn middleware_batches_as_text_messages() {
    let mut mw = PerformanceMiddleware::new(
        ConnectionPool::new(1),
        MessageBatcher::new_at(10, Duration::from_millis(100), 0),
        MessageCache::new(10, Duration::from_secs(10)),
    );
    mw.batch_message_at(Message { data: vec![1], message_type: MessageType::Binary }, 1).unwrap();
    let out = mw.flush_batch_at(2);
    assert_eq!(out.len(), 1);
    assert_eq!(out[0].data, vec![1]);
    assert_eq!(out[0].message_type, MessageType::Text);
    let _c = mw.get_pooled_connection_at("ws://a", 0).unwrap();
    match mw.get_pooled_connection_at("ws://a", 0) {
        Err(leptos_ws_pro::transport::TransportError::ConnectionFailed(m)) => {
            assert_eq!(m, "Failed to get pooled connection: PoolExhausted")
        }
        _ => panic!("expected exhaustion"),
    }
    let stats = mw.get_pool_stats();
    assert_eq!(stats.active_connections, 1);
    assert_eq!(stats.max_connections, 1);
}

#[test]
fn middleware_clocked_operations() {
    let mut mw = PerformanceMiddleware::new(
        ConnectionPool::new(2),
        MessageBatcher::new(2, Duration::from_secs(3600)),
        MessageCache::new(10, Duration::from_secs(3600)),
    );
    assert!(mw.batch_message(Message { data: vec![7], message_type: MessageType::Binary }).is_ok());
    assert!(!mw.should_flush_batch());
    let stats = mw.get_batch_stats();
    assert_eq!(stats.pending_messages, 1);
    assert_eq!(stats.batch_size, 2);
    assert!(!stats.should_flush);
    let out = mw.flush_batch();
    assert_eq!(out.len(), 1);
    assert_eq!(out[0].data, vec![7]);
    assert_eq!(out[0].message_type, MessageType::Text);
    assert_eq!(mw.get_batch_stats().pending_messages, 0);

    mw.cache_message("k".to_string(), Message { data: vec![1, 2], message_type: MessageType::Binary });
    let cached = mw.get_cached_message("k").unwrap();
    assert_eq!(cached.data, vec![1, 2]);
    assert_eq!(cached.message_type, MessageType::Text);
    assert!(mw.get_cached_message("missing").is_none());

    let mut conn = mw.get_pooled_connection("ws://a").unwrap();
    let before = conn.request_count;
    assert!(mw.optimize_connection(&mut conn).is_ok());
    assert_eq!(conn.request_count, before + 1);
    mw.return_connection(conn);
    assert_eq!(mw.get_pool_stats().active_connections, 1);
    assert_eq!(mw.get_pool_stats().available_connections, 1);
    mw.cleanup_idle_connections();
    assert_eq!(mw.get_pool_stats().available_connections, 1);
}

#[test]
fn mark_used_never_moves_back() {
    let mut c = PooledConnection::new_at("ws://x".to_string(), 100);
    c.mark_used_at(50);
    assert_eq!(c.last_used, 100);
    assert_eq!(c.request_count, 1);
    c.mark_used_at(200);
    assert_eq!(c.last_used, 200);
}
