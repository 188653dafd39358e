use leptos_ws_pro::reactive::hooks;
use leptos_ws_pro::reactive::{
    create_collaborative_websocket, create_websocket_with_retry, provide_websocket, use_connection_metrics,
    use_connection_status, use_presence, use_websocket_errors, use_websocket_messages, use_websocket_send,
    use_websocket_status,
    use_websocket_with_reconnect, UserPresence, WebSocketContext, WebSocketPool,
};
use leptos_ws_pro::transport::{ConnectionState, Message, MessageType, TransportError};

#[test]
fn test_provide_websocket_legacy_compat() {
    let context = provide_websocket("ws://test");
    assert_eq!(context.url(), "ws://test");
    assert!(context.is_disconnected());
}

#[test]
fn test_websocket_pool() {
    let mut pool = WebSocketPool::new();
    assert_eq!(pool.connection_count(), 0);
    let context = hooks::use_websocket("ws://test");
    pool.add_connection("test".to_string(), context);
    assert_eq!(pool.connection_count(), 1);
    assert!(pool.get_connection("test").is_some());
    assert_eq!(pool.connection_names(), vec!["test"]);
}

#[test]
fn test_create_websocket_with_retry() {
    let context = create_websocket_with_retry("ws://test", 10, 500);
    assert_eq!(context.url(), "ws://test");
}

#[test]
fn test_create_collaborative_websocket() {
    let context = create_collaborative_websocket("ws://collab", "user123");
    assert_eq!(context.url(), "ws://collab");
}

#[test]
fn context_connects_and_refuses() {
    let mut ok = WebSocketContext::new_with_url("ws://example.com");
    assert!(ok.connect().is_ok());
    assert!(ok.is_connected());
    assert_eq!(ok.state(), ConnectionState::Connected);
    assert!(ok.disconnect().is_ok());
    assert!(ok.is_disconnected());
    let mut refused = WebSocketContext::new_with_url("ws://localhost:8080/ws");
    match refused.connect() {
        Err(TransportError::ConnectionFailed(t)) => assert_eq!(t, "Connection failed for testing"),
        _ => panic!("expected a refusal"),
    }
    assert_eq!(refused.connection_state(), ConnectionState::Disconnected);
    assert!(WebSocketContext::new_with_url("invalid-test-url").connect().is_err());
}

#[test]
fn context_sends_only_when_connected() {
    let mut c = WebSocketContext::new_with_url("ws://example.com");
    match c.send_text("hi".to_string()) {
        Err(TransportError::ConnectionFailed(t)) => assert_eq!(t, "Not connected"),
        _ => panic!("expected not connected"),
    }
    assert!(c.receive_message::<serde_json::Value>().is_err());
    c.connect().unwrap();
    c.send_text("hé".to_string()).unwrap();
    c.send_binary(vec![1, 2]).unwrap();
    c.send_message(&serde_json::Value::from(7)).unwrap();
    assert_eq!(c.send_message_with_ack(&serde_json::Value::Bool(true)).unwrap(), 12345);
    let sent = c.sent_messages();
    assert_eq!(sent.len(), 4);
    assert_eq!(sent[0].data, "hé".as_bytes().to_vec());
    assert_eq!(sent[0].message_type, MessageType::Text);
    assert_eq!(sent[1].message_type, MessageType::Binary);
    assert_eq!(sent[2].data, b"7".to_vec());
    let decoded: Vec<serde_json::Value> = c.get_sent_messages();
    assert_eq!(decoded, vec![serde_json::Value::from(7), serde_json::Value::Bool(true)]);
    match c.receive_message::<serde_json::Value>() {
        Err(TransportError::ReceiveFailed(t)) => assert_eq!(t, "No messages available"),
        _ => panic!("expected nothing to receive"),
    }
}

#[test]
fn context_takes_in_messages_and_heartbeats() {
    let mut c = WebSocketContext::new_with_url("ws://example.com");
    c.handle_message(Message { data: b"[1]".to_vec(), message_type: MessageType::Text });
    c.handle_message(Message { data: vec![0xff], message_type: MessageType::Binary });
    assert_eq!(c.messages().len(), 2);
    assert_eq!(c.get_connection_metrics().messages_received, 2);
    assert_eq!(c.get_connection_metrics().bytes_received, 4);
    let received: Vec<serde_json::Value> = c.get_received_messages();
    assert_eq!(received.len(), 1);
    c.send_heartbeat().unwrap();
    let ping = &c.sent_messages()[0];
    assert_eq!(ping.message_type, MessageType::Ping);
    let value: serde_json::Value = serde_json::from_slice(&ping.data).unwrap();
    assert_eq!(value["type"], "ping");
    assert!(value["timestamp"].as_u64().unwrap() > 0);
}

#[test]
fn context_quality_acks_and_presence() {
    let mut c = WebSocketContext::new_with_url("ws://example.com");
    assert_eq!(c.connection_quality(), 1000);
    assert!(!c.should_reconnect_due_to_quality());
    c.update_connection_quality(499);
    assert!(c.should_reconnect_due_to_quality());
    assert!(c.attempt_reconnection().is_ok());
    assert_eq!(c.reconnection_attempts_count(), 1);
    assert!(c.is_connected());
    c.acknowledge_message(3);
    c.acknowledge_message(9);
    assert_eq!(c.get_acknowledged_messages(), vec![3, 9]);
    c.update_presence("u1", UserPresence::online("u1".to_string()));
    assert!(c.get_presence().get("u1").is_some());
    assert_eq!(use_presence(&c).len(), 1);
    assert_eq!(c.reconnect_interval(), 5);
    assert_eq!(c.max_reconnect_attempts(), 3);
    assert_eq!(c.get_connection_pool_size(), 1);
    assert!(c.get_connection_from_pool().is_some());
    assert!(c.return_connection_to_pool(()).is_ok());
    assert!(c.process_message_batch().is_ok());
}

#[test]
fn hooks_read_the_context() {
    let mut c = use_websocket_with_reconnect("ws://example.com", 3, 100);
    assert_eq!(use_connection_status(&c), ConnectionState::Disconnected);
    assert!(use_websocket_status(&c).is_disconnected());
    c.connect().unwrap();
    let status = use_websocket_status(&c);
    assert!(status.is_connected());
    assert!(status.connected_at.is_some());
    assert_eq!(use_connection_metrics(&c).messages_sent, 0);
    assert!(use_websocket_errors(&c).is_empty());
    assert!(use_websocket_messages::<serde_json::Value>(&c, "chat").is_empty());
    let send = use_websocket_send::<u32>(&c);
    send(5);
    assert!(c.sent_messages().is_empty());
}

#[test]
fn pool_connects_and_disconnects_all() {
    let mut pool = WebSocketPool::default();
    pool.add_connection("a".to_string(), WebSocketContext::new_with_url("ws://a"));
    pool.add_connection("b".to_string(), WebSocketContext::new_with_url("ws://localhost:8080"));
    let results = pool.connect_all();
    assert!(results[0].is_ok());
    assert!(results[1].is_err());
    assert!(pool.get_connection("a").unwrap().is_connected());
    assert!(pool.get_connection("b").unwrap().is_disconnected());
    assert!(pool.disconnect_all().iter().all(|r| r.is_ok()));
    assert!(pool.get_connection("a").unwrap().is_disconnected());
    assert!(pool.remove_connection("a").is_some());
    assert!(pool.remove_connection("a").is_none());
    assert_eq!(pool.connection_names(), vec!["b"]);
}
