use leptos_ws_pro::rpc::advanced::{self, settle, RpcHandler, RpcMethodRegistry, WaitOutcome};
use leptos_ws_pro::rpc::correlation::RpcCorrelationManager;
use leptos_ws_pro::rpc::{RpcClient, RpcError, RpcMethod, RpcResponse, RpcSubscription, SubscribeMessagesParams};
use leptos_ws_pro::codec::JsonCodec;
use leptos_ws_pro::transport::Message;
use std::time::Duration;

fn response(id: &str) -> RpcResponse<serde_json::Value> {
    RpcResponse { id: id.to_string(), result: Some(serde_json::Value::from(1)), error: None }
}

#[test]
fn rpc_method_names() {
    assert_eq!(RpcMethod::SendMessage.to_string(), "SendMessage");
    assert_eq!(RpcMethod::Broadcast.name(), "Broadcast");
}

#[test]
fn rpc_error_text_and_data() {
    let e = RpcError::new(-32603, "boom".to_string());
    assert_eq!(e.to_string(), "RPC Error -32603: boom");
    assert!(e.data.is_none());
    let e2 = e.with_data(serde_json::Value::from("x"));
    assert_eq!(e2.data, Some(serde_json::Value::from("x")));
    assert_eq!(RpcError::new(7, "ok".to_string()).to_string(), "RPC Error 7: ok");
}

#[test]
fn correlation_delivers_response() {
    let mut m = RpcCorrelationManager::with_timeout(Duration::from_secs(10));
    let mut rx = m.register_request_at("r1".to_string(), "echo".to_string(), 1_000);
    assert_eq!(m.pending_count(), 1);
    assert!(m.handle_response_at(response("r1"), 2_000).is_ok());
    assert_eq!(m.pending_count(), 0);
    let got = rx.try_recv().unwrap().unwrap();
    assert_eq!(got.id, "r1");
}

#[test]
fn correlation_unknown_and_late_responses() {
    let mut m = RpcCorrelationManager::with_timeout(Duration::from_secs(1));
    let e = m.handle_response_at(response("nope"), 0).unwrap_err();
    assert_eq!(e.code, -32603);
    assert_eq!(e.message, "No pending request found for ID: nope");
    let _rx = m.register_request_at("late".to_string(), "m".to_string(), 0);
    let e = m.handle_response_at(response("late"), 5_000).unwrap_err();
    assert_eq!(e.message, "Request late timed out");
    assert_eq!(m.pending_count(), 0);
}

#[test]
fn correlation_dropped_caller() {
    let mut m = RpcCorrelationManager::new();
    let rx = m.register_request_at("d".to_string(), "m".to_string(), 0);
    drop(rx);
    let e = m.handle_response_at(response("d"), 1).unwrap_err();
    assert_eq!(e.message, "Caller dropped request before response arrived");
}

#[test]
fn correlation_error_response_and_cancel() {
    let mut m = RpcCorrelationManager::new();
    let mut rx = m.register_request_at("a".to_string(), "m".to_string(), 0);
    let _rx2 = m.register_request_at("b".to_string(), "m".to_string(), 0);
    assert!(m.handle_error_response("a".to_string(), RpcError::new(1, "bad".to_string())).is_ok());
    assert_eq!(rx.try_recv().unwrap().unwrap_err().message, "bad");
    let e = m.handle_error_response("zz".to_string(), RpcError::new(1, "bad".to_string())).unwrap_err();
    assert_eq!(e.message, "No pending request found for error response ID: zz");
    assert!(m.cancel_request("b"));
    assert!(!m.cancel_request("b"));
    let _r3 = m.register_request_at("c".to_string(), "m".to_string(), 0);
    let _r4 = m.register_request_at("d".to_string(), "m".to_string(), 0);
    let mut ids = m.pending_request_ids();
    ids.sort();
    assert_eq!(ids, vec!["c".to_string(), "d".to_string()]);
    assert_eq!(m.cancel_all(), 2);
    assert_eq!(m.pending_count(), 0);
}

#[test]
fn correlation_cleanup_expired() {
    let mut m = RpcCorrelationManager::with_timeout(Duration::from_millis(100));
    let mut rx = m.register_request_at("old".to_string(), "slow".to_string(), 0);
    let _rx2 = m.register_request_at("new".to_string(), "fast".to_string(), 1_000);
    assert_eq!(m.cleanup_expired_at(500), 1);
    assert_eq!(m.pending_count(), 1);
    let err = rx.try_recv().unwrap().unwrap_err();
    assert_eq!(err.code, -32603);
    assert!(err.message.starts_with("Request old timed out after"));
}

#[test]
fn client_ids_and_calls() {
    let (tx, _rx) = tokio::sync::mpsc::unbounded_channel::<Message>();
    let mut client: RpcClient<serde_json::Value> = RpcClient::new(tx, JsonCodec::new());
    assert_eq!(client.generate_id(), "rpc_1");
    assert_eq!(client.generate_id(), "rpc_2");
    let ok = client.call("get_user", serde_json::Value::Null, RpcMethod::Query).unwrap();
    assert_eq!(ok.id, "rpc_3");
    assert!(ok.result.is_some());
    let err = client.call("trigger_error", serde_json::Value::Null, RpcMethod::Call).unwrap_err();
    assert_eq!(err.code, -32603);
    assert_eq!(err.message, "Simulated RPC error for testing");
    let sub: RpcSubscription<serde_json::Value> =
        client.subscribe(SubscribeMessagesParams { channel: None, room_id: None }).unwrap();
    assert_eq!(sub.id, "rpc_5");
    assert!(client.unsubscribe("rpc_5").is_ok());
    assert!(client.send_request(RpcMethod::Echo, serde_json::Value::Null).is_ok());
}

#[test]
fn client_handle_response_errors() {
    let (tx, _rx) = tokio::sync::mpsc::unbounded_channel::<Message>();
    let mut client: RpcClient<serde_json::Value> = RpcClient::new(tx, JsonCodec::new());
    let e = client.handle_response(Err("eof".to_string())).unwrap_err();
    assert_eq!(e.code, -32700);
    assert_eq!(e.message, "Parse error: eof");
    let e = client.handle_response(Ok(response("unknown"))).unwrap_err();
    assert_eq!(e.message, "Failed to complete request");
}

#[test]
fn advanced_settle_outcomes() {
    let ok = advanced::RpcResponse { id: "1".to_string(), result: Some(serde_json::Value::from(5)), error: None };
    assert_eq!(settle(WaitOutcome::Received(Ok(ok))).unwrap(), serde_json::Value::from(5));
    let bad = advanced::RpcResponse { id: "1".to_string(), result: None, error: Some("oops".to_string()) };
    assert!(matches!(settle(WaitOutcome::Received(Ok(bad))), Err(advanced::RpcError::InternalError(m)) if m == "oops"));
    let empty = advanced::RpcResponse { id: "1".to_string(), result: None, error: None };
    assert!(matches!(settle(WaitOutcome::Received(Ok(empty))), Err(advanced::RpcError::InternalError(m)) if m == "Empty response"));
    assert!(matches!(settle(WaitOutcome::ChannelClosed), Err(advanced::RpcError::ConnectionFailed(_))));
    assert!(matches!(settle(WaitOutcome::TimedOut), Err(advanced::RpcError::Timeout(m)) if m == "Request timed out"));
}

#[test]
fn advanced_correlation() {
    let mut m = advanced::RpcCorrelationManager::new(Duration::from_millis(100));
    let mut rx = m.register_request_at("x".to_string(), 0);
    let resp = advanced::RpcResponse { id: "x".to_string(), result: None, error: None };
    assert!(m.handle_response_at(resp, 50).is_ok());
    assert!(rx.try_recv().unwrap().is_ok());
    let _r = m.register_request_at("y".to_string(), 0);
    let resp = advanced::RpcResponse { id: "y".to_string(), result: None, error: None };
    assert!(matches!(m.handle_response_at(resp, 100), Err(advanced::RpcError::Timeout(_))));
    let _r2 = m.register_request_at("z".to_string(), 0);
    m.cleanup_expired_at(1_000);
    assert_eq!(m.pending_count(), 0);
}

fn object(key: &str, value: serde_json::Value) -> serde_json::Value {
    let mut map = serde_json::Map::new();
    map.insert(key.to_string(), value);
    serde_json::Value::Object(map)
}

struct Echo;

impl RpcHandler for Echo {
    fn handle(&self, params: serde_json::Value) -> Result<serde_json::Value, advanced::RpcError> {
        Ok(params)
    }
}

struct Refuse;

impl RpcHandler for Refuse {
    fn handle(&self, _params: serde_json::Value) -> Result<serde_json::Value, advanced::RpcError> {
        Err(advanced::RpcError::InvalidParams("no".to_string()))
    }
}

#[test]
fn test_rpc_method_registry() {
    let mut registry = RpcMethodRegistry::new();
    registry.register("echo", Echo);
    let result = registry.call("echo", object("message", serde_json::Value::from("hello")));
    assert!(result.is_ok());
    assert_eq!(result.unwrap()["message"], "hello");
    let result = registry.call("nonexistent", serde_json::Value::Object(serde_json::Map::new()));
    assert!(result.is_err());
    match result.unwrap_err() {
        advanced::RpcError::MethodNotFound(_) => {}
        _ => panic!("Expected MethodNotFound error"),
    }
}

#[test]
fn registry_names_and_replacement() {
    let mut registry = RpcMethodRegistry::new();
    assert!(registry.methods().is_empty());
    registry.register("a", Echo);
    registry.register("b", Echo);
    registry.register("a", Refuse);
    let mut names = registry.methods();
    names.sort();
    assert_eq!(names, vec!["a".to_string(), "b".to_string()]);
    assert!(matches!(registry.call("a", serde_json::Value::Null), Err(advanced::RpcError::InvalidParams(m)) if m == "no"));
    assert!(matches!(registry.call("zz", serde_json::Value::Null), Err(advanced::RpcError::MethodNotFound(m)) if m == "Method 'zz' not found"));
}

#[test]
fn test_rpc_correlation_manager() {
    let mut manager = advanced::RpcCorrelationManager::new(Duration::from_secs(5));
    let mut response_rx = manager.register_request("test-123".to_string());
    let response = advanced::RpcResponse {
        id: "test-123".to_string(),
        result: Some(object("success", serde_json::Value::Bool(true))),
        error: None,
    };
    assert!(manager.handle_response(response).is_ok());
    let result = response_rx.try_recv().unwrap();
    assert!(result.is_ok());
    let response = result.unwrap();
    assert_eq!(response.id, "test-123");
    assert!(response.result.is_some());
}

#[test]
fn test_correlation_manager_basic() {
    let mut manager = RpcCorrelationManager::new();
    let request_id = "test_123".to_string();
    let method = "test_method".to_string();
    let mut response_rx = manager.register_request(request_id.clone(), method.clone());
    assert_eq!(manager.pending_count(), 1);
    let response = RpcResponse {
        id: request_id.clone(),
        result: Some(object("success", serde_json::Value::Bool(true))),
        error: None,
    };
    assert!(manager.handle_response(response).is_ok());
    let result = response_rx.try_recv().unwrap();
    assert!(result.is_ok());
    let rpc_response = result.unwrap();
    assert_eq!(rpc_response.id, request_id);
    assert_eq!(manager.pending_count(), 0);
}

#[test]
fn test_correlation_manager_timeout() {
    let mut manager = RpcCorrelationManager::with_timeout(Duration::from_millis(100));
    let request_id = "timeout_test".to_string();
    let method = "timeout_method".to_string();
    let mut response_rx = manager.register_request_at(request_id.clone(), method, 1_000);
    let cleaned_up = manager.cleanup_expired_at(1_200);
    assert_eq!(cleaned_up, 1);
    let result = response_rx.try_recv().unwrap();
    assert!(result.is_err());
    let error = result.unwrap_err();
    assert!(error.message.contains("timed out"));
}

#[test]
fn test_correlation_manager_error_response() {
    let mut manager = RpcCorrelationManager::new();
    let request_id = "error_test".to_string();
    let method = "error_method".to_string();
    let mut response_rx = manager.register_request(request_id.clone(), method);
    let error = RpcError { code: 404, message: "Method not found".to_string(), data: None };
    assert!(manager.handle_error_response(request_id, error.clone()).is_ok());
    let result = response_rx.try_recv().unwrap();
    assert!(result.is_err());
    let received_error = result.unwrap_err();
    assert_eq!(received_error.code, 404);
    assert_eq!(received_error.message, "Method not found");
}

#[test]
fn test_correlation_manager_cancellation() {
    let mut manager = RpcCorrelationManager::new();
    let request_id = "cancel_test".to_string();
    let method = "cancel_method".to_string();
    let mut response_rx = manager.register_request(request_id.clone(), method);
    let cancelled = manager.cancel_request(&request_id);
    assert!(cancelled);
    let result = response_rx.try_recv().unwrap();
    assert!(result.is_err());
    let error = result.unwrap_err();
    assert!(error.message.contains("cancelled"));
}

#[test]
fn echo_peer_answers_requests() {
    let request = advanced::new_request("echo", object("message", serde_json::Value::from("hello")));
    assert_eq!(request.method, "echo");
    assert_eq!(request.id.len(), 36);
    let other = advanced::new_request("echo", serde_json::Value::Null);
    assert_ne!(request.id, other.id);
    let response = advanced::echo_response(&request);
    assert_eq!(response.id, request.id);
    assert!(response.error.is_none());
    let value = response.result.unwrap();
    assert_eq!(value["echo"]["message"], "hello");
    assert_eq!(value["method"], "echo");
    let mut manager = advanced::RpcCorrelationManager::new(Duration::from_secs(5));
    let mut rx = manager.register_request(request.id.clone());
    assert!(manager.handle_response(advanced::echo_response(&request)).is_ok());
    let settled = settle(WaitOutcome::Received(rx.try_recv().unwrap())).unwrap();
    assert_eq!(settled["method"], "echo");
}

#[test]
fn client_from_context_keeps_the_context() {
    let context = leptos_ws_pro::reactive::WebSocketContext::new_with_url("ws://example.com/rpc");
    let mut client: RpcClient<serde_json::Value> = RpcClient::from_context(&context, JsonCodec::new());
    assert_eq!(client.context().url(), "ws://example.com/rpc");
    assert_eq!(client.generate_id(), "rpc_1");
}

#[test]
fn call_sends_the_request_as_json_text() {
    let (tx, mut rx) = tokio::sync::mpsc::unbounded_channel::<Message>();
    let mut client: RpcClient<serde_json::Value> = RpcClient::new(tx, JsonCodec::new());
    let params = serde_json::Value::from("a\"b");
    client.call("say", params, RpcMethod::Call).unwrap();
    let sent = rx.try_recv().unwrap();
    assert_eq!(sent.message_type, leptos_ws_pro::transport::MessageType::Text);
    assert_eq!(
        String::from_utf8(sent.data).unwrap(),
        r#"{"id":"rpc_1","method":"say","params":"a\"b","method_type":"Call"}"#
    );
    let _ = client.call("an_error", serde_json::Value::Null, RpcMethod::Query);
    let sent = rx.try_recv().unwrap();
    assert_eq!(String::from_utf8(sent.data).unwrap(), r#"{"id":"rpc_2","method":"an_error","params":null,"method_type":"Query"}"#);
    assert!(rx.try_recv().is_err());
}

#[test]
fn reset_counter_leaves_client_numbering() {
    let (tx, _rx) = tokio::sync::mpsc::unbounded_channel::<Message>();
    let mut client: RpcClient<serde_json::Value> = RpcClient::new(tx, JsonCodec::new());
    assert_eq!(client.generate_id(), "rpc_1");
    leptos_ws_pro::rpc::reset_rpc_id_counter();
    assert_eq!(client.generate_id(), "rpc_2");
}

#[test]
fn call_escapes_the_method_name() {
    let (tx, mut rx) = tokio::sync::mpsc::unbounded_channel::<Message>();
    let mut client: RpcClient<serde_json::Value> = RpcClient::new(tx, JsonCodec::new());
    assert!(client.call("q\"\\\n\t\u{1}é/", serde_json::Value::Null, RpcMethod::Mutation).is_ok());
    let sent = rx.try_recv().unwrap();
    assert_eq!(
        String::from_utf8(sent.data).unwrap(),
        "{\"id\":\"rpc_1\",\"method\":\"q\\\"\\\\\\n\\t\\u0001é/\",\"params\":null,\"method_type\":\"Mutation\"}"
    );
}
