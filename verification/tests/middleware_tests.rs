use leptos_ws_pro::middleware::{
    AuthError, AuthenticatedRequest, AuthenticationLayer, Claims, CompressedRequest, CompressionLayer, JwtValidator,
    MetricsLayer, MetricsRequest, MetricsRequestType, MiddlewareError, MiddlewareStackBuilder, RateLimitError,
    RateLimitLayer, RateLimitedRequest, RateLimiter, WebSocketMiddleware, rate_limit_outcome,
};

struct AcceptAll;

impl JwtValidator for AcceptAll {
    fn validate(&self, token: &str) -> Result<Claims, AuthError> {
        if token == "good" {
            Ok(Claims { user_id: "u1".to_string(), permissions: vec![], expires_at: 0 })
        } else {
            Err(AuthError::InvalidToken(token.to_string()))
        }
    }
}

struct DenyAll;

impl RateLimiter for DenyAll {
    fn check_and_consume(&self, _user_id: &str, _count: u32) -> Result<(), RateLimitError> {
        Err(RateLimitError::RateLimitExceeded)
    }
}

#[test]
fn test_authentication_layer() {
    let layer = AuthenticationLayer::new(Box::new(AcceptAll));
    let ok = layer.call(AuthenticatedRequest { token: Some("good".to_string()), message: vec![1] }).unwrap();
    assert_eq!(ok.claims.user_id, "u1");
    assert_eq!(ok.original_request.message, vec![1]);
    assert!(matches!(
        layer.call(AuthenticatedRequest { token: None, message: vec![] }),
        Err(AuthError::MissingToken)
    ));
    assert!(matches!(
        layer.call(AuthenticatedRequest { token: Some("bad".to_string()), message: vec![] }),
        Err(AuthError::InvalidToken(_))
    ));
}

#[test]
fn test_rate_limit_layer() {
    let layer = RateLimitLayer::new(Box::new(DenyAll));
    assert!(layer.call(RateLimitedRequest { user_id: "u".to_string(), message: vec![] }).is_err());
}

#[test]
fn compression_layer_threshold() {
    let layer = CompressionLayer::new(4);
    let small = layer.call(CompressedRequest { data: vec![1, 2, 3] }).unwrap();
    assert_eq!(small.data, vec![1, 2, 3]);
    assert_eq!(small.original_size, 3);
    let payload = vec![7u8; 1000];
    let big = layer.call(CompressedRequest { data: payload.clone() }).unwrap();
    assert_eq!(big.original_size, 1000);
    assert!(big.data.len() < 1000);
    assert_eq!(zstd::decode_all(&big.data[..]).unwrap(), payload);
}

#[test]
fn metrics_layer_counts() {
    let mut layer = MetricsLayer::new();
    let r = layer.call(MetricsRequest { request_type: MetricsRequestType::MessageSent, data: vec![0; 10] }).unwrap();
    assert_eq!(r.metrics.messages_sent, 1);
    assert_eq!(r.metrics.bytes_sent, 10);
    layer.call(MetricsRequest { request_type: MetricsRequestType::ConnectionClosed, data: vec![] }).unwrap();
    let r = layer.call(MetricsRequest { request_type: MetricsRequestType::ConnectionEstablished, data: vec![] }).unwrap();
    assert_eq!(r.metrics.active_connections, 1);
    let r = layer.call(MetricsRequest { request_type: MetricsRequestType::ConnectionClosed, data: vec![] }).unwrap();
    assert_eq!(r.metrics.active_connections, 0);
}

#[test]
fn test_middleware_stack_builder() {
    let stack = MiddlewareStackBuilder::<()>::new().build();
    assert_eq!(stack.len(), 0);
}

struct Double;

impl WebSocketMiddleware for Double {
    type Request = u32;
    type Response = u32;
    type Error = MiddlewareError;

    fn call(&self, request: u32) -> Result<u32, MiddlewareError> {
        if request > 100 {
            Err(MiddlewareError::RateLimitExceeded(RateLimitError::RateLimitExceeded))
        } else {
            Ok(request * 2)
        }
    }
}

#[test]
fn stack_runs_layers_in_order() {
    let empty = MiddlewareStackBuilder::<u32>::new().build();
    assert_eq!(empty.process(7).unwrap(), 7);
    let stack = MiddlewareStackBuilder::<u32>::new().add(Double).add(Double).build();
    assert_eq!(stack.len(), 2);
    assert_eq!(stack.process(5).unwrap(), 20);
    assert!(matches!(stack.process(80), Err(MiddlewareError::RateLimitExceeded(_))));
}

#[test]
fn rate_limit_outcome_follows_the_verdict() {
    let request = RateLimitedRequest { user_id: "u".to_string(), message: vec![9] };
    let admitted = rate_limit_outcome(request.clone(), Ok(())).unwrap();
    assert_eq!(admitted.original_request.user_id, "u");
    assert_eq!(admitted.original_request.message, vec![9]);
    assert!(matches!(rate_limit_outcome(request, Err(RateLimitError::RateLimitExceeded)), Err(RateLimitError::RateLimitExceeded)));
}
