use leptos_ws_pro::error_handling::ThreatLevel;
use leptos_ws_pro::security::{SecurityManager, SecurityMiddleware};
use leptos_ws_pro::transport::TransportError;
use leptos_ws_pro::security::{CsrfProtector, InputValidator, RateLimiter, SecurityError, SecurityRequest, ThreatDetector, TokenBucket};

fn request(client: &str, payload: Vec<u8>, agent: Option<&str>) -> SecurityRequest {
    SecurityRequest {
        client_id: client.to_string(),
        auth_token: None,
        payload,
        origin: Some("https://example.com".to_string()),
        user_agent: agent.map(|a| a.to_string()),
        ip_address: Some("192.168.1.1".to_string()),
        timestamp: 0,
    }
}

#[test]
fn test_token_bucket() {
    let mut bucket = TokenBucket::new(60, 10);
    for _ in 0..10 {
        assert!(bucket.try_consume(1));
    }
    assert!(!bucket.try_consume(1));
}

#[test]
fn test_input_validator() {
    let validator = InputValidator::new(1000);
    assert!(validator.validate_input(b"Hello, world!").is_ok());
    let large_input = vec![0u8; 2000];
    assert!(validator.validate_input(&large_input).is_err());
    assert!(validator.validate_input(b"<script>alert('xss')</script>").is_err());
}

#[test]
fn test_threat_detector() {
    let mut detector = ThreatDetector::new();
    let req = request("test_client", vec![0u8; 100], Some("Mozilla/5.0"));
    let threat_level = detector.analyze_request(&req).unwrap();
    assert_eq!(threat_level, ThreatLevel::Low);
}

#[test]
fn test_rate_limiter() {
    let mut limiter = RateLimiter::new(60, 5);
    for _ in 0..5 {
        assert!(limiter.check_request("client1").is_ok());
    }
    assert!(limiter.check_request("client1").is_err());
    assert!(limiter.check_request("client2").is_ok());
}

#[test]
fn test_csrf_protector() {
    let mut protector = CsrfProtector::new();
    let token = protector.generate_token();
    assert!(protector.validate_token(&token).is_ok());
    assert!(protector.validate_token(&token).is_err());
}

#[test]
fn token_bucket_refills_over_time() {
    let mut bucket = TokenBucket::new_at(60, 2, 0);
    assert!(bucket.try_consume_at(2, 0));
    assert!(!bucket.try_consume_at(1, 0));
    assert!(!bucket.try_consume_at(1, 999));
    assert!(bucket.try_consume_at(1, 1000));
}

#[test]
fn rate_limiter_error_names_client() {
    let mut limiter = RateLimiter::new(60, 1);
    assert!(limiter.check_request_at("c", 0).is_ok());
    match limiter.check_request_at("c", 0) {
        Err(SecurityError::RateLimitExceeded { client_id }) => assert_eq!(client_id, "c"),
        _ => panic!("expected a rate limit error"),
    }
}

#[test]
fn input_validator_patterns_and_bounds() {
    let v = InputValidator::new(10);
    assert!(v.validate_input(&[0u8; 10]).is_ok());
    assert!(v.validate_input(&[0u8; 11]).is_err());
    let w = InputValidator::new(1000);
    assert!(w.validate_input(b"x JAVASCRIPT:alert(1)").is_err());
    assert!(w.validate_input(b"cat ../../etc/passwd").is_err());
    assert!(w.validate_input(b"plain text").is_ok());
}

#[test]
fn threat_detector_flags_large_payloads_and_agents() {
    let mut d = ThreatDetector::new();
    let big = request("a", vec![0u8; 2 * 1024 * 1024], Some("Mozilla/5.0"));
    let lvl = d.analyze_request_at(&big, 1_000).unwrap();
    assert_ne!(lvl, ThreatLevel::Low);
    let mut d2 = ThreatDetector::new();
    let bot = request("b", vec![0u8; 10], Some("curl/7.0"));
    let lvl2 = d2.analyze_request_at(&bot, 1_000).unwrap();
    assert_ne!(lvl2, ThreatLevel::Low);
}

#[test]
fn csrf_token_expires() {
    let mut p = CsrfProtector::new();
    let t = p.generate_token_at(42, 0);
    assert!(p.validate_token_at(&t, 10_000_000).is_err());
    let u = p.generate_token_at(43, 0);
    assert!(p.validate_token_at("not-a-token", 1).is_err());
    assert!(p.validate_token_at(&u, 1).is_ok());
}

fn open_config() -> leptos_ws_pro::security::SecurityConfig {
    let mut config = leptos_ws_pro::security::SecurityConfig::default();
    config.enable_authentication = false;
    config.rate_limit_burst_capacity = 1;
    config
}

fn text_message(data: &[u8]) -> leptos_ws_pro::transport::Message {
    leptos_ws_pro::transport::Message { data: data.to_vec(), message_type: leptos_ws_pro::transport::MessageType::Text }
}

#[test]
fn security_error_messages() {
    let e = SecurityError::UnauthorizedOrigin { origin: "a".to_string(), allowed: vec!["x".to_string()] };
    assert_eq!(e.to_string(), "Unauthorized origin: a, allowed: [\"x\"]");
    let e = SecurityError::ThreatDetected { level: ThreatLevel::High, description: "d".to_string() };
    assert_eq!(e.to_string(), "Threat detected (level: High): d");
    assert_eq!(SecurityError::RateLimitExceeded { client_id: "c".to_string() }.to_string(), "Rate limit exceeded for client: c");
    assert_eq!(SecurityError::MissingOrigin.to_string(), "Missing origin header");
    assert_eq!(SecurityError::TlsRequired.to_string(), "TLS required but not present");
}

#[test]
fn security_middleware_incoming_and_outgoing() {
    let mut strict = SecurityMiddleware::new(SecurityManager::new(leptos_ws_pro::security::SecurityConfig::default()));
    match strict.validate_incoming_message(&text_message(b"hi"), "c1", Some("https://x")) {
        Err(TransportError::ProtocolError(t)) => {
            assert_eq!(t, "Security validation failed: Authentication failed: No authentication token provided")
        }
        _ => panic!("expected an authentication refusal"),
    }
    let mut open = SecurityMiddleware::new(SecurityManager::new(open_config()));
    assert!(open.validate_incoming_message_at(&text_message(b"hi"), "c2", Some("https://x"), 0).is_ok());
    match open.validate_outgoing_message_at(&text_message(b"hi"), "c3", 0) {
        Err(TransportError::ProtocolError(t)) => assert_eq!(t, "Security validation failed: Missing origin header"),
        _ => panic!("expected a missing origin"),
    }
    match open.validate_incoming_message_at(&text_message(b"hi"), "c2", Some("https://x"), 0) {
        Err(TransportError::ProtocolError(t)) => assert_eq!(t, "Security validation failed: Rate limit exceeded for client: c2"),
        _ => panic!("expected the rate limit"),
    }
}

#[test]
fn security_middleware_rate_and_sessions() {
    let mut mw = SecurityMiddleware::new(SecurityManager::new(open_config()));
    match mw.check_rate_limit_at("c", 0) {
        Err(TransportError::ProtocolError(t)) => assert_eq!(t, "Security check failed: Invalid input: Empty payload not allowed"),
        _ => panic!("expected a missing origin"),
    }
    assert!(matches!(mw.check_rate_limit_at("c", 0), Err(TransportError::RateLimited)));
    let token = mw.generate_session_token();
    assert!(token.starts_with("session_"));
    assert!(mw.validate_session_token("session_0123456789abcdef").is_ok());
    match mw.validate_session_token("bad") {
        Err(TransportError::AuthFailed(t)) => assert_eq!(t, "Invalid session token"),
        _ => panic!("expected a refusal"),
    }
}

#[test]
fn rate_limiter_burst_at_one_instant() {
    let mut limiter = RateLimiter::new(60, 5);
    for _ in 0..5 {
        assert!(limiter.check_request_at("client1", 7_000).is_ok());
    }
    assert!(limiter.check_request_at("client1", 7_000).is_err());
    assert!(limiter.check_request_at("client2", 7_000).is_ok());
    assert!(limiter.check_request_at("client1", 8_000).is_ok());
    assert!(limiter.check_request_at("client1", 8_000).is_err());
}

#[test]
fn generated_token_authenticates() {
    let a = leptos_ws_pro::security::Authenticator::new(Some("secret".to_string()));
    let t = a.generate_token("u").unwrap();
    assert_eq!(t, "Bearer jwt_token_for_u");
    let info = a.authenticate(&Some(t)).unwrap();
    assert_eq!(info.user_id, "user_123");
    let none = leptos_ws_pro::security::Authenticator::new(None);
    assert!(matches!(none.generate_token("u"), Err(SecurityError::AuthenticationFailed { .. })));
}
