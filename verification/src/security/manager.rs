//! Security Manager
//!
//! Central security management and request validation

use std::hash::{Hash, Hasher};
use vstd::prelude::*;
use vstd::string::StringSliceAdditionalSpecFns;
use crate::clock::now_ms;
use crate::error_handling::ThreatLevel;
use crate::security::authenticator::{
    agent_threat_score, level_for_score, opt_view, payload_threat_score, Authenticator,
    ThreatDetector,
};
use crate::security::rate_limiter::RateLimiter;
use crate::security::validator::{input_rejection, validation_matches, InputValidator};
use crate::text::{
    char_vec, chars_start_with, concat_str, extend_chars, hex_chars, hexadecimal, lit, starts_with_seq,
    string_from_chars,
};

verus! {

/// Security errors
#[derive(Debug)]
pub enum SecurityError {
    RateLimitExceeded { client_id: String },
    AuthenticationFailed { reason: String },
    InvalidInput { reason: String },
    UnauthorizedOrigin { origin: String, allowed: Vec<String> },
    MissingOrigin,
    InvalidSession,
    ThreatDetected { level: ThreatLevel, description: String },
    CsrfValidationFailed,
    TlsRequired,
}

/// Request object for security validation; `timestamp` is in milliseconds
/// since the UNIX epoch.
#[derive(Debug, Clone)]
pub struct SecurityRequest {
    pub client_id: String,
    pub auth_token: Option<String>,
    pub payload: Vec<u8>,
    pub origin: Option<String>,
    pub user_agent: Option<String>,
    pub ip_address: Option<String>,
    pub timestamp: u64,
}

/// Security configuration
#[derive(Debug, Clone)]
pub struct SecurityConfig {
    pub enable_authentication: bool,
    pub enable_rate_limiting: bool,
    pub enable_input_validation: bool,
    pub enable_csrf_protection: bool,
    pub jwt_secret: Option<String>,
    pub rate_limit_requests_per_minute: u32,
    pub rate_limit_burst_capacity: u32,
    pub max_message_size: usize,
    pub allowed_origins: Vec<String>,
    pub require_tls: bool,
}

impl Default for SecurityConfig {
    fn default() -> (c: Self)
        ensures
            c.enable_authentication && c.enable_rate_limiting && c.enable_input_validation,
            c.enable_csrf_protection && c.require_tls,
            c.jwt_secret is None,
            c.rate_limit_requests_per_minute == 60,
            c.rate_limit_burst_capacity == 10,
            c.max_message_size == 1024 * 1024,
            c.allowed_origins@.len() == 1,
            c.allowed_origins@[0]@ == "*"@,
    {
        let mut allowed_origins: Vec<String> = Vec::new();
        allowed_origins.push("*".to_string());
        Self {
            enable_authentication: true,
            enable_rate_limiting: true,
            enable_input_validation: true,
            enable_csrf_protection: true,
            jwt_secret: None,
            rate_limit_requests_per_minute: 60,
            rate_limit_burst_capacity: 10,
            max_message_size: 1024 * 1024,
            allowed_origins,
            require_tls: true,
        }
    }
}

/// Why authentication refuses a token: there is none, or it is not valid.
pub open spec fn auth_failure_reason(token: Option<Seq<char>>) -> Seq<char> {
    match token {
        Some(_) => "Invalid token"@,
        None => "No authentication token provided"@,
    }
}

/// The views of a list of strings.
pub open spec fn views(v: Seq<String>) -> Seq<Seq<char>> {
    v.map_values(|s: String| s@)
}

/// An origin header is accepted when present and allowed, or when any origin is allowed.
pub open spec fn origin_accepted(allowed: Seq<Seq<char>>, origin: Option<Seq<char>>) -> bool {
    match origin {
        Some(o) => allowed.contains("*"@) || allowed.contains(o),
        None => false,
    }
}

/// Whether `list` holds a string equal to `item`.
pub fn contains_string(list: &Vec<String>, item: &String) -> (b: bool)
    ensures
        b == views(list@).contains(item@),
{
    let mut i: usize = 0;
    while i < list.len()
        invariant
            i <= list@.len(),
            forall|j: int| 0 <= j < i ==> list@[j]@ != item@,
        decreases list@.len() - i,
    {
        if list[i] == *item {
            proof { assert(views(list@)[i as int] == item@); }
            return true;
        }
        i += 1;
    }
    proof {
        if views(list@).contains(item@) {
            let j = choose|j: int| 0 <= j < views(list@).len() && views(list@)[j] == item@;
            assert(list@[j]@ == item@);
        }
    }
    false
}

/// A hash of the current time (`DefaultHasher` over `SystemTime::now()`).
/// Nothing is stated of the value: it depends on the time of the call.
#[verifier::external_body]
fn hash_of_now() -> u64 {
    let mut hasher = std::collections::hash_map::DefaultHasher::new();
    std::time::SystemTime::now().hash(&mut hasher);
    hasher.finish()
}

/// Session information; `expires_at` is in milliseconds since the UNIX epoch.
#[derive(Debug, Clone)]
pub struct SessionInfo {
    pub token: String,
    pub expires_at: u64,
    pub permissions: Vec<String>,
}

/// A session token is well formed: it begins with `session_` and is 24 bytes long.
pub open spec fn session_token_valid(token: &str) -> bool {
    starts_with_seq(token@, "session_"@) && token.len() == 24
}

/// The `Debug` text of a list of strings, as `format!("{:?}", list)`
/// writes it: the quoted, escaped strings between brackets.
pub uninterp spec fn strings_debug_text(list: Seq<Seq<char>>) -> Seq<char>;

/// `format!("{:?}", list)` on a vector of strings; its text is named, as a
/// function of the strings alone.
#[verifier::external_body]
fn strings_debug(list: &Vec<String>) -> (s: String)
    ensures
        s@ == strings_debug_text(views(list@)),
{
    format!("{:?}", list)
}

/// The name of a threat level, as its `Debug` text.
pub open spec fn threat_level_text(level: ThreatLevel) -> Seq<char> {
    match level {
        ThreatLevel::Low => "Low"@,
        ThreatLevel::Medium => "Medium"@,
        ThreatLevel::High => "High"@,
        ThreatLevel::Critical => "Critical"@,
    }
}

fn threat_level_chars(level: ThreatLevel) -> (v: Vec<char>)
    ensures
        v@ == threat_level_text(level),
{
    match level {
        ThreatLevel::Low => lit("Low"),
        ThreatLevel::Medium => lit("Medium"),
        ThreatLevel::High => lit("High"),
        ThreatLevel::Critical => lit("Critical"),
    }
}

/// The message of a security error.
pub open spec fn security_error_text(e: SecurityError) -> Seq<char> {
    match e {
        SecurityError::RateLimitExceeded { client_id } => "Rate limit exceeded for client: "@ + client_id@,
        SecurityError::AuthenticationFailed { reason } => "Authentication failed: "@ + reason@,
        SecurityError::InvalidInput { reason } => "Invalid input: "@ + reason@,
        SecurityError::UnauthorizedOrigin { origin, allowed } =>
            "Unauthorized origin: "@ + origin@ + ", allowed: "@ + strings_debug_text(views(allowed@)),
        SecurityError::MissingOrigin => "Missing origin header"@,
        SecurityError::InvalidSession => "Invalid session"@,
        SecurityError::ThreatDetected { level, description } =>
            "Threat detected (level: "@ + threat_level_text(level) + "): "@ + description@,
        SecurityError::CsrfValidationFailed => "CSRF token validation failed"@,
        SecurityError::TlsRequired => "TLS required but not present"@,
    }
}

impl SecurityError {
    /// The message of the error.
    pub fn to_string(&self) -> (s: String)
        ensures
            s@ == security_error_text(*self),
    {
        let v: Vec<char> = match self {
            SecurityError::RateLimitExceeded { client_id } => {
                let mut v = lit("Rate limit exceeded for client: ");
                extend_chars(&mut v, &char_vec(client_id.as_str()));
                v
            },
            SecurityError::AuthenticationFailed { reason } => {
                let mut v = lit("Authentication failed: ");
                extend_chars(&mut v, &char_vec(reason.as_str()));
                v
            },
            SecurityError::InvalidInput { reason } => {
                let mut v = lit("Invalid input: ");
                extend_chars(&mut v, &char_vec(reason.as_str()));
                v
            },
            SecurityError::UnauthorizedOrigin { origin, allowed } => {
                let mut v = lit("Unauthorized origin: ");
                extend_chars(&mut v, &char_vec(origin.as_str()));
                extend_chars(&mut v, &lit(", allowed: "));
                let listed = strings_debug(allowed);
                extend_chars(&mut v, &char_vec(listed.as_str()));
                v
            },
            SecurityError::MissingOrigin => lit("Missing origin header"),
            SecurityError::InvalidSession => lit("Invalid session"),
            SecurityError::ThreatDetected { level, description } => {
                let mut v = lit("Threat detected (level: ");
                extend_chars(&mut v, &threat_level_chars(*level));
                extend_chars(&mut v, &lit("): "));
                extend_chars(&mut v, &char_vec(description.as_str()));
                v
            },
            SecurityError::CsrfValidationFailed => lit("CSRF token validation failed"),
            SecurityError::TlsRequired => lit("TLS required but not present"),
        };
        string_from_chars(&v)
    }
}

/// When a session validated at `now` expires: one hour later, or at the end
/// of the clock's range.
pub open spec fn session_expiry(now: u64) -> u64 {
    if now <= u64::MAX - 3600000 { (now + 3600000) as u64 } else { u64::MAX }
}

/// The verdict `r` of the manager `m` on `request` at time `now`: the
/// request passes when rate limiting, authentication, input validation, the
/// origin and the threat analysis all let it through; otherwise the first
/// check that fails gives the error.
pub open spec fn request_verdict(m: SecurityManager, request: SecurityRequest, now: u64, r: Result<(), SecurityError>) -> bool {
    let origin_ok = origin_accepted(views(m.spec_config().allowed_origins@), opt_view(request.origin));
    let threat = m.request_threat(request);
    &&& (r is Ok) == (m.rate_passes(request, now) && m.auth_passes(request) && m.input_passes(request)
        && origin_ok && threat.spec_rank() < 2)
    &&& !m.rate_passes(request, now) ==> (r matches Err(SecurityError::RateLimitExceeded { client_id })
        && client_id@ == request.client_id@)
    &&& (m.rate_passes(request, now) && !m.auth_passes(request)) ==> (r matches Err(SecurityError::AuthenticationFailed { reason })
        && reason@ == auth_failure_reason(opt_view(request.auth_token)))
    &&& (m.rate_passes(request, now) && m.auth_passes(request) && !m.input_passes(request)) ==>
        validation_matches(r, input_rejection(m.spec_validator().spec_max_size() as nat, request.payload@))
    &&& (m.rate_passes(request, now) && m.auth_passes(request) && m.input_passes(request) && !origin_ok) ==>
        (r matches Err(SecurityError::MissingOrigin) || r matches Err(SecurityError::UnauthorizedOrigin { .. }))
    &&& (m.rate_passes(request, now) && m.auth_passes(request) && m.input_passes(request) && request.origin is None) ==>
        (r matches Err(SecurityError::MissingOrigin))
    &&& (m.rate_passes(request, now) && m.auth_passes(request) && m.input_passes(request) && origin_ok
        && threat.spec_rank() >= 2) ==>
        (r matches Err(SecurityError::ThreatDetected { level, description }) && level == threat
            && description@ == "High-risk request detected"@)
}

/// Security manager handling all security aspects
pub struct SecurityManager {
    config: SecurityConfig,
    rate_limiter: RateLimiter,
    validator: InputValidator,
    authenticator: Authenticator,
    threat_detector: ThreatDetector,
}

impl SecurityManager {
    pub closed spec fn spec_config(&self) -> SecurityConfig {
        self.config
    }

    pub closed spec fn spec_rate_limiter(&self) -> RateLimiter {
        self.rate_limiter
    }

    pub closed spec fn spec_validator(&self) -> InputValidator {
        self.validator
    }

    pub closed spec fn spec_threat_detector(&self) -> ThreatDetector {
        self.threat_detector
    }

    pub fn new(config: SecurityConfig) -> (m: Self)
        ensures
            m.spec_config() == config,
            m.spec_rate_limiter()@ == Map::<Seq<char>, crate::security::rate_limiter::TokenBucket>::empty(),
            m.spec_rate_limiter().spec_requests_per_minute() == config.rate_limit_requests_per_minute,
            m.spec_rate_limiter().spec_burst_capacity() == config.rate_limit_burst_capacity,
            m.spec_validator().spec_max_size() == config.max_message_size,
            m.spec_threat_detector().patterns() == crate::security::authenticator::default_threat_patterns(),
    {
        Self {
            rate_limiter: RateLimiter::new(
                config.rate_limit_requests_per_minute,
                config.rate_limit_burst_capacity,
            ),
            validator: InputValidator::new(config.max_message_size),
            authenticator: Authenticator::new(config.jwt_secret.clone()),
            threat_detector: ThreatDetector::new(),
            config,
        }
    }

    /// Whether a request with these parts passes every check at time `now`:
    /// the rate limit for `client`, authentication of `token`, validation of
    /// `payload`, the `origin` and the threat level (checks that are off pass).
    pub open spec fn admits(
        &self,
        client: Seq<char>,
        token: Option<Seq<char>>,
        payload: Seq<u8>,
        origin: Option<Seq<char>>,
        agent: Option<Seq<char>>,
        now: u64,
    ) -> bool {
        &&& self.rate_admits(client, now)
        &&& (!self.spec_config().enable_authentication || crate::security::authenticator::token_accepted(token))
        &&& (!self.spec_config().enable_input_validation
            || input_rejection(self.spec_validator().spec_max_size() as nat, payload) is None)
        &&& origin_accepted(views(self.spec_config().allowed_origins@), origin)
        &&& level_for_score(payload_threat_score(payload, self.spec_threat_detector().patterns()) + agent_threat_score(agent)).spec_rank() < 2
    }

    /// Whether a request from `client` passes the rate limit at time `now`
    /// (or the check is off).
    pub open spec fn rate_admits(&self, client: Seq<char>, now: u64) -> bool {
        !self.spec_config().enable_rate_limiting || self.spec_rate_limiter().bucket_for(client, now).refilled(now) > 0
    }

    /// The request passes the rate limit check at time `now` (or the check is off).
    pub open spec fn rate_passes(&self, request: SecurityRequest, now: u64) -> bool {
        !self.spec_config().enable_rate_limiting
            || self.spec_rate_limiter().bucket_for(request.client_id@, now).refilled(now) > 0
    }

    /// The request passes authentication (or the check is off).
    pub open spec fn auth_passes(&self, request: SecurityRequest) -> bool {
        !self.spec_config().enable_authentication
            || crate::security::authenticator::token_accepted(opt_view(request.auth_token))
    }

    /// The request passes input validation (or the check is off).
    pub open spec fn input_passes(&self, request: SecurityRequest) -> bool {
        !self.spec_config().enable_input_validation
            || input_rejection(self.spec_validator().spec_max_size() as nat, request.payload@) is None
    }

    /// The threat level that the detector assigns to the request.
    pub open spec fn request_threat(&self, request: SecurityRequest) -> ThreatLevel {
        level_for_score(
            payload_threat_score(request.payload@, self.spec_threat_detector().patterns())
                + agent_threat_score(opt_view(request.user_agent)),
        )
    }

    fn validate_origin(&self, origin: &Option<String>) -> (r: Result<(), SecurityError>)
        ensures
            (r is Ok) == origin_accepted(views(self.spec_config().allowed_origins@), opt_view(*origin)),
            origin is None ==> (r matches Err(SecurityError::MissingOrigin)),
            (origin is Some && r is Err) ==> (r matches Err(SecurityError::UnauthorizedOrigin { origin: o, .. }) && o@ == origin->0@),
    {
        if let Some(origin) = origin {
            if contains_string(&self.config.allowed_origins, &"*".to_string()) {
                return Ok(());
            }
            if contains_string(&self.config.allowed_origins, origin) {
                Ok(())
            } else {
                Err(SecurityError::UnauthorizedOrigin {
                    origin: origin.clone(),
                    allowed: self.config.allowed_origins.clone(),
                })
            }
        } else {
            Err(SecurityError::MissingOrigin)
        }
    }

    /// Validates a request at time `now`: rate limit, authentication, input,
    /// origin and threat level, in that order; the first failing check gives the error.
    pub fn validate_request_at(&mut self, request: &SecurityRequest, now: u64) -> (r: Result<(), SecurityError>)
        ensures
            request_verdict(*old(self), *request, now, r),
            final(self).spec_config() == old(self).spec_config(),
            final(self).spec_validator() == old(self).spec_validator(),
            final(self).spec_threat_detector() == old(self).spec_threat_detector(),
            !old(self).spec_config().enable_rate_limiting ==> final(self).spec_rate_limiter() == old(self).spec_rate_limiter(),
    {
        if self.config.enable_rate_limiting {
            let c = self.rate_limiter.check_request_at(request.client_id.as_str(), now);
            if c.is_err() {
                return c;
            }
        }
        if self.config.enable_authentication {
            let a = self.authenticator.authenticate(&request.auth_token);
            if a.is_err() {
                return a;
            }
        }
        if self.config.enable_input_validation {
            let v = self.validator.validate_input(request.payload.as_slice());
            if v.is_err() {
                return v;
            }
        }
        let o = self.validate_origin(&request.origin);
        if o.is_err() {
            return o;
        }
        let threat_level = match self.threat_detector.analyze_request(request) {
            Ok(l) => l,
            Err(e) => { return Err(e); },
        };
        if threat_level.at_least(&ThreatLevel::High) {
            return Err(SecurityError::ThreatDetected {
                level: threat_level,
                description: "High-risk request detected".to_string(),
            });
        }
        Ok(())
    }

    /// Validates a request now: rate limit, authentication, input, origin
    /// and threat level, in that order.
    pub fn validate_request(&mut self, request: &SecurityRequest) -> (r: Result<(), SecurityError>)
        ensures
            exists|now: u64| #[trigger] request_verdict(*old(self), *request, now, r),
            final(self).spec_config() == old(self).spec_config(),
            final(self).spec_validator() == old(self).spec_validator(),
            final(self).spec_threat_detector() == old(self).spec_threat_detector(),
            !old(self).spec_config().enable_rate_limiting ==> final(self).spec_rate_limiter() == old(self).spec_rate_limiter(),
    {
        let now = now_ms();
        let r = self.validate_request_at(request, now);
        assert(request_verdict(*old(self), *request, now, r));
        r
    }

    /// A session token: `session_` followed by a hash of the current time in hexadecimal.
    pub fn generate_session_token(&self) -> (token: String)
        ensures
            exists|h: u64| token@ == "session_"@ + hexadecimal(h as nat),
    {
        let h = hash_of_now();
        concat_str("session_", &hex_chars(h))
    }

    /// Accepts a 24-byte token beginning with `session_`; the session lasts
    /// one hour from `now` (milliseconds).
    pub fn validate_session_token_at(&self, token: &str, now: u64) -> (r: Result<SessionInfo, SecurityError>)
        ensures
            session_token_valid(token) ==> (r matches Ok(info) && info.token@ == token@
                && info.expires_at == session_expiry(now)
                && views(info.permissions@) == seq!["read"@, "write"@]),
            !session_token_valid(token) ==> (r matches Err(SecurityError::InvalidSession)),
    {
        if str_starts(token, "session_") && token.len() == 24 {
            let mut permissions: Vec<String> = Vec::new();
            permissions.push("read".to_string());
            permissions.push("write".to_string());
            proof { assert(views(permissions@) =~= seq!["read"@, "write"@]); }
            Ok(SessionInfo {
                token: token.to_string(),
                expires_at: now.saturating_add(3600000),
                permissions,
            })
        } else {
            Err(SecurityError::InvalidSession)
        }
    }

    /// Accepts a 24-byte token beginning with `session_`; the session lasts one hour.
    pub fn validate_session_token(&self, token: &str) -> (r: Result<SessionInfo, SecurityError>)
        ensures
            session_token_valid(token) ==> (r matches Ok(info) && info.token@ == token@
                && views(info.permissions@) == seq!["read"@, "write"@]),
            !session_token_valid(token) ==> (r matches Err(SecurityError::InvalidSession)),
            r matches Ok(info) ==> exists|now: u64| info.expires_at == #[trigger] session_expiry(now),
    {
        let now = now_ms();
        let r = self.validate_session_token_at(token, now);
        assert(r matches Ok(info) ==> info.expires_at == session_expiry(now));
        r
    }
}

fn str_starts(s: &str, p: &str) -> (b: bool)
    ensures
        b == starts_with_seq(s@, p@),
{
    chars_start_with(&char_vec(s), &char_vec(p))
}

} // verus!
