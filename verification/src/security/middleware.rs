//! Security Middleware
//!
//! Security checks applied to the messages of the transport layer.

use vstd::prelude::*;
use crate::clock::now_ms;
use crate::security::authenticator::opt_view;
use crate::security::manager::{
    auth_failure_reason, security_error_text, session_token_valid, SecurityError, SecurityManager, SecurityRequest,
};
use crate::text::{char_vec, concat_str, starts_with_seq};
use crate::transport::{Message, TransportError};

verus! {

/// The verdict `r` on a message from `client` carrying `data` and no token
/// or user agent, with the given origin, checked by `m` at time `now`: it
/// passes when the manager admits it; a refusal is a protocol error that
/// names the check that failed.
pub open spec fn message_verdict(m: SecurityManager, client: Seq<char>, data: Seq<u8>, origin: Option<Seq<char>>, now: u64, r: Result<(), TransportError>) -> bool {
    let prefix = "Security validation failed: "@;
    &&& (r is Ok) == m.admits(client, None, data, origin, None, now)
    &&& r matches Err(e) ==> (e matches TransportError::ProtocolError(t) && starts_with_seq(t@, prefix))
    &&& !m.rate_admits(client, now) ==> (r matches Err(TransportError::ProtocolError(t))
        && t@ == prefix + "Rate limit exceeded for client: "@ + client)
    &&& (m.rate_admits(client, now) && m.spec_config().enable_authentication) ==>
        (r matches Err(TransportError::ProtocolError(t))
            && t@ == prefix + "Authentication failed: "@ + "No authentication token provided"@)
}

/// The verdict `r` of a rate check of `client` by `m` at time `now`, made
/// with an empty request: a rate-limit refusal is `RateLimited`, any other
/// refusal a protocol error.
pub open spec fn rate_check_verdict(m: SecurityManager, client: Seq<char>, now: u64, r: Result<(), TransportError>) -> bool {
    let prefix = "Security check failed: "@;
    &&& (r is Ok) == m.admits(client, None, Seq::<u8>::empty(), None, None, now)
    &&& !m.rate_admits(client, now) ==> r == Err::<(), TransportError>(TransportError::RateLimited)
    &&& (m.rate_admits(client, now) && r is Err) ==>
        (r matches Err(TransportError::ProtocolError(t)) && starts_with_seq(t@, prefix))
    &&& (m.rate_admits(client, now) && m.spec_config().enable_authentication) ==>
        (r matches Err(TransportError::ProtocolError(t))
            && t@ == prefix + "Authentication failed: "@ + "No authentication token provided"@)
}

/// The view of an optional string slice.
pub open spec fn opt_str_view(s: Option<&str>) -> Option<Seq<char>> {
    match s {
        Some(t) => Some(t@),
        None => None,
    }
}

/// A protocol error whose text is `prefix` followed by the message of `e`.
pub open spec fn protocol_error_of(r: Result<(), TransportError>, prefix: Seq<char>, e: SecurityError) -> bool {
    r matches Err(TransportError::ProtocolError(t)) && t@ == prefix + security_error_text(e)
}

/// Security middleware for the transport layer.
pub struct SecurityMiddleware {
    security_manager: SecurityManager,
}

impl SecurityMiddleware {
    pub closed spec fn spec_manager(&self) -> SecurityManager {
        self.security_manager
    }

    pub fn new(security_manager: SecurityManager) -> (m: Self)
        ensures
            m.spec_manager() == security_manager,
    {
        Self { security_manager }
    }

    /// Validates a request with the manager at time `now`, reporting a
    /// refusal as a protocol error whose text begins with `prefix`.
    fn validate(&mut self, request: &SecurityRequest, prefix: &str, now: u64) -> (r: Result<(), TransportError>)
        ensures
            ({
                let m = old(self).spec_manager();
                let client = request.client_id@;
                let token = opt_view(request.auth_token);
                let payload = request.payload@;
                let origin = opt_view(request.origin);
                let agent = opt_view(request.user_agent);
                &&& (r is Ok) == m.admits(client, token, payload, origin, agent, now)
                &&& r matches Err(e) ==> (e matches TransportError::ProtocolError(t) && starts_with_seq(t@, prefix@))
                &&& !m.rate_admits(client, now) ==> (r matches Err(TransportError::ProtocolError(t))
                    && t@ == prefix@ + "Rate limit exceeded for client: "@ + client)
                &&& (m.rate_admits(client, now) && m.spec_config().enable_authentication
                    && !crate::security::authenticator::token_accepted(token)) ==>
                    (r matches Err(TransportError::ProtocolError(t))
                        && t@ == prefix@ + "Authentication failed: "@ + auth_failure_reason(token))
            }),
            final(self).spec_manager().spec_config() == old(self).spec_manager().spec_config(),
    {
        match self.security_manager.validate_request_at(request, now) {
            Ok(()) => Ok(()),
            Err(e) => {
                let text = e.to_string();
                let t = concat_str(prefix, &char_vec(text.as_str()));
                proof {
                    assert(t@.subrange(0, prefix@.len() as int) =~= prefix@);
                }
                Err(TransportError::ProtocolError(t))
            },
        }
    }

    /// Validates an incoming message from `client_id` at time `now`; it
    /// carries no authentication token and no user agent.
    pub fn validate_incoming_message_at(
        &mut self,
        message: &Message,
        client_id: &str,
        origin: Option<&str>,
        now: u64,
    ) -> (r: Result<(), TransportError>)
        ensures
            message_verdict(old(self).spec_manager(), client_id@, message.data@, opt_str_view(origin), now, r),
            final(self).spec_manager().spec_config() == old(self).spec_manager().spec_config(),
    {
        let origin_owned: Option<String> = match origin {
            Some(o) => Some(o.to_string()),
            None => None,
        };
        let request = SecurityRequest {
            client_id: client_id.to_string(),
            auth_token: None,
            payload: message.data.clone(),
            origin: origin_owned,
            user_agent: None,
            ip_address: None,
            timestamp: now,
        };
        proof {
            assert(request.payload@ == message.data@);
            assert(request.client_id@ == client_id@);
            assert(opt_view(request.origin) == opt_str_view(origin));
        }
        self.validate(&request, "Security validation failed: ", now)
    }

    /// Validates an incoming message from `client_id` now.
    pub fn validate_incoming_message(
        &mut self,
        message: &Message,
        client_id: &str,
        origin: Option<&str>,
    ) -> (r: Result<(), TransportError>)
        ensures
            r matches Err(e) ==> (e matches TransportError::ProtocolError(t)
                && starts_with_seq(t@, "Security validation failed: "@)),
            old(self).spec_manager().spec_config().enable_authentication ==> r is Err,
            final(self).spec_manager().spec_config() == old(self).spec_manager().spec_config(),
            exists|now: u64| #[trigger] message_verdict(old(self).spec_manager(), client_id@, message.data@, opt_str_view(origin), now, r),
    {
        let now = now_ms();
        let r = self.validate_incoming_message_at(message, client_id, origin, now);
        assert(message_verdict(old(self).spec_manager(), client_id@, message.data@, opt_str_view(origin), now, r));
        r
    }

    /// Validates an outgoing message to `client_id` at time `now`; it
    /// carries no token, origin or user agent.
    pub fn validate_outgoing_message_at(&mut self, message: &Message, client_id: &str, now: u64) -> (r: Result<(), TransportError>)
        ensures
            message_verdict(old(self).spec_manager(), client_id@, message.data@, None, now, r),
            r is Err,
            final(self).spec_manager().spec_config() == old(self).spec_manager().spec_config(),
    {
        let request = SecurityRequest {
            client_id: client_id.to_string(),
            auth_token: None,
            payload: message.data.clone(),
            origin: None,
            user_agent: None,
            ip_address: None,
            timestamp: now,
        };
        proof { assert(request.payload@ == message.data@); }
        self.validate(&request, "Security validation failed: ", now)
    }

    /// Validates an outgoing message to `client_id` now; with no origin it
    /// is never accepted.
    pub fn validate_outgoing_message(&mut self, message: &Message, client_id: &str) -> (r: Result<(), TransportError>)
        ensures
            r matches Err(e) ==> (e matches TransportError::ProtocolError(t)
                && starts_with_seq(t@, "Security validation failed: "@)),
            r is Err,
            final(self).spec_manager().spec_config() == old(self).spec_manager().spec_config(),
            exists|now: u64| #[trigger] message_verdict(old(self).spec_manager(), client_id@, message.data@, None, now, r),
    {
        let now = now_ms();
        let r = self.validate_outgoing_message_at(message, client_id, now);
        assert(message_verdict(old(self).spec_manager(), client_id@, message.data@, None, now, r));
        r
    }

    /// Checks the rate limit of `client_id` at time `now` with an empty
    /// request: a rate-limit refusal is `RateLimited`, any other refusal a
    /// protocol error.
    pub fn check_rate_limit_at(&mut self, client_id: &str, now: u64) -> (r: Result<(), TransportError>)
        ensures
            rate_check_verdict(old(self).spec_manager(), client_id@, now, r),
            r is Err,
            final(self).spec_manager().spec_config() == old(self).spec_manager().spec_config(),
    {
        let request = SecurityRequest {
            client_id: client_id.to_string(),
            auth_token: None,
            payload: Vec::new(),
            origin: None,
            user_agent: None,
            ip_address: None,
            timestamp: now,
        };
        let ghost m = self.security_manager;
        let verdict = self.security_manager.validate_request_at(&request, now);
        proof {
            assert(crate::security::manager::request_verdict(m, request, now, verdict));
            assert(m.rate_passes(request, now) == m.rate_admits(client_id@, now));
            assert(m.auth_passes(request) == (!m.spec_config().enable_authentication || crate::security::authenticator::token_accepted(None)));
            assert((verdict is Ok) == m.admits(client_id@, None, Seq::<u8>::empty(), None, None, now));
        }
        let r = match verdict {
            Ok(()) => Ok(()),
            Err(SecurityError::RateLimitExceeded { .. }) => Err(TransportError::RateLimited),
            Err(e) => {
                let text = e.to_string();
                let t = concat_str("Security check failed: ", &char_vec(text.as_str()));
                proof {
                    assert(t@.subrange(0, "Security check failed: "@.len() as int) =~= "Security check failed: "@);
                    if m.rate_admits(client_id@, now) && m.spec_config().enable_authentication {
                        assert(!crate::security::authenticator::token_accepted(None));
                        assert(e matches SecurityError::AuthenticationFailed { reason } && reason@ == auth_failure_reason(None));
                        assert(text@ == "Authentication failed: "@ + auth_failure_reason(None));
                    }
                }
                Err(TransportError::ProtocolError(t))
            },
        };
        proof {
            let prefix = "Security check failed: "@;
            assert((r is Ok) == m.admits(client_id@, None, Seq::<u8>::empty(), None, None, now));
            assert(!m.rate_admits(client_id@, now) ==> r == Err::<(), TransportError>(TransportError::RateLimited));
            assert((m.rate_admits(client_id@, now) && r is Err) ==>
                (r matches Err(TransportError::ProtocolError(t)) && starts_with_seq(t@, prefix)));
            assert(auth_failure_reason(None) == "No authentication token provided"@);
            assert((m.rate_admits(client_id@, now) && m.spec_config().enable_authentication) ==>
                (r matches Err(TransportError::ProtocolError(t))
                    && t@ == prefix + "Authentication failed: "@ + "No authentication token provided"@));
            assert(m == old(self).spec_manager());
        }
        r
    }

    /// Checks the rate limit of `client_id` now.
    pub fn check_rate_limit(&mut self, client_id: &str) -> (r: Result<(), TransportError>)
        ensures
            r is Err,
            r matches Err(e) ==> (e is RateLimited || (e matches TransportError::ProtocolError(t)
                && starts_with_seq(t@, "Security check failed: "@))),
            final(self).spec_manager().spec_config() == old(self).spec_manager().spec_config(),
            exists|now: u64| #[trigger] rate_check_verdict(old(self).spec_manager(), client_id@, now, r),
    {
        let now = now_ms();
        let r = self.check_rate_limit_at(client_id, now);
        assert(rate_check_verdict(old(self).spec_manager(), client_id@, now, r));
        r
    }

    /// A new session token from the manager.
    pub fn generate_session_token(&self) -> (token: String)
        ensures
            exists|h: u64| token@ == "session_"@ + crate::text::hexadecimal(h as nat),
    {
        self.security_manager.generate_session_token()
    }

    /// Accepts a well-formed session token; any other is refused as
    /// `Invalid session token`.
    pub fn validate_session_token(&self, token: &str) -> (r: Result<(), TransportError>)
        ensures
            session_token_valid(token) ==> r is Ok,
            !session_token_valid(token) ==> (r matches Err(TransportError::AuthFailed(t)) && t@ == "Invalid session token"@),
    {
        match self.security_manager.validate_session_token(token) {
            Ok(_) => Ok(()),
            Err(_) => Err(TransportError::AuthFailed("Invalid session token".to_string())),
        }
    }
}

} // verus!
