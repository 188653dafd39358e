//! Authentication and Authorization
//!
//! Authentication, threat detection, and CSRF protection

use vstd::prelude::*;
use crate::clock::now_ms;
use crate::error_handling::ThreatLevel;
use crate::security::manager::{SecurityError, SecurityRequest};
use crate::strmap::StrMap;
use crate::text::{
    char_vec, chars_contain, contains_seq, count_occurring, decimal, decimal_chars, extend_chars,
    lit, lower_chars, lowercase_chars, starts_with_seq, str_contains, str_starts_with,
    string_from_chars, utf8_str,
};

verus! {

/// The authentication outcome for a token.
pub open spec fn token_accepted(token: Option<Seq<char>>) -> bool {
    token matches Some(t) && starts_with_seq(t, "valid_token_"@)
}

/// Authenticator for user authentication
pub struct Authenticator {
    jwt_secret: Option<String>,
    sessions: StrMap<u64>,
}

impl Authenticator {
    pub closed spec fn spec_jwt_secret(&self) -> Option<String> {
        self.jwt_secret
    }

    pub fn new(jwt_secret: Option<String>) -> (a: Self)
        ensures
            a.spec_jwt_secret() == jwt_secret,
    {
        Self { jwt_secret, sessions: StrMap::new() }
    }

    /// Accepts a token that begins with `valid_token_`.
    pub fn authenticate(&self, token: &Option<String>) -> (r: Result<(), SecurityError>)
        ensures
            match token {
                Some(t) => if starts_with_seq(t@, "valid_token_"@) {
                    r is Ok
                } else {
                    r matches Err(SecurityError::AuthenticationFailed { reason }) && reason@ == "Invalid token"@
                },
                None => r matches Err(SecurityError::AuthenticationFailed { reason })
                    && reason@ == "No authentication token provided"@,
            },
    {
        match token {
            Some(token) => {
                if str_starts_with(token.as_str(), "valid_token_") {
                    Ok(())
                } else {
                    Err(SecurityError::AuthenticationFailed { reason: "Invalid token".to_string() })
                }
            },
            None => Err(SecurityError::AuthenticationFailed {
                reason: "No authentication token provided".to_string(),
            }),
        }
    }
}

/// User information
#[derive(Debug, Clone)]
pub struct UserInfo {
    pub user_id: String,
    pub username: String,
    pub permissions: Vec<String>,
    /// Milliseconds since the UNIX epoch.
    pub last_login: u64,
}

/// The patterns that a new threat detector looks for.
pub open spec fn default_threat_patterns() -> Seq<Seq<char>> {
    seq!["sql injection"@, "xss"@, "csrf"@, "malware"@]
}

/// Points for the payload: one per pattern found in its (lower-cased) text,
/// none if the payload is not valid UTF-8.
pub open spec fn payload_threat_score(payload: Seq<u8>, patterns: Seq<Seq<char>>) -> nat {
    if vstd::utf8::valid_utf8(payload) {
        count_occurring(lower_chars(vstd::utf8::decode_utf8(payload)), patterns)
    } else {
        0
    }
}

/// One point for a user agent that names a bot or a crawler.
pub open spec fn agent_threat_score(user_agent: Option<Seq<char>>) -> nat {
    match user_agent {
        Some(ua) => if contains_seq(ua, "bot"@) || contains_seq(ua, "crawler"@) { 1 } else { 0 },
        None => 0,
    }
}

/// The threat level for a score.
pub open spec fn level_for_score(score: nat) -> ThreatLevel {
    if score == 0 {
        ThreatLevel::Low
    } else if score == 1 {
        ThreatLevel::Medium
    } else if score <= 3 {
        ThreatLevel::High
    } else {
        ThreatLevel::Critical
    }
}

/// The level `r` that `d` gives `request`: that of its threat score.
pub open spec fn threat_verdict(d: ThreatDetector, request: SecurityRequest, r: Result<ThreatLevel, SecurityError>) -> bool {
    r == Ok::<ThreatLevel, SecurityError>(level_for_score(
        payload_threat_score(request.payload@, d.patterns()) + agent_threat_score(opt_view(request.user_agent)),
    ))
}

/// Whether `d` finds `message` a threat (`b`): its level is High or above.
pub open spec fn threat_in_message(d: ThreatDetector, message: Seq<char>, b: bool) -> bool {
    b == (level_for_score(count_occurring(lower_chars(message), d.patterns())).spec_rank() >= 2)
}

/// How the threat score of a request decides its level: one point for each
/// suspicious pattern in the payload and one for a bot or crawler agent; no
/// point is Low, exactly one Medium, two or three High and four or more
/// Critical. So a single suspicious pattern alone is never High.
pub proof fn lemma_threat_score_levels(d: ThreatDetector, request: SecurityRequest, r: Result<ThreatLevel, SecurityError>)
    requires
        threat_verdict(d, request, r),
    ensures
        ({
            let score = payload_threat_score(request.payload@, d.patterns()) + agent_threat_score(opt_view(request.user_agent));
            &&& score == 0 ==> r == Ok::<ThreatLevel, SecurityError>(ThreatLevel::Low)
            &&& score == 1 ==> r == Ok::<ThreatLevel, SecurityError>(ThreatLevel::Medium)
            &&& (2 <= score <= 3) ==> r == Ok::<ThreatLevel, SecurityError>(ThreatLevel::High)
            &&& score >= 4 ==> r == Ok::<ThreatLevel, SecurityError>(ThreatLevel::Critical)
        }),
{
}

/// A message is a threat exactly when it holds at least two of the
/// suspicious patterns (ignoring ASCII case): one pattern alone is not.
pub proof fn lemma_threat_needs_two_patterns(d: ThreatDetector, message: Seq<char>, b: bool)
    requires
        threat_in_message(d, message, b),
    ensures
        b == (count_occurring(lower_chars(message), d.patterns()) >= 2),
{
}

pub open spec fn opt_view(s: Option<String>) -> Option<Seq<char>> {
    match s {
        Some(x) => Some(x@),
        None => None,
    }
}

/// Threat detector for security analysis
pub struct ThreatDetector {
    suspicious_patterns: Vec<String>,
}

impl ThreatDetector {
    /// The patterns that the detector looks for.
    pub closed spec fn patterns(&self) -> Seq<Seq<char>> {
        self.suspicious_patterns@.map_values(|s: String| s@)
    }

    pub fn new() -> (d: Self)
        ensures
            d.patterns() == default_threat_patterns(),
    {
        let mut v: Vec<String> = Vec::new();
        v.push("sql injection".to_string());
        v.push("xss".to_string());
        v.push("csrf".to_string());
        v.push("malware".to_string());
        let d = Self { suspicious_patterns: v };
        proof { assert(d.patterns() =~= default_threat_patterns()); }
        d
    }

    /// The threat level of a request: one point per suspicious pattern in
    /// its payload and one for a bot or crawler user agent.
    pub fn analyze_request(&self, request: &SecurityRequest) -> (r: Result<ThreatLevel, SecurityError>)
        ensures
            r == Ok::<ThreatLevel, SecurityError>(level_for_score(
                payload_threat_score(request.payload@, self.patterns())
                    + agent_threat_score(opt_view(request.user_agent)),
            )),
            threat_verdict(*self, *request, r),
    {
        let mut threat_score: u128 = 0;
        let ghost pats = self.patterns();
        match utf8_str(request.payload.as_slice()) {
            Some(payload_str) => {
                let lowered = lowercase_chars(&char_vec(payload_str));
                let mut i: usize = 0;
                while i < self.suspicious_patterns.len()
                    invariant
                        i <= self.suspicious_patterns@.len(),
                        pats == self.patterns(),
                        lowered@ == lower_chars(payload_str@),
                        threat_score == count_occurring(lowered@, pats.take(i as int)),
                        threat_score <= i,
                    decreases self.suspicious_patterns@.len() - i,
                {
                    let p = char_vec(self.suspicious_patterns[i].as_str());
                    proof {
                        assert(pats.take(i + 1).drop_last() =~= pats.take(i as int));
                        assert(p@ == pats[i as int]);
                    }
                    if chars_contain(&lowered, &p) {
                        threat_score += 1;
                    }
                    i += 1;
                }
                proof { assert(pats.take(pats.len() as int) =~= pats); }
            },
            None => {},
        }
        match &request.user_agent {
            Some(ua) => {
                if str_contains(ua.as_str(), "bot") || str_contains(ua.as_str(), "crawler") {
                    threat_score += 1;
                }
            },
            None => {},
        }
        if threat_score == 0 {
            Ok(ThreatLevel::Low)
        } else if threat_score == 1 {
            Ok(ThreatLevel::Medium)
        } else if threat_score <= 3 {
            Ok(ThreatLevel::High)
        } else {
            Ok(ThreatLevel::Critical)
        }
    }

    /// Check if a message contains threats (convenience method): the text,
    /// sent with no user agent, reaches level `High` or `Critical`.
    pub fn is_threat(&self, message: String) -> (b: bool)
        ensures
            b == (level_for_score(count_occurring(lower_chars(message@), self.patterns())).spec_rank() >= 2),
            threat_in_message(*self, message@, b),
    {
        let request = SecurityRequest {
            client_id: "test_client".to_string(),
            auth_token: None,
            payload: message.as_str().as_bytes_vec(),
            origin: None,
            user_agent: None,
            ip_address: None,
            timestamp: now_ms(),
        };
        proof {
            vstd::utf8::encode_utf8_valid_utf8(message@);
            vstd::utf8::encode_utf8_decode_utf8(message@);
        }
        match self.analyze_request(&request) {
            Ok(level) => match level {
                ThreatLevel::High | ThreatLevel::Critical => true,
                _ => false,
            },
            Err(_) => true,
        }
    }
}

impl Default for ThreatDetector {
    fn default() -> (d: Self)
        ensures
            d.patterns() == default_threat_patterns(),
    {
        Self::new()
    }
}

/// CSRF protection
pub struct CsrfProtector {
    tokens: StrMap<u64>,
}

/// A token issued at the given time in milliseconds: `csrf_` and the whole seconds.
pub open spec fn csrf_token_text(now_ms: u64) -> Seq<char> {
    "csrf_"@ + decimal((now_ms / 1000) as nat)
}

impl CsrfProtector {
    /// Issued tokens with the time they were issued, in milliseconds.
    pub closed spec fn view(&self) -> Map<Seq<char>, u64> {
        self.tokens@
    }

    pub fn new() -> (c: Self)
        ensures
            c@ == Map::<Seq<char>, u64>::empty(),
    {
        Self { tokens: StrMap::new() }
    }

    /// Issues the token for time `now` (milliseconds) and records it.
    pub fn generate_token_at(&mut self, now: u64) -> (token: String)
        ensures
            token@ == csrf_token_text(now),
            final(self)@ == old(self)@.insert(token@, now),
    {
        let mut v = lit("csrf_");
        extend_chars(&mut v, &decimal_chars(now / 1000));
        let token = string_from_chars(&v);
        let key = string_from_chars(&v);
        self.tokens.insert(key, now);
        token
    }

    /// Issues a token named after the current time and records it.
    pub fn generate_token(&mut self) -> (token: String)
        ensures
            exists|now: u64| token@ == csrf_token_text(now) && final(self)@ == old(self)@.insert(token@, now),
    {
        let now = now_ms();
        self.generate_token_at(now)
    }

    /// Whether the token was issued by this protector.
    pub fn validate_token(&self, token: &str) -> (b: bool)
        ensures
            b == self@.dom().contains(token@),
    {
        self.tokens.contains_key(token)
    }
}

impl Default for CsrfProtector {
    fn default() -> (c: Self)
        ensures
            c@ == Map::<Seq<char>, u64>::empty(),
    {
        Self::new()
    }
}

} // verus!
