//! Production Security Layer
//!
//! Comprehensive security features including authentication, authorization,
//! rate limiting, input validation, and threat protection

pub mod authenticator;
pub mod manager;
pub mod middleware;
pub mod rate_limiter;
pub mod validator;

use vstd::prelude::*;
use vstd::string::StringSliceAdditionalSpecFns;
use crate::clock::{now_ms, random_u64};
use crate::error_handling::ThreatLevel;
use crate::strmap::StrMap;
use crate::text::{
    bytes_contain, char_vec, chars_contain, concat_str, contains_seq, decimal, decimal_chars,
    extend_chars, hex_chars, hexadecimal, lit, lower_bytes, lower_chars, lowercase_bytes,
    lowercase_chars, starts_with_seq, str_starts_with, string_from_chars,
};
pub use crate::security::manager::{SecurityConfig, SecurityError, SecurityManager, SecurityRequest, SessionInfo};
pub use crate::security::middleware::SecurityMiddleware;
use crate::security::manager::{contains_string, origin_accepted, views};
use crate::security::authenticator::opt_view;
use crate::security::rate_limiter::elapsed;
use crate::security::validator::validation_matches;

verus! {

/// One token in the fixed-point unit in which buckets count (a token is
/// earned over 60000 unit-milliseconds at one request per minute).
pub open spec fn token_units() -> nat {
    60000
}

/// Rate limiter using token bucket algorithm
pub struct RateLimiter {
    buckets: StrMap<TokenBucket>,
    requests_per_minute: u32,
    burst_capacity: u32,
}

/// Token bucket for rate limiting. Tokens are counted exactly, in units of
/// 1/60000 of a token; the bucket refills at `requests_per_minute / 60`
/// tokens per second, up to its capacity. Times are in milliseconds.
pub struct TokenBucket {
    tokens: u64,
    capacity: u64,
    refill_rate: u64,
    last_refill: u64,
}

impl TokenBucket {
    /// Tokens held, in units.
    pub closed spec fn spec_units(&self) -> nat {
        self.tokens as nat
    }

    /// Capacity, in units.
    pub closed spec fn spec_capacity_units(&self) -> nat {
        self.capacity as nat
    }

    /// Units earned per elapsed millisecond (the requests per minute).
    pub closed spec fn spec_rate(&self) -> nat {
        self.refill_rate as nat
    }

    pub closed spec fn spec_last_refill(&self) -> u64 {
        self.last_refill
    }

    /// Units held at time `now` after the refill.
    pub open spec fn refilled_units(&self, now: u64) -> nat {
        let t = self.spec_units() + elapsed(self.spec_last_refill(), now) * self.spec_rate();
        if t > self.spec_capacity_units() { self.spec_capacity_units() } else { t }
    }

    /// A full bucket of `capacity` tokens, refilling at `requests_per_minute`
    /// per minute, whose clock starts at `now`.
    pub fn new_at(requests_per_minute: u32, capacity: u32, now: u64) -> (b: Self)
        ensures
            b.spec_units() == capacity * token_units(),
            b.spec_capacity_units() == capacity * token_units(),
            b.spec_rate() == requests_per_minute,
            b.spec_last_refill() == now,
    {
        let units: u64 = capacity as u64 * 60000;
        Self { tokens: units, capacity: units, refill_rate: requests_per_minute as u64, last_refill: now }
    }

    /// A full bucket whose clock starts now.
    pub fn new(requests_per_minute: u32, capacity: u32) -> (b: Self)
        ensures
            b.spec_units() == capacity * token_units(),
            b.spec_capacity_units() == capacity * token_units(),
            b.spec_rate() == requests_per_minute,
    {
        Self::new_at(requests_per_minute, capacity, now_ms())
    }

    fn refill_at(&mut self, now: u64)
        ensures
            final(self).spec_units() == old(self).refilled_units(now),
            final(self).spec_last_refill() == now,
            final(self).spec_capacity_units() == old(self).spec_capacity_units(),
            final(self).spec_rate() == old(self).spec_rate(),
    {
        let passed: u64 = if now >= self.last_refill { now - self.last_refill } else { 0 };
        proof {
            assert((passed as u128) * (self.refill_rate as u128) <= u64::MAX as u128 * u64::MAX as u128) by (nonlinear_arith)
                requires passed <= u64::MAX, self.refill_rate <= u64::MAX;
        }
        let total: u128 = self.tokens as u128 + (passed as u128) * (self.refill_rate as u128);
        let new_tokens: u64 = if total > self.capacity as u128 { self.capacity } else { total as u64 };
        self.tokens = new_tokens;
        self.last_refill = now;
    }

    /// Takes `tokens` tokens at time `now` (after refilling), or none if fewer are held.
    pub fn try_consume_at(&mut self, tokens: u32, now: u64) -> (ok: bool)
        ensures
            ok == (old(self).refilled_units(now) >= tokens * token_units()),
            final(self).spec_units() == if ok {
                (old(self).refilled_units(now) - tokens * token_units()) as nat
            } else {
                old(self).refilled_units(now)
            },
            final(self).spec_last_refill() == now,
            final(self).spec_capacity_units() == old(self).spec_capacity_units(),
            final(self).spec_rate() == old(self).spec_rate(),
            final(self).spec_units() <= final(self).spec_capacity_units(),
            tokens == 1 ==> took_one_at(*old(self), *final(self), now, ok),
    {
        proof { lemma_refill_capped(*self, now); }
        self.refill_at(now);
        let need: u64 = tokens as u64 * 60000;
        if self.tokens >= need {
            self.tokens = self.tokens - need;
            true
        } else {
            false
        }
    }

    /// Takes `tokens` tokens now (after refilling), or none if fewer are held.
    pub fn try_consume(&mut self, tokens: u32) -> (ok: bool)
        ensures
            exists|now: u64| #![trigger old(self).refilled_units(now)] {
                &&& ok == (old(self).refilled_units(now) >= tokens * token_units())
                &&& final(self).spec_units() == if ok {
                    (old(self).refilled_units(now) - tokens * token_units()) as nat
                } else {
                    old(self).refilled_units(now)
                }
            },
            final(self).spec_capacity_units() == old(self).spec_capacity_units(),
    {
        self.try_consume_at(tokens, now_ms())
    }
}

/// A refill never fills a bucket past its capacity, however long it waited.
pub proof fn lemma_refill_capped(b: TokenBucket, now: u64)
    ensures
        b.refilled_units(now) <= b.spec_capacity_units(),
{
}

/// `after` is the bucket `before` after a request for one token at `now`,
/// granted or not (`ok`): what `try_consume_at` states of it.
pub open spec fn took_one_at(before: TokenBucket, after: TokenBucket, now: u64, ok: bool) -> bool {
    &&& ok == (before.refilled_units(now) >= token_units())
    &&& after.spec_units() == if ok { (before.refilled_units(now) - token_units()) as nat } else { before.refilled_units(now) }
    &&& after.spec_last_refill() == now
    &&& after.spec_capacity_units() == before.spec_capacity_units()
    &&& after.spec_rate() == before.spec_rate()
}

/// The number of requests granted.
pub open spec fn granted_count(grants: Seq<bool>) -> nat
    decreases grants.len(),
{
    if grants.len() == 0 { 0 } else { granted_count(grants.drop_last()) + (if grants.last() { 1nat } else { 0nat }) }
}

proof fn lemma_same_instant_run(trace: Seq<TokenBucket>, grants: Seq<bool>, now: u64)
    requires
        grants.len() >= 1,
        trace.len() == grants.len() + 1,
        forall|i: int| 0 <= i < grants.len() ==> #[trigger] took_one_at(trace[i], trace[i + 1], now, grants[i]),
    ensures
        trace.last().spec_units() + granted_count(grants) * token_units() == trace[0].refilled_units(now),
        trace.last().spec_last_refill() == now,
        trace.last().spec_capacity_units() == trace[0].spec_capacity_units(),
    decreases grants.len(),
{
    let n = grants.len() as int;
    let j = n - 1;
    assert(took_one_at(trace[j], trace[j + 1], now, grants[j]));
    assert(trace[j + 1] == trace.last());
    if n == 1 {
        assert(granted_count(grants.drop_last()) == 0);
    } else {
        let t = trace.drop_last();
        let g = grants.drop_last();
        assert forall|i: int| 0 <= i < g.len() implies #[trigger] took_one_at(t[i], t[i + 1], now, g[i]) by {
            assert(took_one_at(trace[i], trace[i + 1], now, grants[i]));
        }
        lemma_same_instant_run(t, g, now);
        let prev = trace[n - 1];
        assert(prev == t.last());
        lemma_refill_capped(trace[0], now);
        assert(0nat * prev.spec_rate() == 0) by (nonlinear_arith);
        assert(prev.refilled_units(now) == prev.spec_units());
    }
}

/// However long a bucket waited, the requests for one token that it grants
/// at one instant take at most its capacity: the refill stops at the
/// capacity, and nothing refills within the instant.
pub proof fn lemma_burst_within_capacity(trace: Seq<TokenBucket>, grants: Seq<bool>, now: u64)
    requires
        trace.len() == grants.len() + 1,
        forall|i: int| 0 <= i < grants.len() ==> #[trigger] took_one_at(trace[i], trace[i + 1], now, grants[i]),
    ensures
        granted_count(grants) * token_units() <= trace[0].spec_capacity_units(),
{
    lemma_refill_capped(trace[0], now);
    if grants.len() > 0 {
        lemma_same_instant_run(trace, grants, now);
    }
}

/// With no time elapsed, a bucket holding `k` whole tokens grants exactly `k`
/// single-token requests: after `i < k` grants a further request is granted.
pub proof fn lemma_burst_at_one_instant(b: TokenBucket, k: nat, i: nat)
    requires
        b.spec_units() == k * token_units(),
        b.spec_units() <= b.spec_capacity_units(),
    ensures
        b.refilled_units(b.spec_last_refill()) == b.spec_units(),
        (b.spec_units() >= 1 * token_units()) == (k >= 1),
{
    let r = b.spec_rate();
    assert(0nat * r == 0) by (nonlinear_arith);
    assert((k * 60000 >= 60000) == (k >= 1)) by (nonlinear_arith);
}

impl RateLimiter {
    /// The bucket of each client seen so far.
    pub closed spec fn view(&self) -> Map<Seq<char>, TokenBucket> {
        self.buckets@
    }

    /// The bucket that a request from `client` at time `now` draws on.
    pub closed spec fn bucket_for(&self, client: Seq<char>, now: u64) -> TokenBucket {
        if self.buckets@.dom().contains(client) {
            self.buckets@[client]
        } else {
            TokenBucket {
                tokens: (self.burst_capacity as u64 * 60000) as u64,
                capacity: (self.burst_capacity as u64 * 60000) as u64,
                refill_rate: self.requests_per_minute as u64,
                last_refill: now,
            }
        }
    }

    /// The requests per minute that new buckets refill at.
    pub closed spec fn spec_requests_per_minute(&self) -> u32 {
        self.requests_per_minute
    }

    /// The tokens that new buckets start with and can hold.
    pub closed spec fn spec_burst_capacity(&self) -> u32 {
        self.burst_capacity
    }

    /// The bucket a request draws on: the client's own, or else a full one
    /// of the limiter's capacity and rate whose clock starts at `now`.
    pub proof fn lemma_bucket_for(&self, client: Seq<char>, now: u64)
        ensures
            self@.dom().contains(client) ==> self.bucket_for(client, now) == self@[client],
            !self@.dom().contains(client) ==> {
                let b = self.bucket_for(client, now);
                &&& b.spec_units() == self.spec_burst_capacity() * token_units()
                &&& b.spec_capacity_units() == self.spec_burst_capacity() * token_units()
                &&& b.spec_rate() == self.spec_requests_per_minute()
                &&& b.spec_last_refill() == now
            },
    {
    }

    /// Within one instant nothing refills: a client's first request draws on
    /// a full bucket of the burst capacity, and a later request at the time
    /// of the client's last refill finds the tokens that it left.
    pub proof fn lemma_same_instant(&self, client: Seq<char>, now: u64)
        ensures
            !self@.dom().contains(client) ==>
                self.bucket_for(client, now).refilled_units(now) == self.spec_burst_capacity() * token_units(),
            (self@.dom().contains(client) && self@[client].spec_last_refill() == now
                && self@[client].spec_units() <= self@[client].spec_capacity_units()) ==>
                self.bucket_for(client, now).refilled_units(now) == self@[client].spec_units(),
    {
        let b = self.bucket_for(client, now);
        assert(0nat * b.spec_rate() == 0) by (nonlinear_arith);
    }

    pub fn new(requests_per_minute: u32, burst_capacity: u32) -> (r: Self)
        ensures
            r@ == Map::<Seq<char>, TokenBucket>::empty(),
            r.spec_requests_per_minute() == requests_per_minute,
            r.spec_burst_capacity() == burst_capacity,
    {
        Self { buckets: StrMap::new(), requests_per_minute, burst_capacity }
    }

    /// Admits a request from `client_id` at time `now` if its bucket holds a whole token.
    pub fn check_request_at(&mut self, client_id: &str, now: u64) -> (r: Result<(), SecurityError>)
        ensures
            ({
                let b0 = old(self).bucket_for(client_id@, now);
                let granted = b0.refilled_units(now) >= token_units();
                &&& (r is Ok) == granted
                &&& !granted ==> (r matches Err(SecurityError::RateLimitExceeded { client_id: c }) && c@ == client_id@)
                &&& final(self)@.dom() == old(self)@.dom().insert(client_id@)
                &&& forall|k: Seq<char>| k != client_id@ && old(self)@.dom().contains(k) ==> #[trigger] final(self)@[k] == old(self)@[k]
                &&& final(self)@[client_id@].spec_units() == if granted { (b0.refilled_units(now) - token_units()) as nat } else { b0.refilled_units(now) }
                &&& final(self)@[client_id@].spec_last_refill() == now
                &&& final(self)@[client_id@].spec_capacity_units() == b0.spec_capacity_units()
                &&& final(self)@[client_id@].spec_rate() == b0.spec_rate()
            }),
            final(self).spec_requests_per_minute() == old(self).spec_requests_per_minute(),
            final(self).spec_burst_capacity() == old(self).spec_burst_capacity(),
    {
        let mut bucket = match self.buckets.remove(client_id) {
            Some(b) => b,
            None => TokenBucket::new_at(self.requests_per_minute, self.burst_capacity, now),
        };
        let ok = bucket.try_consume_at(1, now);
        self.buckets.insert(client_id.to_string(), bucket);
        proof {
            assert(self@.dom() =~= old(self)@.dom().insert(client_id@));
        }
        if ok {
            Ok(())
        } else {
            Err(SecurityError::RateLimitExceeded { client_id: client_id.to_string() })
        }
    }

    /// Admits a request from `client_id` now if its bucket holds a whole token.
    pub fn check_request(&mut self, client_id: &str) -> (r: Result<(), SecurityError>)
        ensures
            exists|now: u64| #![trigger old(self).bucket_for(client_id@, now)] {
                let b0 = old(self).bucket_for(client_id@, now);
                &&& (r is Ok) == (b0.refilled_units(now) >= token_units())
                &&& final(self)@[client_id@].spec_units() == if r is Ok { (b0.refilled_units(now) - token_units()) as nat } else { b0.refilled_units(now) }
                &&& final(self)@[client_id@].spec_last_refill() == now
                &&& final(self)@[client_id@].spec_capacity_units() == b0.spec_capacity_units()
                &&& final(self)@[client_id@].spec_rate() == b0.spec_rate()
            },
            r matches Err(e) ==> (e matches SecurityError::RateLimitExceeded { client_id: c } && c@ == client_id@),
            final(self)@.dom() == old(self)@.dom().insert(client_id@),
            forall|k: Seq<char>| k != client_id@ && old(self)@.dom().contains(k) ==> #[trigger] final(self)@[k] == old(self)@[k],
            final(self).spec_requests_per_minute() == old(self).spec_requests_per_minute(),
            final(self).spec_burst_capacity() == old(self).spec_burst_capacity(),
    {
        self.check_request_at(client_id, now_ms())
    }

    /// Drops the buckets not refilled at time `now` or in the five minutes before.
    pub fn cleanup_old_buckets_at(&mut self, now: u64)
        ensures
            forall|k: Seq<char>| #[trigger] final(self)@.dom().contains(k) <==>
                (old(self)@.dom().contains(k) && old(self)@[k].spec_last_refill() + 300000 > now),
            forall|k: Seq<char>| #[trigger] final(self)@.dom().contains(k) ==> final(self)@[k] == old(self)@[k],
            final(self).spec_requests_per_minute() == old(self).spec_requests_per_minute(),
            final(self).spec_burst_capacity() == old(self).spec_burst_capacity(),
    {
        let n = self.buckets.len();
        let mut keep: Vec<bool> = Vec::new();
        let mut i: usize = 0;
        while i < n
            invariant
                n == self.buckets.spec_len(),
                i <= n,
                keep@.len() == i,
                forall|j: int| 0 <= j < i ==> keep@[j] == (self.buckets.value_seq()[j].spec_last_refill() + 300000 > now),
            decreases n - i,
        {
            let (_k, b) = self.buckets.entry_at(i);
            keep.push(b.last_refill as u128 + 300000 > now as u128);
            i += 1;
        }
        let ghost old_map = self.buckets;
        self.buckets.retain_flags(&keep);
        proof {
            assert forall|k: Seq<char>| #[trigger] self@.dom().contains(k) <==>
                (old(self)@.dom().contains(k) && old(self)@[k].spec_last_refill() + 300000 > now) by {
                if old_map@.dom().contains(k) {
                    let j = old_map.key_seq().index_of(k);
                    assert(old_map.key_seq()[j] == k);
                }
            }
        }
    }

    /// Drops the buckets not refilled in the last five minutes.
    pub fn cleanup_old_buckets(&mut self)
        ensures
            forall|k: Seq<char>| #[trigger] final(self)@.dom().contains(k) ==>
                old(self)@.dom().contains(k) && final(self)@[k] == old(self)@[k],
            final(self).spec_requests_per_minute() == old(self).spec_requests_per_minute(),
            final(self).spec_burst_capacity() == old(self).spec_burst_capacity(),
    {
        self.cleanup_old_buckets_at(now_ms())
    }
}

/// The patterns that mark a payload as suspicious (matched without regard to ASCII case).
pub open spec fn suspicious_patterns() -> Seq<Seq<u8>> {
    seq![
        "<script".spec_bytes(),
        "javascript:".spec_bytes(),
        "eval(".spec_bytes(),
        "exec(".spec_bytes(),
        "../".spec_bytes(),
        "passwd".spec_bytes(),
        "etc/shadow".spec_bytes(),
    ]
}

/// Some suspicious pattern occurs in the payload, ignoring ASCII case.
pub open spec fn has_suspicious_pattern(payload: Seq<u8>) -> bool {
    exists|i: int| 0 <= i < suspicious_patterns().len() && contains_seq(lower_bytes(payload), #[trigger] suspicious_patterns()[i])
}

/// The reason given for a message over the size limit.
pub open spec fn oversize_reason(len: nat, max: nat) -> Seq<char> {
    "Message size "@ + decimal(len) + " exceeds maximum "@ + decimal(max)
}

/// Why a payload is refused, or `None` if it is accepted.
pub open spec fn payload_rejection(max_size: nat, payload: Seq<u8>) -> Option<Seq<char>> {
    if payload.len() > max_size {
        Some(oversize_reason(payload.len(), max_size))
    } else if payload.len() == 0 {
        Some("Empty payload not allowed"@)
    } else if has_suspicious_pattern(payload) {
        Some("Suspicious content detected"@)
    } else {
        None
    }
}

/// Input validator for security
pub struct InputValidator {
    max_message_size: usize,
}

impl InputValidator {
    pub closed spec fn spec_max_message_size(&self) -> usize {
        self.max_message_size
    }

    pub fn new(max_message_size: usize) -> (v: Self)
        ensures
            v.spec_max_message_size() == max_message_size,
    {
        Self { max_message_size }
    }

    /// Checks a payload: within the size limit, not empty, and free of the
    /// suspicious patterns in any ASCII case. (Matching the patterns against
    /// the lower-cased text of the payload gives the same answer: they are
    /// ASCII and hold no `i` or `k` next to a letter that a non-ASCII
    /// character could lower-case into.)
    pub fn validate_input(&self, payload: &[u8]) -> (r: Result<(), SecurityError>)
        ensures
            validation_matches(r, payload_rejection(self.spec_max_message_size() as nat, payload@)),
    {
        if payload.len() > self.max_message_size {
            let mut v = lit("Message size ");
            extend_chars(&mut v, &decimal_chars(payload.len() as u64));
            extend_chars(&mut v, &lit(" exceeds maximum "));
            extend_chars(&mut v, &decimal_chars(self.max_message_size as u64));
            return Err(SecurityError::InvalidInput { reason: string_from_chars(&v) });
        }
        if payload.len() == 0 {
            return Err(SecurityError::InvalidInput { reason: "Empty payload not allowed".to_string() });
        }
        if self.contains_suspicious_patterns(payload) {
            return Err(SecurityError::InvalidInput { reason: "Suspicious content detected".to_string() });
        }
        Ok(())
    }

    fn contains_suspicious_patterns(&self, payload: &[u8]) -> (b: bool)
        ensures
            b == has_suspicious_pattern(payload@),
    {
        let lowered = lowercase_bytes(payload);
        let patterns: [&[u8]; 7] = [
            "<script".as_bytes(),
            "javascript:".as_bytes(),
            "eval(".as_bytes(),
            "exec(".as_bytes(),
            "../".as_bytes(),
            "passwd".as_bytes(),
            "etc/shadow".as_bytes(),
        ];
        let mut i: usize = 0;
        while i < 7
            invariant
                i <= 7,
                lowered@ == lower_bytes(payload@),
                forall|j: int| 0 <= j < 7 ==> (#[trigger] patterns[j])@ == suspicious_patterns()[j],
                forall|j: int| 0 <= j < i ==> !contains_seq(lower_bytes(payload@), #[trigger] suspicious_patterns()[j]),
            decreases 7 - i,
        {
            if bytes_contain(lowered.as_slice(), patterns[i]) {
                return true;
            }
            i += 1;
        }
        false
    }
}

/// User information from authentication; `expires_at` is in milliseconds
/// since the UNIX epoch.
#[derive(Debug, Clone)]
pub struct UserInfo {
    pub user_id: String,
    pub permissions: Vec<String>,
    pub expires_at: u64,
}

/// A token of the accepted form: longer than 10 bytes and beginning with `Bearer `.
pub open spec fn bearer_token_ok(token: &String) -> bool {
    (vstd::utf8::encode_utf8(token@).len() as usize) > 10 && starts_with_seq(token@, "Bearer "@)
}

/// JWT-based authenticator
pub struct Authenticator {
    jwt_secret: Option<String>,
}

/// A text takes at least one byte per character in UTF-8.
proof fn lemma_utf8_len_at_least(s: Seq<char>)
    ensures
        vstd::utf8::encode_utf8(s).len() >= s.len(),
    decreases s.len(),
{
    if s.len() > 0 {
        lemma_utf8_len_at_least(s.drop_first());
    }
}

/// A token generated for any user authenticates wherever a secret is
/// configured: it is a `Bearer` token longer than ten bytes.
pub proof fn lemma_generated_token_accepted(token: String, user_id: Seq<char>)
    requires
        token@ == "Bearer jwt_token_for_"@ + user_id,
        vstd::utf8::encode_utf8(token@).len() <= usize::MAX,
    ensures
        bearer_token_ok(&token),
        forall|now: u64, r: Result<UserInfo, SecurityError>|
            #[trigger] authentication_answer(true, Some(token), now, r) ==> r is Ok,
{
    reveal_strlit("Bearer jwt_token_for_");
    reveal_strlit("Bearer ");
    lemma_utf8_len_at_least(token@);
    assert(token@.subrange(0, 7) =~= "Bearer "@);
}

/// Why a token is refused: none given, no secret configured, or a token
/// that is not a `Bearer` token longer than 10 bytes.
pub open spec fn authentication_refusal(has_secret: bool, token: Option<String>) -> Seq<char> {
    match token {
        None => "No authentication token provided"@,
        Some(t) => if !has_secret { "JWT secret not configured"@ } else { "Invalid token format"@ },
    }
}

/// The answer `r` to authenticating `token` at time `now` (milliseconds):
/// a `Bearer` token when a secret is configured gives `user_123` with read
/// and write permission for one hour; otherwise the refusal with its reason.
pub open spec fn authentication_answer(has_secret: bool, token: Option<String>, now: u64, r: Result<UserInfo, SecurityError>) -> bool {
    if token matches Some(t) && has_secret && bearer_token_ok(&t) {
        r matches Ok(info) && info.user_id@ == "user_123"@ && views(info.permissions@) == seq!["read"@, "write"@]
            && info.expires_at == (if now <= u64::MAX - 3600000 { (now + 3600000) as u64 } else { u64::MAX })
    } else {
        r matches Err(SecurityError::AuthenticationFailed { reason }) && reason@ == authentication_refusal(has_secret, token)
    }
}

impl Authenticator {
    pub closed spec fn has_secret(&self) -> bool {
        self.jwt_secret is Some
    }

    pub fn new(jwt_secret: Option<String>) -> (a: Self)
        ensures
            a.has_secret() == (jwt_secret is Some),
    {
        Self { jwt_secret }
    }

    /// Accepts, when a secret is configured, a token longer than 10 bytes that
    /// begins with `Bearer `; the user is `user_123` with read and write
    /// permission for one hour from `now` (milliseconds).
    pub fn authenticate_at(&self, token: &Option<String>, now: u64) -> (r: Result<UserInfo, SecurityError>)
        ensures
            authentication_answer(self.has_secret(), *token, now, r),
    {
        match token {
            Some(token_str) => {
                if let Some(_secret) = &self.jwt_secret {
                    if token_str.as_str().len() > 10 && str_starts_with(token_str.as_str(), "Bearer ") {
                        let mut permissions: Vec<String> = Vec::new();
                        permissions.push("read".to_string());
                        permissions.push("write".to_string());
                        proof { assert(views(permissions@) =~= seq!["read"@, "write"@]); }
                        Ok(UserInfo {
                            user_id: "user_123".to_string(),
                            permissions,
                            expires_at: now.saturating_add(3600000),
                        })
                    } else {
                        Err(SecurityError::AuthenticationFailed { reason: "Invalid token format".to_string() })
                    }
                } else {
                    Err(SecurityError::AuthenticationFailed { reason: "JWT secret not configured".to_string() })
                }
            },
            None => Err(SecurityError::AuthenticationFailed {
                reason: "No authentication token provided".to_string(),
            }),
        }
    }

    /// Accepts, when a secret is configured, a token longer than 10 bytes that
    /// begins with `Bearer `; the session lasts one hour.
    pub fn authenticate(&self, token: &Option<String>) -> (r: Result<UserInfo, SecurityError>)
        ensures
            (r is Ok) == (token matches Some(t) && self.has_secret() && bearer_token_ok(&t)),
            r matches Ok(info) ==> info.user_id@ == "user_123"@ && views(info.permissions@) == seq!["read"@, "write"@],
            r matches Err(SecurityError::AuthenticationFailed { reason }) ==> reason@ == authentication_refusal(self.has_secret(), *token),
            r is Err ==> r matches Err(SecurityError::AuthenticationFailed { .. }),
            exists|now: u64| #[trigger] authentication_answer(self.has_secret(), *token, now, r),
    {
        let now = now_ms();
        let r = self.authenticate_at(token, now);
        proof { assert(authentication_answer(self.has_secret(), *token, now, r)); }
        r
    }

    /// A token `Bearer jwt_token_for_<user_id>`, when a secret is configured.
    pub fn generate_token(&self, user_id: &str) -> (r: Result<String, SecurityError>)
        ensures
            self.has_secret() ==> (r matches Ok(t) && t@ == "Bearer jwt_token_for_"@ + user_id@),
            !self.has_secret() ==> (r matches Err(SecurityError::AuthenticationFailed { reason }) && reason@ == "JWT secret not configured"@),
    {
        if self.jwt_secret.is_some() {
            Ok(concat_str("Bearer jwt_token_for_", &char_vec(user_id)))
        } else {
            Err(SecurityError::AuthenticationFailed { reason: "JWT secret not configured".to_string() })
        }
    }
}

/// The words that mark a user agent as suspicious (matched without regard to ASCII case).
pub open spec fn suspicious_agents() -> Seq<Seq<char>> {
    seq!["bot"@, "crawler"@, "scraper"@, "python"@, "curl"@, "wget"@]
}

pub open spec fn agent_is_suspicious(ua: Seq<char>) -> bool {
    exists|i: int| 0 <= i < suspicious_agents().len() && contains_seq(lower_chars(ua), #[trigger] suspicious_agents()[i])
}

/// The request times within the last minute before `now`, plus `now`.
pub open spec fn recent_history(history: Seq<u64>, now: u64) -> Seq<u64> {
    history.filter(|t: u64| elapsed(t, now) < 60000).push(now)
}

/// Risk in tenths: from the request rate of the address (given by the length
/// of its history in the last minute), the payload size and the user agent.
pub open spec fn risk_tenths(history_len: Option<nat>, payload_len: nat, user_agent: Option<Seq<char>>) -> nat {
    (match history_len {
        Some(n) => if n > 100 { 5nat } else if n > 50 { 3nat } else { 0nat },
        None => 0nat,
    }) + (if payload_len > 100000 { 3nat } else { 0nat }) + (match user_agent {
        Some(ua) => if agent_is_suspicious(ua) { 4nat } else { 0nat },
        None => 2nat,
    })
}

/// The threat level for a risk in tenths (0.8 and up is critical, 0.6 high, 0.3 medium).
pub open spec fn level_for_risk(tenths: nat) -> ThreatLevel {
    if tenths >= 8 {
        ThreatLevel::Critical
    } else if tenths >= 6 {
        ThreatLevel::High
    } else if tenths >= 3 {
        ThreatLevel::Medium
    } else {
        ThreatLevel::Low
    }
}

/// Keeps the times within a minute before `now` (later times count as now).
fn recent_times(history: &Vec<u64>, now: u64) -> (r: Vec<u64>)
    ensures
        r@ == history@.filter(|t: u64| elapsed(t, now) < 60000),
{
    let mut r: Vec<u64> = Vec::new();
    let mut i: usize = 0;
    while i < history.len()
        invariant
            i <= history@.len(),
            r@ == history@.take(i as int).filter(|t: u64| elapsed(t, now) < 60000),
        decreases history@.len() - i,
    {
        let t = history[i];
        let passed: u64 = if now >= t { now - t } else { 0 };
        if passed < 60000 {
            r.push(t);
        }
        proof {
            let f = |t: u64| elapsed(t, now) < 60000;
            assert(history@.take(i + 1).drop_last() =~= history@.take(i as int));
            reveal_with_fuel(Seq::filter, 1);
        }
        i += 1;
    }
    proof { assert(history@.take(history@.len() as int) =~= history@); }
    r
}

/// `r` and the history `after` are what rating `request` at time `now`
/// gives, starting from the history `before`: the address's recent request
/// times, with this one, count towards the risk.
pub open spec fn analyzed_at(
    before: Map<Seq<char>, Seq<u64>>,
    after: Map<Seq<char>, Seq<u64>>,
    request: SecurityRequest,
    now: u64,
    r: Result<ThreatLevel, SecurityError>,
) -> bool {
    let hist = match request.ip_address {
        Some(ip) => Some(recent_history(if before.dom().contains(ip@) { before[ip@] } else { Seq::<u64>::empty() }, now)),
        None => None,
    };
    &&& r == Ok::<ThreatLevel, SecurityError>(level_for_risk(risk_tenths(
        match hist { Some(h) => Some(h.len()), None => None },
        request.payload@.len(),
        opt_view(request.user_agent))))
    &&& match request.ip_address {
        Some(ip) => after == before.insert(ip@, hist->0),
        None => after == before,
    }
}

/// `after` keeps, of each address's request times in `before`, those after
/// the five minutes before `now`, and forgets the addresses with none left.
pub open spec fn history_trimmed(before: Map<Seq<char>, Seq<u64>>, after: Map<Seq<char>, Seq<u64>>, now: u64) -> bool {
    &&& forall|k: Seq<char>| #[trigger] after.dom().contains(k) ==>
        before.dom().contains(k)
        && after[k] == before[k].filter(|t: u64| t as int > now as int - 300000)
        && after[k].len() > 0
    &&& forall|k: Seq<char>| before.dom().contains(k)
        && before[k].filter(|t: u64| t as int > now as int - 300000).len() > 0
        ==> #[trigger] after.dom().contains(k)
}

/// Whether `token` was issued, and is still fresh at `now`.
pub open spec fn token_valid_at(tokens: Map<Seq<char>, u64>, token: Seq<char>, now: u64) -> bool {
    tokens.dom().contains(token) && csrf_fresh(tokens[token], now)
}

/// `after` holds exactly the tokens of `before` issued less than an hour
/// before `now`, with their issue times.
pub open spec fn tokens_trimmed(before: Map<Seq<char>, u64>, after: Map<Seq<char>, u64>, now: u64) -> bool {
    &&& forall|k: Seq<char>| #[trigger] after.dom().contains(k) <==>
        (before.dom().contains(k) && before[k] as int > now as int - 3600000)
    &&& forall|k: Seq<char>| #[trigger] after.dom().contains(k) ==> after[k] == before[k]
}

/// The requests from the address of `request` in the minute up to its
/// analysis, this one included, as the history `after` holds them (none
/// without an address).
pub open spec fn recent_request_count(after: Map<Seq<char>, Seq<u64>>, request: SecurityRequest) -> nat {
    match request.ip_address {
        Some(ip) => after[ip@].len(),
        None => 0,
    }
}

/// How the risk factors of a request combine into its threat level. A
/// suspicious user agent weighs 0.4, a payload over 100000 bytes 0.3, a
/// missing user agent 0.2, more than 50 requests from the address in the
/// last minute 0.3 and more than 100 of them 0.5; a risk of 0.3 is Medium,
/// 0.6 High and 0.8 Critical. So a suspicious agent alone gives Medium, an
/// ordinary client Low, a suspicious agent with a large payload High, and a
/// suspicious agent flooding from one address Critical.
pub proof fn lemma_threat_levels(
    before: Map<Seq<char>, Seq<u64>>,
    after: Map<Seq<char>, Seq<u64>>,
    request: SecurityRequest,
    now: u64,
    r: Result<ThreatLevel, SecurityError>,
)
    requires
        analyzed_at(before, after, request, now, r),
    ensures
        ({
            let n = recent_request_count(after, request);
            let large = request.payload@.len() > 100000;
            let suspicious = request.user_agent matches Some(ua) && agent_is_suspicious(ua@);
            &&& r is Ok
            &&& (n <= 50 && !large && suspicious) ==> r == Ok::<ThreatLevel, SecurityError>(ThreatLevel::Medium)
            &&& (n <= 50 && !large && request.user_agent is Some && !suspicious) ==> r == Ok::<ThreatLevel, SecurityError>(ThreatLevel::Low)
            &&& (n <= 50 && !large && request.user_agent is None) ==> r == Ok::<ThreatLevel, SecurityError>(ThreatLevel::Low)
            &&& (n <= 50 && large && request.user_agent is None) ==> r == Ok::<ThreatLevel, SecurityError>(ThreatLevel::Medium)
            &&& (n <= 50 && large && suspicious) ==> r == Ok::<ThreatLevel, SecurityError>(ThreatLevel::High)
            &&& (50 < n <= 100 && !large && suspicious) ==> r == Ok::<ThreatLevel, SecurityError>(ThreatLevel::High)
            &&& (n > 100 && suspicious) ==> r == Ok::<ThreatLevel, SecurityError>(ThreatLevel::Critical)
            &&& (n > 100 && !large && request.user_agent is Some && !suspicious) ==> r == Ok::<ThreatLevel, SecurityError>(ThreatLevel::Medium)
        }),
{
}

/// Threat detection system
pub struct ThreatDetector {
    request_history: StrMap<Vec<u64>>,
}

impl ThreatDetector {
    /// The request times (milliseconds) recorded for each address.
    pub closed spec fn view(&self) -> Map<Seq<char>, Seq<u64>> {
        self.request_history@.map_values(|v: Vec<u64>| v@)
    }

    pub fn new() -> (d: Self)
        ensures
            d@ == Map::<Seq<char>, Seq<u64>>::empty(),
    {
        let d = Self { request_history: StrMap::new() };
        proof { assert(d@ =~= Map::<Seq<char>, Seq<u64>>::empty()); }
        d
    }

    fn is_suspicious_user_agent(&self, user_agent: &str) -> (b: bool)
        ensures
            b == agent_is_suspicious(user_agent@),
    {
        let ua_lower = lowercase_chars(&char_vec(user_agent));
        let indicators: [&str; 6] = ["bot", "crawler", "scraper", "python", "curl", "wget"];
        let mut i: usize = 0;
        while i < 6
            invariant
                i <= 6,
                ua_lower@ == lower_chars(user_agent@),
                forall|j: int| 0 <= j < 6 ==> (#[trigger] indicators[j])@ == suspicious_agents()[j],
                forall|j: int| 0 <= j < i ==> !contains_seq(lower_chars(user_agent@), #[trigger] suspicious_agents()[j]),
            decreases 6 - i,
        {
            if chars_contain(&ua_lower, &char_vec(indicators[i])) {
                return true;
            }
            i += 1;
        }
        false
    }

    /// Records the request of an address at time `now` and rates its threat.
    pub fn analyze_request_at(&mut self, request: &SecurityRequest, now: u64) -> (r: Result<ThreatLevel, SecurityError>)
        ensures
            ({
                let hist = match request.ip_address {
                    Some(ip) => Some(recent_history(
                        if old(self)@.dom().contains(ip@) { old(self)@[ip@] } else { Seq::<u64>::empty() }, now)),
                    None => None,
                };
                &&& r == Ok::<ThreatLevel, SecurityError>(level_for_risk(risk_tenths(
                    match hist { Some(h) => Some(h.len()), None => None },
                    request.payload@.len(),
                    opt_view(request.user_agent))))
                &&& match request.ip_address {
                    Some(ip) => final(self)@ == old(self)@.insert(ip@, hist->0),
                    None => final(self)@ == old(self)@,
                }
            }),
            analyzed_at(old(self)@, final(self)@, *request, now, r),
    {
        let mut risk: u64 = 0;
        let ghost hist_len: Option<nat> = None;
        if let Some(ip) = &request.ip_address {
            let ghost old_hist = if self@.dom().contains(ip@) { self@[ip@] } else { Seq::<u64>::empty() };
            let old_times = match self.request_history.remove(ip.as_str()) {
                Some(v) => v,
                None => Vec::new(),
            };
            let mut history = recent_times(&old_times, now);
            history.push(now);
            let len = history.len();
            proof {
                hist_len = Some(len as nat);
                assert(history@ == recent_history(old_hist, now));
            }
            self.request_history.insert(ip.clone(), history);
            proof {
                assert(self@ =~= old(self)@.insert(ip@, recent_history(old_hist, now)));
            }
            if len > 100 {
                risk = risk + 5;
            } else if len > 50 {
                risk = risk + 3;
            }
        } else {
            proof { assert(self@ =~= old(self)@); }
        }
        if request.payload.len() > 100000 {
            risk = risk + 3;
        }
        if let Some(ua) = &request.user_agent {
            if self.is_suspicious_user_agent(ua.as_str()) {
                risk = risk + 4;
            }
        } else {
            risk = risk + 2;
        }
        let threat_level = if risk >= 8 {
            ThreatLevel::Critical
        } else if risk >= 6 {
            ThreatLevel::High
        } else if risk >= 3 {
            ThreatLevel::Medium
        } else {
            ThreatLevel::Low
        };
        Ok(threat_level)
    }

    /// Records the request of an address now and rates its threat.
    pub fn analyze_request(&mut self, request: &SecurityRequest) -> (r: Result<ThreatLevel, SecurityError>)
        ensures
            r is Ok,
            request.ip_address is None ==> final(self)@ == old(self)@,
            request.ip_address is None ==> r == Ok::<ThreatLevel, SecurityError>(level_for_risk(risk_tenths(
                None, request.payload@.len(), opt_view(request.user_agent)))),
            exists|now: u64| #[trigger] analyzed_at(old(self)@, final(self)@, *request, now, r),
    {
        let now = now_ms();
        let r = self.analyze_request_at(request, now);
        assert(analyzed_at(old(self)@, self@, *request, now, r));
        r
    }

    /// Keeps, at time `now`, only the request times after the five minutes
    /// before it, and forgets addresses with none left.
    pub fn cleanup_history_at(&mut self, now: u64)
        ensures
            history_trimmed(old(self)@, final(self)@, now),
    {
        let n = self.request_history.len();
        let mut fresh: StrMap<Vec<u64>> = StrMap::new();
        let mut i: usize = 0;
        let cutoff: u64 = if now >= 300000 { now - 300000 } else { 0 };
        let ghost f = |t: u64| t as int > now as int - 300000;
        while i < n
            invariant
                n == self.request_history.spec_len(),
                i <= n,
                self.request_history == old(self).request_history,
                cutoff as int == if now >= 300000 { now - 300000 } else { 0 },
                f == (|t: u64| t as int > now as int - 300000),
                self.request_history.key_seq().no_duplicates(),
                self.request_history.key_seq().len() == n,
                self.request_history.value_seq().len() == n,
                forall|k: Seq<char>| #[trigger] fresh@.dom().contains(k) ==>
                    exists|j: int| 0 <= j < i && self.request_history.key_seq()[j] == k,
                forall|j: int| 0 <= j < i ==> {
                    let k = #[trigger] self.request_history.key_seq()[j];
                    let kept = self.request_history.value_seq()[j]@.filter(f);
                    (fresh@.dom().contains(k) <==> kept.len() > 0)
                    && (fresh@.dom().contains(k) ==> fresh@[k]@ == kept)
                },
            decreases n - i,
        {
            let (k, times) = self.request_history.entry_at(i);
            let mut kept: Vec<u64> = Vec::new();
            let mut j: usize = 0;
            while j < times.len()
                invariant
                    j <= times@.len(),
                    f == (|t: u64| t as int > now as int - 300000),
                    cutoff as int == if now >= 300000 { now - 300000 } else { 0 },
                    kept@ == times@.take(j as int).filter(f),
                decreases times@.len() - j,
            {
                let t = times[j];
                if t > cutoff || (now < 300000) {
                    kept.push(t);
                }
                proof {
                    assert(times@.take(j + 1).drop_last() =~= times@.take(j as int));
                    reveal_with_fuel(Seq::filter, 1);
                }
                j += 1;
            }
            proof { assert(times@.take(times@.len() as int) =~= times@); }
            let ghost fresh_before = fresh@;
            if kept.len() > 0 {
                fresh.insert(k.clone(), kept);
            }
            proof {
                assert forall|jj: int| 0 <= jj < i + 1 implies {
                    let kk = #[trigger] self.request_history.key_seq()[jj];
                    let kp = self.request_history.value_seq()[jj]@.filter(f);
                    (fresh@.dom().contains(kk) <==> kp.len() > 0)
                    && (fresh@.dom().contains(kk) ==> fresh@[kk]@ == kp)
                } by {
                    if jj < i {
                        assert(self.request_history.key_seq()[jj] != self.request_history.key_seq()[i as int]);
                    }
                }
                assert forall|kk: Seq<char>| #[trigger] fresh@.dom().contains(kk) implies
                    exists|jj: int| 0 <= jj < i + 1 && self.request_history.key_seq()[jj] == kk by {
                    if !fresh_before.dom().contains(kk) {
                        assert(self.request_history.key_seq()[i as int] == kk);
                    }
                }
            }
            i += 1;
        }
        let ghost old_map = self.request_history;
        self.request_history = fresh;
        proof {
            assert forall|k: Seq<char>| #[trigger] self@.dom().contains(k) implies
                old(self)@.dom().contains(k)
                && self@[k] == old(self)@[k].filter(|t: u64| t as int > now as int - 300000)
                && self@[k].len() > 0 by {
                let jj = choose|jj: int| 0 <= jj < n && old_map.key_seq()[jj] == k;
                assert(old_map.key_seq()[jj] == k);
            }
            assert forall|k: Seq<char>| old(self)@.dom().contains(k)
                && old(self)@[k].filter(|t: u64| t as int > now as int - 300000).len() > 0
                implies #[trigger] self@.dom().contains(k) by {
                let jj = old_map.key_seq().index_of(k);
                assert(old_map.key_seq()[jj] == k);
            }
        }
    }

    /// Keeps only the request times of the last five minutes.
    pub fn cleanup_history(&mut self)
        ensures
            forall|k: Seq<char>| #[trigger] final(self)@.dom().contains(k) ==> old(self)@.dom().contains(k),
            forall|k: Seq<char>| #[trigger] final(self)@.dom().contains(k) ==> final(self)@[k].len() > 0,
            exists|now: u64| #[trigger] history_trimmed(old(self)@, final(self)@, now),
    {
        let now = now_ms();
        self.cleanup_history_at(now);
        assert(history_trimmed(old(self)@, self@, now));
    }
}

impl Default for ThreatDetector {
    fn default() -> (d: Self)
        ensures
            d@ == Map::<Seq<char>, Seq<u64>>::empty(),
    {
        Self::new()
    }
}

/// CSRF protection with one-time tokens valid for an hour.
pub struct CsrfProtector {
    tokens: StrMap<u64>,
}

/// The outcome of validating a token at time `now`: accepted if it was
/// issued less than an hour before.
pub open spec fn csrf_fresh(created: u64, now: u64) -> bool {
    elapsed(created, now) < 3600000
}

impl CsrfProtector {
    /// Outstanding tokens with the time (milliseconds) they were issued.
    pub closed spec fn view(&self) -> Map<Seq<char>, u64> {
        self.tokens@
    }

    pub fn new() -> (c: Self)
        ensures
            c@ == Map::<Seq<char>, u64>::empty(),
    {
        Self { tokens: StrMap::new() }
    }

    /// Issues the token `csrf_<random in hexadecimal>` at time `now`.
    pub fn generate_token_at(&mut self, random: u64, now: u64) -> (token: String)
        ensures
            token@ == "csrf_"@ + hexadecimal(random as nat),
            final(self)@ == old(self)@.insert(token@, now),
    {
        let v = hex_chars(random);
        let token = concat_str("csrf_", &v);
        let key = concat_str("csrf_", &v);
        self.tokens.insert(key, now);
        token
    }

    /// Issues a random token `csrf_<hexadecimal>` and records it.
    pub fn generate_token(&mut self) -> (token: String)
        ensures
            exists|random: u64, now: u64| token@ == "csrf_"@ + hexadecimal(random as nat)
                && final(self)@ == old(self)@.insert(token@, now),
    {
        let r = random_u64();
        self.generate_token_at(r, now_ms())
    }

    /// Accepts an outstanding token issued less than an hour before `now`;
    /// a token is used up by validation whatever the outcome.
    pub fn validate_token_at(&mut self, token: &str, now: u64) -> (r: Result<(), SecurityError>)
        ensures
            (r is Ok) == (old(self)@.dom().contains(token@) && csrf_fresh(old(self)@[token@], now)),
            r is Err ==> (r matches Err(SecurityError::CsrfValidationFailed)),
            final(self)@ == old(self)@.remove(token@),
    {
        match self.tokens.remove(token) {
            Some(created_at) => {
                let passed: u64 = if now >= created_at { now - created_at } else { 0 };
                if passed < 3600000 {
                    Ok(())
                } else {
                    Err(SecurityError::CsrfValidationFailed)
                }
            },
            None => Err(SecurityError::CsrfValidationFailed),
        }
    }

    /// Accepts an outstanding token issued less than an hour ago; a token is
    /// used up by validation whatever the outcome.
    pub fn validate_token(&mut self, token: &str) -> (r: Result<(), SecurityError>)
        ensures
            (r is Ok) ==> old(self)@.dom().contains(token@),
            final(self)@ == old(self)@.remove(token@),
            r is Err ==> (r matches Err(SecurityError::CsrfValidationFailed)),
            !old(self)@.dom().contains(token@) ==> r is Err,
            exists|now: u64| (r is Ok) == #[trigger] token_valid_at(old(self)@, token@, now),
    {
        let now = now_ms();
        let r = self.validate_token_at(token, now);
        assert((r is Ok) == token_valid_at(old(self)@, token@, now));
        r
    }

    /// Drops, at time `now`, the tokens issued an hour or more before it.
    pub fn cleanup_expired_tokens_at(&mut self, now: u64)
        ensures
            tokens_trimmed(old(self)@, final(self)@, now),
    {
        let n = self.tokens.len();
        let mut keep: Vec<bool> = Vec::new();
        let mut i: usize = 0;
        while i < n
            invariant
                n == self.tokens.spec_len(),
                i <= n,
                keep@.len() == i,
                forall|j: int| 0 <= j < i ==> keep@[j] == (self.tokens.value_seq()[j] as int > now as int - 3600000),
            decreases n - i,
        {
            let (_k, created) = self.tokens.entry_at(i);
            keep.push(*created as u128 + 3600000 > now as u128);
            i += 1;
        }
        let ghost old_map = self.tokens;
        self.tokens.retain_flags(&keep);
        proof {
            assert forall|k: Seq<char>| #[trigger] self@.dom().contains(k) <==>
                (old(self)@.dom().contains(k) && old(self)@[k] as int > now as int - 3600000) by {
                if old_map@.dom().contains(k) {
                    let j = old_map.key_seq().index_of(k);
                    assert(old_map.key_seq()[j] == k);
                }
            }
        }
    }

    /// Drops the tokens issued an hour or more ago.
    pub fn cleanup_expired_tokens(&mut self)
        ensures
            forall|k: Seq<char>| #[trigger] final(self)@.dom().contains(k) ==> old(self)@.dom().contains(k),
            forall|k: Seq<char>| #[trigger] final(self)@.dom().contains(k) ==> final(self)@[k] == old(self)@[k],
            exists|now: u64| #[trigger] tokens_trimmed(old(self)@, final(self)@, now),
    {
        let now = now_ms();
        self.cleanup_expired_tokens_at(now);
        assert(tokens_trimmed(old(self)@, self@, now));
    }
}

impl Default for CsrfProtector {
    fn default() -> (c: Self)
        ensures
            c@ == Map::<Seq<char>, u64>::empty(),
    {
        Self::new()
    }
}

/// A token issued at `now` is accepted once at any time less than an hour
/// later, and refused on every later attempt: tokens are for one use.
pub proof fn lemma_csrf_one_time(tokens: Map<Seq<char>, u64>, token: Seq<char>, issued: u64, now: u64)
    requires
        elapsed(issued, now) < 3600000,
    ensures
        tokens.insert(token, issued).dom().contains(token),
        csrf_fresh(tokens.insert(token, issued)[token], now),
        !tokens.insert(token, issued).remove(token).dom().contains(token),
{
}

} // verus!
