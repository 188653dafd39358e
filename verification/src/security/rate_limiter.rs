//! Rate Limiting
//!
//! Token bucket rate limiting implementation

use vstd::prelude::*;
use crate::clock::now_ms;
use crate::security::manager::SecurityError;
use crate::strmap::StrMap;

verus! {

/// Tokens earned over `elapsed_ms` milliseconds at `rate` tokens per minute,
/// in whole tokens, at most `u32::MAX`.
pub open spec fn tokens_earned(elapsed_ms: nat, rate: nat) -> nat {
    let t = elapsed_ms * rate / 60000;
    if t > u32::MAX { u32::MAX as nat } else { t }
}

/// Time elapsed from `from` to `to`, zero if `to` is earlier.
pub open spec fn elapsed(from: u64, to: u64) -> nat {
    if to >= from { (to - from) as nat } else { 0 }
}

/// Token bucket for rate limiting; times are in milliseconds and the
/// refill rate is in tokens per minute.
pub struct TokenBucket {
    capacity: u32,
    tokens: u32,
    last_refill: u64,
    refill_rate: u32,
}

impl TokenBucket {
    pub closed spec fn spec_capacity(&self) -> nat {
        self.capacity as nat
    }

    pub closed spec fn spec_tokens(&self) -> nat {
        self.tokens as nat
    }

    pub closed spec fn spec_rate(&self) -> nat {
        self.refill_rate as nat
    }

    pub closed spec fn spec_last_refill(&self) -> u64 {
        self.last_refill
    }

    /// The tokens available at time `now` after the refill.
    pub open spec fn refilled(&self, now: u64) -> nat {
        let t = self.spec_tokens() + tokens_earned(elapsed(self.spec_last_refill(), now), self.spec_rate());
        if t > self.spec_capacity() { self.spec_capacity() } else { t }
    }

    /// A full bucket whose refill clock starts at `now`.
    pub fn new_at(refill_rate: u32, capacity: u32, now: u64) -> (b: Self)
        ensures
            b.spec_capacity() == capacity,
            b.spec_tokens() == capacity,
            b.spec_rate() == refill_rate,
            b.spec_last_refill() == now,
    {
        Self { capacity, tokens: capacity, last_refill: now, refill_rate }
    }

    /// A full bucket whose refill clock starts now.
    pub fn new(refill_rate: u32, capacity: u32) -> (b: Self)
        ensures
            b.spec_capacity() == capacity,
            b.spec_tokens() == capacity,
            b.spec_rate() == refill_rate,
    {
        Self::new_at(refill_rate, capacity, now_ms())
    }

    fn refill_at(&mut self, now: u64)
        ensures
            final(self).spec_tokens() == old(self).refilled(now),
            final(self).spec_last_refill() == now,
            final(self).spec_capacity() == old(self).spec_capacity(),
            final(self).spec_rate() == old(self).spec_rate(),
    {
        let passed: u64 = if now >= self.last_refill { now - self.last_refill } else { 0 };
        proof {
            assert((passed as u128) * (self.refill_rate as u128) <= u64::MAX as u128 * u32::MAX as u128) by (nonlinear_arith)
                requires passed <= u64::MAX, self.refill_rate <= u32::MAX;
        }
        let earned_wide: u128 = (passed as u128) * (self.refill_rate as u128) / 60000;
        let earned: u64 = if earned_wide > u32::MAX as u128 { u32::MAX as u64 } else { earned_wide as u64 };
        let total: u64 = self.tokens as u64 + earned;
        let new_tokens: u32 = if total > self.capacity as u64 { self.capacity } else { total as u32 };
        self.tokens = new_tokens;
        self.last_refill = now;
    }

    /// Takes one token at time `now` (after refilling); false if none is left.
    pub fn consume_at(&mut self, now: u64) -> (ok: bool)
        ensures
            ok == (old(self).refilled(now) > 0),
            final(self).spec_tokens() == if ok { (old(self).refilled(now) - 1) as nat } else { old(self).refilled(now) },
            final(self).spec_last_refill() == now,
            final(self).spec_capacity() == old(self).spec_capacity(),
            final(self).spec_rate() == old(self).spec_rate(),
    {
        self.refill_at(now);
        if self.tokens > 0 {
            self.tokens = self.tokens - 1;
            true
        } else {
            false
        }
    }

    /// Takes one token now (after refilling); false if none is left.
    pub fn consume(&mut self) -> (ok: bool)
        ensures
            exists|now: u64| {
                &&& ok == (old(self).refilled(now) > 0)
                &&& final(self).spec_tokens() == if ok { (old(self).refilled(now) - 1) as nat } else { old(self).refilled(now) }
                &&& final(self).spec_last_refill() == now
            },
            final(self).spec_capacity() == old(self).spec_capacity(),
            final(self).spec_rate() == old(self).spec_rate(),
    {
        self.consume_at(now_ms())
    }

    /// Takes `tokens` tokens at time `now` (after refilling), or none if fewer are left.
    pub fn try_consume_at(&mut self, tokens: u32, now: u64) -> (ok: bool)
        ensures
            ok == (old(self).refilled(now) >= tokens),
            final(self).spec_tokens() == if ok { (old(self).refilled(now) - tokens) as nat } else { old(self).refilled(now) },
            final(self).spec_last_refill() == now,
            final(self).spec_capacity() == old(self).spec_capacity(),
            final(self).spec_rate() == old(self).spec_rate(),
    {
        self.refill_at(now);
        if self.tokens >= tokens {
            self.tokens = self.tokens - tokens;
            true
        } else {
            false
        }
    }

    /// Takes `tokens` tokens now (after refilling), or none if fewer are left.
    pub fn try_consume(&mut self, tokens: u32) -> (ok: bool)
        ensures
            exists|now: u64| {
                &&& ok == (old(self).refilled(now) >= tokens)
                &&& final(self).spec_tokens() == if ok { (old(self).refilled(now) - tokens) as nat } else { old(self).refilled(now) }
                &&& final(self).spec_last_refill() == now
            },
            final(self).spec_capacity() == old(self).spec_capacity(),
            final(self).spec_rate() == old(self).spec_rate(),
    {
        self.try_consume_at(tokens, now_ms())
    }
}

/// Outcomes of `n` single-token requests made at the instant of the last
/// refill, on a bucket holding `tokens` tokens: the number granted.
pub open spec fn granted_at_one_instant(tokens: nat, n: nat) -> nat {
    if n <= tokens { n } else { tokens }
}

/// With no time elapsed since the last refill, a request is granted exactly
/// when a token is left, and the bucket loses that token: so of `n` requests
/// made at one instant, `min(n, tokens)` are granted.
pub proof fn lemma_no_refill_at_same_instant(b: TokenBucket)
    requires
        b.spec_tokens() <= b.spec_capacity(),
    ensures
        b.refilled(b.spec_last_refill()) == b.spec_tokens(),
{
    let r = b.spec_rate();
    assert(0nat * r == 0) by (nonlinear_arith);
}

/// Rate limiter using token bucket algorithm
pub struct RateLimiter {
    buckets: StrMap<TokenBucket>,
    requests_per_minute: u32,
    burst_capacity: u32,
}

impl RateLimiter {
    /// The bucket of each client seen so far.
    pub closed spec fn view(&self) -> Map<Seq<char>, TokenBucket> {
        self.buckets@
    }

    pub closed spec fn spec_requests_per_minute(&self) -> u32 {
        self.requests_per_minute
    }

    pub closed spec fn spec_burst_capacity(&self) -> u32 {
        self.burst_capacity
    }

    /// The bucket that a request from `client` at time `now` draws on: its
    /// own, or a full new one for a client not seen before.
    pub closed spec fn bucket_for(&self, client: Seq<char>, now: u64) -> TokenBucket {
        if self@.dom().contains(client) {
            self@[client]
        } else {
            TokenBucket { capacity: self.spec_burst_capacity(), tokens: self.spec_burst_capacity(), last_refill: now, refill_rate: self.spec_requests_per_minute() }
        }
    }

    pub fn new(requests_per_minute: u32, burst_capacity: u32) -> (r: Self)
        ensures
            r@ == Map::<Seq<char>, TokenBucket>::empty(),
            r.spec_requests_per_minute() == requests_per_minute,
            r.spec_burst_capacity() == burst_capacity,
    {
        Self { buckets: StrMap::new(), requests_per_minute, burst_capacity }
    }

    /// Admits a request from `client_id` at time `now` if its bucket has a token.
    pub fn check_request_at(&mut self, client_id: &str, now: u64) -> (r: Result<(), SecurityError>)
        ensures
            ({
                let b0 = old(self).bucket_for(client_id@, now);
                let granted = b0.refilled(now) > 0;
                &&& (r is Ok) == granted
                &&& !granted ==> (r matches Err(SecurityError::RateLimitExceeded { client_id: c }) && c@ == client_id@)
                &&& final(self)@.dom() == old(self)@.dom().insert(client_id@)
                &&& forall|k: Seq<char>| k != client_id@ && old(self)@.dom().contains(k) ==> #[trigger] final(self)@[k] == old(self)@[k]
                &&& final(self)@[client_id@].spec_tokens() == if granted { (b0.refilled(now) - 1) as nat } else { b0.refilled(now) }
                &&& final(self)@[client_id@].spec_last_refill() == now
                &&& final(self)@[client_id@].spec_capacity() == b0.spec_capacity()
                &&& final(self)@[client_id@].spec_rate() == b0.spec_rate()
            }),
            final(self).spec_requests_per_minute() == old(self).spec_requests_per_minute(),
            final(self).spec_burst_capacity() == old(self).spec_burst_capacity(),
    {
        let mut bucket = match self.buckets.remove(client_id) {
            Some(b) => b,
            None => TokenBucket::new_at(self.requests_per_minute, self.burst_capacity, now),
        };
        let ok = bucket.consume_at(now);
        self.buckets.insert(client_id.to_string(), bucket);
        proof {
            assert(self@.dom() =~= old(self)@.dom().insert(client_id@));
        }
        if ok {
            Ok(())
        } else {
            Err(SecurityError::RateLimitExceeded { client_id: client_id.to_string() })
        }
    }

    /// Admits a request from `client_id` now if its bucket has a token.
    pub fn check_request(&mut self, client_id: &str) -> (r: Result<(), SecurityError>)
        ensures
            exists|now: u64| #![trigger old(self).bucket_for(client_id@, now)] {
                let b0 = old(self).bucket_for(client_id@, now);
                &&& (r is Ok) == (b0.refilled(now) > 0)
                &&& final(self)@.dom() == old(self)@.dom().insert(client_id@)
                &&& final(self)@[client_id@].spec_tokens() == if r is Ok { (b0.refilled(now) - 1) as nat } else { b0.refilled(now) }
            },
            forall|k: Seq<char>| k != client_id@ && old(self)@.dom().contains(k) ==> #[trigger] final(self)@[k] == old(self)@[k],
    {
        self.check_request_at(client_id, now_ms())
    }

    /// Check rate limit for a client (alias for check_request): true if admitted.
    pub fn check_rate_limit(&mut self, client_id: String) -> (ok: bool)
        ensures
            exists|now: u64| #![trigger old(self).bucket_for(client_id@, now)] {
                let b0 = old(self).bucket_for(client_id@, now);
                &&& ok == (b0.refilled(now) > 0)
                &&& final(self)@.dom() == old(self)@.dom().insert(client_id@)
            },
    {
        self.check_request(client_id.as_str()).is_ok()
    }
}

} // verus!
