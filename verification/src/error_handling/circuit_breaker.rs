//! Circuit Breaker Pattern
//!
//! Circuit breaker implementation for fault tolerance

use vstd::prelude::*;
use crate::clock::now_ms;

verus! {

/// Circuit breaker state
#[derive(Debug, Clone, PartialEq, Eq, Structural)]
pub enum CircuitBreakerState {
    Closed,
    Open,
    HalfOpen,
}

/// Circuit breaker: opens after five consecutive failures; once sixty
/// seconds have passed since the last failure an open breaker lets a trial
/// call through. Times are in milliseconds.
pub struct CircuitBreaker {
    pub state: CircuitBreakerState,
    failure_count: u32,
    failure_threshold: u32,
    timeout: u64,
    pub last_failure_time: Option<u64>,
}

impl CircuitBreaker {
    pub closed spec fn spec_state(&self) -> CircuitBreakerState {
        self.state
    }

    pub closed spec fn spec_last_failure(&self) -> Option<u64> {
        self.last_failure_time
    }

    pub closed spec fn spec_failures(&self) -> nat {
        self.failure_count as nat
    }

    pub closed spec fn spec_threshold(&self) -> nat {
        self.failure_threshold as nat
    }

    pub closed spec fn spec_timeout(&self) -> nat {
        self.timeout as nat
    }

    /// An open breaker may be tried again at `now`: no failure is recorded,
    /// or the timeout has passed since the last one.
    pub closed spec fn reset_due(&self, now: u64) -> bool {
        match self.last_failure_time {
            None => true,
            Some(t) => now as int - t as int >= self.spec_timeout(),
        }
    }

    /// A call is let through at `now`.
    pub closed spec fn admits(&self, now: u64) -> bool {
        self.state != CircuitBreakerState::Open || self.reset_due(now)
    }

    /// The failure count after one more failure.
    pub closed spec fn failures_after_failure(&self) -> nat {
        if self.spec_failures() < u32::MAX { self.spec_failures() + 1 } else { self.spec_failures() }
    }

    pub fn new() -> (cb: Self)
        ensures
            cb.spec_state() == CircuitBreakerState::Closed,
            cb.spec_failures() == 0,
            cb.spec_threshold() == 5,
            cb.spec_timeout() == 60000,
            cb.spec_last_failure() is None,
    {
        Self {
            state: CircuitBreakerState::Closed,
            failure_count: 0,
            failure_threshold: 5,
            timeout: 60000,
            last_failure_time: None,
        }
    }

    fn should_attempt_reset_at(&self, now: u64) -> (b: bool)
        ensures
            b == self.reset_due(now),
    {
        match self.last_failure_time {
            Some(last_failure) => now >= last_failure && now - last_failure >= self.timeout,
            None => true,
        }
    }

    fn on_success(&mut self)
        ensures
            final(self).spec_state() == CircuitBreakerState::Closed,
            final(self).spec_failures() == 0,
            final(self).spec_last_failure() == old(self).spec_last_failure(),
            final(self).spec_threshold() == old(self).spec_threshold(),
            final(self).spec_timeout() == old(self).spec_timeout(),
    {
        self.state = CircuitBreakerState::Closed;
        self.failure_count = 0;
    }

    fn on_failure_at(&mut self, now: u64)
        ensures
            final(self).spec_failures() == old(self).failures_after_failure(),
            final(self).spec_last_failure() == Some(now),
            final(self).spec_state() == if final(self).spec_failures() >= old(self).spec_threshold() {
                CircuitBreakerState::Open
            } else {
                old(self).spec_state()
            },
            final(self).spec_threshold() == old(self).spec_threshold(),
            final(self).spec_timeout() == old(self).spec_timeout(),
    {
        self.failure_count = self.failure_count.saturating_add(1);
        self.last_failure_time = Some(now);
        if self.failure_count >= self.failure_threshold {
            self.state = CircuitBreakerState::Open;
        }
    }

    /// Decides at time `now` whether a call may go ahead: an open breaker
    /// that is due for a trial turns half-open and lets it through, one that
    /// is not refuses it; a closed or half-open breaker lets it through.
    pub fn begin_call_at(&mut self, now: u64) -> (admitted: bool)
        ensures
            admitted == old(self).admits(now),
            (admitted && old(self).spec_state() == CircuitBreakerState::Open) ==>
                final(self).spec_state() == CircuitBreakerState::HalfOpen,
            !(admitted && old(self).spec_state() == CircuitBreakerState::Open) ==>
                final(self).spec_state() == old(self).spec_state(),
            final(self).spec_failures() == old(self).spec_failures(),
            final(self).spec_last_failure() == old(self).spec_last_failure(),
            final(self).spec_threshold() == old(self).spec_threshold(),
            final(self).spec_timeout() == old(self).spec_timeout(),
    {
        match self.state {
            CircuitBreakerState::Open => {
                if self.should_attempt_reset_at(now) {
                    self.state = CircuitBreakerState::HalfOpen;
                    true
                } else {
                    false
                }
            },
            CircuitBreakerState::HalfOpen => true,
            CircuitBreakerState::Closed => true,
        }
    }

    /// Decides now whether a call may go ahead.
    pub fn begin_call(&mut self) -> (admitted: bool)
        ensures
            old(self).spec_state() != CircuitBreakerState::Open ==> admitted
                && final(self).spec_state() == old(self).spec_state(),
            final(self).spec_failures() == old(self).spec_failures(),
            final(self).spec_threshold() == old(self).spec_threshold(),
            final(self).spec_timeout() == old(self).spec_timeout(),
            final(self).spec_last_failure() == old(self).spec_last_failure(),
            (admitted && old(self).spec_state() == CircuitBreakerState::Open) ==>
                final(self).spec_state() == CircuitBreakerState::HalfOpen,
            !admitted ==> old(self).spec_state() == CircuitBreakerState::Open
                && final(self).spec_state() == CircuitBreakerState::Open,
            exists|now: u64| #[trigger] old(self).admits(now) == admitted,
    {
        self.begin_call_at(now_ms())
    }

    /// Runs `operation` at time `now` unless the breaker is open and not yet
    /// due for a trial; success closes the breaker, failure counts towards opening it.
    pub fn call_at<F, R>(&mut self, operation: F, now: u64) -> (r: Result<R, String>)
        where
            F: FnOnce() -> Result<R, String>,
        requires
            operation.requires(()),
        ensures
            !old(self).admits(now) ==> (r matches Err(m) && m@ == "Circuit breaker is open"@ && *final(self) == *old(self)),
            old(self).admits(now) ==> {
                let mid = if old(self).spec_state() == CircuitBreakerState::Open { CircuitBreakerState::HalfOpen } else { old(self).spec_state() };
                &&& operation.ensures((), r)
                &&& r is Ok ==> final(self).spec_state() == CircuitBreakerState::Closed && final(self).spec_failures() == 0
                    && final(self).spec_last_failure() == old(self).spec_last_failure()
                &&& r is Err ==> final(self).spec_failures() == old(self).failures_after_failure()
                    && final(self).spec_last_failure() == Some(now)
                    && final(self).spec_state() == if final(self).spec_failures() >= old(self).spec_threshold() { CircuitBreakerState::Open } else { mid }
            },
            final(self).spec_threshold() == old(self).spec_threshold(),
            final(self).spec_timeout() == old(self).spec_timeout(),
    {
        if !self.begin_call_at(now) {
            return Err("Circuit breaker is open".to_string());
        }
        match operation() {
            Ok(result) => {
                self.on_success();
                Ok(result)
            },
            Err(error) => {
                self.on_failure_at(now);
                Err(error)
            },
        }
    }

    /// Runs `operation` now unless the breaker is open and not yet due for a trial.
    pub fn call<F, R>(&mut self, operation: F) -> (r: Result<R, String>)
        where
            F: FnOnce() -> Result<R, String>,
        requires
            operation.requires(()),
        ensures
            old(self).spec_state() != CircuitBreakerState::Open ==> operation.ensures((), r),
            (r is Ok && old(self).spec_state() != CircuitBreakerState::Open) ==> final(self).spec_state() == CircuitBreakerState::Closed,
            (r is Ok && old(self).spec_state() != CircuitBreakerState::Open) ==> final(self).spec_failures() == 0
                && final(self).spec_last_failure() == old(self).spec_last_failure(),
            (r is Err && old(self).spec_state() != CircuitBreakerState::Open) ==> final(self).spec_failures() == old(self).failures_after_failure()
                && final(self).spec_last_failure() is Some
                && final(self).spec_state() == if final(self).spec_failures() >= old(self).spec_threshold() { CircuitBreakerState::Open } else { old(self).spec_state() },
            final(self).spec_threshold() == old(self).spec_threshold(),
            final(self).spec_timeout() == old(self).spec_timeout(),
    {
        self.call_at(operation, now_ms())
    }

    /// Record a successful operation: the breaker closes.
    pub fn record_success(&mut self)
        ensures
            final(self).spec_state() == CircuitBreakerState::Closed,
            final(self).spec_failures() == 0,
            final(self).spec_last_failure() == old(self).spec_last_failure(),
            final(self).spec_threshold() == old(self).spec_threshold(),
            final(self).spec_timeout() == old(self).spec_timeout(),
    {
        self.on_success();
    }

    /// Get current state
    pub fn state(&self) -> (s: CircuitBreakerState)
        ensures
            s == self.spec_state(),
    {
        match self.state {
            CircuitBreakerState::Closed => CircuitBreakerState::Closed,
            CircuitBreakerState::Open => CircuitBreakerState::Open,
            CircuitBreakerState::HalfOpen => CircuitBreakerState::HalfOpen,
        }
    }

    /// Whether a call would be let through at `now`.
    pub fn allow_request_at(&self, now: u64) -> (b: bool)
        ensures
            b == self.admits(now),
    {
        match self.state {
            CircuitBreakerState::Closed => true,
            CircuitBreakerState::Open => self.should_attempt_reset_at(now),
            CircuitBreakerState::HalfOpen => true,
        }
    }

    /// Whether a call would be let through now.
    pub fn allow_request(&self) -> (b: bool)
        ensures
            self.spec_state() != CircuitBreakerState::Open ==> b,
            (self.spec_state() == CircuitBreakerState::Open && self.spec_last_failure() is None) ==> b,
            exists|now: u64| #[trigger] self.admits(now) == b,
    {
        self.allow_request_at(now_ms())
    }

    /// Record a failure at time `now`.
    pub fn record_failure_at(&mut self, now: u64)
        ensures
            final(self).spec_failures() == old(self).failures_after_failure(),
            final(self).spec_last_failure() == Some(now),
            final(self).spec_state() == if final(self).spec_failures() >= old(self).spec_threshold() {
                CircuitBreakerState::Open
            } else {
                old(self).spec_state()
            },
            final(self).spec_threshold() == old(self).spec_threshold(),
            final(self).spec_timeout() == old(self).spec_timeout(),
    {
        self.on_failure_at(now);
    }

    /// Record a failure now.
    pub fn record_failure(&mut self)
        ensures
            final(self).spec_failures() == old(self).failures_after_failure(),
            final(self).spec_last_failure() is Some,
            final(self).spec_state() == if final(self).spec_failures() >= old(self).spec_threshold() {
                CircuitBreakerState::Open
            } else {
                old(self).spec_state()
            },
            final(self).spec_threshold() == old(self).spec_threshold(),
            final(self).spec_timeout() == old(self).spec_timeout(),
    {
        self.on_failure_at(now_ms());
    }

    /// Get state as string for compatibility: `closed`, `open` or `half-open`.
    pub fn get_state(&self) -> (s: &'static str)
        ensures
            s@ == match self.spec_state() {
                CircuitBreakerState::Closed => "closed"@,
                CircuitBreakerState::Open => "open"@,
                CircuitBreakerState::HalfOpen => "half-open"@,
            },
    {
        match self.state {
            CircuitBreakerState::Closed => "closed",
            CircuitBreakerState::Open => "open",
            CircuitBreakerState::HalfOpen => "half-open",
        }
    }
}

impl Default for CircuitBreaker {
    fn default() -> (cb: Self)
        ensures
            cb.spec_state() == CircuitBreakerState::Closed,
            cb.spec_failures() == 0,
            cb.spec_threshold() == 5,
    {
        Self::new()
    }
}

} // verus!
