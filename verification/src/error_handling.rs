//! Error handling: error context, recovery strategies, threat levels,
//! a circuit breaker and error reporting.

pub mod circuit_breaker;
pub mod recovery;
pub mod types;

use std::time::Duration;
use vstd::prelude::*;
use crate::clock::{duration_from_ms, duration_millis, duration_to_ms, now_ms, saturated_ms};
use crate::codec::CodecError;
use crate::rpc::RpcError;
use crate::transport::{ConnectionState, TransportError};

verus! {

/// Security threat levels, from least to most severe.
#[derive(Debug, Clone, Copy, PartialEq, Eq, Structural)]
pub enum ThreatLevel {
    Low,
    Medium,
    High,
    Critical,
}

impl ThreatLevel {
    /// The position of the level in the order `Low < Medium < High < Critical`.
    pub open spec fn spec_rank(&self) -> nat {
        match self {
            ThreatLevel::Low => 0,
            ThreatLevel::Medium => 1,
            ThreatLevel::High => 2,
            ThreatLevel::Critical => 3,
        }
    }

    /// The position of the level in the order `Low < Medium < High < Critical`.
    pub fn rank(&self) -> (r: u8)
        ensures
            r == self.spec_rank(),
    {
        match self {
            ThreatLevel::Low => 0,
            ThreatLevel::Medium => 1,
            ThreatLevel::High => 2,
            ThreatLevel::Critical => 3,
        }
    }

    /// Whether this level is at least as severe as `other` (`self >= other`).
    pub fn at_least(&self, other: &ThreatLevel) -> (b: bool)
        ensures
            b == (self.spec_rank() >= other.spec_rank()),
    {
        self.rank() >= other.rank()
    }
}

/// Main application error type with context and recovery suggestions
#[derive(Debug)]
pub enum LeptosWsError {
    Transport { source: TransportError, context: ErrorContext, recovery: RecoveryStrategy },
    Rpc { source: RpcError, context: ErrorContext, recovery: RecoveryStrategy },
    Codec { source: CodecError, context: ErrorContext, recovery: RecoveryStrategy },
    Configuration { message: String, field: String, expected: String, actual: String },
    Security { message: String, threat_level: ThreatLevel, context: ErrorContext },
    RateLimit { message: String, retry_after: Option<Duration>, context: ErrorContext },
    Internal { message: String, context: ErrorContext, should_report: bool },
}

/// Error context providing additional information for debugging;
/// `timestamp` is in seconds since the UNIX epoch.
#[derive(Debug, Clone)]
pub struct ErrorContext {
    pub timestamp: u64,
    pub operation: String,
    pub component: String,
    pub connection_state: Option<ConnectionState>,
    pub attempt_number: u32,
    pub user_data: Option<serde_json::Value>,
    pub session_id: Option<String>,
    pub trace_id: Option<String>,
}

impl ErrorContext {
    /// A context for an operation of a component at time `now_ms`
    /// (milliseconds), first attempt, with nothing else recorded.
    pub fn new_at(operation: &str, component: &str, now_ms: u64) -> (c: Self)
        ensures
            c.timestamp == now_ms / 1000,
            c.operation@ == operation@,
            c.component@ == component@,
            c.connection_state is None,
            c.attempt_number == 1,
            c.user_data is None,
            c.session_id is None,
            c.trace_id is None,
    {
        Self {
            timestamp: now_ms / 1000,
            operation: operation.to_string(),
            component: component.to_string(),
            connection_state: None,
            attempt_number: 1,
            user_data: None,
            session_id: None,
            trace_id: None,
        }
    }

    /// A context for an operation of a component, stamped now.
    pub fn new(operation: &str, component: &str) -> (c: Self)
        ensures
            c.operation@ == operation@,
            c.component@ == component@,
            c.connection_state is None,
            c.attempt_number == 1,
            c.user_data is None,
            c.session_id is None,
            c.trace_id is None,
    {
        Self::new_at(operation, component, now_ms())
    }

    pub fn with_connection_state(self, state: ConnectionState) -> (c: Self)
        ensures
            c == (ErrorContext { connection_state: Some(state), ..self }),
    {
        Self { connection_state: Some(state), ..self }
    }

    pub fn with_attempt(self, attempt: u32) -> (c: Self)
        ensures
            c == (ErrorContext { attempt_number: attempt, ..self }),
    {
        Self { attempt_number: attempt, ..self }
    }

    pub fn with_trace_id(self, trace_id: String) -> (c: Self)
        ensures
            c == (ErrorContext { trace_id: Some(trace_id), ..self }),
    {
        Self { trace_id: Some(trace_id), ..self }
    }

    pub fn with_session_id(self, session_id: String) -> (c: Self)
        ensures
            c == (ErrorContext { session_id: Some(session_id), ..self }),
    {
        Self { session_id: Some(session_id), ..self }
    }
}

/// Recovery strategies for different error types
#[derive(Debug, Clone)]
pub enum RecoveryStrategy {
    /// Retry the operation with exponential backoff
    Retry { max_attempts: u32, base_delay: Duration, max_delay: Duration, jitter: bool },
    /// Reconnect and then retry
    Reconnect { max_attempts: u32, delay: Duration },
    /// Fallback to alternative transport
    Fallback { alternatives: Vec<String> },
    /// Degrade functionality gracefully
    Degrade { reduced_functionality: Vec<String>, duration: Duration },
    /// No recovery possible, manual intervention required
    Manual { instructions: String, support_contact: Option<String> },
    /// Automatic recovery in progress
    Automatic { estimated_time: Duration, progress_callback: Option<String> },
}

/// Internal state of the circuit breaker.
#[derive(Debug, Clone, Copy, PartialEq, Eq, Structural)]
pub enum CircuitBreakerState {
    Closed,
    Open,
    HalfOpen,
}

/// Circuit breaker to prevent cascading failures: it opens after five
/// consecutive failures and lets a trial request through sixty seconds
/// after the last failure. Times are in milliseconds.
pub struct CircuitBreaker {
    failure_count: u32,
    success_count: u32,
    last_failure_time: Option<u64>,
    state: CircuitBreakerState,
    failure_threshold: u32,
    timeout: u64,
}

impl CircuitBreaker {
    pub closed spec fn spec_state(&self) -> CircuitBreakerState {
        self.state
    }

    pub closed spec fn spec_failures(&self) -> nat {
        self.failure_count as nat
    }

    pub closed spec fn spec_successes(&self) -> nat {
        self.success_count as nat
    }

    pub closed spec fn spec_last_failure(&self) -> Option<u64> {
        self.last_failure_time
    }

    pub closed spec fn spec_threshold(&self) -> nat {
        self.failure_threshold as nat
    }

    pub closed spec fn spec_timeout(&self) -> nat {
        self.timeout as nat
    }

    /// A closed breaker with no history: threshold five failures, timeout sixty seconds.
    pub fn new() -> (cb: Self)
        ensures
            cb.spec_state() == CircuitBreakerState::Closed,
            cb.spec_failures() == 0,
            cb.spec_successes() == 0,
            cb.spec_last_failure() is None,
            cb.spec_threshold() == 5,
            cb.spec_timeout() == 60000,
    {
        Self {
            failure_count: 0,
            success_count: 0,
            last_failure_time: None,
            state: CircuitBreakerState::Closed,
            failure_threshold: 5,
            timeout: 60000,
        }
    }

    /// Whether a request may go through at time `now`; an open breaker whose
    /// timeout has passed since the last failure turns half-open and lets it through.
    pub fn allow_request_at(&mut self, now: u64) -> (allowed: bool)
        ensures
            ({
                let s = old(self).spec_state();
                let timed_out = old(self).spec_last_failure() matches Some(t) && now as int - t as int > old(self).spec_timeout();
                &&& allowed == (s != CircuitBreakerState::Open || timed_out)
                &&& final(self).spec_state() == if s == CircuitBreakerState::Open && timed_out { CircuitBreakerState::HalfOpen } else { s }
            }),
            final(self).spec_failures() == old(self).spec_failures(),
            final(self).spec_successes() == old(self).spec_successes(),
            final(self).spec_last_failure() == old(self).spec_last_failure(),
            final(self).spec_threshold() == old(self).spec_threshold(),
            final(self).spec_timeout() == old(self).spec_timeout(),
    {
        match self.state {
            CircuitBreakerState::Closed => true,
            CircuitBreakerState::Open => {
                if let Some(last_failure) = self.last_failure_time {
                    if now > last_failure && now - last_failure > self.timeout {
                        self.state = CircuitBreakerState::HalfOpen;
                        true
                    } else {
                        false
                    }
                } else {
                    false
                }
            },
            CircuitBreakerState::HalfOpen => true,
        }
    }

    /// Whether a request may go through now.
    pub fn allow_request(&mut self) -> (allowed: bool)
        ensures
            old(self).spec_state() != CircuitBreakerState::Open ==> allowed && final(self).spec_state() == old(self).spec_state(),
            old(self).spec_state() == CircuitBreakerState::Open && old(self).spec_last_failure() is None ==> !allowed,
            allowed ==> final(self).spec_state() != CircuitBreakerState::Open,
            !allowed ==> final(self).spec_state() == CircuitBreakerState::Open,
            allowed && old(self).spec_state() == CircuitBreakerState::Open ==> final(self).spec_state() == CircuitBreakerState::HalfOpen,
            final(self).spec_failures() == old(self).spec_failures(),
            final(self).spec_successes() == old(self).spec_successes(),
            final(self).spec_last_failure() == old(self).spec_last_failure(),
            final(self).spec_threshold() == old(self).spec_threshold(),
            final(self).spec_timeout() == old(self).spec_timeout(),
    {
        self.allow_request_at(now_ms())
    }

    /// Records a success: the failure count is cleared and a half-open breaker closes.
    pub fn record_success(&mut self)
        ensures
            final(self).spec_successes() == if old(self).spec_successes() < u32::MAX { old(self).spec_successes() + 1 } else { old(self).spec_successes() },
            final(self).spec_failures() == 0,
            final(self).spec_state() == if old(self).spec_state() == CircuitBreakerState::HalfOpen { CircuitBreakerState::Closed } else { old(self).spec_state() },
            final(self).spec_last_failure() == old(self).spec_last_failure(),
            final(self).spec_threshold() == old(self).spec_threshold(),
            final(self).spec_timeout() == old(self).spec_timeout(),
    {
        self.success_count = self.success_count.saturating_add(1);
        self.failure_count = 0;
        if self.state == CircuitBreakerState::HalfOpen {
            self.state = CircuitBreakerState::Closed;
        }
    }

    /// Records a failure at time `now`; the breaker opens once the
    /// failures reach the threshold.
    pub fn record_failure_at(&mut self, now: u64)
        ensures
            final(self).spec_failures() == if old(self).spec_failures() < u32::MAX { old(self).spec_failures() + 1 } else { old(self).spec_failures() },
            final(self).spec_last_failure() == Some(now),
            final(self).spec_state() == if final(self).spec_failures() >= old(self).spec_threshold() { CircuitBreakerState::Open } else { old(self).spec_state() },
            final(self).spec_successes() == old(self).spec_successes(),
            final(self).spec_threshold() == old(self).spec_threshold(),
            final(self).spec_timeout() == old(self).spec_timeout(),
    {
        self.failure_count = self.failure_count.saturating_add(1);
        self.last_failure_time = Some(now);
        if self.failure_count >= self.failure_threshold {
            self.state = CircuitBreakerState::Open;
        }
    }

    /// Records a failure now.
    pub fn record_failure(&mut self)
        ensures
            final(self).spec_failures() == if old(self).spec_failures() < u32::MAX { old(self).spec_failures() + 1 } else { old(self).spec_failures() },
            final(self).spec_last_failure() is Some,
            final(self).spec_state() == if final(self).spec_failures() >= old(self).spec_threshold() { CircuitBreakerState::Open } else { old(self).spec_state() },
            final(self).spec_threshold() == old(self).spec_threshold(),
            final(self).spec_timeout() == old(self).spec_timeout(),
            final(self).spec_successes() == old(self).spec_successes(),
    {
        self.record_failure_at(now_ms())
    }

    /// The state as text: `closed`, `open` or `half-open`.
    pub fn get_state(&self) -> (s: &'static str)
        ensures
            s@ == match self.spec_state() {
                CircuitBreakerState::Closed => "closed"@,
                CircuitBreakerState::Open => "open"@,
                CircuitBreakerState::HalfOpen => "half-open"@,
            },
    {
        match self.state {
            CircuitBreakerState::Closed => "closed",
            CircuitBreakerState::Open => "open",
            CircuitBreakerState::HalfOpen => "half-open",
        }
    }
}

impl Default for CircuitBreaker {
    fn default() -> (cb: Self)
        ensures
            cb.spec_state() == CircuitBreakerState::Closed,
            cb.spec_failures() == 0,
            cb.spec_threshold() == 5,
            cb.spec_timeout() == 60000,
    {
        Self::new()
    }
}

/// What a recovery handler does about an error.
#[derive(Debug, Clone, PartialEq, Eq, Structural)]
pub enum RecoveryPlan {
    /// Retry with exponential backoff from `base_delay_ms`, capped at `max_delay_ms`.
    RetryWithBackoff { max_attempts: u32, base_delay_ms: u64, max_delay_ms: u64, jitter: bool },
    /// Retry after a fixed delay.
    RetryWithReconnect { max_attempts: u32, delay_ms: u64 },
    /// Wait `delay_ms` and call the operation once more.
    WaitAndRetryOnce { delay_ms: u64 },
    /// The strategy named in the error is not one this handler carries out.
    Unsupported,
    /// Give the error back unchanged.
    GiveUp,
}

/// The backoff after a failed attempt: the wait doubled, but no more than
/// the maximum; `None` once `attempt` has reached `max_attempts`.
pub open spec fn spec_next_backoff(attempt: nat, max_attempts: nat, delay_ms: nat, max_delay_ms: nat) -> Option<nat> {
    if attempt >= max_attempts {
        None
    } else {
        Some(if 2 * delay_ms <= max_delay_ms { 2 * delay_ms } else { max_delay_ms })
    }
}

/// Error recovery handler with intelligent retry logic
pub struct ErrorRecoveryHandler {
    max_retry_attempts: u32,
    base_retry_delay: u64,
    max_retry_delay: u64,
    jitter_enabled: bool,
    circuit_breaker: CircuitBreaker,
}

impl ErrorRecoveryHandler {
    pub closed spec fn spec_breaker(&self) -> CircuitBreaker {
        self.circuit_breaker
    }

    pub fn new() -> (h: Self)
        ensures
            h.spec_breaker().spec_state() == CircuitBreakerState::Closed,
            h.spec_breaker().spec_failures() == 0,
            h.spec_breaker().spec_threshold() == 5,
    {
        Self {
            max_retry_attempts: 3,
            base_retry_delay: 100,
            max_retry_delay: 30000,
            jitter_enabled: true,
            circuit_breaker: CircuitBreaker::new(),
        }
    }

    /// How the handler deals with an error: transport and RPC errors follow
    /// their retry or reconnect strategy, rate limits wait (one second by
    /// default) and retry once, and everything else is given back.
    pub fn recovery_plan(&self, error: &LeptosWsError) -> (p: RecoveryPlan)
        ensures
            match error {
                LeptosWsError::Transport { recovery, .. } | LeptosWsError::Rpc { recovery, .. } => match recovery {
                    RecoveryStrategy::Retry { max_attempts, base_delay, max_delay, jitter } =>
                        p matches RecoveryPlan::RetryWithBackoff { max_attempts: m, base_delay_ms: b, max_delay_ms: x, jitter: j }
                            && m == max_attempts && j == jitter
                            && b == saturated_ms(*base_delay)
                            && x == saturated_ms(*max_delay),
                    RecoveryStrategy::Reconnect { max_attempts, delay } =>
                        p matches RecoveryPlan::RetryWithReconnect { max_attempts: m, delay_ms: d }
                            && m == max_attempts
                            && d == saturated_ms(*delay),
                    _ => p == RecoveryPlan::Unsupported,
                },
                LeptosWsError::RateLimit { retry_after, .. } => match retry_after {
                    Some(d) => p == RecoveryPlan::WaitAndRetryOnce {
                        delay_ms: saturated_ms(*d) },
                    None => p == RecoveryPlan::WaitAndRetryOnce { delay_ms: 1000 },
                },
                _ => p == RecoveryPlan::GiveUp,
            },
    {
        match error {
            LeptosWsError::Transport { recovery, .. } | LeptosWsError::Rpc { recovery, .. } => match recovery {
                RecoveryStrategy::Retry { max_attempts, base_delay, max_delay, jitter } => RecoveryPlan::RetryWithBackoff {
                    max_attempts: *max_attempts,
                    base_delay_ms: duration_to_ms(*base_delay),
                    max_delay_ms: duration_to_ms(*max_delay),
                    jitter: *jitter,
                },
                RecoveryStrategy::Reconnect { max_attempts, delay } => RecoveryPlan::RetryWithReconnect {
                    max_attempts: *max_attempts,
                    delay_ms: duration_to_ms(*delay),
                },
                _ => RecoveryPlan::Unsupported,
            },
            LeptosWsError::RateLimit { retry_after, .. } => match retry_after {
                Some(d) => RecoveryPlan::WaitAndRetryOnce { delay_ms: duration_to_ms(*d) },
                None => RecoveryPlan::WaitAndRetryOnce { delay_ms: 1000 },
            },
            _ => RecoveryPlan::GiveUp,
        }
    }

    /// After attempt `attempt` (counting from one) failed while waiting
    /// `delay_ms` between attempts: the wait to use after the next failure,
    /// doubled and capped, or `None` when no attempt is left.
    pub fn next_backoff(attempt: u32, max_attempts: u32, delay_ms: u64, max_delay_ms: u64) -> (r: Option<u64>)
        ensures
            match r {
                Some(d) => spec_next_backoff(attempt as nat, max_attempts as nat, delay_ms as nat, max_delay_ms as nat) == Some(d as nat),
                None => spec_next_backoff(attempt as nat, max_attempts as nat, delay_ms as nat, max_delay_ms as nat) is None,
            },
    {
        if attempt >= max_attempts {
            None
        } else if delay_ms <= max_delay_ms / 2 {
            Some(delay_ms * 2)
        } else {
            Some(max_delay_ms)
        }
    }

    /// Before an attempt at time `now`: whether the circuit breaker lets it
    /// through; an open breaker whose timeout has passed turns half-open.
    pub fn before_attempt_at(&mut self, now: u64) -> (allowed: bool)
        ensures
            ({
                let b = old(self).spec_breaker();
                let timed_out = b.spec_last_failure() matches Some(t) && now as int - t as int > b.spec_timeout();
                &&& allowed == (b.spec_state() != CircuitBreakerState::Open || timed_out)
                &&& final(self).spec_breaker().spec_state() == if b.spec_state() == CircuitBreakerState::Open && timed_out {
                    CircuitBreakerState::HalfOpen
                } else {
                    b.spec_state()
                }
            }),
            final(self).spec_breaker().spec_failures() == old(self).spec_breaker().spec_failures(),
            final(self).spec_breaker().spec_successes() == old(self).spec_breaker().spec_successes(),
            final(self).spec_breaker().spec_last_failure() == old(self).spec_breaker().spec_last_failure(),
            final(self).spec_breaker().spec_threshold() == old(self).spec_breaker().spec_threshold(),
            final(self).spec_breaker().spec_timeout() == old(self).spec_breaker().spec_timeout(),
    {
        self.circuit_breaker.allow_request_at(now)
    }

    /// After an attempt at time `now`: records its outcome with the circuit
    /// breaker. A success clears the failures and closes a half-open
    /// breaker; a failure is counted, and the breaker opens once the failures
    /// reach the threshold.
    pub fn after_attempt_at(&mut self, succeeded: bool, now: u64)
        ensures
            ({
                let b = old(self).spec_breaker();
                let a = final(self).spec_breaker();
                &&& a.spec_threshold() == b.spec_threshold()
                &&& a.spec_timeout() == b.spec_timeout()
                &&& succeeded ==> {
                    &&& a.spec_failures() == 0
                    &&& a.spec_successes() == if b.spec_successes() < u32::MAX { b.spec_successes() + 1 } else { b.spec_successes() }
                    &&& a.spec_state() == if b.spec_state() == CircuitBreakerState::HalfOpen { CircuitBreakerState::Closed } else { b.spec_state() }
                    &&& a.spec_last_failure() == b.spec_last_failure()
                }
                &&& !succeeded ==> {
                    &&& a.spec_failures() == if b.spec_failures() < u32::MAX { b.spec_failures() + 1 } else { b.spec_failures() }
                    &&& a.spec_last_failure() == Some(now)
                    &&& a.spec_state() == if a.spec_failures() >= b.spec_threshold() { CircuitBreakerState::Open } else { b.spec_state() }
                    &&& a.spec_successes() == b.spec_successes()
                }
            }),
    {
        if succeeded {
            self.circuit_breaker.record_success();
        } else {
            self.circuit_breaker.record_failure_at(now);
        }
    }
}

impl Default for ErrorRecoveryHandler {
    fn default() -> (h: Self)
        ensures
            h.spec_breaker().spec_state() == CircuitBreakerState::Closed,
    {
        Self::new()
    }
}

/// Error reporting and telemetry
pub struct ErrorReporter {
    enabled: bool,
    endpoint: Option<String>,
    api_key: Option<String>,
}

impl ErrorReporter {
    pub closed spec fn spec_enabled(&self) -> bool {
        self.enabled
    }

    pub closed spec fn spec_endpoint(&self) -> Option<String> {
        self.endpoint
    }

    pub closed spec fn spec_api_key(&self) -> Option<String> {
        self.api_key
    }

    /// A reporter that is off and has no endpoint.
    pub fn new() -> (r: Self)
        ensures
            !r.spec_enabled(),
            r.spec_endpoint() is None,
            r.spec_api_key() is None,
    {
        Self { enabled: false, endpoint: None, api_key: None }
    }

    /// Sets the endpoint and key and turns reporting on.
    pub fn configure(&mut self, endpoint: String, api_key: String)
        ensures
            final(self).spec_enabled(),
            final(self).spec_endpoint() == Some(endpoint),
            final(self).spec_api_key() == Some(api_key),
    {
        self.endpoint = Some(endpoint);
        self.api_key = Some(api_key);
        self.enabled = true;
    }

    /// Whether reports are sent.
    pub fn is_enabled(&self) -> (b: bool)
        ensures
            b == self.spec_enabled(),
    {
        self.enabled
    }

    /// The kind of an error, as named in reports.
    pub fn get_error_type(&self, error: &LeptosWsError) -> (t: &'static str)
        ensures
            t@ == match error {
                LeptosWsError::Transport { .. } => "transport"@,
                LeptosWsError::Rpc { .. } => "rpc"@,
                LeptosWsError::Codec { .. } => "codec"@,
                LeptosWsError::Configuration { .. } => "configuration"@,
                LeptosWsError::Security { .. } => "security"@,
                LeptosWsError::RateLimit { .. } => "rate_limit"@,
                LeptosWsError::Internal { .. } => "internal"@,
            },
    {
        match error {
            LeptosWsError::Transport { .. } => "transport",
            LeptosWsError::Rpc { .. } => "rpc",
            LeptosWsError::Codec { .. } => "codec",
            LeptosWsError::Configuration { .. } => "configuration",
            LeptosWsError::Security { .. } => "security",
            LeptosWsError::RateLimit { .. } => "rate_limit",
            LeptosWsError::Internal { .. } => "internal",
        }
    }

    /// The context carried by an error, if it has one.
    pub fn extract_context<'a>(&self, error: &'a LeptosWsError) -> (c: Option<&'a ErrorContext>)
        ensures
            match error {
                LeptosWsError::Transport { context, .. } | LeptosWsError::Rpc { context, .. }
                | LeptosWsError::Codec { context, .. } | LeptosWsError::Security { context, .. }
                | LeptosWsError::RateLimit { context, .. } | LeptosWsError::Internal { context, .. } => c == Some(context),
                LeptosWsError::Configuration { .. } => c is None,
            },
    {
        match error {
            LeptosWsError::Transport { context, .. } => Some(context),
            LeptosWsError::Rpc { context, .. } => Some(context),
            LeptosWsError::Codec { context, .. } => Some(context),
            LeptosWsError::Security { context, .. } => Some(context),
            LeptosWsError::RateLimit { context, .. } => Some(context),
            LeptosWsError::Internal { context, .. } => Some(context),
            _ => None,
        }
    }
}

impl Default for ErrorReporter {
    fn default() -> (r: Self)
        ensures
            !r.spec_enabled(),
    {
        Self::new()
    }
}

/// The error for a transport failure, with the default context and strategy
/// (three retries from 100 ms, capped at 10 s, with jitter).
pub fn transport_error(source: TransportError) -> (e: LeptosWsError)
    ensures
        e matches LeptosWsError::Transport { source: s, context, recovery: RecoveryStrategy::Retry { max_attempts, base_delay, max_delay, jitter } }
            && s == source && context.operation@ == "transport"@ && context.component@ == "transport"@
            && max_attempts == 3 && duration_millis(base_delay) == 100 && duration_millis(max_delay) == 10000 && jitter,
{
    LeptosWsError::Transport {
        source,
        context: ErrorContext::new("transport", "transport"),
        recovery: RecoveryStrategy::Retry {
            max_attempts: 3,
            base_delay: duration_from_ms(100),
            max_delay: duration_from_ms(10000),
            jitter: true,
        },
    }
}

/// The error for an RPC failure, with the default context and strategy
/// (two retries from 50 ms, capped at 5 s, without jitter).
pub fn rpc_error(source: RpcError) -> (e: LeptosWsError)
    ensures
        e matches LeptosWsError::Rpc { source: s, context, recovery: RecoveryStrategy::Retry { max_attempts, base_delay, max_delay, jitter } }
            && s == source && context.operation@ == "rpc"@ && context.component@ == "rpc"@
            && max_attempts == 2 && duration_millis(base_delay) == 50 && duration_millis(max_delay) == 5000 && !jitter,
{
    LeptosWsError::Rpc {
        source,
        context: ErrorContext::new("rpc", "rpc"),
        recovery: RecoveryStrategy::Retry {
            max_attempts: 2,
            base_delay: duration_from_ms(50),
            max_delay: duration_from_ms(5000),
            jitter: false,
        },
    }
}

/// The error for a codec failure: manual recovery.
pub fn codec_error(source: CodecError) -> (e: LeptosWsError)
    ensures
        e matches LeptosWsError::Codec { source: s, context, recovery: RecoveryStrategy::Manual { instructions, support_contact } }
            && s == source && context.operation@ == "codec"@ && context.component@ == "codec"@
            && instructions@ == "Check message format and codec configuration"@ && support_contact is None,
{
    LeptosWsError::Codec {
        source,
        context: ErrorContext::new("codec", "codec"),
        recovery: RecoveryStrategy::Manual {
            instructions: "Check message format and codec configuration".to_string(),
            support_contact: None,
        },
    }
}

} // verus!
