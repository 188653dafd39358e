//! Connection resilience and recovery
//!
//! Circuit breakers, health monitoring and buffering of messages while a
//! connection is down.

use std::time::Duration;
use vstd::prelude::*;
use crate::clock::{duration_from_ms, duration_millis, duration_to_ms, now_ms, saturated_ms};
use crate::security::rate_limiter::elapsed;

verus! {

#[derive(Debug, Clone, Copy, PartialEq, Eq, Structural)]
pub enum CircuitState {
    Closed,
    Open,
    HalfOpen,
}

/// Circuit breaker for connection health; times are in milliseconds.
pub struct CircuitBreaker {
    failure_count: usize,
    success_count: usize,
    failure_threshold: usize,
    success_threshold: usize,
    state: CircuitState,
    last_failure: Option<u64>,
    timeout: u64,
}

impl CircuitBreaker {
    pub closed spec fn spec_state(&self) -> CircuitState {
        self.state
    }

    pub closed spec fn spec_failures(&self) -> nat {
        self.failure_count as nat
    }

    pub closed spec fn spec_successes(&self) -> nat {
        self.success_count as nat
    }

    pub closed spec fn spec_failure_threshold(&self) -> nat {
        self.failure_threshold as nat
    }

    pub closed spec fn spec_success_threshold(&self) -> nat {
        self.success_threshold as nat
    }

    pub closed spec fn spec_last_failure(&self) -> Option<u64> {
        self.last_failure
    }

    pub closed spec fn spec_timeout(&self) -> u64 {
        self.timeout
    }

    /// Whether, at time `now`, the breaker is tripped: a closed breaker once
    /// failures reach the threshold, an open one until the timeout has passed
    /// since the last failure (or always, if none is recorded).
    pub open spec fn trips(&self, now: u64) -> bool {
        match self.spec_state() {
            CircuitState::Closed => self.spec_failures() >= self.spec_failure_threshold(),
            CircuitState::Open => match self.spec_last_failure() {
                Some(t) => elapsed(t, now) < self.spec_timeout(),
                None => true,
            },
            CircuitState::HalfOpen => false,
        }
    }

    pub fn new(failure_threshold: usize, success_threshold: usize, timeout: Duration) -> (cb: Self)
        ensures
            cb.spec_state() == CircuitState::Closed,
            cb.spec_failures() == 0,
            cb.spec_successes() == 0,
            cb.spec_failure_threshold() == failure_threshold,
            cb.spec_success_threshold() == success_threshold,
            cb.spec_last_failure() is None,
            cb.spec_timeout() == saturated_ms(timeout),
    {
        Self {
            failure_count: 0,
            success_count: 0,
            failure_threshold,
            success_threshold,
            state: CircuitState::Closed,
            last_failure: None,
            timeout: duration_to_ms(timeout),
        }
    }

    /// Whether, at time `now`, the breaker is tripped.
    pub fn should_trip_at(&self, now: u64) -> (b: bool)
        ensures
            b == self.trips(now),
    {
        match self.state {
            CircuitState::Closed => self.failure_count >= self.failure_threshold,
            CircuitState::Open => match self.last_failure {
                Some(last) => {
                    let passed: u64 = if now >= last { now - last } else { 0 };
                    passed < self.timeout
                },
                None => true,
            },
            CircuitState::HalfOpen => false,
        }
    }

    /// Whether the breaker is tripped now.
    pub fn should_trip(&self) -> (b: bool)
        ensures
            self.spec_state() == CircuitState::Closed ==> b == (self.spec_failures() >= self.spec_failure_threshold()),
            self.spec_state() == CircuitState::HalfOpen ==> !b,
            exists|now: u64| b == #[trigger] self.trips(now),
    {
        let now = now_ms();
        let b = self.should_trip_at(now);
        assert(b == self.trips(now));
        b
    }

    /// Records a success; once successes reach their threshold the breaker
    /// closes and forgets its failures.
    pub fn record_success(&mut self)
        ensures
            final(self).spec_successes() == if old(self).spec_successes() < usize::MAX { old(self).spec_successes() + 1 } else { old(self).spec_successes() },
            final(self).spec_successes() >= old(self).spec_success_threshold() ==>
                final(self).spec_state() == CircuitState::Closed && final(self).spec_failures() == 0,
            final(self).spec_successes() < old(self).spec_success_threshold() ==>
                final(self).spec_state() == old(self).spec_state() && final(self).spec_failures() == old(self).spec_failures(),
            final(self).spec_last_failure() == old(self).spec_last_failure(),
            final(self).spec_failure_threshold() == old(self).spec_failure_threshold(),
            final(self).spec_success_threshold() == old(self).spec_success_threshold(),
            final(self).spec_timeout() == old(self).spec_timeout(),
    {
        self.success_count = self.success_count.saturating_add(1);
        if self.success_count >= self.success_threshold {
            self.state = CircuitState::Closed;
            self.failure_count = 0;
        }
    }

    /// Records a failure at time `now`; once failures reach their threshold the breaker opens.
    pub fn record_failure_at(&mut self, now: u64)
        ensures
            final(self).spec_failures() == if old(self).spec_failures() < usize::MAX { old(self).spec_failures() + 1 } else { old(self).spec_failures() },
            final(self).spec_last_failure() == Some(now),
            final(self).spec_state() == if final(self).spec_failures() >= old(self).spec_failure_threshold() { CircuitState::Open } else { old(self).spec_state() },
            final(self).spec_successes() == old(self).spec_successes(),
            final(self).spec_failure_threshold() == old(self).spec_failure_threshold(),
            final(self).spec_success_threshold() == old(self).spec_success_threshold(),
            final(self).spec_timeout() == old(self).spec_timeout(),
    {
        self.failure_count = self.failure_count.saturating_add(1);
        self.last_failure = Some(now);
        if self.failure_count >= self.failure_threshold {
            self.state = CircuitState::Open;
        }
    }

    /// Records a failure now.
    pub fn record_failure(&mut self)
        ensures
            final(self).spec_failures() == if old(self).spec_failures() < usize::MAX { old(self).spec_failures() + 1 } else { old(self).spec_failures() },
            final(self).spec_last_failure() is Some,
            final(self).spec_state() == if final(self).spec_failures() >= old(self).spec_failure_threshold() { CircuitState::Open } else { old(self).spec_state() },
            final(self).spec_failure_threshold() == old(self).spec_failure_threshold(),
            final(self).spec_successes() == old(self).spec_successes(),
            final(self).spec_success_threshold() == old(self).spec_success_threshold(),
            final(self).spec_timeout() == old(self).spec_timeout(),
    {
        self.record_failure_at(now_ms())
    }
}

/// A new closed breaker trips once, and exactly when, as many failures as
/// its threshold have been recorded (with no success in between).
pub proof fn lemma_trips_at_threshold(cb: CircuitBreaker, now: u64)
    requires
        cb.spec_state() == CircuitState::Closed,
    ensures
        cb.trips(now) == (cb.spec_failures() >= cb.spec_failure_threshold()),
{
}

#[derive(Debug, Clone, PartialEq, Eq, Structural)]
pub enum HealthStatus {
    Healthy,
    Unhealthy,
    Unknown,
}

/// Health monitor for connection status; times are in milliseconds.
pub struct HealthMonitor {
    last_heartbeat: Option<u64>,
    heartbeat_interval: u64,
    timeout: u64,
}

impl HealthMonitor {
    pub closed spec fn spec_last_heartbeat(&self) -> Option<u64> {
        self.last_heartbeat
    }

    pub closed spec fn spec_timeout(&self) -> u64 {
        self.timeout
    }

    pub closed spec fn spec_heartbeat_interval(&self) -> u64 {
        self.heartbeat_interval
    }

    /// Healthy at time `now`: a heartbeat was seen less than the timeout before.
    pub open spec fn healthy_at(&self, now: u64) -> bool {
        match self.spec_last_heartbeat() {
            Some(t) => elapsed(t, now) < self.spec_timeout(),
            None => false,
        }
    }

    pub fn new(heartbeat_interval: Duration, timeout: Duration) -> (m: Self)
        ensures
            m.spec_last_heartbeat() is None,
            m.spec_timeout() == saturated_ms(timeout),
            m.spec_heartbeat_interval() == saturated_ms(heartbeat_interval),
    {
        Self {
            last_heartbeat: None,
            heartbeat_interval: duration_to_ms(heartbeat_interval),
            timeout: duration_to_ms(timeout),
        }
    }

    /// Records a heartbeat at time `now`.
    pub fn record_heartbeat_at(&mut self, now: u64)
        ensures
            final(self).spec_last_heartbeat() == Some(now),
            final(self).spec_timeout() == old(self).spec_timeout(),
            final(self).spec_heartbeat_interval() == old(self).spec_heartbeat_interval(),
    {
        self.last_heartbeat = Some(now);
    }

    /// Records a heartbeat now.
    pub fn record_heartbeat(&mut self)
        ensures
            final(self).spec_last_heartbeat() is Some,
            final(self).spec_timeout() == old(self).spec_timeout(),
            final(self).spec_heartbeat_interval() == old(self).spec_heartbeat_interval(),
    {
        self.record_heartbeat_at(now_ms())
    }

    pub fn is_healthy_at(&self, now: u64) -> (b: bool)
        ensures
            b == self.healthy_at(now),
    {
        match self.last_heartbeat {
            Some(last) => {
                let passed: u64 = if now >= last { now - last } else { 0 };
                passed < self.timeout
            },
            None => false,
        }
    }

    pub fn is_healthy(&self) -> (b: bool)
        ensures
            self.spec_last_heartbeat() is None ==> !b,
            exists|now: u64| b == #[trigger] self.healthy_at(now),
    {
        let now = now_ms();
        let b = self.is_healthy_at(now);
        assert(b == self.healthy_at(now));
        b
    }

    pub fn check_at(&self, now: u64) -> (s: HealthStatus)
        ensures
            s == if self.healthy_at(now) { HealthStatus::Healthy } else { HealthStatus::Unhealthy },
    {
        if self.is_healthy_at(now) {
            HealthStatus::Healthy
        } else {
            HealthStatus::Unhealthy
        }
    }

    pub fn check(&self) -> (s: HealthStatus)
        ensures
            s == HealthStatus::Healthy || s == HealthStatus::Unhealthy,
            self.spec_last_heartbeat() is None ==> s == HealthStatus::Unhealthy,
            exists|now: u64| s == (if #[trigger] self.healthy_at(now) { HealthStatus::Healthy } else { HealthStatus::Unhealthy }),
    {
        let now = now_ms();
        let s = self.check_at(now);
        assert(s == (if self.healthy_at(now) { HealthStatus::Healthy } else { HealthStatus::Unhealthy }));
        s
    }
}

/// A heartbeat makes the monitor healthy at that instant whenever the
/// timeout is not zero.
pub proof fn lemma_heartbeat_makes_healthy(m: HealthMonitor, now: u64)
    requires
        m.spec_last_heartbeat() == Some(now),
        m.spec_timeout() > 0,
    ensures
        m.healthy_at(now),
{
}

/// Message buffer for offline scenarios: a bounded stack.
pub struct MessageBuffer<T> {
    buffer: Vec<T>,
    max_size: usize,
}

#[derive(Debug, Clone, PartialEq, Eq, Structural)]
pub enum BufferError {
    BufferFull,
}

impl<T> MessageBuffer<T> {
    /// The buffered messages, oldest first.
    pub closed spec fn view(&self) -> Seq<T> {
        self.buffer@
    }

    pub closed spec fn spec_max_size(&self) -> nat {
        self.max_size as nat
    }

    pub fn new(max_size: usize) -> (b: Self)
        ensures
            b@ == Seq::<T>::empty(),
            b.spec_max_size() == max_size,
    {
        Self { buffer: Vec::new(), max_size }
    }

    /// Adds a message, or refuses it when the buffer holds `max_size` messages.
    pub fn push(&mut self, message: T) -> (r: Result<(), BufferError>)
        ensures
            old(self)@.len() >= old(self).spec_max_size() ==> r == Err::<(), BufferError>(BufferError::BufferFull) && final(self)@ == old(self)@,
            old(self)@.len() < old(self).spec_max_size() ==> r is Ok && final(self)@ == old(self)@.push(message),
            final(self).spec_max_size() == old(self).spec_max_size(),
    {
        if self.buffer.len() >= self.max_size {
            return Err(BufferError::BufferFull);
        }
        self.buffer.push(message);
        Ok(())
    }

    /// Removes and returns the newest message.
    pub fn pop(&mut self) -> (r: Option<T>)
        ensures
            old(self)@.len() == 0 ==> r is None && final(self)@ == old(self)@,
            old(self)@.len() > 0 ==> r == Some(old(self)@.last()) && final(self)@ == old(self)@.drop_last(),
            final(self).spec_max_size() == old(self).spec_max_size(),
    {
        self.buffer.pop()
    }

    pub fn len(&self) -> (n: usize)
        ensures
            n == self@.len(),
    {
        self.buffer.len()
    }

    pub fn is_empty(&self) -> (b: bool)
        ensures
            b == (self@.len() == 0),
    {
        self.len() == 0
    }

    pub fn clear(&mut self)
        ensures
            final(self)@ == Seq::<T>::empty(),
            final(self).spec_max_size() == old(self).spec_max_size(),
    {
        self.buffer.clear();
    }
}

/// A message pushed into a buffer with room is the next one popped, and
/// popping it restores the buffer's contents.
pub proof fn lemma_push_pop_roundtrip<T>(contents: Seq<T>, message: T)
    ensures
        contents.push(message).last() == message,
        contents.push(message).drop_last() == contents,
{
    assert(contents.push(message).drop_last() =~= contents);
}

#[derive(Debug, Clone, PartialEq, Eq, Structural)]
pub enum ConnectionState {
    Disconnected,
    Connecting,
    Connected,
    Reconnecting,
    Failed,
}

#[derive(Debug)]
pub enum ConnectionError {
    ConnectionFailed(String),
    Timeout(String),
    CircuitBreakerOpen,
}


/// Reconnection strategy configuration. The jitter of exponential backoff
/// is given in parts per thousand of the delay.
#[derive(Debug, Clone)]
pub enum ReconnectionStrategy {
    /// Exponential backoff with jitter
    ExponentialBackoff { initial: Duration, max: Duration, jitter_per_mille: u32 },
    /// Adaptive strategy based on success/failure rates
    Adaptive { success_threshold: usize, failure_threshold: usize },
    /// Fixed interval
    Fixed(Duration),
    /// No reconnection
    Disabled,
}

impl Default for ReconnectionStrategy {
    /// Exponential backoff from one second up to a minute, with a tenth of jitter.
    fn default() -> (s: Self)
        ensures
            s matches ReconnectionStrategy::ExponentialBackoff { initial, max, jitter_per_mille }
                && duration_millis(initial) == 1000 && duration_millis(max) == 60000 && jitter_per_mille == 100,
    {
        ReconnectionStrategy::ExponentialBackoff {
            initial: duration_from_ms(1000),
            max: duration_from_ms(60000),
            jitter_per_mille: 100,
        }
    }
}

/// The wait before a reconnection attempt, in milliseconds, or `None` when
/// the strategy does not reconnect: twice the initial delay capped at the
/// maximum for backoff, one second for the adaptive strategy, the interval
/// for a fixed one.
pub open spec fn reconnect_delay_ms(strategy: ReconnectionStrategy) -> Option<nat> {
    match strategy {
        ReconnectionStrategy::ExponentialBackoff { initial, max, .. } => {
            let doubled = 2 * saturated_ms(initial);
            Some(if doubled <= saturated_ms(max) { doubled as nat } else { saturated_ms(max) as nat })
        },
        ReconnectionStrategy::Adaptive { .. } => Some(1000),
        ReconnectionStrategy::Fixed(d) => Some(saturated_ms(d) as nat),
        ReconnectionStrategy::Disabled => None,
    }
}

/// Exponential backoff always reconnects, and never waits longer than its
/// maximum.
pub proof fn lemma_backoff_wait_capped(initial: Duration, max: Duration, jitter_per_mille: u32)
    ensures
        reconnect_delay_ms(ReconnectionStrategy::ExponentialBackoff { initial, max, jitter_per_mille }) matches Some(ms)
            && ms <= saturated_ms(max),
{
}

/// Resilient connection manager: it decides when and how to reconnect and
/// keeps the circuit breaker and the offline buffer. The waiting and the
/// connecting are done by its driver, which hands back the outcome.
pub struct ResilientConnection<T> {
    strategy: ReconnectionStrategy,
    circuit_breaker: CircuitBreaker,
    message_buffer: MessageBuffer<T>,
    health_monitor: HealthMonitor,
    connection_state: ConnectionState,
}

impl<T> ResilientConnection<T> {
    pub closed spec fn spec_strategy(&self) -> ReconnectionStrategy {
        self.strategy
    }

    pub closed spec fn spec_breaker(&self) -> CircuitBreaker {
        self.circuit_breaker
    }

    pub closed spec fn spec_buffer(&self) -> Seq<T> {
        self.message_buffer@
    }

    pub closed spec fn spec_monitor(&self) -> HealthMonitor {
        self.health_monitor
    }

    pub closed spec fn spec_state(&self) -> ConnectionState {
        self.connection_state
    }

    /// A disconnected connection with the given parts.
    pub fn new(
        strategy: ReconnectionStrategy,
        circuit_breaker: CircuitBreaker,
        message_buffer: MessageBuffer<T>,
        health_monitor: HealthMonitor,
    ) -> (c: Self)
        ensures
            c.spec_strategy() == strategy,
            c.spec_breaker() == circuit_breaker,
            c.spec_buffer() == message_buffer@,
            c.spec_monitor() == health_monitor,
            c.spec_state() == ConnectionState::Disconnected,
    {
        Self {
            strategy,
            circuit_breaker,
            message_buffer,
            health_monitor,
            connection_state: ConnectionState::Disconnected,
        }
    }

    /// The current connection state.
    pub fn connection_state(&self) -> (s: ConnectionState)
        ensures
            s == self.spec_state(),
    {
        match self.connection_state {
            ConnectionState::Disconnected => ConnectionState::Disconnected,
            ConnectionState::Connecting => ConnectionState::Connecting,
            ConnectionState::Connected => ConnectionState::Connected,
            ConnectionState::Reconnecting => ConnectionState::Reconnecting,
            ConnectionState::Failed => ConnectionState::Failed,
        }
    }

    /// Whether, at time `now`, a health check calls for a reconnection: it
    /// does when the circuit breaker is tripped.
    pub fn needs_reconnection_at(&self, now: u64) -> (b: bool)
        ensures
            b == self.spec_breaker().trips(now),
    {
        self.circuit_breaker.should_trip_at(now)
    }

    /// Starts a reconnection: the state becomes `Reconnecting`, and the
    /// result is the wait before the attempt, or `None` when the strategy
    /// does not reconnect.
    pub fn begin_reconnection(&mut self) -> (wait: Option<Duration>)
        ensures
            final(self).spec_state() == ConnectionState::Reconnecting,
            final(self).spec_strategy() == old(self).spec_strategy(),
            final(self).spec_breaker() == old(self).spec_breaker(),
            final(self).spec_buffer() == old(self).spec_buffer(),
            final(self).spec_monitor() == old(self).spec_monitor(),
            match reconnect_delay_ms(old(self).spec_strategy()) {
                Some(ms) => wait matches Some(d) && duration_millis(d) == ms,
                None => wait is None,
            },
    {
        self.connection_state = ConnectionState::Reconnecting;
        match &self.strategy {
            ReconnectionStrategy::ExponentialBackoff { initial, max, .. } => {
                let init = duration_to_ms(*initial);
                let doubled: u64 = if init <= u64::MAX / 2 { init * 2 } else { u64::MAX };
                let cap = duration_to_ms(*max);
                Some(duration_from_ms(if doubled <= cap { doubled } else { cap }))
            },
            ReconnectionStrategy::Adaptive { .. } => Some(duration_from_ms(1000)),
            ReconnectionStrategy::Fixed(d) => Some(duration_from_ms(duration_to_ms(*d))),
            ReconnectionStrategy::Disabled => None,
        }
    }

    /// Attempts to connect; no transport is attached, so the attempt succeeds.
    pub fn connect(&self) -> (r: Result<(), ConnectionError>)
        ensures
            r is Ok,
    {
        Ok(())
    }

    /// Ends a reconnection attempt with its outcome, at time `now`: a
    /// failure is recorded in the breaker and the state stays
    /// `Reconnecting`; a success is recorded and the state becomes `Connected`.
    pub fn finish_reconnection_at(&mut self, outcome: &Result<(), ConnectionError>, now: u64)
        ensures
            final(self).spec_strategy() == old(self).spec_strategy(),
            final(self).spec_buffer() == old(self).spec_buffer(),
            final(self).spec_monitor() == old(self).spec_monitor(),
            outcome is Err ==> {
                let b = final(self).spec_breaker();
                let o = old(self).spec_breaker();
                &&& b.spec_failures() == if o.spec_failures() < usize::MAX { o.spec_failures() + 1 } else { o.spec_failures() }
                &&& b.spec_last_failure() == Some(now)
                &&& b.spec_successes() == o.spec_successes()
                &&& final(self).spec_state() == old(self).spec_state()
            },
            outcome is Ok ==> {
                let b = final(self).spec_breaker();
                let o = old(self).spec_breaker();
                &&& b.spec_successes() == if o.spec_successes() < usize::MAX { o.spec_successes() + 1 } else { o.spec_successes() }
                &&& b.spec_last_failure() == o.spec_last_failure()
                &&& final(self).spec_state() == ConnectionState::Connected
            },
    {
        match outcome {
            Err(_) => self.circuit_breaker.record_failure_at(now),
            Ok(()) => {
                self.circuit_breaker.record_success();
                self.connection_state = ConnectionState::Connected;
            },
        }
    }

    /// Ends a reconnection attempt with its outcome, now.
    pub fn finish_reconnection(&mut self, outcome: &Result<(), ConnectionError>)
        ensures
            final(self).spec_buffer() == old(self).spec_buffer(),
            outcome is Err ==> final(self).spec_state() == old(self).spec_state()
                && final(self).spec_breaker().spec_last_failure() is Some,
            outcome is Ok ==> final(self).spec_state() == ConnectionState::Connected,
            final(self).spec_strategy() == old(self).spec_strategy(),
            final(self).spec_monitor() == old(self).spec_monitor(),
            outcome is Err ==> {
                let b = final(self).spec_breaker();
                let o = old(self).spec_breaker();
                &&& b.spec_failures() == if o.spec_failures() < usize::MAX { o.spec_failures() + 1 } else { o.spec_failures() }
                &&& b.spec_successes() == o.spec_successes()
            },
            outcome is Ok ==> {
                let b = final(self).spec_breaker();
                let o = old(self).spec_breaker();
                &&& b.spec_successes() == if o.spec_successes() < usize::MAX { o.spec_successes() + 1 } else { o.spec_successes() }
                &&& b.spec_last_failure() == o.spec_last_failure()
            },
    {
        self.finish_reconnection_at(outcome, now_ms())
    }

    /// Empties the offline buffer, newest message first; the messages are
    /// dropped, as no transport is attached to send them.
    pub fn flush_buffer(&mut self)
        ensures
            final(self).spec_buffer() == Seq::<T>::empty(),
            final(self).spec_state() == old(self).spec_state(),
            final(self).spec_breaker() == old(self).spec_breaker(),
    {
        while !self.message_buffer.is_empty()
            invariant
                self.connection_state == old(self).connection_state,
                self.circuit_breaker == old(self).circuit_breaker,
            decreases self.message_buffer@.len(),
        {
            let _ = self.message_buffer.pop();
        }
    }
}

} // verus!
