//! Error Recovery Strategies
//!
//! Recovery strategies and error handling mechanisms

use std::time::Duration;
use vstd::prelude::*;
use crate::strmap::StrMap;

verus! {

/// Recovery strategies for different error types
#[derive(Debug, Clone, PartialEq)]
pub enum RecoveryStrategy {
    Retry,
    RetryWithBackoff { max_attempts: u32, base_delay: Duration, max_delay: Duration },
    FallbackToJson,
    CircuitBreaker,
    GracefulDegradation,
    FailFast,
}

/// Error recovery handler; delays are in milliseconds.
pub struct ErrorRecoveryHandler {
    max_retry_attempts: u32,
    base_retry_delay: u64,
    max_retry_delay: u64,
    jitter_enabled: bool,
}

impl ErrorRecoveryHandler {
    pub closed spec fn spec_settings(&self) -> (u32, u64, u64, bool) {
        (self.max_retry_attempts, self.base_retry_delay, self.max_retry_delay, self.jitter_enabled)
    }

    /// Three attempts, from 100 ms up to 5 s, with jitter.
    pub fn new() -> (h: Self)
        ensures
            h.spec_settings() == (3u32, 100u64, 5000u64, true),
    {
        Self { max_retry_attempts: 3, base_retry_delay: 100, max_retry_delay: 5000, jitter_enabled: true }
    }
}

impl Default for ErrorRecoveryHandler {
    fn default() -> (h: Self)
        ensures
            h.spec_settings() == (3u32, 100u64, 5000u64, true),
    {
        Self::new()
    }
}

/// Error reporter for logging and monitoring: counts errors by kind.
pub struct ErrorReporter {
    error_counts: StrMap<u64>,
}

impl ErrorReporter {
    /// The number of errors recorded for each kind.
    pub closed spec fn view(&self) -> Map<Seq<char>, u64> {
        self.error_counts@
    }

    pub fn new() -> (r: Self)
        ensures
            r@ == Map::<Seq<char>, u64>::empty(),
    {
        Self { error_counts: StrMap::new() }
    }
}

impl Default for ErrorReporter {
    fn default() -> (r: Self)
        ensures
            r@ == Map::<Seq<char>, u64>::empty(),
    {
        Self::new()
    }
}

} // verus!
