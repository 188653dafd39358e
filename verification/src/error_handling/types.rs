//! Error Types and Context
//!
//! Core error types, context structures, and error classification

use std::collections::HashMap;
use std::time::Duration;
use vstd::prelude::*;
use crate::clock::now_ms;
use crate::codec::CodecError;
use crate::error_handling::recovery::RecoveryStrategy;
use crate::rpc::RpcError;
use crate::transport::{ConnectionState, TransportError};

verus! {

/// Main application error type with context and recovery suggestions
#[derive(Debug)]
pub enum LeptosWsError {
    Transport { source: TransportError, context: ErrorContext, recovery: RecoveryStrategy },
    Rpc { source: RpcError, context: ErrorContext, recovery: RecoveryStrategy },
    Codec { source: CodecError, context: ErrorContext, recovery: RecoveryStrategy },
    Configuration { message: String, field: String, expected: String, actual: String },
    Security { message: String, threat_level: ThreatLevel, context: ErrorContext },
    RateLimit { message: String, retry_after: Option<Duration>, context: ErrorContext },
    Internal { message: String, context: ErrorContext, should_report: bool },
}

/// Error context providing additional information for debugging;
/// `timestamp` is in seconds since the UNIX epoch.
#[derive(Debug, Clone)]
pub struct ErrorContext {
    pub timestamp: u64,
    pub operation: String,
    pub component: String,
    pub connection_state: Option<ConnectionState>,
    pub attempt_number: u32,
    pub user_data: Option<serde_json::Value>,
    pub session_id: Option<String>,
    pub trace_id: Option<String>,
    pub error_type: Option<ErrorType>,
    pub message: Option<String>,
    pub service: Option<String>,
    pub correlation_id: Option<String>,
    pub metadata: Option<HashMap<String, String>>,
}

/// Error type classification
#[derive(Debug, Clone, PartialEq, Eq, Structural)]
pub enum ErrorType {
    Network,
    Timeout,
    Authentication,
    Authorization,
    Validation,
    Serialization,
    Deserialization,
    RateLimit,
    CircuitBreaker,
    ServiceUnavailable,
    Internal,
    Unknown,
    Transport,
    Rpc,
    Codec,
}

/// Threat level for security errors
#[derive(Debug, Clone, PartialEq, Eq, Structural)]
pub enum ThreatLevel {
    Low,
    Medium,
    High,
    Critical,
}

impl ErrorContext {
    /// A context for an operation of a component at time `now_ms`
    /// (milliseconds), first attempt, with nothing else recorded.
    pub fn new_at(operation: &str, component: &str, now_ms: u64) -> (c: Self)
        ensures
            c.timestamp == now_ms / 1000,
            c.operation@ == operation@,
            c.component@ == component@,
            c.connection_state is None,
            c.attempt_number == 1,
            c.user_data is None && c.session_id is None && c.trace_id is None,
            c.error_type is None && c.message is None && c.service is None,
            c.correlation_id is None && c.metadata is None,
    {
        Self {
            timestamp: now_ms / 1000,
            operation: operation.to_string(),
            component: component.to_string(),
            connection_state: None,
            attempt_number: 1,
            user_data: None,
            session_id: None,
            trace_id: None,
            error_type: None,
            message: None,
            service: None,
            correlation_id: None,
            metadata: None,
        }
    }

    /// A context for an operation of a component, stamped now.
    pub fn new(operation: &str, component: &str) -> (c: Self)
        ensures
            c.operation@ == operation@,
            c.component@ == component@,
            c.connection_state is None,
            c.attempt_number == 1,
            c.user_data is None && c.session_id is None && c.trace_id is None,
            c.error_type is None && c.message is None && c.service is None,
            c.correlation_id is None && c.metadata is None,
    {
        Self::new_at(operation, component, now_ms())
    }

    pub fn with_connection_state(self, state: ConnectionState) -> (c: Self)
        ensures
            c == (ErrorContext { connection_state: Some(state), ..self }),
    {
        Self { connection_state: Some(state), ..self }
    }

    pub fn with_attempt(self, attempt: u32) -> (c: Self)
        ensures
            c == (ErrorContext { attempt_number: attempt, ..self }),
    {
        Self { attempt_number: attempt, ..self }
    }

    pub fn with_trace_id(self, trace_id: String) -> (c: Self)
        ensures
            c == (ErrorContext { trace_id: Some(trace_id), ..self }),
    {
        Self { trace_id: Some(trace_id), ..self }
    }

    pub fn with_session_id(self, session_id: String) -> (c: Self)
        ensures
            c == (ErrorContext { session_id: Some(session_id), ..self }),
    {
        Self { session_id: Some(session_id), ..self }
    }
}

} // verus!
