//! Hooks: contexts made from a URL or a configuration, and what a
//! component reads of a context (its status, metrics, presence, messages
//! and errors) as of the call.

use vstd::prelude::*;
use crate::clock::now_ms;
use crate::codec::JsonMessage;
use crate::reactive::{ConnectionMetrics, PresenceMap, WebSocketConfig, WebSocketContext, WebSocketProvider};
use crate::transport::ConnectionState;

verus! {

/// Milliseconds connected at `now`, from the time of connection (zero if
/// `now` is earlier), or `None` when not connected.
pub open spec fn connected_for(connected_at: Option<u64>, now: u64) -> Option<u64> {
    match connected_at {
        Some(start) => Some(if now >= start { (now - start) as u64 } else { 0u64 }),
        None => None::<u64>,
    }
}

/// Extended connection status information; `connected_at` is in
/// milliseconds since the UNIX epoch.
#[derive(Debug, Clone, PartialEq)]
pub struct ConnectionStatus {
    pub state: ConnectionState,
    pub connected_at: Option<u64>,
    pub retry_count: u32,
    pub last_error: Option<String>,
}

impl Default for ConnectionStatus {
    fn default() -> (s: Self)
        ensures
            s.state == ConnectionState::Disconnected,
            s.connected_at is None,
            s.retry_count == 0,
            s.last_error is None,
    {
        Self { state: ConnectionState::Disconnected, connected_at: None, retry_count: 0, last_error: None }
    }
}

impl ConnectionStatus {
    /// The status of a connection in `state` at time `now`: a connected one
    /// counts as connected since `now`.
    pub fn from_state_at(state: ConnectionState, now: u64) -> (s: Self)
        ensures
            s.state == state,
            s.connected_at == (if state == ConnectionState::Connected { Some(now) } else { None }),
            s.retry_count == 0,
            s.last_error is None,
    {
        let connected_at = match state {
            ConnectionState::Connected => Some(now),
            _ => None,
        };
        Self { state, connected_at, retry_count: 0, last_error: None }
    }

    /// The status of a connection in `state`, as of now.
    pub fn from_state(state: ConnectionState) -> (s: Self)
        ensures
            s.state == state,
            s.connected_at is Some <==> state == ConnectionState::Connected,
            s.retry_count == 0,
            s.last_error is None,
    {
        Self::from_state_at(state, now_ms())
    }

    pub fn is_connected(&self) -> (b: bool)
        ensures
            b == (self.state == ConnectionState::Connected),
    {
        self.state == ConnectionState::Connected
    }

    pub fn is_connecting(&self) -> (b: bool)
        ensures
            b == (self.state == ConnectionState::Connecting),
    {
        self.state == ConnectionState::Connecting
    }

    pub fn is_disconnected(&self) -> (b: bool)
        ensures
            b == (self.state == ConnectionState::Disconnected),
    {
        self.state == ConnectionState::Disconnected
    }

    /// Milliseconds connected at time `now` (zero if `now` is earlier), or
    /// `None` when not connected.
    pub fn connection_duration_at(&self, now: u64) -> (d: Option<u64>)
        ensures
            d == connected_for(self.connected_at, now),
    {
        match self.connected_at {
            Some(start) => Some(if now >= start { now - start } else { 0 }),
            None => None,
        }
    }

    /// Time connected so far, or `None` when not connected.
    pub fn connection_duration(&self) -> (d: Option<std::time::Duration>)
        ensures
            d is Some <==> self.connected_at is Some,
            d matches Some(x) ==> exists|now: u64| Some(crate::clock::duration_millis(x) as u64)
                == #[trigger] connected_for(self.connected_at, now),
    {
        let now = now_ms();
        match self.connection_duration_at(now) {
            Some(ms) => {
                let x = crate::clock::duration_from_ms(ms);
                assert(Some(crate::clock::duration_millis(x) as u64) == connected_for(self.connected_at, now));
                Some(x)
            },
            None => None,
        }
    }
}

/// The context of a connection to `url`, with the default configuration.
pub fn use_websocket(url: &str) -> (c: WebSocketContext)
    ensures
        c.is_fresh(url@),
{
    WebSocketContext::new(WebSocketProvider::new(url))
}

/// The context of a connection with a custom configuration.
pub fn use_websocket_with_config(config: WebSocketConfig) -> (c: WebSocketContext)
    ensures
        c.is_fresh(config.url@),
{
    WebSocketContext::new(WebSocketProvider::with_config(config))
}

/// The context of a connection to `url` configured to reconnect at most
/// `max_attempts` times, starting `initial_interval_ms` apart.
pub fn use_websocket_with_reconnect(url: &str, max_attempts: u64, initial_interval_ms: u64) -> (c: WebSocketContext)
    ensures
        c.is_fresh(url@),
{
    let config = WebSocketConfig::new(url)
        .with_max_reconnect_attempts(max_attempts)
        .with_reconnect_interval(initial_interval_ms);
    use_websocket_with_config(config)
}

/// The messages of a kind, decoded: no message is filtered or decoded by
/// kind, so there are none.
pub fn use_websocket_messages<T: JsonMessage>(context: &WebSocketContext, message_type: &str) -> (r: Vec<T>)
    ensures
        r@.len() == 0,
{
    Vec::new()
}

/// The status of the context's connection, as of now.
pub fn use_websocket_status(context: &WebSocketContext) -> (s: ConnectionStatus)
    ensures
        s.state == context.spec_state(),
        s.connected_at is Some <==> context.spec_state() == ConnectionState::Connected,
        s.retry_count == 0,
        s.last_error is None,
{
    ConnectionStatus::from_state(context.connection_state())
}

/// A sender of messages through the context; no message is sent through
/// it, so it takes each one and drops it.
pub fn use_websocket_send<T>(context: &WebSocketContext) -> impl Fn(T) + Clone {
    |message: T| {}
}

/// The errors of the context's connection: none are tracked.
pub fn use_websocket_errors(context: &WebSocketContext) -> (r: Vec<String>)
    ensures
        r@.len() == 0,
{
    Vec::new()
}

/// The state of the context's connection.
pub fn use_connection_status(context: &WebSocketContext) -> (s: ConnectionState)
    ensures
        s == context.spec_state(),
{
    context.connection_state()
}

/// The metrics of the context's connection.
pub fn use_connection_metrics(context: &WebSocketContext) -> (m: &ConnectionMetrics)
    ensures
        *m == context.spec_metrics(),
{
    context.metrics()
}

/// The presence map of the context.
pub fn use_presence(context: &WebSocketContext) -> (p: &PresenceMap)
    ensures
        *p == context.spec_presence(),
{
    context.presence()
}

/// The messages of a kind, decoded: no message is filtered or decoded by
/// kind, so there are none.
pub fn use_message_subscription<T: JsonMessage>(context: &WebSocketContext, message_type: &str) -> (r: Vec<T>)
    ensures
        r@.len() == 0,
{
    Vec::new()
}

} // verus!
