//! Reactive integration layer: connection configuration, providers,
//! presence tracking and connection status.

pub mod config;
pub mod hooks;
pub mod presence;
pub mod websocket;

pub use config::{WebSocketConfig, WebSocketProvider};
pub use hooks::ConnectionStatus;
pub use presence::{ConnectionMetrics, PresenceMap, UserPresence};
pub use websocket::WebSocketContext;
pub use hooks::{
    use_connection_metrics, use_connection_status, use_message_subscription, use_presence, use_websocket,
    use_websocket_errors, use_websocket_messages, use_websocket_send, use_websocket_status, use_websocket_with_config,
    use_websocket_with_reconnect,
};

use vstd::prelude::*;
use crate::strmap::StrMap;
use crate::text::string_views;
use crate::transport::{ConnectionState, TransportError};
use crate::reactive::websocket::refused_url;

verus! {

/// The context of a connection to `url` (the older name of `use_websocket`).
pub fn provide_websocket(url: &str) -> (c: WebSocketContext)
    ensures
        c.is_fresh(url@),
{
    hooks::use_websocket(url)
}

/// The context of a connection to `url` configured to reconnect at most
/// `max_attempts` times, `base_delay_ms` apart.
pub fn create_websocket_with_retry(url: &str, max_attempts: u64, base_delay_ms: u64) -> (c: WebSocketContext)
    ensures
        c.is_fresh(url@),
{
    let config = WebSocketConfig::new(url)
        .with_max_reconnect_attempts(max_attempts)
        .with_reconnect_interval(base_delay_ms);
    let provider = WebSocketProvider::with_config(config);
    WebSocketContext::new(provider)
}

/// The context of a connection to `url` for real-time collaboration: the
/// `collaboration` protocol with a heartbeat every fifteen seconds, and a
/// message filter for the user that lets every message through.
pub fn create_collaborative_websocket(url: &str, user_id: &str) -> (c: WebSocketContext)
    ensures
        c.is_fresh(url@),
{
    let mut protocols: Vec<String> = Vec::new();
    protocols.push("collaboration".to_string());
    let config = WebSocketConfig::new(url)
        .with_protocols(protocols)
        .with_heartbeat_interval(15000);
    let provider = WebSocketProvider::with_config(config);
    let context = WebSocketContext::new(provider);
    context.set_message_filter(accept_every_message);
    context
}

/// A message filter that lets every message through.
fn accept_every_message(message: &crate::transport::Message) -> (b: bool)
    ensures
        b,
{
    true
}

/// Connection pool for managing multiple WebSocket connections, by name.
pub struct WebSocketPool {
    connections: StrMap<WebSocketContext>,
}

impl WebSocketPool {
    /// The contexts, by name.
    pub closed spec fn spec_connections(&self) -> Map<Seq<char>, WebSocketContext> {
        self.connections@
    }

    /// The names, in the order in which they were first added.
    pub closed spec fn spec_names(&self) -> Seq<Seq<char>> {
        self.connections.key_seq()
    }

    /// The contexts, in the order of `spec_names`.
    pub closed spec fn spec_contexts(&self) -> Seq<WebSocketContext> {
        self.connections.value_seq()
    }

    pub fn new() -> (p: Self)
        ensures
            p.spec_connections() == Map::<Seq<char>, WebSocketContext>::empty(),
    {
        let p = Self { connections: StrMap::new() };
        p
    }

    /// Adds a context under a name, in place of any earlier one.
    pub fn add_connection(&mut self, name: String, context: WebSocketContext)
        ensures
            final(self).spec_connections() == old(self).spec_connections().insert(name@, context),
    {
        let _ = self.connections.insert(name, context);
    }

    /// The context under a name.
    pub fn get_connection(&self, name: &str) -> (r: Option<&WebSocketContext>)
        ensures
            match r {
                Some(c) => self.spec_connections().dom().contains(name@) && *c == self.spec_connections()[name@],
                None => !self.spec_connections().dom().contains(name@),
            },
    {
        self.connections.get(name)
    }

    /// Removes and returns the context under a name.
    pub fn remove_connection(&mut self, name: &str) -> (r: Option<WebSocketContext>)
        ensures
            final(self).spec_connections() == old(self).spec_connections().remove(name@),
            match r {
                Some(c) => old(self).spec_connections().dom().contains(name@) && c == old(self).spec_connections()[name@],
                None => !old(self).spec_connections().dom().contains(name@),
            },
    {
        self.connections.remove(name)
    }

    /// Connects every context, in the order of their names; each result
    /// is that context's.
    pub fn connect_all(&mut self) -> (results: Vec<Result<(), TransportError>>)
        ensures
            results@.len() == old(self).spec_contexts().len(),
            final(self).spec_names() == old(self).spec_names(),
            final(self).spec_contexts().len() == old(self).spec_contexts().len(),
            forall|i: int| 0 <= i < results@.len() ==> {
                let before = #[trigger] old(self).spec_contexts()[i];
                let after = final(self).spec_contexts()[i];
                &&& (results@[i] is Err <==> refused_url(before.spec_url()))
                &&& after.spec_state() == (if refused_url(before.spec_url()) {
                    ConnectionState::Disconnected
                } else {
                    ConnectionState::Connected
                })
                &&& after.spec_url() == before.spec_url()
            },
    {
        let n = self.connections.len();
        let ghost before = self.connections.value_seq();
        let mut results: Vec<Result<(), TransportError>> = Vec::new();
        let mut i: usize = 0;
        while i < n
            invariant
                n == self.connections.spec_len(),
                self.connections.value_seq().len() == n,
                before.len() == n,
                self.connections.key_seq() == old(self).connections.key_seq(),
                before == old(self).connections.value_seq(),
                i <= n,
                results@.len() == i,
                forall|j: int| i <= j < n ==> #[trigger] self.connections.value_seq()[j] == before[j],
                forall|j: int| 0 <= j < i ==> {
                    let b = #[trigger] before[j];
                    let a = self.connections.value_seq()[j];
                    &&& (results@[j] is Err <==> refused_url(b.spec_url()))
                    &&& a.spec_state() == (if refused_url(b.spec_url()) {
                        ConnectionState::Disconnected
                    } else {
                        ConnectionState::Connected
                    })
                    &&& a.spec_url() == b.spec_url()
                },
            decreases n - i,
        {
            let mut context = self.connections.replace_value_at(i, WebSocketContext::new_with_url(""));
            let r = context.connect();
            let _ = self.connections.replace_value_at(i, context);
            results.push(r);
            i += 1;
        }
        results
    }

    /// Disconnects every context, in the order of their names.
    pub fn disconnect_all(&mut self) -> (results: Vec<Result<(), TransportError>>)
        ensures
            results@.len() == old(self).spec_contexts().len(),
            forall|i: int| 0 <= i < results@.len() ==> #[trigger] results@[i] is Ok,
            final(self).spec_names() == old(self).spec_names(),
            final(self).spec_contexts().len() == old(self).spec_contexts().len(),
            forall|i: int| 0 <= i < final(self).spec_contexts().len() ==>
                (#[trigger] final(self).spec_contexts()[i]).spec_state() == ConnectionState::Disconnected
                && final(self).spec_contexts()[i].spec_url() == old(self).spec_contexts()[i].spec_url(),
    {
        let n = self.connections.len();
        let ghost before = self.connections.value_seq();
        let mut results: Vec<Result<(), TransportError>> = Vec::new();
        let mut i: usize = 0;
        while i < n
            invariant
                n == self.connections.spec_len(),
                self.connections.value_seq().len() == n,
                before.len() == n,
                self.connections.key_seq() == old(self).connections.key_seq(),
                before == old(self).connections.value_seq(),
                i <= n,
                results@.len() == i,
                forall|j: int| 0 <= j < i ==> #[trigger] results@[j] is Ok,
                forall|j: int| i <= j < n ==> #[trigger] self.connections.value_seq()[j] == before[j],
                forall|j: int| 0 <= j < i ==>
                    (#[trigger] self.connections.value_seq()[j]).spec_state() == ConnectionState::Disconnected
                    && self.connections.value_seq()[j].spec_url() == before[j].spec_url(),
            decreases n - i,
        {
            let mut context = self.connections.replace_value_at(i, WebSocketContext::new_with_url(""));
            let r = context.disconnect();
            let _ = self.connections.replace_value_at(i, context);
            results.push(r);
            i += 1;
        }
        results
    }

    /// The names, in the order in which they were first added.
    pub fn connection_names(&self) -> (names: Vec<String>)
        ensures
            string_views(names@) == self.spec_names(),
    {
        let n = self.connections.len();
        let mut names: Vec<String> = Vec::new();
        let mut i: usize = 0;
        while i < n
            invariant
                n == self.connections.spec_len(),
                self.connections.key_seq().len() == n,
                i <= n,
                names@.len() == i,
                forall|j: int| 0 <= j < i ==> #[trigger] names@[j]@ == self.connections.key_seq()[j],
            decreases n - i,
        {
            let (k, _c) = self.connections.entry_at(i);
            names.push(k.clone());
            i += 1;
        }
        proof { assert(string_views(names@) =~= self.connections.key_seq()); }
        names
    }

    /// The number of contexts.
    pub fn connection_count(&self) -> (n: usize)
        ensures
            n == self.spec_connections().dom().len(),
    {
        self.connections.len()
    }
}

impl Default for WebSocketPool {
    fn default() -> (p: Self)
        ensures
            p.spec_connections() == Map::<Seq<char>, WebSocketContext>::empty(),
    {
        Self::new()
    }
}

} // verus!
