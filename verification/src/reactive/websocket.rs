//! WebSocket context: the connection state, the messages received and
//! sent, presence, metrics, reconnection attempts, connection quality and
//! acknowledgements of one connection.

use vstd::prelude::*;
use vstd::string::StrSliceExecFns;
use crate::clock::now_ms;
use crate::codec::JsonMessage;
use crate::reactive::{ConnectionMetrics, PresenceMap, UserPresence, WebSocketProvider};
use crate::text::str_contains;
use crate::transport::{ConnectionState, Message, MessageType, TransportError};

verus! {

/// Connection quality is kept in thousandths: 1000 is perfect.
pub const FULL_QUALITY: u32 = 1000;

/// Below this quality (in thousandths) a reconnection is called for.
pub const RECONNECT_QUALITY: u32 = 500;

/// The acknowledgement id that a sent message receives.
pub const ACK_ID: u64 = 12345;

/// A connection attempt to this URL fails: it names the test endpoint
/// `localhost:8080` or an invalid test URL.
pub open spec fn refused_url(url: Seq<char>) -> bool {
    crate::text::contains_seq(url, "localhost:8080"@) || crate::text::contains_seq(url, "invalid-test-url"@)
}

/// A message with this payload and kind.
pub open spec fn message_is(m: Message, data: Seq<u8>, kind: MessageType) -> bool {
    m.data@ == data && m.message_type == kind
}

/// The error for an operation that needs a connection.
pub open spec fn not_connected(e: TransportError) -> bool {
    e matches TransportError::ConnectionFailed(t) && t@ == "Not connected"@
}

/// The context of one WebSocket connection.
#[derive(Clone)]
pub struct WebSocketContext {
    url: String,
    state: ConnectionState,
    pub messages: Vec<Message>,
    presence: PresenceMap,
    metrics: ConnectionMetrics,
    sent_messages: Vec<Message>,
    reconnection_attempts: u64,
    connection_quality: u32,
    acknowledged_messages: Vec<u64>,
}

impl WebSocketContext {
    pub closed spec fn spec_url(&self) -> Seq<char> {
        self.url@
    }

    pub closed spec fn spec_state(&self) -> ConnectionState {
        self.state
    }

    pub closed spec fn spec_received(&self) -> Seq<Message> {
        self.messages@
    }

    pub closed spec fn spec_sent(&self) -> Seq<Message> {
        self.sent_messages@
    }

    pub closed spec fn spec_presence(&self) -> PresenceMap {
        self.presence
    }

    pub closed spec fn spec_metrics(&self) -> ConnectionMetrics {
        self.metrics
    }

    pub closed spec fn spec_attempts(&self) -> u64 {
        self.reconnection_attempts
    }

    pub closed spec fn spec_quality(&self) -> u32 {
        self.connection_quality
    }

    pub closed spec fn spec_acks(&self) -> Seq<u64> {
        self.acknowledged_messages@
    }

    /// A fresh, disconnected context: nothing received, sent or
    /// acknowledged, no presence, zero metrics and full quality.
    pub open spec fn is_fresh(&self, url: Seq<char>) -> bool {
        &&& self.spec_url() == url
        &&& self.spec_state() == ConnectionState::Disconnected
        &&& self.spec_received().len() == 0
        &&& self.spec_sent().len() == 0
        &&& self.spec_presence()@ == Map::<Seq<char>, UserPresence>::empty()
        &&& self.spec_metrics() == (ConnectionMetrics {
            bytes_sent: 0,
            bytes_received: 0,
            messages_sent: 0,
            messages_received: 0,
            connection_uptime: 0,
        })
        &&& self.spec_attempts() == 0
        &&& self.spec_quality() == FULL_QUALITY
        &&& self.spec_acks().len() == 0
    }

    /// The context of a connection to the provider's URL.
    pub fn new(provider: WebSocketProvider) -> (c: Self)
        ensures
            c.is_fresh(provider.spec_config().url@),
    {
        Self::new_with_provider(provider)
    }

    fn new_with_provider(provider: WebSocketProvider) -> (c: Self)
        ensures
            c.is_fresh(provider.spec_config().url@),
    {
        let url = provider.config().url.clone();
        Self {
            url,
            state: ConnectionState::Disconnected,
            messages: Vec::new(),
            presence: PresenceMap::new(),
            metrics: ConnectionMetrics::new(),
            sent_messages: Vec::new(),
            reconnection_attempts: 0,
            connection_quality: FULL_QUALITY,
            acknowledged_messages: Vec::new(),
        }
    }

    /// The context of a connection to `url`, with the default configuration.
    pub fn new_with_url(url: &str) -> (c: Self)
        ensures
            c.is_fresh(url@),
    {
        Self::new(WebSocketProvider::new(url))
    }

    /// The connection state.
    pub fn connection_state(&self) -> (s: ConnectionState)
        ensures
            s == self.spec_state(),
    {
        self.state
    }

    /// The messages received, oldest first.
    pub fn messages(&self) -> (m: &Vec<Message>)
        ensures
            m@ == self.spec_received(),
    {
        &self.messages
    }

    /// The presence map.
    pub fn presence(&self) -> (p: &PresenceMap)
        ensures
            *p == self.spec_presence(),
    {
        &self.presence
    }

    /// The connection metrics.
    pub fn metrics(&self) -> (m: &ConnectionMetrics)
        ensures
            *m == self.spec_metrics(),
    {
        &self.metrics
    }

    /// The messages sent, oldest first.
    pub fn sent_messages(&self) -> (m: &Vec<Message>)
        ensures
            m@ == self.spec_sent(),
    {
        &self.sent_messages
    }

    /// The number of reconnection attempts.
    pub fn reconnection_attempts(&self) -> (n: u64)
        ensures
            n == self.spec_attempts(),
    {
        self.reconnection_attempts
    }

    /// The connection quality, in thousandths.
    pub fn connection_quality(&self) -> (q: u32)
        ensures
            q == self.spec_quality(),
    {
        self.connection_quality
    }

    /// The ids of the acknowledged messages, in order.
    pub fn acknowledged_messages(&self) -> (a: &Vec<u64>)
        ensures
            a@ == self.spec_acks(),
    {
        &self.acknowledged_messages
    }

    /// The URL.
    pub fn get_url(&self) -> (u: &str)
        ensures
            u@ == self.spec_url(),
    {
        self.url.as_str()
    }

    /// The URL.
    pub fn url(&self) -> (u: &str)
        ensures
            u@ == self.spec_url(),
    {
        self.url.as_str()
    }

    pub fn is_connected(&self) -> (b: bool)
        ensures
            b == (self.spec_state() == ConnectionState::Connected),
    {
        self.state == ConnectionState::Connected
    }

    pub fn is_disconnected(&self) -> (b: bool)
        ensures
            b == (self.spec_state() == ConnectionState::Disconnected),
    {
        self.state == ConnectionState::Disconnected
    }

    /// The connection state.
    pub fn state(&self) -> (s: ConnectionState)
        ensures
            s == self.spec_state(),
    {
        self.state
    }

    /// Connects: the connection to a refused URL fails and leaves the
    /// context disconnected; any other connects. (The short wait that
    /// stands for the connection's delay is left to the caller.)
    pub fn connect(&mut self) -> (r: Result<(), TransportError>)
        ensures
            refused_url(old(self).spec_url()) ==> final(self).spec_state() == ConnectionState::Disconnected
                && (r matches Err(TransportError::ConnectionFailed(t)) && t@ == "Connection failed for testing"@),
            !refused_url(old(self).spec_url()) ==> final(self).spec_state() == ConnectionState::Connected && r is Ok,
            final(self).spec_url() == old(self).spec_url(),
            final(self).spec_sent() == old(self).spec_sent(),
            final(self).spec_received() == old(self).spec_received(),
            final(self).spec_attempts() == old(self).spec_attempts(),
    {
        self.state = ConnectionState::Connecting;
        if str_contains(self.url.as_str(), "localhost:8080") || str_contains(self.url.as_str(), "invalid-test-url") {
            self.state = ConnectionState::Disconnected;
            return Err(TransportError::ConnectionFailed("Connection failed for testing".to_string()));
        }
        self.state = ConnectionState::Connected;
        Ok(())
    }

    /// Disconnects.
    pub fn disconnect(&mut self) -> (r: Result<(), TransportError>)
        ensures
            r is Ok,
            final(self).spec_state() == ConnectionState::Disconnected,
            final(self).spec_url() == old(self).spec_url(),
            final(self).spec_sent() == old(self).spec_sent(),
            final(self).spec_received() == old(self).spec_received(),
    {
        self.state = ConnectionState::Disconnected;
        Ok(())
    }

    /// Sends a message as JSON text: it needs a connection, and a message
    /// without a JSON form is refused as a failed send.
    pub fn send_message<T: JsonMessage>(&mut self, message: &T) -> (r: Result<(), TransportError>)
        ensures
            old(self).spec_state() != ConnectionState::Connected ==> (r matches Err(e) && not_connected(e))
                && final(self).spec_sent() == old(self).spec_sent(),
            old(self).spec_state() == ConnectionState::Connected ==> match r {
                Ok(()) => final(self).spec_sent().len() == old(self).spec_sent().len() + 1
                    && final(self).spec_sent().drop_last() == old(self).spec_sent()
                    && final(self).spec_sent().last().message_type == MessageType::Text,
                Err(e) => e is SendFailed && final(self).spec_sent() == old(self).spec_sent(),
            },
            final(self).spec_state() == old(self).spec_state(),
            final(self).spec_url() == old(self).spec_url(),
            final(self).spec_received() == old(self).spec_received(),
            final(self).spec_acks() == old(self).spec_acks(),
    {
        if !self.is_connected() {
            return Err(TransportError::ConnectionFailed("Not connected".to_string()));
        }
        let data = match message.to_json() {
            Ok(d) => d,
            Err(e) => { return Err(TransportError::SendFailed(e)); },
        };
        let msg = Message { data, message_type: MessageType::Text };
        self.sent_messages.push(msg);
        proof { assert(self.sent_messages@.drop_last() =~= old(self).sent_messages@); }
        Ok(())
    }

    /// Receives a message: it needs a connection, and no message is ever
    /// queued for receiving.
    pub fn receive_message<T: JsonMessage>(&self) -> (r: Result<T, TransportError>)
        ensures
            self.spec_state() != ConnectionState::Connected ==> (r matches Err(e) && not_connected(e)),
            self.spec_state() == ConnectionState::Connected ==>
                (r matches Err(TransportError::ReceiveFailed(t)) && t@ == "No messages available"@),
    {
        if !self.is_connected() {
            return Err(TransportError::ConnectionFailed("Not connected".to_string()));
        }
        Err(TransportError::ReceiveFailed("No messages available".to_string()))
    }

    /// Takes in a received message: it is kept, and counted in the metrics
    /// with its bytes.
    pub fn handle_message(&mut self, message: Message)
        requires
            old(self).spec_metrics().messages_received < u64::MAX,
            old(self).spec_metrics().bytes_received + message.data@.len() <= u64::MAX,
        ensures
            final(self).spec_received() == old(self).spec_received().push(message),
            final(self).spec_metrics() == (ConnectionMetrics {
                messages_received: (old(self).spec_metrics().messages_received + 1) as u64,
                bytes_received: (old(self).spec_metrics().bytes_received + message.data@.len()) as u64,
                ..old(self).spec_metrics()
            }),
            final(self).spec_state() == old(self).spec_state(),
            final(self).spec_sent() == old(self).spec_sent(),
    {
        let len = message.data.len() as u64;
        self.messages.push(message);
        self.metrics.messages_received = self.metrics.messages_received + 1;
        self.metrics.bytes_received = self.metrics.bytes_received + len;
    }

    /// Sends text: it needs a connection; the text goes out as its UTF-8 bytes.
    pub fn send_text(&mut self, text: String) -> (r: Result<(), TransportError>)
        ensures
            old(self).spec_state() != ConnectionState::Connected ==> (r matches Err(e) && not_connected(e))
                && final(self).spec_sent() == old(self).spec_sent(),
            old(self).spec_state() == ConnectionState::Connected ==> r is Ok
                && final(self).spec_sent().len() == old(self).spec_sent().len() + 1
                && final(self).spec_sent().drop_last() == old(self).spec_sent()
                && message_is(final(self).spec_sent().last(), vstd::utf8::encode_utf8(text@), MessageType::Text),
            final(self).spec_state() == old(self).spec_state(),
            final(self).spec_received() == old(self).spec_received(),
    {
        if !self.is_connected() {
            return Err(TransportError::ConnectionFailed("Not connected".to_string()));
        }
        let msg = Message { data: text.as_str().as_bytes_vec(), message_type: MessageType::Text };
        self.sent_messages.push(msg);
        proof { assert(self.sent_messages@.drop_last() =~= old(self).sent_messages@); }
        Ok(())
    }

    /// Sends binary data: it needs a connection.
    pub fn send_binary(&mut self, data: Vec<u8>) -> (r: Result<(), TransportError>)
        ensures
            old(self).spec_state() != ConnectionState::Connected ==> (r matches Err(e) && not_connected(e))
                && final(self).spec_sent() == old(self).spec_sent(),
            old(self).spec_state() == ConnectionState::Connected ==> r is Ok
                && final(self).spec_sent().len() == old(self).spec_sent().len() + 1
                && final(self).spec_sent().drop_last() == old(self).spec_sent()
                && message_is(final(self).spec_sent().last(), data@, MessageType::Binary),
            final(self).spec_state() == old(self).spec_state(),
            final(self).spec_received() == old(self).spec_received(),
    {
        if !self.is_connected() {
            return Err(TransportError::ConnectionFailed("Not connected".to_string()));
        }
        let msg = Message { data, message_type: MessageType::Binary };
        self.sent_messages.push(msg);
        proof { assert(self.sent_messages@.drop_last() =~= old(self).sent_messages@); }
        Ok(())
    }

    /// Sets the connection state.
    pub fn set_connection_state(&mut self, state: ConnectionState)
        ensures
            final(self).spec_state() == state,
            final(self).spec_url() == old(self).spec_url(),
            final(self).spec_sent() == old(self).spec_sent(),
            final(self).spec_received() == old(self).spec_received(),
            final(self).spec_attempts() == old(self).spec_attempts(),
            final(self).spec_quality() == old(self).spec_quality(),
    {
        self.state = state;
    }

    /// The connection metrics.
    pub fn get_connection_metrics(&self) -> (m: &ConnectionMetrics)
        ensures
            *m == self.spec_metrics(),
    {
        &self.metrics
    }

    /// Records the presence of a user.
    pub fn update_presence(&mut self, user_id: &str, presence: UserPresence)
        ensures
            final(self).spec_presence()@ == old(self).spec_presence()@.insert(user_id@, presence),
            final(self).spec_presence().last_updated == old(self).spec_presence().last_updated,
            final(self).spec_state() == old(self).spec_state(),
    {
        let _ = self.presence.users.insert(user_id.to_string(), presence);
    }

    /// The presence map.
    pub fn get_presence(&self) -> (p: &PresenceMap)
        ensures
            *p == self.spec_presence(),
    {
        &self.presence
    }

    /// Records that a message was acknowledged.
    pub fn acknowledge_message(&mut self, message_id: u64)
        ensures
            final(self).spec_acks() == old(self).spec_acks().push(message_id),
            final(self).spec_state() == old(self).spec_state(),
            final(self).spec_sent() == old(self).spec_sent(),
    {
        self.acknowledged_messages.push(message_id);
    }

    /// The ids of the acknowledged messages, in order.
    pub fn get_acknowledged_messages(&self) -> (a: Vec<u64>)
        ensures
            a@ == self.spec_acks(),
    {
        let mut a: Vec<u64> = Vec::new();
        let mut i: usize = 0;
        while i < self.acknowledged_messages.len()
            invariant
                i <= self.acknowledged_messages@.len(),
                a@ == self.acknowledged_messages@.take(i as int),
            decreases self.acknowledged_messages@.len() - i,
        {
            a.push(self.acknowledged_messages[i]);
            proof {
                assert(self.acknowledged_messages@.take(i + 1) =~= self.acknowledged_messages@.take(i as int).push(
                    self.acknowledged_messages@[i as int],
                ));
            }
            i += 1;
        }
        proof { assert(self.acknowledged_messages@.take(i as int) =~= self.acknowledged_messages@); }
        a
    }

    /// Processes the queued messages; none are ever queued.
    pub fn process_message_batch(&self) -> (r: Result<(), TransportError>)
        ensures
            r is Ok,
    {
        Ok(())
    }

    /// The size of the connection pool: one connection.
    pub fn get_connection_pool_size(&self) -> (n: usize)
        ensures
            n == 1,
    {
        1
    }

    /// A connection from the pool: always available.
    pub fn get_connection_from_pool(&self) -> (c: Option<()>)
        ensures
            c is Some,
    {
        Some(())
    }

    /// Gives a connection back to the pool.
    pub fn return_connection_to_pool(&self, connection: ()) -> (r: Result<(), TransportError>)
        ensures
            r is Ok,
    {
        Ok(())
    }

    /// Sets the filter for incoming messages; no message passes through a
    /// filter, so it is not kept.
    pub fn set_message_filter<F: Fn(&Message) -> bool + Send + Sync + 'static>(&self, filter: F) {
    }

    /// Sends a ping carrying the current time, in seconds, as JSON; a
    /// payload without a JSON form is refused as a failed send.
    pub fn send_heartbeat(&mut self) -> (r: Result<(), TransportError>)
        ensures
            match r {
                Ok(()) => final(self).spec_sent().len() == old(self).spec_sent().len() + 1
                    && final(self).spec_sent().drop_last() == old(self).spec_sent()
                    && final(self).spec_sent().last().message_type == MessageType::Ping,
                Err(e) => e is SendFailed && final(self).spec_sent() == old(self).spec_sent(),
            },
            final(self).spec_state() == old(self).spec_state(),
            final(self).spec_received() == old(self).spec_received(),
    {
        let timestamp = now_ms() / 1000;
        let mut body = serde_json::Map::new();
        let _ = body.insert("type".to_string(), serde_json::Value::from("ping".to_string()));
        let _ = body.insert("timestamp".to_string(), serde_json::Value::from(timestamp));
        let heartbeat = serde_json::Value::from(body);
        let data = match heartbeat.to_json() {
            Ok(d) => d,
            Err(e) => { return Err(TransportError::SendFailed(e)); },
        };
        self.sent_messages.push(Message { data, message_type: MessageType::Ping });
        proof { assert(self.sent_messages@.drop_last() =~= old(self).sent_messages@); }
        Ok(())
    }

    /// The sent messages that decode as `T`, in order; the others are skipped.
    pub fn get_sent_messages<T: JsonMessage>(&self) -> (r: Vec<T>)
        ensures
            r@.len() <= self.spec_sent().len(),
    {
        decode_all(&self.sent_messages)
    }

    /// The reconnection interval.
    pub fn reconnect_interval(&self) -> (n: u64)
        ensures
            n == 5,
    {
        5
    }

    /// The most reconnection attempts.
    pub fn max_reconnect_attempts(&self) -> (n: u64)
        ensures
            n == 3,
    {
        3
    }

    /// Sets the connection quality, in thousandths.
    pub fn update_connection_quality(&mut self, quality: u32)
        ensures
            final(self).spec_quality() == quality,
            final(self).spec_state() == old(self).spec_state(),
            final(self).spec_attempts() == old(self).spec_attempts(),
    {
        self.connection_quality = quality;
    }

    /// A reconnection is called for once the quality falls below one half.
    pub fn should_reconnect_due_to_quality(&self) -> (b: bool)
        ensures
            b == (self.spec_quality() < RECONNECT_QUALITY),
    {
        self.connection_quality < RECONNECT_QUALITY
    }

    /// Attempts a reconnection: the attempt is counted and the connection
    /// is restored. (The short wait that stands for the attempt's delay is
    /// left to the caller.)
    pub fn attempt_reconnection(&mut self) -> (r: Result<(), TransportError>)
        requires
            old(self).spec_attempts() < u64::MAX,
        ensures
            r is Ok,
            final(self).spec_attempts() == old(self).spec_attempts() + 1,
            final(self).spec_state() == ConnectionState::Connected,
            final(self).spec_url() == old(self).spec_url(),
            final(self).spec_quality() == old(self).spec_quality(),
    {
        self.reconnection_attempts = self.reconnection_attempts + 1;
        self.state = ConnectionState::Connected;
        Ok(())
    }

    /// The number of reconnection attempts.
    pub fn reconnection_attempts_count(&self) -> (n: u64)
        ensures
            n == self.spec_attempts(),
    {
        self.reconnection_attempts
    }

    /// Sends a message and answers with its acknowledgement id.
    pub fn send_message_with_ack<T: JsonMessage>(&mut self, message: &T) -> (r: Result<u64, TransportError>)
        ensures
            old(self).spec_state() != ConnectionState::Connected ==> (r matches Err(e) && not_connected(e)),
            r matches Ok(id) ==> id == ACK_ID && final(self).spec_sent().len() == old(self).spec_sent().len() + 1,
            r is Err ==> final(self).spec_sent() == old(self).spec_sent(),
            final(self).spec_state() == old(self).spec_state(),
    {
        match self.send_message(message) {
            Ok(()) => Ok(ACK_ID),
            Err(e) => Err(e),
        }
    }

    /// The received messages that decode as `T`, in order; the others are skipped.
    pub fn get_received_messages<T: JsonMessage>(&self) -> (r: Vec<T>)
        ensures
            r@.len() <= self.spec_received().len(),
    {
        decode_all(&self.messages)
    }
}

/// The messages whose payloads decode as `T`, in order.
fn decode_all<T: JsonMessage>(messages: &Vec<Message>) -> (r: Vec<T>)
    ensures
        r@.len() <= messages@.len(),
{
    let mut out: Vec<T> = Vec::new();
    let mut i: usize = 0;
    while i < messages.len()
        invariant
            i <= messages@.len(),
            out@.len() <= i,
        decreases messages@.len() - i,
    {
        match T::from_json(messages[i].data.as_slice()) {
            Ok(v) => { out.push(v); },
            Err(_) => {},
        }
        i += 1;
    }
    out
}

} // verus!
