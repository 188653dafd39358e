//! Transport-level types shared by the rest of the library: messages,
//! connection states and transport errors.

use vstd::prelude::*;

verus! {

/// Kind of a WebSocket message.
#[derive(Debug, Clone, Copy, PartialEq, Eq, Structural)]
pub enum MessageType {
    Text,
    Binary,
    Ping,
    Pong,
    Close,
}

/// A message with its payload.
#[derive(Debug, Clone)]
pub struct Message {
    pub data: Vec<u8>,
    pub message_type: MessageType,
}

/// State of a connection.
#[derive(Debug, Clone, Copy, PartialEq, Eq, Structural)]
pub enum ConnectionState {
    Disconnected,
    Connecting,
    Connected,
    Reconnecting,
    Failed,
}

/// Transport errors.
#[derive(Debug, Clone)]
pub enum TransportError {
    ConnectionFailed(String),
    SendFailed(String),
    ReceiveFailed(String),
    ProtocolError(String),
    AuthFailed(String),
    RateLimited,
    NotSupported(String),
}

} // verus!
