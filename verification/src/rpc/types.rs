//! RPC Types
//!
//! Core types for RPC communication

use vstd::prelude::*;
use crate::text::{char_vec, extend_chars, lit, signed_decimal, signed_decimal_chars, string_from_chars};

verus! {

/// RPC method types
#[derive(Debug, Clone, Copy, PartialEq, Eq, Structural)]
pub enum RpcMethod {
    Call,
    Subscription,
    Query,
    Mutation,
    SendMessage,
    GetMessages,
    SubscribeMessages,
    UnsubscribeMessages,
    GetStats,
    Echo,
    Broadcast,
}

/// The name of a method type, as it is written out.
pub open spec fn method_name(m: RpcMethod) -> Seq<char> {
    match m {
        RpcMethod::Call => "Call"@,
        RpcMethod::Subscription => "Subscription"@,
        RpcMethod::Query => "Query"@,
        RpcMethod::Mutation => "Mutation"@,
        RpcMethod::SendMessage => "SendMessage"@,
        RpcMethod::GetMessages => "GetMessages"@,
        RpcMethod::SubscribeMessages => "SubscribeMessages"@,
        RpcMethod::UnsubscribeMessages => "UnsubscribeMessages"@,
        RpcMethod::GetStats => "GetStats"@,
        RpcMethod::Echo => "Echo"@,
        RpcMethod::Broadcast => "Broadcast"@,
    }
}

impl RpcMethod {
    /// The method type's name.
    pub fn name(&self) -> (s: &'static str)
        ensures
            s@ == method_name(*self),
    {
        match self {
            RpcMethod::Call => "Call",
            RpcMethod::Subscription => "Subscription",
            RpcMethod::Query => "Query",
            RpcMethod::Mutation => "Mutation",
            RpcMethod::SendMessage => "SendMessage",
            RpcMethod::GetMessages => "GetMessages",
            RpcMethod::SubscribeMessages => "SubscribeMessages",
            RpcMethod::UnsubscribeMessages => "UnsubscribeMessages",
            RpcMethod::GetStats => "GetStats",
            RpcMethod::Echo => "Echo",
            RpcMethod::Broadcast => "Broadcast",
        }
    }

    /// The method type's name, as an owned string.
    pub fn to_string(&self) -> (s: String)
        ensures
            s@ == method_name(*self),
    {
        self.name().to_string()
    }
}

/// RPC request structure
#[derive(Debug, Clone)]
pub struct RpcRequest<T> {
    pub id: String,
    pub method: String,
    pub params: T,
    pub method_type: RpcMethod,
}

/// RPC response structure
#[derive(Debug, Clone)]
pub struct RpcResponse<T> {
    pub id: String,
    pub result: Option<T>,
    pub error: Option<RpcError>,
}

/// A service that answers RPC requests; implemented by the application.
pub trait RpcService<T> {
    fn handle_request(&self, request: RpcRequest<T>) -> Result<RpcResponse<T>, RpcError>;
}

/// RPC error structure
#[derive(Debug, Clone)]
pub struct RpcError {
    pub code: i32,
    pub message: String,
    pub data: Option<serde_json::Value>,
}

/// How an error reads: `RPC Error <code>: <message>`.
pub open spec fn rpc_error_text(code: i32, message: Seq<char>) -> Seq<char> {
    "RPC Error "@ + signed_decimal(code as int) + ": "@ + message
}

impl RpcError {
    pub fn new(code: i32, message: String) -> (e: Self)
        ensures
            e.code == code,
            e.message == message,
            e.data is None,
    {
        Self { code, message, data: None }
    }

    pub fn with_data(self, data: serde_json::Value) -> (e: Self)
        ensures
            e.code == self.code,
            e.message == self.message,
            e.data == Some(data),
    {
        let mut e = self;
        e.data = Some(data);
        e
    }

    /// The error as text.
    pub fn to_string(&self) -> (s: String)
        ensures
            s@ == rpc_error_text(self.code, self.message@),
    {
        let mut v = lit("RPC Error ");
        let code = signed_decimal_chars(self.code);
        extend_chars(&mut v, &code);
        let sep = lit(": ");
        extend_chars(&mut v, &sep);
        let msg = char_vec(self.message.as_str());
        extend_chars(&mut v, &msg);
        string_from_chars(&v)
    }
}

/// Send message parameters
#[derive(Debug, Clone)]
pub struct SendMessageParams {
    pub message: String,
    pub channel: Option<String>,
    pub content: Option<String>,
    pub room_id: Option<String>,
}

/// Get messages parameters
#[derive(Debug, Clone)]
pub struct GetMessagesParams {
    pub channel: Option<String>,
    pub limit: Option<usize>,
    pub room_id: Option<String>,
}

/// Subscribe messages parameters
#[derive(Debug, Clone)]
pub struct SubscribeMessagesParams {
    pub channel: Option<String>,
    pub room_id: Option<String>,
}

/// Message ID
#[derive(Debug, Clone, PartialEq, Eq, Hash)]
pub struct MessageId {
    pub id: String,
}

/// Chat message
#[derive(Debug, Clone)]
pub struct ChatMessage {
    pub id: String,
    pub content: String,
    pub timestamp: u64,
    pub channel: Option<String>,
    pub sender: Option<String>,
    pub room_id: Option<String>,
}

} // verus!
