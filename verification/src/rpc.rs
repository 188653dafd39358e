//! RPC (Remote Procedure Call) System
//!
//! Provides type-safe RPC communication over WebSocket connections
//! with support for request/response patterns and streaming

pub mod advanced;
pub mod client;
pub mod correlation;
pub mod types;

pub use client::{reset_rpc_id_counter, RpcClient, RpcSubscription};
pub use types::{
    ChatMessage, GetMessagesParams, MessageId, RpcError, RpcMethod, RpcRequest, RpcResponse, RpcService,
    SendMessageParams, SubscribeMessagesParams,
};
