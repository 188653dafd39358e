pub mod clock;
pub mod codec;
pub mod collaboration;
pub mod error;
pub mod error_handling;
pub mod json;
pub mod messages;
pub mod metrics;
pub mod middleware;
pub mod monitoring;
pub mod performance;
pub mod reactive;
pub mod resilience;
pub mod rpc;
pub mod security;
pub mod strmap;
pub mod text;
pub mod transport;
