//! WebSocket configuration and provider types
//!
//! Configuration structures and provider implementations for reactive WebSocket connections.

use vstd::prelude::*;
use crate::text::str_starts_with;

verus! {

/// WebSocket configuration; intervals are in milliseconds.
#[derive(Debug, Clone)]
pub struct WebSocketConfig {
    pub url: String,
    pub protocols: Vec<String>,
    pub heartbeat_interval: Option<u64>,
    pub reconnect_interval: Option<u64>,
    pub max_reconnect_attempts: Option<u64>,
}

/// The default settings, for the given URL.
pub open spec fn default_config_for(c: WebSocketConfig, url: Seq<char>) -> bool {
    &&& c.url@ == url
    &&& c.protocols@.len() == 0
    &&& c.heartbeat_interval == Some(30000u64)
    &&& c.reconnect_interval == Some(1000u64)
    &&& c.max_reconnect_attempts == Some(5u64)
}

impl Default for WebSocketConfig {
    fn default() -> (c: Self)
        ensures
            default_config_for(c, "ws://localhost:8080/ws"@),
    {
        Self::new("ws://localhost:8080/ws")
    }
}

impl WebSocketConfig {
    /// The default settings with the given URL.
    pub fn new(url: &str) -> (c: Self)
        ensures
            default_config_for(c, url@),
    {
        Self {
            url: url.to_string(),
            protocols: Vec::new(),
            heartbeat_interval: Some(30000),
            reconnect_interval: Some(1000),
            max_reconnect_attempts: Some(5),
        }
    }

    pub fn with_protocols(self, protocols: Vec<String>) -> (c: Self)
        ensures
            c == (WebSocketConfig { protocols: protocols, ..self }),
    {
        let mut c = self;
        c.protocols = protocols;
        c
    }

    pub fn with_heartbeat_interval(self, interval_ms: u64) -> (c: Self)
        ensures
            c == (WebSocketConfig { heartbeat_interval: Some(interval_ms), ..self }),
    {
        let mut c = self;
        c.heartbeat_interval = Some(interval_ms);
        c
    }

    pub fn with_reconnect_interval(self, interval_ms: u64) -> (c: Self)
        ensures
            c == (WebSocketConfig { reconnect_interval: Some(interval_ms), ..self }),
    {
        let mut c = self;
        c.reconnect_interval = Some(interval_ms);
        c
    }

    pub fn with_max_reconnect_attempts(self, max_attempts: u64) -> (c: Self)
        ensures
            c == (WebSocketConfig { max_reconnect_attempts: Some(max_attempts), ..self }),
    {
        let mut c = self;
        c.max_reconnect_attempts = Some(max_attempts);
        c
    }
}

/// The first problem that validation finds in a configuration, if any.
pub open spec fn config_problem(c: WebSocketConfig) -> Option<Seq<char>> {
    if c.url@.len() == 0 {
        Some("WebSocket URL cannot be empty"@)
    } else if !(crate::text::starts_with_seq(c.url@, "ws://"@) || crate::text::starts_with_seq(c.url@, "wss://"@)) {
        Some("WebSocket URL must start with 'ws://' or 'wss://'"@)
    } else if c.heartbeat_interval == Some(0u64) {
        Some("Heartbeat interval must be greater than 0"@)
    } else if c.reconnect_interval == Some(0u64) {
        Some("Reconnect interval must be greater than 0"@)
    } else if c.max_reconnect_attempts == Some(0u64) {
        Some("Max reconnect attempts must be greater than 0"@)
    } else {
        None
    }
}

/// WebSocket provider that manages connections
#[derive(Clone)]
pub struct WebSocketProvider {
    config: WebSocketConfig,
}

impl WebSocketProvider {
    /// The provider's configuration.
    pub closed spec fn spec_config(&self) -> WebSocketConfig {
        self.config
    }

    /// Create a new WebSocket provider
    pub fn new(url: &str) -> (p: Self)
        ensures
            default_config_for(p.spec_config(), url@),
    {
        Self { config: WebSocketConfig::new(url) }
    }

    /// Create a new WebSocket provider with custom configuration
    pub fn with_config(config: WebSocketConfig) -> (p: Self)
        ensures
            p.spec_config() == config,
    {
        Self { config }
    }

    /// Get the current configuration
    pub fn config(&self) -> (c: &WebSocketConfig)
        ensures
            *c == self.spec_config(),
    {
        &self.config
    }

    /// Update the configuration
    pub fn set_config(&mut self, config: WebSocketConfig)
        ensures
            final(self).spec_config() == config,
    {
        self.config = config;
    }

    /// Create a new provider with updated URL
    pub fn with_url(self, url: &str) -> (p: Self)
        ensures
            p.spec_config() == (WebSocketConfig { url: p.spec_config().url, ..self.spec_config() }),
            p.spec_config().url@ == url@,
    {
        let mut p = self;
        p.config.url = url.to_string();
        p
    }

    /// Create a new provider with protocols
    pub fn with_protocols(self, protocols: Vec<String>) -> (p: Self)
        ensures
            p.spec_config() == (WebSocketConfig { protocols: protocols, ..self.spec_config() }),
    {
        let mut p = self;
        p.config.protocols = protocols;
        p
    }

    /// Validate the configuration: `Ok` exactly when no problem is found,
    /// else the message of the first problem.
    pub fn validate(&self) -> (r: Result<(), String>)
        ensures
            match r {
                Ok(()) => config_problem(self.spec_config()) is None,
                Err(e) => config_problem(self.spec_config()) == Some(e@),
            },
    {
        let url = self.config.url.as_str();
        if url.unicode_len() == 0 {
            return Err("WebSocket URL cannot be empty".to_string());
        }
        if !str_starts_with(url, "ws://") && !str_starts_with(url, "wss://") {
            return Err("WebSocket URL must start with 'ws://' or 'wss://'".to_string());
        }
        if let Some(interval) = self.config.heartbeat_interval {
            if interval == 0 {
                return Err("Heartbeat interval must be greater than 0".to_string());
            }
        }
        if let Some(interval) = self.config.reconnect_interval {
            if interval == 0 {
                return Err("Reconnect interval must be greater than 0".to_string());
            }
        }
        if let Some(attempts) = self.config.max_reconnect_attempts {
            if attempts == 0 {
                return Err("Max reconnect attempts must be greater than 0".to_string());
            }
        }
        Ok(())
    }
}

} // verus!
