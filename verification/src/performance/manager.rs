//! Resource monitors and the message descriptions that the performance
//! manager works with.

use vstd::prelude::*;
use crate::codec::copy_bytes;

pub use super::{PerformanceConfig, PerformanceError};

verus! {

/// Eviction policy for memory management
#[derive(Debug, Clone, Copy, PartialEq, Eq, Structural)]
pub enum EvictionPolicy {
    LRU,
    LFU,
    TTL,
    Size,
}

/// Message priority levels
#[derive(Debug, Clone, Copy, PartialEq, Eq, Structural)]
pub enum MessagePriority {
    Low,
    Normal,
    High,
    Critical,
}

/// Message size categories: under 1 KB, up to 10 KB, up to 100 KB, above.
#[derive(Debug, Clone, Copy, PartialEq, Eq, Structural)]
pub enum SizeCategory {
    Small,
    Medium,
    Large,
    Huge,
}

/// Performance test data structure
#[derive(Debug, Clone)]
pub struct PerformanceTestData {
    pub id: String,
    pub payload: Vec<u8>,
    pub priority: MessagePriority,
    pub size_category: SizeCategory,
}

/// Memory monitor; it keeps no readings yet.
pub struct MemoryMonitor;

impl MemoryMonitor {
    pub fn new() -> (m: Self)
        ensures
            m == MemoryMonitor,
    {
        Self
    }

    /// Takes note of `size` more bytes in use; nothing is kept yet.
    pub fn add_memory(&self, size: usize) {
    }

    /// Whether memory pressure was detected: never, as no readings are kept.
    pub fn is_pressure_detected(&self) -> (b: bool)
        ensures
            !b,
    {
        false
    }
}

/// CPU throttler; it keeps no readings yet.
pub struct CpuThrottler;

impl CpuThrottler {
    pub fn new() -> (c: Self)
        ensures
            c == CpuThrottler,
    {
        Self
    }
}

/// Network optimizer; it passes data through unchanged.
pub struct NetworkOptimizer;

impl NetworkOptimizer {
    pub fn new() -> (n: Self)
        ensures
            n == NetworkOptimizer,
    {
        Self
    }

    /// The data to send: a copy of `data`.
    pub fn optimize(&self, data: &[u8]) -> (r: Result<Vec<u8>, PerformanceError>)
        ensures
            r is Ok && r->Ok_0@ == data@,
    {
        Ok(copy_bytes(data))
    }
}

} // verus!
