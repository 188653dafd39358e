//! Alerts that an operator acknowledges.

use vstd::prelude::*;
use crate::clock::now_ms;

pub use super::{AlertLevel, MetricsSummary, MonitoringError, SystemStatus};

verus! {

/// An alert; `timestamp` in milliseconds since the UNIX epoch.
#[derive(Debug, Clone)]
pub struct Alert {
    pub level: AlertLevel,
    pub title: String,
    pub message: String,
    pub timestamp: u64,
    pub acknowledged: bool,
}

impl Alert {
    /// An unacknowledged alert raised at time `now`.
    pub fn new_at(level: AlertLevel, title: String, message: String, now: u64) -> (a: Self)
        ensures
            a == (Alert { level, title, message, timestamp: now, acknowledged: false }),
    {
        Self { level, title, message, timestamp: now, acknowledged: false }
    }

    /// An unacknowledged alert raised now.
    pub fn new(level: AlertLevel, title: String, message: String) -> (a: Self)
        ensures
            a.level == level,
            a.title == title,
            a.message == message,
            !a.acknowledged,
    {
        Self::new_at(level, title, message, now_ms())
    }

    pub fn acknowledge(&mut self)
        ensures
            *final(self) == (Alert { acknowledged: true, ..*old(self) }),
    {
        self.acknowledged = true;
    }
}

} // verus!
