//! Monitoring and observability: component health checks and the overall
//! health drawn from them, trace spans, alerts and system status.
//!
//! Instants are milliseconds since the UNIX epoch, read from the wall clock.

pub mod alerts;

use std::time::Duration;
use vstd::prelude::*;
use crate::clock::{duration_from_ms, duration_millis, new_uuid, now_ms};
use crate::strmap::StrMap;

verus! {

/// Overall or component health.
#[derive(Debug, Clone, Copy, PartialEq, Eq, Structural)]
pub enum HealthStatus {
    Healthy,
    Degraded,
    Unhealthy,
    Unknown,
}

/// Alert severity.
#[derive(Debug, Clone, Copy, PartialEq, Eq, Structural)]
pub enum AlertLevel {
    Info,
    Warning,
    Critical,
}

/// One recorded health-check outcome; `timestamp` in milliseconds.
#[derive(Debug, Clone)]
pub struct HealthCheckResult {
    pub timestamp: u64,
    pub healthy: bool,
    pub details: Option<String>,
}

/// The number of outcomes a health check keeps.
pub const HISTORY_LIMIT: usize = 100;

/// The history after one more outcome: the oldest is dropped first once
/// the limit is reached.
pub open spec fn next_history(h: Seq<HealthCheckResult>, r: HealthCheckResult) -> Seq<HealthCheckResult> {
    (if h.len() >= HISTORY_LIMIT { h.drop_first() } else { h }).push(r)
}

/// Individual health check; `last_check` in milliseconds.
#[derive(Debug, Clone)]
pub struct HealthCheck {
    pub component: String,
    pub last_check: Option<u64>,
    pub is_healthy: bool,
    pub consecutive_failures: u32,
    pub details: Option<String>,
    pub history: Vec<HealthCheckResult>,
}

/// A check counts as healthy when its last outcome was healthy and it has
/// failed fewer than three times in a row.
pub open spec fn check_healthy(c: HealthCheck) -> bool {
    c.is_healthy && c.consecutive_failures < 3
}

/// `after` is the check `before` with the outcome `healthy`, `details`
/// recorded at time `now`.
pub open spec fn result_recorded_at(before: HealthCheck, after: HealthCheck, healthy: bool, details: Option<String>, now: u64) -> bool {
    &&& after.component == before.component
    &&& after.last_check == Some(now)
    &&& after.is_healthy == healthy
    &&& after.details == details
    &&& after.consecutive_failures == (if healthy { 0 } else { (before.consecutive_failures + 1) as u32 })
    &&& after.history@ == next_history(before.history@, HealthCheckResult { timestamp: now, healthy, details })
}

/// The number of unhealthy outcomes at the end of `outcomes`, after the
/// last healthy one.
pub open spec fn trailing_failures(outcomes: Seq<bool>) -> nat
    decreases outcomes.len(),
{
    if outcomes.len() == 0 {
        0
    } else if outcomes.last() {
        0
    } else {
        trailing_failures(outcomes.drop_last()) + 1
    }
}

/// `after` is the check `before` with the outcome `healthy` counted: the
/// flag set to it, and the failures cleared or counted one more.
pub open spec fn outcome_counted(before: HealthCheck, after: HealthCheck, healthy: bool) -> bool {
    &&& after.is_healthy == healthy
    &&& after.consecutive_failures as int == if healthy { 0 } else { before.consecutive_failures + 1 }
}

/// Recording an outcome counts it.
pub proof fn lemma_recorded_outcome_counted(before: HealthCheck, after: HealthCheck, healthy: bool, details: Option<String>, now: u64)
    requires
        result_recorded_at(before, after, healthy, details, now),
        healthy || before.consecutive_failures < u32::MAX,
    ensures
        outcome_counted(before, after, healthy),
        check_healthy(after) == healthy,
{
}

/// Along any run of recorded outcomes from a fresh check, the failures
/// counted are the unhealthy outcomes since the last healthy one, and the
/// check is healthy exactly when no outcome was recorded yet or the last
/// one was healthy.
pub proof fn lemma_failures_count_trailing(trace: Seq<HealthCheck>, outcomes: Seq<bool>)
    requires
        trace.len() == outcomes.len() + 1,
        trace[0].is_healthy,
        trace[0].consecutive_failures == 0,
        forall|i: int| 0 <= i < outcomes.len() ==> #[trigger] outcome_counted(trace[i], trace[i + 1], outcomes[i]),
    ensures
        trace.last().consecutive_failures == trailing_failures(outcomes),
        trace.last().is_healthy == (trace.last().consecutive_failures == 0),
        check_healthy(trace.last()) == (outcomes.len() == 0 || outcomes.last()),
    decreases outcomes.len(),
{
    if outcomes.len() > 0 {
        let n = outcomes.len() as int;
        let t = trace.drop_last();
        let o = outcomes.drop_last();
        assert forall|i: int| 0 <= i < o.len() implies #[trigger] outcome_counted(t[i], t[i + 1], o[i]) by {
            assert(outcome_counted(trace[i], trace[i + 1], outcomes[i]));
        }
        lemma_failures_count_trailing(t, o);
        assert(outcome_counted(trace[n - 1], trace[n], outcomes[n - 1]));
        assert(trace.last() == trace[n]);
        assert(t.last() == trace[n - 1]);
    }
}

impl HealthCheck {
    pub fn new(component: String) -> (c: Self)
        ensures
            c.component == component,
            c.last_check is None,
            c.is_healthy,
            c.consecutive_failures == 0,
            c.details is None,
            c.history@.len() == 0,
    {
        Self {
            component,
            last_check: None,
            is_healthy: true,
            consecutive_failures: 0,
            details: None,
            history: Vec::new(),
        }
    }

    /// Records an outcome at time `now`.
    pub fn record_result_at(&mut self, healthy: bool, details: Option<String>, now: u64)
        requires
            healthy || old(self).consecutive_failures < u32::MAX,
        ensures
            final(self).component == old(self).component,
            final(self).last_check == Some(now),
            final(self).is_healthy == healthy,
            final(self).details == details,
            final(self).consecutive_failures == (if healthy { 0 } else { old(self).consecutive_failures + 1 }),
            final(self).history@ == next_history(
                old(self).history@,
                HealthCheckResult { timestamp: now, healthy, details },
            ),
    {
        self.last_check = Some(now);
        self.is_healthy = healthy;
        self.details = clone_details(&details);
        if healthy {
            self.consecutive_failures = 0;
        } else {
            self.consecutive_failures = self.consecutive_failures + 1;
        }
        if self.history.len() >= HISTORY_LIMIT {
            self.history.remove(0);
        }
        self.history.push(HealthCheckResult { timestamp: now, healthy, details });
    }

    /// Records an outcome now.
    pub fn record_result(&mut self, healthy: bool, details: Option<String>)
        requires
            healthy || old(self).consecutive_failures < u32::MAX,
        ensures
            final(self).component == old(self).component,
            final(self).last_check is Some,
            final(self).is_healthy == healthy,
            final(self).details == details,
            final(self).consecutive_failures == (if healthy { 0 } else { old(self).consecutive_failures + 1 }),
            final(self).history@.len() == next_history(
                old(self).history@,
                HealthCheckResult { timestamp: 0, healthy, details },
            ).len(),
            final(self).history@.last().healthy == healthy,
            final(self).history@.last().details == details,
            Some(final(self).history@.last().timestamp) == final(self).last_check,
            exists|now: u64| #[trigger] result_recorded_at(*old(self), *final(self), healthy, details, now),
    {
        let now = now_ms();
        let ghost given = details;
        self.record_result_at(healthy, details, now);
        assert(result_recorded_at(*old(self), *self, healthy, given, now));
    }

    pub fn is_healthy(&self) -> (b: bool)
        ensures
            b == check_healthy(*self),
    {
        self.is_healthy && self.consecutive_failures < 3
    }
}

fn clone_details(d: &Option<String>) -> (r: Option<String>)
    ensures
        r == *d,
{
    match d {
        Some(s) => Some(s.clone()),
        None => None,
    }
}

/// The number of checks among `cs` that do not count as healthy.
pub open spec fn unhealthy_count(cs: Seq<HealthCheck>) -> nat {
    cs.filter(|c: HealthCheck| !check_healthy(c)).len()
}

/// Overall health of `n` checks of which `bad` are unhealthy: unknown with
/// no checks, healthy with none unhealthy, degraded with at most half
/// (rounded down) unhealthy, else unhealthy.
pub open spec fn overall_health(n: nat, bad: nat) -> HealthStatus {
    if n == 0 {
        HealthStatus::Unknown
    } else if bad == 0 {
        HealthStatus::Healthy
    } else if bad <= n / 2 {
        HealthStatus::Degraded
    } else {
        HealthStatus::Unhealthy
    }
}

/// Health monitoring system: one check per component.
pub struct HealthMonitor {
    checks: StrMap<HealthCheck>,
    check_interval_ms: u64,
}

impl HealthMonitor {
    /// The checks, by component.
    pub closed spec fn spec_checks(&self) -> Map<Seq<char>, HealthCheck> {
        self.checks@
    }

    /// The checks in the order their components were first recorded.
    pub closed spec fn check_seq(&self) -> Seq<HealthCheck> {
        self.checks.value_seq()
    }

    /// The interval between checks, in milliseconds.
    pub closed spec fn spec_interval_ms(&self) -> u64 {
        self.check_interval_ms
    }

    pub fn new(interval: Duration) -> (m: Self)
        ensures
            m.spec_checks() == Map::<Seq<char>, HealthCheck>::empty(),
            m.spec_interval_ms() == crate::clock::saturated_ms(interval),
    {
        Self { checks: StrMap::new(), check_interval_ms: crate::clock::duration_to_ms(interval) }
    }

    /// Records an outcome for `component` at time `now`, creating its check
    /// on first use.
    pub fn record_check_at(&mut self, component: &str, healthy: bool, details: Option<String>, now: u64)
        requires
            healthy || !old(self).spec_checks().dom().contains(component@)
                || old(self).spec_checks()[component@].consecutive_failures < u32::MAX,
        ensures
            final(self).spec_checks().dom() == old(self).spec_checks().dom().insert(component@),
            forall|k: Seq<char>| k != component@ && #[trigger] old(self).spec_checks().dom().contains(k)
                ==> final(self).spec_checks()[k] == old(self).spec_checks()[k],
            final(self).spec_checks()[component@].is_healthy == healthy,
            final(self).spec_checks()[component@].consecutive_failures == (if healthy { 0 } else {
                if old(self).spec_checks().dom().contains(component@) {
                    old(self).spec_checks()[component@].consecutive_failures + 1
                } else {
                    1
                }
            }),
            final(self).spec_checks()[component@].last_check == Some(now),
            final(self).spec_interval_ms() == old(self).spec_interval_ms(),
    {
        let mut check = match self.checks.remove(component) {
            Some(c) => c,
            None => HealthCheck::new(component.to_string()),
        };
        check.record_result_at(healthy, details, now);
        self.checks.insert(component.to_string(), check);
        assert(self.spec_checks().dom() =~= old(self).spec_checks().dom().insert(component@));
    }

    /// Records an outcome for `component` now.
    pub fn record_check(&mut self, component: &str, healthy: bool, details: Option<String>)
        requires
            healthy || !old(self).spec_checks().dom().contains(component@)
                || old(self).spec_checks()[component@].consecutive_failures < u32::MAX,
        ensures
            final(self).spec_checks().dom() == old(self).spec_checks().dom().insert(component@),
            forall|k: Seq<char>| k != component@ && #[trigger] old(self).spec_checks().dom().contains(k)
                ==> final(self).spec_checks()[k] == old(self).spec_checks()[k],
            final(self).spec_checks()[component@].is_healthy == healthy,
            final(self).spec_checks()[component@].consecutive_failures == (if healthy { 0 } else {
                if old(self).spec_checks().dom().contains(component@) {
                    old(self).spec_checks()[component@].consecutive_failures + 1
                } else {
                    1
                }
            }),
            final(self).spec_checks()[component@].last_check is Some,
            final(self).spec_interval_ms() == old(self).spec_interval_ms(),
    {
        self.record_check_at(component, healthy, details, now_ms());
    }

    /// The overall health, from how many checks are unhealthy.
    pub fn get_overall_health(&self) -> (h: HealthStatus)
        ensures
            h == overall_health(self.spec_checks().dom().len(), unhealthy_count(self.check_seq())),
            h == overall_health(
                self.spec_checks().dom().len(),
                self.spec_checks().dom().filter(|k: Seq<char>| !check_healthy(self.spec_checks()[k])).len(),
            ),
    {
        proof {
            use_type_invariant(&self.checks);
            self.checks.lemma_value_count(|c: HealthCheck| !check_healthy(c));
            assert(self.spec_checks().dom().filter(|k: Seq<char>| !check_healthy(self.spec_checks()[k]))
                =~= self.checks@.dom().filter(|k: Seq<char>| (|c: HealthCheck| !check_healthy(c))(self.checks@[k])));
        }
        let n = self.checks.len();
        if n == 0 {
            return HealthStatus::Unknown;
        }
        let mut bad: usize = 0;
        let mut i: usize = 0;
        while i < n
            invariant
                n == self.checks.spec_len(),
                self.checks.value_seq().len() == n,
                i <= n,
                bad == unhealthy_count(self.checks.value_seq().take(i as int)),
                bad <= i,
            decreases n - i,
        {
            let (_k, c) = self.checks.entry_at(i);
            proof {
                let vs = self.checks.value_seq();
                assert(vs.take(i + 1).drop_last() == vs.take(i as int));
                reveal_with_fuel(Seq::filter, 1);
            }
            if !c.is_healthy() {
                bad = bad + 1;
            }
            i += 1;
        }
        proof { assert(self.checks.value_seq().take(n as int) == self.checks.value_seq()); }
        if bad == 0 {
            HealthStatus::Healthy
        } else if bad <= n / 2 {
            HealthStatus::Degraded
        } else {
            HealthStatus::Unhealthy
        }
    }

    /// The check of one component, or `None` if it was never recorded.
    pub fn get_check(&self, component: &str) -> (r: Option<&HealthCheck>)
        ensures
            match r {
                Some(c) => self.spec_checks().dom().contains(component@) && *c == self.spec_checks()[component@],
                None => !self.spec_checks().dom().contains(component@),
            },
    {
        self.checks.get(component)
    }

    /// The health of one component: healthy or unhealthy by its check, or
    /// `None` if it was never recorded.
    pub fn get_component_health(&self, component: &str) -> (h: Option<HealthStatus>)
        ensures
            h == (if self.spec_checks().dom().contains(component@) {
                Some(if check_healthy(self.spec_checks()[component@]) { HealthStatus::Healthy } else { HealthStatus::Unhealthy })
            } else {
                None::<HealthStatus>
            }),
    {
        match self.checks.get(component) {
            Some(c) => Some(if c.is_healthy() { HealthStatus::Healthy } else { HealthStatus::Unhealthy }),
            None => None,
        }
    }
}

/// Milliseconds from `start` to `end` (zero if the end is earlier), or
/// `None` without an end.
pub open spec fn span_elapsed(start: u64, end: Option<u64>) -> Option<u64> {
    match end {
        Some(e) => Some(if e >= start { (e - start) as u64 } else { 0u64 }),
        None => None,
    }
}

/// `after` is the span `before` finished at time `now`.
pub open spec fn finished_at(before: TraceSpan, after: TraceSpan, now: u64) -> bool {
    after == (TraceSpan { end_time: Some(now), ..before })
}

/// Individual trace span; times in milliseconds.
#[derive(Debug, Clone)]
pub struct TraceSpan {
    pub trace_id: String,
    pub span_id: String,
    pub operation_name: String,
    pub start_time: u64,
    pub end_time: Option<u64>,
    pub tags: StrMap<String>,
    pub sampled: bool,
}

impl TraceSpan {
    /// A span of `operation` with the given ids, started at time `now`.
    pub fn start_at(operation: &str, trace_id: String, span_id: String, now: u64, sampled: bool) -> (s: Self)
        ensures
            s.operation_name@ == operation@,
            s.trace_id == trace_id,
            s.span_id == span_id,
            s.start_time == now,
            s.end_time is None,
            s.tags@ == Map::<Seq<char>, String>::empty(),
            s.sampled == sampled,
    {
        Self {
            trace_id,
            span_id,
            operation_name: operation.to_string(),
            start_time: now,
            end_time: None,
            tags: StrMap::new(),
            sampled,
        }
    }

    pub fn add_tag(&mut self, key: &str, value: &str)
        ensures
            final(self).tags@ == old(self).tags@.insert(key@, final(self).tags@[key@]),
            final(self).tags@[key@]@ == value@,
            *final(self) == (TraceSpan { tags: final(self).tags, ..*old(self) }),
    {
        self.tags.insert(key.to_string(), value.to_string());
    }

    /// The span finished at time `now`.
    pub fn finish_at(self, now: u64) -> (s: Self)
        ensures
            s == (TraceSpan { end_time: Some(now), ..self }),
    {
        let mut s = self;
        s.end_time = Some(now);
        s
    }

    /// The span finished now.
    pub fn finish(self) -> (s: Self)
        ensures
            s.end_time is Some,
            s.start_time == self.start_time,
            s.tags == self.tags,
            s.trace_id == self.trace_id,
            s.span_id == self.span_id,
            s.operation_name == self.operation_name,
            s.sampled == self.sampled,
            exists|now: u64| #[trigger] finished_at(self, s, now),
    {
        let now = now_ms();
        let ghost before = self;
        let s = self.finish_at(now);
        assert(finished_at(before, s, now));
        s
    }

    /// Milliseconds from start to end (zero if the end is earlier), or
    /// `None` while unfinished.
    pub fn duration_ms(&self) -> (d: Option<u64>)
        ensures
            d == span_elapsed(self.start_time, self.end_time),
    {
        match self.end_time {
            Some(end) => Some(if end >= self.start_time { end - self.start_time } else { 0 }),
            None => None,
        }
    }

    pub fn duration(&self) -> (d: Option<Duration>)
        ensures
            match d {
                Some(x) => self.end_time is Some && Some(duration_millis(x) as u64) == span_elapsed(self.start_time, self.end_time),
                None => self.end_time is None,
            },
    {
        match self.duration_ms() {
            Some(ms) => Some(duration_from_ms(ms)),
            None => None,
        }
    }
}

/// Alert representation; `timestamp` in seconds since the UNIX epoch.
#[derive(Debug, Clone)]
pub struct Alert {
    pub id: String,
    pub level: AlertLevel,
    pub title: String,
    pub description: String,
    pub timestamp: u64,
    pub resolved: bool,
}

impl Alert {
    /// An unresolved alert with the given id, raised at `now_ms`.
    pub fn new_at(level: AlertLevel, title: String, description: String, id: String, now_ms: u64) -> (a: Self)
        ensures
            a == (Alert { id, level, title, description, timestamp: now_ms / 1000, resolved: false }),
    {
        Self { id, level, title, description, timestamp: now_ms / 1000, resolved: false }
    }

    /// An unresolved alert with a fresh random id, raised now.
    pub fn new(level: AlertLevel, title: String, description: String) -> (a: Self)
        ensures
            a.level == level,
            a.title == title,
            a.description == description,
            !a.resolved,
    {
        Self::new_at(level, title, description, new_uuid(), now_ms())
    }
}

/// Summary of collected metrics; timestamps in milliseconds.
#[derive(Debug, Clone)]
pub struct MetricsSummary {
    pub total_metrics: usize,
    pub oldest_timestamp: u64,
    pub newest_timestamp: u64,
    pub memory_usage: usize,
}

impl Default for MetricsSummary {
    fn default() -> (m: Self)
        ensures
            m.total_metrics == 0 && m.oldest_timestamp == 0 && m.newest_timestamp == 0 && m.memory_usage == 0,
    {
        Self { total_metrics: 0, oldest_timestamp: 0, newest_timestamp: 0, memory_usage: 0 }
    }
}

/// System status snapshot; `timestamp` in seconds since the UNIX epoch.
#[derive(Debug, Clone)]
pub struct SystemStatus {
    pub timestamp: u64,
    pub health_status: HealthStatus,
    pub metrics_summary: MetricsSummary,
    pub active_alerts: usize,
    pub uptime: Duration,
    pub version: String,
}

/// Monitoring errors.
#[derive(Debug)]
pub enum MonitoringError {
    MetricsDisabled,
    TracingDisabled,
    HealthMonitoringDisabled,
    ExportFailed(String),
    AlertConfigError(String),
}

} // verus!
