//! Metrics and observability: a profiler that keeps a bounded window of
//! samples per name, and a registry of health checks.
//!
//! Time is read from the wall clock: heartbeats in milliseconds, profiler
//! samples and the statistics drawn from them in whole nanoseconds.

use std::time::Duration;
use vstd::prelude::*;
use vstd::relations::{sorted_by, total_ordering};
use crate::clock::{duration_from_ns, duration_nanos, now_ms, now_ns, saturated_ms, duration_to_ms};
use crate::strmap::StrMap;

verus! {

/// The usual order on sample values.
pub open spec fn sample_leq() -> spec_fn(u64, u64) -> bool {
    |a: u64, b: u64| a <= b
}

proof fn lemma_sample_leq_total()
    ensures
        total_ordering(sample_leq()),
{
    assert(vstd::relations::reflexive(sample_leq()));
    assert(vstd::relations::antisymmetric(sample_leq()));
    assert(vstd::relations::transitive(sample_leq()));
    assert(vstd::relations::strongly_connected(sample_leq()));
}

/// The samples in ascending order.
pub open spec fn sorted_samples(s: Seq<u64>) -> Seq<u64> {
    s.sort_by(sample_leq())
}

/// The sum of the samples.
pub open spec fn sample_sum(s: Seq<u64>) -> nat
    decreases s.len(),
{
    if s.len() == 0 { 0 } else { sample_sum(s.drop_last()) + s.last() as nat }
}

/// The samples in ascending order, as a new vector.
fn sort_samples(v: &Vec<u64>) -> (r: Vec<u64>)
    ensures
        r@ == sorted_samples(v@),
{
    broadcast use vstd::seq_lib::group_to_multiset_ensures;
    let mut r: Vec<u64> = Vec::new();
    let mut i: usize = 0;
    while i < v.len()
        invariant
            i <= v.len(),
            sorted_by(r@, sample_leq()),
            r@.to_multiset() == v@.take(i as int).to_multiset(),
        decreases v.len() - i,
    {
        let x = v[i];
        let mut p: usize = 0;
        while p < r.len() && r[p] <= x
            invariant
                p <= r.len(),
                forall|j: int| 0 <= j < p ==> r@[j] <= x,
            decreases r.len() - p,
        {
            p += 1;
        }
        let ghost before = r@;
        r.insert(p, x);
        proof {
            assert(r@ == before.insert(p as int, x));
            assert forall|a: int, b: int| 0 <= a < b < r@.len() implies #[trigger] (sample_leq())(r@[a], r@[b]) by {
                assert((sample_leq())(before[0], before[0]) ==> true);
                if b < p {
                    assert((sample_leq())(before[a], before[b]));
                } else if b == p {
                    assert(r@[a] == before[a]);
                } else if a < p {
                    assert(r@[b] == before[b - 1]);
                    assert(before[a] <= x);
                    assert(p < before.len());
                    assert(before[p as int] > x);
                    assert((sample_leq())(before[p as int], before[b - 1]) || p == b - 1);
                } else if a == p {
                    assert(before[p as int] > x);
                    assert((sample_leq())(before[p as int], before[b - 1]) || p == b - 1);
                } else {
                    assert((sample_leq())(before[a - 1], before[b - 1]));
                }
            }
            assert(v@.take(i + 1) == v@.take(i as int).push(x));
            vstd::seq_lib::to_multiset_insert(before, p as int, x);
            vstd::seq_lib::to_multiset_build(v@.take(i as int), x);
            assert(r@.to_multiset() == before.to_multiset().insert(x));
        }
        i += 1;
    }
    proof {
        assert(v@.take(i as int) == v@);
        lemma_sample_leq_total();
        v@.lemma_sort_by_ensures(sample_leq());
        vstd::seq_lib::lemma_sorted_unique(r@, sorted_samples(v@), sample_leq());
    }
    r
}

/// The sum of the samples, in a wide accumulator.
pub fn sum_of(t: &Vec<u64>) -> (r: u128)
    ensures
        r == sample_sum(t@),
{
    let mut sum: u128 = 0;
    let mut i: usize = 0;
    while i < t.len()
        invariant
            i <= t.len(),
            sum == sample_sum(t@.take(i as int)),
            sum <= i * (u64::MAX as int),
        decreases t.len() - i,
    {
        proof {
            assert(t@.take(i + 1).drop_last() == t@.take(i as int));
            assert(i * (u64::MAX as int) + u64::MAX as int == (i + 1) * (u64::MAX as int)) by (nonlinear_arith);
            assert(i + 1 <= usize::MAX);
            assert((i + 1) * (u64::MAX as int) <= (usize::MAX as int) * (u64::MAX as int)) by (nonlinear_arith)
                requires i + 1 <= usize::MAX;
            assert((usize::MAX as int) * (u64::MAX as int) < u128::MAX) by (nonlinear_arith);
        }
        sum = sum + t[i] as u128;
        i += 1;
    }
    proof { assert(t@.take(i as int) == t@); }
    sum
}

/// Timing statistics over the samples recorded under one name.
#[derive(Debug, Clone)]
pub struct PerformanceStats {
    pub count: usize,
    pub min: Duration,
    pub max: Duration,
    pub median: Duration,
    pub avg: Duration,
    pub p95: Duration,
    pub p99: Duration,
}

/// The median of ascending samples, the mean of the two middle ones
/// (rounded down) when their number is even.
pub open spec fn median_of(t: Seq<u64>) -> int {
    let n = t.len() as int;
    if n % 2 == 0 { (t[n / 2 - 1] + t[n / 2]) / 2 } else { t[n / 2] as int }
}

/// `st` gives, in whole nanoseconds, the statistics of the ascending
/// samples `t`: their number, least, greatest, median, mean (rounded down)
/// and the 95th and 99th percentiles by nearest rank below.
pub open spec fn stats_match(st: PerformanceStats, t: Seq<u64>) -> bool {
    let n = t.len() as int;
    &&& st.count == n
    &&& duration_nanos(st.min) == t[0]
    &&& duration_nanos(st.max) == t[n - 1]
    &&& duration_nanos(st.median) == median_of(t)
    &&& duration_nanos(st.avg) == (sample_sum(t) as int) / n
    &&& duration_nanos(st.p95) == t[(n * 95 / 100) as int]
    &&& duration_nanos(st.p99) == t[(n * 99 / 100) as int]
}

/// How many of the samples are at most `v`.
pub open spec fn count_at_most(t: Seq<u64>, v: int) -> nat
    decreases t.len(),
{
    if t.len() == 0 { 0 } else { count_at_most(t.drop_last(), v) + (if t.last() <= v { 1nat } else { 0nat }) }
}

/// How many of the samples are below `v`.
pub open spec fn count_below(t: Seq<u64>, v: int) -> nat
    decreases t.len(),
{
    if t.len() == 0 { 0 } else { count_below(t.drop_last(), v) + (if t.last() < v { 1nat } else { 0nat }) }
}

proof fn lemma_count_below_len(t: Seq<u64>, v: int)
    ensures
        count_below(t, v) <= t.len(),
    decreases t.len(),
{
    if t.len() > 0 {
        lemma_count_below_len(t.drop_last(), v);
    }
}

/// In ascending samples, the one at index `k` and everything before it are
/// at most any `v` from it up.
proof fn lemma_count_at_most_from(t: Seq<u64>, k: int, v: int)
    requires
        sorted_by(t, sample_leq()),
        0 <= k < t.len(),
        t[k] <= v,
    ensures
        count_at_most(t, v) >= k + 1,
    decreases t.len(),
{
    let d = t.drop_last();
    assert(sorted_by(d, sample_leq())) by {
        assert forall|a: int, b: int| 0 <= a < b < d.len() implies #[trigger] (sample_leq())(d[a], d[b]) by {
            assert((sample_leq())(t[a], t[b]));
        }
    }
    if k < t.len() - 1 {
        lemma_count_at_most_from(d, k, v);
    } else if k > 0 {
        assert((sample_leq())(t[k - 1], t[k]));
        lemma_count_at_most_from(d, k - 1, v);
    }
}

/// In ascending samples, none from index `k` on is below the one at `k`.
proof fn lemma_count_below_upto(t: Seq<u64>, k: int)
    requires
        sorted_by(t, sample_leq()),
        0 <= k < t.len(),
    ensures
        count_below(t, t[k] as int) <= k,
    decreases t.len(),
{
    let d = t.drop_last();
    assert(sorted_by(d, sample_leq())) by {
        assert forall|a: int, b: int| 0 <= a < b < d.len() implies #[trigger] (sample_leq())(d[a], d[b]) by {
            assert((sample_leq())(t[a], t[b]));
        }
    }
    if k < t.len() - 1 {
        assert((sample_leq())(t[k], t[t.len() - 1]));
        lemma_count_below_upto(d, k);
    } else {
        lemma_count_below_len(d, t[k] as int);
    }
}

/// The statistics rank the samples as a percentile should. With the
/// samples taken in ascending order (a rearrangement of those recorded):
/// the least and greatest are reported as min and max; more than
/// `n * 95 / 100` of the `n` samples are at most p95 and no more than that
/// are below it, and likewise for p99 with 99 (nearest rank below). So p99
/// never sits below the 99th rank: with 100 distinct samples it is the
/// greatest, above p95.
pub proof fn lemma_percentile_ranks(s: Seq<u64>, st: PerformanceStats)
    requires
        s.len() > 0,
        stats_match(st, sorted_samples(s)),
    ensures
        ({
            let t = sorted_samples(s);
            let n = s.len() as int;
            &&& t.to_multiset() == s.to_multiset()
            &&& sorted_by(t, sample_leq())
            &&& count_below(t, duration_nanos(st.min) as int) == 0
            &&& count_at_most(t, duration_nanos(st.max) as int) == n
            &&& count_at_most(t, duration_nanos(st.p95) as int) > n * 95 / 100
            &&& count_below(t, duration_nanos(st.p95) as int) <= n * 95 / 100
            &&& count_at_most(t, duration_nanos(st.p99) as int) > n * 99 / 100
            &&& count_below(t, duration_nanos(st.p99) as int) <= n * 99 / 100
            &&& count_at_most(t, duration_nanos(st.median) as int) >= n / 2
            &&& count_below(t, duration_nanos(st.median) as int) <= n / 2
            &&& duration_nanos(st.avg) * n <= sample_sum(t) < (duration_nanos(st.avg) + 1) * n
        }),
{
    let t = sorted_samples(s);
    let n = s.len() as int;
    lemma_sample_leq_total();
    s.lemma_sort_by_ensures(sample_leq());
    broadcast use vstd::seq_lib::group_to_multiset_ensures;
    assert(t.len() == s.len()) by {
        assert(t.to_multiset().len() == s.to_multiset().len());
    }
    assert(n * 95 / 100 < n && n * 99 / 100 < n) by (nonlinear_arith)
        requires n > 0;
    lemma_count_below_upto(t, 0);
    lemma_count_at_most_from(t, n - 1, t[n - 1] as int);
    lemma_count_at_most_from(t, n * 95 / 100, t[n * 95 / 100] as int);
    lemma_count_below_upto(t, n * 95 / 100);
    lemma_count_at_most_from(t, n * 99 / 100, t[n * 99 / 100] as int);
    lemma_count_below_upto(t, n * 99 / 100);
    assert(count_at_most(t, t[n - 1] as int) <= n) by {
        lemma_count_at_most_len(t, t[n - 1] as int);
    }
    let m = median_of(t);
    if n % 2 == 0 {
        assert(n >= 2);
        assert((sample_leq())(t[n / 2 - 1], t[n / 2]));
        lemma_count_at_most_from(t, n / 2 - 1, m);
        lemma_count_below_upto(t, n / 2);
        lemma_count_below_mono(t, m, t[n / 2] as int);
    } else {
        lemma_count_at_most_from(t, n / 2, m);
        lemma_count_below_upto(t, n / 2);
    }
    let a = duration_nanos(st.avg) as int;
    let sum = sample_sum(t) as int;
    assert(a * n <= sum < (a + 1) * n) by (nonlinear_arith)
        requires a == sum / n, n > 0;
}

proof fn lemma_count_below_mono(t: Seq<u64>, v: int, w: int)
    requires
        v <= w,
    ensures
        count_below(t, v) <= count_below(t, w),
    decreases t.len(),
{
    if t.len() > 0 {
        lemma_count_below_mono(t.drop_last(), v, w);
    }
}

proof fn lemma_count_at_most_len(t: Seq<u64>, v: int)
    ensures
        count_at_most(t, v) <= t.len(),
    decreases t.len(),
{
    if t.len() > 0 {
        lemma_count_at_most_len(t.drop_last(), v);
    }
}

/// The most recent samples: one is dropped from the front once there are
/// more than `max`.
pub open spec fn recorded_window(s: Seq<u64>, max: nat) -> Seq<u64> {
    if s.len() > max { s.drop_first() } else { s }
}

/// The samples kept after recording `s` in turn, starting from none, in a
/// window of `max`.
pub open spec fn windowed(s: Seq<u64>, max: nat) -> Seq<u64>
    decreases s.len(),
{
    if s.len() == 0 {
        Seq::<u64>::empty()
    } else {
        recorded_window(windowed(s.drop_last(), max).push(s.last()), max)
    }
}

/// Recording samples one after another in a window of at least one keeps
/// the most recent ones, as many as the window holds, oldest first: after
/// `k` recordings a window of `n` holds the last `min(k, n)`.
pub proof fn lemma_window_keeps_latest(s: Seq<u64>, max: nat)
    requires
        max >= 1,
    ensures
        windowed(s, max) == s.skip(s.len() - (if s.len() <= max { s.len() as int } else { max as int })),
    decreases s.len(),
{
    if s.len() > 0 {
        let d = s.drop_last();
        lemma_window_keeps_latest(d, max);
        let kept = if d.len() <= max { d.len() as int } else { max as int };
        let w = windowed(d, max);
        assert(w == d.skip(d.len() - kept));
        assert(w.push(s.last()) =~= s.skip(d.len() - kept));
        if d.len() >= max {
            assert(w.push(s.last()).drop_first() =~= s.skip(s.len() - max));
        } else {
            assert(s.skip(0) =~= s);
        }
    }
}

/// The samples after recording, at time `now`, a measurement of `name`
/// started at `start`: the nanoseconds between the two (zero if `now` is
/// earlier) join the samples of `name`, of which at most `max` stay.
pub open spec fn samples_recorded_at(before: Map<Seq<char>, Seq<u64>>, max: nat, name: Seq<char>, start: u64, now: u64) -> Map<Seq<char>, Seq<u64>> {
    before.insert(
        name,
        recorded_window(
            (if before.dom().contains(name) { before[name] } else { Seq::<u64>::empty() })
                .push(if now >= start { (now - start) as u64 } else { 0 }),
            max,
        ),
    )
}

/// A running measurement; `start` is in nanoseconds since the UNIX epoch.
pub struct Measurement {
    name: String,
    start: u64,
}

impl Measurement {
    pub closed spec fn spec_name(&self) -> Seq<char> {
        self.name@
    }

    pub closed spec fn spec_start(&self) -> u64 {
        self.start
    }
}

/// Performance profiler: a window of the most recent samples per name.
pub struct PerformanceProfiler {
    measurements: StrMap<Vec<u64>>,
    max_samples: usize,
}

impl PerformanceProfiler {
    #[verifier::type_invariant]
    closed spec fn windows_fit(self) -> bool {
        forall|k: Seq<char>| #[trigger] self.measurements@.dom().contains(k)
            ==> self.measurements@[k]@.len() <= self.max_samples
    }

    /// The samples, in nanoseconds and in the order they were recorded, by name.
    pub closed spec fn spec_samples(&self) -> Map<Seq<char>, Seq<u64>> {
        Map::new(|k: Seq<char>| self.measurements@.dom().contains(k), |k: Seq<char>| self.measurements@[k]@)
    }

    /// The number of samples kept per name.
    pub closed spec fn spec_max_samples(&self) -> nat {
        self.max_samples as nat
    }

    /// No name holds more samples than the window allows.
    pub open spec fn windows_bounded(&self) -> bool {
        forall|k: Seq<char>| #[trigger] self.spec_samples().dom().contains(k)
            ==> self.spec_samples()[k].len() <= self.spec_max_samples()
    }

    pub fn new(max_samples: usize) -> (p: Self)
        ensures
            p.spec_samples() == Map::<Seq<char>, Seq<u64>>::empty(),
            p.spec_max_samples() == max_samples,
            p.windows_bounded(),
    {
        let p = Self { measurements: StrMap::new(), max_samples };
        assert(p.spec_samples() =~= Map::<Seq<char>, Seq<u64>>::empty());
        p
    }

    /// A measurement under `name` started at time `now` (nanoseconds since
    /// the UNIX epoch).
    pub fn start_measurement_at(&self, name: &str, now: u64) -> (m: Measurement)
        ensures
            m.spec_name() == name@,
            m.spec_start() == now,
    {
        Measurement { name: name.to_string(), start: now }
    }

    /// A measurement under `name` started now.
    pub fn start_measurement(&self, name: &str) -> (m: Measurement)
        ensures
            m.spec_name() == name@,
    {
        self.start_measurement_at(name, now_ns())
    }

    /// Records, at time `now`, the nanoseconds since the measurement
    /// started (zero if `now` is earlier), keeping only the most recent
    /// samples.
    pub fn record_measurement_at(&mut self, measurement: Measurement, now: u64)
        ensures
            final(self).spec_max_samples() == old(self).spec_max_samples(),
            final(self).spec_samples() == old(self).spec_samples().insert(
                measurement.spec_name(),
                recorded_window(
                    (if old(self).spec_samples().dom().contains(measurement.spec_name()) {
                        old(self).spec_samples()[measurement.spec_name()]
                    } else {
                        Seq::<u64>::empty()
                    }).push(if now >= measurement.spec_start() { (now - measurement.spec_start()) as u64 } else { 0 }),
                    old(self).spec_max_samples(),
                ),
            ),
            final(self).windows_bounded(),
    {
        proof { use_type_invariant(&*self); }
        let duration: u64 = if now >= measurement.start { now - measurement.start } else { 0 };
        let Measurement { name, start: _ } = measurement;
        let mut table: StrMap<Vec<u64>> = StrMap::new();
        std::mem::swap(&mut table, &mut self.measurements);
        let ghost old_table = table@;
        let mut samples = match table.remove(name.as_str()) {
            Some(v) => v,
            None => Vec::new(),
        };
        let ghost before = samples@;
        samples.push(duration);
        if samples.len() > self.max_samples {
            samples.remove(0);
        }
        proof {
            assert(samples@ == recorded_window(before.push(duration), self.max_samples as nat));
        }
        table.insert(name, samples);
        proof {
            assert forall|k: Seq<char>| #[trigger] table@.dom().contains(k)
                implies table@[k]@.len() <= self.max_samples by {
                if k != name@ {
                    assert(old_table.dom().contains(k));
                }
            }
        }
        self.measurements = table;
        proof {
            assert(self.spec_samples() =~= old(self).spec_samples().insert(
                name@,
                recorded_window(
                    (if old(self).spec_samples().dom().contains(name@) {
                        old(self).spec_samples()[name@]
                    } else {
                        Seq::<u64>::empty()
                    }).push(duration),
                    old(self).spec_max_samples(),
                ),
            ));
        }
    }

    /// Records the time since the measurement started.
    pub fn record_measurement(&mut self, measurement: Measurement)
        ensures
            final(self).spec_max_samples() == old(self).spec_max_samples(),
            final(self).spec_samples().dom() == old(self).spec_samples().dom().insert(measurement.spec_name()),
            final(self).windows_bounded(),
            forall|k: Seq<char>| k != measurement.spec_name() && #[trigger] old(self).spec_samples().dom().contains(k)
                ==> final(self).spec_samples()[k] == old(self).spec_samples()[k],
            final(self).spec_samples()[measurement.spec_name()].len() == (if old(self).spec_samples().dom().contains(measurement.spec_name())
                && old(self).spec_samples()[measurement.spec_name()].len() + 1 > old(self).spec_max_samples() {
                old(self).spec_samples()[measurement.spec_name()].len()
            } else if old(self).spec_samples().dom().contains(measurement.spec_name()) {
                old(self).spec_samples()[measurement.spec_name()].len() + 1
            } else if old(self).spec_max_samples() == 0 {
                0
            } else {
                1
            }),
            exists|now: u64| final(self).spec_samples() == #[trigger] samples_recorded_at(
                old(self).spec_samples(), old(self).spec_max_samples(), measurement.spec_name(), measurement.spec_start(), now),
    {
        let ghost name = measurement.spec_name();
        let ghost start = measurement.spec_start();
        let now = now_ns();
        self.record_measurement_at(measurement, now);
        assert(self.spec_samples().dom() =~= old(self).spec_samples().dom().insert(name));
        assert(self.spec_samples() == samples_recorded_at(old(self).spec_samples(), old(self).spec_max_samples(), name, start, now));
    }

    /// Statistics over the samples recorded under `name`; `None` when there
    /// are none.
    pub fn get_statistics(&self, name: &str) -> (r: Option<PerformanceStats>)
        ensures
            match r {
                None => !self.spec_samples().dom().contains(name@) || self.spec_samples()[name@].len() == 0,
                Some(st) => self.spec_samples().dom().contains(name@)
                    && self.spec_samples()[name@].len() > 0
                    && stats_match(st, sorted_samples(self.spec_samples()[name@])),
            },
    {
        let samples = match self.measurements.get(name) {
            Some(s) => s,
            None => return None,
        };
        if samples.len() == 0 {
            return None;
        }
        let sorted = sort_samples(samples);
        proof {
            lemma_sample_leq_total();
            samples@.lemma_sort_by_ensures(sample_leq());
            broadcast use vstd::seq_lib::group_to_multiset_ensures;
            assert(sorted@.to_multiset().len() == samples@.to_multiset().len());
        }
        let count = sorted.len();
        assert(count == samples@.len());
        let min = sorted[0];
        let max = sorted[count - 1];
        let median: u64 = if count % 2 == 0 {
            ((sorted[count / 2 - 1] as u128 + sorted[count / 2] as u128) / 2) as u64
        } else {
            sorted[count / 2]
        };
        let sum = sum_of(&sorted);
        proof {
            assert(sum <= count * (u64::MAX as int)) by {
                lemma_sample_sum_bound(sorted@);
            }
            assert(sum / (count as u128) <= u64::MAX) by (nonlinear_arith)
                requires sum <= count * (u64::MAX as int), count > 0;
        }
        let avg = (sum / (count as u128)) as u64;
        let i95 = count / 100 * 95 + count % 100 * 95 / 100;
        let i99 = count / 100 * 99 + count % 100 * 99 / 100;
        proof {
            assert(i95 == count * 95 / 100 && i99 == count * 99 / 100 && i95 < count && i99 < count) by (nonlinear_arith)
                requires i95 == count / 100 * 95 + count % 100 * 95 / 100,
                    i99 == count / 100 * 99 + count % 100 * 99 / 100, count > 0;
        }
        Some(PerformanceStats {
            count,
            min: duration_from_ns(min),
            max: duration_from_ns(max),
            median: duration_from_ns(median),
            avg: duration_from_ns(avg),
            p95: duration_from_ns(sorted[i95]),
            p99: duration_from_ns(sorted[i99]),
        })
    }
}

/// Result of a health check.
#[derive(Debug, Clone, PartialEq)]
pub enum HealthStatus {
    Healthy,
    Unhealthy(String),
    Unknown,
}

/// A named health check.
pub trait HealthCheck: Send + Sync {
    /// The name the check reports under.
    spec fn spec_name(&self) -> Seq<char>;

    /// Whether the check can report `status` (the statuses it may give,
    /// whatever it depends on).
    spec fn spec_can_report(&self, status: HealthStatus) -> bool;

    fn name(&self) -> (n: &str)
        ensures
            n@ == self.spec_name();

    fn check(&self) -> (s: HealthStatus)
        ensures
            self.spec_can_report(s);
}

/// Health check system: the registered checks, each with the name it
/// reported when it was added.
pub struct HealthChecker {
    checks: Vec<Box<dyn HealthCheck>>,
    names: Vec<String>,
}

impl HealthChecker {
    /// Each check has its name.
    #[verifier::type_invariant]
    spec fn named(&self) -> bool {
        self.names@.len() == self.checks@.len()
    }

    /// The names of the registered checks, in the order they were added.
    pub closed spec fn check_names(&self) -> Seq<Seq<char>> {
        self.names@.map_values(|n: String| n@)
    }

    /// Whether the check registered `i`-th can report `status`.
    pub closed spec fn check_can_report(&self, i: int, status: HealthStatus) -> bool {
        self.checks@[i].spec_can_report(status)
    }

    pub fn new() -> (c: Self)
        ensures
            c.check_names() == Seq::<Seq<char>>::empty(),
    {
        let c = Self { checks: Vec::new(), names: Vec::new() };
        assert(c.check_names() =~= Seq::<Seq<char>>::empty());
        c
    }

    /// Registers a check, under the name it reports, after the others.
    pub fn add_check<C: HealthCheck + 'static>(&mut self, check: C)
        ensures
            final(self).check_names() == old(self).check_names().push(check.spec_name()),
    {
        proof { use_type_invariant(&*self); }
        let name = check.name().to_string();
        let b: Box<dyn HealthCheck> = Box::new(check);
        let mut taken = HealthChecker::new();
        std::mem::swap(&mut taken, self);
        proof { use_type_invariant(&taken); }
        let ghost old_names = taken.names@;
        let HealthChecker { mut checks, mut names } = taken;
        let ghost c0 = checks@;
        let ghost n0 = names@;
        checks.push(b);
        names.push(name);
        proof {
            vstd::seq::axiom_seq_push_len(c0, b);
            vstd::seq::axiom_seq_push_len(n0, name);
        }
        *self = HealthChecker { checks, names };
        proof {
            assert(old_names.map_values(|n: String| n@) == old(self).check_names());
            assert(self.check_names() =~= old(self).check_names().push(name@));
        }
    }

    /// Runs every check; each name maps to the status of the last check
    /// registered under it.
    pub fn run_checks(&self) -> (r: StrMap<HealthStatus>)
        ensures
            forall|k: Seq<char>| #[trigger] r@.dom().contains(k) <==> self.check_names().contains(k),
            forall|k: Seq<char>| #[trigger] r@.dom().contains(k) ==> exists|j: int| {
                &&& 0 <= j < self.check_names().len()
                &&& #[trigger] self.check_names()[j] == k
                &&& forall|l: int| j < l < self.check_names().len() ==> self.check_names()[l] != k
                &&& self.check_can_report(j, r@[k])
            },
    {
        proof { use_type_invariant(self); }
        let mut results: StrMap<HealthStatus> = StrMap::new();
        let mut i: usize = 0;
        while i < self.checks.len()
            invariant
                i <= self.checks@.len(),
                forall|k: Seq<char>| #[trigger] results@.dom().contains(k) <==> self.check_names().take(i as int).contains(k),
                self.check_names().len() == self.checks@.len(),
                forall|k: Seq<char>| #[trigger] results@.dom().contains(k) ==> exists|j: int| {
                    &&& 0 <= j < i
                    &&& #[trigger] self.check_names()[j] == k
                    &&& forall|l: int| j < l < i ==> self.check_names()[l] != k
                    &&& self.check_can_report(j, results@[k])
                },
            decreases self.checks@.len() - i,
        {
            let status = self.checks[i].check();
            let name = self.names[i].as_str();
            let ghost old_results = results@;
            proof {
                assert(self.check_can_report(i as int, status));
                assert(self.check_names()[i as int] == name@);
            }
            results.insert(name.to_string(), status);
            proof {
                assert forall|k: Seq<char>| #[trigger] results@.dom().contains(k) implies exists|j: int| {
                    &&& 0 <= j < i + 1
                    &&& #[trigger] self.check_names()[j] == k
                    &&& forall|l: int| j < l < i + 1 ==> self.check_names()[l] != k
                    &&& self.check_can_report(j, results@[k])
                } by {
                    if k == name@ {
                        assert(self.check_names()[i as int] == k);
                    } else {
                        assert(old_results.dom().contains(k));
                        let j = choose|j: int| {
                            &&& 0 <= j < i
                            &&& #[trigger] self.check_names()[j] == k
                            &&& forall|l: int| j < l < i ==> self.check_names()[l] != k
                            &&& self.check_can_report(j, old_results[k])
                        };
                        assert(self.check_names()[j] == k);
                    }
                }
                let pre = self.check_names().take(i as int);
                let post = self.check_names().take(i + 1);
                assert(post == pre.push(name@));
                assert forall|k: Seq<char>| #[trigger] results@.dom().contains(k) <==> post.contains(k) by {
                    if k == name@ {
                        assert(post[i as int] == k);
                    }
                    if pre.contains(k) {
                        let j = choose|j: int| 0 <= j < pre.len() && #[trigger] pre[j] == k;
                        assert(post[j] == k);
                    }
                    if post.contains(k) && k != name@ {
                        let j = choose|j: int| 0 <= j < post.len() && #[trigger] post[j] == k;
                        assert(pre[j] == k);
                    }
                }
            }
            i += 1;
        }
        proof { assert(self.check_names().take(i as int) == self.check_names()); }
        results
    }

    /// Whether every check reports healthy; it stops at the first that does not.
    pub fn is_healthy(&self) -> (b: bool)
        ensures
            self.check_names().len() == 0 ==> b,
            b ==> forall|i: int| 0 <= i < self.check_names().len() ==> #[trigger] self.check_can_report(i, HealthStatus::Healthy),
            !b ==> exists|i: int, s: HealthStatus| 0 <= i < self.check_names().len() && !(s is Healthy)
                && #[trigger] self.check_can_report(i, s)
                && forall|j: int| 0 <= j < i ==> #[trigger] self.check_can_report(j, HealthStatus::Healthy),
    {
        proof { use_type_invariant(self); }
        let mut i: usize = 0;
        while i < self.checks.len()
            invariant
                i <= self.checks@.len(),
                self.check_names().len() == self.checks@.len(),
                forall|j: int| 0 <= j < i ==> #[trigger] self.check_can_report(j, HealthStatus::Healthy),
            decreases self.checks@.len() - i,
        {
            let s = self.checks[i].check();
            match s {
                HealthStatus::Healthy => {},
                _ => {
                    assert(self.check_can_report(i as int, s));
                    return false;
                },
            }
            i += 1;
        }
        true
    }
}

/// At time `now`, whether the last heartbeat is younger than the timeout
/// (all in milliseconds); `None` before any heartbeat.
pub open spec fn heartbeat_fresh(last_heartbeat: Option<u64>, timeout_ms: u64, now: u64) -> Option<bool> {
    match last_heartbeat {
        Some(last) => Some((if now >= last { now - last } else { 0 }) < timeout_ms),
        None => None,
    }
}

/// Whether `s` is the status of a connection at time `now`: unknown before
/// any heartbeat, healthy while the last one is younger than the timeout,
/// unhealthy by heartbeat timeout after.
pub open spec fn connection_status(last_heartbeat: Option<u64>, timeout_ms: u64, now: u64, s: HealthStatus) -> bool {
    match s {
        HealthStatus::Healthy => heartbeat_fresh(last_heartbeat, timeout_ms, now) == Some(true),
        HealthStatus::Unknown => heartbeat_fresh(last_heartbeat, timeout_ms, now) is None,
        HealthStatus::Unhealthy(m) => heartbeat_fresh(last_heartbeat, timeout_ms, now) == Some(false)
            && m@ == "Heartbeat timeout"@,
    }
}

/// Connection health check: healthy while heartbeats come within the timeout.
pub struct ConnectionHealthCheck {
    last_heartbeat: Option<u64>,
    timeout_ms: u64,
}

impl ConnectionHealthCheck {
    /// Time of the last heartbeat, in milliseconds since the UNIX epoch.
    pub closed spec fn spec_last_heartbeat(&self) -> Option<u64> {
        self.last_heartbeat
    }

    /// The timeout in milliseconds.
    pub closed spec fn spec_timeout_ms(&self) -> u64 {
        self.timeout_ms
    }

    pub fn new(timeout: Duration) -> (c: Self)
        ensures
            c.spec_last_heartbeat() is None,
            c.spec_timeout_ms() == saturated_ms(timeout),
    {
        Self { last_heartbeat: None, timeout_ms: duration_to_ms(timeout) }
    }

    /// Records a heartbeat at time `now`.
    pub fn record_heartbeat_at(&mut self, now: u64)
        ensures
            final(self).spec_last_heartbeat() == Some(now),
            final(self).spec_timeout_ms() == old(self).spec_timeout_ms(),
    {
        self.last_heartbeat = Some(now);
    }

    /// Records a heartbeat now.
    pub fn record_heartbeat(&mut self)
        ensures
            final(self).spec_last_heartbeat() is Some,
            final(self).spec_timeout_ms() == old(self).spec_timeout_ms(),
    {
        self.record_heartbeat_at(now_ms());
    }

    /// The status at time `now`: unknown before any heartbeat, healthy while
    /// the last one is younger than the timeout, unhealthy after.
    pub fn check_at(&self, now: u64) -> (s: HealthStatus)
        ensures
            connection_status(self.spec_last_heartbeat(), self.spec_timeout_ms(), now, s),
    {
        match self.last_heartbeat {
            Some(last) => {
                let elapsed: u64 = if now >= last { now - last } else { 0 };
                if elapsed < self.timeout_ms {
                    HealthStatus::Healthy
                } else {
                    HealthStatus::Unhealthy("Heartbeat timeout".to_string())
                }
            },
            None => HealthStatus::Unknown,
        }
    }
}

impl HealthCheck for ConnectionHealthCheck {
    open spec fn spec_name(&self) -> Seq<char> {
        "connection"@
    }

    fn name(&self) -> (n: &str) {
        "connection"
    }

    /// The statuses of the check at some time.
    open spec fn spec_can_report(&self, status: HealthStatus) -> bool {
        exists|now: u64| #[trigger] connection_status(self.spec_last_heartbeat(), self.spec_timeout_ms(), now, status)
    }

    /// The status now; unknown before any heartbeat.
    fn check(&self) -> (s: HealthStatus)
        ensures
            self.spec_last_heartbeat() is None ==> s == HealthStatus::Unknown,
            exists|now: u64| #[trigger] connection_status(self.spec_last_heartbeat(), self.spec_timeout_ms(), now, s),
    {
        let now = now_ms();
        let s = self.check_at(now);
        assert(connection_status(self.spec_last_heartbeat(), self.spec_timeout_ms(), now, s));
        s
    }
}

/// The sum of `n` samples is at most `n` times the largest `u64`.
pub proof fn lemma_sample_sum_bound(t: Seq<u64>)
    ensures
        sample_sum(t) <= t.len() * (u64::MAX as int),
    decreases t.len(),
{
    if t.len() > 0 {
        lemma_sample_sum_bound(t.drop_last());
        assert((t.len() - 1) * (u64::MAX as int) + u64::MAX as int == t.len() * (u64::MAX as int)) by (nonlinear_arith);
    }
}

} // verus!
