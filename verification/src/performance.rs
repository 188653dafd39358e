//! Performance optimization: connection pooling, message batching, caching
//! and a span profiler.
//!
//! Instants are milliseconds since the UNIX epoch, read from the wall clock;
//! each time-dependent operation has a form that takes the time as `now`.

pub mod manager;
pub mod middleware;

use std::time::Duration;
use vstd::prelude::*;
use crate::clock::{duration_from_ms, duration_from_ns, duration_millis, duration_nanos, duration_to_ms, now_ms, now_ns, saturated_ms};
use crate::codec::copy_bytes;
use crate::strmap::StrMap;

verus! {

/// The time from `from` to `now`, in the unit both are given in; zero if
/// `now` is earlier.
pub open spec fn time_since(from: u64, now: u64) -> u64 {
    if now >= from { (now - from) as u64 } else { 0 }
}

fn since(from: u64, now: u64) -> (r: u64)
    ensures
        r == time_since(from, now),
{
    if now >= from { now - from } else { 0 }
}

/// Performance-related errors
#[derive(Debug)]
pub enum PerformanceError {
    PoolingDisabled,
    PoolExhausted,
    BatchingDisabled,
    CacheError(String),
    MetricsError(String),
}

/// Performance configuration
#[derive(Debug, Clone)]
pub struct PerformanceConfig {
    pub enable_connection_pooling: bool,
    pub max_pool_size: usize,
    pub enable_message_batching: bool,
    pub batch_size: usize,
    pub batch_timeout: Duration,
    pub enable_caching: bool,
    pub cache_size: usize,
    pub cache_ttl: Duration,
    pub enable_compression: bool,
    pub compression_threshold: usize,
    pub enable_metrics: bool,
}

/// The default configuration: everything enabled, a pool of 10, batches
/// of 100 or 10 ms, a cache of 1000 entries living 300 s, compression from
/// 1024 bytes.
pub open spec fn default_performance_config(c: PerformanceConfig) -> bool {
    &&& c.enable_connection_pooling && c.max_pool_size == 10
    &&& c.enable_message_batching && c.batch_size == 100 && duration_millis(c.batch_timeout) == 10
    &&& c.enable_caching && c.cache_size == 1000 && duration_millis(c.cache_ttl) == 300000
    &&& c.enable_compression && c.compression_threshold == 1024
    &&& c.enable_metrics
}

impl Default for PerformanceConfig {
    fn default() -> (c: Self)
        ensures
            default_performance_config(c),
    {
        Self {
            enable_connection_pooling: true,
            max_pool_size: 10,
            enable_message_batching: true,
            batch_size: 100,
            batch_timeout: duration_from_ms(10),
            enable_caching: true,
            cache_size: 1000,
            cache_ttl: duration_from_ms(300000),
            enable_compression: true,
            compression_threshold: 1024,
            enable_metrics: true,
        }
    }
}

/// A pooled connection counts as healthy while it is connected and was
/// used within this many milliseconds.
pub const HEALTHY_USE_MS: u64 = 60000;

/// Idle pooled connections are dropped after this many milliseconds.
pub const MAX_IDLE_MS: u64 = 300000;

/// Pooled connection wrapper; times in milliseconds.
#[derive(Debug, Clone)]
pub struct PooledConnection {
    pub url: String,
    pub created_at: u64,
    pub last_used: u64,
    pub request_count: u64,
    pub is_connected: bool,
}

/// A connection to `url` just opened at `now`.
pub open spec fn fresh_connection(c: PooledConnection, url: Seq<char>, now: u64) -> bool {
    c.url@ == url && c.created_at == now && c.last_used == now && c.request_count == 0 && c.is_connected
}

/// At `now`, the connection is connected and was used recently.
pub open spec fn connection_healthy(c: PooledConnection, now: u64) -> bool {
    c.is_connected && time_since(c.last_used, now) < HEALTHY_USE_MS
}

impl PooledConnection {
    /// A connection to `url` opened at time `now`.
    pub fn new_at(url: String, now: u64) -> (c: Self)
        ensures
            c.url == url,
            fresh_connection(c, url@, now),
    {
        Self { url, created_at: now, last_used: now, request_count: 0, is_connected: true }
    }

    /// A connection to `url` opened now.
    pub fn new(url: String) -> (c: Self)
        ensures
            c.url == url,
            c.created_at == c.last_used,
            c.request_count == 0,
            c.is_connected,
            exists|now: u64| #[trigger] fresh_connection(c, url@, now),
    {
        let now = now_ms();
        let ghost u = url@;
        let c = Self::new_at(url, now);
        assert(fresh_connection(c, u, now));
        c
    }

    pub fn is_healthy_at(&self, now: u64) -> (b: bool)
        ensures
            b == connection_healthy(*self, now),
    {
        self.is_connected && since(self.last_used, now) < HEALTHY_USE_MS
    }

    pub fn is_healthy(&self) -> (b: bool)
        ensures
            b ==> self.is_connected,
            exists|now: u64| b == #[trigger] connection_healthy(*self, now),
    {
        let now = now_ms();
        let b = self.is_healthy_at(now);
        assert(b == connection_healthy(*self, now));
        b
    }

    /// Marks the connection used at time `now`. The wall clock can step
    /// back; the time of last use never does.
    pub fn mark_used_at(&mut self, now: u64)
        requires
            old(self).request_count < u64::MAX,
        ensures
            *final(self) == (PooledConnection {
                last_used: if now >= old(self).last_used { now } else { old(self).last_used },
                request_count: (old(self).request_count + 1) as u64,
                ..*old(self)
            }),
    {
        if now >= self.last_used {
            self.last_used = now;
        }
        self.request_count = self.request_count + 1;
    }

    /// Marks the connection used now.
    pub fn mark_used(&mut self)
        requires
            old(self).request_count < u64::MAX,
        ensures
            final(self).request_count == old(self).request_count + 1,
            final(self).url == old(self).url,
            final(self).is_connected == old(self).is_connected,
            *final(self) == (PooledConnection {
                last_used: final(self).last_used,
                request_count: (old(self).request_count + 1) as u64,
                ..*old(self)
            }),
            final(self).last_used >= old(self).last_used,
    {
        self.mark_used_at(now_ms());
    }
}

/// The idle pooled connections among `pools`: those last used at or
/// before `cutoff`.
pub open spec fn idle_count(pools: Seq<Seq<PooledConnection>>, cutoff: u64) -> nat
    decreases pools.len(),
{
    if pools.len() == 0 {
        0
    } else {
        idle_count(pools.drop_last(), cutoff) + (pools.last().len() - pools.last().filter(|c: PooledConnection| c.last_used > cutoff).len()) as nat
    }
}

proof fn lemma_idle_prefix(pools: Seq<Seq<PooledConnection>>, cutoff: u64, i: int)
    requires
        0 <= i <= pools.len(),
    ensures
        idle_count(pools.take(i), cutoff) <= idle_count(pools, cutoff),
    decreases pools.len(),
{
    if i < pools.len() {
        assert(pools.drop_last().take(i) == pools.take(i));
        lemma_idle_prefix(pools.drop_last(), cutoff, i);
        pools.last().filter_lemma(|c: PooledConnection| c.last_used > cutoff);
    } else {
        assert(pools.take(i) == pools);
    }
}

/// The number of pooled connections in `pools`.
pub open spec fn pooled_count(pools: Seq<Seq<PooledConnection>>) -> nat
    decreases pools.len(),
{
    if pools.len() == 0 { 0 } else { pooled_count(pools.drop_last()) + pools.last().len() }
}

proof fn lemma_idle_within_pooled(pools: Seq<Seq<PooledConnection>>, cutoff: u64)
    ensures
        idle_count(pools, cutoff) <= pooled_count(pools),
    decreases pools.len(),
{
    if pools.len() > 0 {
        lemma_idle_within_pooled(pools.drop_last(), cutoff);
        pools.last().filter_lemma(|c: PooledConnection| c.last_used > cutoff);
    }
}

/// The pooled count splits between a prefix and the rest.
proof fn lemma_pooled_split(pools: Seq<Seq<PooledConnection>>, i: int)
    requires
        0 <= i <= pools.len(),
    ensures
        pooled_count(pools) == pooled_count(pools.take(i)) + pooled_count(pools.skip(i)),
    decreases pools.len(),
{
    if i == pools.len() {
        assert(pools.take(i) == pools);
        assert(pools.skip(i).len() == 0);
    } else {
        lemma_pooled_split(pools.drop_last(), i);
        assert(pools.drop_last().take(i) == pools.take(i));
        assert(pools.skip(i).drop_last() == pools.drop_last().skip(i));
        assert(pools.skip(i).last() == pools.last());
    }
}

/// The cutoff for idle connections at `now`: `MAX_IDLE_MS` earlier, or the
/// clock's origin.
pub open spec fn idle_cutoff(now: u64) -> u64 {
    if now >= MAX_IDLE_MS { (now - MAX_IDLE_MS) as u64 } else { 0 }
}

/// Connection pool configuration
#[derive(Debug, Clone, Copy, PartialEq, Eq, Structural)]
pub struct ConnectionPoolConfig {
    pub max_connections: usize,
    pub min_connections: usize,
}

impl Default for ConnectionPoolConfig {
    fn default() -> (c: Self)
        ensures
            c == (ConnectionPoolConfig { max_connections: 10, min_connections: 2 }),
    {
        Self { max_connections: 10, min_connections: 2 }
    }
}

/// The URL of the `i`-th connection a configured pool opens.
pub open spec fn initial_url(i: nat) -> Seq<char> {
    "ws://localhost:8080/"@ + crate::text::decimal(i)
}

/// `after` is `before` with `connection` handed back at time `now`: a
/// healthy connection is pooled behind the others to its URL, an unhealthy
/// one is dropped from the total.
pub open spec fn returned_to_pool(before: ConnectionPool, after: ConnectionPool, connection: PooledConnection, now: u64) -> bool {
    &&& after.spec_max() == before.spec_max()
    &&& connection_healthy(connection, now) ==> {
        &&& after.spec_pools() == before.spec_pools().insert(connection.url@, before.spec_pool_of(connection.url@).push(connection))
        &&& after.spec_total() == before.spec_total()
    }
    &&& !connection_healthy(connection, now) ==> {
        &&& after.spec_pools() == before.spec_pools()
        &&& after.spec_total() == before.spec_total() - 1
    }
}

/// `p` is the pool that `config` starts with at time `now`: its limit and
/// total from the configuration, and one connection opened at `now` to each
/// of the first `min_connections` initial URLs.
pub open spec fn pool_started_at(config: ConnectionPoolConfig, p: ConnectionPool, now: u64) -> bool {
    &&& p.spec_max() == config.max_connections
    &&& p.spec_total() == config.min_connections
    &&& forall|i: nat| i < config.min_connections ==> #[trigger] p.spec_pools().dom().contains(initial_url(i))
        && p.spec_pools()[initial_url(i)].len() == 1
        && fresh_connection(p.spec_pools()[initial_url(i)][0], initial_url(i), now)
    &&& forall|k: Seq<char>| #[trigger] p.spec_pools().dom().contains(k) ==>
        exists|i: nat| i < config.min_connections && k == initial_url(i)
}

/// `after` and `r` are `before` and the answer after a request at time
/// `now` for a connection to `url`: the first pooled one to that URL, else
/// a fresh one while the total is under the limit, else the pool is
/// exhausted and nothing changes.
pub open spec fn taken_from_pool(before: ConnectionPool, after: ConnectionPool, url: Seq<char>, now: u64, r: Result<PooledConnection, PerformanceError>) -> bool {
    &&& after.spec_max() == before.spec_max()
    &&& match r {
        Ok(c) => if before.spec_pool_of(url).len() > 0 {
            &&& c == before.spec_pool_of(url)[0]
            &&& after.spec_pools() == before.spec_pools().insert(url, before.spec_pool_of(url).drop_first())
            &&& after.spec_total() == before.spec_total()
        } else {
            &&& before.spec_total() < before.spec_max()
            &&& fresh_connection(c, url, now)
            &&& after.spec_pools() == before.spec_pools()
            &&& after.spec_total() == before.spec_total() + 1
        },
        Err(e) => {
            &&& e is PoolExhausted
            &&& before.spec_pool_of(url).len() == 0
            &&& before.spec_total() >= before.spec_max()
            &&& after.spec_pools() == before.spec_pools()
            &&& after.spec_total() == before.spec_total()
        },
    }
}

/// `after` is `before` with the connections idle at time `now` dropped from
/// the pools and counted out of the total.
pub open spec fn cleaned_at(before: ConnectionPool, after: ConnectionPool, now: u64) -> bool {
    &&& after.spec_max() == before.spec_max()
    &&& after.spec_pools().dom() == before.spec_pools().dom()
    &&& forall|k: Seq<char>| #[trigger] after.spec_pools().dom().contains(k) ==>
        after.spec_pools()[k] == before.spec_pools()[k].filter(|c: PooledConnection| c.last_used > idle_cutoff(now))
    &&& after.spec_total() == before.spec_total() - idle_count(before.spec_pool_list(), idle_cutoff(now))
}

/// Connection pool for reusing WebSocket connections
pub struct ConnectionPool {
    max_size: usize,
    connections: StrMap<Vec<PooledConnection>>,
    total_connections: usize,
}

impl ConnectionPool {
    /// The idle connections, by URL.
    pub closed spec fn spec_pools(&self) -> Map<Seq<char>, Seq<PooledConnection>> {
        Map::new(|k: Seq<char>| self.connections@.dom().contains(k), |k: Seq<char>| self.connections@[k]@)
    }

    /// The idle connections to `url`, oldest first.
    pub open spec fn spec_pool_of(&self, url: Seq<char>) -> Seq<PooledConnection> {
        if self.spec_pools().dom().contains(url) { self.spec_pools()[url] } else { Seq::empty() }
    }

    /// The idle connections of each URL, in the order the URLs were first pooled.
    pub closed spec fn spec_pool_list(&self) -> Seq<Seq<PooledConnection>> {
        self.connections.value_seq().map_values(|v: Vec<PooledConnection>| v@)
    }

    /// The number of connections handed out or pooled.
    pub closed spec fn spec_total(&self) -> nat {
        self.total_connections as nat
    }

    pub closed spec fn spec_max(&self) -> nat {
        self.max_size as nat
    }

    pub fn new(max_size: usize) -> (p: Self)
        ensures
            p.spec_pools() == Map::<Seq<char>, Seq<PooledConnection>>::empty(),
            p.spec_total() == 0,
            p.spec_max() == max_size,
    {
        let p = Self { max_size, connections: StrMap::new(), total_connections: 0 };
        assert(p.spec_pools() =~= Map::<Seq<char>, Seq<PooledConnection>>::empty());
        p
    }

    /// A pool holding, at time `now`, one idle connection to each of the
    /// first `min_connections` initial URLs, all counted in the total.
    pub fn with_config_at(config: ConnectionPoolConfig, now: u64) -> (p: Self)
        ensures
            pool_started_at(config, p, now),
    {
        let mut pool = Self { max_size: config.max_connections, connections: StrMap::new(), total_connections: 0 };
        let mut i: usize = 0;
        while i < config.min_connections
            invariant
                i <= config.min_connections,
                pool.max_size == config.max_connections,
                pool.total_connections == 0,
                forall|j: nat| j < i ==> #[trigger] pool.spec_pools().dom().contains(initial_url(j))
                    && pool.spec_pools()[initial_url(j)].len() == 1
                    && fresh_connection(pool.spec_pools()[initial_url(j)][0], initial_url(j), now),
                forall|k: Seq<char>| #[trigger] pool.spec_pools().dom().contains(k) ==>
                    exists|j: nat| j < i && k == initial_url(j),
            decreases config.min_connections - i,
        {
            let url = crate::text::concat_str("ws://localhost:8080/", &crate::text::decimal_chars(i as u64));
            let key = crate::text::concat_str("ws://localhost:8080/", &crate::text::decimal_chars(i as u64));
            let mut v: Vec<PooledConnection> = Vec::new();
            v.push(PooledConnection::new_at(url, now));
            let ghost before = pool.spec_pools();
            pool.connections.insert(key, v);
            proof {
                assert(pool.spec_pools() =~= before.insert(initial_url(i as nat), v@));
                assert forall|j: nat| j < i + 1 implies #[trigger] pool.spec_pools().dom().contains(initial_url(j))
                    && pool.spec_pools()[initial_url(j)].len() == 1
                    && fresh_connection(pool.spec_pools()[initial_url(j)][0], initial_url(j), now) by {
                    if j < i {
                        assert(before.dom().contains(initial_url(j)));
                        if initial_url(j) == initial_url(i as nat) {
                            let pre = "ws://localhost:8080/"@;
                            assert(initial_url(j).subrange(pre.len() as int, initial_url(j).len() as int)
                                =~= crate::text::decimal(j));
                            assert(initial_url(i as nat).subrange(pre.len() as int, initial_url(i as nat).len() as int)
                                =~= crate::text::decimal(i as nat));
                            crate::text::lemma_decimal_injective(j, i as nat);
                        }
                    }
                }
                assert forall|k: Seq<char>| #[trigger] pool.spec_pools().dom().contains(k) implies
                    exists|j: nat| j < i + 1 && k == initial_url(j) by {
                    if k != initial_url(i as nat) {
                        assert(before.dom().contains(k));
                    }
                }
            }
            i += 1;
        }
        let ghost pools = pool.spec_pools();
        pool.total_connections = config.min_connections;
        assert(pool.spec_pools() =~= pools);
        assert(pool_started_at(config, pool, now));
        pool
    }

    /// A pool holding one idle connection to each of the first
    /// `min_connections` initial URLs.
    pub fn with_config(config: ConnectionPoolConfig) -> (r: Result<Self, PerformanceError>)
        ensures
            r matches Ok(p) && p.spec_max() == config.max_connections && p.spec_total() == config.min_connections,
            r matches Ok(p) && p.spec_pools().dom() == Set::new(|k: Seq<char>| exists|i: nat| i < config.min_connections && k == initial_url(i)),
            r matches Ok(p) && exists|now: u64| #[trigger] pool_started_at(config, p, now),
    {
        let now = now_ms();
        let p = Self::with_config_at(config, now);
        proof {
            assert(pool_started_at(config, p, now));
            assert(p.spec_pools().dom() =~= Set::new(|k: Seq<char>| exists|i: nat| i < config.min_connections && k == initial_url(i)));
        }
        Ok(p)
    }

    pub fn new_simple(max_size: usize) -> (p: Self)
        ensures
            p.spec_pools() == Map::<Seq<char>, Seq<PooledConnection>>::empty(),
            p.spec_total() == 0,
            p.spec_max() == max_size,
    {
        Self::new(max_size)
    }

    /// Takes, at time `now`, the oldest idle connection to `url`; without
    /// one, opens a new connection while the total is under the maximum.
    pub fn get_connection_at(&mut self, url: &str, now: u64) -> (r: Result<PooledConnection, PerformanceError>)
        ensures
            taken_from_pool(*old(self), *final(self), url@, now, r),
    {
        let ghost old_pools = self.spec_pools();
        match self.connections.remove(url) {
            Some(v) => {
                let mut v = v;
                if v.len() > 0 {
                    let c = v.remove(0);
                    self.connections.insert(url.to_string(), v);
                    assert(self.spec_pools() =~= old_pools.insert(url@, old_pools[url@].drop_first()));
                    return Ok(c);
                }
                self.connections.insert(url.to_string(), v);
                assert(self.spec_pools() =~= old_pools);
            },
            None => {
                assert(self.spec_pools() =~= old_pools);
            },
        }
        if self.total_connections < self.max_size {
            self.total_connections = self.total_connections + 1;
            Ok(PooledConnection::new_at(url.to_string(), now))
        } else {
            Err(PerformanceError::PoolExhausted)
        }
    }

    /// Takes the oldest idle connection to `url`, or opens a new one while
    /// the total is under the maximum.
    pub fn get_connection(&mut self, url: &str) -> (r: Result<PooledConnection, PerformanceError>)
        ensures
            final(self).spec_max() == old(self).spec_max(),
            final(self).spec_total() <= old(self).spec_total() + 1,
            old(self).spec_total() <= old(self).spec_max() ==> final(self).spec_total() <= final(self).spec_max(),
            r is Err <==> (old(self).spec_pool_of(url@).len() == 0 && old(self).spec_total() >= old(self).spec_max()),
            r matches Err(e) ==> e is PoolExhausted && final(self).spec_pools() == old(self).spec_pools()
                && final(self).spec_total() == old(self).spec_total(),
            (r is Ok && old(self).spec_pool_of(url@).len() > 0) ==> {
                &&& r->Ok_0 == old(self).spec_pool_of(url@)[0]
                &&& final(self).spec_pools() == old(self).spec_pools().insert(url@, old(self).spec_pool_of(url@).drop_first())
                &&& final(self).spec_total() == old(self).spec_total()
            },
            (r is Ok && old(self).spec_pool_of(url@).len() == 0) ==> {
                &&& r->Ok_0.url@ == url@
                &&& r->Ok_0.request_count == 0
                &&& r->Ok_0.is_connected
                &&& r->Ok_0.created_at == r->Ok_0.last_used
                &&& final(self).spec_pools() == old(self).spec_pools()
                &&& final(self).spec_total() == old(self).spec_total() + 1
            },
            exists|now: u64| #[trigger] taken_from_pool(*old(self), *final(self), url@, now, r),
    {
        let now = now_ms();
        let r = self.get_connection_at(url, now);
        assert(taken_from_pool(*old(self), *self, url@, now, r));
        r
    }

    /// Returns a connection at time `now`: a healthy one is pooled behind
    /// the others to its URL, an unhealthy one is dropped from the total.
    pub fn return_connection_at(&mut self, connection: PooledConnection, now: u64)
        requires
            connection_healthy(connection, now) || old(self).spec_total() > 0,
        ensures
            final(self).spec_max() == old(self).spec_max(),
            connection_healthy(connection, now) ==> {
                &&& final(self).spec_pools() == old(self).spec_pools().insert(connection.url@, old(self).spec_pool_of(connection.url@).push(connection))
                &&& final(self).spec_total() == old(self).spec_total()
            },
            !connection_healthy(connection, now) ==> {
                &&& final(self).spec_pools() == old(self).spec_pools()
                &&& final(self).spec_total() == old(self).spec_total() - 1
            },
    {
        let ghost old_pools = self.spec_pools();
        if connection.is_healthy_at(now) {
            let key = connection.url.clone();
            let mut v = match self.connections.remove(key.as_str()) {
                Some(v) => v,
                None => Vec::new(),
            };
            v.push(connection);
            self.connections.insert(key, v);
            assert(self.spec_pools() =~= old_pools.insert(connection.url@, old(self).spec_pool_of(connection.url@).push(connection)));
        } else {
            self.total_connections = self.total_connections - 1;
        }
    }

    /// Returns a connection: a healthy one is pooled, an unhealthy one is
    /// dropped from the total.
    pub fn return_connection(&mut self, connection: PooledConnection)
        requires
            old(self).spec_total() > 0,
        ensures
            final(self).spec_max() == old(self).spec_max(),
            final(self).spec_total() <= old(self).spec_total(),
            exists|now: u64| #[trigger] returned_to_pool(*old(self), *final(self), connection, now),
    {
        let now = now_ms();
        self.return_connection_at(connection, now);
        assert(returned_to_pool(*old(self), *self, connection, now));
    }

    /// Drops, at time `now`, the pooled connections idle since before the
    /// cutoff, and counts them out of the total.
    pub fn cleanup_idle_connections_at(&mut self, now: u64)
        requires
            idle_count(old(self).spec_pool_list(), idle_cutoff(now)) <= old(self).spec_total(),
        ensures
            final(self).spec_max() == old(self).spec_max(),
            final(self).spec_pools().dom() == old(self).spec_pools().dom(),
            forall|k: Seq<char>| #[trigger] final(self).spec_pools().dom().contains(k) ==>
                final(self).spec_pools()[k] == old(self).spec_pools()[k].filter(|c: PooledConnection| c.last_used > idle_cutoff(now)),
            final(self).spec_total() == old(self).spec_total() - idle_count(old(self).spec_pool_list(), idle_cutoff(now)),
    {
        let cutoff: u64 = if now >= MAX_IDLE_MS { now - MAX_IDLE_MS } else { 0 };
        let ghost pred = |c: PooledConnection| c.last_used > cutoff;
        let ghost old_list = self.spec_pool_list();
        let ghost old_map = self.connections@;
        let ghost old_keys = self.connections.key_seq();
        let n = self.connections.len();
        proof {
            assert forall|k: Seq<char>| #[trigger] old_map.dom().contains(k) <==> old_keys.contains(k) by {
                if old_keys.contains(k) {
                    let j = old_keys.index_of(k);
                }
            }
        }
        let mut i: usize = 0;
        while i < n
            invariant
                n == self.connections.spec_len(),
                n == old_list.len(),
                i <= n,
                cutoff == idle_cutoff(now),
                pred == (|c: PooledConnection| c.last_used > cutoff),
                self.connections.key_seq() == old_keys,
                self.connections.value_seq().len() == n,
                forall|j: int| 0 <= j < i ==> #[trigger] self.connections.value_seq()[j]@ == old_list[j].filter(pred),
                forall|j: int| i <= j < n ==> #[trigger] self.connections.value_seq()[j]@ == old_list[j],
                self.total_connections == old(self).spec_total() - idle_count(old_list.take(i as int), cutoff),
                idle_count(old_list, cutoff) <= old(self).spec_total(),
                old_list == old(self).spec_pool_list(),
                self.max_size == old(self).max_size,
            decreases n - i,
        {
            let mut rest = self.connections.replace_value_at(i, Vec::new());
            let ghost orig = rest@;
            proof { assert(orig == old_list[i as int]); }
            let mut kept: Vec<PooledConnection> = Vec::new();
            let mut removed: usize = 0;
            let m = rest.len();
            let mut j: usize = 0;
            while j < m
                invariant
                    m == orig.len(),
                    j <= m,
                    rest@ == orig.skip(j as int),
                    kept@ == orig.take(j as int).filter(pred),
                    removed == j - kept@.len(),
                    pred == (|c: PooledConnection| c.last_used > cutoff),
                    kept@.len() <= j,
                decreases m - j,
            {
                let c = rest.remove(0);
                proof {
                    assert(c == orig[j as int]);
                    assert(orig.take(j + 1).drop_last() == orig.take(j as int));
                    reveal_with_fuel(Seq::filter, 1);
                }
                if c.last_used > cutoff {
                    kept.push(c);
                } else {
                    removed = removed + 1;
                }
                proof { assert(rest@ =~= orig.skip(j + 1)); }
                j += 1;
            }
            proof {
                assert(orig.take(m as int) == orig);
                assert(old_list.take(i + 1).drop_last() == old_list.take(i as int));
                assert(old_list.take(i + 1).last() == orig);
                lemma_idle_prefix(old_list, cutoff, i + 1);
            }
            self.total_connections = self.total_connections - removed;
            self.connections.replace_value_at(i, kept);
            i += 1;
        }
        let _ = self.connections.len();
        proof {
            assert(old_list.take(n as int) == old_list);
            let cur = self.connections;
            assert forall|k: Seq<char>| #[trigger] self.spec_pools().dom().contains(k) <==> old(self).spec_pools().dom().contains(k) by {
                if cur.key_seq().contains(k) {
                    let j = cur.key_seq().index_of(k);
                    assert(cur@.dom().contains(cur.key_seq()[j]));
                }
            }
            assert(self.spec_pools().dom() =~= old(self).spec_pools().dom());
            assert forall|k: Seq<char>| #[trigger] self.spec_pools().dom().contains(k) implies
                self.spec_pools()[k] == old(self).spec_pools()[k].filter(pred) by {
                let j = cur.key_seq().index_of(k);
                assert(cur.key_seq()[j] == k);
                assert(old_keys[j] == k);
                assert(cur@[k] == cur.value_seq()[j]);
                assert(old_map[k] == old(self).connections.value_seq()[j]);
            }
        }
    }

    /// Drops the pooled connections idle for longer than `MAX_IDLE_MS`.
    pub fn cleanup_idle_connections(&mut self)
        requires
            pooled_count(old(self).spec_pool_list()) <= old(self).spec_total(),
        ensures
            final(self).spec_max() == old(self).spec_max(),
            final(self).spec_total() <= old(self).spec_total(),
            exists|now: u64| #[trigger] cleaned_at(*old(self), *final(self), now),
    {
        let now = now_ms();
        proof { lemma_idle_within_pooled(self.spec_pool_list(), idle_cutoff(now)); }
        self.cleanup_idle_connections_at(now);
        assert(cleaned_at(*old(self), *self, now));
    }

    /// The number of idle pooled connections, saturated to the range of `usize`.
    pub fn available_connections(&self) -> (n: usize)
        ensures
            n == (if pooled_count(self.spec_pool_list()) <= usize::MAX { pooled_count(self.spec_pool_list()) } else { usize::MAX as nat }),
    {
        let k = self.connections.len();
        let ghost list = self.spec_pool_list();
        let mut sum: usize = 0;
        let mut i: usize = 0;
        while i < k
            invariant
                k == self.connections.spec_len(),
                self.connections.value_seq().len() == k,
                list == self.spec_pool_list(),
                list.len() == k,
                i <= k,
                sum == (if pooled_count(list.take(i as int)) <= usize::MAX { pooled_count(list.take(i as int)) } else { usize::MAX as nat }),
            decreases k - i,
        {
            let (_url, v) = self.connections.entry_at(i);
            proof {
                assert(list.take(i + 1).drop_last() == list.take(i as int));
                assert(list[i as int] == v@);
            }
            sum = sum.saturating_add(v.len());
            i += 1;
        }
        proof { assert(list.take(k as int) == list); }
        sum
    }

    /// Drops up to `count` pooled connections, taking the oldest first, URL
    /// by URL in the order the URLs were first pooled, and counts them out of
    /// the total.
    pub fn simulate_connection_failure(&mut self, count: usize)
        requires
            (if count <= pooled_count(old(self).spec_pool_list()) { count as nat } else { pooled_count(old(self).spec_pool_list()) }) <= old(self).spec_total(),
        ensures
            final(self).spec_max() == old(self).spec_max(),
            final(self).spec_pools().dom() == old(self).spec_pools().dom(),
            final(self).spec_total() == old(self).spec_total()
                - (if count <= pooled_count(old(self).spec_pool_list()) { count as nat } else { pooled_count(old(self).spec_pool_list()) }),
            pooled_count(final(self).spec_pool_list()) == pooled_count(old(self).spec_pool_list())
                - (if count <= pooled_count(old(self).spec_pool_list()) { count as nat } else { pooled_count(old(self).spec_pool_list()) }),
    {
        let ghost old_list = self.spec_pool_list();
        let ghost old_keys = self.connections.key_seq();
        let ghost old_map = self.connections@;
        let n = self.connections.len();
        let mut removed: usize = 0;
        let mut i: usize = 0;
        while i < n && removed < count
            invariant
                n == self.connections.spec_len(),
                n == old_list.len(),
                i <= n,
                removed <= count,
                self.connections.key_seq() == old_keys,
                self.connections.value_seq().len() == n,
                old_list == old(self).spec_pool_list(),
                self.spec_pool_list().len() == n,
                removed == pooled_count(old_list.take(i as int)) - pooled_count(self.spec_pool_list().take(i as int)),
                pooled_count(self.spec_pool_list().take(i as int)) <= pooled_count(old_list.take(i as int)),
                removed < count ==> pooled_count(self.spec_pool_list().take(i as int)) == 0,
                forall|j: int| i <= j < n ==> #[trigger] self.spec_pool_list()[j] == old_list[j],
                self.total_connections == old(self).spec_total(),
                self.max_size == old(self).max_size,
            decreases n - i,
        {
            let ghost l0 = self.spec_pool_list();
            let ghost vs0 = self.connections.value_seq();
            let mut pool = self.connections.replace_value_at(i, Vec::new());
            let ghost before = pool@;
            let ghost r0 = removed as int;
            proof {
                assert(l0[i as int] == vs0[i as int]@);
                assert(before == old_list[i as int]);
                assert(self.spec_pool_list().take(i as int) =~= l0.take(i as int));
            }
            while removed < count && pool.len() > 0
                invariant
                    removed <= count,
                    pool@.len() <= before.len(),
                    removed == r0 + (before.len() - pool@.len()),
                    pool@.len() < before.len() ==> r0 < count,
                decreases pool@.len(),
            {
                pool.remove(0);
                removed = removed + 1;
            }
            let ghost after = pool@;
            self.connections.replace_value_at(i, pool);
            proof {
                let l2 = self.spec_pool_list();
                assert(l2.take(i as int) =~= l0.take(i as int));
                assert(l2[i as int] == after);
                assert(l2.take(i + 1).drop_last() =~= l2.take(i as int));
                assert(old_list.take(i + 1).drop_last() =~= old_list.take(i as int));
                assert(l2.take(i + 1).last() == after);
                assert(old_list.take(i + 1).last() == before);
                assert forall|j: int| i + 1 <= j < n implies #[trigger] l2[j] == old_list[j] by {
                    assert(l2[j] == l0[j]);
                }
            }
            i += 1;
        }
        proof {
            let cur_list = self.spec_pool_list();
            lemma_pooled_split(old_list, i as int);
            lemma_pooled_split(cur_list, i as int);
            assert(cur_list.skip(i as int) =~= old_list.skip(i as int));
            if i < n {
                assert(removed == count);
            } else {
                assert(old_list.take(i as int) == old_list);
                assert(cur_list.take(i as int) == cur_list);
            }
        }
        self.total_connections = self.total_connections - removed;
        let _ = self.connections.len();
        proof {
            let cur = self.connections;
            assert forall|k: Seq<char>| #[trigger] self.spec_pools().dom().contains(k) <==> old(self).spec_pools().dom().contains(k) by {
                if cur.key_seq().contains(k) {
                    let j = cur.key_seq().index_of(k);
                    assert(cur@.dom().contains(cur.key_seq()[j]));
                }
            }
            assert(self.spec_pools().dom() =~= old(self).spec_pools().dom());
        }
    }

    /// The number of connections handed out or pooled.
    pub fn active_connections(&self) -> (n: usize)
        ensures
            n == self.spec_total(),
    {
        self.total_connections
    }

    /// The maximum number of connections.
    pub fn max_connections(&self) -> (n: usize)
        ensures
            n == self.spec_max(),
    {
        self.max_size
    }
}

/// Whether, at time `now`, messages wait in `b` and either the batch is
/// full or the timeout has passed since the last flush.
pub open spec fn flush_due(b: MessageBatcher, now: u64) -> bool {
    b.spec_pending().len() > 0 && (b.spec_pending().len() >= b.spec_batch_size()
        || time_since(b.spec_last_flush(), now) >= b.spec_timeout_ms())
}

/// Message batcher for improving throughput
pub struct MessageBatcher {
    batch_size: usize,
    batch_timeout_ms: u64,
    pending_messages: Vec<Vec<u8>>,
    last_flush: u64,
}

impl MessageBatcher {
    /// The messages waiting, oldest first.
    pub closed spec fn spec_pending(&self) -> Seq<Vec<u8>> {
        self.pending_messages@
    }

    pub closed spec fn spec_batch_size(&self) -> nat {
        self.batch_size as nat
    }

    pub closed spec fn spec_timeout_ms(&self) -> u64 {
        self.batch_timeout_ms
    }

    /// Time of the last flush, in milliseconds.
    pub closed spec fn spec_last_flush(&self) -> u64 {
        self.last_flush
    }

    /// An empty batcher, last flushed at time `now`.
    pub fn new_at(batch_size: usize, batch_timeout: Duration, now: u64) -> (b: Self)
        ensures
            b.spec_pending().len() == 0,
            b.spec_batch_size() == batch_size,
            b.spec_timeout_ms() == saturated_ms(batch_timeout),
            b.spec_last_flush() == now,
    {
        Self { batch_size, batch_timeout_ms: duration_to_ms(batch_timeout), pending_messages: Vec::new(), last_flush: now }
    }

    pub fn new(batch_size: usize, batch_timeout: Duration) -> (b: Self)
        ensures
            b.spec_pending().len() == 0,
            b.spec_batch_size() == batch_size,
            b.spec_timeout_ms() == saturated_ms(batch_timeout),
    {
        Self::new_at(batch_size, batch_timeout, now_ms())
    }

    /// Queues a message at time `now`; once the batch is full it is flushed
    /// and the flushed messages are dropped.
    pub fn add_message_at(&mut self, message: Vec<u8>, now: u64) -> (r: Result<(), PerformanceError>)
        ensures
            r is Ok,
            final(self).spec_batch_size() == old(self).spec_batch_size(),
            final(self).spec_timeout_ms() == old(self).spec_timeout_ms(),
            if old(self).spec_pending().len() + 1 >= old(self).spec_batch_size() {
                final(self).spec_pending().len() == 0 && final(self).spec_last_flush() == now
            } else {
                final(self).spec_pending() == old(self).spec_pending().push(message)
                    && final(self).spec_last_flush() == old(self).spec_last_flush()
            },
    {
        self.pending_messages.push(message);
        if self.pending_messages.len() >= self.batch_size {
            let _ = self.flush_messages_at(now);
        }
        Ok(())
    }

    /// Queues a message; once the batch is full it is flushed and the
    /// flushed messages are dropped.
    pub fn add_message(&mut self, message: Vec<u8>) -> (r: Result<(), PerformanceError>)
        ensures
            r is Ok,
            final(self).spec_batch_size() == old(self).spec_batch_size(),
            final(self).spec_timeout_ms() == old(self).spec_timeout_ms(),
            if old(self).spec_pending().len() + 1 >= old(self).spec_batch_size() {
                final(self).spec_pending().len() == 0
            } else {
                final(self).spec_pending() == old(self).spec_pending().push(message)
                    && final(self).spec_last_flush() == old(self).spec_last_flush()
            },
    {
        self.add_message_at(message, now_ms())
    }

    /// Takes every waiting message, oldest first, flushing at time `now`.
    pub fn flush_messages_at(&mut self, now: u64) -> (r: Vec<Vec<u8>>)
        ensures
            r@ == old(self).spec_pending(),
            final(self).spec_pending().len() == 0,
            final(self).spec_last_flush() == now,
            final(self).spec_batch_size() == old(self).spec_batch_size(),
            final(self).spec_timeout_ms() == old(self).spec_timeout_ms(),
    {
        let mut messages: Vec<Vec<u8>> = Vec::new();
        std::mem::swap(&mut messages, &mut self.pending_messages);
        self.last_flush = now;
        messages
    }

    /// Takes every waiting message, oldest first.
    pub fn flush_messages(&mut self) -> (r: Vec<Vec<u8>>)
        ensures
            r@ == old(self).spec_pending(),
            final(self).spec_pending().len() == 0,
            final(self).spec_batch_size() == old(self).spec_batch_size(),
            final(self).spec_timeout_ms() == old(self).spec_timeout_ms(),
    {
        self.flush_messages_at(now_ms())
    }

    /// Whether, at time `now`, messages wait and either the batch is full or
    /// the timeout has passed since the last flush.
    pub fn should_flush_at(&self, now: u64) -> (b: bool)
        ensures
            b == flush_due(*self, now),
    {
        self.pending_messages.len() > 0 && (self.pending_messages.len() >= self.batch_size
            || since(self.last_flush, now) >= self.batch_timeout_ms)
    }

    pub fn should_flush(&self) -> (b: bool)
        ensures
            b ==> self.spec_pending().len() > 0,
            (self.spec_pending().len() > 0 && self.spec_pending().len() >= self.spec_batch_size()) ==> b,
            exists|now: u64| b == #[trigger] flush_due(*self, now),
    {
        let now = now_ms();
        let b = self.should_flush_at(now);
        assert(b == flush_due(*self, now));
        b
    }

    pub fn pending_count(&self) -> (n: usize)
        ensures
            n == self.spec_pending().len(),
    {
        self.pending_messages.len()
    }

    /// The batch size in use.
    pub fn get_optimal_batch_size(&self) -> (n: usize)
        ensures
            n == self.spec_batch_size(),
    {
        self.batch_size
    }
}

/// A cached value with its creation and expiry times in milliseconds.
struct CacheEntry {
    value: Vec<u8>,
    created_at: u64,
    expires_at: u64,
    access_count: u64,
}

/// What the cache keeps for a key: the value, when it was stored and when
/// it expires.
pub struct CachedValue {
    pub value: Seq<u8>,
    pub created_at: u64,
    pub expires_at: u64,
}

/// The expiry of an entry stored at `now`: the time to live later, or the
/// end of the clock's range.
pub open spec fn expiry(now: u64, ttl_ms: u64) -> u64 {
    if now + ttl_ms <= u64::MAX { (now + ttl_ms) as u64 } else { u64::MAX }
}

/// `k` is a key of `m` stored no later than any other.
pub open spec fn is_oldest(m: Map<Seq<char>, CachedValue>, k: Seq<char>) -> bool {
    m.dom().contains(k) && forall|k2: Seq<char>| #[trigger] m.dom().contains(k2) ==> m[k].created_at <= m[k2].created_at
}

/// What is cached is read back until it expires: a value stored under a key
/// at time `now` is found, unexpired, at any time `t` from `now` until the
/// time to live has passed.
pub proof fn lemma_cache_read_after_write(after: Map<Seq<char>, CachedValue>, key: Seq<char>, value: Seq<u8>, now: u64, ttl_ms: u64, t: u64)
    requires
        after.dom().contains(key),
        after[key] == (CachedValue { value, created_at: now, expires_at: expiry(now, ttl_ms) }),
        now <= t,
        t < now + ttl_ms,
        now + ttl_ms <= u64::MAX,
    ensures
        after[key].expires_at > t,
        after[key].value == value,
{
}

/// The answer `r` of a cache holding `entries` to a read of `key` at time
/// `now`: the stored value while it has not expired, otherwise nothing.
pub open spec fn cache_answer(entries: Map<Seq<char>, CachedValue>, key: Seq<char>, now: u64, r: Option<Vec<u8>>) -> bool {
    match r {
        Some(v) => entries.dom().contains(key) && entries[key].expires_at > now && v@ == entries[key].value,
        None => !entries.dom().contains(key) || entries[key].expires_at <= now,
    }
}

/// `after` holds exactly the entries of `before` that have not expired at
/// time `now`, unchanged.
pub open spec fn expired_dropped(before: Map<Seq<char>, CachedValue>, after: Map<Seq<char>, CachedValue>, now: u64) -> bool {
    &&& forall|k: Seq<char>| #[trigger] after.dom().contains(k) <==> (before.dom().contains(k) && before[k].expires_at > now)
    &&& forall|k: Seq<char>| #[trigger] after.dom().contains(k) ==> after[k] == before[k]
}

/// `after` holds the entries of `before` with `value` stored under `key` at
/// time `now`, to expire after `ttl`; when `before` is at its bound of
/// `max` entries, an entry stored no later than any other is evicted first.
pub open spec fn stored_at(before: Map<Seq<char>, CachedValue>, after: Map<Seq<char>, CachedValue>, max: nat, ttl: u64, key: Seq<char>, value: Seq<u8>, now: u64) -> bool {
    let entry = CachedValue { value: value, created_at: now, expires_at: expiry(now, ttl) };
    if before.dom().len() >= max && before.dom().len() > 0 {
        exists|k: Seq<char>| #[trigger] is_oldest(before, k) && after == before.remove(k).insert(key, entry)
    } else {
        after == before.insert(key, entry)
    }
}

/// High-performance message cache with a time to live and a size bound.
pub struct MessageCache {
    cache: StrMap<CacheEntry>,
    max_size: usize,
    ttl_ms: u64,
}

impl MessageCache {
    /// The cached values, by key.
    pub closed spec fn spec_entries(&self) -> Map<Seq<char>, CachedValue> {
        Map::new(
            |k: Seq<char>| self.cache@.dom().contains(k),
            |k: Seq<char>| CachedValue {
                value: self.cache@[k].value@,
                created_at: self.cache@[k].created_at,
                expires_at: self.cache@[k].expires_at,
            },
        )
    }

    pub closed spec fn spec_max_size(&self) -> nat {
        self.max_size as nat
    }

    pub closed spec fn spec_ttl_ms(&self) -> u64 {
        self.ttl_ms
    }

    /// The cache holds no more entries than its capacity, or one when the
    /// capacity is zero.
    pub open spec fn within_capacity(&self) -> bool {
        self.spec_entries().dom().len() <= if self.spec_max_size() == 0 { 1 } else { self.spec_max_size() }
    }

    pub fn new(max_size: usize, ttl: Duration) -> (c: Self)
        ensures
            c.spec_entries() == Map::<Seq<char>, CachedValue>::empty(),
            c.spec_max_size() == max_size,
            c.spec_ttl_ms() == saturated_ms(ttl),
            c.within_capacity(),
    {
        let c = Self { cache: StrMap::new(), max_size, ttl_ms: duration_to_ms(ttl) };
        assert(c.spec_entries() =~= Map::<Seq<char>, CachedValue>::empty());
        c
    }

    /// The value under `key` if it has not expired at time `now`.
    pub fn get_at(&self, key: &str, now: u64) -> (r: Option<Vec<u8>>)
        ensures
            match r {
                Some(v) => self.spec_entries().dom().contains(key@)
                    && self.spec_entries()[key@].expires_at > now
                    && v@ == self.spec_entries()[key@].value,
                None => !self.spec_entries().dom().contains(key@)
                    || self.spec_entries()[key@].expires_at <= now,
            },
    {
        match self.cache.get(key) {
            Some(entry) => if entry.expires_at > now {
                Some(copy_bytes(entry.value.as_slice()))
            } else {
                None
            },
            None => None,
        }
    }

    /// The value under `key` if it has not expired.
    pub fn get(&self, key: &str) -> (r: Option<Vec<u8>>)
        ensures
            r matches Some(v) ==> self.spec_entries().dom().contains(key@) && v@ == self.spec_entries()[key@].value,
            exists|now: u64| #[trigger] cache_answer(self.spec_entries(), key@, now, r),
    {
        let now = now_ms();
        let r = self.get_at(key, now);
        assert(cache_answer(self.spec_entries(), key@, now, r));
        r
    }

    /// The position of an entry stored no later than any other.
    fn oldest_index(&self) -> (i: usize)
        requires
            self.cache.spec_len() > 0,
        ensures
            i < self.cache.spec_len(),
            is_oldest(self.spec_entries(), self.cache.key_seq()[i as int]),
    {
        let n = self.cache.len();
        let mut best: usize = 0;
        let mut i: usize = 1;
        while i < n
            invariant
                n == self.cache.spec_len(),
                self.cache.value_seq().len() == n,
                1 <= i <= n,
                best < i,
                forall|j: int| 0 <= j < i ==> self.cache.value_seq()[best as int].created_at <= #[trigger] self.cache.value_seq()[j].created_at,
            decreases n - i,
        {
            let (_k, e) = self.cache.entry_at(i);
            let (_kb, eb) = self.cache.entry_at(best);
            if e.created_at < eb.created_at {
                best = i;
            }
            i += 1;
        }
        let _ = self.cache.len();
        proof {
            let ks = self.cache.key_seq();
            assert forall|k2: Seq<char>| #[trigger] self.spec_entries().dom().contains(k2)
                implies self.spec_entries()[ks[best as int]].created_at <= self.spec_entries()[k2].created_at by {
                let j = ks.index_of(k2);
                assert(ks[j] == k2);
            }
        }
        best
    }

    /// Stores `value` under `key` at time `now`, to expire after the time to
    /// live; at capacity, an entry stored no later than any other is evicted
    /// first.
    pub fn set_at(&mut self, key: String, value: Vec<u8>, now: u64)
        ensures
            final(self).spec_max_size() == old(self).spec_max_size(),
            final(self).spec_ttl_ms() == old(self).spec_ttl_ms(),
            stored_at(old(self).spec_entries(), final(self).spec_entries(), old(self).spec_max_size(), old(self).spec_ttl_ms(), key@, value@, now),
            old(self).within_capacity() ==> final(self).within_capacity(),
    {
        let ghost old_entries = self.spec_entries();
        let ghost entry = CachedValue { value: value@, created_at: now, expires_at: expiry(now, self.ttl_ms) };
        let n = self.cache.len();
        assert(old_entries.dom() =~= self.cache@.dom());
        let ghost mut evicted: Seq<char> = Seq::empty();
        if n >= self.max_size && n > 0 {
            let i = self.oldest_index();
            let (k, _e) = self.cache.entry_at(i);
            let k = k.clone();
            proof { evicted = k@; }
            let _ = self.cache.remove(k.as_str());
            assert(self.spec_entries() =~= old_entries.remove(evicted));
        }
        let key_view = Ghost(key@);
        self.cache.insert(key, CacheEntry {
            value,
            created_at: now,
            expires_at: if now <= u64::MAX - self.ttl_ms { now + self.ttl_ms } else { u64::MAX },
            access_count: 1,
        });
        let _ = self.cache.len();
        proof {
            if n >= self.max_size && n > 0 {
                assert(self.spec_entries() =~= old_entries.remove(evicted).insert(key_view@, entry));
                assert(is_oldest(old_entries, evicted));
                assert(old_entries.remove(evicted).dom().len() == n - 1);
            } else {
                assert(self.spec_entries() =~= old_entries.insert(key_view@, entry));
            }
            assert(self.spec_entries().dom() =~= self.cache@.dom());
        }
    }

    /// Stores `value` under `key`, to expire after the time to live; at
    /// capacity, an entry stored no later than any other is evicted first.
    pub fn set(&mut self, key: String, value: Vec<u8>)
        ensures
            final(self).spec_entries().dom().contains(key@),
            final(self).spec_entries()[key@].value == value@,
            old(self).within_capacity() ==> final(self).within_capacity(),
            final(self).spec_max_size() == old(self).spec_max_size(),
            final(self).spec_ttl_ms() == old(self).spec_ttl_ms(),
            exists|now: u64| #[trigger] stored_at(old(self).spec_entries(), final(self).spec_entries(),
                old(self).spec_max_size(), old(self).spec_ttl_ms(), key@, value@, now),
    {
        let now = now_ms();
        let ghost k = key@;
        let ghost v = value@;
        self.set_at(key, value, now);
        assert(stored_at(old(self).spec_entries(), self.spec_entries(), old(self).spec_max_size(), old(self).spec_ttl_ms(), k, v, now));
    }

    /// Drops the entries expired at time `now`.
    pub fn cleanup_expired_at(&mut self, now: u64)
        ensures
            final(self).spec_max_size() == old(self).spec_max_size(),
            final(self).spec_ttl_ms() == old(self).spec_ttl_ms(),
            forall|k: Seq<char>| #[trigger] final(self).spec_entries().dom().contains(k) <==>
                (old(self).spec_entries().dom().contains(k) && old(self).spec_entries()[k].expires_at > now),
            forall|k: Seq<char>| #[trigger] final(self).spec_entries().dom().contains(k) ==>
                final(self).spec_entries()[k] == old(self).spec_entries()[k],
            old(self).within_capacity() ==> final(self).within_capacity(),
    {
        let ghost old_map = self.cache;
        let n = self.cache.len();
        let mut keep: Vec<bool> = Vec::new();
        let mut i: usize = 0;
        while i < n
            invariant
                n == self.cache.spec_len(),
                self.cache.value_seq().len() == n,
                i <= n,
                keep@.len() == i,
                forall|j: int| 0 <= j < i ==> keep@[j] == (self.cache.value_seq()[j].expires_at > now),
            decreases n - i,
        {
            let (_k, e) = self.cache.entry_at(i);
            keep.push(e.expires_at > now);
            i += 1;
        }
        self.cache.retain_flags(&keep);
        let _ = self.cache.len();
        proof {
            assert forall|k: Seq<char>| #[trigger] self.spec_entries().dom().contains(k) <==>
                (old(self).spec_entries().dom().contains(k) && old(self).spec_entries()[k].expires_at > now) by {
                if old_map@.dom().contains(k) {
                    let j = old_map.key_seq().index_of(k);
                    assert(old_map.key_seq()[j] == k);
                }
            }
            assert(self.spec_entries().dom() =~= self.cache@.dom());
            assert(old(self).spec_entries().dom() =~= old_map@.dom());
            assert(self.cache@.dom().subset_of(old_map@.dom()));
            vstd::set_lib::lemma_len_subset(self.cache@.dom(), old_map@.dom());
        }
    }

    /// Drops the entries expired now.
    pub fn cleanup_expired(&mut self)
        ensures
            forall|k: Seq<char>| #[trigger] final(self).spec_entries().dom().contains(k) ==>
                old(self).spec_entries().dom().contains(k) && final(self).spec_entries()[k] == old(self).spec_entries()[k],
            old(self).within_capacity() ==> final(self).within_capacity(),
            final(self).spec_max_size() == old(self).spec_max_size(),
            final(self).spec_ttl_ms() == old(self).spec_ttl_ms(),
            exists|now: u64| #[trigger] expired_dropped(old(self).spec_entries(), final(self).spec_entries(), now),
    {
        let now = now_ms();
        self.cleanup_expired_at(now);
        assert(expired_dropped(old(self).spec_entries(), self.spec_entries(), now));
    }

    /// The number of entries held.
    pub fn len(&self) -> (n: usize)
        ensures
            n == self.spec_entries().dom().len(),
    {
        let n = self.cache.len();
        assert(self.spec_entries().dom() =~= self.cache@.dom());
        n
    }

    /// The number of entries the cache is meant to hold.
    pub fn capacity(&self) -> (n: usize)
        ensures
            n == self.spec_max_size(),
    {
        self.max_size
    }
}

/// Timing statistics of one span name; durations in whole nanoseconds.
#[derive(Debug, Clone)]
pub struct SpanStats {
    pub count: usize,
    pub average: Duration,
    pub min: Duration,
    pub max: Duration,
    pub total: Duration,
}

/// The least of the samples.
pub open spec fn seq_min(s: Seq<u64>) -> u64
    decreases s.len(),
{
    if s.len() <= 1 { s[0] } else if s.last() < seq_min(s.drop_last()) { s.last() } else { seq_min(s.drop_last()) }
}

/// The greatest of the samples.
pub open spec fn seq_max(s: Seq<u64>) -> u64
    decreases s.len(),
{
    if s.len() <= 1 { s[0] } else if s.last() > seq_max(s.drop_last()) { s.last() } else { seq_max(s.drop_last()) }
}

/// `st` gives, in whole nanoseconds, the statistics of the samples `s`:
/// their number, mean (rounded down), least, greatest and sum (saturated to
/// the range of `u64`).
pub open spec fn span_stats_match(st: SpanStats, s: Seq<u64>) -> bool {
    let sum = crate::metrics::sample_sum(s);
    &&& st.count == s.len()
    &&& duration_nanos(st.average) == sum / s.len()
    &&& duration_nanos(st.min) == seq_min(s)
    &&& duration_nanos(st.max) == seq_max(s)
    &&& duration_nanos(st.total) == (if sum <= u64::MAX { sum } else { u64::MAX as nat })
}

/// The samples after the span `name`, started as `active` records, ends at
/// time `now`: its length in nanoseconds joins the samples of `name`; a
/// span that was not started changes nothing.
pub open spec fn samples_after_end(active: Map<Seq<char>, u64>, samples: Map<Seq<char>, Seq<u64>>, name: Seq<char>, now: u64) -> Map<Seq<char>, Seq<u64>> {
    if active.dom().contains(name) {
        samples.insert(
            name,
            (if samples.dom().contains(name) { samples[name] } else { Seq::<u64>::empty() })
                .push(time_since(active[name], now)),
        )
    } else {
        samples
    }
}

/// Performance profiler for hot path optimization: spans are started and
/// ended by name; each end adds a sample.
pub struct PerformanceProfiler {
    samples: StrMap<Vec<u64>>,
    active_spans: StrMap<u64>,
}

impl PerformanceProfiler {
    #[verifier::type_invariant]
    closed spec fn samples_nonempty(self) -> bool {
        forall|k: Seq<char>| #[trigger] self.samples@.dom().contains(k) ==> self.samples@[k]@.len() > 0
    }

    /// The samples in nanoseconds, by span name, in the order recorded.
    pub closed spec fn spec_samples(&self) -> Map<Seq<char>, Seq<u64>> {
        Map::new(|k: Seq<char>| self.samples@.dom().contains(k), |k: Seq<char>| self.samples@[k]@)
    }

    /// The start times of the running spans, by name.
    pub closed spec fn spec_active(&self) -> Map<Seq<char>, u64> {
        self.active_spans@
    }

    pub fn new() -> (p: Self)
        ensures
            p.spec_samples() == Map::<Seq<char>, Seq<u64>>::empty(),
            p.spec_active() == Map::<Seq<char>, u64>::empty(),
    {
        let p = Self { samples: StrMap::new(), active_spans: StrMap::new() };
        assert(p.spec_samples() =~= Map::<Seq<char>, Seq<u64>>::empty());
        p
    }

    /// Starts (or restarts) the span `name` at time `now` (nanoseconds since
    /// the UNIX epoch).
    pub fn start_span_at(&mut self, name: &str, now: u64)
        ensures
            final(self).spec_active() == old(self).spec_active().insert(name@, now),
            final(self).spec_samples() == old(self).spec_samples(),
    {
        proof { use_type_invariant(&*self); }
        let mut active: StrMap<u64> = StrMap::new();
        std::mem::swap(&mut active, &mut self.active_spans);
        active.insert(name.to_string(), now);
        self.active_spans = active;
        assert(self.spec_samples() =~= old(self).spec_samples());
    }

    pub fn start_span(&mut self, name: &str)
        ensures
            final(self).spec_active().dom() == old(self).spec_active().dom().insert(name@),
            final(self).spec_samples() == old(self).spec_samples(),
            exists|now: u64| final(self).spec_active() == #[trigger] old(self).spec_active().insert(name@, now),
    {
        let now = now_ns();
        self.start_span_at(name, now);
        assert(self.spec_active() == old(self).spec_active().insert(name@, now));
    }

    /// Ends the span `name` at time `now`, adding its length as a sample;
    /// a span that is not running is ignored.
    pub fn end_span_at(&mut self, name: &str, now: u64)
        ensures
            final(self).spec_active() == old(self).spec_active().remove(name@),
            final(self).spec_samples() == samples_after_end(old(self).spec_active(), old(self).spec_samples(), name@, now),
    {
        proof { use_type_invariant(&*self); }
        let mut active: StrMap<u64> = StrMap::new();
        std::mem::swap(&mut active, &mut self.active_spans);
        let started = active.remove(name);
        self.active_spans = active;
        match started {
            Some(start) => {
                let d = since(start, now);
                let mut table: StrMap<Vec<u64>> = StrMap::new();
                std::mem::swap(&mut table, &mut self.samples);
                let ghost old_table = table@;
                let mut v = match table.remove(name) {
                    Some(v) => v,
                    None => Vec::new(),
                };
                v.push(d);
                table.insert(name.to_string(), v);
                proof {
                    assert forall|k: Seq<char>| #[trigger] table@.dom().contains(k) implies table@[k]@.len() > 0 by {
                        if k != name@ {
                            assert(old_table.dom().contains(k));
                        }
                    }
                }
                self.samples = table;
                assert(self.spec_samples() =~= old(self).spec_samples().insert(
                    name@,
                    (if old(self).spec_samples().dom().contains(name@) { old(self).spec_samples()[name@] } else { Seq::<u64>::empty() })
                        .push(d),
                ));
            },
            None => {
                assert(self.spec_samples() =~= old(self).spec_samples());
            },
        }
    }

    pub fn end_span(&mut self, name: &str)
        ensures
            final(self).spec_active() == old(self).spec_active().remove(name@),
            final(self).spec_samples().dom() == if old(self).spec_active().dom().contains(name@) {
                old(self).spec_samples().dom().insert(name@)
            } else {
                old(self).spec_samples().dom()
            },
            forall|k: Seq<char>| k != name@ && #[trigger] old(self).spec_samples().dom().contains(k)
                ==> final(self).spec_samples()[k] == old(self).spec_samples()[k],
            !old(self).spec_active().dom().contains(name@) ==> final(self).spec_samples() == old(self).spec_samples(),
            old(self).spec_active().dom().contains(name@) ==> final(self).spec_samples()[name@].drop_last()
                == (if old(self).spec_samples().dom().contains(name@) { old(self).spec_samples()[name@] } else { Seq::<u64>::empty() }),
            exists|now: u64| final(self).spec_samples() == #[trigger] samples_after_end(old(self).spec_active(), old(self).spec_samples(), name@, now),
    {
        let now = now_ns();
        self.end_span_at(name, now);
        assert(self.spec_samples() == samples_after_end(old(self).spec_active(), old(self).spec_samples(), name@, now));
        assert(self.spec_samples().dom() =~= if old(self).spec_active().dom().contains(name@) {
            old(self).spec_samples().dom().insert(name@)
        } else {
            old(self).spec_samples().dom()
        });
    }

    /// Statistics of the samples of `name`, or `None` if it never ended.
    pub fn get_stats(&self, name: &str) -> (r: Option<SpanStats>)
        ensures
            match r {
                None => !self.spec_samples().dom().contains(name@),
                Some(st) => self.spec_samples().dom().contains(name@)
                    && self.spec_samples()[name@].len() >= 1
                    && st.count >= 1
                    && span_stats_match(st, self.spec_samples()[name@]),
            },
    {
        proof { use_type_invariant(self); }
        match self.samples.get(name) {
            None => None,
            Some(samples) => {
                let n = samples.len();
                let mut min: u64 = samples[0];
                let mut max: u64 = samples[0];
                let mut i: usize = 1;
                while i < n
                    invariant
                        n == samples@.len(),
                        1 <= i <= n,
                        min == seq_min(samples@.take(i as int)),
                        max == seq_max(samples@.take(i as int)),
                    decreases n - i,
                {
                    proof { assert(samples@.take(i + 1).drop_last() == samples@.take(i as int)); }
                    if samples[i] < min {
                        min = samples[i];
                    }
                    if samples[i] > max {
                        max = samples[i];
                    }
                    i += 1;
                }
                proof { assert(samples@.take(n as int) == samples@); }
                let sum = crate::metrics::sum_of(samples);
                proof {
                    crate::metrics::lemma_sample_sum_bound(samples@);
                    assert(sum / (n as u128) <= u64::MAX) by (nonlinear_arith)
                        requires sum <= n * (u64::MAX as int), n > 0;
                }
                let avg = (sum / (n as u128)) as u64;
                let total: u64 = if sum <= u64::MAX as u128 { sum as u64 } else { u64::MAX };
                Some(SpanStats {
                    count: n,
                    average: duration_from_ns(avg),
                    min: duration_from_ns(min),
                    max: duration_from_ns(max),
                    total: duration_from_ns(total),
                })
            },
        }
    }
}

impl Default for PerformanceProfiler {
    fn default() -> (p: Self)
        ensures
            p.spec_samples() == Map::<Seq<char>, Seq<u64>>::empty(),
            p.spec_active() == Map::<Seq<char>, u64>::empty(),
    {
        Self::new()
    }
}

/// Performance manager coordinating pooling, batching, caching and the
/// resource monitors.
pub struct PerformanceManager {
    config: PerformanceConfig,
    connection_pool: Option<ConnectionPool>,
    message_batcher: Option<MessageBatcher>,
    cache: Option<MessageCache>,
    memory_monitor: Option<manager::MemoryMonitor>,
    cpu_throttler: Option<manager::CpuThrottler>,
    network_optimizer: Option<manager::NetworkOptimizer>,
}

impl PerformanceManager {
    pub closed spec fn spec_config(&self) -> PerformanceConfig {
        self.config
    }

    pub closed spec fn spec_pool(&self) -> Option<ConnectionPool> {
        self.connection_pool
    }

    pub closed spec fn spec_batcher(&self) -> Option<MessageBatcher> {
        self.message_batcher
    }

    pub closed spec fn spec_cache(&self) -> Option<MessageCache> {
        self.cache
    }

    /// A manager with the parts that `config` enables.
    pub fn new(config: PerformanceConfig) -> (m: Self)
        ensures
            m.spec_config() == config,
            m.spec_pool() is Some <==> config.enable_connection_pooling,
            m.spec_pool() matches Some(p) ==> p.spec_max() == config.max_pool_size && p.spec_total() == 0
                && p.spec_pools() == Map::<Seq<char>, Seq<PooledConnection>>::empty(),
            m.spec_batcher() is Some <==> config.enable_message_batching,
            m.spec_batcher() matches Some(b) ==> b.spec_batch_size() == config.batch_size
                && b.spec_timeout_ms() == saturated_ms(config.batch_timeout) && b.spec_pending().len() == 0,
            m.spec_cache() is Some <==> config.enable_caching,
            m.spec_cache() matches Some(c) ==> c.spec_max_size() == config.cache_size
                && c.spec_ttl_ms() == saturated_ms(config.cache_ttl)
                && c.spec_entries() == Map::<Seq<char>, CachedValue>::empty(),
    {
        Self::new_with_config(config)
    }

    fn new_with_config(config: PerformanceConfig) -> (m: Self)
        ensures
            m.spec_config() == config,
            m.spec_pool() is Some <==> config.enable_connection_pooling,
            m.spec_pool() matches Some(p) ==> p.spec_max() == config.max_pool_size && p.spec_total() == 0
                && p.spec_pools() == Map::<Seq<char>, Seq<PooledConnection>>::empty(),
            m.spec_batcher() is Some <==> config.enable_message_batching,
            m.spec_batcher() matches Some(b) ==> b.spec_batch_size() == config.batch_size
                && b.spec_timeout_ms() == saturated_ms(config.batch_timeout) && b.spec_pending().len() == 0,
            m.spec_cache() is Some <==> config.enable_caching,
            m.spec_cache() matches Some(c) ==> c.spec_max_size() == config.cache_size
                && c.spec_ttl_ms() == saturated_ms(config.cache_ttl)
                && c.spec_entries() == Map::<Seq<char>, CachedValue>::empty(),
    {
        let connection_pool = if config.enable_connection_pooling {
            Some(ConnectionPool::new_simple(config.max_pool_size))
        } else {
            None
        };
        let message_batcher = if config.enable_message_batching {
            Some(MessageBatcher::new(config.batch_size, config.batch_timeout))
        } else {
            None
        };
        let cache = if config.enable_caching {
            Some(MessageCache::new(config.cache_size, config.cache_ttl))
        } else {
            None
        };
        Self {
            config,
            connection_pool,
            message_batcher,
            cache,
            memory_monitor: Some(manager::MemoryMonitor::new()),
            cpu_throttler: Some(manager::CpuThrottler::new()),
            network_optimizer: Some(manager::NetworkOptimizer::new()),
        }
    }

    /// Gets a connection from the pool at time `now`.
    pub fn get_connection_at(&mut self, url: &str, now: u64) -> (r: Result<PooledConnection, PerformanceError>)
        ensures
            final(self).spec_config() == old(self).spec_config(),
            final(self).spec_pool() is Some <==> old(self).spec_pool() is Some,
            final(self).spec_batcher() == old(self).spec_batcher(),
            final(self).spec_cache() == old(self).spec_cache(),
            match old(self).spec_pool() {
                None => r matches Err(e) && e is PoolingDisabled && final(self).spec_pool() is None,
                Some(p) => {
                    &&& (r is Err <==> (p.spec_pool_of(url@).len() == 0 && p.spec_total() >= p.spec_max()))
                    &&& (r matches Err(e) ==> e is PoolExhausted)
                    &&& final(self).spec_pool() matches Some(q) && taken_from_pool(p, q, url@, now, r)
                },
            },
    {
        match &mut self.connection_pool {
            Some(pool) => pool.get_connection_at(url, now),
            None => Err(PerformanceError::PoolingDisabled),
        }
    }

    /// Gets a connection from the pool.
    pub fn get_connection(&mut self, url: &str) -> (r: Result<PooledConnection, PerformanceError>)
        ensures
            final(self).spec_config() == old(self).spec_config(),
            final(self).spec_batcher() == old(self).spec_batcher(),
            final(self).spec_cache() == old(self).spec_cache(),
            old(self).spec_pool() is None ==> (r matches Err(e) && e is PoolingDisabled && final(self).spec_pool() is None),
            old(self).spec_pool() matches Some(p) ==> {
                &&& r is Err <==> (p.spec_pool_of(url@).len() == 0 && p.spec_total() >= p.spec_max())
                &&& r matches Err(e) ==> e is PoolExhausted
                &&& final(self).spec_pool() matches Some(q)
                &&& exists|now: u64| #[trigger] taken_from_pool(p, final(self).spec_pool()->Some_0, url@, now, r)
            },
    {
        let now = now_ms();
        let r = self.get_connection_at(url, now);
        proof {
            if let Some(p) = old(self).spec_pool() {
                assert(taken_from_pool(p, self.spec_pool()->Some_0, url@, now, r));
            }
        }
        r
    }

    /// Returns a connection to the pool at time `now`, if pooling is on.
    pub fn return_connection_at(&mut self, connection: PooledConnection, now: u64)
        requires
            old(self).spec_pool() matches Some(p) ==> (connection_healthy(connection, now) || p.spec_total() > 0),
        ensures
            final(self).spec_config() == old(self).spec_config(),
            final(self).spec_batcher() == old(self).spec_batcher(),
            final(self).spec_cache() == old(self).spec_cache(),
            match old(self).spec_pool() {
                None => final(self).spec_pool() is None,
                Some(p) => final(self).spec_pool() matches Some(q) && returned_to_pool(p, q, connection, now),
            },
    {
        match &mut self.connection_pool {
            Some(pool) => pool.return_connection_at(connection, now),
            None => {},
        }
    }

    /// Queues a message for batching, if batching is on.
    pub fn queue_message_at(&mut self, message: Vec<u8>, now: u64) -> (r: Result<(), PerformanceError>)
        ensures
            final(self).spec_config() == old(self).spec_config(),
            match old(self).spec_batcher() {
                None => r matches Err(e) && e is BatchingDisabled,
                Some(b) => r is Ok,
            },
    {
        match &mut self.message_batcher {
            Some(batcher) => batcher.add_message_at(message, now),
            None => Err(PerformanceError::BatchingDisabled),
        }
    }

    pub fn queue_message(&mut self, message: Vec<u8>) -> (r: Result<(), PerformanceError>)
        ensures
            old(self).spec_batcher() is None <==> r is Err,
            final(self).spec_config() == old(self).spec_config(),
            r matches Err(e) ==> e is BatchingDisabled,
    {
        self.queue_message_at(message, now_ms())
    }

    /// Takes the batched messages; none when batching is off.
    pub fn flush_messages_at(&mut self, now: u64) -> (r: Result<Vec<Vec<u8>>, PerformanceError>)
        ensures
            final(self).spec_config() == old(self).spec_config(),
            r is Ok,
            match old(self).spec_batcher() {
                None => r->Ok_0@.len() == 0,
                Some(b) => r->Ok_0@ == b.spec_pending(),
            },
    {
        match &mut self.message_batcher {
            Some(batcher) => Ok(batcher.flush_messages_at(now)),
            None => Ok(Vec::new()),
        }
    }

    pub fn flush_messages(&mut self) -> (r: Result<Vec<Vec<u8>>, PerformanceError>)
        ensures
            r is Ok,
            match old(self).spec_batcher() {
                None => r->Ok_0@.len() == 0,
                Some(b) => r->Ok_0@ == b.spec_pending(),
            },
            final(self).spec_config() == old(self).spec_config(),
    {
        self.flush_messages_at(now_ms())
    }

    /// The cached value under `key` at time `now`, if caching is on.
    pub fn get_cached_at(&self, key: &str, now: u64) -> (r: Option<Vec<u8>>)
        ensures
            match self.spec_cache() {
                None => r is None,
                Some(c) => match r {
                    Some(v) => c.spec_entries().dom().contains(key@) && c.spec_entries()[key@].expires_at > now
                        && v@ == c.spec_entries()[key@].value,
                    None => !c.spec_entries().dom().contains(key@) || c.spec_entries()[key@].expires_at <= now,
                },
            },
    {
        match &self.cache {
            Some(cache) => cache.get_at(key, now),
            None => None,
        }
    }

    pub fn get_cached(&self, key: &str) -> (r: Option<Vec<u8>>)
        ensures
            self.spec_cache() is None ==> r is None,
            self.spec_cache() matches Some(c) ==> exists|now: u64| #[trigger] cache_answer(c.spec_entries(), key@, now, r),
    {
        let now = now_ms();
        let r = self.get_cached_at(key, now);
        proof {
            if let Some(c) = self.spec_cache() {
                assert(cache_answer(c.spec_entries(), key@, now, r));
            }
        }
        r
    }

    /// Caches `value` under `key` at time `now`, if caching is on.
    pub fn set_cached_at(&mut self, key: String, value: Vec<u8>, now: u64)
        ensures
            final(self).spec_config() == old(self).spec_config(),
            final(self).spec_cache() is Some <==> old(self).spec_cache() is Some,
            final(self).spec_cache() matches Some(c) ==> c.spec_entries().dom().contains(key@)
                && c.spec_entries()[key@].value == value@ && c.spec_entries()[key@].created_at == now,
    {
        match &mut self.cache {
            Some(cache) => cache.set_at(key, value, now),
            None => {},
        }
    }

    pub fn set_cached(&mut self, key: String, value: Vec<u8>)
        ensures
            final(self).spec_cache() matches Some(c) ==> c.spec_entries().dom().contains(key@)
                && c.spec_entries()[key@].value == value@,
            final(self).spec_config() == old(self).spec_config(),
            final(self).spec_cache() is Some <==> old(self).spec_cache() is Some,
    {
        self.set_cached_at(key, value, now_ms());
    }

    /// Whether a message of this size is to be compressed.
    pub fn should_compress(&self, message_size: usize) -> (b: bool)
        ensures
            b == (self.spec_config().enable_compression && message_size >= self.spec_config().compression_threshold),
    {
        self.config.enable_compression && message_size >= self.config.compression_threshold
    }

    /// Caches the payload of `data` at time `now` under `msg_` followed by
    /// its id.
    pub fn cache_message_at(&mut self, data: manager::PerformanceTestData, now: u64)
        ensures
            final(self).spec_cache() is Some <==> old(self).spec_cache() is Some,
            final(self).spec_cache() matches Some(c) ==> c.spec_entries().dom().contains("msg_"@ + data.id@)
                && c.spec_entries()["msg_"@ + data.id@].value == data.payload@,
    {
        let id_chars = crate::text::char_vec(data.id.as_str());
        let key = crate::text::concat_str("msg_", &id_chars);
        let size = data.payload.len();
        self.set_cached_at(key, data.payload, now);
        match &self.memory_monitor {
            Some(monitor) => monitor.add_memory(size),
            None => {},
        }
    }

    pub fn cache_message(&mut self, data: manager::PerformanceTestData)
        ensures
            final(self).spec_cache() matches Some(c) ==> c.spec_entries().dom().contains("msg_"@ + data.id@)
                && c.spec_entries()["msg_"@ + data.id@].value == data.payload@,
            final(self).spec_cache() is Some <==> old(self).spec_cache() is Some,
    {
        self.cache_message_at(data, now_ms());
    }

    /// Whether memory pressure was detected.
    pub fn is_memory_pressure_detected(&self) -> (b: bool)
        ensures
            !b,
    {
        match &self.memory_monitor {
            Some(monitor) => monitor.is_pressure_detected(),
            None => false,
        }
    }

    /// The data to send, passed through the network optimizer.
    pub fn optimize_bandwidth(&self, data: &[u8]) -> (r: Result<Vec<u8>, PerformanceError>)
        ensures
            r is Ok && r->Ok_0@ == data@,
    {
        match &self.network_optimizer {
            Some(optimizer) => optimizer.optimize(data),
            None => Ok(copy_bytes(data)),
        }
    }
}

} // verus!
