//! Performance middleware: pooling, batching and caching applied to
//! transport messages.

use vstd::prelude::*;
use crate::clock::now_ms;
use crate::transport::{Message, MessageType, TransportError};
use super::{
    connection_healthy, flush_due, fresh_connection, time_since, pooled_count, returned_to_pool, CachedValue, ConnectionPool, MessageBatcher, MessageCache,
    PooledConnection,
};

verus! {

/// Connection pool statistics
#[derive(Debug, Clone)]
pub struct PoolStats {
    pub active_connections: usize,
    pub max_connections: usize,
    pub available_connections: usize,
}

/// Message batch statistics
#[derive(Debug, Clone)]
pub struct BatchStats {
    pub pending_messages: usize,
    pub batch_size: usize,
    pub should_flush: bool,
}

/// The answer `r` of a cache holding `entries` to a read of `key` at time
/// `now`, as a text message: the stored value while it has not expired,
/// otherwise nothing.
pub open spec fn cached_message_answer(entries: Map<Seq<char>, CachedValue>, key: Seq<char>, now: u64, r: Option<Message>) -> bool {
    match r {
        Some(m) => m.message_type == MessageType::Text && entries.dom().contains(key)
            && entries[key].expires_at > now && m.data@ == entries[key].value,
        None => !entries.dom().contains(key) || entries[key].expires_at <= now,
    }
}

/// `m` is a text message carrying `data`.
pub open spec fn is_text_of(m: Message, data: Vec<u8>) -> bool {
    m.data == data && m.message_type == MessageType::Text
}

/// Pooling, batching and caching for transport messages.
pub struct PerformanceMiddleware {
    connection_pool: ConnectionPool,
    message_batcher: MessageBatcher,
    message_cache: MessageCache,
}

impl PerformanceMiddleware {
    pub closed spec fn spec_pool(&self) -> ConnectionPool {
        self.connection_pool
    }

    pub closed spec fn spec_batcher(&self) -> MessageBatcher {
        self.message_batcher
    }

    pub closed spec fn spec_cache(&self) -> MessageCache {
        self.message_cache
    }

    pub fn new(connection_pool: ConnectionPool, message_batcher: MessageBatcher, message_cache: MessageCache) -> (m: Self)
        ensures
            m.spec_pool() == connection_pool,
            m.spec_batcher() == message_batcher,
            m.spec_cache() == message_cache,
    {
        Self { connection_pool, message_batcher, message_cache }
    }

    /// A pooled connection to `url` at time `now`; an exhausted pool is
    /// reported as a failed connection.
    pub fn get_pooled_connection_at(&mut self, url: &str, now: u64) -> (r: Result<PooledConnection, TransportError>)
        ensures
            final(self).spec_pool().spec_max() == old(self).spec_pool().spec_max(),
            final(self).spec_batcher() == old(self).spec_batcher(),
            final(self).spec_cache() == old(self).spec_cache(),
            match r {
                Ok(c) => if old(self).spec_pool().spec_pool_of(url@).len() > 0 {
                    &&& c == old(self).spec_pool().spec_pool_of(url@)[0]
                    &&& final(self).spec_pool().spec_pools() == old(self).spec_pool().spec_pools().insert(
                        url@,
                        old(self).spec_pool().spec_pool_of(url@).drop_first(),
                    )
                    &&& final(self).spec_pool().spec_total() == old(self).spec_pool().spec_total()
                } else {
                    &&& fresh_connection(c, url@, now)
                    &&& final(self).spec_pool().spec_pools() == old(self).spec_pool().spec_pools()
                    &&& final(self).spec_pool().spec_total() == old(self).spec_pool().spec_total() + 1
                },
                Err(e) => e matches TransportError::ConnectionFailed(m)
                    && m@ == "Failed to get pooled connection: PoolExhausted"@
                    && final(self).spec_pool().spec_pools() == old(self).spec_pool().spec_pools(),
            },
            r is Err <==> (old(self).spec_pool().spec_pool_of(url@).len() == 0
                && old(self).spec_pool().spec_total() >= old(self).spec_pool().spec_max()),
    {
        match self.connection_pool.get_connection_at(url, now) {
            Ok(c) => Ok(c),
            Err(_) => Err(TransportError::ConnectionFailed("Failed to get pooled connection: PoolExhausted".to_string())),
        }
    }

    pub fn get_pooled_connection(&mut self, url: &str) -> (r: Result<PooledConnection, TransportError>)
        ensures
            r is Err <==> (old(self).spec_pool().spec_pool_of(url@).len() == 0
                && old(self).spec_pool().spec_total() >= old(self).spec_pool().spec_max()),
            final(self).spec_pool().spec_max() == old(self).spec_pool().spec_max(),
            final(self).spec_batcher() == old(self).spec_batcher(),
            final(self).spec_cache() == old(self).spec_cache(),
            r matches Err(e) ==> e matches TransportError::ConnectionFailed(m)
                && m@ == "Failed to get pooled connection: PoolExhausted"@
                && final(self).spec_pool().spec_pools() == old(self).spec_pool().spec_pools(),
            (r is Ok && old(self).spec_pool().spec_pool_of(url@).len() > 0) ==> {
                &&& r->Ok_0 == old(self).spec_pool().spec_pool_of(url@)[0]
                &&& final(self).spec_pool().spec_pools() == old(self).spec_pool().spec_pools().insert(
                    url@,
                    old(self).spec_pool().spec_pool_of(url@).drop_first(),
                )
                &&& final(self).spec_pool().spec_total() == old(self).spec_pool().spec_total()
            },
            (r is Ok && old(self).spec_pool().spec_pool_of(url@).len() == 0) ==> {
                &&& exists|now: u64| #[trigger] fresh_connection(r->Ok_0, url@, now)
                &&& final(self).spec_pool().spec_pools() == old(self).spec_pool().spec_pools()
                &&& final(self).spec_pool().spec_total() == old(self).spec_pool().spec_total() + 1
            },
    {
        let now = now_ms();
        let r = self.get_pooled_connection_at(url, now);
        proof {
            if r is Ok && old(self).spec_pool().spec_pool_of(url@).len() == 0 {
                assert(fresh_connection(r->Ok_0, url@, now));
            }
        }
        r
    }

    /// Returns a connection to the pool at time `now`.
    pub fn return_connection_at(&mut self, connection: PooledConnection, now: u64)
        requires
            connection_healthy(connection, now) || old(self).spec_pool().spec_total() > 0,
        ensures
            final(self).spec_pool().spec_max() == old(self).spec_pool().spec_max(),
            connection_healthy(connection, now) ==> {
                &&& final(self).spec_pool().spec_pools() == old(self).spec_pool().spec_pools().insert(
                    connection.url@,
                    old(self).spec_pool().spec_pool_of(connection.url@).push(connection),
                )
                &&& final(self).spec_pool().spec_total() == old(self).spec_pool().spec_total()
            },
            !connection_healthy(connection, now) ==> {
                &&& final(self).spec_pool().spec_pools() == old(self).spec_pool().spec_pools()
                &&& final(self).spec_pool().spec_total() == old(self).spec_pool().spec_total() - 1
            },
            final(self).spec_batcher() == old(self).spec_batcher(),
            final(self).spec_cache() == old(self).spec_cache(),
    {
        self.connection_pool.return_connection_at(connection, now);
    }

    /// Queues the payload of a message for batching at time `now`.
    pub fn batch_message_at(&mut self, message: Message, now: u64) -> (r: Result<(), TransportError>)
        ensures
            r is Ok,
            if old(self).spec_batcher().spec_pending().len() + 1 >= old(self).spec_batcher().spec_batch_size() {
                final(self).spec_batcher().spec_pending().len() == 0
            } else {
                final(self).spec_batcher().spec_pending() == old(self).spec_batcher().spec_pending().push(message.data)
            },
    {
        let _ = self.message_batcher.add_message_at(message.data, now);
        Ok(())
    }

    /// The batched payloads as text messages, oldest first, flushing at time `now`.
    pub fn flush_batch_at(&mut self, now: u64) -> (r: Vec<Message>)
        ensures
            r@.len() == old(self).spec_batcher().spec_pending().len(),
            forall|k: int| 0 <= k < r@.len() ==> is_text_of(#[trigger] r@[k], old(self).spec_batcher().spec_pending()[k]),
            final(self).spec_batcher().spec_pending().len() == 0,
    {
        let mut batched = self.message_batcher.flush_messages_at(now);
        let ghost all = batched@;
        let mut out: Vec<Message> = Vec::new();
        let mut i: usize = 0;
        let n = batched.len();
        while batched.len() > 0
            invariant
                all.len() == n,
                i + batched@.len() == n,
                batched@ == all.skip(i as int),
                out@.len() == i,
                forall|j: int| 0 <= j < i ==> #[trigger] out@[j].data == all[j] && out@[j].message_type == MessageType::Text,
            decreases batched@.len(),
        {
            let data = batched.remove(0);
            proof { assert(data == all[i as int]); }
            let ghost prev = out@;
            let msg = Message { data, message_type: MessageType::Text };
            let ghost m = msg;
            out.push(msg);
            proof { assert(out@ == prev.push(m)); assert(m.data == all[i as int]); }
            proof {
                assert(batched@ =~= all.skip(i + 1));
                assert forall|j: int| 0 <= j < i + 1 implies #[trigger] out@[j].data == all[j] && out@[j].message_type == MessageType::Text by {
                    if j < i {
                        assert(out@[j] == prev[j]);
                        assert(prev[j].data == all[j]);
                    } else {
                        assert(out@[j] == m);
                    }
                }
            }
            i += 1;
        }
        proof {
            assert(all == old(self).spec_batcher().spec_pending());
            assert forall|j: int| 0 <= j < out@.len() implies is_text_of(#[trigger] out@[j], old(self).spec_batcher().spec_pending()[j]) by {
                assert(out@[j].data == all[j]);
            }
        }
        out
    }

    /// Whether the batch should be flushed at time `now`.
    pub fn should_flush_batch_at(&self, now: u64) -> (b: bool)
        ensures
            b == (self.spec_batcher().spec_pending().len() > 0 && (self.spec_batcher().spec_pending().len() >= self.spec_batcher().spec_batch_size()
                || time_since(self.spec_batcher().spec_last_flush(), now) >= self.spec_batcher().spec_timeout_ms())),
    {
        self.message_batcher.should_flush_at(now)
    }

    /// Caches the payload of a message under `key` at time `now`.
    pub fn cache_message_at(&mut self, key: String, message: Message, now: u64)
        ensures
            final(self).spec_cache().spec_entries().dom().contains(key@),
            final(self).spec_cache().spec_entries()[key@].value == message.data@,
    {
        self.message_cache.set_at(key, message.data, now);
    }

    /// The cached payload under `key`, unexpired at time `now`, as a text message.
    pub fn get_cached_message_at(&self, key: &str, now: u64) -> (r: Option<Message>)
        ensures
            match r {
                Some(m) => self.spec_cache().spec_entries().dom().contains(key@)
                    && self.spec_cache().spec_entries()[key@].expires_at > now
                    && m.data@ == self.spec_cache().spec_entries()[key@].value
                    && m.message_type == MessageType::Text,
                None => !self.spec_cache().spec_entries().dom().contains(key@)
                    || self.spec_cache().spec_entries()[key@].expires_at <= now,
            },
    {
        match self.message_cache.get_at(key, now) {
            Some(data) => Some(Message { data, message_type: MessageType::Text }),
            None => None,
        }
    }

    /// Marks the connection used at time `now`; every hundredth use also
    /// drops the idle pooled connections.
    pub fn optimize_connection_at(&mut self, connection: &mut PooledConnection, now: u64) -> (r: Result<(), TransportError>)
        requires
            old(connection).request_count < u64::MAX,
            pooled_count(old(self).spec_pool().spec_pool_list()) <= old(self).spec_pool().spec_total(),
        ensures
            r is Ok,
            final(connection).request_count == old(connection).request_count + 1,
            *final(connection) == (PooledConnection {
                last_used: if now >= old(connection).last_used { now } else { old(connection).last_used },
                request_count: (old(connection).request_count + 1) as u64,
                ..*old(connection)
            }),
    {
        connection.mark_used_at(now);
        if connection.request_count % 100 == 0 {
            proof { super::lemma_idle_within_pooled(self.connection_pool.spec_pool_list(), super::idle_cutoff(now)); }
            self.connection_pool.cleanup_idle_connections_at(now);
        }
        Ok(())
    }

    /// Current pool statistics.
    pub fn get_pool_stats(&self) -> (s: PoolStats)
        ensures
            s.active_connections == self.spec_pool().spec_total(),
            s.max_connections == self.spec_pool().spec_max(),
    {
        PoolStats {
            active_connections: self.connection_pool.active_connections(),
            max_connections: self.connection_pool.max_connections(),
            available_connections: self.connection_pool.available_connections(),
        }
    }

    /// Current batch statistics at time `now`.
    pub fn get_batch_stats_at(&self, now: u64) -> (s: BatchStats)
        ensures
            s.pending_messages == self.spec_batcher().spec_pending().len(),
            s.batch_size == self.spec_batcher().spec_batch_size(),
            s.should_flush == (self.spec_batcher().spec_pending().len() > 0 && (self.spec_batcher().spec_pending().len() >= self.spec_batcher().spec_batch_size()
                || time_since(self.spec_batcher().spec_last_flush(), now) >= self.spec_batcher().spec_timeout_ms())),
    {
        BatchStats {
            pending_messages: self.message_batcher.pending_count(),
            batch_size: self.message_batcher.get_optimal_batch_size(),
            should_flush: self.message_batcher.should_flush_at(now),
        }
    }

    /// Returns a connection to the pool: a healthy one is pooled, an
    /// unhealthy one is dropped from the total.
    pub fn return_connection(&mut self, connection: PooledConnection)
        requires
            old(self).spec_pool().spec_total() > 0,
        ensures
            final(self).spec_pool().spec_max() == old(self).spec_pool().spec_max(),
            final(self).spec_pool().spec_total() <= old(self).spec_pool().spec_total(),
            final(self).spec_batcher() == old(self).spec_batcher(),
            final(self).spec_cache() == old(self).spec_cache(),
            exists|now: u64| #[trigger] returned_to_pool(old(self).spec_pool(), final(self).spec_pool(), connection, now),
    {
        let now = now_ms();
        self.connection_pool.return_connection_at(connection, now);
        assert(returned_to_pool(old(self).spec_pool(), self.spec_pool(), connection, now));
    }

    /// Queues the payload of a message for batching.
    pub fn batch_message(&mut self, message: Message) -> (r: Result<(), TransportError>)
        ensures
            r is Ok,
            if old(self).spec_batcher().spec_pending().len() + 1 >= old(self).spec_batcher().spec_batch_size() {
                final(self).spec_batcher().spec_pending().len() == 0
            } else {
                final(self).spec_batcher().spec_pending() == old(self).spec_batcher().spec_pending().push(message.data)
            },
    {
        self.batch_message_at(message, now_ms())
    }

    /// The batched payloads as text messages, oldest first.
    pub fn flush_batch(&mut self) -> (r: Vec<Message>)
        ensures
            r@.len() == old(self).spec_batcher().spec_pending().len(),
            forall|k: int| 0 <= k < r@.len() ==> is_text_of(#[trigger] r@[k], old(self).spec_batcher().spec_pending()[k]),
            final(self).spec_batcher().spec_pending().len() == 0,
    {
        self.flush_batch_at(now_ms())
    }

    /// Whether the batch should be flushed now: never when it is empty,
    /// always when it is full; in between the batch timeout decides.
    pub fn should_flush_batch(&self) -> (b: bool)
        ensures
            b ==> self.spec_batcher().spec_pending().len() > 0,
            self.spec_batcher().spec_pending().len() > 0
                && self.spec_batcher().spec_pending().len() >= self.spec_batcher().spec_batch_size() ==> b,
            exists|now: u64| b == #[trigger] flush_due(self.spec_batcher(), now),
    {
        let now = now_ms();
        let b = self.should_flush_batch_at(now);
        assert(b == flush_due(self.spec_batcher(), now));
        b
    }

    /// Caches the payload of a message under `key`.
    pub fn cache_message(&mut self, key: String, message: Message)
        ensures
            final(self).spec_cache().spec_entries().dom().contains(key@),
            final(self).spec_cache().spec_entries()[key@].value == message.data@,
    {
        self.cache_message_at(key, message, now_ms());
    }

    /// The cached payload under `key`, if it has not expired, as a text
    /// message.
    pub fn get_cached_message(&self, key: &str) -> (r: Option<Message>)
        ensures
            match r {
                Some(m) => self.spec_cache().spec_entries().dom().contains(key@)
                    && m.data@ == self.spec_cache().spec_entries()[key@].value
                    && m.message_type == MessageType::Text,
                None => true,
            },
            !self.spec_cache().spec_entries().dom().contains(key@) ==> r is None,
            exists|now: u64| #[trigger] cached_message_answer(self.spec_cache().spec_entries(), key@, now, r),
    {
        let now = now_ms();
        let r = self.get_cached_message_at(key, now);
        assert(cached_message_answer(self.spec_cache().spec_entries(), key@, now, r));
        r
    }

    /// Marks the connection used; every hundredth use also drops the idle
    /// pooled connections.
    pub fn optimize_connection(&mut self, connection: &mut PooledConnection) -> (r: Result<(), TransportError>)
        requires
            old(connection).request_count < u64::MAX,
            pooled_count(old(self).spec_pool().spec_pool_list()) <= old(self).spec_pool().spec_total(),
        ensures
            r is Ok,
            final(connection).request_count == old(connection).request_count + 1,
            final(connection).last_used >= old(connection).last_used,
            *final(connection) == (PooledConnection { last_used: final(connection).last_used, request_count: final(connection).request_count, ..*old(connection) }),
    {
        self.optimize_connection_at(connection, now_ms())
    }

    /// Drops the idle pooled connections.
    pub fn cleanup_idle_connections(&mut self)
        requires
            pooled_count(old(self).spec_pool().spec_pool_list()) <= old(self).spec_pool().spec_total(),
        ensures
            final(self).spec_pool().spec_max() == old(self).spec_pool().spec_max(),
            final(self).spec_pool().spec_total() <= old(self).spec_pool().spec_total(),
            final(self).spec_batcher() == old(self).spec_batcher(),
            final(self).spec_cache() == old(self).spec_cache(),
    {
        self.connection_pool.cleanup_idle_connections();
    }

    /// Current batch statistics.
    pub fn get_batch_stats(&self) -> (s: BatchStats)
        ensures
            s.pending_messages == self.spec_batcher().spec_pending().len(),
            s.batch_size == self.spec_batcher().spec_batch_size(),
            s.should_flush ==> self.spec_batcher().spec_pending().len() > 0,
            self.spec_batcher().spec_pending().len() > 0
                && self.spec_batcher().spec_pending().len() >= self.spec_batcher().spec_batch_size() ==> s.should_flush,
            exists|now: u64| s.should_flush == #[trigger] flush_due(self.spec_batcher(), now),
    {
        let now = now_ms();
        let s = self.get_batch_stats_at(now);
        assert(s.should_flush == flush_due(self.spec_batcher(), now));
        s
    }
}

} // verus!
