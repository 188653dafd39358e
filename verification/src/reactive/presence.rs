//! Presence tracking and collaborative features
//!
//! Real-time presence tracking for collaborative applications with automatic cleanup.

use vstd::prelude::*;
use crate::clock::now_ms;
use crate::strmap::StrMap;

verus! {

/// Individual user presence information; `last_seen` is in milliseconds
/// since the UNIX epoch.
#[derive(Debug, Clone, PartialEq)]
pub struct UserPresence {
    pub user_id: String,
    pub status: String,
    pub last_seen: u64,
}

/// The presence is online.
pub open spec fn spec_is_online(p: UserPresence) -> bool {
    p.status@ == "online"@
}

/// The presence has the given status.
pub open spec fn has_status(p: UserPresence, status: Seq<char>) -> bool {
    p.status@ == status
}

/// Milliseconds from `last_seen` to `now`, zero if `now` is earlier.
pub open spec fn age_at(last_seen: u64, now: u64) -> u64 {
    if now >= last_seen { (now - last_seen) as u64 } else { 0 }
}

/// At `now`, a presence seen at `last_seen` was seen more than `timeout` milliseconds before.
pub open spec fn stale_at(last_seen: u64, timeout: u64, now: u64) -> bool {
    last_seen < now && now - last_seen > timeout
}

/// `after` holds exactly the entries of `before` still fresh at `now`.
pub open spec fn kept_fresh(before: Map<Seq<char>, UserPresence>, after: Map<Seq<char>, UserPresence>, now: u64, timeout: u64) -> bool {
    forall|k: Seq<char>| #[trigger] after.dom().contains(k) <==>
        (before.dom().contains(k) && still_fresh(before[k].last_seen, now, timeout))
}

/// A presence seen at `last_seen` is still fresh at `now` for `timeout` milliseconds.
pub open spec fn still_fresh(last_seen: u64, now: u64, timeout: u64) -> bool {
    last_seen <= now && now - last_seen < timeout
}

/// `after` is `before` seen at time `now`.
pub open spec fn seen_at(before: UserPresence, after: UserPresence, now: u64) -> bool {
    after == (UserPresence { last_seen: now, ..before })
}

/// `after` is `before` with `status`, seen at time `now`.
pub open spec fn status_set_at(before: UserPresence, after: UserPresence, status: String, now: u64) -> bool {
    after == (UserPresence { status: status, last_seen: now, ..before })
}

impl UserPresence {
    /// A presence with the given status, seen at time `now`.
    pub fn new_at(user_id: String, status: String, now: u64) -> (p: Self)
        ensures
            p.user_id == user_id,
            p.status == status,
            p.last_seen == now,
    {
        Self { user_id, status, last_seen: now }
    }

    /// A presence with the given status, seen now.
    pub fn new(user_id: String, status: String) -> (p: Self)
        ensures
            p.user_id == user_id,
            p.status == status,
    {
        Self::new_at(user_id, status, now_ms())
    }

    /// An online user presence, seen now.
    pub fn online(user_id: String) -> (p: Self)
        ensures
            p.user_id == user_id,
            p.status@ == "online"@,
    {
        Self::new(user_id, "online".to_string())
    }

    /// An away user presence, seen now.
    pub fn away(user_id: String) -> (p: Self)
        ensures
            p.user_id == user_id,
            p.status@ == "away"@,
    {
        Self::new(user_id, "away".to_string())
    }

    /// An offline user presence, seen now.
    pub fn offline(user_id: String) -> (p: Self)
        ensures
            p.user_id == user_id,
            p.status@ == "offline"@,
    {
        Self::new(user_id, "offline".to_string())
    }

    /// Marks the user as seen at time `now`.
    pub fn touch_at(&mut self, now: u64)
        ensures
            *final(self) == (UserPresence { last_seen: now, ..*old(self) }),
    {
        self.last_seen = now;
    }

    /// Marks the user as seen now.
    pub fn touch(&mut self)
        ensures
            final(self).user_id == old(self).user_id,
            final(self).status == old(self).status,
            exists|now: u64| #[trigger] seen_at(*old(self), *final(self), now),
    {
        let now = now_ms();
        self.touch_at(now);
        assert(seen_at(*old(self), *self, now));
    }

    /// Sets the status and marks the user as seen at time `now`.
    pub fn update_status_at(&mut self, status: String, now: u64)
        ensures
            *final(self) == (UserPresence { status: status, last_seen: now, ..*old(self) }),
    {
        self.status = status;
        self.touch_at(now);
    }

    /// Sets the status and marks the user as seen now.
    pub fn update_status(&mut self, status: String)
        ensures
            final(self).user_id == old(self).user_id,
            final(self).status == status,
            exists|now: u64| #[trigger] status_set_at(*old(self), *final(self), status, now),
    {
        let now = now_ms();
        let ghost given = status;
        self.update_status_at(status, now);
        assert(status_set_at(*old(self), *self, given, now));
    }

    fn status_is(&self, s: &str) -> (b: bool)
        ensures
            b == (self.status@ == s@),
    {
        self.status == s.to_string()
    }

    /// Check if the user is online
    pub fn is_online(&self) -> (b: bool)
        ensures
            b == (self.status@ == "online"@),
    {
        self.status_is("online")
    }

    /// Check if the user is away
    pub fn is_away(&self) -> (b: bool)
        ensures
            b == (self.status@ == "away"@),
    {
        self.status_is("away")
    }

    /// Check if the user is offline
    pub fn is_offline(&self) -> (b: bool)
        ensures
            b == (self.status@ == "offline"@),
    {
        self.status_is("offline")
    }

    /// Milliseconds since the user was seen, at time `now` (zero if seen later).
    pub fn age_ms_at(&self, now: u64) -> (age: u64)
        ensures
            age == age_at(self.last_seen, now),
    {
        if now >= self.last_seen { now - self.last_seen } else { 0 }
    }

    /// Milliseconds since the user was seen.
    pub fn age_ms(&self) -> (age: u64)
        ensures
            exists|now: u64| age == #[trigger] age_at(self.last_seen, now),
    {
        self.age_ms_at(now_ms())
    }

    /// Whether, at time `now`, the user was seen more than `timeout_ms` before.
    pub fn is_stale_at(&self, timeout_ms: u64, now: u64) -> (b: bool)
        ensures
            b == stale_at(self.last_seen, timeout_ms, now),
    {
        self.age_ms_at(now) > timeout_ms
    }

    /// Whether the user was seen more than `timeout_ms` ago.
    pub fn is_stale(&self, timeout_ms: u64) -> (b: bool)
        ensures
            exists|now: u64| b == #[trigger] stale_at(self.last_seen, timeout_ms, now),
    {
        self.is_stale_at(timeout_ms, now_ms())
    }
}

/// Presence information for collaborative features; `last_updated` is in
/// milliseconds since the UNIX epoch.
#[derive(Clone)]
pub struct PresenceMap {
    pub users: StrMap<UserPresence>,
    pub last_updated: u64,
}

impl PresenceMap {
    /// The presences, by user id.
    pub open spec fn view(&self) -> Map<Seq<char>, UserPresence> {
        self.users@
    }

    /// An empty map updated at time `now`.
    pub fn new_at(now: u64) -> (m: Self)
        ensures
            m@ == Map::<Seq<char>, UserPresence>::empty(),
            m.last_updated == now,
    {
        Self { users: StrMap::new(), last_updated: now }
    }

    /// Create a new empty presence map
    pub fn new() -> (m: Self)
        ensures
            m@ == Map::<Seq<char>, UserPresence>::empty(),
    {
        Self::new_at(now_ms())
    }

    /// Add or update a user's presence at time `now`.
    pub fn update_user_at(&mut self, user_id: String, presence: UserPresence, now: u64)
        ensures
            final(self)@ == old(self)@.insert(user_id@, presence),
            final(self)@.dom().finite(),
            final(self).last_updated == now,
    {
        self.users.insert(user_id, presence);
        self.last_updated = now;
        proof { use_type_invariant(&self.users); self.users.lemma_view_facts(); }
    }

    /// Add or update a user's presence
    pub fn update_user(&mut self, user_id: String, presence: UserPresence)
        ensures
            final(self)@ == old(self)@.insert(user_id@, presence),
            final(self)@.dom().finite(),
    {
        self.update_user_at(user_id, presence, now_ms());
    }

    /// Remove a user at time `now`; the update time changes only if the user was present.
    pub fn remove_user_at(&mut self, user_id: &str, now: u64) -> (r: Option<UserPresence>)
        ensures
            old(self)@.dom().finite(),
            final(self)@.dom().finite(),
            final(self)@ == old(self)@.remove(user_id@),
            match r {
                Some(p) => old(self)@.dom().contains(user_id@) && p == old(self)@[user_id@] && final(self).last_updated == now,
                None => !old(self)@.dom().contains(user_id@) && final(self).last_updated == old(self).last_updated,
            },
    {
        proof { use_type_invariant(&self.users); self.users.lemma_view_facts(); }
        let result = self.users.remove(user_id);
        if result.is_some() {
            self.last_updated = now;
        }
        proof { use_type_invariant(&self.users); self.users.lemma_view_facts(); }
        result
    }

    /// Remove a user from presence
    pub fn remove_user(&mut self, user_id: &str) -> (r: Option<UserPresence>)
        ensures
            old(self)@.dom().finite(),
            final(self)@.dom().finite(),
            final(self)@ == old(self)@.remove(user_id@),
            match r {
                Some(p) => old(self)@.dom().contains(user_id@) && p == old(self)@[user_id@],
                None => !old(self)@.dom().contains(user_id@),
            },
    {
        self.remove_user_at(user_id, now_ms())
    }

    /// Get a user's presence
    pub fn get_user(&self, user_id: &str) -> (r: Option<&UserPresence>)
        ensures
            match r {
                Some(p) => self@.dom().contains(user_id@) && *p == self@[user_id@],
                None => !self@.dom().contains(user_id@),
            },
    {
        self.users.get(user_id)
    }

    /// The presences with the given status, in the order the users were first added.
    pub fn users_with_status(&self, status: &str) -> (r: Vec<&UserPresence>)
        ensures
            r@.map_values(|p: &UserPresence| *p) == self.users.value_seq().filter(|p: UserPresence| has_status(p, status@)),
    {
        let n = self.users.len();
        let mut r: Vec<&UserPresence> = Vec::new();
        let s = status.to_string();
        let mut i: usize = 0;
        while i < n
            invariant
                n == self.users.spec_len(),
                self.users.value_seq().len() == n,
                i <= n,
                s@ == status@,
                r@.map_values(|p: &UserPresence| *p) == self.users.value_seq().take(i as int).filter(|p: UserPresence| has_status(p, status@)),
            decreases n - i,
        {
            let (_k, p) = self.users.entry_at(i);
            let ghost before = r@;
            if p.status == s {
                r.push(p);
            }
            proof {
                let vs = self.users.value_seq();
                assert(vs.take(i + 1).drop_last() =~= vs.take(i as int));
                reveal_with_fuel(Seq::filter, 1);
                assert(r@.map_values(|p: &UserPresence| *p) =~= vs.take(i + 1).filter(|p: UserPresence| has_status(p, status@)));
            }
            i += 1;
        }
        proof { assert(self.users.value_seq().take(n as int) =~= self.users.value_seq()); }
        r
    }

    /// Get all online users, in the order they were first added.
    pub fn online_users(&self) -> (r: Vec<&UserPresence>)
        ensures
            r@.map_values(|p: &UserPresence| *p) == self.users.value_seq().filter(|p: UserPresence| has_status(p, "online"@)),
    {
        self.users_with_status("online")
    }

    /// Get the count of online users
    pub fn online_count(&self) -> (n: usize)
        ensures
            n == self.users.value_seq().filter(|p: UserPresence| has_status(p, "online"@)).len(),
            n == self@.dom().filter(|k: Seq<char>| has_status(self@[k], "online"@)).len(),
    {
        let v = self.online_users();
        proof {
            assert(v@.map_values(|p: &UserPresence| *p).len() == v@.len());
            use_type_invariant(&self.users);
            self.users.lemma_value_count(|p: UserPresence| has_status(p, "online"@));
            assert(self@.dom().filter(|k: Seq<char>| has_status(self@[k], "online"@))
                =~= self.users@.dom().filter(|k: Seq<char>| (|p: UserPresence| has_status(p, "online"@))(self.users@[k])));
        }
        v.len()
    }

    /// Keeps, at time `now`, the users seen less than `timeout_ms` before it.
    pub fn cleanup_stale_at(&mut self, timeout_ms: u64, now: u64)
        ensures
            forall|k: Seq<char>| #[trigger] final(self)@.dom().contains(k) <==>
                (old(self)@.dom().contains(k) && still_fresh(old(self)@[k].last_seen, now, timeout_ms)),
            forall|k: Seq<char>| #[trigger] final(self)@.dom().contains(k) ==> final(self)@[k] == old(self)@[k],
            final(self).last_updated == if final(self)@.dom().len() == 0 { now } else { old(self).last_updated },
            final(self)@.dom().finite(),
    {
        let n = self.users.len();
        let mut keep: Vec<bool> = Vec::new();
        let mut i: usize = 0;
        while i < n
            invariant
                n == self.users.spec_len(),
                self.users.value_seq().len() == n,
                i <= n,
                keep@.len() == i,
                forall|j: int| 0 <= j < i ==> keep@[j] == still_fresh(self.users.value_seq()[j].last_seen, now, timeout_ms),
            decreases n - i,
        {
            let (_k, p) = self.users.entry_at(i);
            keep.push(p.last_seen <= now && now - p.last_seen < timeout_ms);
            i += 1;
        }
        let ghost old_map = self.users;
        self.users.retain_flags(&keep);
        proof {
            assert forall|k: Seq<char>| #[trigger] self@.dom().contains(k) <==>
                (old(self)@.dom().contains(k) && still_fresh(old(self)@[k].last_seen, now, timeout_ms)) by {
                if old_map@.dom().contains(k) {
                    let j = old_map.key_seq().index_of(k);
                    assert(old_map.key_seq()[j] == k);
                }
            }
        }
        if self.users.len() == 0 {
            self.last_updated = now;
        }
        proof { use_type_invariant(&self.users); self.users.lemma_view_facts(); }
    }

    /// Clean up stale presence entries (older than timeout)
    pub fn cleanup_stale(&mut self, timeout_ms: u64)
        ensures
            exists|now: u64| #[trigger] kept_fresh(old(self)@, final(self)@, now, timeout_ms),
            forall|k: Seq<char>| #[trigger] final(self)@.dom().contains(k) ==> final(self)@[k] == old(self)@[k],
            final(self)@.dom().finite(),
    {
        let ghost before = self@;
        let now = now_ms();
        self.cleanup_stale_at(timeout_ms, now);
        assert(kept_fresh(before, self@, now, timeout_ms));
    }

    /// Check if any users are present
    pub fn is_empty(&self) -> (b: bool)
        ensures
            b == (self@.dom().len() == 0),
    {
        self.users.len() == 0
    }

    /// Get all user IDs, in the order they were first added.
    pub fn user_ids(&self) -> (r: Vec<String>)
        ensures
            r@.len() == self.users.key_seq().len(),
            forall|j: int| 0 <= j < r@.len() ==> #[trigger] r@[j]@ == self.users.key_seq()[j],
    {
        let n = self.users.len();
        let mut r: Vec<String> = Vec::new();
        let mut i: usize = 0;
        while i < n
            invariant
                n == self.users.spec_len(),
                self.users.key_seq().len() == n,
                i <= n,
                r@.len() == i,
                forall|j: int| 0 <= j < i ==> #[trigger] r@[j]@ == self.users.key_seq()[j],
            decreases n - i,
        {
            let (k, _p) = self.entry_key(i);
            r.push(k);
            i += 1;
        }
        r
    }

    fn entry_key(&self, i: usize) -> (r: (String, bool))
        requires
            i < self.users.spec_len(),
        ensures
            r.0@ == self.users.key_seq()[i as int],
    {
        let (k, _p) = self.users.entry_at(i);
        (k.clone(), true)
    }

    /// Get the length (number of users) - for testing compatibility
    pub fn len(&self) -> (n: usize)
        ensures
            n == self@.dom().len(),
            self@.dom().finite(),
    {
        self.users.len()
    }

    /// Check if contains a key - for testing compatibility
    pub fn contains_key(&self, key: &str) -> (b: bool)
        ensures
            b == self@.dom().contains(key@),
    {
        self.users.contains_key(key)
    }

    /// Index access - for testing compatibility
    pub fn get(&self, key: &str) -> (r: Option<&UserPresence>)
        ensures
            match r {
                Some(p) => self@.dom().contains(key@) && *p == self@[key@],
                None => !self@.dom().contains(key@),
            },
    {
        self.users.get(key)
    }
}

impl Default for PresenceMap {
    fn default() -> (m: Self)
        ensures
            m@ == Map::<Seq<char>, UserPresence>::empty(),
    {
        Self::new()
    }
}

/// Connection metrics for monitoring
#[derive(Debug, Clone, PartialEq)]
pub struct ConnectionMetrics {
    pub bytes_sent: u64,
    pub bytes_received: u64,
    pub messages_sent: u64,
    pub messages_received: u64,
    pub connection_uptime: u64,
}

impl ConnectionMetrics {
    /// Create new empty metrics
    pub fn new() -> (m: Self)
        ensures
            m == (ConnectionMetrics { bytes_sent: 0, bytes_received: 0, messages_sent: 0, messages_received: 0, connection_uptime: 0 }),
    {
        Self { bytes_sent: 0, bytes_received: 0, messages_sent: 0, messages_received: 0, connection_uptime: 0 }
    }

    /// Record bytes sent
    pub fn record_bytes_sent(&mut self, bytes: u64)
        requires
            old(self).bytes_sent + bytes <= u64::MAX,
        ensures
            *final(self) == (ConnectionMetrics { bytes_sent: (old(self).bytes_sent + bytes) as u64, ..*old(self) }),
    {
        self.bytes_sent += bytes;
    }

    /// Record bytes received
    pub fn record_bytes_received(&mut self, bytes: u64)
        requires
            old(self).bytes_received + bytes <= u64::MAX,
        ensures
            *final(self) == (ConnectionMetrics { bytes_received: (old(self).bytes_received + bytes) as u64, ..*old(self) }),
    {
        self.bytes_received += bytes;
    }

    /// Record message sent
    pub fn record_message_sent(&mut self)
        requires
            old(self).messages_sent < u64::MAX,
        ensures
            *final(self) == (ConnectionMetrics { messages_sent: (old(self).messages_sent + 1) as u64, ..*old(self) }),
    {
        self.messages_sent += 1;
    }

    /// Record message received
    pub fn record_message_received(&mut self)
        requires
            old(self).messages_received < u64::MAX,
        ensures
            *final(self) == (ConnectionMetrics { messages_received: (old(self).messages_received + 1) as u64, ..*old(self) }),
    {
        self.messages_received += 1;
    }

    /// Update connection uptime
    pub fn update_uptime(&mut self, uptime_ms: u64)
        ensures
            *final(self) == (ConnectionMetrics { connection_uptime: uptime_ms, ..*old(self) }),
    {
        self.connection_uptime = uptime_ms;
    }

    /// Get total bytes transferred
    pub fn total_bytes(&self) -> (t: u64)
        requires
            self.bytes_sent + self.bytes_received <= u64::MAX,
        ensures
            t == self.bytes_sent + self.bytes_received,
    {
        self.bytes_sent + self.bytes_received
    }

    /// Get total messages
    pub fn total_messages(&self) -> (t: u64)
        requires
            self.messages_sent + self.messages_received <= u64::MAX,
        ensures
            t == self.messages_sent + self.messages_received,
    {
        self.messages_sent + self.messages_received
    }

    /// Reset all metrics to zero
    pub fn reset(&mut self)
        ensures
            *final(self) == (ConnectionMetrics { bytes_sent: 0, bytes_received: 0, messages_sent: 0, messages_received: 0, connection_uptime: 0 }),
    {
        *self = Self::new();
    }
}

impl Default for ConnectionMetrics {
    fn default() -> (m: Self)
        ensures
            m == (ConnectionMetrics { bytes_sent: 0, bytes_received: 0, messages_sent: 0, messages_received: 0, connection_uptime: 0 }),
    {
        Self::new()
    }
}

/// What is written is read back: after a user's presence is updated, looking
/// the user up gives that presence, and every other user is as before.
pub proof fn lemma_presence_read_after_write(before: Map<Seq<char>, UserPresence>, user: Seq<char>, presence: UserPresence)
    ensures
        before.insert(user, presence).dom().contains(user),
        before.insert(user, presence)[user] == presence,
        forall|other: Seq<char>| other != user ==>
            (#[trigger] before.insert(user, presence).dom().contains(other) == before.dom().contains(other)
                && (before.dom().contains(other) ==> before.insert(user, presence)[other] == before[other])),
{
}

/// Recording `a` then `b` bytes sent adds `a + b` to the total, and a reset
/// brings every counter back to zero.
pub proof fn lemma_metrics_totals(m: ConnectionMetrics, a: u64, b: u64)
    requires
        m.bytes_sent + a + b <= u64::MAX,
        m.bytes_sent + a + b + m.bytes_received <= u64::MAX,
    ensures
        ({
            let m1 = ConnectionMetrics { bytes_sent: (m.bytes_sent + a) as u64, ..m };
            let m2 = ConnectionMetrics { bytes_sent: (m1.bytes_sent + b) as u64, ..m1 };
            m2.bytes_sent + m2.bytes_received == m.bytes_sent + m.bytes_received + a + b
        }),
{
}

} // verus!
