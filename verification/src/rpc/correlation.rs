//! Correlation of RPC requests with their responses: each request waits on
//! a one-shot channel under its id until its response, an error, its
//! expiry or a cancellation answers it.

use std::time::Duration;
use tokio::sync::oneshot::{Receiver, Sender};
use vstd::prelude::*;
use crate::clock::{duration_to_ms, now_ms, saturated_ms};
use crate::rpc::types::{RpcError, RpcResponse};
use crate::strmap::StrMap;
use crate::text::{string_views, char_vec, concat_str, extend_chars, lit, string_from_chars};

verus! {

#[verifier::external_type_specification]
#[verifier::external_body]
#[verifier::reject_recursive_types(T)]
pub struct ExOneshotSender<T>(Sender<T>);

#[verifier::external_type_specification]
#[verifier::external_body]
#[verifier::reject_recursive_types(T)]
pub struct ExOneshotReceiver<T>(Receiver<T>);

#[verifier::external_type_specification]
#[verifier::external_body]
pub struct ExOneshotRecvError(tokio::sync::oneshot::error::RecvError);

/// What a waiting caller receives.
pub type Reply = Result<RpcResponse<serde_json::Value>, RpcError>;

/// `tokio::sync::oneshot::channel`: a connected sender and receiver.
#[verifier::external_body]
pub(crate) fn reply_channel<T>() -> (Sender<T>, Receiver<T>) {
    tokio::sync::oneshot::channel()
}

/// `oneshot::Sender::send`: hands the reply to the receiver; `false` when
/// the receiver is gone. Whether it is gone depends on the caller's side,
/// so nothing is stated of the outcome.
#[verifier::external_body]
pub(crate) fn deliver<T>(tx: Sender<T>, reply: T) -> bool {
    tx.send(reply).is_ok()
}

/// The `Debug` text of a duration, as `format!("{:?}", d)` writes it.
pub uninterp spec fn duration_debug_text(d: Duration) -> Seq<char>;

/// `format!("{:?}", d)` on a duration; its text is named, as a function of
/// the duration alone.
#[verifier::external_body]
fn duration_debug(d: Duration) -> (s: String)
    ensures
        s@ == duration_debug_text(d),
{
    format!("{:?}", d)
}

/// The text of an expiry notice for the request `id` under `timeout`.
fn expiry_notice(id: &str, timeout: Duration) -> (s: String)
    ensures
        s@ == "Request "@ + id@ + " timed out after "@ + duration_debug_text(timeout),
{
    let mut text = char_vec(id);
    extend_chars(&mut text, &lit(" timed out after "));
    let shown = duration_debug(timeout);
    extend_chars(&mut text, &char_vec(shown.as_str()));
    concat_str("Request ", &text)
}

/// The JSON object `{"method": method, "timeout_duration_secs": timeout_secs}`.
fn expiry_details(method: &str, timeout_secs: u64) -> serde_json::Value {
    let mut details = serde_json::Map::new();
    let _ = details.insert("method".to_string(), serde_json::Value::from(method.to_string()));
    let _ = details.insert("timeout_duration_secs".to_string(), serde_json::Value::from(timeout_secs));
    serde_json::Value::from(details)
}

/// The code of every error the correlation manager produces.
pub const INTERNAL_ERROR: i32 = -32603;

/// A request awaiting its response.
struct PendingRequest {
    response_tx: Sender<Reply>,
    timeout_at: u64,
    method: String,
}

/// What is known of a pending request: when it expires (milliseconds since
/// the UNIX epoch) and its method.
pub struct PendingInfo {
    pub timeout_at: u64,
    pub method: Seq<char>,
}

/// The expiry of a request registered at `now`: the timeout later, or the
/// end of the clock's range.
pub open spec fn request_expiry(now: u64, timeout_ms: u64) -> u64 {
    if now + timeout_ms <= u64::MAX { (now + timeout_ms) as u64 } else { u64::MAX }
}

/// What is known of a request registered at `now` under the timeout.
pub open spec fn pending_at(now: u64, timeout_ms: u64, method: Seq<char>) -> PendingInfo {
    PendingInfo { timeout_at: request_expiry(now, timeout_ms), method }
}

/// `after` holds exactly the requests of `before` not expired at `now`,
/// unchanged.
pub open spec fn expired_requests_dropped(before: Map<Seq<char>, PendingInfo>, after: Map<Seq<char>, PendingInfo>, now: u64) -> bool {
    &&& forall|k: Seq<char>| #[trigger] after.dom().contains(k) <==> (before.dom().contains(k) && now <= before[k].timeout_at)
    &&& forall|k: Seq<char>| #[trigger] after.dom().contains(k) ==> after[k] == before[k]
}

/// The answer `r` to a response for `id` arriving at `now` while `pending`
/// waits: unknown ids and expired requests are refused; a request in time
/// is completed, unless its caller has gone.
pub open spec fn response_answer(pending: Map<Seq<char>, PendingInfo>, id: Seq<char>, now: u64, r: Result<(), RpcError>) -> bool {
    &&& !pending.dom().contains(id) ==> (r matches Err(e) && internal_error(e, "No pending request found for ID: "@ + id))
    &&& pending.dom().contains(id) && now > pending[id].timeout_at ==>
        (r matches Err(e) && internal_error(e, "Request "@ + id + " timed out"@))
    &&& pending.dom().contains(id) && now <= pending[id].timeout_at ==>
        (r is Ok || (r matches Err(e) && internal_error(e, "Caller dropped request before response arrived"@)))
}

/// An error of the manager's code with the given message and no data.
pub open spec fn internal_error(e: RpcError, message: Seq<char>) -> bool {
    e.code == INTERNAL_ERROR && e.message@ == message && e.data is None
}

fn make_error(message: String) -> (e: RpcError)
    ensures
        internal_error(e, message@),
{
    RpcError { code: INTERNAL_ERROR, message, data: None }
}

/// The message `<prefix><id><suffix>`.
pub(crate) fn framed(prefix: &str, id: &str, suffix: &str) -> (s: String)
    ensures
        s@ == prefix@ + id@ + suffix@,
{
    let mut v = lit(prefix);
    let idv = char_vec(id);
    extend_chars(&mut v, &idv);
    let sv = lit(suffix);
    extend_chars(&mut v, &sv);
    string_from_chars(&v)
}

/// RPC Correlation Manager handles request/response correlation
pub struct RpcCorrelationManager {
    pending_requests: StrMap<PendingRequest>,
    default_timeout: Duration,
}

impl RpcCorrelationManager {
    /// The pending requests, by id.
    pub closed spec fn spec_pending(&self) -> Map<Seq<char>, PendingInfo> {
        Map::new(
            |k: Seq<char>| self.pending_requests@.dom().contains(k),
            |k: Seq<char>| PendingInfo {
                timeout_at: self.pending_requests@[k].timeout_at,
                method: self.pending_requests@[k].method@,
            },
        )
    }

    /// The timeout given to each request, in milliseconds.
    pub closed spec fn spec_timeout_ms(&self) -> u64 {
        saturated_ms(self.default_timeout)
    }

    /// A manager whose requests time out after thirty seconds.
    pub fn new() -> (m: Self)
        ensures
            m.spec_pending() == Map::<Seq<char>, PendingInfo>::empty(),
            m.spec_timeout_ms() == 30000,
    {
        Self::with_timeout(crate::clock::duration_from_ms(30000))
    }

    /// A manager whose requests time out after `timeout`.
    pub fn with_timeout(timeout: Duration) -> (m: Self)
        ensures
            m.spec_pending() == Map::<Seq<char>, PendingInfo>::empty(),
            m.spec_timeout_ms() == saturated_ms(timeout),
    {
        let m = Self { pending_requests: StrMap::new(), default_timeout: timeout };
        assert(m.spec_pending() =~= Map::<Seq<char>, PendingInfo>::empty());
        m
    }

    /// Registers a request at time `now`; the receiver gets its answer.
    pub fn register_request_at(&mut self, request_id: String, method: String, now: u64) -> (rx: Receiver<Reply>)
        ensures
            final(self).spec_timeout_ms() == old(self).spec_timeout_ms(),
            final(self).spec_pending() == old(self).spec_pending().insert(
                request_id@,
                PendingInfo { timeout_at: request_expiry(now, old(self).spec_timeout_ms()), method: method@ },
            ),
    {
        let (response_tx, response_rx) = reply_channel();
        let timeout_ms = duration_to_ms(self.default_timeout);
        let timeout_at = if now <= u64::MAX - timeout_ms { now + timeout_ms } else { u64::MAX };
        let ghost key = request_id@;
        let ghost m = method@;
        self.pending_requests.insert(request_id, PendingRequest { response_tx, timeout_at, method });
        assert(self.spec_pending() =~= old(self).spec_pending().insert(
            key,
            PendingInfo { timeout_at: request_expiry(now, old(self).spec_timeout_ms()), method: m },
        ));
        response_rx
    }

    /// Registers a request now; the receiver gets its answer.
    pub fn register_request(&mut self, request_id: String, method: String) -> (rx: Receiver<Reply>)
        ensures
            final(self).spec_pending().dom() == old(self).spec_pending().dom().insert(request_id@),
            final(self).spec_pending()[request_id@].method == method@,
            final(self).spec_timeout_ms() == old(self).spec_timeout_ms(),
            exists|now: u64| final(self).spec_pending() == old(self).spec_pending().insert(
                request_id@,
                #[trigger] pending_at(now, old(self).spec_timeout_ms(), method@),
            ),
    {
        let ghost key = request_id@;
        let ghost m = method@;
        let now = now_ms();
        let r = self.register_request_at(request_id, method, now);
        assert(self.spec_pending().dom() =~= old(self).spec_pending().dom().insert(key));
        assert(self.spec_pending() == old(self).spec_pending().insert(key, pending_at(now, old(self).spec_timeout_ms(), m)));
        r
    }

    /// Hands a response, at time `now`, to the request with its id: an
    /// unknown id and an expired request are errors; the request is no longer
    /// pending afterwards.
    pub fn handle_response_at(&mut self, response: RpcResponse<serde_json::Value>, now: u64) -> (r: Result<(), RpcError>)
        ensures
            final(self).spec_timeout_ms() == old(self).spec_timeout_ms(),
            final(self).spec_pending() == old(self).spec_pending().remove(response.id@),
            !old(self).spec_pending().dom().contains(response.id@) ==>
                (r matches Err(e) && internal_error(e, "No pending request found for ID: "@ + response.id@)),
            old(self).spec_pending().dom().contains(response.id@) && now > old(self).spec_pending()[response.id@].timeout_at ==>
                (r matches Err(e) && internal_error(e, "Request "@ + response.id@ + " timed out"@)),
            old(self).spec_pending().dom().contains(response.id@) && now <= old(self).spec_pending()[response.id@].timeout_at ==>
                (r is Ok || (r matches Err(e) && internal_error(e, "Caller dropped request before response arrived"@))),
    {
        let removed = self.pending_requests.remove(response.id.as_str());
        assert(self.spec_pending() =~= old(self).spec_pending().remove(response.id@));
        match removed {
            Some(pending) => {
                if now > pending.timeout_at {
                    Err(make_error(framed("Request ", response.id.as_str(), " timed out")))
                } else if deliver(pending.response_tx, Ok(response)) {
                    Ok(())
                } else {
                    Err(make_error("Caller dropped request before response arrived".to_string()))
                }
            },
            None => Err(make_error(concat_str("No pending request found for ID: ", &char_vec(response.id.as_str())))),
        }
    }

    /// Hands a response to the request with its id.
    pub fn handle_response(&mut self, response: RpcResponse<serde_json::Value>) -> (r: Result<(), RpcError>)
        ensures
            final(self).spec_pending() == old(self).spec_pending().remove(response.id@),
            !old(self).spec_pending().dom().contains(response.id@) ==>
                (r matches Err(e) && internal_error(e, "No pending request found for ID: "@ + response.id@)),
            final(self).spec_timeout_ms() == old(self).spec_timeout_ms(),
            old(self).spec_pending().dom().contains(response.id@) ==> (r is Ok
                || (r matches Err(e) && internal_error(e, "Request "@ + response.id@ + " timed out"@))
                || (r matches Err(e) && internal_error(e, "Caller dropped request before response arrived"@))),
            exists|now: u64| #[trigger] response_answer(old(self).spec_pending(), response.id@, now, r),
    {
        let now = now_ms();
        let ghost id = response.id@;
        let r = self.handle_response_at(response, now);
        assert(response_answer(old(self).spec_pending(), id, now, r));
        r
    }

    /// Hands an error to the request with the given id, which is then no
    /// longer pending; an unknown id is an error.
    pub fn handle_error_response(&mut self, request_id: String, error: RpcError) -> (r: Result<(), RpcError>)
        ensures
            final(self).spec_timeout_ms() == old(self).spec_timeout_ms(),
            final(self).spec_pending() == old(self).spec_pending().remove(request_id@),
            !old(self).spec_pending().dom().contains(request_id@) ==>
                (r matches Err(e) && internal_error(e, "No pending request found for error response ID: "@ + request_id@)),
            old(self).spec_pending().dom().contains(request_id@) ==>
                (r is Ok || (r matches Err(e) && internal_error(e, "Caller dropped request before error response arrived"@))),
    {
        let removed = self.pending_requests.remove(request_id.as_str());
        assert(self.spec_pending() =~= old(self).spec_pending().remove(request_id@));
        match removed {
            Some(pending) => {
                if deliver(pending.response_tx, Err(error)) {
                    Ok(())
                } else {
                    Err(make_error("Caller dropped request before error response arrived".to_string()))
                }
            },
            None => Err(make_error(concat_str("No pending request found for error response ID: ", &char_vec(request_id.as_str())))),
        }
    }

    /// The ids of the requests expired at `now`, in registration order.
    fn expired_ids(&self, now: u64) -> (ids: Vec<String>)
        ensures
            forall|k: Seq<char>| #[trigger] string_views(ids@).contains(k) <==>
                (self.spec_pending().dom().contains(k) && now > self.spec_pending()[k].timeout_at),
            string_views(ids@).no_duplicates(),
    {
        let n = self.pending_requests.len();
        let ghost keys = self.pending_requests.key_seq();
        let mut ids: Vec<String> = Vec::new();
        let ghost mut src: Seq<int> = Seq::empty();
        let mut i: usize = 0;
        while i < n
            invariant
                n == self.pending_requests.spec_len(),
                keys == self.pending_requests.key_seq(),
                keys.len() == n,
                keys.no_duplicates(),
                self.pending_requests.value_seq().len() == n,
                i <= n,
                src.len() == ids@.len(),
                forall|j: int| 0 <= j < src.len() ==> 0 <= #[trigger] src[j] < i && ids@[j]@ == keys[src[j]]
                    && now > self.pending_requests.value_seq()[src[j]].timeout_at,
                forall|j1: int, j2: int| 0 <= j1 < j2 < src.len() ==> src[j1] < src[j2],
                forall|t: int| 0 <= t < i && now > #[trigger] self.pending_requests.value_seq()[t].timeout_at
                    ==> exists|j: int| 0 <= j < src.len() && src[j] == t,
            decreases n - i,
        {
            let (k, p) = self.pending_requests.entry_at(i);
            let ghost old_src = src;
            if now > p.timeout_at {
                ids.push(k.clone());
                proof { src = src.push(i as int); }
            }
            proof {
                assert forall|t: int| 0 <= t < i + 1 && now > #[trigger] self.pending_requests.value_seq()[t].timeout_at
                    implies exists|j: int| 0 <= j < src.len() && src[j] == t by {
                    if t == i {
                        assert(src[src.len() - 1] == t);
                    } else {
                        let j = choose|j: int| 0 <= j < old_src.len() && old_src[j] == t;
                        assert(src[j] == old_src[j]);
                    }
                }
            }
            i += 1;
        }
        proof {
            let idv = string_views(ids@);
            assert forall|k: Seq<char>| #[trigger] idv.contains(k) <==>
                (self.spec_pending().dom().contains(k) && now > self.spec_pending()[k].timeout_at) by {
                if idv.contains(k) {
                    let j = choose|j: int| 0 <= j < idv.len() && idv[j] == k;
                    assert(keys[src[j]] == k);
                    assert(self.pending_requests@[keys[src[j]]] == self.pending_requests.value_seq()[src[j]]);
                }
                if self.spec_pending().dom().contains(k) && now > self.spec_pending()[k].timeout_at {
                    let t = keys.index_of(k);
                    assert(self.pending_requests@[keys[t]] == self.pending_requests.value_seq()[t]);
                    let j = choose|j: int| 0 <= j < src.len() && src[j] == t;
                    assert(idv[j] == k);
                }
            }
            assert forall|a: int, b: int| 0 <= a < b < idv.len() implies idv[a] != idv[b] by {
                assert(src[a] < src[b]);
            }
        }
        ids
    }

    /// Drops, at time `now`, every request past its expiry, telling each
    /// caller it timed out; returns how many were dropped.
    pub fn cleanup_expired_at(&mut self, now: u64) -> (count: usize)
        ensures
            final(self).spec_timeout_ms() == old(self).spec_timeout_ms(),
            forall|k: Seq<char>| #[trigger] final(self).spec_pending().dom().contains(k) <==>
                (old(self).spec_pending().dom().contains(k) && now <= old(self).spec_pending()[k].timeout_at),
            forall|k: Seq<char>| #[trigger] final(self).spec_pending().dom().contains(k) ==>
                final(self).spec_pending()[k] == old(self).spec_pending()[k],
            count + final(self).spec_pending().dom().len() == old(self).spec_pending().dom().len(),
    {
        let ids = self.expired_ids(now);
        let ghost idv = string_views(ids@);
        let ghost start = self.spec_pending();
        let _ = self.pending_requests.len();
        assert(start.dom() =~= self.pending_requests@.dom());
        let secs = duration_to_ms(self.default_timeout) / 1000;
        let count = ids.len();
        let mut j: usize = 0;
        while j < ids.len()
            invariant
                j <= ids@.len(),
                idv == string_views(ids@),
                idv.no_duplicates(),
                forall|k: Seq<char>| #[trigger] idv.contains(k) ==> start.dom().contains(k),
                self.spec_pending() == start.remove_keys(idv.take(j as int).to_set()),
                self.spec_timeout_ms() == old(self).spec_timeout_ms(),
                start.dom().finite(),
            decreases ids@.len() - j,
        {
            let id = &ids[j];
            let ghost before = self.spec_pending();
            let removed = self.pending_requests.remove(id.as_str());
            assert(self.spec_pending() =~= before.remove(id@));
            proof {
                assert(idv.take(j + 1) == idv.take(j as int).push(idv[j as int]));
                idv.take(j as int).lemma_push_to_set_commute(idv[j as int]);
                assert(id@ == idv[j as int]);
                assert(self.spec_pending() =~= start.remove_keys(idv.take(j + 1).to_set()));
            }
            match removed {
                Some(pending) => {
                    let error = RpcError {
                        code: INTERNAL_ERROR,
                        message: expiry_notice(id.as_str(), self.default_timeout),
                        data: Some(expiry_details(pending.method.as_str(), secs)),
                    };
                    let _ = deliver(pending.response_tx, Err(error));
                },
                None => {},
            }
            j += 1;
        }
        proof {
            assert(idv.take(j as int) == idv);
            let gone = idv.to_set();
            assert forall|k: Seq<char>| #[trigger] self.spec_pending().dom().contains(k) <==>
                (old(self).spec_pending().dom().contains(k) && now <= old(self).spec_pending()[k].timeout_at) by {
            }
            idv.unique_seq_to_set();
            assert(gone.subset_of(start.dom()));
            assert(self.spec_pending().dom() =~= start.dom().difference(gone));
            vstd::set_lib::lemma_set_difference_len(start.dom(), gone);
            assert(start.dom().intersect(gone) =~= gone);
            assert(ids@.len() == idv.len());
        }
        count
    }

    /// Drops every request past its expiry, telling each caller it timed out.
    pub fn cleanup_expired(&mut self) -> (count: usize)
        ensures
            count + final(self).spec_pending().dom().len() == old(self).spec_pending().dom().len(),
            final(self).spec_timeout_ms() == old(self).spec_timeout_ms(),
            forall|k: Seq<char>| #[trigger] final(self).spec_pending().dom().contains(k) ==>
                old(self).spec_pending().dom().contains(k) && final(self).spec_pending()[k] == old(self).spec_pending()[k],
            exists|now: u64| #[trigger] expired_requests_dropped(old(self).spec_pending(), final(self).spec_pending(), now),
    {
        let now = now_ms();
        let count = self.cleanup_expired_at(now);
        assert(expired_requests_dropped(old(self).spec_pending(), self.spec_pending(), now));
        count
    }

    /// The number of pending requests.
    pub fn pending_count(&self) -> (n: usize)
        ensures
            n == self.spec_pending().dom().len(),
    {
        let n = self.pending_requests.len();
        assert(self.spec_pending().dom() =~= self.pending_requests@.dom());
        n
    }

    /// The ids of the pending requests, in registration order.
    pub fn pending_request_ids(&self) -> (ids: Vec<String>)
        ensures
            ids@.len() == self.spec_pending().dom().len(),
            forall|k: Seq<char>| #[trigger] string_views(ids@).contains(k) <==> self.spec_pending().dom().contains(k),
    {
        let n = self.pending_requests.len();
        let ghost keys = self.pending_requests.key_seq();
        let mut ids: Vec<String> = Vec::new();
        let mut i: usize = 0;
        while i < n
            invariant
                n == self.pending_requests.spec_len(),
                keys == self.pending_requests.key_seq(),
                keys.len() == n,
                i <= n,
                ids@.len() == i,
                forall|j: int| 0 <= j < i ==> #[trigger] ids@[j]@ == keys[j],
            decreases n - i,
        {
            let (k, _p) = self.pending_requests.entry_at(i);
            ids.push(k.clone());
            i += 1;
        }
        proof {
            assert(self.spec_pending().dom() =~= self.pending_requests@.dom());
            let idv = string_views(ids@);
            assert(idv =~= keys);
        }
        ids
    }

    /// Cancels the request with the given id, telling its caller; `false`
    /// when no such request is pending.
    pub fn cancel_request(&mut self, request_id: &str) -> (b: bool)
        ensures
            b == old(self).spec_pending().dom().contains(request_id@),
            final(self).spec_pending() == old(self).spec_pending().remove(request_id@),
            final(self).spec_timeout_ms() == old(self).spec_timeout_ms(),
    {
        let removed = self.pending_requests.remove(request_id);
        assert(self.spec_pending() =~= old(self).spec_pending().remove(request_id@));
        match removed {
            Some(cancelled) => {
                let error = make_error(framed("Request ", request_id, " was cancelled"));
                let _ = deliver(cancelled.response_tx, Err(error));
                true
            },
            None => false,
        }
    }

    /// Cancels every pending request, telling each caller; returns how many
    /// there were.
    pub fn cancel_all(&mut self) -> (count: usize)
        ensures
            count == old(self).spec_pending().dom().len(),
            final(self).spec_pending() == Map::<Seq<char>, PendingInfo>::empty(),
            final(self).spec_timeout_ms() == old(self).spec_timeout_ms(),
    {
        let ids = self.pending_request_ids();
        let count = ids.len();
        assert(ids@.skip(0) == ids@);
        let mut j: usize = 0;
        while j < ids.len()
            invariant
                j <= ids@.len(),
                self.spec_timeout_ms() == old(self).spec_timeout_ms(),
                forall|k: Seq<char>| #[trigger] self.spec_pending().dom().contains(k) ==>
                    string_views(ids@.skip(j as int)).contains(k),
            decreases ids@.len() - j,
        {
            let id = &ids[j];
            let ghost before = self.spec_pending();
            let removed = self.pending_requests.remove(id.as_str());
            assert(self.spec_pending() =~= before.remove(id@));
            proof {
                assert forall|k: Seq<char>| #[trigger] self.spec_pending().dom().contains(k) implies
                    string_views(ids@.skip(j + 1)).contains(k) by {
                    let prev = string_views(ids@.skip(j as int));
                    assert(before.dom().contains(k));
                    assert(prev.contains(k));
                    assert(prev[0] == id@);
                    let t = choose|t: int| 0 <= t < prev.len() && prev[t] == k;
                    assert(t != 0);
                    assert(string_views(ids@.skip(j + 1))[t - 1] == k);
                }
            }
            match removed {
                Some(cancelled) => {
                    let error = make_error(framed("Request ", id.as_str(), " was cancelled due to shutdown"));
                    let _ = deliver(cancelled.response_tx, Err(error));
                },
                None => {},
            }
            j += 1;
        }
        proof {
            assert(self.spec_pending() =~= Map::<Seq<char>, PendingInfo>::empty());
        }
        count
    }
}

impl Default for RpcCorrelationManager {
    fn default() -> (m: Self)
        ensures
            m.spec_pending() == Map::<Seq<char>, PendingInfo>::empty(),
            m.spec_timeout_ms() == 30000,
    {
        Self::new()
    }
}

/// A request is answered at most once: once a response, an error or a
/// cancellation has taken it, it is no longer pending, so a second answer
/// for the same id is refused.
pub proof fn lemma_answered_at_most_once(pending: Map<Seq<char>, PendingInfo>, id: Seq<char>)
    ensures
        !pending.remove(id).dom().contains(id),
{
}

} // verus!
