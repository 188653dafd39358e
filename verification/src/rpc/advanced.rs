//! Bidirectional RPC: correlation of requests with responses under a
//! timeout, a registry of method handlers, batches, and how a caller's wait
//! for a response settles into a result.

use std::time::Duration;
use tokio::sync::oneshot::{Receiver, Sender};
use vstd::prelude::*;
use crate::clock::{duration_to_ms, new_uuid, now_ms, saturated_ms};
use crate::rpc::correlation::{deliver, framed, reply_channel};
use crate::strmap::StrMap;
use crate::text::{char_vec, concat_str, extend_chars, lit, string_views};

verus! {

/// RPC Request structure
#[derive(Debug, Clone)]
pub struct RpcRequest {
    pub id: String,
    pub method: String,
    pub params: serde_json::Value,
}

/// RPC Response structure
#[derive(Debug, Clone)]
pub struct RpcResponse {
    pub id: String,
    pub result: Option<serde_json::Value>,
    pub error: Option<String>,
}

/// RPC Error types
#[derive(Debug, Clone)]
pub enum RpcError {
    ConnectionFailed(String),
    Timeout(String),
    MethodNotFound(String),
    InvalidParams(String),
    InternalError(String),
}

/// What a waiting caller receives.
pub type Reply = Result<RpcResponse, RpcError>;

/// A request awaiting its response; `timeout` in milliseconds since the
/// UNIX epoch.
struct PendingRequest {
    response_tx: Sender<Reply>,
    timeout: u64,
}

/// Whether the request `id` is awaited at `now`: pending, and expiring
/// later.
pub open spec fn awaited_at(pending: Map<Seq<char>, u64>, id: Seq<char>, now: u64) -> bool {
    pending.dom().contains(id) && pending[id] > now
}

/// `after` holds exactly the requests of `before` whose expiry is later
/// than `now`, unchanged.
pub open spec fn unexpired_kept(before: Map<Seq<char>, u64>, after: Map<Seq<char>, u64>, now: u64) -> bool {
    &&& forall|k: Seq<char>| #[trigger] after.dom().contains(k) <==> (before.dom().contains(k) && before[k] > now)
    &&& forall|k: Seq<char>| #[trigger] after.dom().contains(k) ==> after[k] == before[k]
}

/// Correlates requests with responses and expires them after a timeout.
pub struct RpcCorrelationManager {
    pending_requests: StrMap<PendingRequest>,
    timeout_duration: Duration,
}

impl RpcCorrelationManager {
    /// When each pending request expires, by id.
    pub closed spec fn spec_pending(&self) -> Map<Seq<char>, u64> {
        Map::new(|k: Seq<char>| self.pending_requests@.dom().contains(k), |k: Seq<char>| self.pending_requests@[k].timeout)
    }

    pub closed spec fn spec_timeout_ms(&self) -> u64 {
        saturated_ms(self.timeout_duration)
    }

    pub fn new(timeout_duration: Duration) -> (m: Self)
        ensures
            m.spec_pending() == Map::<Seq<char>, u64>::empty(),
            m.spec_timeout_ms() == saturated_ms(timeout_duration),
    {
        let m = Self { pending_requests: StrMap::new(), timeout_duration };
        assert(m.spec_pending() =~= Map::<Seq<char>, u64>::empty());
        m
    }

    /// Registers a request at time `now`; it expires after the timeout (or
    /// at the end of the clock's range).
    pub fn register_request_at(&mut self, request_id: String, now: u64) -> (rx: Receiver<Reply>)
        ensures
            final(self).spec_timeout_ms() == old(self).spec_timeout_ms(),
            final(self).spec_pending() == old(self).spec_pending().insert(
                request_id@,
                crate::rpc::correlation::request_expiry(now, old(self).spec_timeout_ms()),
            ),
    {
        let (response_tx, response_rx) = reply_channel::<Reply>();
        let t = duration_to_ms(self.timeout_duration);
        let timeout = if now <= u64::MAX - t { now + t } else { u64::MAX };
        let ghost key = request_id@;
        self.pending_requests.insert(request_id, PendingRequest { response_tx, timeout });
        assert(self.spec_pending() =~= old(self).spec_pending().insert(key, timeout));
        response_rx
    }

    pub fn register_request(&mut self, request_id: String) -> (rx: Receiver<Reply>)
        ensures
            final(self).spec_pending().dom() == old(self).spec_pending().dom().insert(request_id@),
            final(self).spec_timeout_ms() == old(self).spec_timeout_ms(),
            exists|now: u64| final(self).spec_pending() == old(self).spec_pending().insert(
                request_id@,
                #[trigger] crate::rpc::correlation::request_expiry(now, old(self).spec_timeout_ms()),
            ),
    {
        let ghost key = request_id@;
        let now = now_ms();
        let r = self.register_request_at(request_id, now);
        assert(self.spec_pending().dom() =~= old(self).spec_pending().dom().insert(key));
        assert(self.spec_pending() == old(self).spec_pending().insert(key,
            crate::rpc::correlation::request_expiry(now, old(self).spec_timeout_ms())));
        r
    }

    /// Hands a response, at time `now`, to the request with its id while it
    /// has not expired; the request is no longer pending afterwards.
    pub fn handle_response_at(&mut self, response: RpcResponse, now: u64) -> (r: Result<(), RpcError>)
        ensures
            final(self).spec_pending() == old(self).spec_pending().remove(response.id@),
            final(self).spec_timeout_ms() == old(self).spec_timeout_ms(),
            (r is Ok) == (old(self).spec_pending().dom().contains(response.id@)
                && old(self).spec_pending()[response.id@] > now),
            old(self).spec_pending().dom().contains(response.id@) && old(self).spec_pending()[response.id@] <= now ==>
                (r matches Err(RpcError::Timeout(m)) && m@ == "Request "@ + response.id@ + " timed out"@),
            !old(self).spec_pending().dom().contains(response.id@) ==>
                (r matches Err(RpcError::InternalError(m)) && m@ == "No pending request found for ID: "@ + response.id@),
    {
        let removed = self.pending_requests.remove(response.id.as_str());
        assert(self.spec_pending() =~= old(self).spec_pending().remove(response.id@));
        match removed {
            Some(pending) => {
                if pending.timeout > now {
                    let _ = deliver(pending.response_tx, Ok(response));
                    Ok(())
                } else {
                    Err(RpcError::Timeout(framed("Request ", response.id.as_str(), " timed out")))
                }
            },
            None => Err(RpcError::InternalError(crate::text::concat_str("No pending request found for ID: ", &crate::text::char_vec(response.id.as_str())))),
        }
    }

    pub fn handle_response(&mut self, response: RpcResponse) -> (r: Result<(), RpcError>)
        ensures
            final(self).spec_pending() == old(self).spec_pending().remove(response.id@),
            r is Ok ==> old(self).spec_pending().dom().contains(response.id@),
            final(self).spec_timeout_ms() == old(self).spec_timeout_ms(),
            !old(self).spec_pending().dom().contains(response.id@) ==>
                (r matches Err(RpcError::InternalError(m)) && m@ == "No pending request found for ID: "@ + response.id@),
            old(self).spec_pending().dom().contains(response.id@) && r is Err ==>
                (r matches Err(RpcError::Timeout(m)) && m@ == "Request "@ + response.id@ + " timed out"@),
            exists|now: u64| (r is Ok) == #[trigger] awaited_at(old(self).spec_pending(), response.id@, now),
    {
        let now = now_ms();
        let ghost id = response.id@;
        let r = self.handle_response_at(response, now);
        assert((r is Ok) == awaited_at(old(self).spec_pending(), id, now));
        r
    }

    /// Drops, at time `now`, every request whose expiry has come, telling
    /// each caller it expired.
    pub fn cleanup_expired_at(&mut self, now: u64)
        ensures
            final(self).spec_timeout_ms() == old(self).spec_timeout_ms(),
            forall|k: Seq<char>| #[trigger] final(self).spec_pending().dom().contains(k) <==>
                (old(self).spec_pending().dom().contains(k) && old(self).spec_pending()[k] > now),
            forall|k: Seq<char>| #[trigger] final(self).spec_pending().dom().contains(k) ==>
                final(self).spec_pending()[k] == old(self).spec_pending()[k],
    {
        let n = self.pending_requests.len();
        let ghost keys = self.pending_requests.key_seq();
        let mut expired: Vec<String> = Vec::new();
        let mut i: usize = 0;
        while i < n
            invariant
                n == self.pending_requests.spec_len(),
                keys == self.pending_requests.key_seq(),
                keys.len() == n,
                self.pending_requests.value_seq().len() == n,
                i <= n,
                forall|k: Seq<char>| #[trigger] crate::text::string_views(expired@).contains(k) <==>
                    exists|t: int| 0 <= t < i && keys[t] == k && #[trigger] self.pending_requests.value_seq()[t].timeout <= now,
            decreases n - i,
        {
            let (k, p) = self.pending_requests.entry_at(i);
            let ghost before = expired@;
            if p.timeout <= now {
                expired.push(k.clone());
            }
            proof {
                let sv = crate::text::string_views(expired@);
                let sb = crate::text::string_views(before);
                assert forall|kk: Seq<char>| #[trigger] sv.contains(kk) <==>
                    exists|t: int| 0 <= t < i + 1 && keys[t] == kk && #[trigger] self.pending_requests.value_seq()[t].timeout <= now by {
                    if sv.contains(kk) {
                        let j = choose|j: int| 0 <= j < sv.len() && sv[j] == kk;
                        if j < sb.len() {
                            assert(sb[j] == kk);
                            assert(sb.contains(kk));
                        } else {
                            assert(keys[i as int] == kk);
                            assert(self.pending_requests.value_seq()[i as int].timeout <= now);
                        }
                    }
                    if exists|t: int| 0 <= t < i + 1 && keys[t] == kk && #[trigger] self.pending_requests.value_seq()[t].timeout <= now {
                        let t = choose|t: int| 0 <= t < i + 1 && keys[t] == kk && #[trigger] self.pending_requests.value_seq()[t].timeout <= now;
                        if t < i {
                            assert(sb.contains(kk));
                            let j = choose|j: int| 0 <= j < sb.len() && sb[j] == kk;
                            assert(sv[j] == kk);
                        } else {
                            assert(sv[sv.len() - 1] == kk);
                        }
                    }
                }
            }
            i += 1;
        }
        let ghost start = self.spec_pending();
        let ghost gone = crate::text::string_views(expired@);
        proof {
            assert forall|k: Seq<char>| #[trigger] gone.contains(k) <==> (start.dom().contains(k) && start[k] <= now) by {
                if gone.contains(k) {
                    let t = choose|t: int| 0 <= t < n && keys[t] == k && #[trigger] self.pending_requests.value_seq()[t].timeout <= now;
                    assert(self.pending_requests@[keys[t]] == self.pending_requests.value_seq()[t]);
                }
                if start.dom().contains(k) && start[k] <= now {
                    let t = keys.index_of(k);
                    assert(self.pending_requests@[keys[t]] == self.pending_requests.value_seq()[t]);
                }
            }
        }
        let mut j: usize = 0;
        while j < expired.len()
            invariant
                j <= expired@.len(),
                gone == crate::text::string_views(expired@),
                forall|k: Seq<char>| #[trigger] self.spec_pending().dom().contains(k) <==>
                    (start.dom().contains(k) && !crate::text::string_views(expired@.take(j as int)).contains(k)),
                forall|k: Seq<char>| #[trigger] self.spec_pending().dom().contains(k) ==> self.spec_pending()[k] == start[k],
                self.spec_timeout_ms() == old(self).spec_timeout_ms(),
            decreases expired@.len() - j,
        {
            let id = &expired[j];
            let ghost before = self.spec_pending();
            let removed = self.pending_requests.remove(id.as_str());
            proof {
                assert(self.spec_pending() =~= before.remove(id@));
                let pre = crate::text::string_views(expired@.take(j as int));
                let post = crate::text::string_views(expired@.take(j + 1));
                assert(post == pre.push(id@));
                assert forall|k: Seq<char>| #[trigger] self.spec_pending().dom().contains(k) <==>
                    (start.dom().contains(k) && !post.contains(k)) by {
                    if post.contains(k) && k != id@ {
                        let t = choose|t: int| 0 <= t < post.len() && post[t] == k;
                        assert(pre[t] == k);
                    }
                    if pre.contains(k) {
                        let t = choose|t: int| 0 <= t < pre.len() && pre[t] == k;
                        assert(post[t] == k);
                    }
                    if k == id@ {
                        assert(post[j as int] == k);
                    }
                }
            }
            match removed {
                Some(pending) => {
                    let _ = deliver(pending.response_tx, Err(RpcError::Timeout("Request expired".to_string())));
                },
                None => {},
            }
            j += 1;
        }
        proof {
            assert(expired@.take(j as int) == expired@);
        }
    }

    /// Drops, now, every request whose expiry has come, telling each
    /// caller it expired.
    pub fn cleanup_expired(&mut self)
        ensures
            forall|k: Seq<char>| #[trigger] final(self).spec_pending().dom().contains(k) ==>
                old(self).spec_pending().dom().contains(k),
            final(self).spec_timeout_ms() == old(self).spec_timeout_ms(),
            exists|now: u64| #[trigger] unexpired_kept(old(self).spec_pending(), final(self).spec_pending(), now),
    {
        let now = now_ms();
        self.cleanup_expired_at(now);
        assert(unexpired_kept(old(self).spec_pending(), self.spec_pending(), now));
    }

    pub fn pending_count(&self) -> (n: usize)
        ensures
            n == self.spec_pending().dom().len(),
    {
        let n = self.pending_requests.len();
        assert(self.spec_pending().dom() =~= self.pending_requests@.dom());
        n
    }
}

/// A request for `method` with `params` under a fresh random id.
pub fn new_request(method: &str, params: serde_json::Value) -> (r: RpcRequest)
    ensures
        r.method@ == method@,
        r.params == params,
{
    RpcRequest { id: new_uuid(), method: method.to_string(), params }
}

/// The answer of the simulated peer: under the request's id, the result
/// `{"echo": params, "method": method}` and no error.
pub fn echo_response(request: &RpcRequest) -> (r: RpcResponse)
    ensures
        r.id@ == request.id@,
        r.result is Some,
        r.error is None,
{
    let mut result = serde_json::Map::new();
    let _ = result.insert("echo".to_string(), request.params.clone());
    let _ = result.insert("method".to_string(), serde_json::Value::from(request.method.clone()));
    RpcResponse { id: request.id.clone(), result: Some(serde_json::Value::from(result)), error: None }
}

/// How a caller's wait for its response ended.
#[derive(Debug)]
pub enum WaitOutcome {
    /// The response, or the error, that was handed over.
    Received(Reply),
    /// The sending side went away without an answer.
    ChannelClosed,
    /// The caller's own timeout passed first.
    TimedOut,
}

/// The result a caller gets from a wait: the response's result; its error
/// text as an internal error; `Empty response` when it has neither; the
/// handed-over error; or a connection or timeout error.
pub fn settle(outcome: WaitOutcome) -> (r: Result<serde_json::Value, RpcError>)
    ensures
        match outcome {
            WaitOutcome::Received(Ok(resp)) => match resp.result {
                Some(v) => r == Ok::<serde_json::Value, RpcError>(v),
                None => match resp.error {
                    Some(e) => r matches Err(RpcError::InternalError(m)) && m == e,
                    None => r matches Err(RpcError::InternalError(m)) && m@ == "Empty response"@,
                },
            },
            WaitOutcome::Received(Err(e)) => r matches Err(x) && x == e,
            WaitOutcome::ChannelClosed => r matches Err(RpcError::ConnectionFailed(m)) && m@ == "Response channel closed"@,
            WaitOutcome::TimedOut => r matches Err(RpcError::Timeout(m)) && m@ == "Request timed out"@,
        },
{
    match outcome {
        WaitOutcome::Received(Ok(response)) => {
            if let Some(result) = response.result {
                Ok(result)
            } else if let Some(error) = response.error {
                Err(RpcError::InternalError(error))
            } else {
                Err(RpcError::InternalError("Empty response".to_string()))
            }
        },
        WaitOutcome::Received(Err(e)) => Err(e),
        WaitOutcome::ChannelClosed => Err(RpcError::ConnectionFailed("Response channel closed".to_string())),
        WaitOutcome::TimedOut => Err(RpcError::Timeout("Request timed out".to_string())),
    }
}

/// Batch RPC Request
#[derive(Debug, Clone)]
pub struct BatchRpcRequest {
    pub requests: Vec<RpcRequest>,
}

/// Batch RPC Response
#[derive(Debug, Clone)]
pub struct BatchRpcResponse {
    pub responses: Vec<RpcResponse>,
}


/// A handler of one RPC method: it maps the parameters of a call to its
/// result.
pub trait RpcHandler {
    fn handle(&self, params: serde_json::Value) -> Result<serde_json::Value, RpcError>;
}

/// A registry of method handlers, by method name.
pub struct RpcMethodRegistry {
    methods: StrMap<Box<dyn RpcHandler>>,
}

impl RpcMethodRegistry {
    /// The names of the registered methods.
    pub closed spec fn spec_methods(&self) -> Set<Seq<char>> {
        self.methods@.dom()
    }

    pub fn new() -> (r: Self)
        ensures
            r.spec_methods() == Set::<Seq<char>>::empty(),
    {
        Self { methods: StrMap::new() }
    }

    /// Registers a handler under a method name, in place of any earlier one.
    pub fn register<H: RpcHandler + 'static>(&mut self, method: &str, handler: H)
        ensures
            final(self).spec_methods() == old(self).spec_methods().insert(method@),
    {
        let boxed: Box<dyn RpcHandler> = Box::new(handler);
        let ghost before = self.methods@;
        let _ = self.methods.insert(method.to_string(), boxed);
        proof { vstd::map::axiom_map_insert_domain(before, method@, boxed); }
    }

    /// Calls the handler registered under `method` with the parameters;
    /// an unknown method is answered with `MethodNotFound`.
    pub fn call(&self, method: &str, params: serde_json::Value) -> (r: Result<serde_json::Value, RpcError>)
        ensures
            !self.spec_methods().contains(method@) ==>
                (r matches Err(RpcError::MethodNotFound(m)) && m@ == "Method '"@ + method@ + "' not found"@),
    {
        match self.methods.get(method) {
            Some(handler) => handler.handle(params),
            None => {
                let mut text = char_vec(method);
                extend_chars(&mut text, &lit("' not found"));
                Err(RpcError::MethodNotFound(concat_str("Method '", &text)))
            },
        }
    }

    /// The names of the registered methods, each once.
    pub fn methods(&self) -> (names: Vec<String>)
        ensures
            names@.len() == self.spec_methods().len(),
            forall|k: Seq<char>| #[trigger] string_views(names@).contains(k) <==> self.spec_methods().contains(k),
    {
        let n = self.methods.len();
        let ghost keys = self.methods.key_seq();
        let mut names: Vec<String> = Vec::new();
        let mut i: usize = 0;
        while i < n
            invariant
                n == self.methods.spec_len(),
                keys == self.methods.key_seq(),
                keys.len() == n,
                i <= n,
                names@.len() == i,
                forall|j: int| 0 <= j < i ==> #[trigger] names@[j]@ == keys[j],
            decreases n - i,
        {
            let (k, _h) = self.methods.entry_at(i);
            names.push(k.clone());
            i += 1;
        }
        proof {
            let nv = string_views(names@);
            assert(nv =~= keys);
        }
        names
    }
}

} // verus!
