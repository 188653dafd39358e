//! RPC Client
//!
//! Client side of the RPC protocol: request ids, calls, subscriptions and
//! the hand-over of responses to the correlation manager.

use std::marker::PhantomData;
use tokio::sync::mpsc::{UnboundedReceiver, UnboundedSender};
use vstd::prelude::*;
use vstd::string::StringSliceAdditionalSpecFns;
use crate::codec::{value_to_vec, JsonCodec};
use crate::rpc::correlation::RpcCorrelationManager;
use crate::rpc::types::{method_name, RpcError, RpcMethod, RpcResponse, SubscribeMessagesParams};
use crate::strmap::StrMap;
use crate::text::{char_vec, concat_str, contains_seq, decimal, decimal_chars, extend_bytes, str_contains};
use crate::reactive::WebSocketContext;
use crate::transport::{Message, MessageType};

verus! {

#[verifier::external_type_specification]
#[verifier::external_body]
#[verifier::reject_recursive_types(T)]
pub struct ExUnboundedSender<T>(UnboundedSender<T>);

#[verifier::external_type_specification]
#[verifier::external_body]
#[verifier::reject_recursive_types(T)]
pub struct ExUnboundedReceiver<T>(UnboundedReceiver<T>);

/// `tokio::sync::mpsc::unbounded_channel`: a connected sender and receiver
/// of messages.
#[verifier::external_body]
fn message_channel() -> (UnboundedSender<Message>, UnboundedReceiver<Message>) {
    tokio::sync::mpsc::unbounded_channel()
}

/// `UnboundedSender::send`: hands the message to the channel. Whether a
/// receiver is still there to take it depends on the other side, so the
/// outcome is not stated.
#[verifier::external_body]
fn send_on(tx: &UnboundedSender<Message>, message: Message) -> bool {
    tx.send(message).is_ok()
}

/// A lowercase hexadecimal digit.
pub open spec fn hex_digit(d: u32) -> u8 {
    (if d < 10 { 0x30 + d } else { 0x61 + d - 10 }) as u8
}

/// How a JSON string writes one character: quote and backslash behind a
/// backslash; backspace, tab, line feed, form feed and carriage return as
/// `\b`, `\t`, `\n`, `\f`, `\r`; the other control characters below
/// 0x20 as `\u00` and two lowercase hexadecimal digits; any other
/// character as its UTF-8 bytes.
pub open spec fn json_char_text(c: char) -> Seq<u8> {
    let n = c as u32;
    if c == '"' {
        seq![0x5cu8, 0x22u8]
    } else if c == '\\' {
        seq![0x5cu8, 0x5cu8]
    } else if n == 8 {
        seq![0x5cu8, 0x62u8]
    } else if n == 9 {
        seq![0x5cu8, 0x74u8]
    } else if n == 10 {
        seq![0x5cu8, 0x6eu8]
    } else if n == 12 {
        seq![0x5cu8, 0x66u8]
    } else if n == 13 {
        seq![0x5cu8, 0x72u8]
    } else if n < 0x20 {
        seq![0x5cu8, 0x75u8, 0x30u8, 0x30u8, hex_digit(n / 16), hex_digit(n % 16)]
    } else {
        vstd::utf8::encode_utf8(seq![c])
    }
}

/// The characters of a JSON string between its quotes.
pub open spec fn json_string_body(s: Seq<char>) -> Seq<u8>
    decreases s.len(),
{
    if s.len() == 0 {
        Seq::<u8>::empty()
    } else {
        json_string_body(s.drop_last()) + json_char_text(s.last())
    }
}

/// The JSON text of a string: its characters, each written as a JSON
/// string writes it, between double quotes.
pub open spec fn json_string_text(s: Seq<char>) -> Seq<u8> {
    seq![0x22u8] + json_string_body(s) + seq![0x22u8]
}

/// `serde_json::to_vec` on a string: its JSON text. Writing a string into
/// a byte vector cannot fail (serde's error is kept for the type's sake).
#[verifier::external_body]
fn string_json(s: &str) -> (r: Result<Vec<u8>, String>)
    ensures
        r is Ok,
        r->Ok_0@ == json_string_text(s@),
{
    serde_json::to_vec(s).map_err(|e| e.to_string())
}

/// The JSON text of a request: an object with the id, the method, the
/// parameters and the method type, in that order, from their JSON texts.
pub open spec fn request_frame(id_json: Seq<u8>, method_json: Seq<u8>, params_json: Seq<u8>, type_json: Seq<u8>) -> Seq<u8> {
    "{\"id\":".spec_bytes() + id_json + ",\"method\":".spec_bytes() + method_json + ",\"params\":".spec_bytes()
        + params_json + ",\"method_type\":".spec_bytes() + type_json + "}".spec_bytes()
}

/// Frames a request from the JSON texts of its parts.
pub fn request_frame_bytes(id_json: &[u8], method_json: &[u8], params_json: &[u8], type_json: &[u8]) -> (v: Vec<u8>)
    ensures
        v@ == request_frame(id_json@, method_json@, params_json@, type_json@),
{
    let mut v: Vec<u8> = Vec::new();
    extend_bytes(&mut v, "{\"id\":".as_bytes());
    extend_bytes(&mut v, id_json);
    extend_bytes(&mut v, ",\"method\":".as_bytes());
    extend_bytes(&mut v, method_json);
    extend_bytes(&mut v, ",\"params\":".as_bytes());
    extend_bytes(&mut v, params_json);
    extend_bytes(&mut v, ",\"method_type\":".as_bytes());
    extend_bytes(&mut v, type_json);
    extend_bytes(&mut v, "}".as_bytes());
    proof {
        assert(v@ =~= request_frame(id_json@, method_json@, params_json@, type_json@));
    }
    v
}

/// `m` is the text message of a request with this id, method and method
/// type, for some JSON text of its parameters.
pub open spec fn is_request_message(m: Message, id: Seq<char>, method: Seq<char>, method_type: RpcMethod) -> bool {
    &&& m.message_type == MessageType::Text
    &&& exists|params_json: Seq<u8>| m.data@ == #[trigger] request_frame(
        json_string_text(id), json_string_text(method), params_json, json_string_text(method_name(method_type)))
}

/// The error for a request that could not be written as JSON, with the
/// serde error's message.
fn parse_error(reason: String) -> (e: RpcError)
    ensures
        e.code == -32700,
        e.message@ == "Parse error: "@ + reason@,
        e.data is None,
{
    RpcError { code: -32700, message: concat_str("Parse error: ", &char_vec(reason.as_str())), data: None }
}

/// The JSON object `{"status": "success", "message": "Mock RPC response"}`.
fn mock_success_result() -> serde_json::Value {
    let mut result = serde_json::Map::new();
    let _ = result.insert("status".to_string(), serde_json::Value::from("success".to_string()));
    let _ = result.insert("message".to_string(), serde_json::Value::from("Mock RPC response".to_string()));
    serde_json::Value::from(result)
}

/// Resets the shared request counter. Each client numbers its own requests
/// from its own counter, and no request id is drawn from a shared one, so
/// there is nothing to reset and nothing changes.
pub fn reset_rpc_id_counter() {
}

/// The id of the request numbered `n`: `rpc_` followed by `n` in decimal.
pub open spec fn request_id(n: u64) -> Seq<char> {
    "rpc_"@ + decimal(n as nat)
}

/// The counter after one more id: one more, wrapping around at the end of
/// the range.
pub open spec fn next_counter(n: u64) -> u64 {
    if n == u64::MAX { 0 } else { (n + 1) as u64 }
}

/// Requests numbered differently get different ids.
pub proof fn lemma_request_ids_distinct(a: u64, b: u64)
    requires
        a != b,
    ensures
        request_id(a) != request_id(b),
{
    if request_id(a) == request_id(b) {
        let p = "rpc_"@;
        assert(request_id(a).skip(p.len() as int) =~= decimal(a as nat));
        assert(request_id(b).skip(p.len() as int) =~= decimal(b as nat));
        crate::text::lemma_decimal_injective(a as nat, b as nat);
    }
}

/// RPC subscription for streaming responses
#[derive(Debug)]
pub struct RpcSubscription<T> {
    pub id: String,
    _phantom: PhantomData<T>,
}

impl<T> RpcSubscription<T> {
    /// The subscription's id.
    pub closed spec fn spec_id(&self) -> Seq<char> {
        self.id@
    }

    pub fn new(id: String) -> (s: Self)
        ensures
            s.spec_id() == id@,
    {
        Self { id, _phantom: PhantomData }
    }
}

/// RPC client for WebSocket communication
pub struct RpcClient<T> {
    correlation_manager: RpcCorrelationManager,
    subscriptions: StrMap<RpcSubscription<T>>,
    message_sender: UnboundedSender<Message>,
    codec: JsonCodec,
    context: Option<WebSocketContext>,
    id_counter: u64,
    sent: Ghost<Seq<Message>>,
}

impl<T> RpcClient<T> {
    /// The messages handed to the sender so far, oldest first.
    pub closed spec fn spec_sent(&self) -> Seq<Message> {
        self.sent@
    }

    /// The number the next request id carries.
    pub closed spec fn spec_counter(&self) -> u64 {
        self.id_counter
    }

    /// The ids of the subscriptions held.
    pub closed spec fn spec_subscriptions(&self) -> Set<Seq<char>> {
        self.subscriptions@.dom()
    }

    /// The correlation manager of the client's requests.
    pub closed spec fn spec_correlation(&self) -> RpcCorrelationManager {
        self.correlation_manager
    }

    /// The WebSocket context the client was made from, if any.
    pub closed spec fn spec_context(&self) -> Option<WebSocketContext> {
        self.context
    }

    pub fn new(message_sender: UnboundedSender<Message>, codec: JsonCodec) -> (c: Self)
        ensures
            c.spec_counter() == 1,
            c.spec_subscriptions() == Set::<Seq<char>>::empty(),
            c.spec_context() is None,
            c.spec_sent() == Seq::<Message>::empty(),
    {
        let c = Self {
            correlation_manager: RpcCorrelationManager::new(),
            subscriptions: StrMap::new(),
            message_sender,
            codec,
            context: None,
            id_counter: 1,
            sent: Ghost(Seq::empty()),
        };
        assert(c.spec_subscriptions() =~= Set::<Seq<char>>::empty());
        c
    }

    /// A client made from a WebSocket context, which it keeps a copy of;
    /// its messages go to a channel that nobody reads.
    pub fn from_context(context: &WebSocketContext, codec: JsonCodec) -> (c: Self)
        ensures
            c.spec_counter() == 1,
            c.spec_subscriptions() == Set::<Seq<char>>::empty(),
            c.spec_context() is Some,
            c.spec_sent() == Seq::<Message>::empty(),
    {
        let (sender, _receiver) = message_channel();
        let mut client = Self::new(sender, codec);
        client.context = Some(context.clone());
        client
    }

    /// The WebSocket context the client was made from.
    pub fn context(&self) -> (c: &WebSocketContext)
        requires
            self.spec_context() is Some,
        ensures
            *c == self.spec_context()->0,
    {
        match &self.context {
            Some(c) => c,
            None => { proof { assert(false); } unreached() },
        }
    }

    /// A fresh request id, `rpc_<n>`, numbered by the client's counter.
    pub fn generate_id(&mut self) -> (id: String)
        ensures
            id@ == request_id(old(self).spec_counter()),
            final(self).spec_counter() == next_counter(old(self).spec_counter()),
            final(self).spec_subscriptions() == old(self).spec_subscriptions(),
            final(self).spec_correlation() == old(self).spec_correlation(),
            final(self).spec_sent() == old(self).spec_sent(),
    {
        let n = self.id_counter;
        self.id_counter = if n == u64::MAX { 0 } else { n + 1 };
        concat_str("rpc_", &decimal_chars(n))
    }

    /// Calls `method_name` with `params`: a fresh id is drawn and the
    /// request's JSON is sent as one text message; a request that cannot be
    /// written as JSON is a parse error. A method whose name contains
    /// `error` answers with an error, any other with a success result under
    /// the request's id.
    pub fn call(&mut self, method_name: &str, params: serde_json::Value, method_type: RpcMethod) -> (r: Result<RpcResponse<serde_json::Value>, RpcError>)
        ensures
            final(self).spec_counter() == next_counter(old(self).spec_counter()),
            final(self).spec_subscriptions() == old(self).spec_subscriptions(),
            final(self).spec_sent().len() == old(self).spec_sent().len() + 1,
            final(self).spec_sent().drop_last() == old(self).spec_sent(),
            is_request_message(final(self).spec_sent().last(), request_id(old(self).spec_counter()), method_name@, method_type),
            contains_seq(method_name@, "error"@) ==> (r matches Err(e) && e.code == -32603
                && e.message@ == "Simulated RPC error for testing"@ && e.data is None),
            !contains_seq(method_name@, "error"@) ==> (r matches Ok(resp)
                && resp.id@ == request_id(old(self).spec_counter()) && resp.result is Some && resp.error is None),
    {
        let id = self.generate_id();
        let id_json = match string_json(id.as_str()) {
            Ok(v) => v,
            Err(reason) => return Err(parse_error(reason)),
        };
        let method_json = match string_json(method_name) {
            Ok(v) => v,
            Err(reason) => return Err(parse_error(reason)),
        };
        let params_json = match value_to_vec(&params) {
            Ok(v) => v,
            Err(reason) => return Err(parse_error(reason)),
        };
        let type_json = match string_json(method_type.name()) {
            Ok(v) => v,
            Err(reason) => return Err(parse_error(reason)),
        };
        let data = request_frame_bytes(id_json.as_slice(), method_json.as_slice(), params_json.as_slice(), type_json.as_slice());
        let message = Message { data, message_type: MessageType::Text };
        proof {
            assert(message.data@ == request_frame(json_string_text(id@), json_string_text(method_name@), params_json@,
                json_string_text(crate::rpc::types::method_name(method_type))));
            self.sent@ = self.sent@.push(message);
            assert(self.sent@.drop_last() =~= old(self).spec_sent());
        }
        let _ = send_on(&self.message_sender, message);
        if str_contains(method_name, "error") {
            return Err(RpcError { code: -32603, message: "Simulated RPC error for testing".to_string(), data: None });
        }
        Ok(RpcResponse { id, result: Some(mock_success_result()), error: None })
    }

    /// Calls the method named after the method type.
    pub fn send_request(&mut self, method: RpcMethod, params: serde_json::Value) -> (r: Result<RpcResponse<serde_json::Value>, RpcError>)
        ensures
            final(self).spec_counter() == next_counter(old(self).spec_counter()),
            contains_seq(method_name(method), "error"@) <==> r is Err,
            r matches Ok(resp) ==> resp.id@ == request_id(old(self).spec_counter()),
            final(self).spec_sent().len() == old(self).spec_sent().len() + 1,
            final(self).spec_sent().drop_last() == old(self).spec_sent(),
            is_request_message(final(self).spec_sent().last(), request_id(old(self).spec_counter()), method_name(method), method),
    {
        let name = method.name();
        self.call(name, params, method)
    }

    /// A query call.
    pub fn query(&mut self, method: &str, params: serde_json::Value) -> (r: Result<RpcResponse<serde_json::Value>, RpcError>)
        ensures
            final(self).spec_counter() == next_counter(old(self).spec_counter()),
            contains_seq(method@, "error"@) <==> r is Err,
            r matches Ok(resp) ==> resp.id@ == request_id(old(self).spec_counter()),
            final(self).spec_sent().len() == old(self).spec_sent().len() + 1,
            final(self).spec_sent().drop_last() == old(self).spec_sent(),
            is_request_message(final(self).spec_sent().last(), request_id(old(self).spec_counter()), method@, RpcMethod::Query),
    {
        self.call(method, params, RpcMethod::Query)
    }

    /// A mutation call.
    pub fn mutation(&mut self, method: &str, params: serde_json::Value) -> (r: Result<RpcResponse<serde_json::Value>, RpcError>)
        ensures
            final(self).spec_counter() == next_counter(old(self).spec_counter()),
            contains_seq(method@, "error"@) <==> r is Err,
            r matches Ok(resp) ==> resp.id@ == request_id(old(self).spec_counter()),
            final(self).spec_sent().len() == old(self).spec_sent().len() + 1,
            final(self).spec_sent().drop_last() == old(self).spec_sent(),
            is_request_message(final(self).spec_sent().last(), request_id(old(self).spec_counter()), method@, RpcMethod::Mutation),
    {
        self.call(method, params, RpcMethod::Mutation)
    }

    /// A subscription under a fresh id; it is not kept by the client.
    pub fn subscribe(&mut self, params: SubscribeMessagesParams) -> (r: Result<RpcSubscription<T>, RpcError>)
        ensures
            r matches Ok(s) && s.spec_id() == request_id(old(self).spec_counter()),
            final(self).spec_counter() == next_counter(old(self).spec_counter()),
            final(self).spec_subscriptions() == old(self).spec_subscriptions(),
            final(self).spec_sent() == old(self).spec_sent(),
    {
        let id = self.generate_id();
        Ok(RpcSubscription::new(id))
    }

    /// Drops the subscription with the given id, if held.
    pub fn unsubscribe(&mut self, subscription_id: &str) -> (r: Result<(), RpcError>)
        ensures
            r is Ok,
            final(self).spec_subscriptions() == old(self).spec_subscriptions().remove(subscription_id@),
            final(self).spec_counter() == old(self).spec_counter(),
            final(self).spec_sent() == old(self).spec_sent(),
    {
        let _ = self.subscriptions.remove(subscription_id);
        assert(self.spec_subscriptions() =~= old(self).spec_subscriptions().remove(subscription_id@));
        Ok(())
    }

    /// Takes a decoded response, or the reason decoding failed, and hands
    /// the response to the waiting request.
    pub fn handle_response(&mut self, decoded: Result<RpcResponse<serde_json::Value>, String>) -> (r: Result<(), RpcError>)
        ensures
            decoded matches Err(reason) ==> (r matches Err(e) && e.code == -32700
                && e.message@ == "Parse error: "@ + reason@ && e.data is None),
            decoded matches Ok(resp) ==> (
                final(self).spec_correlation().spec_pending() == old(self).spec_correlation().spec_pending().remove(resp.id@)
                && (r matches Err(e) ==> (e.code == -32603 && e.message@ == "Failed to complete request"@ && e.data is None))
                && (!old(self).spec_correlation().spec_pending().dom().contains(resp.id@) ==> r is Err)),
    {
        match decoded {
            Err(reason) => Err(RpcError {
                code: -32700,
                message: concat_str("Parse error: ", &char_vec(reason.as_str())),
                data: None,
            }),
            Ok(response) => match self.correlation_manager.handle_response(response) {
                Ok(()) => Ok(()),
                Err(_) => Err(RpcError { code: -32603, message: "Failed to complete request".to_string(), data: None }),
            },
        }
    }
}

} // verus!
