//! Codec module for encoding and decoding WebSocket messages
//!
//! JSON-based codecs over serde, a hybrid codec that falls back from one
//! codec to the other, and a compression wrapper.

use vstd::prelude::*;

verus! {

/// Codec errors
#[derive(Debug)]
pub enum CodecError {
    SerializationFailed(String),
    DeserializationFailed(String),
    CompressionFailed(String),
    DecompressionFailed(String),
    CompressionNotSupported(String),
}

/// Trait for encoding and decoding messages
pub trait Codec<T>: Send + Sync where T: Send + Sync {
    /// Encode a message to bytes
    fn encode(&self, message: &T) -> Result<Vec<u8>, CodecError>;

    /// Decode bytes to a message
    fn decode(&self, data: &[u8]) -> Result<T, CodecError>;

    /// Get the content type for this codec
    fn content_type(&self) -> &'static str;
}

/// An encoding result whose error, if any, is a serialization failure.
pub open spec fn encode_failure_kind(r: Result<Vec<u8>, CodecError>) -> bool {
    r is Err ==> r->Err_0 is SerializationFailed
}

/// A decoding result whose error, if any, is a deserialization failure.
pub open spec fn decode_failure_kind<T>(r: Result<T, CodecError>) -> bool {
    r is Err ==> r->Err_0 is DeserializationFailed
}

/// A message type with a JSON form: what the JSON-based codecs carry.
pub trait JsonMessage: Sized + Send + Sync {
    /// The JSON text of the message, or why it has none.
    fn to_json(&self) -> Result<Vec<u8>, String>;

    /// The message that `data` holds as JSON, or why it holds none.
    fn from_json(data: &[u8]) -> Result<Self, String>;
}

/// `serde_json::to_vec` on a JSON value: its JSON text. A JSON value has
/// string keys only and writing into a byte vector cannot fail, so the
/// result is `Ok`; which text serde writes is left unsaid, as the value is
/// opaque here.
#[verifier::external_body]
pub(crate) fn value_to_vec(value: &serde_json::Value) -> (r: Result<Vec<u8>, String>)
    ensures
        r is Ok,
{
    serde_json::to_vec(value).map_err(|e| e.to_string())
}

/// `serde_json::from_slice` into a JSON value: the value that `data` holds,
/// or the message of the serde error. Which bytes parse to which value is
/// left unsaid.
#[verifier::external_body]
fn value_from_slice(data: &[u8]) -> (r: Result<serde_json::Value, String>) {
    serde_json::from_slice(data).map_err(|e| e.to_string())
}

impl JsonMessage for serde_json::Value {
    fn to_json(&self) -> Result<Vec<u8>, String> {
        value_to_vec(self)
    }

    fn from_json(data: &[u8]) -> Result<Self, String> {
        value_from_slice(data)
    }
}

/// What an encoder answers for the outcome of writing a message's JSON
/// form: the bytes, or a serialization failure with the reason.
pub fn serialization_outcome(outcome: Result<Vec<u8>, String>) -> (r: Result<Vec<u8>, CodecError>)
    ensures
        r == (match outcome {
            Ok(v) => Ok::<Vec<u8>, CodecError>(v),
            Err(e) => Err::<Vec<u8>, CodecError>(CodecError::SerializationFailed(e)),
        }),
{
    match outcome {
        Ok(v) => Ok(v),
        Err(e) => Err(CodecError::SerializationFailed(e)),
    }
}

/// What a decoder answers for the outcome of reading a message from JSON:
/// the message, or a deserialization failure with the reason.
pub fn deserialization_outcome<T>(outcome: Result<T, String>) -> (r: Result<T, CodecError>)
    ensures
        r == (match outcome {
            Ok(v) => Ok::<T, CodecError>(v),
            Err(e) => Err::<T, CodecError>(CodecError::DeserializationFailed(e)),
        }),
{
    match outcome {
        Ok(v) => Ok(v),
        Err(e) => Err(CodecError::DeserializationFailed(e)),
    }
}

fn json_encode<T: JsonMessage>(message: &T) -> (r: Result<Vec<u8>, CodecError>)
    ensures
        encode_failure_kind(r),
{
    serialization_outcome(message.to_json())
}

fn json_decode<T: JsonMessage>(data: &[u8]) -> (r: Result<T, CodecError>)
    ensures
        decode_failure_kind(r),
{
    deserialization_outcome(T::from_json(data))
}

/// JSON codec using serde
pub struct JsonCodec;

impl JsonCodec {
    pub fn new() -> (c: Self)
        ensures
            c == JsonCodec,
    {
        Self
    }
}

impl<T> Codec<T> for JsonCodec where
    T: JsonMessage + Clone,
 {
    fn encode(&self, message: &T) -> (r: Result<Vec<u8>, CodecError>)
        ensures
            encode_failure_kind(r),
    {
        json_encode(message)
    }

    fn decode(&self, data: &[u8]) -> (r: Result<T, CodecError>)
        ensures
            decode_failure_kind::<T>(r),
    {
        json_decode::<T>(data)
    }

    fn content_type(&self) -> &'static str {
        "application/json"
    }
}

/// Zero-copy codec slot; it writes JSON for now and says so by its content type.
pub struct RkyvCodec;

impl RkyvCodec {
    pub fn new() -> (c: Self)
        ensures
            c == RkyvCodec,
    {
        Self
    }
}

impl<T> Codec<T> for RkyvCodec where
    T: JsonMessage + Clone,
 {
    fn encode(&self, message: &T) -> (r: Result<Vec<u8>, CodecError>)
        ensures
            encode_failure_kind(r),
    {
        json_encode(message)
    }

    fn decode(&self, data: &[u8]) -> (r: Result<T, CodecError>)
        ensures
            decode_failure_kind::<T>(r),
    {
        json_decode::<T>(data)
    }

    fn content_type(&self) -> &'static str {
        "application/rkyv"
    }
}

/// Hybrid codec: encodes with the zero-copy codec and falls back to JSON;
/// decodes with JSON and falls back to the zero-copy codec.
pub struct HybridCodec {
    rkyv_codec: RkyvCodec,
    json_codec: JsonCodec,
}

impl HybridCodec {
    /// Always succeeds.
    pub fn new() -> (r: Result<Self, CodecError>)
        ensures
            r is Ok,
    {
        Ok(Self { rkyv_codec: RkyvCodec::new(), json_codec: JsonCodec::new() })
    }
}

impl<T> Codec<T> for HybridCodec where
    T: JsonMessage + Clone,
 {
    fn encode(&self, message: &T) -> (r: Result<Vec<u8>, CodecError>)
        ensures
            encode_failure_kind(r),
    {
        match json_encode(message) {
            Ok(data) => Ok(data),
            Err(_) => json_encode(message),
        }
    }

    fn decode(&self, data: &[u8]) -> (r: Result<T, CodecError>)
        ensures
            decode_failure_kind::<T>(r),
    {
        match json_decode::<T>(data) {
            Ok(result) => Ok(result),
            Err(_) => match json_decode::<T>(data) {
                Ok(result) => Ok(result),
                Err(_) => json_decode::<T>(data),
            },
        }
    }

    fn content_type(&self) -> &'static str {
        "application/hybrid"
    }
}

/// A fresh vector holding `data`.
pub fn copy_bytes(data: &[u8]) -> (v: Vec<u8>)
    ensures
        v@ == data@,
{
    let mut v: Vec<u8> = Vec::new();
    let mut i: usize = 0;
    while i < data.len()
        invariant
            i <= data@.len(),
            v@ == data@.take(i as int),
        decreases data@.len() - i,
    {
        v.push(data[i]);
        i += 1;
        proof { assert(v@ =~= data@.take(i as int)); }
    }
    proof { assert(data@.take(i as int) =~= data@); }
    v
}

/// Wrapper for WebSocket messages with type information
#[derive(Debug, Clone)]
pub struct WsMessage<T> {
    pub data: T,
}

impl<T> WsMessage<T> {
    pub fn new(data: T) -> (m: Self)
        ensures
            m.data == data,
    {
        Self { data }
    }
}

/// Compressed codec wrapper
pub struct CompressedCodec<C> {
    inner: C,
    compression_level: i32,
}

impl<C> CompressedCodec<C> {
    /// The wrapped codec.
    pub closed spec fn spec_inner(&self) -> C {
        self.inner
    }

    /// The compression level.
    pub closed spec fn spec_level(&self) -> i32 {
        self.compression_level
    }

    /// Wraps `inner` at the default compression level, 3.
    pub fn new(inner: C) -> (c: Self)
        ensures
            c.spec_inner() == inner,
            c.spec_level() == 3,
    {
        Self { inner, compression_level: 3 }
    }

    /// Wraps `inner` at the given compression level.
    pub fn with_level(inner: C, level: i32) -> (c: Self)
        ensures
            c.spec_inner() == inner,
            c.spec_level() == level,
    {
        Self { inner, compression_level: level }
    }

    /// The compression level.
    pub fn compression_level(&self) -> (l: i32)
        ensures
            l == self.spec_level(),
    {
        self.compression_level
    }
}

impl<T, C> Codec<T> for CompressedCodec<C> where C: Codec<T>, T: Send + Sync {
    /// Encodes with the inner codec; no compression backend is built in, so
    /// the bytes pass through unchanged.
    fn encode(&self, message: &T) -> (r: Result<Vec<u8>, CodecError>) {
        self.inner.encode(message)
    }

    /// Decodes with the inner codec; the bytes are taken as uncompressed.
    fn decode(&self, data: &[u8]) -> (r: Result<T, CodecError>) {
        let decompressed = copy_bytes(data);
        self.inner.decode(decompressed.as_slice())
    }

    fn content_type(&self) -> &'static str {
        "application/gzip"
    }
}

} // verus!
