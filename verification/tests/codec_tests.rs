use leptos_ws_pro::codec::{deserialization_outcome, serialization_outcome, Codec, CodecError, CompressedCodec, HybridCodec, JsonCodec, JsonMessage, RkyvCodec, WsMessage};

#[derive(Debug, Clone, PartialEq)]
struct TestMessage {
    id: u32,
    content: String,
}

impl JsonMessage for TestMessage {
    fn to_json(&self) -> Result<Vec<u8>, String> {
        let mut map = serde_json::Map::new();
        map.insert("id".to_string(), serde_json::Value::from(self.id));
        map.insert("content".to_string(), serde_json::Value::from(self.content.clone()));
        serde_json::to_vec(&serde_json::Value::Object(map)).map_err(|e| e.to_string())
    }

    fn from_json(data: &[u8]) -> Result<Self, String> {
        let v: serde_json::Value = serde_json::from_slice(data).map_err(|e| e.to_string())?;
        let id = v.get("id").and_then(|x| x.as_u64()).ok_or("missing id")?;
        let content = v.get("content").and_then(|x| x.as_str()).ok_or("missing content")?;
        Ok(TestMessage { id: id as u32, content: content.to_string() })
    }
}

#[test]
fn test_json_codec_basic() {
    let codec = JsonCodec::new();
    let message = TestMessage { id: 42, content: "Hello, World!".to_string() };
    let encoded = codec.encode(&message).unwrap();
    let decoded: TestMessage = codec.decode(&encoded).unwrap();
    assert_eq!(message, decoded);
}

#[test]
fn test_rkyv_codec_basic() {
    let codec = RkyvCodec::new();
    let message = TestMessage { id: 42, content: "Hello, World!".to_string() };
    let encoded = codec.encode(&message).unwrap();
    let decoded: TestMessage = codec.decode(&encoded).unwrap();
    assert_eq!(message, decoded);
}

#[test]
fn test_hybrid_codec_basic() {
    let codec = HybridCodec::new().unwrap();
    let message = TestMessage { id: 42, content: "Hello, World!".to_string() };
    let encoded = codec.encode(&message).unwrap();
    let decoded: TestMessage = codec.decode(&encoded).unwrap();
    assert_eq!(message, decoded);
}

#[test]
fn test_ws_message_wrapper() {
    let test_data = TestMessage { id: 42, content: "test".to_string() };
    let ws_message = WsMessage::new(test_data.clone());
    assert_eq!(ws_message.data, test_data);
}

#[test]
fn test_rkyv_performance() {
    let codec = RkyvCodec::new();
    let message = TestMessage { id: 42, content: "Hello, rkyv!".to_string() };
    let rkyv_encoded = codec.encode(&message).unwrap();
    let rkyv_decoded: TestMessage = codec.decode(&rkyv_encoded).unwrap();
    assert_eq!(message, rkyv_decoded);
    let json_codec = JsonCodec::new();
    let json_encoded = Codec::<TestMessage>::encode(&json_codec, &message).unwrap();
    assert!(rkyv_encoded.len() <= json_encoded.len());
}

#[test]
fn codec_content_types() {
    let j = JsonCodec::new();
    let r = RkyvCodec::new();
    let h = HybridCodec::new().unwrap();
    assert_eq!(Codec::<serde_json::Value>::content_type(&j), "application/json");
    assert_eq!(Codec::<serde_json::Value>::content_type(&r), "application/rkyv");
    assert_eq!(Codec::<serde_json::Value>::content_type(&h), "application/hybrid");
}

#[test]
fn codec_decode_error_is_deserialization_failure() {
    let codec = JsonCodec::new();
    let r: Result<serde_json::Value, CodecError> = codec.decode(b"{not json");
    assert!(matches!(r, Err(CodecError::DeserializationFailed(_))));
    let h = HybridCodec::new().unwrap();
    let r2: Result<TestMessage, CodecError> = h.decode(b"[1,2]");
    assert!(matches!(r2, Err(CodecError::DeserializationFailed(_))));
}

#[test]
fn codec_json_value_roundtrip() {
    let codec = JsonCodec::new();
    let v = serde_json::Value::from(vec![1, 2, 3]);
    let bytes = codec.encode(&v).unwrap();
    assert_eq!(bytes, b"[1,2,3]".to_vec());
    let back: serde_json::Value = codec.decode(&bytes).unwrap();
    assert_eq!(back, v);
}

#[test]
fn compressed_codec_passes_through() {
    let c = CompressedCodec::new(JsonCodec::new());
    assert_eq!(c.compression_level(), 3);
    let c5 = CompressedCodec::with_level(JsonCodec::new(), 5);
    assert_eq!(c5.compression_level(), 5);
    let message = TestMessage { id: 7, content: "x".to_string() };
    let bytes = c.encode(&message).unwrap();
    let plain = Codec::<TestMessage>::encode(&JsonCodec::new(), &message).unwrap();
    assert_eq!(bytes, plain);
    let back: TestMessage = c.decode(&bytes).unwrap();
    assert_eq!(back, message);
    assert_eq!(Codec::<TestMessage>::content_type(&c), "application/gzip");
}

#[test]
fn outcomes_map_reasons_to_codec_errors() {
    assert_eq!(serialization_outcome(Ok(vec![1u8, 2])).unwrap(), vec![1u8, 2]);
    match serialization_outcome(Err("bad".to_string())) {
        Err(CodecError::SerializationFailed(m)) => assert_eq!(m, "bad"),
        other => panic!("unexpected {:?}", other),
    }
    assert_eq!(deserialization_outcome::<u32>(Ok(4)).unwrap(), 4);
    match deserialization_outcome::<u32>(Err("eof".to_string())) {
        Err(CodecError::DeserializationFailed(m)) => assert_eq!(m, "eof"),
        other => panic!("unexpected {:?}", other),
    }
}
