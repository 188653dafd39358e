use leptos_ws_pro::collaboration::{
    use_collaborative_document,
    CollaborativeText, ConflictError, ConflictResolver, Document, FractionalIndex, LastWriteWinsResolver, TextOperation,
    TextOperationType,
};
use leptos_ws_pro::error::ServerSignalError;
use leptos_ws_pro::messages::ServerSignalUpdate;

fn text(s: &str) -> CollaborativeText {
    CollaborativeText { content: s.to_string(), version: 0, operations: Vec::new() }
}

#[test]
fn test_collaborative_text_creation() {
    let text = CollaborativeText { content: "Hello, World!".to_string(), version: 0, operations: Vec::new() };
    assert_eq!(text.content, "Hello, World!");
    assert_eq!(text.version, 0);
}

#[test]
fn test_text_operation_insert() {
    let mut text = CollaborativeText { content: "Hello, World!".to_string(), version: 0, operations: Vec::new() };
    let operation = TextOperation { position: 5, operation_type: TextOperationType::Insert(", Beautiful".to_string()) };
    assert!(text.apply(&operation).is_ok());
    assert_eq!(text.content, "Hello, Beautiful World!");
    assert_eq!(text.version, 1);
}

#[test]
fn test_text_operation_delete() {
    let mut text = CollaborativeText { content: "Hello, World!".to_string(), version: 0, operations: Vec::new() };
    let operation = TextOperation { position: 5, operation_type: TextOperationType::Delete(2) };
    assert!(text.apply(&operation).is_ok());
    assert_eq!(text.content, "Hello World!");
    assert_eq!(text.version, 1);
}

#[test]
fn text_insert_and_delete() {
    let mut t = text("Hello World!");
    let ins = TextOperation { position: 12, operation_type: TextOperationType::Insert(" Bye".to_string()) };
    assert!(t.apply(&ins).is_ok());
    assert_eq!(t.content, "Hello World! Bye");
    assert_eq!(t.version, 1);
    let over = TextOperation { position: 12, operation_type: TextOperationType::Delete(5) };
    assert!(t.apply(&over).is_err());
    let del = TextOperation { position: 12, operation_type: TextOperationType::Delete(4) };
    assert!(t.apply(&del).is_ok());
    assert_eq!(t.content, "Hello World!e");
    assert_eq!(t.version(), 2);
    assert_eq!(t.operations.len(), 2);
    let none = TextOperation { position: 0, operation_type: TextOperationType::Delete(1) };
    assert!(t.apply(&none).is_ok());
    assert_eq!(t.content, "Hello World!e");
    assert_eq!(t.version(), 3);
}

#[test]
fn text_operations_out_of_bounds() {
    let mut t = text("abc");
    let ins = TextOperation { position: 4, operation_type: TextOperationType::Insert("x".to_string()) };
    assert!(matches!(t.apply(&ins), Err(ConflictError::InvalidOperation(m)) if m == "Position out of bounds"));
    let del = TextOperation { position: 2, operation_type: TextOperationType::Delete(2) };
    assert!(matches!(t.apply(&del), Err(ConflictError::InvalidOperation(m)) if m == "Delete range out of bounds"));
    assert_eq!(t.content, "abc");
    assert_eq!(t.version, 0);
    t.set_version(9);
    assert_eq!(t.version(), 9);
}

#[test]
fn text_multibyte_boundaries() {
    let mut t = text("héllo");
    let ins = TextOperation { position: 3, operation_type: TextOperationType::Insert("-".to_string()) };
    assert!(t.apply(&ins).is_ok());
    assert_eq!(t.content, "hé-lo");
    let wide = TextOperation { position: 1, operation_type: TextOperationType::Insert("e".to_string()) };
    assert!(t.apply(&wide).is_ok());
    assert_eq!(t.content, "he-lo");
}

#[test]
fn last_write_wins_keeps_local() {
    let local = text("mine");
    let remote = text("theirs");
    let op = TextOperation { position: 0, operation_type: TextOperationType::Delete(0) };
    let r = LastWriteWinsResolver.resolve(&local, &remote, &op).unwrap();
    assert_eq!(r.content, "mine");
}

#[test]
fn test_fractional_index_creation() {
    let index = FractionalIndex::new("client1".to_string());
    assert_eq!(index.client_id(), "client1");
}

#[test]
fn fractional_index_between() {
    let a = FractionalIndex::new("a".to_string());
    let b = FractionalIndex::new("b".to_string());
    let m = a.between(&b);
    assert_eq!(m.client_id(), "a");
    assert_eq!(format!("{:?}", m).contains("client_id: \"a\""), true);
}

#[test]
fn test_server_signal_update_new_from_json() {
    let old: serde_json::Value = serde_json::from_str(r#"{"id": 1, "name": "old", "value": 10}"#).unwrap();
    let new: serde_json::Value = serde_json::from_str(r#"{"id": 1, "name": "new", "value": 20}"#).unwrap();
    let update = ServerSignalUpdate::new_from_json("test_signal", &old, &new);
    assert_eq!(update.name, "test_signal");
    assert!(!update.patch.0.is_empty());
}

#[test]
fn server_signal_update_no_changes() {
    let v: serde_json::Value = serde_json::from_str(r#"{"a": [1, 2]}"#).unwrap();
    let update = ServerSignalUpdate::new_from_json("s", &v, &v);
    assert!(update.patch.0.is_empty());
}

#[test]
fn test_error_display_messages() {
    let error = ServerSignalError::MissingServerSignals;
    assert_eq!(error.to_string(), "No ServerSignals in State");
    let error = ServerSignalError::AddingSignalFailed;
    assert_eq!(error.to_string(), "Could not add ServerSignal to ServerSignals");
    let error = ServerSignalError::UpdateSignalFailed;
    assert_eq!(error.to_string(), "Could not update Signal");
}

#[test]
fn test_serialization_error_conversion() {
    let json_error = serde_json::Error::io(std::io::Error::new(std::io::ErrorKind::Other, "Test error"));
    let error = ServerSignalError::from(json_error);
    match error {
        ServerSignalError::SerializationFailed(serde_error) => {
            assert!(serde_error.to_string().contains("Test error"));
        }
        _ => panic!("Expected SerializationFailed variant"),
    }
}

#[test]
fn test_error_debug_formatting() {
    let error = ServerSignalError::MissingServerSignals;
    let debug_str = format!("{:?}", error);
    assert!(debug_str.contains("MissingServerSignals"));
}

#[test]
fn test_error_equality() {
    let error1 = ServerSignalError::MissingServerSignals;
    let error2 = ServerSignalError::MissingServerSignals;
    let error3 = ServerSignalError::AddingSignalFailed;
    assert_eq!(format!("{:?}", error1), format!("{:?}", error2));
    assert_ne!(format!("{:?}", error1), format!("{:?}", error3));
}

#[test]
fn test_error_chain() {
    let json_error = serde_json::Error::io(std::io::Error::new(std::io::ErrorKind::Other, "Chain test"));
    let error: ServerSignalError = json_error.into();
    let error_string = error.to_string();
    assert!(error_string.contains("Chain test"));
}

#[test]
fn collaborative_document_starts_from_initial() {
    let initial = CollaborativeText { content: "Hello".to_string(), version: 3, operations: vec![] };
    let doc = use_collaborative_document(initial, "doc-1".to_string());
    assert_eq!(doc.local.content, "Hello");
    assert_eq!(doc.committed.version, 3);
    assert!(doc.operations.is_empty());
    let resolved = doc.resolver.resolve(&doc.local, &doc.committed, &TextOperation {
        operation_type: TextOperationType::Insert("x".to_string()),
        position: 0,
    });
    assert_eq!(resolved.unwrap().content, "Hello");
}
