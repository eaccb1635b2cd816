use std::collections::hash_map::DefaultHasher;
use std::hash::{Hash, Hasher};
use tokio_lsp::error::error_codes;
use tokio_lsp::types::initialization::{
    FailureHandlingKind, MarkupKind, ResourceOperationKind, TextDocumentSyncKind,
};
use tokio_lsp::types::jsonrpc::{classify, classify_fields};
use tokio_lsp::types::{
    ClientCapabilities, DiagnosticSeverity, DiagnosticTag, Id, InitializeParams, Location,
    MessageKind, NotificationMessage, OneOf, Position, Range, RequestMessage, ResponseMessage,
    RpcMessage, TextEdit,
};
use tokio_lsp::ResponseError;

fn hash_of(id: &Id) -> u64 {
    let mut h = DefaultHasher::new();
    id.hash(&mut h);
    h.finish()
}

fn json(text: &str) -> serde_json::Value {
    serde_json::from_str(text).unwrap()
}

#[test]
fn test_position_ordering() {
    let pos1 = Position::new(1, 5);
    let pos2 = Position::new(1, 10);
    let pos3 = Position::new(2, 0);

    assert!(pos1 < pos2);
    assert!(pos2 < pos3);
    assert!(pos1 < pos3);
}

#[test]
fn test_range_contains() {
    let range = Range::new(Position::new(1, 5), Position::new(1, 10));

    assert!(range.contains(Position::new(1, 7)));
    assert!(!range.contains(Position::new(1, 4)));
    assert!(!range.contains(Position::new(1, 10)));
    assert!(!range.contains(Position::new(2, 0)));
}

#[test]
fn test_range_is_empty() {
    let pos = Position::new(1, 5);
    let empty_range = Range::new(pos, pos);
    let non_empty_range = Range::new(pos, Position::new(1, 6));

    assert!(empty_range.is_empty());
    assert!(!non_empty_range.is_empty());
}

#[test]
fn test_text_edit_operations() {
    let pos = Position::new(1, 5);
    let range = Range::new(pos, Position::new(1, 10));

    let insert = TextEdit::insert(pos, "text");
    assert_eq!(insert.range.start, insert.range.end);

    let delete = TextEdit::delete(range);
    assert_eq!(delete.new_text, "");

    let replace = TextEdit::replace(range, "new");
    assert_eq!(replace.new_text, "new");
    assert_eq!(replace.range, range);
}

#[test]
fn test_diagnostic_severity_values() {
    assert_eq!(DiagnosticSeverity::Error.value(), 1);
    assert_eq!(DiagnosticSeverity::Warning.value(), 2);
    assert_eq!(DiagnosticSeverity::Information.value(), 3);
    assert_eq!(DiagnosticSeverity::Hint.value(), 4);
}

#[test]
fn test_one_of_type() {
    let left: OneOf<i32, String> = OneOf::Left(42);
    let right: OneOf<i32, String> = OneOf::Right("test".to_string());

    assert!(left.is_left());
    assert!(!left.is_right());
    assert!(!right.is_left());
    assert!(right.is_right());

    assert_eq!(left.left(), Some(42));
    assert_eq!(right.right(), Some("test".to_string()));
}

#[test]
fn test_id_display() {
    assert_eq!(Id::Number(42).to_string(), "42");
    assert_eq!(Id::String("test".to_string()).to_string(), "test");
}

#[test]
fn test_id_from_conversions() {
    let id: Id = 42i64.into();
    assert_eq!(id, Id::Number(42));

    let id: Id = Id::from_text("test");
    assert_eq!(id, Id::String("test".to_string()));

    let id: Id = "test".to_string().into();
    assert_eq!(id, Id::String("test".to_string()));
}

#[test]
fn number_and_string_ids_differ_even_with_equal_text() {
    for n in [0i64, 1, 42, -3, i64::MAX] {
        let number = Id::Number(n);
        let text = Id::String(number.to_string());
        assert_ne!(number, text);
        assert_eq!(number.to_string(), text.to_string());
        assert_ne!(hash_of(&number), hash_of(&text));
    }
    assert_eq!(hash_of(&Id::Number(7)), hash_of(&Id::Number(7).duplicate()));
}

#[test]
fn test_position() {
    let pos = Position::new(5, 10);
    assert_eq!(pos.line, 5);
    assert_eq!(pos.character, 10);

    let start = Position::start();
    assert_eq!(start.line, 0);
    assert_eq!(start.character, 0);
}

#[test]
fn test_range() {
    let range = Range::new(Position::new(1, 5), Position::new(2, 10));

    assert_eq!(range.start.line, 1);
    assert_eq!(range.start.character, 5);
    assert_eq!(range.end.line, 2);
    assert_eq!(range.end.character, 10);

    let range2 = Range::from_coords(1, 5, 2, 10);
    assert_eq!(range, range2);

    let single = Range::single_char(Position::new(3, 7));
    assert_eq!(single.start, Position::new(3, 7));
    assert_eq!(single.end, Position::new(3, 8));

    assert!(range.contains(Position::new(1, 7)));
    assert!(range.contains(Position::new(2, 5)));
    assert!(!range.contains(Position::new(0, 5)));
    assert!(!range.contains(Position::new(2, 10)));

    let empty = Range::new(Position::new(5, 5), Position::new(5, 5));
    assert!(empty.is_empty());
    assert!(!range.is_empty());
}

#[test]
fn test_location() {
    let location = Location::new("file:///test.rs", Range::from_coords(1, 0, 1, 10));

    assert_eq!(location.uri, "file:///test.rs");
    assert_eq!(location.range.start.line, 1);
}

#[test]
fn test_diagnostic_severity() {
    assert_eq!(DiagnosticSeverity::Error.value(), 1);
    assert_eq!(DiagnosticSeverity::Hint.value(), 4);
    assert_eq!(DiagnosticSeverity::from_value(1), Some(DiagnosticSeverity::Error));
    assert_eq!(DiagnosticSeverity::from_value(3), Some(DiagnosticSeverity::Information));
    assert_eq!(DiagnosticSeverity::from_value(0), None);
    assert_eq!(DiagnosticSeverity::from_value(5), None);
}

#[test]
fn diagnostic_tag_values() {
    assert_eq!(DiagnosticTag::Unnecessary.value(), 1);
    assert_eq!(DiagnosticTag::Deprecated.value(), 2);
    assert_eq!(DiagnosticTag::from_value(2), Some(DiagnosticTag::Deprecated));
    assert_eq!(DiagnosticTag::from_value(3), None);
}

#[test]
fn test_response_message_success() {
    let response = ResponseMessage::success(Id::Number(1), json(r#"{"result": "success"}"#));
    assert!(!response.is_error());
    assert!(response.result.is_some());
    assert!(response.error.is_none());
}

#[test]
fn test_response_message_error() {
    let error = ResponseError::new(-32600, "Invalid Request");
    let response = ResponseMessage::error(Some(Id::Number(1)), error);
    assert!(response.is_error());
    assert!(response.result.is_none());
    assert!(response.error.is_some());
    assert_eq!(response.get_error().unwrap().code, -32600);
}

#[test]
fn jsonrpc_test_notification_message() {
    let notification = NotificationMessage::with_params("test/notify", json(r#"{"data": "test"}"#));
    assert_eq!(notification.jsonrpc, "2.0");
    assert_eq!(notification.method, "test/notify");
    assert!(notification.params.is_some());
}

#[test]
fn test_rpc_message_enum() {
    let request = RpcMessage::Request(RequestMessage::new(Id::Number(1), "test"));
    assert!(request.is_request());
    assert!(!request.is_response());
    assert!(!request.is_notification());
    assert_eq!(request.method(), Some("test"));
    assert_eq!(request.id(), Some(&Id::Number(1)));
}

#[test]
fn test_request_message() {
    let request = RequestMessage::with_params(
        Id::String("req1".to_string()),
        "test/method",
        json(r#"{"key": "value"}"#),
    );
    assert_eq!(request.jsonrpc, "2.0");
    assert_eq!(request.id, Id::String("req1".to_string()));
    assert_eq!(request.method, "test/method");
    assert!(request.params.is_some());
}

#[test]
fn response_and_notification_kinds() {
    let response = RpcMessage::Response(ResponseMessage::error(None, ResponseError::parse_error("bad")));
    assert!(response.is_response());
    assert_eq!(response.method(), None);
    assert_eq!(response.id(), None);
    let note = RpcMessage::Notification(NotificationMessage::new("exit"));
    assert!(note.is_notification());
    assert_eq!(note.method(), Some("exit"));
    assert_eq!(note.id(), None);
}

#[test]
fn response_error_constructors_and_text() {
    assert_eq!(ResponseError::method_not_found("x").code, error_codes::METHOD_NOT_FOUND);
    assert_eq!(ResponseError::invalid_params("x").code, -32602);
    assert_eq!(ResponseError::internal_error("x").code, -32603);
    assert_eq!(ResponseError::server_not_initialized("x").code, -32002);
    assert_eq!(ResponseError::request_cancelled("x").code, -32800);
    assert_eq!(ResponseError::content_modified("x").code, -32801);
    assert_eq!(ResponseError::invalid_request("x").code, -32600);
    let e = ResponseError::with_data(-32601, "Method not found", json("[1]"));
    assert!(e.data.is_some());
    assert_eq!(e.to_string(), "Error -32601: Method not found");
}

#[test]
fn classification_gives_request_priority() {
    let keys = |ks: &[&str]| ks.iter().map(|k| k.to_string()).collect::<Vec<String>>();
    assert_eq!(classify_fields(&keys(&["jsonrpc", "id", "method"])), MessageKind::Request);
    assert_eq!(classify_fields(&keys(&["method", "params", "id"])), MessageKind::Request);
    assert_eq!(classify_fields(&keys(&["method", "jsonrpc"])), MessageKind::Notification);
    assert_eq!(classify_fields(&keys(&["id", "result"])), MessageKind::Response);
    assert_eq!(classify_fields(&keys(&["id"])), MessageKind::Response);
    assert_eq!(classify_fields(&keys(&[])), MessageKind::Response);
    assert_eq!(classify(true, true), MessageKind::Request);
    assert_eq!(classify(false, true), MessageKind::Notification);
    assert_eq!(classify(true, false), MessageKind::Response);
}

#[test]
fn test_client_capabilities_default() {
    let caps = ClientCapabilities::default();
    assert!(caps.workspace.is_some());
    assert!(caps.text_document.is_some());
    assert!(caps.window.is_some());
    assert!(caps.general.is_some());
    assert!(caps.notebook_document.is_none());
    assert!(caps.experimental.is_none());
    let ws = caps.workspace.unwrap();
    let edit = ws.workspace_edit.unwrap();
    assert_eq!(
        edit.resource_operations,
        Some(vec![
            ResourceOperationKind::Create,
            ResourceOperationKind::Rename,
            ResourceOperationKind::Delete
        ])
    );
    assert_eq!(edit.failure_handling, Some(FailureHandlingKind::Transactional));
    let hover = caps.text_document.unwrap().hover.unwrap();
    assert_eq!(hover.content_format, Some(vec![MarkupKind::Markdown, MarkupKind::PlainText]));
    let general = caps.general.unwrap();
    assert_eq!(general.markdown.unwrap().parser, "marked");
}

#[test]
fn test_initialize_params() {
    let params = InitializeParams::for_client(
        Some(12345),
        "client",
        Some("1.0".to_string()),
        Some("file:///test/project".to_string()),
    );
    assert_eq!(params.process_id, Some(12345));
    assert_eq!(params.root_uri, Some("file:///test/project".to_string()));
    assert_eq!(params.client_info.as_ref().unwrap().name, "client");
    assert!(params.locale.is_none());
    assert!(params.trace.is_none());
    assert_eq!(params.capabilities, ClientCapabilities::default());
}

#[test]
fn sync_kind_values() {
    assert_eq!(TextDocumentSyncKind::NoSync.value(), 0);
    assert_eq!(TextDocumentSyncKind::Incremental.value(), 2);
    assert_eq!(TextDocumentSyncKind::from_value(1), Some(TextDocumentSyncKind::Full));
    assert_eq!(TextDocumentSyncKind::from_value(3), None);
}

#[test]
fn envelope_default_version() {
    let m = tokio_lsp::types::jsonrpc::Message::default();
    assert_eq!(m.jsonrpc, "2.0");
}
