use tokio::sync::oneshot;
use tokio_lsp::client::{initialize_outcome, response_for};
use tokio_lsp::types::{Id, NotificationMessage, RequestMessage, ResponseMessage, RpcMessage};
use tokio_lsp::{LspError, PendingRequests, ResponseError, Route};

fn response(id: i64, tag: &str) -> ResponseMessage {
    ResponseMessage::success(Id::Number(id), serde_json::Value::String(tag.to_string()))
}

#[test]
fn test_pending_request_struct() {
    let (sender, _receiver) = oneshot::channel::<ResponseMessage>();
    let mut table = PendingRequests::new();
    let id = table.register(sender).unwrap();
    assert_eq!(id, Id::Number(1));
    assert_eq!(table.pending_request_count(), 1);
}

#[test]
fn test_request_id_generation() {
    let mut table: PendingRequests<()> = PendingRequests::new();
    let id1 = table.register(()).unwrap();
    let id2 = table.register(()).unwrap();
    assert_ne!(id1, id2);
    if let (Id::Number(n1), Id::Number(n2)) = (id1, id2) {
        assert!(n1 < n2);
    }
}

#[test]
fn client_test_client_creation() {
    let table: PendingRequests<()> = PendingRequests::new();
    assert_eq!(table.pending_request_count(), 0);
    assert!(!table.has_pending_requests());
}

#[test]
fn scrambled_responses_reach_their_own_waiters() {
    let mut table = PendingRequests::new();
    let mut ids = Vec::new();
    for waiter in ["a", "b", "c", "d"] {
        ids.push(table.register(waiter).unwrap());
    }
    assert_eq!(ids, vec![Id::Number(1), Id::Number(2), Id::Number(3), Id::Number(4)]);
    for (n, expected) in [(3, "c"), (1, "a"), (4, "d"), (2, "b")] {
        match table.route(RpcMessage::Response(response(n, expected))) {
            Route::Deliver(w, r) => {
                assert_eq!(w, expected);
                assert_eq!(r.id, Some(Id::Number(n)));
            }
            _ => panic!("response {} was not delivered", n),
        }
    }
    assert_eq!(table.pending_request_count(), 0);
}

#[test]
fn orphan_response_is_dropped_and_leaves_others() {
    let mut table = PendingRequests::new();
    table.register("first").unwrap();
    table.register("second").unwrap();
    assert!(matches!(
        table.route(RpcMessage::Response(response(99, "x"))),
        Route::Orphan(_)
    ));
    let no_id = ResponseMessage::error(None, ResponseError::parse_error("bad"));
    assert!(matches!(table.route(RpcMessage::Response(no_id)), Route::Orphan(_)));
    assert_eq!(table.pending_request_count(), 2);
    match table.route(RpcMessage::Response(response(2, "x"))) {
        Route::Deliver(w, _) => assert_eq!(w, "second"),
        _ => panic!("not delivered"),
    }
    assert!(matches!(
        table.route(RpcMessage::Response(response(2, "again"))),
        Route::Orphan(_)
    ));
    assert!(table.contains(&Id::Number(1)));
    assert!(!table.contains(&Id::Number(2)));
}

#[test]
fn string_id_does_not_match_number_id() {
    let mut table = PendingRequests::new();
    table.register("w").unwrap();
    let r = ResponseMessage::success(Id::String("1".to_string()), serde_json::Value::Null);
    assert!(matches!(table.route(RpcMessage::Response(r)), Route::Orphan(_)));
    assert_eq!(table.pending_request_count(), 1);
}

#[test]
fn requests_and_notifications_are_forwarded() {
    let mut table: PendingRequests<()> = PendingRequests::new();
    let req = RpcMessage::Request(RequestMessage::new(Id::Number(1), "client/registerCapability"));
    match table.route(req) {
        Route::Forward(m) => assert_eq!(m.method(), Some("client/registerCapability")),
        _ => panic!("not forwarded"),
    }
    let note = RpcMessage::Notification(NotificationMessage::new("textDocument/publishDiagnostics"));
    assert!(matches!(table.route(note), Route::Forward(_)));
}

#[test]
fn cancel_all_requests_drops_every_waiter() {
    let mut empty: PendingRequests<oneshot::Sender<ResponseMessage>> = PendingRequests::new();
    empty.cancel_all();
    assert_eq!(empty.pending_request_count(), 0);

    let mut table = PendingRequests::new();
    let mut receivers = Vec::new();
    for _ in 0..3 {
        let (tx, rx) = oneshot::channel::<ResponseMessage>();
        table.register(tx).unwrap();
        receivers.push(rx);
    }
    assert_eq!(table.pending_request_count(), 3);
    table.cancel_all();
    assert_eq!(table.pending_request_count(), 0);
    assert!(!table.has_pending_requests());
    for mut rx in receivers {
        assert!(rx.try_recv().is_err());
    }
    assert_eq!(table.register(oneshot::channel().0).unwrap(), Id::Number(4));
}

#[test]
fn initialize_error_is_reported_without_reading_result() {
    let mut r = ResponseMessage::error(Some(Id::Number(1)), ResponseError::new(-32603, "boom"));
    r.result = Some(serde_json::Value::Bool(true));
    match initialize_outcome(r) {
        Err(LspError::InitializationFailed(m)) => assert_eq!(m, "Initialize request failed: boom"),
        other => panic!("unexpected: {:?}", other),
    }
}

#[test]
fn initialize_result_is_returned() {
    let value: serde_json::Value = serde_json::from_str(r#"{"capabilities":{}}"#).unwrap();
    let r = ResponseMessage::success(Id::Number(1), value.clone());
    assert_eq!(initialize_outcome(r).unwrap(), value);
    let mut missing = ResponseMessage::success(Id::Number(1), serde_json::Value::Null);
    missing.result = None;
    assert!(matches!(
        initialize_outcome(missing),
        Err(LspError::InitializationFailed(_))
    ));
}

#[test]
fn test_send_response() {
    let ok = response_for(Id::Number(42), None, None);
    assert_eq!(ok.result, Some(serde_json::Value::Null));
    assert!(ok.error.is_none());
    assert_eq!(ok.id, Some(Id::Number(42)));
    let err = response_for(
        Id::Number(43),
        Some(serde_json::Value::Bool(true)),
        Some(ResponseError::new(-32600, "Invalid Request")),
    );
    assert!(err.result.is_none());
    assert_eq!(err.error.unwrap().message, "Invalid Request");
}
