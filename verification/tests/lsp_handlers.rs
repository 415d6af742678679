use core_x::lsp::convert::{LspPosition, LspRange};
use core_x::lsp::handlers::{
    handle_notification, handle_request, ClientNotification, ClientRequest, DocumentQuery, NotificationStep, Reply,
    RequestId, RequestStep,
};
use core_x::lsp::state::ServerState;

#[test]
fn initialize_shutdown_roundtrip() {
    let mut state = ServerState::new();
    match handle_request(&mut state, RequestId::Number(1), ClientRequest::Initialize) {
        RequestStep::Reply(Reply::Capabilities { id: RequestId::Number(1) }) => {},
        _ => panic!("initialize answers with the capabilities"),
    }
    assert!(matches!(handle_notification(&mut state, ClientNotification::Initialized), NotificationStep::Nothing));
    match handle_request(&mut state, RequestId::Number(2), ClientRequest::Shutdown) {
        RequestStep::Reply(Reply::Null { id: RequestId::Number(2) }) => {},
        _ => panic!("shutdown answers null"),
    }
    assert!(matches!(handle_notification(&mut state, ClientNotification::Exit), NotificationStep::Exit));
}

fn error_of(step: RequestStep) -> (i64, String) {
    match step {
        RequestStep::Reply(Reply::Error { code, message, .. }) => (code, message),
        _ => panic!("an error reply"),
    }
}

#[test]
fn malformed_and_unknown_requests_are_errors() {
    let mut state = ServerState::new();
    let p = LspPosition { line: 0, character: 1 };
    assert_eq!(
        error_of(handle_request(&mut state, RequestId::Number(3), ClientRequest::Hover { uri: None, position: Some(p) })),
        (-32602, "missing textDocument.uri".to_string())
    );
    assert_eq!(
        error_of(handle_request(
            &mut state,
            RequestId::Number(4),
            ClientRequest::Hover { uri: Some("file:///a.cx".to_string()), position: None }
        )),
        (-32602, "missing hover position".to_string())
    );
    assert_eq!(
        error_of(handle_request(
            &mut state,
            RequestId::Number(5),
            ClientRequest::InlayHint { uri: Some("file:///a.cx".to_string()), range: None }
        )),
        (-32602, "missing inlay hint range".to_string())
    );
    assert_eq!(
        error_of(handle_request(&mut state, RequestId::Text("x".to_string()), ClientRequest::Other)),
        (-32601, "method not found".to_string())
    );
}

#[test]
fn document_requests_ask_for_an_analysis() {
    let mut state = ServerState::new();
    let p = LspPosition { line: 2, character: 3 };
    match handle_request(
        &mut state,
        RequestId::Number(7),
        ClientRequest::Definition { uri: Some("file:///a.cx".to_string()), position: Some(p) },
    ) {
        RequestStep::Analyze { id: RequestId::Number(7), uri, query: DocumentQuery::Definition(q) } => {
            assert_eq!(uri, "file:///a.cx");
            assert_eq!(q, p);
        },
        _ => panic!("an analysis step"),
    }
    let r = LspRange { start: p, end: p };
    assert!(matches!(
        handle_request(&mut state, RequestId::Number(8), ClientRequest::InlayHint { uri: Some("file:///a.cx".to_string()), range: Some(r) }),
        RequestStep::Analyze { query: DocumentQuery::InlayHints(_), .. }
    ));
}

#[test]
fn notifications_keep_the_open_documents() {
    let mut state = ServerState::new();
    let uri = "file:///w/a.cx".to_string();
    match handle_notification(
        &mut state,
        ClientNotification::DidOpen { uri: Some(uri.clone()), text: Some("fn a() {}".to_string()), version: Some(1) },
    ) {
        NotificationStep::PublishDiagnostics { uri: u } => assert_eq!(u, uri),
        _ => panic!("opening publishes diagnostics"),
    }
    assert_eq!(state.document(&uri).map(|d| d.text.clone()), Some("fn a() {}".to_string()));
    assert!(matches!(
        handle_notification(&mut state, ClientNotification::DidChange { uri: Some(uri.clone()), version: Some(2), text: Some("fn b() {}".to_string()) }),
        NotificationStep::PublishDiagnostics { .. }
    ));
    assert_eq!(state.document(&uri).map(|d| d.text.clone()), Some("fn b() {}".to_string()));
    assert!(matches!(
        handle_notification(&mut state, ClientNotification::DidChange { uri: Some("file:///w/none.cx".to_string()), version: None, text: Some("x".to_string()) }),
        NotificationStep::Nothing
    ));
    assert!(matches!(
        handle_notification(&mut state, ClientNotification::DidOpen { uri: Some("http://x".to_string()), text: Some("x".to_string()), version: None }),
        NotificationStep::Nothing
    ));
    match handle_notification(&mut state, ClientNotification::DidClose { uri: Some(uri.clone()) }) {
        NotificationStep::ClearDiagnostics { uri: u } => assert_eq!(u, uri),
        _ => panic!("closing clears diagnostics"),
    }
    assert!(state.document(&uri).is_none());
}
