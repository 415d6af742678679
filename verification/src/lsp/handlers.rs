//! How the server reacts to each client message: the requests it answers
//! at once, those it answers from an analysis of a document, the protocol
//! errors for malformed requests, and how notifications change the open
//! documents. Messages arrive here already taken apart into plain fields
//! (a field the client left out is `None`); what a step asks for is carried
//! out by the transport around the library, which hands back the analysis.

use crate::lsp::convert::{LspPosition, LspRange};
use crate::lsp::state::ServerState;
use vstd::prelude::*;
use vstd::string::StringExecFns;

verus! {

/// The id of a request: a number or a string.
pub enum RequestId {
    Number(i64),
    Text(String),
}

/// A request, with the parameters the server reads from it.
pub enum ClientRequest {
    Initialize,
    Shutdown,
    DocumentSymbol { uri: Option<String> },
    Hover { uri: Option<String>, position: Option<LspPosition> },
    Definition { uri: Option<String>, position: Option<LspPosition> },
    Completion { uri: Option<String>, position: Option<LspPosition> },
    InlayHint { uri: Option<String>, range: Option<LspRange> },
    /// Any other method.
    Other,
}

/// What a document request asks of the analysis of its document.
pub enum DocumentQuery {
    Symbols,
    Hover(LspPosition),
    Definition(LspPosition),
    Completion(LspPosition),
    InlayHints(LspRange),
}

/// A reply to a request.
pub enum Reply {
    /// The capabilities the server announces to `initialize`.
    Capabilities { id: RequestId },
    /// A `null` result.
    Null { id: RequestId },
    /// A protocol error.
    Error { id: RequestId, code: i64, message: String },
}

/// The next step for a request: reply now, or analyse the document at
/// `uri` and answer `query` from the analysis (hover, definition and inlay
/// hints by the functions of the same names in [`crate::lsp::document`]).
pub enum RequestStep {
    Reply(Reply),
    Analyze { id: RequestId, uri: String, query: DocumentQuery },
}

/// A notification, with the parameters the server reads from it.
pub enum ClientNotification {
    Initialized,
    Exit,
    DidOpen { uri: Option<String>, text: Option<String>, version: Option<i64> },
    /// `text` is that of the first content change.
    DidChange { uri: Option<String>, version: Option<i64>, text: Option<String> },
    DidClose { uri: Option<String> },
    /// Any other method.
    Other,
}

/// The next step for a notification.
pub enum NotificationStep {
    Nothing,
    /// Stop the server.
    Exit,
    /// Analyse the document at `uri` and publish its diagnostics.
    PublishDiagnostics { uri: String },
    /// Publish an empty diagnostics list for `uri`.
    ClearDiagnostics { uri: String },
}

/// A request step as plain values: the reply's error code and message
/// (`None` for a non-error reply), or the document and query of an analysis.
pub enum StepView {
    Capabilities,
    Null,
    Error { code: i64, message: Seq<char> },
    Analyze { uri: Seq<char>, query: DocumentQuery },
}

/// The view of a request step.
pub open spec fn step_view(s: RequestStep) -> StepView {
    match s {
        RequestStep::Reply(Reply::Capabilities { .. }) => StepView::Capabilities,
        RequestStep::Reply(Reply::Null { .. }) => StepView::Null,
        RequestStep::Reply(Reply::Error { code, message, .. }) => StepView::Error { code, message: message@ },
        RequestStep::Analyze { uri, query, .. } => StepView::Analyze { uri: uri@, query },
    }
}

/// The id a step answers.
pub open spec fn step_id(s: RequestStep) -> RequestId {
    match s {
        RequestStep::Reply(Reply::Capabilities { id }) => id,
        RequestStep::Reply(Reply::Null { id }) => id,
        RequestStep::Reply(Reply::Error { id, .. }) => id,
        RequestStep::Analyze { id, .. } => id,
    }
}

/// The step for a document request: a missing document is invalid params
/// (-32602) with `missing textDocument.uri`; a missing position or range
/// likewise with `what`; else analyse the document.
pub open spec fn document_step(uri: Option<String>, arg_present: bool, what: Seq<char>, query: DocumentQuery) -> StepView {
    match uri {
        None => StepView::Error { code: -32602i64, message: "missing textDocument.uri"@ },
        Some(u) => if arg_present {
            StepView::Analyze { uri: u@, query }
        } else {
            StepView::Error { code: -32602i64, message: what }
        },
    }
}

/// The given position, or the start of the document.
pub open spec fn origin_or(p: Option<LspPosition>) -> LspPosition {
    match p {
        Some(x) => x,
        None => LspPosition { line: 0, character: 0 },
    }
}

/// The step for each request; unknown methods are method-not-found (-32601).
pub open spec fn request_step(req: ClientRequest) -> StepView {
    match req {
        ClientRequest::Initialize => StepView::Capabilities,
        ClientRequest::Shutdown => StepView::Null,
        ClientRequest::DocumentSymbol { uri } => document_step(uri, true, ""@, DocumentQuery::Symbols),
        ClientRequest::Hover { uri, position } => document_step(
            uri,
            position is Some,
            "missing hover position"@,
            DocumentQuery::Hover(origin_or(position)),
        ),
        ClientRequest::Definition { uri, position } => document_step(
            uri,
            position is Some,
            "missing definition position"@,
            DocumentQuery::Definition(origin_or(position)),
        ),
        ClientRequest::Completion { uri, position } => document_step(
            uri,
            position is Some,
            "missing completion position"@,
            DocumentQuery::Completion(origin_or(position)),
        ),
        ClientRequest::InlayHint { uri, range } => document_step(
            uri,
            range is Some,
            "missing inlay hint range"@,
            DocumentQuery::InlayHints(match range {
                Some(r) => r,
                None => LspRange { start: origin_or(None), end: origin_or(None) },
            }),
        ),
        ClientRequest::Other => StepView::Error { code: -32601i64, message: "method not found"@ },
    }
}

fn error_reply(id: RequestId, code: i64, message: &str) -> (r: RequestStep)
    ensures
        step_view(r) == (StepView::Error { code, message: message@ }),
        step_id(r) == id,
{
    let mut m = String::new();
    m.append(message);
    RequestStep::Reply(Reply::Error { id, code, message: m })
}

fn document_request(id: RequestId, uri: Option<String>, query: Option<DocumentQuery>, missing: &str) -> (r: RequestStep)
    ensures
        step_view(r) == document_step(uri, query is Some, missing@, match query {
            Some(q) => q,
            None => DocumentQuery::Symbols,
        }),
        step_id(r) == id,
{
    match uri {
        None => error_reply(id, -32602, "missing textDocument.uri"),
        Some(u) => match query {
            Some(q) => RequestStep::Analyze { id, uri: u, query: q },
            None => error_reply(id, -32602, missing),
        },
    }
}

/// The step for a request (see [`request_step`]); `shutdown` also marks the
/// server as asked to shut down, and no request changes the open documents.
pub fn handle_request(state: &mut ServerState, id: RequestId, request: ClientRequest) -> (r: RequestStep)
    ensures
        step_view(r) == request_step(request),
        step_id(r) == id,
        final(state).spec_shutdown() == (old(state).spec_shutdown() || request is Shutdown),
        final(state).spec_documents() == old(state).spec_documents(),
        forall|u: Seq<char>| #[trigger] final(state).spec_document(u) == old(state).spec_document(u),
{
    let ghost req = request;
    match request {
        ClientRequest::Initialize => RequestStep::Reply(Reply::Capabilities { id }),
        ClientRequest::Shutdown => {
            state.mark_shutdown_requested();
            RequestStep::Reply(Reply::Null { id })
        },
        ClientRequest::DocumentSymbol { uri } => match uri {
            None => error_reply(id, -32602, "missing textDocument.uri"),
            Some(u) => RequestStep::Analyze { id, uri: u, query: DocumentQuery::Symbols },
        },
        ClientRequest::Hover { uri, position } => {
            let query = match position {
                Some(p) => Some(DocumentQuery::Hover(p)),
                None => None,
            };
            document_request(id, uri, query, "missing hover position")
        },
        ClientRequest::Definition { uri, position } => {
            let query = match position {
                Some(p) => Some(DocumentQuery::Definition(p)),
                None => None,
            };
            document_request(id, uri, query, "missing definition position")
        },
        ClientRequest::Completion { uri, position } => {
            let query = match position {
                Some(p) => Some(DocumentQuery::Completion(p)),
                None => None,
            };
            document_request(id, uri, query, "missing completion position")
        },
        ClientRequest::InlayHint { uri, range } => {
            let query = match range {
                Some(r) => Some(DocumentQuery::InlayHints(r)),
                None => None,
            };
            document_request(id, uri, query, "missing inlay hint range")
        },
        ClientRequest::Other => error_reply(id, -32601, "method not found"),
    }
}

/// A notification step as plain values.
pub enum NotificationView {
    Nothing,
    Exit,
    Publish(Seq<char>),
    Clear(Seq<char>),
}

/// The view of a notification step.
pub open spec fn notification_view(s: NotificationStep) -> NotificationView {
    match s {
        NotificationStep::Nothing => NotificationView::Nothing,
        NotificationStep::Exit => NotificationView::Exit,
        NotificationStep::PublishDiagnostics { uri } => NotificationView::Publish(uri@),
        NotificationStep::ClearDiagnostics { uri } => NotificationView::Clear(uri@),
    }
}

/// Applies a notification: opening a document with a URI and text stores
/// it (when its URI names a file path) and publishes its diagnostics;
/// changing an open document replaces its text and version and publishes
/// them; closing forgets the document and clears them; `exit` stops the
/// server. Malformed notifications, and opening or changing that the
/// open documents refuse, change nothing and ask for nothing.
pub fn handle_notification(state: &mut ServerState, notification: ClientNotification) -> (r: NotificationStep)
    ensures
        final(state).spec_shutdown() == old(state).spec_shutdown(),
        match notification {
            ClientNotification::Exit => r is Exit && final(state).spec_documents() == old(state).spec_documents(),
            ClientNotification::DidOpen { uri: Some(u), text: Some(t), version } => {
                let stored = crate::lsp::convert::uri_path_text(vstd::utf8::encode_utf8(u@));
                if stored is Some {
                    &&& notification_view(r) == NotificationView::Publish(u@)
                    &&& final(state).spec_document(u@) == Some(
                        crate::lsp::state::DocumentView { path: stored->0, text: t@, version },
                    )
                    &&& forall|o: Seq<char>| o != u@ ==> #[trigger] final(state).spec_document(o) == old(state).spec_document(o)
                } else {
                    r is Nothing && forall|o: Seq<char>| #[trigger] final(state).spec_document(o) == old(state).spec_document(o)
                }
            },
            ClientNotification::DidChange { uri: Some(u), version, text: Some(t) } => {
                if old(state).spec_document(u@) is Some {
                    &&& notification_view(r) == NotificationView::Publish(u@)
                    &&& final(state).spec_document(u@) == Some(
                        crate::lsp::state::DocumentView { path: old(state).spec_document(u@)->0.path, text: t@, version },
                    )
                    &&& forall|o: Seq<char>| o != u@ ==> #[trigger] final(state).spec_document(o) == old(state).spec_document(o)
                } else {
                    r is Nothing && forall|o: Seq<char>| #[trigger] final(state).spec_document(o) == old(state).spec_document(o)
                }
            },
            ClientNotification::DidClose { uri: Some(u) } => {
                &&& notification_view(r) == NotificationView::Clear(u@)
                &&& final(state).spec_document(u@) is None
                &&& forall|o: Seq<char>| o != u@ ==> #[trigger] final(state).spec_document(o) == old(state).spec_document(o)
            },
            _ => r is Nothing && final(state).spec_documents() == old(state).spec_documents(),
        },
{
    match notification {
        ClientNotification::Initialized => NotificationStep::Nothing,
        ClientNotification::Exit => NotificationStep::Exit,
        ClientNotification::DidOpen { uri, text, version } => match (uri, text) {
            (Some(u), Some(t)) => {
                let key = u.clone();
                match state.upsert_open_document(key, t, version) {
                    Ok(()) => NotificationStep::PublishDiagnostics { uri: u },
                    Err(_) => NotificationStep::Nothing,
                }
            },
            _ => NotificationStep::Nothing,
        },
        ClientNotification::DidChange { uri, version, text } => match (uri, text) {
            (Some(u), Some(t)) => match state.update_open_document(u.as_str(), t, version) {
                Ok(()) => NotificationStep::PublishDiagnostics { uri: u },
                Err(_) => NotificationStep::Nothing,
            },
            _ => NotificationStep::Nothing,
        },
        ClientNotification::DidClose { uri } => match uri {
            Some(u) => {
                state.close_document(u.as_str());
                NotificationStep::ClearDiagnostics { uri: u }
            },
            None => NotificationStep::Nothing,
        },
        ClientNotification::Other => NotificationStep::Nothing,
    }
}

} // verus!
