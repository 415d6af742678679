use core_x::lsp::state::ServerState;

#[test]
fn opened_document_is_read_back() {
    let mut s = ServerState::new();
    assert!(s.document("file:///a.cx").is_none());
    s.upsert_open_document("file:///tmp/a%20b.cx".to_string(), "fn main() {}".to_string(), Some(1)).unwrap();
    let d = s.document("file:///tmp/a%20b.cx").expect("open");
    assert_eq!(d.path, "/tmp/a b.cx");
    assert_eq!(d.text, "fn main() {}");
    assert_eq!(d.version, Some(1));
}

#[test]
fn non_file_uri_is_refused_and_changes_nothing() {
    let mut s = ServerState::new();
    let err = s.upsert_open_document("untitled:Untitled-1".to_string(), "x".to_string(), None).unwrap_err();
    assert_eq!(err, "unsupported non-file URI: untitled:Untitled-1");
    assert!(s.document("untitled:Untitled-1").is_none());
}

#[test]
fn update_replaces_text_and_version_of_open_documents_only() {
    let mut s = ServerState::new();
    s.upsert_open_document("file:///a.cx".to_string(), "old".to_string(), Some(1)).unwrap();
    s.update_open_document("file:///a.cx", "new".to_string(), Some(2)).unwrap();
    let d = s.document("file:///a.cx").unwrap();
    assert_eq!(d.text, "new");
    assert_eq!(d.version, Some(2));
    assert_eq!(d.path, "/a.cx");
    let err = s.update_open_document("file:///b.cx", "x".to_string(), None).unwrap_err();
    assert_eq!(err, "didChange for unopened document: file:///b.cx");
    assert!(s.document("file:///b.cx").is_none());
}

#[test]
fn close_removes_only_that_document() {
    let mut s = ServerState::new();
    s.upsert_open_document("file:///a.cx".to_string(), "a".to_string(), None).unwrap();
    s.upsert_open_document("file:///b.cx".to_string(), "b".to_string(), None).unwrap();
    s.close_document("file:///a.cx");
    assert!(s.document("file:///a.cx").is_none());
    assert_eq!(s.document("file:///b.cx").unwrap().text, "b");
    s.mark_shutdown_requested();
    assert_eq!(s.document("file:///b.cx").unwrap().text, "b");
}

#[test]
fn open_texts_are_keyed_by_path() {
    let mut s = ServerState::new();
    s.upsert_open_document("file:///x/a.cx".to_string(), "first".to_string(), None).unwrap();
    s.upsert_open_document("file:///x/%61.cx".to_string(), "second".to_string(), None).unwrap();
    s.upsert_open_document("file:///x/b.cx".to_string(), "other".to_string(), None).unwrap();
    let by_path = s.open_text_by_path();
    assert_eq!(by_path.get(&"/x/b.cx".to_string()).map(String::as_str), Some("other"));
    // "file:///x/%61.cx" sorts before "file:///x/a.cx", so the later URI's text wins.
    assert_eq!(by_path.get(&"/x/a.cx".to_string()).map(String::as_str), Some("first"));
    assert_eq!(by_path.entries().len(), 2);
}
