//! The documents the editor has open, by URI, and the server's shutdown flag.

use crate::collections::text_map::{TextKey, TextMap};
use crate::lsp::convert::{uri_path_text, uri_to_path};
use vstd::prelude::*;
use vstd::string::StringExecFns;
use vstd::utf8::encode_utf8;

verus! {

/// A document open in the editor: the path its URI names, its current text
/// and the version the editor gave it.
#[derive(Debug)]
pub struct OpenDocument {
    pub path: String,
    pub text: String,
    pub version: Option<i64>,
}

/// An open document as plain values.
pub struct DocumentView {
    pub path: Seq<char>,
    pub text: Seq<char>,
    pub version: Option<i64>,
}

impl View for OpenDocument {
    type V = DocumentView;

    open spec fn view(&self) -> DocumentView {
        DocumentView { path: self.path@, text: self.text@, version: self.version }
    }
}

/// The view of an optional document.
pub open spec fn opt_document(o: Option<OpenDocument>) -> Option<DocumentView> {
    match o {
        Some(d) => Some(d@),
        None => None,
    }
}

/// The text of the last document (in URI order) whose path is `path`.
pub open spec fn last_text_for_path(docs: Seq<(String, OpenDocument)>, path: Seq<char>) -> Option<Seq<char>>
    decreases docs.len(),
{
    if docs.len() == 0 {
        None
    } else if docs.last().1.path@ == path {
        Some(docs.last().1.text@)
    } else {
        last_text_for_path(docs.drop_last(), path)
    }
}

/// The view of an optional string.
pub open spec fn opt_text(o: Option<String>) -> Option<Seq<char>> {
    match o {
        Some(s) => Some(s@),
        None => None,
    }
}

/// The language server's document state.
pub struct ServerState {
    shutdown_requested: bool,
    documents_by_uri: TextMap<String, OpenDocument>,
}

impl ServerState {
    /// Whether shutdown was requested.
    pub closed spec fn spec_shutdown(&self) -> bool {
        self.shutdown_requested
    }

    /// The open documents with their URIs, in URI order.
    pub closed spec fn spec_documents(&self) -> Seq<(String, OpenDocument)> {
        self.documents_by_uri.spec_entries()
    }

    /// The document open under `uri`.
    pub closed spec fn spec_document(&self, uri: Seq<char>) -> Option<DocumentView> {
        opt_document(self.documents_by_uri.spec_get(seq![uri]))
    }

    /// No document is open and no shutdown was requested.
    pub fn new() -> (s: Self)
        ensures
            !s.spec_shutdown(),
            forall|uri: Seq<char>| #[trigger] s.spec_document(uri) is None,
    {
        ServerState { shutdown_requested: false, documents_by_uri: TextMap::new() }
    }

    /// Records that shutdown was requested; the documents stay.
    pub fn mark_shutdown_requested(&mut self)
        ensures
            final(self).spec_shutdown(),
            final(self).spec_documents() == old(self).spec_documents(),
            forall|uri: Seq<char>| #[trigger] final(self).spec_document(uri) == old(self).spec_document(uri),
    {
        self.shutdown_requested = true;
    }

    /// Opens (or reopens) the document at a `file://` URI with the given text
    /// and version; an error naming the URI, and no change, for any other URI.
    pub fn upsert_open_document(&mut self, uri: String, text: String, version: Option<i64>) -> (r: Result<(), String>)
        ensures
            r is Ok <==> uri_path_text(encode_utf8(uri@)) is Some,
            final(self).spec_shutdown() == old(self).spec_shutdown(),
            r is Ok ==> final(self).spec_document(uri@) == Some(
                DocumentView { path: uri_path_text(encode_utf8(uri@))->0, text: text@, version },
            ),
            r is Ok ==> forall|u: Seq<char>| u != uri@ ==> #[trigger] final(self).spec_document(u) == old(self).spec_document(u),
            r matches Err(e) ==> e@ == "unsupported non-file URI: "@ + uri@,
            r is Err ==> forall|u: Seq<char>| #[trigger] final(self).spec_document(u) == old(self).spec_document(u),
    {
        let path = match uri_to_path(uri.as_str()) {
            Some(p) => p,
            None => {
                let mut message = String::new();
                message.append("unsupported non-file URI: ");
                message.append(uri.as_str());
                proof {
                    assert(message@ =~= "unsupported non-file URI: "@ + uri@);
                }
                return Err(message);
            },
        };
        let ghost key_text = uri.text();
        proof {
            assert(key_text == seq![uri@]);
        }
        self.documents_by_uri.insert(uri, OpenDocument { path, text, version });
        proof {
            assert forall|u: Seq<char>| u != uri@ implies #[trigger] self.spec_document(u) == old(self).spec_document(u) by {
                assert(seq![u] != key_text) by {
                    assert(seq![u][0] == u);
                }
            }
        }
        Ok(())
    }

    /// Replaces the text and version of the document open under `uri`; an
    /// error naming the URI, and no change, when none is open there.
    pub fn update_open_document(&mut self, uri: &str, text: String, version: Option<i64>) -> (r: Result<(), String>)
        ensures
            r is Ok <==> old(self).spec_document(uri@) is Some,
            final(self).spec_shutdown() == old(self).spec_shutdown(),
            r is Ok ==> final(self).spec_document(uri@) == Some(
                DocumentView { path: old(self).spec_document(uri@)->0.path, text: text@, version },
            ),
            r is Ok ==> forall|u: Seq<char>| u != uri@ ==> #[trigger] final(self).spec_document(u) == old(self).spec_document(u),
            r matches Err(e) ==> e@ == "didChange for unopened document: "@ + uri@,
            r is Err ==> forall|u: Seq<char>| #[trigger] final(self).spec_document(u) == old(self).spec_document(u),
    {
        let key = uri.to_owned();
        let ghost key_text = key.text();
        proof {
            assert(key_text == seq![uri@]);
        }
        match self.documents_by_uri.remove(&key) {
            Some(document) => {
                let ghost mid = self.documents_by_uri;
                let k2 = key.clone();
                self.documents_by_uri.insert(k2, OpenDocument { path: document.path, text, version });
                proof {
                    assert forall|u: Seq<char>| u != uri@ implies #[trigger] self.spec_document(u) == old(self).spec_document(u) by {
                        assert(seq![u] != key_text) by {
                            assert(seq![u][0] == u);
                        }
                        assert(mid.spec_get(seq![u]) == old(self).documents_by_uri.spec_get(seq![u]));
                    }
                }
                Ok(())
            },
            None => {
                let mut message = String::new();
                message.append("didChange for unopened document: ");
                message.append(uri);
                proof {
                    assert(message@ =~= "didChange for unopened document: "@ + uri@);
                    assert forall|u: Seq<char>| #[trigger] self.spec_document(u) == old(self).spec_document(u) by {
                        if u != uri@ {
                            assert(seq![u] != key_text) by {
                                assert(seq![u][0] == u);
                            }
                        }
                    }
                }
                Err(message)
            },
        }
    }

    /// Closes the document open under `uri`, if any.
    pub fn close_document(&mut self, uri: &str)
        ensures
            final(self).spec_shutdown() == old(self).spec_shutdown(),
            final(self).spec_document(uri@) is None,
            forall|u: Seq<char>| u != uri@ ==> #[trigger] final(self).spec_document(u) == old(self).spec_document(u),
    {
        let key = uri.to_owned();
        let ghost key_text = key.text();
        proof {
            assert(key_text == seq![uri@]);
        }
        let _ = self.documents_by_uri.remove(&key);
        proof {
            assert forall|u: Seq<char>| u != uri@ implies #[trigger] self.spec_document(u) == old(self).spec_document(u) by {
                assert(seq![u] != key_text) by {
                    assert(seq![u][0] == u);
                }
            }
        }
    }

    /// The document open under `uri`, if any.
    pub fn document(&self, uri: &str) -> (r: Option<&OpenDocument>)
        ensures
            match r {
                Some(d) => self.spec_document(uri@) == Some(d@),
                None => self.spec_document(uri@) is None,
            },
    {
        let key = uri.to_owned();
        proof {
            assert(key.text() == seq![uri@]);
        }
        self.documents_by_uri.get(&key)
    }

    /// The text of each open document by its path; when two URIs name the
    /// same path, the text of the later URI (in URI order) is kept.
    pub fn open_text_by_path(&self) -> (r: TextMap<String, String>)
        ensures
            forall|p: Seq<char>| #[trigger] opt_text(r.spec_get(seq![p])) == last_text_for_path(self.spec_documents(), p),
    {
        let entries = self.documents_by_uri.entries();
        let ghost docs = entries@;
        let mut out: TextMap<String, String> = TextMap::new();
        let mut i: usize = 0;
        while i < entries.len()
            invariant
                i <= docs.len(),
                docs == entries@,
                docs == self.spec_documents(),
                forall|p: Seq<char>| #[trigger] opt_text(out.spec_get(seq![p])) == last_text_for_path(docs.take(i as int), p),
            decreases docs.len() - i,
        {
            let ghost before = out;
            let document = &entries[i].1;
            let path = document.path.clone();
            let ghost key_text = path.text();
            out.insert(path, document.text.clone());
            proof {
                let t = docs.take(i + 1);
                assert(t.drop_last() =~= docs.take(i as int));
                assert(t.last() == docs[i as int]);
                assert(key_text == seq![document.path@]);
                assert forall|p: Seq<char>| #[trigger] opt_text(out.spec_get(seq![p])) == last_text_for_path(t, p) by {
                    if p != document.path@ {
                        assert(seq![p] != key_text) by {
                            assert(seq![p][0] == p);
                        }
                        assert(opt_text(before.spec_get(seq![p])) == last_text_for_path(docs.take(i as int), p));
                    }
                }
            }
            i = i + 1;
        }
        proof {
            assert(docs.take(docs.len() as int) =~= docs);
        }
        out
    }
}

} // verus!
