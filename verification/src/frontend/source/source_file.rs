use super::line_index::{is_line_of, line_starts_of, LineCol, LineIndex};
use super::FileId;
use crate::frontend::ast::Span;
use vstd::prelude::*;
use vstd::string::StringSliceAdditionalSpecFns;
use vstd::utf8::*;

verus! {

/// Parsed-input source file with precomputed line index.
#[derive(Debug)]
pub struct SourceFile {
    id: FileId,
    path: String,
    source: String,
    line_index: LineIndex,
}

/// UTF-8 bytes of a string's characters.
pub open spec fn text_bytes(text: Seq<char>) -> Seq<u8> {
    encode_utf8(text)
}

impl SourceFile {
    #[verifier::type_invariant]
    closed spec fn inv(self) -> bool {
        &&& self.line_index.starts() == line_starts_of(text_bytes(self.source@))
        &&& self.line_index.spec_source_len() == text_bytes(self.source@).len()
    }

    /// This file's id.
    pub closed spec fn spec_id(&self) -> FileId {
        self.id
    }

    /// This file's stored path.
    pub closed spec fn spec_path(&self) -> Seq<char> {
        self.path@
    }

    /// This file's source text.
    pub closed spec fn spec_source(&self) -> Seq<char> {
        self.source@
    }

    /// UTF-8 bytes of this file's source text.
    pub open spec fn spec_bytes(&self) -> Seq<u8> {
        text_bytes(self.spec_source())
    }

    /// Creates a source file from id, path, and source text.
    pub fn new(id: FileId, path: String, source: String) -> (file: Self)
        ensures
            file.spec_id() == id,
            file.spec_path() == path@,
            file.spec_source() == source@,
    {
        let line_index = LineIndex::new(source.as_str());
        SourceFile { id, path, source, line_index }
    }

    /// A copy of this file.
    pub fn duplicate(&self) -> (r: Self)
        ensures
            r.spec_id() == self.spec_id(),
            r.spec_path() == self.spec_path(),
            r.spec_source() == self.spec_source(),
    {
        SourceFile::new(self.id, self.path.clone(), self.source.clone())
    }

    /// Returns this file's stable id.
    pub fn id(&self) -> (id: FileId)
        ensures
            id == self.spec_id(),
    {
        self.id
    }

    /// Returns this file's stored path.
    pub fn path(&self) -> (path: &str)
        ensures
            path@ == self.spec_path(),
    {
        self.path.as_str()
    }

    /// Returns this file's source text.
    pub fn source(&self) -> (text: &str)
        ensures
            text@ == self.spec_source(),
    {
        self.source.as_str()
    }

    /// Returns this file's line index.
    pub fn line_index(&self) -> (index: &LineIndex)
        ensures
            index.starts() == line_starts_of(self.spec_bytes()),
            index.spec_source_len() == self.spec_bytes().len(),
    {
        proof {
            use_type_invariant(self);
        }
        &self.line_index
    }

    /// Returns source length in bytes.
    pub fn len(&self) -> (n: usize)
        ensures
            n == self.spec_bytes().len(),
    {
        proof {
            use_type_invariant(self);
        }
        self.source.as_str().len()
    }

    /// Returns true when source text is empty.
    pub fn is_empty(&self) -> (b: bool)
        ensures
            b == (self.spec_source().len() == 0),
    {
        self.source.as_str().is_empty()
    }

    /// Resolves a byte offset to zero-based line/column; `None` past the end.
    pub fn line_col(&self, offset: usize) -> (r: Option<LineCol>)
        ensures
            match r {
                Some(lc) => {
                    let starts = line_starts_of(self.spec_bytes());
                    &&& offset <= self.spec_bytes().len()
                    &&& is_line_of(starts, offset as int, lc.line as int)
                    &&& lc.column == offset - starts[lc.line as int]
                },
                None => offset > self.spec_bytes().len(),
            },
    {
        proof {
            use_type_invariant(self);
        }
        self.line_index.line_col(offset)
    }

    /// Returns the source text covered by `span`, when the span is ordered,
    /// inside the file and both ends fall on character boundaries.
    pub fn slice(&self, span: Span) -> (r: Option<&str>)
        ensures
            r is Some <==> {
                &&& span.start <= span.end <= self.spec_bytes().len()
                &&& is_char_boundary(self.spec_bytes(), span.start as int)
                &&& is_char_boundary(self.spec_bytes(), span.end as int)
            },
            r matches Some(text) ==> text.spec_bytes() == self.spec_bytes().subrange(
                span.start as int,
                span.end as int,
            ),
    {
        proof {
            use_type_invariant(self);
        }
        let text = self.source.as_str();
        if span.start > span.end || span.end > text.len() {
            return None;
        }
        if !text.is_char_boundary(span.start) || !text.is_char_boundary(span.end) {
            return None;
        }
        let ghost bytes = text.spec_bytes();
        proof {
            encode_utf8_valid_utf8(text@);
            valid_utf8_split(bytes, span.end as int);
        }
        let (head, _) = text.split_at(span.end);
        proof {
            let hb = head.spec_bytes();
            assert(hb =~= bytes.subrange(0, span.end as int));
            if span.start == span.end {
                is_char_boundary_start_end_of_seq(hb);
            } else if span.start > 0 {
                is_char_boundary_iff_not_is_continuation_byte(bytes, span.start as int);
                is_char_boundary_iff_not_is_continuation_byte(hb, span.start as int);
            }
        }
        let (_, middle) = head.split_at(span.start);
        proof {
            assert(middle.spec_bytes() =~= bytes.subrange(span.start as int, span.end as int));
        }
        Some(middle)
    }
}

} // verus!
