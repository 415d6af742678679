//! What the language server answers about one analysed document: hover,
//! go-to-definition and inlay hints, computed from the analysis tables of
//! the document and the project around it.

use crate::collections::sorted_map::SortedMap;
use crate::collections::text_map::{string_texts, TextMap};
use crate::frontend::ast::Span;
use crate::frontend::resolver::{ItemId, LocalId, LocalKind, ResolvedBody, ResolvedImports, ResolvedLocal};
use crate::frontend::semantic::types::Type;
use crate::frontend::semantic::analysis::SemanticAnalysis;
use crate::frontend::semantic::definition::{
    find_item, first_local_type, item_type_text, item_with_id, local_binding_type, lookup_definition_target,
    push_item_type_text, DefinitionLocation, DefinitionTarget, TargetView, definition_target,
};
use crate::frontend::semantic::external_lookup::{ExternalDefinitionLocation, ExternalSemanticLookup};
use crate::frontend::semantic::hir_input::SemanticHirInput;
use crate::frontend::source::{FileId, SourceDb};
use crate::frontend::source::line_index::{is_line_of, line_starts_of};
use crate::frontend::text::{joined_with, push_joined};
use crate::lsp::convert::{
    ascii_text, clamp_offset, file_uri_text, path_to_uri, is_word_around, offset_to_position, position_of, position_offset, position_on_line,
    position_to_offset, span_to_lsp_range, word_anchor, word_span_at_position, is_ident, LspPosition, LspRange,
};
use crate::lsp::presentation::{
    expression_hover, external_function_hover, first_inferred_local, hover_text_for_external_function,
    hover_text_for_item, inferred_expression_hover_text, inferred_local, inferred_local_type_for_resolved_local,
    item_hover_text,
};
use crate::midend::type_infer::body_infer::{BodyInferenceTable, InferTableView};
use crate::frontend::hir::walk_fuel;
use crate::midend::completion::HirNodeId;
use crate::lsp::method_call::{calls_at, find_method_call_at_offset, named_item_id_from_type, named_item_of, prefer_all};
use crate::midend::type_check::expr_check::BodyExprId;
use vstd::string::StringSliceAdditionalSpecFns;
use vstd::prelude::*;
use vstd::string::StringExecFns;
use vstd::utf8::*;

verus! {

/// The analysis of one open document: its source database, the semantic
/// tables when the front end got that far, the inference results, and the
/// project-level lookups that editor queries consult.
pub struct DocumentAnalysis {
    pub db: SourceDb,
    pub primary_file_id: FileId,
    pub hir: SemanticHirInput,
    pub semantic: Option<SemanticAnalysis>,
    pub inference: Option<BodyInferenceTable>,
    pub imports: SortedMap<FileId, ResolvedImports>,
    pub external_lookup: ExternalSemanticLookup,
    pub item_definitions: SortedMap<ItemId, DefinitionLocation>,
    pub path_by_file_id: SortedMap<FileId, String>,
    pub file_id_by_path: TextMap<String, FileId>,
    pub method_definitions: Vec<MethodDefinition>,
}

/// Where method `name` of the type item `receiver` is defined.
pub struct MethodDefinition {
    pub receiver: ItemId,
    pub name: String,
    pub location: DefinitionLocation,
}

/// A place in a document: its URI and range.
pub struct Location {
    pub uri: String,
    pub range: LspRange,
}

/// A hover answer: its text and the editor range it covers.
pub struct Hover {
    pub text: String,
    pub range: LspRange,
}

/// `r` is the editor range of the byte range `[start, end)` of UTF-8 `bytes`.
pub open spec fn is_range_of(bytes: Seq<u8>, start: int, end: int, r: LspRange) -> bool {
    &&& exists|line: int|
        is_line_of(line_starts_of(bytes), clamp_offset(bytes, start), line) && r.start == position_on_line(
            bytes,
            clamp_offset(bytes, start),
            line,
        )
    &&& exists|line: int|
        is_line_of(line_starts_of(bytes), clamp_offset(bytes, end), line) && r.end == position_on_line(
            bytes,
            clamp_offset(bytes, end),
            line,
        )
}

/// The identifier run around the word anchor of `position`, if the byte
/// there belongs to identifiers.
pub open spec fn word_at(bytes: Seq<u8>, position: LspPosition) -> Option<(int, int)> {
    match word_anchor(bytes, position) {
        Some(a) => if is_ident(bytes[a]) {
            Some(choose|se: (int, int)| is_word_around(bytes, a, se.0, se.1))
        } else {
            None
        },
        None => None,
    }
}

/// The identifier under `position`, as text.
pub open spec fn word_text_at(bytes: Seq<u8>, position: LspPosition) -> Option<Seq<char>> {
    match word_at(bytes, position) {
        Some((s, e)) => Some(ascii_text(bytes.subrange(s, e))),
        None => None,
    }
}

/// The byte range a hover at `position` (offset `offset`) highlights: the
/// identifier there, or else the one byte at the offset (none at the end).
pub open spec fn highlight_of(bytes: Seq<u8>, position: LspPosition, offset: int) -> (int, int) {
    match word_at(bytes, position) {
        Some(se) => se,
        None => (offset, if offset + 1 <= bytes.len() { offset + 1 } else { bytes.len() as int }),
    }
}

/// The type a hover shows for local `id`: the inferred one when inference
/// ran and gives one, else the one recorded by type checking.
pub open spec fn local_hover_type(a: DocumentAnalysis, semantic: SemanticAnalysis, id: crate::frontend::resolver::LocalId) -> Option<
    crate::frontend::semantic::types::Type,
> {
    let inferred = match a.inference {
        Some(inf) => first_inferred_local(inf@, semantic.resolved_bodies.bodies@, id),
        None => None,
    };
    match inferred {
        Some(t) => Some(t),
        None => first_local_type(semantic.typed_bodies, semantic.resolved_bodies.bodies@, id),
    }
}

/// The hover text of an item of an external root: its function signature
/// when the root (or, for a one-segment path, the extern library) declares
/// one, else `external root::path`.
pub open spec fn external_hover(a: DocumentAnalysis, semantic: SemanticAnalysis, root: Seq<char>, path: Seq<Seq<char>>) -> Seq<char> {
    let ext = a.external_lookup;
    match ext.spec_root_function(root, path) {
        Some(sig) => external_function_hover(root, path, sig.param_types@, sig.return_type, semantic.global_items@),
        None => if path.len() == 1 && ext.spec_extern_function(root, path[0]) is Some {
            let sig = ext.spec_extern_function(root, path[0])->0;
            external_function_hover(root, path, sig.param_types@, sig.return_type, semantic.global_items@)
        } else {
            "external "@ + root + "::"@ + joined_with(path, "::"@)
        },
    }
}

/// The hover text at `offset` of the primary file: what the name there
/// refers to (a local with its type, an item, an external item), else the
/// type of the innermost typed expression there; `None` without semantic
/// tables, or when a local has no known type or an item is not in the table.
pub open spec fn hover_text_at(a: DocumentAnalysis, offset: usize, word: Option<Seq<char>>) -> Option<Seq<char>> {
    match a.semantic {
        None => None,
        Some(semantic) => match definition_target(
            semantic,
            a.imports,
            a.external_lookup,
            a.item_definitions,
            a.primary_file_id,
            offset,
            word,
        ) {
            Some(TargetView::Local { local_id, .. }) => match local_hover_type(a, semantic, local_id) {
                Some(t) => Some(
                    "local `"@ + (match word {
                        Some(w) => w,
                        None => "binding"@,
                    }) + "`: "@ + item_type_text(t, semantic.global_items@),
                ),
                None => None,
            },
            Some(TargetView::Item { item_id, .. }) => match item_with_id(semantic.global_items@, item_id) {
                Some(g) => Some(item_hover_text(g, semantic.typed_items, semantic.global_items@)),
                None => None,
            },
            Some(TargetView::External { root_name, path, .. }) => Some(external_hover(a, semantic, root_name, path)),
            None => match a.inference {
                Some(inf) => expression_hover(inf@, a.hir, semantic, a.primary_file_id, offset),
                None => None,
            },
        },
    }
}

/// In UTF-8 text, identifier runs around an anchor are unique.
proof fn lemma_word_unique(b: Seq<u8>, a: int, s1: int, e1: int, s2: int, e2: int)
    requires
        is_word_around(b, a, s1, e1),
        is_word_around(b, a, s2, e2),
    ensures
        s1 == s2,
        e1 == e2,
{
    if s1 < s2 {
        assert(is_ident(b[s2 - 1]));
    } else if s2 < s1 {
        assert(is_ident(b[s1 - 1]));
    }
    if e1 < e2 {
        assert(is_ident(b[e1]));
    } else if e2 < e1 {
        assert(is_ident(b[e2]));
    }
}

/// The hover text at `offset` of the primary file (see [`hover_text_at`]).
pub fn hover_text_for_offset(analysis: &DocumentAnalysis, offset: usize, word: Option<&str>) -> (r: Option<String>)
    ensures
        match r {
            Some(t) => hover_text_at(*analysis, offset, crate::frontend::semantic::definition::opt_word(word)) == Some(t@),
            None => hover_text_at(*analysis, offset, crate::frontend::semantic::definition::opt_word(word)) is None,
        },
{
    let semantic = match &analysis.semantic {
        Some(s) => s,
        None => return None,
    };
    let target = lookup_definition_target(
        semantic,
        &analysis.imports,
        &analysis.external_lookup,
        &analysis.item_definitions,
        analysis.primary_file_id,
        offset,
        word,
    );
    match target {
        Some(DefinitionTarget::LocalBinding { local_id, .. }) => {
            let inferred = match &analysis.inference {
                Some(inference) => inferred_local_type_for_resolved_local(semantic, inference, local_id),
                None => None,
            };
            let local_type = match inferred {
                Some(t) => t,
                None => match local_binding_type(semantic, local_id) {
                    Some(t) => t,
                    None => return None,
                },
            };
            let mut text = String::new();
            text.append("local `");
            match word {
                Some(w) => text.append(w),
                None => text.append("binding"),
            }
            text.append("`: ");
            push_item_type_text(&mut text, local_type, semantic.global_items.items());
            proof {
                assert(text@ =~= "local `"@ + (match crate::frontend::semantic::definition::opt_word(word) {
                    Some(w) => w,
                    None => "binding"@,
                }) + "`: "@ + item_type_text(*local_type, semantic.global_items@));
            }
            Some(text)
        },
        Some(DefinitionTarget::CurrentTargetItem { item_id, .. }) => match find_item(semantic.global_items.items(), item_id) {
            Some(item) => Some(hover_text_for_item(item, semantic)),
            None => None,
        },
        Some(DefinitionTarget::ExternalItem { root_name, path, .. }) => {
            match analysis.external_lookup.function_for_named_root_path(root_name.as_str(), path.as_slice()) {
                Some(signature) => {
                    return Some(hover_text_for_external_function(root_name.as_str(), path.as_slice(), signature, semantic));
                },
                None => {},
            }
            if path.len() == 1 {
                match analysis.external_lookup.extern_function_signature(root_name.as_str(), path[0].as_str()) {
                    Some(signature) => {
                        proof {
                            assert(string_texts(path@)[0] == path@[0]@);
                        }
                        return Some(hover_text_for_external_function(root_name.as_str(), path.as_slice(), signature, semantic));
                    },
                    None => {},
                }
            }
            let mut text = String::new();
            text.append("external ");
            text.append(root_name.as_str());
            text.append("::");
            push_joined(&mut text, path.as_slice(), "::");
            proof {
                if path.len() == 1 {
                    assert(string_texts(path@)[0] == path@[0]@);
                }
                assert(text@ =~= "external "@ + root_name@ + "::"@ + joined_with(string_texts(path@), "::"@));
            }
            Some(text)
        },
        None => match &analysis.inference {
            Some(inference) => inferred_expression_hover_text(
                semantic,
                &analysis.hir,
                inference,
                analysis.primary_file_id,
                offset,
            ),
            None => None,
        },
    }
}

/// The hover at an editor position of the primary file: the text of
/// [`hover_text_at`] for the position's offset and the identifier there,
/// and the range of the identifier, or of the one byte at the offset when
/// there is none. `None` when the primary file is not in the database, the
/// position lies past its last line, or there is no hover text. Where there
/// is no identifier, the byte after the offset must start a character.
pub fn hover_for_position(analysis: &DocumentAnalysis, position: LspPosition) -> (r: Option<Hover>)
    requires
        analysis.db@.len() > analysis.primary_file_id.0 ==> ({
            let b = analysis.db@[analysis.primary_file_id.0 as int].spec_bytes();
            match position_offset(b, position) {
                Some(o) => word_at(b, position) is None && hover_text_at(*analysis, o as usize, None) is Some
                    ==> is_char_boundary(b, clamp_offset(b, o + 1)),
                None => true,
            }
        }),
    ensures
        analysis.db@.len() <= analysis.primary_file_id.0 ==> r is None,
        analysis.db@.len() > analysis.primary_file_id.0 ==> ({
            let b = analysis.db@[analysis.primary_file_id.0 as int].spec_bytes();
            match position_offset(b, position) {
                None => r is None,
                Some(o) => match hover_text_at(*analysis, o as usize, word_text_at(b, position)) {
                    None => r is None,
                    Some(t) => r matches Some(h) && h.text@ == t && is_range_of(
                        b,
                        highlight_of(b, position, o).0,
                        highlight_of(b, position, o).1,
                        h.range,
                    ),
                },
            }
        }),
{
    let file = match analysis.db.file(analysis.primary_file_id) {
        Some(f) => f,
        None => return None,
    };
    let ghost b = file.spec_bytes();
    proof {
        encode_utf8_valid_utf8(file.spec_source());
    }
    let offset = match position_to_offset(file, position) {
        Some(o) => o,
        None => return None,
    };
    let word_span = word_span_at_position(file, position);
    let highlight = match &word_span {
        Some((_, span)) => *span,
        None => {
            let next = offset.saturating_add(1);
            let end = if next < file.len() { next } else { file.len() };
            Span::new(offset, end)
        },
    };
    let word: Option<&str> = match &word_span {
        Some((w, _)) => Some(w.as_str()),
        None => None,
    };
    proof {
        match &word_span {
            Some((w, span)) => {
                let a = word_anchor(b, position)->0;
                let wit = (span.start as int, span.end as int);
                assert(is_word_around(b, a, wit.0, wit.1));
                assert(exists|se: (int, int)| is_word_around(b, a, se.0, se.1));
                let se = choose|se: (int, int)| is_word_around(b, a, se.0, se.1);
                lemma_word_unique(b, a, span.start as int, span.end as int, se.0, se.1);
                assert(word_at(b, position) == Some((span.start as int, span.end as int)));
                assert(crate::frontend::semantic::definition::opt_word(word) == word_text_at(b, position));
            },
            None => {
                assert(word_at(b, position) is None);
            },
        }
        assert((highlight.start as int, highlight.end as int) == highlight_of(b, position, offset as int));
    }
    let text = match hover_text_for_offset(analysis, offset, word) {
        Some(t) => t,
        None => return None,
    };
    proof {
        if word_span.is_none() {
            assert(is_char_boundary(b, clamp_offset(b, offset + 1)));
            assert(clamp_offset(b, highlight.end as int) == clamp_offset(b, offset + 1));
        }
    }
    let range = span_to_lsp_range(file, highlight);
    Some(Hover { text, range })
}

/* Inlay hints */

/// An inlay hint: a type label shown at an editor position.
pub struct InlayHint {
    pub position: LspPosition,
    pub label: String,
    /// The protocol's kind number; 1 is a type hint.
    pub kind: i32,
}

/// A hint as plain values: its position and label.
pub open spec fn hint_view(h: InlayHint) -> (LspPosition, Seq<char>) {
    (h.position, h.label@)
}

/// The views of a list of hints.
pub open spec fn hints_view(hs: Seq<InlayHint>) -> Seq<(LspPosition, Seq<char>)> {
    hs.map_values(|h: InlayHint| hint_view(h))
}

/// The hint a local of `body` gets, as (local, anchor offset, type): a
/// local or pattern binding without a written type whose inferred type is
/// known and not the error type, anchored at the end of its declared span
/// (at most the end of the text, `len`), when the anchor lies in `[lo, hi]`.
pub open spec fn local_hint(
    inf: InferTableView,
    body: ResolvedBody,
    l: ResolvedLocal,
    len: int,
    lo: int,
    hi: int,
) -> Option<(LocalId, int, Type)> {
    if l.declared_type is None && (l.kind == LocalKind::LocalBinding || l.kind == LocalKind::PatternBinding) {
        match inferred_local(inf, body.owner, body.body_index, l.id) {
            Some(t) => {
                let anchor = if l.declared_span.end <= len {
                    l.declared_span.end as int
                } else {
                    len
                };
                if !(t is Error) && lo <= anchor <= hi {
                    Some((l.id, anchor, t))
                } else {
                    None
                }
            },
            None => None,
        }
    } else {
        None
    }
}

/// The hints of the first locals `locals` of `body`, in order.
pub open spec fn body_hints(
    inf: InferTableView,
    body: ResolvedBody,
    locals: Seq<ResolvedLocal>,
    len: int,
    lo: int,
    hi: int,
) -> Seq<(LocalId, int, Type)>
    decreases locals.len(),
{
    if locals.len() == 0 {
        seq![]
    } else {
        let prev = body_hints(inf, body, locals.drop_last(), len, lo, hi);
        match local_hint(inf, body, locals.last(), len, lo, hi) {
            Some(c) => prev.push(c),
            None => prev,
        }
    }
}

/// The hints of the locals of the bodies in `bodies` whose scope is file `file_id`.
pub open spec fn file_hints(
    inf: InferTableView,
    bodies: Seq<ResolvedBody>,
    file_id: FileId,
    len: int,
    lo: int,
    hi: int,
) -> Seq<(LocalId, int, Type)>
    decreases bodies.len(),
{
    if bodies.len() == 0 {
        seq![]
    } else {
        let b = bodies.last();
        file_hints(inf, bodies.drop_last(), file_id, len, lo, hi) + if b.containing_scope_file_id == file_id {
            body_hints(inf, b, b.locals@, len, lo, hi)
        } else {
            seq![]
        }
    }
}

/// The candidates of `cs` whose (local, anchor) pair no earlier one has.
pub open spec fn first_of_keys(cs: Seq<(LocalId, int, Type)>) -> Seq<(LocalId, int, Type)>
    decreases cs.len(),
{
    if cs.len() == 0 {
        seq![]
    } else {
        let prev = first_of_keys(cs.drop_last());
        let c = cs.last();
        if exists|i: int| 0 <= i < cs.len() - 1 && (#[trigger] cs[i]).0 == c.0 && cs[i].1 == c.1 {
            prev
        } else {
            prev.push(c)
        }
    }
}

/// `a` does not come after `b`: by line, then by column.
pub open spec fn pos_le(a: LspPosition, b: LspPosition) -> bool {
    a.line < b.line || (a.line == b.line && a.character <= b.character)
}

/// `h` inserted into `s` after every entry whose position does not come after it.
pub open spec fn insert_by_position(s: Seq<(LspPosition, Seq<char>)>, h: (LspPosition, Seq<char>)) -> Seq<
    (LspPosition, Seq<char>),
>
    decreases s.len(),
{
    if s.len() == 0 {
        seq![h]
    } else if pos_le(s.last().0, h.0) {
        s.push(h)
    } else {
        insert_by_position(s.drop_last(), h).push(s.last())
    }
}

/// `s` sorted by position, entries at equal positions in their order in `s`.
pub open spec fn sort_by_position(s: Seq<(LspPosition, Seq<char>)>) -> Seq<(LspPosition, Seq<char>)>
    decreases s.len(),
{
    if s.len() == 0 {
        seq![]
    } else {
        insert_by_position(sort_by_position(s.drop_last()), s.last())
    }
}

/// The shown form of a hint candidate: the editor position of its anchor
/// and `: ` with its type.
pub open spec fn candidate_view(bytes: Seq<u8>, items: Seq<crate::frontend::resolver::GlobalItem>, c: (LocalId, int, Type)) -> (
    LspPosition,
    Seq<char>,
) {
    (position_of(bytes, c.1), ": "@ + item_type_text(c.2, items))
}

/// The inlay hints of the primary file for an editor range: one per local
/// and anchor among [`file_hints`] (the first), sorted by position; none
/// when the file, either end of the range, the semantic tables or the
/// inference results are missing.
pub open spec fn inlay_hints_at(a: DocumentAnalysis, range: LspRange) -> Seq<(LspPosition, Seq<char>)> {
    if a.db@.len() <= a.primary_file_id.0 {
        seq![]
    } else {
        let b = a.db@[a.primary_file_id.0 as int].spec_bytes();
        match (position_offset(b, range.start), position_offset(b, range.end), a.semantic, a.inference) {
            (Some(lo), Some(hi), Some(sem), Some(inf)) => sort_by_position(
                first_of_keys(
                    file_hints(inf@, sem.resolved_bodies.bodies@, a.primary_file_id, b.len() as int, lo, hi),
                ).map_values(|c: (LocalId, int, Type)| candidate_view(b, sem.global_items@, c)),
            ),
            _ => seq![],
        }
    }
}

/// Every hint anchor of a local of the bodies of file `file_id` falls on a
/// character boundary of `bytes`.
pub open spec fn anchors_on_boundaries(
    inf: InferTableView,
    bodies: Seq<ResolvedBody>,
    file_id: FileId,
    bytes: Seq<u8>,
    lo: int,
    hi: int,
) -> bool {
    forall|i: int, j: int|
        0 <= i < bodies.len() && 0 <= j < bodies[i].locals@.len() && bodies[i].containing_scope_file_id == file_id
            ==> match #[trigger] local_hint(inf, bodies[i], bodies[i].locals@[j], bytes.len() as int, lo, hi) {
            Some(c) => is_char_boundary(bytes, c.1),
            None => true,
        }
}

/// Inserting `h` where a scan from the end stops gives [`insert_by_position`].
proof fn lemma_insert_scan(s: Seq<(LspPosition, Seq<char>)>, h: (LspPosition, Seq<char>), j: int)
    requires
        0 <= j <= s.len(),
        forall|k: int| j <= k < s.len() ==> !pos_le(#[trigger] s[k].0, h.0),
        j == 0 || pos_le(s[j - 1].0, h.0),
    ensures
        insert_by_position(s, h) == s.insert(j, h),
    decreases s.len(),
{
    if s.len() == 0 {
        assert(s.insert(j, h) =~= seq![h]);
    } else if pos_le(s.last().0, h.0) {
        assert(j == s.len());
        assert(s.insert(j, h) =~= s.push(h));
    } else {
        let d = s.drop_last();
        lemma_insert_scan(d, h, j);
        assert(d.insert(j, h).push(s.last()) =~= s.insert(j, h));
    }
}

/// Sorts hints by position, keeping the order of hints at equal positions.
fn sort_hints(v: Vec<InlayHint>) -> (r: Vec<InlayHint>)
    ensures
        hints_view(r@) == sort_by_position(hints_view(v@)),
        forall|i: int| 0 <= i < r@.len() ==> exists|k: int| 0 <= k < v@.len() && (#[trigger] r@[i]).kind == v@[k].kind,
{
    let ghost orig = v@;
    let mut rest = v;
    let n = rest.len();
    let mut out: Vec<InlayHint> = Vec::new();
    let mut k: usize = 0;
    proof {
        assert(orig.skip(0) =~= orig);
        assert(hints_view(orig.take(0)) =~= Seq::<(LspPosition, Seq<char>)>::empty());
    }
    while rest.len() > 0
        invariant
            k <= orig.len(),
            k + rest@.len() == orig.len(),
            orig.len() == n,
            rest@ == orig.skip(k as int),
            hints_view(out@) == sort_by_position(hints_view(orig.take(k as int))),
            forall|i: int| 0 <= i < out@.len() ==> exists|m: int| 0 <= m < orig.len() && (#[trigger] out@[i]).kind == orig[m].kind,
        decreases rest@.len(),
    {
        let h = rest.remove(0);
        proof {
            assert(h == orig[k as int]);
            assert(rest@ =~= orig.skip(k + 1));
        }
        let mut j: usize = out.len();
        while j > 0 && !(out[j - 1].position.line < h.position.line || (out[j - 1].position.line == h.position.line
            && out[j - 1].position.character <= h.position.character))
            invariant
                j <= out@.len(),
                forall|m: int| j <= m < out@.len() ==> !pos_le(#[trigger] out@[m].position, h.position),
            decreases j,
        {
            j = j - 1;
        }
        let ghost before = out@;
        let ghost hv = hint_view(h);
        proof {
            let sv = hints_view(before);
            assert forall|m: int| j <= m < sv.len() implies !pos_le(#[trigger] sv[m].0, hv.0) by {
                assert(sv[m] == hint_view(before[m]));
            }
            if j > 0 {
                assert(sv[j - 1] == hint_view(before[j - 1]));
            }
            lemma_insert_scan(sv, hv, j as int);
            let t = orig.take(k + 1);
            assert(t.drop_last() =~= orig.take(k as int));
            assert(hints_view(t).drop_last() =~= hints_view(orig.take(k as int)));
            assert(hints_view(t).last() == hv);
        }
        out.insert(j, h);
        proof {
            assert(hints_view(out@) =~= hints_view(before).insert(j as int, hv));
            assert forall|i: int| 0 <= i < out@.len() implies exists|m: int| 0 <= m < orig.len() && (#[trigger] out@[i]).kind == orig[m].kind by {
                if i < j {
                    assert(out@[i] == before[i]);
                } else if i == j {
                    assert(out@[i].kind == orig[k as int].kind);
                } else {
                    assert(out@[i] == before[i - 1]);
                }
            }
        }
        k = k + 1;
    }
    proof {
        assert(orig.take(k as int) =~= orig);
    }
    out
}

/// The inlay hints of the primary file for an editor range (see
/// [`inlay_hints_at`]); each is a type hint. Each hint's anchor must fall on
/// a character boundary.
pub fn inlay_hints_for_range(analysis: &DocumentAnalysis, range: LspRange) -> (r: Vec<InlayHint>)
    requires
        analysis.db@.len() > analysis.primary_file_id.0 ==> ({
            let b = analysis.db@[analysis.primary_file_id.0 as int].spec_bytes();
            match (position_offset(b, range.start), position_offset(b, range.end), analysis.semantic, analysis.inference) {
                (Some(lo), Some(hi), Some(sem), Some(inf)) => anchors_on_boundaries(
                    inf@,
                    sem.resolved_bodies.bodies@,
                    analysis.primary_file_id,
                    b,
                    lo,
                    hi,
                ),
                _ => true,
            }
        }),
    ensures
        hints_view(r@) == inlay_hints_at(*analysis, range),
        forall|i: int| 0 <= i < r@.len() ==> (#[trigger] r@[i]).kind == 1,
{
    let file = match analysis.db.file(analysis.primary_file_id) {
        Some(f) => f,
        None => return Vec::new(),
    };
    let ghost b = file.spec_bytes();
    let start_offset = match position_to_offset(file, range.start) {
        Some(o) => o,
        None => return Vec::new(),
    };
    let end_offset = match position_to_offset(file, range.end) {
        Some(o) => o,
        None => return Vec::new(),
    };
    let semantic = match &analysis.semantic {
        Some(s) => s,
        None => return Vec::new(),
    };
    let inference = match &analysis.inference {
        Some(i) => i,
        None => return Vec::new(),
    };
    let len = file.len();
    let ghost lo = start_offset as int;
    let ghost hi = end_offset as int;
    let ghost inf = inference@;
    let ghost items = semantic.global_items@;
    let bodies = semantic.resolved_bodies.iter();
    let ghost all = bodies@;
    proof {
        encode_utf8_valid_utf8(file.spec_source());
    }
    let mut seen: Vec<(LocalId, usize)> = Vec::new();
    let mut hints: Vec<InlayHint> = Vec::new();
    let ghost mut cands: Seq<(LocalId, int, Type)> = seq![];
    let mut bi: usize = 0;
    proof {
        assert(all.take(0) =~= Seq::<ResolvedBody>::empty());
    }
    while bi < bodies.len()
        invariant
            bi <= all.len(),
            all == bodies@,
            all == semantic.resolved_bodies.bodies@,
            len == b.len(),
            b == file.spec_bytes(),
            lo == start_offset as int,
            hi == end_offset as int,
            inf == inference@,
            items == semantic.global_items@,
            anchors_on_boundaries(inf, all, analysis.primary_file_id, b, lo, hi),
            cands == file_hints(inf, all.take(bi as int), analysis.primary_file_id, len as int, lo, hi),
            seen@.len() == cands.len(),
            forall|m: int| 0 <= m < cands.len() ==> (#[trigger] seen@[m]).0 == cands[m].0 && seen@[m].1 as int == cands[m].1,
            hints_view(hints@) == first_of_keys(cands).map_values(|c: (LocalId, int, Type)| candidate_view(b, items, c)),
            forall|m: int| 0 <= m < hints@.len() ==> (#[trigger] hints@[m]).kind == 1,
        decreases all.len() - bi,
    {
        let body = &bodies[bi];
        let ghost cands0 = cands;
        let ghost t = all.take(bi + 1);
        proof {
            assert(t.drop_last() =~= all.take(bi as int));
            assert(t.last() == *body);
        }
        if body.containing_scope_file_id == analysis.primary_file_id {
            let ghost ls = body.locals@;
            let mut li: usize = 0;
            proof {
                assert(ls.take(0) =~= Seq::<ResolvedLocal>::empty());
                assert(cands0 + body_hints(inf, *body, ls.take(0), len as int, lo, hi) =~= cands0);
            }
            while li < body.locals.len()
                invariant
                    li <= ls.len(),
                    ls == body.locals@,
                    bi < all.len(),
                    *body == all[bi as int],
                    body.containing_scope_file_id == analysis.primary_file_id,
                    len == b.len(),
                    b == file.spec_bytes(),
                    lo == start_offset as int,
                    hi == end_offset as int,
                    inf == inference@,
                    items == semantic.global_items@,
                    anchors_on_boundaries(inf, all, analysis.primary_file_id, b, lo, hi),
                    cands == cands0 + body_hints(inf, *body, ls.take(li as int), len as int, lo, hi),
                    seen@.len() == cands.len(),
                    forall|m: int| 0 <= m < cands.len() ==> (#[trigger] seen@[m]).0 == cands[m].0 && seen@[m].1 as int == cands[m].1,
                    hints_view(hints@) == first_of_keys(cands).map_values(|c: (LocalId, int, Type)| candidate_view(b, items, c)),
                    forall|m: int| 0 <= m < hints@.len() ==> (#[trigger] hints@[m]).kind == 1,
                decreases ls.len() - li,
            {
                let local = &body.locals[li];
                let ghost lt = ls.take(li + 1);
                proof {
                    assert(lt.drop_last() =~= ls.take(li as int));
                    assert(lt.last() == *local);
                }
                let ghost hint = local_hint(inf, *body, *local, len as int, lo, hi);
                let mut candidate: Option<(usize, &Type)> = None;
                if local.declared_type.is_none() {
                    let binding = match local.kind {
                        LocalKind::LocalBinding => true,
                        LocalKind::PatternBinding => true,
                        LocalKind::Parameter => false,
                    };
                    if binding {
                        match inference.local_type_for_resolved_local(&body.owner, body.body_index, local.id) {
                            Some(ty) => {
                                if !ty.is_error() {
                                    let anchor = if local.declared_span.end < len { local.declared_span.end } else { len };
                                    if !(anchor < start_offset || anchor > end_offset) {
                                        candidate = Some((anchor, ty));
                                    }
                                }
                            },
                            None => {},
                        }
                    }
                }
                proof {
                    match candidate {
                        Some((anchor, ty)) => assert(hint == Some((local.id, anchor as int, *ty))),
                        None => assert(hint is None),
                    }
                }
                match candidate {
                    Some((anchor, ty)) => {
                        let ghost c = (local.id, anchor as int, *ty);
                        let mut dup = false;
                        let mut m: usize = 0;
                        while m < seen.len()
                            invariant
                                m <= seen@.len(),
                                seen@.len() == cands.len(),
                                c.0 == local.id,
                                c.1 == anchor as int,
                                dup == exists|x: int| 0 <= x < m && (#[trigger] cands[x]).0 == c.0 && cands[x].1 == c.1,
                                forall|x: int| 0 <= x < cands.len() ==> (#[trigger] seen@[x]).0 == cands[x].0 && seen@[x].1 as int == cands[x].1,
                            decreases seen@.len() - m,
                        {
                            if seen[m].0 == local.id && seen[m].1 == anchor {
                                dup = true;
                            }
                            proof {
                                if seen[m as int].0 == local.id && seen[m as int].1 == anchor {
                                    assert(cands[m as int].0 == c.0 && cands[m as int].1 == c.1);
                                }
                                if dup {
                                    if !(exists|x: int| 0 <= x < m && (#[trigger] cands[x]).0 == c.0 && cands[x].1 == c.1) {
                                        assert(cands[m as int].0 == c.0 && cands[m as int].1 == c.1);
                                    }
                                }
                            }
                            m = m + 1;
                        }
                        let ghost new_cands = cands.push(c);
                        proof {
                            assert(new_cands.drop_last() =~= cands);
                            assert(new_cands.last() == c);
                            assert(dup == exists|x: int| 0 <= x < new_cands.len() - 1 && (#[trigger] new_cands[x]).0 == c.0 && new_cands[x].1 == c.1) by {
                                if dup {
                                    let x = choose|x: int| 0 <= x < m && (#[trigger] cands[x]).0 == c.0 && cands[x].1 == c.1;
                                    assert(new_cands[x] == cands[x]);
                                }
                                if exists|x: int| 0 <= x < new_cands.len() - 1 && (#[trigger] new_cands[x]).0 == c.0 && new_cands[x].1 == c.1 {
                                    let x = choose|x: int| 0 <= x < new_cands.len() - 1 && (#[trigger] new_cands[x]).0 == c.0 && new_cands[x].1 == c.1;
                                    assert(cands[x] == new_cands[x]);
                                }
                            }
                        }
                        if !dup {
                            proof {
                                assert(is_char_boundary(b, anchor as int)) by {
                                    assert(local_hint(inf, all[bi as int], all[bi as int].locals@[li as int], b.len() as int, lo, hi) == hint);
                                }
                                assert(clamp_offset(b, anchor as int) == anchor as int);
                            }
                            let position = offset_to_position(file, anchor);
                            let mut label = String::new();
                            label.append(": ");
                            push_item_type_text(&mut label, ty, semantic.global_items.items());
                            let ghost hs0 = hints@;
                            hints.push(InlayHint { position, label, kind: 1 });
                            proof {
                                assert(hint_view(hints@.last()) == candidate_view(b, items, c)) by {
                                    assert(label@ =~= ": "@ + item_type_text(*ty, items));
                                }
                                assert(hints_view(hints@) =~= hints_view(hs0).push(candidate_view(b, items, c)));
                                assert(first_of_keys(new_cands) == first_of_keys(cands).push(c));
                                assert(first_of_keys(new_cands).map_values(|c: (LocalId, int, Type)| candidate_view(b, items, c))
                                    =~= first_of_keys(cands).map_values(|c: (LocalId, int, Type)| candidate_view(b, items, c)).push(candidate_view(b, items, c)));
                            }
                        } else {
                            proof {
                                assert(first_of_keys(new_cands) == first_of_keys(cands));
                            }
                        }
                        seen.push((local.id, anchor));
                        proof {
                            cands = new_cands;
                            assert(body_hints(inf, *body, lt, len as int, lo, hi) == body_hints(inf, *body, ls.take(li as int), len as int, lo, hi).push(c));
                            assert(cands =~= cands0 + body_hints(inf, *body, lt, len as int, lo, hi));
                        }
                    },
                    None => {
                        proof {
                            assert(body_hints(inf, *body, lt, len as int, lo, hi) == body_hints(inf, *body, ls.take(li as int), len as int, lo, hi));
                        }
                    },
                }
                li = li + 1;
            }
            proof {
                assert(ls.take(ls.len() as int) =~= ls);
                assert(file_hints(inf, t, analysis.primary_file_id, len as int, lo, hi) == cands0 + body_hints(inf, *body, ls, len as int, lo, hi));
            }
        } else {
            proof {
                assert(file_hints(inf, t, analysis.primary_file_id, len as int, lo, hi) =~= cands0);
            }
        }
        bi = bi + 1;
    }
    proof {
        assert(all.take(all.len() as int) =~= all);
    }
    let ghost unsorted = hints@;
    let sorted = sort_hints(hints);
    proof {
        assert forall|i: int| 0 <= i < sorted@.len() implies (#[trigger] sorted@[i]).kind == 1 by {
            let k = choose|k: int| 0 <= k < unsorted.len() && sorted@[i].kind == unsorted[k].kind;
            assert(unsorted[k].kind == 1);
        }
    }
    sorted
}

/* Go to definition */

/// The bytes of file `id` of the database.
pub open spec fn db_bytes(a: DocumentAnalysis, id: FileId) -> Seq<u8> {
    a.db@[id.0 as int].spec_bytes()
}

/// The URI of file `id`, when its path is known and the database holds it.
pub open spec fn file_uri_of(a: DocumentAnalysis, id: FileId) -> Option<Seq<char>> {
    match a.path_by_file_id.spec_get(id) {
        Some(p) => if id.0 < a.db@.len() {
            Some(file_uri_text(encode_utf8(p@)))
        } else {
            None
        },
        None => None,
    }
}

/// Both ends of `span` fall on character boundaries of `bytes`.
pub open spec fn span_fits(bytes: Seq<u8>, span: Span) -> bool {
    is_char_boundary(bytes, clamp_offset(bytes, span.start as int)) && is_char_boundary(
        bytes,
        clamp_offset(bytes, span.end as int),
    )
}

/// `span` of file `id` fits the file when the database holds it.
pub open spec fn file_span_fits(a: DocumentAnalysis, id: FileId, span: Span) -> bool {
    id.0 < a.db@.len() ==> span_fits(db_bytes(a, id), span)
}

/// `l` is the location of `span` in file `id`.
pub open spec fn located_at(a: DocumentAnalysis, id: FileId, span: Span, l: Location) -> bool {
    &&& file_uri_of(a, id) == Some(l.uri@)
    &&& is_range_of(db_bytes(a, id), span.start as int, span.end as int, l.range)
}

/// The zero range at the start of a document.
pub open spec fn zero_range() -> LspRange {
    LspRange { start: LspPosition { line: 0, character: 0 }, end: LspPosition { line: 0, character: 0 } }
}

/// The file of the database an external definition's path names.
pub open spec fn external_file(a: DocumentAnalysis, loc: ExternalDefinitionLocation) -> Option<FileId> {
    match a.file_id_by_path.spec_get(seq![loc.file_path@]) {
        Some(id) => if id.0 < a.db@.len() {
            Some(id)
        } else {
            None
        },
        None => None,
    }
}

/// `l` is the location of an external definition: the URI of its path, and
/// the range of its span when the database holds the file, else the zero range.
pub open spec fn external_located(a: DocumentAnalysis, loc: ExternalDefinitionLocation, l: Location) -> bool {
    &&& l.uri@ == file_uri_text(encode_utf8(loc.file_path@))
    &&& match external_file(a, loc) {
        Some(id) => is_range_of(db_bytes(a, id), loc.span.start as int, loc.span.end as int, l.range),
        None => l.range == zero_range(),
    }
}

/// The spans a target's location is drawn from fit their files.
pub open spec fn target_fits(a: DocumentAnalysis, t: TargetView) -> bool {
    match t {
        TargetView::Local { location, .. } => file_span_fits(a, location.file_id, location.span),
        TargetView::Item { location, .. } => file_span_fits(a, location.file_id, location.span),
        TargetView::External { location, .. } => match external_file(a, location) {
            Some(id) => span_fits(db_bytes(a, id), location.span),
            None => true,
        },
    }
}

/// Target `t` has a location: an external one always, a local or an item
/// when its file has a URI.
pub open spec fn target_has_location(a: DocumentAnalysis, t: TargetView) -> bool {
    match t {
        TargetView::Local { location, .. } => file_uri_of(a, location.file_id) is Some,
        TargetView::Item { location, .. } => file_uri_of(a, location.file_id) is Some,
        TargetView::External { .. } => true,
    }
}

/// `r` is the location of target `t`: `None` exactly when a local or item
/// of the target lies in a file without a known path or not in the database.
pub open spec fn target_located(a: DocumentAnalysis, t: TargetView, r: Option<Location>) -> bool {
    match t {
        TargetView::Local { location, .. } => match r {
            Some(l) => located_at(a, location.file_id, location.span, l),
            None => file_uri_of(a, location.file_id) is None,
        },
        TargetView::Item { location, .. } => match r {
            Some(l) => located_at(a, location.file_id, location.span, l),
            None => file_uri_of(a, location.file_id) is None,
        },
        TargetView::External { location, .. } => r matches Some(l) && external_located(a, location, l),
    }
}

/// The first definition of method `name` of `receiver`.
pub open spec fn method_def_of(defs: Seq<MethodDefinition>, receiver: ItemId, name: Seq<char>) -> Option<DefinitionLocation>
    decreases defs.len(),
{
    if defs.len() == 0 {
        None
    } else if defs[0].receiver == receiver && defs[0].name@ == name {
        Some(defs[0].location)
    } else {
        method_def_of(defs.drop_first(), receiver, name)
    }
}

/// The definitions of methods named `name`, in order.
pub open spec fn defs_named(defs: Seq<MethodDefinition>, name: Seq<char>) -> Seq<DefinitionLocation>
    decreases defs.len(),
{
    if defs.len() == 0 {
        seq![]
    } else {
        let prev = defs_named(defs.drop_last(), name);
        if defs.last().name@ == name {
            prev.push(defs.last().location)
        } else {
            prev
        }
    }
}

/// What one body of the primary file says of the method call at `offset`:
/// `None` to go on with the next body; `Some(None)` to stop without an
/// answer (the body's HIR body or module is missing); `Some(Some(loc))` to
/// answer with the definition of the called method of the receiver's type,
/// when that definition's file has a location.
pub open spec fn body_method_step(
    a: DocumentAnalysis,
    sem: SemanticAnalysis,
    body: ResolvedBody,
    offset: usize,
    word: Option<Seq<char>>,
) -> Option<Option<DefinitionLocation>> {
    let refs = a.hir.spec_owner_refs(body.owner);
    if body.containing_scope_file_id != a.primary_file_id {
        None
    } else if body.body_index >= refs.len() {
        Some(None)
    } else {
        let br = refs[body.body_index as int];
        if br.file_id != a.primary_file_id {
            None
        } else {
            match a.hir.hir_modules.spec_get(br.file_id) {
                None => Some(None),
                Some(m) => match prefer_all(None, calls_at(m, HirNodeId::Body(br.body_id), offset, word, walk_fuel(m))) {
                    None => None,
                    Some(call) => {
                        let key = BodyExprId { owner: body.owner, body_index: body.body_index, hir_expr_id: call.receiver };
                        if !sem.expr_types.spec_types().contains_key(key) {
                            None
                        } else {
                            match named_item_of(sem.expr_types.spec_types()[key]) {
                                None => None,
                                Some(item) => match method_def_of(a.method_definitions@, item, call.name) {
                                    None => None,
                                    Some(loc) => if file_uri_of(a, loc.file_id) is Some {
                                        Some(Some(loc))
                                    } else {
                                        None
                                    },
                                },
                            }
                        }
                    },
                },
            }
        }
    }
}

/// The first body whose step stops, and what it answers.
pub open spec fn method_scan(
    a: DocumentAnalysis,
    sem: SemanticAnalysis,
    bodies: Seq<ResolvedBody>,
    offset: usize,
    word: Option<Seq<char>>,
) -> Option<Option<DefinitionLocation>>
    decreases bodies.len(),
{
    if bodies.len() == 0 {
        None
    } else {
        match body_method_step(a, sem, bodies[0], offset, word) {
            Some(x) => Some(x),
            None => method_scan(a, sem, bodies.drop_first(), offset, word),
        }
    }
}

/// The method definition go-to-definition falls back on: the one the
/// bodies' scan answers, or, when no body stops it, the only definition
/// of a method named like the word under the cursor (if its file has a
/// location).
pub open spec fn method_location(a: DocumentAnalysis, sem: SemanticAnalysis, offset: usize, word: Option<Seq<char>>) -> Option<
    DefinitionLocation,
> {
    match method_scan(a, sem, sem.resolved_bodies.bodies@, offset, word) {
        Some(x) => x,
        None => match word {
            Some(w) => {
                let ds = defs_named(a.method_definitions@, w);
                if ds.len() == 1 && file_uri_of(a, ds[0].file_id) is Some {
                    Some(ds[0])
                } else {
                    None
                }
            },
            None => None,
        },
    }
}

/// The location of `span` in file `file_id`; `None` when the file's path is
/// unknown or the database does not hold it.
pub fn location_for_file_and_span(analysis: &DocumentAnalysis, file_id: FileId, span: Span) -> (r: Option<Location>)
    requires
        file_span_fits(*analysis, file_id, span),
    ensures
        match r {
            Some(l) => located_at(*analysis, file_id, span, l),
            None => file_uri_of(*analysis, file_id) is None,
        },
{
    let path = match analysis.path_by_file_id.get(&file_id) {
        Some(p) => p,
        None => return None,
    };
    let file = match analysis.db.file(file_id) {
        Some(f) => f,
        None => return None,
    };
    let uri = path_to_uri(path.as_str());
    let range = span_to_lsp_range(file, span);
    Some(Location { uri, range })
}

/// The location of a definition target (see [`target_located`]).
pub fn location_for_definition_target(analysis: &DocumentAnalysis, target: &DefinitionTarget) -> (r: Option<Location>)
    requires
        target_fits(*analysis, target@),
    ensures
        target_located(*analysis, target@, r),
{
    match target {
        DefinitionTarget::LocalBinding { location, .. } => location_for_file_and_span(analysis, location.file_id, location.span),
        DefinitionTarget::CurrentTargetItem { location, .. } => location_for_file_and_span(
            analysis,
            location.file_id,
            location.span,
        ),
        DefinitionTarget::ExternalItem { location, .. } => {
            let uri = path_to_uri(location.file_path.as_str());
            let key = location.file_path.clone();
            if let Some(file_id) = analysis.file_id_by_path.get(&key) {
                if let Some(file) = analysis.db.file(*file_id) {
                    let range = span_to_lsp_range(file, location.span);
                    return Some(Location { uri, range });
                }
            }
            let zero = LspPosition { line: 0, character: 0 };
            Some(Location { uri, range: LspRange { start: zero, end: zero } })
        },
    }
}

/// The first definition of method `name` of `receiver` (see [`method_def_of`]).
fn find_method_definition(defs: &Vec<MethodDefinition>, receiver: ItemId, name: &str) -> (r: Option<DefinitionLocation>)
    ensures
        r == method_def_of(defs@, receiver, name@),
{
    let mut i: usize = 0;
    proof {
        assert(defs@.skip(0) =~= defs@);
    }
    while i < defs.len()
        invariant
            i <= defs@.len(),
            method_def_of(defs@, receiver, name@) == method_def_of(defs@.skip(i as int), receiver, name@),
        decreases defs@.len() - i,
    {
        proof {
            assert(defs@.skip(i as int)[0] == defs@[i as int]);
            assert(defs@.skip(i as int).drop_first() =~= defs@.skip(i + 1));
        }
        if defs[i].receiver == receiver && crate::frontend::text::str_eq(defs[i].name.as_str(), name) {
            return Some(defs[i].location);
        }
        i = i + 1;
    }
    None
}

/// The definitions of methods named `name` (see [`defs_named`]).
fn definitions_named(defs: &Vec<MethodDefinition>, name: &str) -> (r: Vec<DefinitionLocation>)
    ensures
        r@ == defs_named(defs@, name@),
{
    let mut out: Vec<DefinitionLocation> = Vec::new();
    let mut i: usize = 0;
    proof {
        assert(defs@.take(0) =~= Seq::<MethodDefinition>::empty());
    }
    while i < defs.len()
        invariant
            i <= defs@.len(),
            out@ == defs_named(defs@.take(i as int), name@),
        decreases defs@.len() - i,
    {
        proof {
            assert(defs@.take(i + 1).drop_last() =~= defs@.take(i as int));
            assert(defs@.take(i + 1).last() == defs@[i as int]);
        }
        if crate::frontend::text::str_eq(defs[i].name.as_str(), name) {
            out.push(defs[i].location);
        }
        i = i + 1;
    }
    proof {
        assert(defs@.take(defs@.len() as int) =~= defs@);
    }
    out
}

/// The definition of the method called at `offset` (see [`method_location`]).
pub fn method_definition_for_offset(
    analysis: &DocumentAnalysis,
    semantic: &SemanticAnalysis,
    offset: usize,
    word: Option<&str>,
) -> (r: Option<DefinitionLocation>)
    ensures
        r == method_location(*analysis, *semantic, offset, crate::frontend::semantic::definition::opt_word(word)),
        r matches Some(loc) ==> file_uri_of(*analysis, loc.file_id) is Some,
{
    let ghost w = crate::frontend::semantic::definition::opt_word(word);
    let bodies = semantic.resolved_bodies.iter();
    let ghost all = bodies@;
    let mut i: usize = 0;
    proof {
        assert(all.skip(0) =~= all);
    }
    while i < bodies.len()
        invariant
            i <= all.len(),
            all == bodies@,
            all == semantic.resolved_bodies.bodies@,
            w == crate::frontend::semantic::definition::opt_word(word),
            method_scan(*analysis, *semantic, all, offset, w) == method_scan(*analysis, *semantic, all.skip(i as int), offset, w),
        decreases all.len() - i,
    {
        proof {
            assert(all.skip(i as int)[0] == all[i as int]);
            assert(all.skip(i as int).drop_first() =~= all.skip(i + 1));
        }
        let body = &bodies[i];
        let ghost step = body_method_step(*analysis, *semantic, *body, offset, w);
        if body.containing_scope_file_id == analysis.primary_file_id {
            let body_ref = match analysis.hir.body_ref(&body.owner, body.body_index) {
                Some(r) => r,
                None => return None,
            };
            if body_ref.file_id == analysis.primary_file_id {
                let module = match analysis.hir.hir_modules.get(&body_ref.file_id) {
                    Some(m) => m,
                    None => return None,
                };
                if let Some(call) = find_method_call_at_offset(module, body_ref.body_id, offset, word) {
                    if let Some(receiver_ty) = semantic.expr_types.expr_type_for_hir_expr(
                        &body.owner,
                        body.body_index,
                        call.receiver_expr_id,
                    ) {
                        if let Some(item) = named_item_id_from_type(receiver_ty) {
                            if let Some(loc) = find_method_definition(
                                &analysis.method_definitions,
                                item,
                                call.method_name.as_str(),
                            ) {
                                let known = match analysis.path_by_file_id.get(&loc.file_id) {
                                    Some(_) => analysis.db.file(loc.file_id).is_some(),
                                    None => false,
                                };
                                if known {
                                    return Some(loc);
                                }
                            }
                        }
                    }
                }
            }
        }
        proof {
            assert(step is None);
        }
        i = i + 1;
    }
    match word {
        Some(name) => {
            let named = definitions_named(&analysis.method_definitions, name);
            if named.len() == 1 {
                let loc = named[0];
                let known = match analysis.path_by_file_id.get(&loc.file_id) {
                    Some(_) => analysis.db.file(loc.file_id).is_some(),
                    None => false,
                };
                if known {
                    return Some(loc);
                }
            }
            None
        },
        None => None,
    }
}

/// Go-to-definition at an editor position of the primary file: the
/// location of what the name there refers to, else of the method called
/// there (see [`method_location`]); at most one location, none without
/// the file, the position's offset or the semantic tables.
pub fn definition_for_position(analysis: &DocumentAnalysis, position: LspPosition) -> (r: Vec<Location>)
    requires
        analysis.db@.len() > analysis.primary_file_id.0 ==> ({
            let b = db_bytes(*analysis, analysis.primary_file_id);
            match (position_offset(b, position), analysis.semantic) {
                (Some(o), Some(sem)) => {
                    let w = word_text_at(b, position);
                    &&& definition_target(sem, analysis.imports, analysis.external_lookup, analysis.item_definitions,
                        analysis.primary_file_id, o as usize, w) matches Some(t) ==> target_fits(*analysis, t)
                    &&& method_location(*analysis, sem, o as usize, w) matches Some(loc) ==> file_span_fits(
                        *analysis,
                        loc.file_id,
                        loc.span,
                    )
                },
                _ => true,
            }
        }),
    ensures
        r@.len() <= 1,
        analysis.db@.len() <= analysis.primary_file_id.0 ==> r@.len() == 0,
        analysis.db@.len() > analysis.primary_file_id.0 ==> ({
            let b = db_bytes(*analysis, analysis.primary_file_id);
            match (position_offset(b, position), analysis.semantic) {
                (Some(o), Some(sem)) => {
                    let w = word_text_at(b, position);
                    let target = definition_target(sem, analysis.imports, analysis.external_lookup,
                        analysis.item_definitions, analysis.primary_file_id, o as usize, w);
                    let by_target = target matches Some(t) && target_has_location(*analysis, t);
                    if by_target {
                        r@.len() == 1 && target_located(*analysis, target->0, Some(r@[0]))
                    } else {
                        match method_location(*analysis, sem, o as usize, w) {
                            Some(loc) => r@.len() == 1 && located_at(*analysis, loc.file_id, loc.span, r@[0]),
                            None => r@.len() == 0,
                        }
                    }
                },
                _ => r@.len() == 0,
            }
        }),
{
    let file = match analysis.db.file(analysis.primary_file_id) {
        Some(f) => f,
        None => return Vec::new(),
    };
    let ghost b = file.spec_bytes();
    proof {
        encode_utf8_valid_utf8(file.spec_source());
    }
    let offset = match position_to_offset(file, position) {
        Some(o) => o,
        None => return Vec::new(),
    };
    let word_span = word_span_at_position(file, position);
    let word: Option<&str> = match &word_span {
        Some((w, _)) => Some(w.as_str()),
        None => None,
    };
    proof {
        match &word_span {
            Some((w, span)) => {
                let a = word_anchor(b, position)->0;
                let wit = (span.start as int, span.end as int);
                assert(is_word_around(b, a, wit.0, wit.1));
                assert(exists|se: (int, int)| is_word_around(b, a, se.0, se.1));
                let se = choose|se: (int, int)| is_word_around(b, a, se.0, se.1);
                lemma_word_unique(b, a, span.start as int, span.end as int, se.0, se.1);
                assert(crate::frontend::semantic::definition::opt_word(word) == word_text_at(b, position));
            },
            None => {
                assert(word_at(b, position) is None);
            },
        }
    }
    let semantic = match &analysis.semantic {
        Some(s) => s,
        None => return Vec::new(),
    };
    let target = lookup_definition_target(
        semantic,
        &analysis.imports,
        &analysis.external_lookup,
        &analysis.item_definitions,
        analysis.primary_file_id,
        offset,
        word,
    );
    if let Some(t) = &target {
        if let Some(location) = location_for_definition_target(analysis, t) {
            let mut out: Vec<Location> = Vec::new();
            out.push(location);
            return out;
        }
    }
    match method_definition_for_offset(analysis, semantic, offset, word) {
        Some(loc) => match location_for_file_and_span(analysis, loc.file_id, loc.span) {
            Some(location) => {
                let mut out: Vec<Location> = Vec::new();
                out.push(location);
                out
            },
            None => Vec::new(),
        },
        None => Vec::new(),
    }
}

} // verus!
