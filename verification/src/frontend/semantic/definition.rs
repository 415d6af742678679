//! Go-to-definition and file-level completion over the resolved semantic
//! tables: what a name under the cursor refers to, and the names visible in
//! a file.

use crate::collections::sorted_map::SortedMap;
use crate::collections::text_map::{
    chars_lt, lemma_text_lookup_at, string_texts, text_entries_contain, texts_lt, TextKey, TextMap,
};
use crate::frontend::ast::Span;
use crate::frontend::resolver::{
    first_with_path, GlobalItem, GlobalItemTable, ImportBindingKind, ItemId, ItemKind, LocalId, ResolvedBody,
    ResolvedBodyRef, ResolvedBodyReference, ResolvedImportBinding, ResolvedImports, ResolvedLocal,
    UnresolvedBodyReference,
};
use crate::frontend::semantic::types::{builtin_text, Mutability, Type};
use crate::frontend::text::{decimal, joined_with, push_decimal, push_joined};
use crate::midend::type_check::typed_bodies::{first_body_with_index, TypedBodyTable};
use vstd::string::StringExecFns;
use crate::frontend::semantic::analysis::SemanticAnalysis;
use crate::frontend::semantic::external_lookup::{ExternalDefinitionLocation, ExternalSemanticLookup};
use crate::frontend::source::FileId;
use crate::frontend::text::str_eq;
use vstd::prelude::*;

verus! {

/// Where an item or local of the current target is declared.
#[derive(Debug, Clone, Copy, PartialEq, Eq, Structural)]
pub struct DefinitionLocation {
    pub file_id: FileId,
    pub span: Span,
}

/// What a name refers to: a local of a body, an item of the current
/// target, or an item of an external root.
#[derive(Debug)]
pub enum DefinitionTarget {
    LocalBinding { local_id: LocalId, location: DefinitionLocation },
    CurrentTargetItem { item_id: ItemId, location: DefinitionLocation },
    ExternalItem { root_name: String, path: Vec<String>, location: ExternalDefinitionLocation },
}

/// A definition target as plain values.
pub enum TargetView {
    Local { local_id: LocalId, location: DefinitionLocation },
    Item { item_id: ItemId, location: DefinitionLocation },
    External { root_name: Seq<char>, path: Seq<Seq<char>>, location: ExternalDefinitionLocation },
}

impl View for DefinitionTarget {
    type V = TargetView;

    open spec fn view(&self) -> TargetView {
        match *self {
            DefinitionTarget::LocalBinding { local_id, location } => TargetView::Local { local_id, location },
            DefinitionTarget::CurrentTargetItem { item_id, location } => TargetView::Item { item_id, location },
            DefinitionTarget::ExternalItem { root_name, path, location } => TargetView::External {
                root_name: root_name@,
                path: string_texts(path@),
                location,
            },
        }
    }
}

/// The view of an optional target.
pub open spec fn opt_target(o: Option<DefinitionTarget>) -> Option<TargetView> {
    match o {
        Some(t) => Some(t@),
        None => None,
    }
}

/// The characters of an optional word.
pub open spec fn opt_word(w: Option<&str>) -> Option<Seq<char>> {
    match w {
        Some(s) => Some(s@),
        None => None,
    }
}

/// `offset` lies in `span`, both ends included.
pub open spec fn span_holds(span: Span, offset: usize) -> bool {
    span.start <= offset && offset <= span.end
}

/// The first local of `locals` with id `id`.
pub open spec fn first_local(locals: Seq<ResolvedLocal>, id: LocalId) -> Option<ResolvedLocal>
    decreases locals.len(),
{
    if locals.len() == 0 {
        None
    } else if locals[0].id == id {
        Some(locals[0])
    } else {
        first_local(locals.drop_first(), id)
    }
}

/// The target of a resolved reference of `body`: a local at its declaration
/// (when the body has that local), or an item at its recorded definition
/// (when one is recorded).
pub open spec fn resolved_target(body: ResolvedBody, r: ResolvedBodyRef, defs: SortedMap<ItemId, DefinitionLocation>) -> Option<TargetView> {
    match r {
        ResolvedBodyRef::Local(id) => match first_local(body.locals@, id) {
            Some(l) => Some(
                TargetView::Local {
                    local_id: id,
                    location: DefinitionLocation { file_id: body.containing_scope_file_id, span: l.declared_span },
                },
            ),
            None => None,
        },
        ResolvedBodyRef::Item(id) => match defs.spec_get(id) {
            Some(location) => Some(TargetView::Item { item_id: id, location }),
            None => None,
        },
        ResolvedBodyRef::Import(id) => match defs.spec_get(id) {
            Some(location) => Some(TargetView::Item { item_id: id, location }),
            None => None,
        },
        ResolvedBodyRef::Unresolved => None,
    }
}

/// The first resolved reference of `refs` under `offset` decides: its target, or
/// nothing. `None` when no resolved reference lies under the offset.
pub open spec fn reference_decision(
    body: ResolvedBody,
    refs: Seq<ResolvedBodyReference>,
    offset: usize,
    defs: SortedMap<ItemId, DefinitionLocation>,
) -> Option<Option<TargetView>>
    decreases refs.len(),
{
    if refs.len() == 0 {
        None
    } else if span_holds(refs[0].span, offset) && !(refs[0].resolved is Unresolved) {
        Some(resolved_target(body, refs[0].resolved, defs))
    } else {
        reference_decision(body, refs.drop_first(), offset, defs)
    }
}

/// The decision of the first body of file `file_id` that has a resolved
/// reference under `offset`.
pub open spec fn body_reference_decision(
    bodies: Seq<ResolvedBody>,
    file_id: FileId,
    offset: usize,
    defs: SortedMap<ItemId, DefinitionLocation>,
) -> Option<Option<TargetView>>
    decreases bodies.len(),
{
    if bodies.len() == 0 {
        None
    } else {
        let here = if bodies[0].containing_scope_file_id == file_id {
            reference_decision(bodies[0], bodies[0].references@, offset, defs)
        } else {
            None
        };
        match here {
            Some(d) => Some(d),
            None => body_reference_decision(bodies.drop_first(), file_id, offset, defs),
        }
    }
}

/// The target the first resolved reference under `offset` in a body of file
/// `file_id` gives, if any.
pub open spec fn body_reference_target(
    bodies: Seq<ResolvedBody>,
    file_id: FileId,
    offset: usize,
    defs: SortedMap<ItemId, DefinitionLocation>,
) -> Option<TargetView> {
    match body_reference_decision(bodies, file_id, offset, defs) {
        Some(d) => d,
        None => None,
    }
}

/// Item `path` of external root `root`: its recorded definition, or, for a
/// one-segment path when `single` is set, the definition of extern function
/// `path[0]` of library `root`.
pub open spec fn external_target(ext: ExternalSemanticLookup, root: Seq<char>, path: Seq<Seq<char>>, single: bool) -> Option<TargetView> {
    match ext.spec_root_definition(root, path) {
        Some(location) => Some(TargetView::External { root_name: root, path, location }),
        None => if single && path.len() == 1 {
            match ext.spec_extern_definition(root, path[0]) {
                Some(location) => Some(TargetView::External { root_name: root, path, location }),
                None => None,
            }
        } else {
            None
        },
    }
}

/// The external item an unresolved path `root::rest...` names (at least two segments).
pub open spec fn segments_target(ext: ExternalSemanticLookup, segments: Seq<Seq<char>>) -> Option<TargetView> {
    if segments.len() < 2 {
        None
    } else {
        external_target(ext, segments[0], segments.skip(1), true)
    }
}

/// The external target of the first unresolved path of `refs` under `offset` that names one.
pub open spec fn unresolved_target_in(ext: ExternalSemanticLookup, refs: Seq<UnresolvedBodyReference>, offset: usize) -> Option<TargetView>
    decreases refs.len(),
{
    if refs.len() == 0 {
        None
    } else if span_holds(refs[0].span, offset) && segments_target(ext, string_texts(refs[0].segments@)) is Some {
        segments_target(ext, string_texts(refs[0].segments@))
    } else {
        unresolved_target_in(ext, refs.drop_first(), offset)
    }
}

/// The first external target of an unresolved path under `offset` in a body of file `file_id`.
pub open spec fn unresolved_target(bodies: Seq<ResolvedBody>, file_id: FileId, offset: usize, ext: ExternalSemanticLookup) -> Option<TargetView>
    decreases bodies.len(),
{
    if bodies.len() == 0 {
        None
    } else {
        let here = if bodies[0].containing_scope_file_id == file_id {
            unresolved_target_in(ext, bodies[0].unresolved_references@, offset)
        } else {
            None
        };
        if here is Some {
            here
        } else {
            unresolved_target(bodies.drop_first(), file_id, offset, ext)
        }
    }
}

/// `path` without a leading segment equal to `root`.
pub open spec fn normalized_for_root(root: Seq<char>, path: Seq<Seq<char>>) -> Seq<Seq<char>> {
    if path.len() > 0 && path[0] == root {
        path.skip(1)
    } else {
        path
    }
}

/// The external target of an import binding from a named root: its
/// normalized path in that root, or for a symbol import of one segment an
/// extern function of that library.
pub open spec fn binding_external_target(ext: ExternalSemanticLookup, b: ResolvedImportBinding) -> Option<TargetView> {
    match b.source_root {
        Some(root) => external_target(ext, root@, normalized_for_root(root@, string_texts(b.target_path@)), b.kind is Symbol),
        None => None,
    }
}

/// The target of an import binding: the current-target item with its
/// path when a definition is recorded for it, else its external target.
pub open spec fn binding_target(
    items: Seq<GlobalItem>,
    defs: SortedMap<ItemId, DefinitionLocation>,
    ext: ExternalSemanticLookup,
    b: ResolvedImportBinding,
) -> Option<TargetView> {
    match first_with_path(items, string_texts(b.target_path@)) {
        Some(i) => match defs.spec_get(items[i].id) {
            Some(location) => Some(TargetView::Item { item_id: items[i].id, location }),
            None => binding_external_target(ext, b),
        },
        None => binding_external_target(ext, b),
    }
}

/// The target of the import of `word` into file `file_id`.
pub open spec fn import_word_target(
    items: Seq<GlobalItem>,
    imports: SortedMap<FileId, ResolvedImports>,
    defs: SortedMap<ItemId, DefinitionLocation>,
    ext: ExternalSemanticLookup,
    file_id: FileId,
    word: Seq<char>,
) -> Option<TargetView> {
    match imports.spec_get(file_id) {
        Some(file_imports) => match file_imports.bindings.spec_get(seq![word]) {
            Some(b) => binding_target(items, defs, ext, b),
            None => None,
        },
        None => None,
    }
}

/// The first item (in id order) of the scope of `file_id` named `word` with a recorded definition.
pub open spec fn scope_word_target(items: Seq<GlobalItem>, defs: SortedMap<ItemId, DefinitionLocation>, file_id: FileId, word: Seq<char>) -> Option<TargetView>
    decreases items.len(),
{
    if items.len() == 0 {
        None
    } else if items[0].containing_scope_file_id == file_id && items[0].name@ == word && defs.spec_get(items[0].id) is Some {
        Some(TargetView::Item { item_id: items[0].id, location: defs.spec_get(items[0].id)->0 })
    } else {
        scope_word_target(items.drop_first(), defs, file_id, word)
    }
}

/// What the name at `offset` in file `file_id` refers to: a resolved
/// reference under the offset; else an unresolved path there that names an
/// external item; else, given the word under the cursor, its import into
/// the file, then an item of the file's scope with that name.
pub open spec fn definition_target(
    semantic: SemanticAnalysis,
    imports: SortedMap<FileId, ResolvedImports>,
    ext: ExternalSemanticLookup,
    defs: SortedMap<ItemId, DefinitionLocation>,
    file_id: FileId,
    offset: usize,
    word: Option<Seq<char>>,
) -> Option<TargetView> {
    let bodies = semantic.resolved_bodies.bodies@;
    let by_reference = body_reference_target(bodies, file_id, offset, defs);
    if by_reference is Some {
        by_reference
    } else {
        let by_path = unresolved_target(bodies, file_id, offset, ext);
        if by_path is Some {
            by_path
        } else {
            match word {
                Some(w) => {
                    let by_import = import_word_target(semantic.global_items@, imports, defs, ext, file_id, w);
                    if by_import is Some {
                        by_import
                    } else {
                        scope_word_target(semantic.global_items@, defs, file_id, w)
                    }
                },
                None => None,
            }
        }
    }
}

/// Whether `offset` lies in `span` (see [`span_holds`]).
pub fn span_contains(span: Span, offset: usize) -> (b: bool)
    ensures
        b == span_holds(span, offset),
{
    span.start <= offset && offset <= span.end
}

/// A copy of `path` from index `start` on.
fn strings_from(path: &[String], start: usize) -> (r: Vec<String>)
    requires
        start <= path@.len(),
    ensures
        string_texts(r@) == string_texts(path@).skip(start as int),
{
    let mut out: Vec<String> = Vec::new();
    let mut i: usize = start;
    while i < path.len()
        invariant
            start <= i <= path@.len(),
            string_texts(out@) == string_texts(path@).subrange(start as int, i as int),
        decreases path@.len() - i,
    {
        let ghost before = out@;
        out.push(path[i].clone());
        proof {
            assert(string_texts(out@) =~= string_texts(before).push(path@[i as int]@));
            assert(string_texts(path@).subrange(start as int, i + 1) =~= string_texts(path@).subrange(start as int, i as int).push(
                string_texts(path@)[i as int],
            ));
        }
        i = i + 1;
    }
    proof {
        assert(string_texts(path@).subrange(start as int, path@.len() as int) =~= string_texts(path@).skip(start as int));
    }
    out
}

/// `path` without a leading segment equal to `root_name` (see [`normalized_for_root`]).
pub fn normalized_path_for_root(root_name: &str, path: &[String]) -> (r: Vec<String>)
    ensures
        string_texts(r@) == normalized_for_root(root_name@, string_texts(path@)),
{
    if path.len() > 0 && str_eq(path[0].as_str(), root_name) {
        strings_from(path, 1)
    } else {
        let r = strings_from(path, 0);
        proof {
            assert(string_texts(path@).skip(0) =~= string_texts(path@));
        }
        r
    }
}

/// Reusable definition lookup over resolved semantic tables.
pub struct SemanticDefinitionLookup<'a> {
    pub semantic: &'a SemanticAnalysis,
    pub imports: &'a SortedMap<FileId, ResolvedImports>,
    pub external_lookup: &'a ExternalSemanticLookup,
    pub item_definitions: &'a SortedMap<ItemId, DefinitionLocation>,
}

impl<'a> SemanticDefinitionLookup<'a> {
    /// A lookup over the given tables.
    pub fn new(
        semantic: &'a SemanticAnalysis,
        imports: &'a SortedMap<FileId, ResolvedImports>,
        external_lookup: &'a ExternalSemanticLookup,
        item_definitions: &'a SortedMap<ItemId, DefinitionLocation>,
    ) -> (r: Self)
        ensures
            r.semantic == semantic,
            r.imports == imports,
            r.external_lookup == external_lookup,
            r.item_definitions == item_definitions,
    {
        SemanticDefinitionLookup { semantic, imports, external_lookup, item_definitions }
    }

    /// What the name at `offset` in file `file_id` refers to (see [`definition_target`]).
    pub fn lookup_definition_target(&self, file_id: FileId, offset: usize, fallback_word: Option<&str>) -> (r: Option<DefinitionTarget>)
        ensures
            opt_target(r) == definition_target(
                *self.semantic,
                *self.imports,
                *self.external_lookup,
                *self.item_definitions,
                file_id,
                offset,
                opt_word(fallback_word),
            ),
    {
        if let Some(target) = self.definition_from_body_reference(file_id, offset) {
            return Some(target);
        }
        if let Some(target) = self.definition_from_unresolved_reference(file_id, offset) {
            return Some(target);
        }
        if let Some(word) = fallback_word {
            if let Some(target) = self.definition_from_import_word(file_id, word) {
                return Some(target);
            }
            if let Some(target) = self.definition_from_scope_word(file_id, word) {
                return Some(target);
            }
        }
        None
    }

    /// The target of a resolved reference of `body`.
    fn target_of_reference(&self, body: &ResolvedBody, resolved: ResolvedBodyRef) -> (r: Option<DefinitionTarget>)
        ensures
            opt_target(r) == resolved_target(*body, resolved, *self.item_definitions),
    {
        match resolved {
            ResolvedBodyRef::Local(local_id) => {
                proof {
                    assert(body.locals@.skip(0) =~= body.locals@);
                }
                let mut i: usize = 0;
                while i < body.locals.len()
                    invariant
                        i <= body.locals@.len(),
                        resolved == ResolvedBodyRef::Local(local_id),
                        first_local(body.locals@, local_id) == first_local(body.locals@.skip(i as int), local_id),
                    decreases body.locals@.len() - i,
                {
                    proof {
                        assert(body.locals@.skip(i as int)[0] == body.locals@[i as int]);
                        assert(body.locals@.skip(i as int).drop_first() =~= body.locals@.skip(i + 1));
                    }
                    if body.locals[i].id == local_id {
                        proof {
                            assert(first_local(body.locals@.skip(i as int), local_id) == Some(body.locals@[i as int]));
                        }
                        return Some(
                            DefinitionTarget::LocalBinding {
                                local_id,
                                location: DefinitionLocation {
                                    file_id: body.containing_scope_file_id,
                                    span: body.locals[i].declared_span,
                                },
                            },
                        );
                    }
                    i = i + 1;
                }
                proof {
                    assert(body.locals@.skip(i as int).len() == 0);
                }
                None
            },
            ResolvedBodyRef::Item(item_id) => match self.item_definitions.get(&item_id) {
                Some(location) => Some(DefinitionTarget::CurrentTargetItem { item_id, location: *location }),
                None => None,
            },
            ResolvedBodyRef::Import(item_id) => match self.item_definitions.get(&item_id) {
                Some(location) => Some(DefinitionTarget::CurrentTargetItem { item_id, location: *location }),
                None => None,
            },
            ResolvedBodyRef::Unresolved => None,
        }
    }

    /// The target of the first resolved reference under `offset` in a body of file `file_id`.
    fn definition_from_body_reference(&self, file_id: FileId, offset: usize) -> (r: Option<DefinitionTarget>)
        ensures
            opt_target(r) == body_reference_target(self.semantic.resolved_bodies.bodies@, file_id, offset, *self.item_definitions),
    {
        let bodies = self.semantic.resolved_bodies.iter();
        let ghost all = bodies@;
        let ghost defs = *self.item_definitions;
        proof {
            assert(all.skip(0) =~= all);
        }
        let mut bi: usize = 0;
        while bi < bodies.len()
            invariant
                bi <= all.len(),
                all == bodies@,
                all == self.semantic.resolved_bodies.bodies@,
                defs == *self.item_definitions,
                body_reference_decision(all, file_id, offset, defs) == body_reference_decision(all.skip(bi as int), file_id, offset, defs),
            decreases all.len() - bi,
        {
            let body = &bodies[bi];
            let ghost rest = all.skip(bi as int);
            proof {
                assert(rest[0] == *body);
                assert(rest.drop_first() =~= all.skip(bi + 1));
            }
            if body.containing_scope_file_id == file_id {
                let refs = &body.references;
                proof {
                    assert(refs@.skip(0) =~= refs@);
                }
                let mut ri: usize = 0;
                while ri < refs.len()
                    invariant
                        ri <= refs@.len(),
                        refs@ == body.references@,
                        defs == *self.item_definitions,
                        bi < all.len(),
                        all.skip(bi as int)[0] == *body,
                        body.containing_scope_file_id == file_id,
                        all == self.semantic.resolved_bodies.bodies@,
                        body_reference_decision(all, file_id, offset, defs) == body_reference_decision(all.skip(bi as int), file_id, offset, defs),
                        reference_decision(*body, refs@, offset, defs) == reference_decision(*body, refs@.skip(ri as int), offset, defs),
                    decreases refs@.len() - ri,
                {
                    let reference = refs[ri];
                    proof {
                        assert(refs@.skip(ri as int)[0] == reference);
                        assert(refs@.skip(ri as int).drop_first() =~= refs@.skip(ri + 1));
                    }
                    if span_contains(reference.span, offset) {
                        match reference.resolved {
                            ResolvedBodyRef::Unresolved => {},
                            _ => {
                                proof {
                                    assert(reference_decision(*body, refs@.skip(ri as int), offset, defs) == Some(
                                        resolved_target(*body, reference.resolved, defs),
                                    ));
                                    assert(body_reference_decision(all.skip(bi as int), file_id, offset, defs) == Some(
                                        resolved_target(*body, reference.resolved, defs),
                                    ));
                                }
                                return self.target_of_reference(body, reference.resolved);
                            },
                        }
                    }
                    ri = ri + 1;
                }
                proof {
                    assert(refs@.skip(ri as int).len() == 0);
                }
            }
            bi = bi + 1;
        }
        proof {
            assert(all.skip(bi as int).len() == 0);
        }
        None
    }

    /// The external target an unresolved path names (see [`segments_target`]).
    fn external_definition_from_segments(&self, segments: &[String]) -> (r: Option<DefinitionTarget>)
        ensures
            opt_target(r) == segments_target(*self.external_lookup, string_texts(segments@)),
    {
        if segments.len() < 2 {
            return None;
        }
        let root_name = segments[0].clone();
        let remainder = strings_from(segments, 1);
        self.external_target_for(root_name, remainder, true)
    }

    /// The external target of item `path` of root `root_name` (see [`external_target`]).
    fn external_target_for(&self, root_name: String, path: Vec<String>, single: bool) -> (r: Option<DefinitionTarget>)
        ensures
            opt_target(r) == external_target(*self.external_lookup, root_name@, string_texts(path@), single),
    {
        if let Some(location) = self.external_lookup.definition_for_named_root_path(root_name.as_str(), path.as_slice()) {
            let location = location.clone();
            return Some(DefinitionTarget::ExternalItem { root_name, path, location });
        }
        if single && path.len() == 1 {
            if let Some(location) = self.external_lookup.extern_function_definition(root_name.as_str(), path[0].as_str()) {
                let location = location.clone();
                return Some(DefinitionTarget::ExternalItem { root_name, path, location });
            }
        }
        None
    }

    /// The external target of the first unresolved path under `offset` in a
    /// body of file `file_id` that names one.
    fn definition_from_unresolved_reference(&self, file_id: FileId, offset: usize) -> (r: Option<DefinitionTarget>)
        ensures
            opt_target(r) == unresolved_target(self.semantic.resolved_bodies.bodies@, file_id, offset, *self.external_lookup),
    {
        let bodies = self.semantic.resolved_bodies.iter();
        let ghost all = bodies@;
        let ghost ext = *self.external_lookup;
        proof {
            assert(all.skip(0) =~= all);
        }
        let mut bi: usize = 0;
        while bi < bodies.len()
            invariant
                bi <= all.len(),
                all == bodies@,
                all == self.semantic.resolved_bodies.bodies@,
                ext == *self.external_lookup,
                unresolved_target(all, file_id, offset, ext) == unresolved_target(all.skip(bi as int), file_id, offset, ext),
            decreases all.len() - bi,
        {
            let body = &bodies[bi];
            proof {
                assert(all.skip(bi as int)[0] == *body);
                assert(all.skip(bi as int).drop_first() =~= all.skip(bi + 1));
            }
            if body.containing_scope_file_id == file_id {
                let refs = &body.unresolved_references;
                proof {
                    assert(refs@.skip(0) =~= refs@);
                }
                let mut ri: usize = 0;
                while ri < refs.len()
                    invariant
                        ri <= refs@.len(),
                        refs@ == body.unresolved_references@,
                        ext == *self.external_lookup,
                        bi < all.len(),
                        all.skip(bi as int)[0] == *body,
                        body.containing_scope_file_id == file_id,
                        all == self.semantic.resolved_bodies.bodies@,
                        unresolved_target(all, file_id, offset, ext) == unresolved_target(all.skip(bi as int), file_id, offset, ext),
                        unresolved_target_in(ext, refs@, offset) == unresolved_target_in(ext, refs@.skip(ri as int), offset),
                    decreases refs@.len() - ri,
                {
                    proof {
                        assert(refs@.skip(ri as int)[0] == refs@[ri as int]);
                        assert(refs@.skip(ri as int).drop_first() =~= refs@.skip(ri + 1));
                    }
                    if span_contains(refs[ri].span, offset) {
                        if let Some(target) = self.external_definition_from_segments(refs[ri].segments.as_slice()) {
                            proof {
                                assert(unresolved_target_in(ext, refs@.skip(ri as int), offset) == Some(target@));
                                assert(unresolved_target(all.skip(bi as int), file_id, offset, ext) == Some(target@));
                            }
                            return Some(target);
                        }
                    }
                    ri = ri + 1;
                }
                proof {
                    assert(refs@.skip(ri as int).len() == 0);
                }
            }
            bi = bi + 1;
        }
        proof {
            assert(all.skip(bi as int).len() == 0);
        }
        None
    }

    /// The external target of an import binding (see [`binding_external_target`]).
    fn external_definition_from_binding(&self, binding: &ResolvedImportBinding) -> (r: Option<DefinitionTarget>)
        ensures
            opt_target(r) == binding_external_target(*self.external_lookup, *binding),
    {
        let root_name = match &binding.source_root {
            Some(root) => root,
            None => return None,
        };
        let normalized = normalized_path_for_root(root_name.as_str(), binding.target_path.as_slice());
        let single = match binding.kind {
            ImportBindingKind::Symbol(_) => true,
            ImportBindingKind::Scope => false,
        };
        self.external_target_for(root_name.clone(), normalized, single)
    }

    /// The target of the import of `word` into file `file_id` (see [`import_word_target`]).
    fn definition_from_import_word(&self, file_id: FileId, word: &str) -> (r: Option<DefinitionTarget>)
        ensures
            opt_target(r) == import_word_target(
                self.semantic.global_items@,
                *self.imports,
                *self.item_definitions,
                *self.external_lookup,
                file_id,
                word@,
            ),
    {
        let file_imports = match self.imports.get(&file_id) {
            Some(f) => f,
            None => return None,
        };
        let key = word.to_owned();
        let binding = match file_imports.get(&key) {
            Some(b) => b,
            None => return None,
        };
        if let Some(item_id) = self.semantic.global_items.item_id_by_full_path(&binding.target_path) {
            if let Some(location) = self.item_definitions.get(&item_id) {
                return Some(DefinitionTarget::CurrentTargetItem { item_id, location: *location });
            }
        }
        self.external_definition_from_binding(binding)
    }

    /// The first item of the scope of `file_id` named `word` with a recorded
    /// definition (see [`scope_word_target`]).
    fn definition_from_scope_word(&self, file_id: FileId, word: &str) -> (r: Option<DefinitionTarget>)
        ensures
            opt_target(r) == scope_word_target(self.semantic.global_items@, *self.item_definitions, file_id, word@),
    {
        let items = self.semantic.global_items.items();
        let ghost all = items@;
        let ghost defs = *self.item_definitions;
        proof {
            assert(all.skip(0) =~= all);
        }
        let mut i: usize = 0;
        while i < items.len()
            invariant
                i <= all.len(),
                all == items@,
                all == self.semantic.global_items@,
                defs == *self.item_definitions,
                scope_word_target(all, defs, file_id, word@) == scope_word_target(all.skip(i as int), defs, file_id, word@),
            decreases all.len() - i,
        {
            proof {
                assert(all.skip(i as int)[0] == all[i as int]);
                assert(all.skip(i as int).drop_first() =~= all.skip(i + 1));
            }
            let item = &items[i];
            if item.containing_scope_file_id == file_id && str_eq(item.name.as_str(), word) {
                if let Some(location) = self.item_definitions.get(&item.id) {
                    proof {
                        assert(scope_word_target(all.skip(i as int), defs, file_id, word@) == Some(
                            TargetView::Item { item_id: item.id, location: *location },
                        ));
                    }
                    return Some(DefinitionTarget::CurrentTargetItem { item_id: item.id, location: *location });
                }
            }
            i = i + 1;
        }
        proof {
            assert(all.skip(i as int).len() == 0);
        }
        None
    }
}

/// What the name at `offset` in file `file_id` refers to (see [`definition_target`]).
pub fn lookup_definition_target(
    semantic: &SemanticAnalysis,
    imports: &SortedMap<FileId, ResolvedImports>,
    external_lookup: &ExternalSemanticLookup,
    item_definitions: &SortedMap<ItemId, DefinitionLocation>,
    file_id: FileId,
    offset: usize,
    fallback_word: Option<&str>,
) -> (r: Option<DefinitionTarget>)
    ensures
        opt_target(r) == definition_target(
            *semantic,
            *imports,
            *external_lookup,
            *item_definitions,
            file_id,
            offset,
            opt_word(fallback_word),
        ),
{
    SemanticDefinitionLookup::new(semantic, imports, external_lookup, item_definitions).lookup_definition_target(
        file_id,
        offset,
        fallback_word,
    )
}

/* Completion */

/// The kind of a file-level completion entry.
#[derive(Debug, Clone, Copy, PartialEq, Eq, Structural)]
pub enum SemanticCompletionKind {
    Local,
    ImportScope,
    ImportFunction,
    ImportStruct,
    ImportEnum,
    ImportProtocol,
    Scope,
    Function,
    Struct,
    Enum,
    Protocol,
}

/// A file-level completion entry.
#[derive(Debug)]
pub struct SemanticCompletionCandidate {
    pub label: String,
    pub kind: SemanticCompletionKind,
    pub detail: String,
}

/// A completion entry as plain values.
pub struct SemanticCandidateView {
    pub label: Seq<char>,
    pub kind: SemanticCompletionKind,
    pub detail: Seq<char>,
}

impl View for SemanticCompletionCandidate {
    type V = SemanticCandidateView;

    open spec fn view(&self) -> SemanticCandidateView {
        SemanticCandidateView { label: self.label@, kind: self.kind, detail: self.detail@ }
    }
}

/// The view of an optional entry.
pub open spec fn opt_candidate(o: Option<SemanticCompletionCandidate>) -> Option<SemanticCandidateView> {
    match o {
        Some(c) => Some(c@),
        None => None,
    }
}

/// The first item of `items` with id `id`.
pub open spec fn item_with_id(items: Seq<GlobalItem>, id: ItemId) -> Option<GlobalItem>
    decreases items.len(),
{
    if items.len() == 0 {
        None
    } else if items[0].id == id {
        Some(items[0])
    } else {
        item_with_id(items.drop_first(), id)
    }
}

/// How completion details show a type: a builtin's name; a named item by
/// its path joined with `::`, or `item#` and its id when the table lacks
/// it; `*` or `*mut ` before a pointee; `<error>`.
pub open spec fn item_type_text(t: Type, items: Seq<GlobalItem>) -> Seq<char>
    decreases t,
{
    match t {
        Type::Builtin(b) => builtin_text(b),
        Type::Named { item_id, .. } => match item_with_id(items, item_id) {
            Some(g) => joined_with(string_texts(g.full_path@), "::"@),
            None => "item#"@ + decimal(item_id.0 as nat),
        },
        Type::Pointer { pointee, mutability } => (match mutability {
            Mutability::Const => "*"@,
            Mutability::Mut => "*mut "@,
        }) + item_type_text(*pointee, items),
        Type::Error => "<error>"@,
    }
}

/// The first item of `items` with id `id` (see [`item_with_id`]).
pub(crate) fn find_item(items: &Vec<GlobalItem>, id: ItemId) -> (r: Option<&GlobalItem>)
    ensures
        match r {
            Some(g) => item_with_id(items@, id) == Some(*g),
            None => item_with_id(items@, id) is None,
        },
{
    proof {
        assert(items@.skip(0) =~= items@);
    }
    let mut i: usize = 0;
    while i < items.len()
        invariant
            i <= items@.len(),
            item_with_id(items@, id) == item_with_id(items@.skip(i as int), id),
        decreases items@.len() - i,
    {
        proof {
            assert(items@.skip(i as int)[0] == items@[i as int]);
            assert(items@.skip(i as int).drop_first() =~= items@.skip(i + 1));
        }
        if items[i].id == id {
            return Some(&items[i]);
        }
        i = i + 1;
    }
    proof {
        assert(items@.skip(i as int).len() == 0);
    }
    None
}

pub(crate) fn push_item_type_text(out: &mut String, ty: &Type, items: &Vec<GlobalItem>)
    ensures
        final(out)@ == old(out)@ + item_type_text(*ty, items@),
    decreases ty,
{
    match ty {
        Type::Builtin(b) => out.append(b.name()),
        Type::Named { item_id, .. } => match find_item(items, *item_id) {
            Some(g) => push_joined(out, g.full_path.as_slice(), "::"),
            None => {
                out.append("item#");
                push_decimal(out, item_id.0);
            },
        },
        Type::Pointer { pointee, mutability } => {
            match mutability {
                Mutability::Const => out.append("*"),
                Mutability::Mut => out.append("*mut "),
            }
            push_item_type_text(out, &**pointee, items);
        },
        Type::Error => out.append("<error>"),
    }
    proof {
        assert(out@ =~= old(out)@ + item_type_text(*ty, items@));
    }
}

/// How completion details show a type (see [`item_type_text`]).
pub fn format_type_for_completion(ty: &Type, item_table: &GlobalItemTable) -> (r: String)
    ensures
        r@ == item_type_text(*ty, item_table@),
{
    let mut out = String::new();
    push_item_type_text(&mut out, ty, item_table.items());
    proof {
        assert(out@ =~= item_type_text(*ty, item_table@));
    }
    out
}

/// The type the typed body of `body` records for local `id`.
pub open spec fn typed_local_type(typed: TypedBodyTable, body: ResolvedBody, id: LocalId) -> Option<Type> {
    match first_body_with_index(typed.spec_owner_bodies(body.owner), body.body_index) {
        Some(tb) => tb.local_types.spec_get(id),
        None => None,
    }
}

/// The type of local `id` in the first of `bodies` whose typed body records one.
pub open spec fn first_local_type(typed: TypedBodyTable, bodies: Seq<ResolvedBody>, id: LocalId) -> Option<Type>
    decreases bodies.len(),
{
    if bodies.len() == 0 {
        None
    } else {
        match typed_local_type(typed, bodies[0], id) {
            Some(t) => Some(t),
            None => first_local_type(typed, bodies.drop_first(), id),
        }
    }
}

/// The type of local `local_id` in the first resolved body (in table order)
/// whose typed body records one.
pub fn local_binding_type(semantic: &SemanticAnalysis, local_id: LocalId) -> (r: Option<&Type>)
    ensures
        match r {
            Some(t) => first_local_type(semantic.typed_bodies, semantic.resolved_bodies.bodies@, local_id) == Some(*t),
            None => first_local_type(semantic.typed_bodies, semantic.resolved_bodies.bodies@, local_id) is None,
        },
{
    let bodies = semantic.resolved_bodies.iter();
    let ghost all = bodies@;
    proof {
        assert(all.skip(0) =~= all);
    }
    let mut i: usize = 0;
    while i < bodies.len()
        invariant
            i <= all.len(),
            all == bodies@,
            all == semantic.resolved_bodies.bodies@,
            first_local_type(semantic.typed_bodies, all, local_id) == first_local_type(semantic.typed_bodies, all.skip(i as int), local_id),
        decreases all.len() - i,
    {
        proof {
            assert(all.skip(i as int)[0] == all[i as int]);
            assert(all.skip(i as int).drop_first() =~= all.skip(i + 1));
        }
        let body = &bodies[i];
        if let Some(typed) = semantic.typed_bodies.body(&body.owner, body.body_index) {
            if let Some(t) = typed.local_types.get(&local_id) {
                return Some(t);
            }
        }
        i = i + 1;
    }
    proof {
        assert(all.skip(i as int).len() == 0);
    }
    None
}

/// The entry of a local of `body`: its name, with its recorded type when there is one.
pub open spec fn local_candidate(semantic: SemanticAnalysis, body: ResolvedBody, l: ResolvedLocal) -> SemanticCandidateView {
    SemanticCandidateView {
        label: l.name@,
        kind: SemanticCompletionKind::Local,
        detail: match typed_local_type(semantic.typed_bodies, body, l.id) {
            Some(t) => "local: "@ + item_type_text(t, semantic.global_items@),
            None => "local"@,
        },
    }
}

/// The entries of the locals of `body`, in order.
pub open spec fn body_local_offers(semantic: SemanticAnalysis, body: ResolvedBody) -> Seq<SemanticCandidateView> {
    body.locals@.map_values(|l: ResolvedLocal| local_candidate(semantic, body, l))
}

/// The entries of the locals of the bodies of file `file_id`, in order.
pub open spec fn local_offers(semantic: SemanticAnalysis, bodies: Seq<ResolvedBody>, file_id: FileId) -> Seq<SemanticCandidateView>
    decreases bodies.len(),
{
    if bodies.len() == 0 {
        seq![]
    } else {
        local_offers(semantic, bodies.drop_last(), file_id) + if bodies.last().containing_scope_file_id == file_id {
            body_local_offers(semantic, bodies.last())
        } else {
            seq![]
        }
    }
}

/// The entry kind of an import binding.
pub open spec fn import_kind(k: ImportBindingKind) -> SemanticCompletionKind {
    match k {
        ImportBindingKind::Scope => SemanticCompletionKind::ImportScope,
        ImportBindingKind::Symbol(ItemKind::Function) => SemanticCompletionKind::ImportFunction,
        ImportBindingKind::Symbol(ItemKind::Struct) => SemanticCompletionKind::ImportStruct,
        ImportBindingKind::Symbol(ItemKind::Enum) => SemanticCompletionKind::ImportEnum,
        ImportBindingKind::Symbol(ItemKind::Protocol) => SemanticCompletionKind::ImportProtocol,
        ImportBindingKind::Symbol(ItemKind::Scope) => SemanticCompletionKind::ImportScope,
    }
}

/// The entry of an import binding: its local name, `import` and its target path.
pub open spec fn import_candidate(b: ResolvedImportBinding) -> SemanticCandidateView {
    SemanticCandidateView {
        label: b.local_name@,
        kind: import_kind(b.kind),
        detail: "import "@ + joined_with(string_texts(b.target_path@), "::"@),
    }
}

/// The entries of the imports of file `file_id`, in name order.
pub open spec fn import_offers(imports: SortedMap<FileId, ResolvedImports>, file_id: FileId) -> Seq<SemanticCandidateView> {
    match imports.spec_get(file_id) {
        Some(f) => f.bindings.spec_entries().map_values(|e: (String, ResolvedImportBinding)| import_candidate(e.1)),
        None => seq![],
    }
}

/// The entry kind of an item.
pub open spec fn item_kind_entry(k: ItemKind) -> SemanticCompletionKind {
    match k {
        ItemKind::Scope => SemanticCompletionKind::Scope,
        ItemKind::Function => SemanticCompletionKind::Function,
        ItemKind::Struct => SemanticCompletionKind::Struct,
        ItemKind::Enum => SemanticCompletionKind::Enum,
        ItemKind::Protocol => SemanticCompletionKind::Protocol,
    }
}

/// The entry of an item: its name, with its full path.
pub open spec fn item_candidate_of(g: GlobalItem) -> SemanticCandidateView {
    SemanticCandidateView {
        label: g.name@,
        kind: item_kind_entry(g.kind),
        detail: joined_with(string_texts(g.full_path@), "::"@),
    }
}

/// The entries of the items of the scope of `file_id`, in id order.
pub open spec fn scope_item_offers(items: Seq<GlobalItem>, file_id: FileId) -> Seq<SemanticCandidateView>
    decreases items.len(),
{
    if items.len() == 0 {
        seq![]
    } else {
        scope_item_offers(items.drop_last(), file_id) + if items.last().containing_scope_file_id == file_id {
            seq![item_candidate_of(items.last())]
        } else {
            seq![]
        }
    }
}

/// Every entry offered for file `file_id`: locals, then imports, then scope items.
pub open spec fn file_offers(semantic: SemanticAnalysis, imports: SortedMap<FileId, ResolvedImports>, file_id: FileId) -> Seq<SemanticCandidateView> {
    local_offers(semantic, semantic.resolved_bodies.bodies@, file_id) + import_offers(imports, file_id) + scope_item_offers(
        semantic.global_items@,
        file_id,
    )
}

/// The first offer with label `label`.
pub open spec fn first_offer(offers: Seq<SemanticCandidateView>, label: Seq<char>) -> Option<SemanticCandidateView>
    decreases offers.len(),
{
    if offers.len() == 0 {
        None
    } else if offers[0].label == label {
        Some(offers[0])
    } else {
        first_offer(offers.drop_first(), label)
    }
}

proof fn lemma_first_offer_push(s: Seq<SemanticCandidateView>, c: SemanticCandidateView, l: Seq<char>)
    ensures
        first_offer(s.push(c), l) == (match first_offer(s, l) {
            Some(x) => Some(x),
            None => if c.label == l { Some(c) } else { None },
        }),
    decreases s.len(),
{
    if s.len() > 0 {
        assert(s.push(c)[0] == s[0]);
        assert(s.push(c).drop_first() =~= s.drop_first().push(c));
        lemma_first_offer_push(s.drop_first(), c, l);
    } else {
        assert(s.push(c)[0] == c);
        assert(s.push(c).drop_first() =~= Seq::<SemanticCandidateView>::empty());
        assert(first_offer(s.push(c).drop_first(), l) is None);
    }
}

proof fn lemma_first_offer_found(s: Seq<SemanticCandidateView>, k: int)
    requires
        0 <= k < s.len(),
    ensures
        first_offer(s, s[k].label) is Some,
    decreases s.len(),
{
    if k > 0 && s[0].label != s[k].label {
        assert(s.drop_first()[k - 1] == s[k]);
        lemma_first_offer_found(s.drop_first(), k - 1);
    }
}

proof fn lemma_first_offer_label(s: Seq<SemanticCandidateView>, l: Seq<char>)
    ensures
        first_offer(s, l) matches Some(v) ==> v.label == l,
    decreases s.len(),
{
    if s.len() > 0 {
        lemma_first_offer_label(s.drop_first(), l);
    }
}

/// The dedup table holds, for each label, the first offer of it.
pub open spec fn holds_first_offers(dedup: TextMap<String, SemanticCompletionCandidate>, seen: Seq<SemanticCandidateView>) -> bool {
    forall|l: Seq<char>| #[trigger] opt_candidate(dedup.spec_get(seq![l])) == first_offer(seen, l)
}

/// Keeps `cand` unless its label was offered before.
fn offer(dedup: &mut TextMap<String, SemanticCompletionCandidate>, cand: SemanticCompletionCandidate, Ghost(seen): Ghost<Seq<SemanticCandidateView>>)
    requires
        holds_first_offers(*old(dedup), seen),
    ensures
        holds_first_offers(*final(dedup), seen.push(cand@)),
{
    let ghost c = cand@;
    let key = cand.label.clone();
    proof {
        assert(key.text() == seq![c.label]);
    }
    if dedup.contains_key(&key) {
        proof {
            assert forall|l: Seq<char>| #[trigger] opt_candidate(dedup.spec_get(seq![l])) == first_offer(seen.push(c), l) by {
                lemma_first_offer_push(seen, c, l);
                assert(opt_candidate(dedup.spec_get(seq![c.label])) == first_offer(seen, c.label));
            }
        }
    } else {
        dedup.insert(key, cand);
        proof {
            assert forall|l: Seq<char>| #[trigger] opt_candidate(dedup.spec_get(seq![l])) == first_offer(seen.push(c), l) by {
                lemma_first_offer_push(seen, c, l);
                assert(opt_candidate(old(dedup).spec_get(seq![l])) == first_offer(seen, l));
                if l != c.label {
                    assert(seq![l] != seq![c.label]) by {
                        assert(seq![l][0] == l);
                    }
                }
            }
        }
    }
}

/// The entry of a local of a body (see [`local_candidate`]).
fn local_entry(semantic: &SemanticAnalysis, body: &ResolvedBody, local: &ResolvedLocal) -> (r: SemanticCompletionCandidate)
    ensures
        r@ == local_candidate(*semantic, *body, *local),
{
    let detail = match semantic.typed_bodies.body(&body.owner, body.body_index) {
        Some(typed) => match typed.local_types.get(&local.id) {
            Some(t) => {
                let mut d = String::new();
                d.append("local: ");
                push_item_type_text(&mut d, t, semantic.global_items.items());
                d
            },
            None => "local".to_owned(),
        },
        None => "local".to_owned(),
    };
    proof {
        reveal_strlit("local");
        reveal_strlit("local: ");
    }
    let r = SemanticCompletionCandidate { label: local.name.clone(), kind: SemanticCompletionKind::Local, detail };
    proof {
        assert(r@.detail =~= local_candidate(*semantic, *body, *local).detail);
    }
    r
}

/// The entry of an import binding (see [`import_candidate`]).
fn import_entry(binding: &ResolvedImportBinding) -> (r: SemanticCompletionCandidate)
    ensures
        r@ == import_candidate(*binding),
{
    let kind = match binding.kind {
        ImportBindingKind::Scope => SemanticCompletionKind::ImportScope,
        ImportBindingKind::Symbol(ItemKind::Function) => SemanticCompletionKind::ImportFunction,
        ImportBindingKind::Symbol(ItemKind::Struct) => SemanticCompletionKind::ImportStruct,
        ImportBindingKind::Symbol(ItemKind::Enum) => SemanticCompletionKind::ImportEnum,
        ImportBindingKind::Symbol(ItemKind::Protocol) => SemanticCompletionKind::ImportProtocol,
        ImportBindingKind::Symbol(ItemKind::Scope) => SemanticCompletionKind::ImportScope,
    };
    let mut detail = String::new();
    detail.append("import ");
    push_joined(&mut detail, binding.target_path.as_slice(), "::");
    let r = SemanticCompletionCandidate { label: binding.local_name.clone(), kind, detail };
    proof {
        assert(r@.detail =~= import_candidate(*binding).detail);
    }
    r
}

/// The entry of an item (see [`item_candidate_of`]).
fn item_entry(item: &GlobalItem) -> (r: SemanticCompletionCandidate)
    ensures
        r@ == item_candidate_of(*item),
{
    let kind = match item.kind {
        ItemKind::Scope => SemanticCompletionKind::Scope,
        ItemKind::Function => SemanticCompletionKind::Function,
        ItemKind::Struct => SemanticCompletionKind::Struct,
        ItemKind::Enum => SemanticCompletionKind::Enum,
        ItemKind::Protocol => SemanticCompletionKind::Protocol,
    };
    let mut detail = String::new();
    push_joined(&mut detail, item.full_path.as_slice(), "::");
    let r = SemanticCompletionCandidate { label: item.name.clone(), kind, detail };
    proof {
        assert(r@.detail =~= item_candidate_of(*item).detail);
    }
    r
}

/// The names visible in file `file_id` for completion: the locals of its
/// bodies, its imports and the items of its scope, each label once (its
/// first offer in that order wins), sorted by label.
pub fn completion_candidates_for_file(
    semantic: &SemanticAnalysis,
    imports: &SortedMap<FileId, ResolvedImports>,
    file_id: FileId,
) -> (r: Vec<SemanticCompletionCandidate>)
    ensures
        forall|i: int, j: int| 0 <= i < j < r@.len() ==> chars_lt(#[trigger] r@[i].label@, #[trigger] r@[j].label@),
        forall|i: int| 0 <= i < r@.len() ==> first_offer(file_offers(*semantic, *imports, file_id), #[trigger] r@[i].label@) == Some(r@[i]@),
        forall|k: int| 0 <= k < file_offers(*semantic, *imports, file_id).len() ==> exists|i: int|
            0 <= i < r@.len() && #[trigger] r@[i].label@ == #[trigger] file_offers(*semantic, *imports, file_id)[k].label,
{
    let mut dedup: TextMap<String, SemanticCompletionCandidate> = TextMap::new();
    let ghost mut seen: Seq<SemanticCandidateView> = seq![];
    let bodies = semantic.resolved_bodies.iter();
    let ghost all = bodies@;
    let mut bi: usize = 0;
    while bi < bodies.len()
        invariant
            bi <= all.len(),
            all == bodies@,
            all == semantic.resolved_bodies.bodies@,
            seen == local_offers(*semantic, all.take(bi as int), file_id),
            holds_first_offers(dedup, seen),
        decreases all.len() - bi,
    {
        let body = &bodies[bi];
        proof {
            let t = all.take(bi + 1);
            assert(t.drop_last() =~= all.take(bi as int));
            assert(t.last() == *body);
        }
        if body.containing_scope_file_id == file_id {
            let ghost start = seen;
            let mut li: usize = 0;
            while li < body.locals.len()
                invariant
                    li <= body.locals@.len(),
                    bi < all.len(),
                    all[bi as int] == *body,
                    all == semantic.resolved_bodies.bodies@,
                    body.containing_scope_file_id == file_id,
                    start == local_offers(*semantic, all.take(bi as int), file_id),
                    seen == start + body_local_offers(*semantic, *body).take(li as int),
                    holds_first_offers(dedup, seen),
                decreases body.locals@.len() - li,
            {
                let cand = local_entry(semantic, body, &body.locals[li]);
                proof {
                    assert(body_local_offers(*semantic, *body).take(li + 1) =~= body_local_offers(*semantic, *body).take(
                        li as int,
                    ).push(cand@));
                }
                offer(&mut dedup, cand, Ghost(seen));
                proof {
                    seen = seen.push(cand@);
                }
                li = li + 1;
            }
            proof {
                assert(body_local_offers(*semantic, *body).take(body.locals@.len() as int) =~= body_local_offers(*semantic, *body));
                assert(seen =~= local_offers(*semantic, all.take(bi + 1), file_id));
            }
        } else {
            proof {
                assert(seen =~= local_offers(*semantic, all.take(bi + 1), file_id));
            }
        }
        bi = bi + 1;
    }
    proof {
        assert(all.take(all.len() as int) =~= all);
    }
    let ghost after_locals = seen;
    match imports.get(&file_id) {
        Some(file_imports) => {
            let entries = file_imports.bindings.entries();
            let mut ii: usize = 0;
            while ii < entries.len()
                invariant
                    ii <= entries@.len(),
                    imports.spec_get(file_id) == Some(*file_imports),
                    entries@ == file_imports.bindings.spec_entries(),
                    seen == after_locals + import_offers(*imports, file_id).take(ii as int),
                    holds_first_offers(dedup, seen),
                decreases entries@.len() - ii,
            {
                let cand = import_entry(&entries[ii].1);
                proof {
                    assert(import_offers(*imports, file_id).take(ii + 1) =~= import_offers(*imports, file_id).take(ii as int).push(
                        cand@,
                    ));
                }
                offer(&mut dedup, cand, Ghost(seen));
                proof {
                    seen = seen.push(cand@);
                }
                ii = ii + 1;
            }
            proof {
                assert(import_offers(*imports, file_id).take(entries@.len() as int) =~= import_offers(*imports, file_id));
            }
        },
        None => {
            proof {
                assert(seen =~= after_locals + import_offers(*imports, file_id));
            }
        },
    }
    let ghost after_imports = seen;
    let items = semantic.global_items.items();
    let mut gi: usize = 0;
    while gi < items.len()
        invariant
            gi <= items@.len(),
            items@ == semantic.global_items@,
            seen == after_imports + scope_item_offers(items@.take(gi as int), file_id),
            holds_first_offers(dedup, seen),
        decreases items@.len() - gi,
    {
        proof {
            let t = items@.take(gi + 1);
            assert(t.drop_last() =~= items@.take(gi as int));
            assert(t.last() == items@[gi as int]);
        }
        if items[gi].containing_scope_file_id == file_id {
            let cand = item_entry(&items[gi]);
            offer(&mut dedup, cand, Ghost(seen));
            proof {
                seen = seen.push(cand@);
                assert(seen =~= after_imports + scope_item_offers(items@.take(gi + 1), file_id));
            }
        } else {
            proof {
                assert(seen =~= after_imports + scope_item_offers(items@.take(gi + 1), file_id));
            }
        }
        gi = gi + 1;
    }
    proof {
        assert(items@.take(items@.len() as int) =~= items@);
        assert(seen =~= file_offers(*semantic, *imports, file_id));
    }
    let entries = dedup.entries();
    let mut out: Vec<SemanticCompletionCandidate> = Vec::new();
    let mut ei: usize = 0;
    while ei < entries.len()
        invariant
            ei <= entries@.len(),
            entries@ == dedup.spec_entries(),
            crate::collections::text_map::text_entries_sorted(entries@),
            out@.len() == ei,
            forall|k: int| 0 <= k < ei ==> #[trigger] out@[k]@ == entries@[k].1@,
        decreases entries@.len() - ei,
    {
        let v = &entries[ei].1;
        out.push(SemanticCompletionCandidate { label: v.label.clone(), kind: v.kind, detail: v.detail.clone() });
        ei = ei + 1;
    }
    proof {
        let es = entries@;
        assert forall|i: int| 0 <= i < out@.len() implies out@[i].label@ == es[i].0@ && first_offer(seen, #[trigger] out@[i].label@) == Some(
            out@[i]@,
        ) by {
            lemma_text_lookup_at(es, i);
            assert(es[i].0.text() == seq![es[i].0@]);
            assert(dedup.spec_get(seq![es[i].0@]) == Some(es[i].1));
            assert(opt_candidate(dedup.spec_get(seq![es[i].0@])) == first_offer(seen, es[i].0@));
            assert(first_offer(seen, es[i].0@) == Some(es[i].1@));
            lemma_first_offer_label(seen, es[i].0@);
            assert(es[i].1@.label == es[i].0@);
            assert(out@[i]@ == es[i].1@);
        }
        assert forall|i: int, j: int| 0 <= i < j < out@.len() implies chars_lt(#[trigger] out@[i].label@, #[trigger] out@[j].label@) by {
            assert(texts_lt(es[i].0.text(), es[j].0.text()));
            assert(es[i].0.text() == seq![es[i].0@]);
            assert(es[j].0.text() == seq![es[j].0@]);
            assert(out@[i].label@ == es[i].0@);
            assert(out@[j].label@ == es[j].0@);
            if es[i].0@ == es[j].0@ {
                assert(seq![es[i].0@] =~= seq![es[j].0@]);
                crate::collections::text_map::lemma_texts_lt_irreflexive(seq![es[i].0@]);
            } else {
                assert(seq![es[i].0@][0] != seq![es[j].0@][0]);
            }
        }
        assert forall|k: int| 0 <= k < seen.len() implies exists|i: int|
            0 <= i < out@.len() && #[trigger] out@[i].label@ == #[trigger] seen[k].label by {
            lemma_first_offer_found(seen, k);
            let l = seen[k].label;
            assert(opt_candidate(dedup.spec_get(seq![l])) == first_offer(seen, l));
            assert(text_entries_contain(es, seq![l]));
            let i = choose|i: int| 0 <= i < es.len() && #[trigger] es[i].0.text() == seq![l];
            assert(es[i].0.text() == seq![es[i].0@]);
            assert(seq![es[i].0@][0] == seq![l][0]);
            assert(out@[i].label@ == es[i].0@) by {
                lemma_text_lookup_at(es, i);
                assert(opt_candidate(dedup.spec_get(seq![es[i].0@])) == first_offer(seen, es[i].0@));
                lemma_first_offer_label(seen, es[i].0@);
            }
        }
    }
    out
}

/// A reference resolved to an imported item goes where a reference to that
/// item itself goes: to the item at its recorded definition location when one
/// is recorded, and nowhere otherwise.
pub proof fn law_import_reference_like_item(body: ResolvedBody, id: ItemId, defs: SortedMap<ItemId, DefinitionLocation>)
    ensures
        resolved_target(body, ResolvedBodyRef::Import(id), defs) == resolved_target(body, ResolvedBodyRef::Item(id), defs),
        defs.spec_get(id) matches Some(location) ==> resolved_target(body, ResolvedBodyRef::Import(id), defs)
            == Some(TargetView::Item { item_id: id, location }),
        defs.spec_get(id) is None ==> resolved_target(body, ResolvedBodyRef::Import(id), defs) is None,
{
}

} // verus!
