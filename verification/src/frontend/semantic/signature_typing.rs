//! Typing of declaration signatures: the written types of function
//! signatures, struct fields, enum payloads, protocol members and impl
//! headers become semantic types, with an issue for each type that cannot
//! be resolved or is not supported yet.

use crate::collections::sorted_map::SortedMap;
use crate::collections::text_map::{string_texts, TextKey, TextMap};
use crate::frontend::hir::{
    HirFunctionDecl, HirFunctionSignature, HirItemKind, HirModule, HirParamLabel, HirProtocolFunction, HirTypeId,
    HirTypeKind,
};
use crate::frontend::resolver::{
    DeclarationOwner, GlobalItem, GlobalItemTable, HirImportBindingKind, HirItemRef, ItemId, ItemKind,
};
use crate::frontend::semantic::body_env::{builtin_from_segments, builtin_of_path};
use crate::frontend::semantic::definition::{find_item, item_with_id};
use crate::frontend::semantic::hir_input::SemanticHirInput;
use crate::frontend::semantic::types::{Mutability, NamedTypeKind, Type};
use crate::frontend::source::FileId;
use crate::frontend::text::str_eq;
use crate::frontend::hir::{HirAssociatedType, HirEnumVariant, HirFile, HirItemId, HirParam, HirProtocolProperty, HirStructField};
use crate::midend::type_check::signatures::TypedSignatureTable;
use crate::midend::type_check::signatures::{
    SignatureTypingIssue, SignatureTypingIssueKind, TypedAssociatedTypeBounds, TypedEnumCaseSignature,
    TypedEnumSignatureData, TypedFunctionSignature, TypedNamedFunctionSignature, TypedParamLabel,
    TypedProtocolProperty, TypedProtocolSignatureData, TypedStructField, TypedStructSignatureData,
    TypedImplSignature,
};
use vstd::prelude::*;
use vstd::string::StringExecFns;

verus! {

/// Whose declaration a type is written in, the scope file that holds the
/// owner, and the file whose imports resolve the type's paths.
#[derive(Clone, Copy, PartialEq, Eq, Structural)]
pub struct SigCtx {
    pub owner: DeclarationOwner,
    pub scope: Option<FileId>,
    pub file_id: FileId,
}

/// An issue kind as plain values.
pub enum IssueKindView {
    UnresolvedPath(Seq<Seq<char>>),
    InvalidTypeItem(Seq<Seq<char>>, ItemId, ItemKind),
    MissingResolvedItem(Seq<Seq<char>>, ItemId),
    MissingGlobalItemMetadata(ItemId),
    Unsupported(Seq<char>),
}

/// An issue as plain values: owner, scope file and kind.
pub type IssueView = (DeclarationOwner, Option<FileId>, IssueKindView);

/// The view of an issue.
pub open spec fn issue_view(i: SignatureTypingIssue) -> IssueView {
    (i.owner, i.containing_scope_file_id, match i.kind {
        SignatureTypingIssueKind::UnresolvedPath { path } => IssueKindView::UnresolvedPath(string_texts(path@)),
        SignatureTypingIssueKind::InvalidTypeItem { path, item_id, item_kind } => IssueKindView::InvalidTypeItem(
            string_texts(path@),
            item_id,
            item_kind,
        ),
        SignatureTypingIssueKind::MissingResolvedItem { path, item_id } => IssueKindView::MissingResolvedItem(
            string_texts(path@),
            item_id,
        ),
        SignatureTypingIssueKind::MissingGlobalItemMetadata { item_id } => IssueKindView::MissingGlobalItemMetadata(item_id),
        SignatureTypingIssueKind::UnsupportedTypeSurface { description } => IssueKindView::Unsupported(description@),
    })
}

/// The views of a list of issues.
pub open spec fn issues_view(s: Seq<SignatureTypingIssue>) -> Seq<IssueView> {
    s.map_values(|i: SignatureTypingIssue| issue_view(i))
}

/// An unsupported-surface issue of `ctx`.
pub open spec fn unsupported(ctx: SigCtx, text: Seq<char>) -> IssueView {
    (ctx.owner, ctx.scope, IssueKindView::Unsupported(text))
}

fn push_issue(issues: &mut Vec<SignatureTypingIssue>, ctx: SigCtx, kind: SignatureTypingIssueKind)
    ensures
        issues_view(final(issues)@) == issues_view(old(issues)@).push(
            issue_view(SignatureTypingIssue { owner: ctx.owner, containing_scope_file_id: ctx.scope, kind }),
        ),
{
    let ghost before = issues@;
    issues.push(SignatureTypingIssue { owner: ctx.owner, containing_scope_file_id: ctx.scope, kind });
    proof {
        assert(issues_view(issues@) =~= issues_view(before).push(issue_view(issues@.last())));
    }
}

fn push_unsupported(issues: &mut Vec<SignatureTypingIssue>, ctx: SigCtx, text: &str)
    ensures
        issues_view(final(issues)@) == issues_view(old(issues)@).push(unsupported(ctx, text@)),
{
    let mut d = String::new();
    d.append(text);
    push_issue(issues, ctx, SignatureTypingIssueKind::UnsupportedTypeSurface { description: d });
}

/* Resolving type paths */

/// The item an item reference declares.
pub open spec fn id_of_ref(hir: SemanticHirInput, r: HirItemRef) -> Option<ItemId> {
    hir.item_id_by_hir_item_ref.spec_get(r)
}

/// The item found under `path` in an item-path table, decided.
pub open spec fn found_in(hir: SemanticHirInput, table: Option<TextMap<Vec<String>, HirItemRef>>, path: Seq<Seq<char>>) -> Option<
    Option<ItemId>,
> {
    match table {
        Some(t) => match t.spec_get(path) {
            Some(r) => Some(id_of_ref(hir, r)),
            None => None,
        },
        None => None,
    }
}

/// What an import of the path's first segment decides: for a one-segment
/// path, an item import gives its target's item (`None` when it has no
/// target); for a longer path, a scope import looks the path up under its
/// target path in its root's table. `None` when the import decides nothing.
pub open spec fn by_import(hir: SemanticHirInput, file_id: FileId, segs: Seq<Seq<char>>) -> Option<Option<ItemId>> {
    let imports = hir.hir_imports;
    let binding = match imports.bindings_by_file.spec_get(file_id) {
        Some(t) => t.spec_get(seq![segs[0]]),
        None => None,
    };
    match binding {
        Some(b) => if segs.len() == 1 {
            if b.kind == HirImportBindingKind::Item {
                match b.target_item {
                    Some(r) => Some(id_of_ref(hir, r)),
                    None => Some(None),
                }
            } else {
                None
            }
        } else if b.kind == HirImportBindingKind::Scope {
            let table = match b.source_root {
                Some(n) => imports.root_item_paths.spec_get(seq![n@]),
                None => Some(imports.local_item_paths),
            };
            found_in(hir, table, string_texts(b.target_path@) + segs.drop_first())
        } else {
            None
        },
        None => None,
    }
}

/// The parent of a scope path (itself when empty).
pub open spec fn parent_path(p: Seq<Seq<char>>) -> Seq<Seq<char>> {
    if p.len() == 0 {
        p
    } else {
        p.drop_last()
    }
}

/// The item a written type path names in file `file_id`: by import; else
/// `root::rest` in the project; else `super::rest` from the parent of the
/// file's scope; else `name::rest` in the named root `name`; else the path
/// under the file's scope path in the project.
pub open spec fn resolve_type_path(hir: SemanticHirInput, file_id: FileId, segs: Seq<Seq<char>>) -> Option<ItemId> {
    let imports = hir.hir_imports;
    if segs.len() == 0 {
        None
    } else {
        match by_import(hir, file_id, segs) {
            Some(x) => x,
            None => {
                let rooted = if segs[0] == "root"@ && segs.len() > 1 {
                    found_in(hir, Some(imports.local_item_paths), segs.drop_first())
                } else {
                    None
                };
                match rooted {
                    Some(x) => x,
                    None => {
                        let sup = if segs[0] == "super"@ && segs.len() > 1 {
                            match imports.scope_paths.spec_get(file_id) {
                                Some(sp) => found_in(
                                    hir,
                                    Some(imports.local_item_paths),
                                    parent_path(string_texts(sp@)) + segs.drop_first(),
                                ),
                                None => None,
                            }
                        } else {
                            None
                        };
                        match sup {
                            Some(x) => x,
                            None => {
                                let named = if segs.len() > 1 {
                                    found_in(hir, imports.root_item_paths.spec_get(seq![segs[0]]), segs.drop_first())
                                } else {
                                    None
                                };
                                match named {
                                    Some(x) => x,
                                    None => match imports.scope_paths.spec_get(file_id) {
                                        Some(sp) => match found_in(
                                            hir,
                                            Some(imports.local_item_paths),
                                            string_texts(sp@) + segs,
                                        ) {
                                            Some(x) => x,
                                            None => None,
                                        },
                                        None => None,
                                    },
                                }
                            },
                        }
                    },
                }
            },
        }
    }
}

/// `base` followed by the segments of `segs` from `from` on.
fn path_with_tail(base: &Vec<String>, segs: &Vec<String>, from: usize) -> (r: Vec<String>)
    requires
        from <= segs@.len(),
    ensures
        string_texts(r@) == string_texts(base@) + string_texts(segs@).skip(from as int),
{
    let mut out = base.clone_text();
    let ghost start = out@;
    let mut i: usize = from;
    while i < segs.len()
        invariant
            from <= i <= segs@.len(),
            string_texts(start) == string_texts(base@),
            string_texts(out@) == string_texts(start) + string_texts(segs@).subrange(from as int, i as int),
        decreases segs@.len() - i,
    {
        let s = segs[i].clone();
        let ghost prev = out@;
        out.push(s);
        proof {
            assert(string_texts(out@) =~= string_texts(prev).push(segs@[i as int]@));
            assert(string_texts(segs@).subrange(from as int, i + 1) =~= string_texts(segs@).subrange(from as int, i as int).push(segs@[i as int]@));
            assert(string_texts(out@) =~= string_texts(start) + string_texts(segs@).subrange(from as int, i + 1));
        }
        i = i + 1;
    }
    proof {
        assert(string_texts(segs@).subrange(from as int, segs@.len() as int) =~= string_texts(segs@).skip(from as int));
    }
    out
}

fn item_of_ref(hir: &SemanticHirInput, r: &HirItemRef) -> (x: Option<ItemId>)
    ensures
        x == id_of_ref(*hir, *r),
{
    match hir.item_id_by_hir_item_ref.get(r) {
        Some(id) => Some(*id),
        None => None,
    }
}

fn find_in(hir: &SemanticHirInput, table: Option<&TextMap<Vec<String>, HirItemRef>>, path: &Vec<String>) -> (r: Option<Option<ItemId>>)
    ensures
        r == found_in(*hir, match table {
            Some(t) => Some(*t),
            None => None,
        }, string_texts(path@)),
{
    match table {
        Some(t) => match t.get(path) {
            Some(item_ref) => Some(item_of_ref(hir, item_ref)),
            None => None,
        },
        None => None,
    }
}

fn import_decision(hir: &SemanticHirInput, file_id: FileId, segments: &Vec<String>) -> (r: Option<Option<ItemId>>)
    requires
        segments@.len() > 0,
    ensures
        r == by_import(*hir, file_id, string_texts(segments@)),
{
    let imports = &hir.hir_imports;
    let table = match imports.get(file_id) {
        Some(t) => t,
        None => return None,
    };
    let binding = match table.get(&segments[0]) {
        Some(b) => b,
        None => return None,
    };
    if segments.len() == 1 {
        if binding.kind == HirImportBindingKind::Item {
            match &binding.target_item {
                Some(r) => Some(item_of_ref(hir, r)),
                None => Some(None),
            }
        } else {
            None
        }
    } else if binding.kind == HirImportBindingKind::Scope {
        let full = path_with_tail(&binding.target_path, segments, 1);
        proof {
            assert(string_texts(segments@).skip(1) =~= string_texts(segments@).drop_first());
        }
        let paths = imports.item_paths_for_root(binding.source_root.as_ref());
        find_in(hir, paths, &full)
    } else {
        None
    }
}

/// The item a written type path names (see [`resolve_type_path`]).
pub fn resolve_item_id_from_type_path(hir: &SemanticHirInput, file_id: FileId, segments: &Vec<String>) -> (r: Option<ItemId>)
    ensures
        r == resolve_type_path(*hir, file_id, string_texts(segments@)),
{
    let ghost segs = string_texts(segments@);
    let imports = &hir.hir_imports;
    if segments.len() == 0 {
        return None;
    }
    proof {
        assert(segs.drop_first() =~= segs.skip(1));
    }
    match import_decision(hir, file_id, segments) {
        Some(x) => return x,
        None => {},
    }
    let empty: Vec<String> = Vec::new();
    proof {
        assert(string_texts(empty@) =~= Seq::<Seq<char>>::empty());
    }
    if str_eq(segments[0].as_str(), "root") && segments.len() > 1 {
        let rest = path_with_tail(&empty, segments, 1);
        proof {
            assert(string_texts(rest@) =~= segs.drop_first());
        }
        match find_in(hir, Some(&imports.local_item_paths), &rest) {
            Some(x) => return x,
            None => {},
        }
    }
    if str_eq(segments[0].as_str(), "super") && segments.len() > 1 {
        if let Some(scope_path) = imports.scope_path_for_file(file_id) {
            let mut parent = scope_path.clone_text();
            let ghost sp = string_texts(scope_path@);
            if parent.len() > 0 {
                let _ = parent.pop();
                proof {
                    assert(string_texts(parent@) =~= sp.drop_last());
                }
            }
            let full = path_with_tail(&parent, segments, 1);
            proof {
                assert(string_texts(full@) =~= parent_path(sp) + segs.drop_first());
            }
            match find_in(hir, Some(&imports.local_item_paths), &full) {
                Some(x) => return x,
                None => {},
            }
        }
    }
    if segments.len() > 1 {
        let rest = path_with_tail(&empty, segments, 1);
        proof {
            assert(string_texts(rest@) =~= segs.drop_first());
        }
        let named = imports.root_item_paths.get(&segments[0]);
        match find_in(hir, named, &rest) {
            Some(x) => return x,
            None => {},
        }
    }
    let scope_path = match imports.scope_path_for_file(file_id) {
        Some(p) => p,
        None => return None,
    };
    let full = path_with_tail(scope_path, segments, 0);
    proof {
        assert(segs.skip(0) =~= segs);
    }
    match find_in(hir, Some(&imports.local_item_paths), &full) {
        Some(x) => x,
        None => None,
    }
}

/* Typing written types */

/// The type of an item a path resolved to: struct, enum and protocol items
/// name their type; a missing item or another kind gives the error type
/// and an issue.
pub open spec fn item_type_for_path(items: Seq<GlobalItem>, ctx: SigCtx, path: Seq<Seq<char>>, id: ItemId) -> (Type, Seq<IssueView>) {
    match item_with_id(items, id) {
        None => (Type::Error, seq![(ctx.owner, ctx.scope, IssueKindView::MissingResolvedItem(path, id))]),
        Some(g) => match g.kind {
            ItemKind::Struct => (Type::Named { item_id: id, kind: NamedTypeKind::Struct }, seq![]),
            ItemKind::Enum => (Type::Named { item_id: id, kind: NamedTypeKind::Enum }, seq![]),
            ItemKind::Protocol => (Type::Named { item_id: id, kind: NamedTypeKind::Protocol }, seq![]),
            _ => (Type::Error, seq![(ctx.owner, ctx.scope, IssueKindView::InvalidTypeItem(path, id, g.kind))]),
        },
    }
}

/// What `Self` means for the owner: the owner's own struct, enum or
/// protocol type; the error type with an issue elsewhere.
pub open spec fn self_type_spec(items: Seq<GlobalItem>, ctx: SigCtx) -> (Type, Seq<IssueView>) {
    match ctx.owner {
        DeclarationOwner::Item(id) => match item_with_id(items, id) {
            Some(g) => match g.kind {
                ItemKind::Struct => (Type::Named { item_id: id, kind: NamedTypeKind::Struct }, seq![]),
                ItemKind::Enum => (Type::Named { item_id: id, kind: NamedTypeKind::Enum }, seq![]),
                ItemKind::Protocol => (Type::Named { item_id: id, kind: NamedTypeKind::Protocol }, seq![]),
                ItemKind::Function => (Type::Error, seq![unsupported(ctx, "Self type in free function"@)]),
                ItemKind::Scope => (Type::Error, seq![unsupported(ctx, "Self type in unsupported declaration"@)]),
            },
            None => (Type::Error, seq![unsupported(ctx, "Self type in unsupported declaration"@)]),
        },
        DeclarationOwner::Impl { .. } => (Type::Error, seq![unsupported(ctx, "Self type in impl block (not yet implemented)"@)]),
    }
}

/// The mutability a written reference or pointer has.
pub open spec fn mutability_of(mutable: bool) -> Mutability {
    if mutable {
        Mutability::Mut
    } else {
        Mutability::Const
    }
}

/// The type a written type denotes and the issues met typing it, nested
/// types first. Paths name builtins or resolve to items; references and
/// pointers become pointers; generic applications, optionals and results
/// are not supported yet and give the error type after typing their parts;
/// a missing type node gives the error type. A walk descends at most
/// `fuel` levels (as many as the module has types, which no acyclic
/// module exceeds).
pub open spec fn typed_ref(
    hir: SemanticHirInput,
    items: Seq<GlobalItem>,
    ctx: SigCtx,
    m: HirModule,
    id: HirTypeId,
    fuel: nat,
) -> (Type, Seq<IssueView>)
    decreases fuel, 0nat,
{
    if fuel == 0 {
        (Type::Error, seq![unsupported(ctx, "type nesting deeper than the declared types"@)])
    } else {
        match m.types.spec_get(id) {
            None => (Type::Error, seq![unsupported(ctx, "missing HIR type id"@)]),
            Some(t) => match t.kind {
                HirTypeKind::Path { segments } => match builtin_of_path(segments@) {
                    Some(b) => (Type::Builtin(b), seq![]),
                    None => match resolve_type_path(hir, ctx.file_id, string_texts(segments@)) {
                        Some(item) => item_type_for_path(items, ctx, string_texts(segments@), item),
                        None => (Type::Error, seq![(ctx.owner, ctx.scope, IssueKindView::UnresolvedPath(string_texts(segments@)))]),
                    },
                },
                HirTypeKind::Reference { mutable, inner } => {
                    let x = typed_ref(hir, items, ctx, m, inner, (fuel - 1) as nat);
                    (Type::Pointer { pointee: Box::new(x.0), mutability: mutability_of(mutable) }, x.1)
                },
                HirTypeKind::Pointer { mutable, inner } => {
                    let x = typed_ref(hir, items, ctx, m, inner, (fuel - 1) as nat);
                    (Type::Pointer { pointee: Box::new(x.0), mutability: mutability_of(mutable) }, x.1)
                },
                HirTypeKind::GenericApplication { base, args } => {
                    let b = typed_ref(hir, items, ctx, m, base, (fuel - 1) as nat);
                    let a = typed_refs(hir, items, ctx, m, args@, (fuel - 1) as nat);
                    (Type::Error, b.1 + a.1 + seq![unsupported(ctx, "generic application"@)])
                },
                HirTypeKind::SelfType => self_type_spec(items, ctx),
                HirTypeKind::Optional { inner } => {
                    let x = typed_ref(hir, items, ctx, m, inner, (fuel - 1) as nat);
                    (Type::Error, x.1 + seq![unsupported(ctx, "optional type"@)])
                },
                HirTypeKind::Result { ok, err } => {
                    let o = typed_ref(hir, items, ctx, m, ok, (fuel - 1) as nat);
                    let e = typed_ref(hir, items, ctx, m, err, (fuel - 1) as nat);
                    (Type::Error, o.1 + e.1 + seq![unsupported(ctx, "result type"@)])
                },
            },
        }
    }
}

/// The types of a list of written types, in order, with their issues.
pub open spec fn typed_refs(
    hir: SemanticHirInput,
    items: Seq<GlobalItem>,
    ctx: SigCtx,
    m: HirModule,
    ids: Seq<HirTypeId>,
    fuel: nat,
) -> (Seq<Type>, Seq<IssueView>)
    decreases fuel, ids.len() + 1,
{
    if ids.len() == 0 {
        (seq![], seq![])
    } else {
        let prev = typed_refs(hir, items, ctx, m, ids.drop_last(), fuel);
        let x = typed_ref(hir, items, ctx, m, ids.last(), fuel);
        (prev.0.push(x.0), prev.1 + x.1)
    }
}

fn type_for_item_path(
    items: &GlobalItemTable,
    ctx: SigCtx,
    segments: &Vec<String>,
    id: ItemId,
    issues: &mut Vec<SignatureTypingIssue>,
) -> (t: Type)
    ensures
        t == item_type_for_path(items@, ctx, string_texts(segments@), id).0,
        issues_view(final(issues)@) == issues_view(old(issues)@) + item_type_for_path(items@, ctx, string_texts(segments@), id).1,
{
    let ghost before = issues@;
    let r = match find_item(items.items(), id) {
        None => {
            push_issue(issues, ctx, SignatureTypingIssueKind::MissingResolvedItem { path: segments.clone_text(), item_id: id });
            Type::error()
        },
        Some(g) => match g.kind {
            ItemKind::Struct => Type::named(id, NamedTypeKind::Struct),
            ItemKind::Enum => Type::named(id, NamedTypeKind::Enum),
            ItemKind::Protocol => Type::named(id, NamedTypeKind::Protocol),
            _ => {
                push_issue(issues, ctx, SignatureTypingIssueKind::InvalidTypeItem { path: segments.clone_text(), item_id: id, item_kind: g.kind });
                Type::error()
            },
        },
    };
    proof {
        assert(issues_view(issues@) =~= issues_view(before) + item_type_for_path(items@, ctx, string_texts(segments@), id).1);
    }
    r
}

fn self_type(items: &GlobalItemTable, ctx: SigCtx, issues: &mut Vec<SignatureTypingIssue>) -> (t: Type)
    ensures
        t == self_type_spec(items@, ctx).0,
        issues_view(final(issues)@) == issues_view(old(issues)@) + self_type_spec(items@, ctx).1,
{
    let ghost before = issues@;
    let r = match ctx.owner {
        DeclarationOwner::Item(id) => match find_item(items.items(), id) {
            Some(g) => match g.kind {
                ItemKind::Struct => Type::named(id, NamedTypeKind::Struct),
                ItemKind::Enum => Type::named(id, NamedTypeKind::Enum),
                ItemKind::Protocol => Type::named(id, NamedTypeKind::Protocol),
                ItemKind::Function => {
                    push_unsupported(issues, ctx, "Self type in free function");
                    Type::error()
                },
                ItemKind::Scope => {
                    push_unsupported(issues, ctx, "Self type in unsupported declaration");
                    Type::error()
                },
            },
            None => {
                push_unsupported(issues, ctx, "Self type in unsupported declaration");
                Type::error()
            },
        },
        DeclarationOwner::Impl { .. } => {
            push_unsupported(issues, ctx, "Self type in impl block (not yet implemented)");
            Type::error()
        },
    };
    proof {
        assert(issues_view(issues@) =~= issues_view(before) + self_type_spec(items@, ctx).1);
    }
    r
}

/// The type a written type denotes (see [`typed_ref`]); its issues are
/// appended to `issues`.
pub fn type_ref(
    hir: &SemanticHirInput,
    items: &GlobalItemTable,
    ctx: SigCtx,
    module: &HirModule,
    id: HirTypeId,
    fuel: usize,
    issues: &mut Vec<SignatureTypingIssue>,
) -> (t: Type)
    ensures
        t == typed_ref(*hir, items@, ctx, *module, id, fuel as nat).0,
        issues_view(final(issues)@) == issues_view(old(issues)@) + typed_ref(*hir, items@, ctx, *module, id, fuel as nat).1,
    decreases fuel, 0nat,
{
    let ghost before = issues@;
    let ghost spec_r = typed_ref(*hir, items@, ctx, *module, id, fuel as nat);
    if fuel == 0 {
        push_unsupported(issues, ctx, "type nesting deeper than the declared types");
        return Type::error();
    }
    let ty = match module.types.get(&id) {
        Some(t) => t,
        None => {
            push_unsupported(issues, ctx, "missing HIR type id");
            return Type::error();
        },
    };
    match &ty.kind {
        HirTypeKind::Path { segments } => {
            match builtin_from_segments(segments) {
                Some(b) => return Type::builtin(b),
                None => {},
            }
            match resolve_item_id_from_type_path(hir, ctx.file_id, segments) {
                Some(item) => {
                    type_for_item_path(items, ctx, segments, item, issues)
                },
                None => {
                    push_issue(issues, ctx, SignatureTypingIssueKind::UnresolvedPath { path: segments.clone_text() });
                    proof {
                        assert(issues_view(issues@) =~= issues_view(before) + spec_r.1);
                    }
                    Type::error()
                },
            }
        },
        HirTypeKind::Reference { mutable, inner } => {
            let t = type_ref(hir, items, ctx, module, *inner, fuel - 1, issues);
            Type::pointer(t, if *mutable { Mutability::Mut } else { Mutability::Const })
        },
        HirTypeKind::Pointer { mutable, inner } => {
            let t = type_ref(hir, items, ctx, module, *inner, fuel - 1, issues);
            Type::pointer(t, if *mutable { Mutability::Mut } else { Mutability::Const })
        },
        HirTypeKind::GenericApplication { base, args } => {
            let _ = type_ref(hir, items, ctx, module, *base, fuel - 1, issues);
            let _ = type_refs(hir, items, ctx, module, args, fuel - 1, issues);
            push_unsupported(issues, ctx, "generic application");
            proof {
                assert(issues_view(issues@) =~= issues_view(before) + spec_r.1);
            }
            Type::error()
        },
        HirTypeKind::SelfType => {
            self_type(items, ctx, issues)
        },
        HirTypeKind::Optional { inner } => {
            let _ = type_ref(hir, items, ctx, module, *inner, fuel - 1, issues);
            push_unsupported(issues, ctx, "optional type");
            proof {
                assert(issues_view(issues@) =~= issues_view(before) + spec_r.1);
            }
            Type::error()
        },
        HirTypeKind::Result { ok, err } => {
            let _ = type_ref(hir, items, ctx, module, *ok, fuel - 1, issues);
            let _ = type_ref(hir, items, ctx, module, *err, fuel - 1, issues);
            push_unsupported(issues, ctx, "result type");
            proof {
                assert(issues_view(issues@) =~= issues_view(before) + spec_r.1);
            }
            Type::error()
        },
    }
}

/// The types of a list of written types (see [`typed_refs`]).
pub fn type_refs(
    hir: &SemanticHirInput,
    items: &GlobalItemTable,
    ctx: SigCtx,
    module: &HirModule,
    ids: &Vec<HirTypeId>,
    fuel: usize,
    issues: &mut Vec<SignatureTypingIssue>,
) -> (ts: Vec<Type>)
    ensures
        ts@ == typed_refs(*hir, items@, ctx, *module, ids@, fuel as nat).0,
        issues_view(final(issues)@) == issues_view(old(issues)@) + typed_refs(*hir, items@, ctx, *module, ids@, fuel as nat).1,
    decreases fuel, ids@.len() + 1,
{
    let ghost before = issues@;
    let mut out: Vec<Type> = Vec::new();
    let mut i: usize = 0;
    proof {
        assert(ids@.take(0) =~= Seq::<HirTypeId>::empty());
        assert(issues_view(issues@) =~= issues_view(before) + Seq::<IssueView>::empty());
    }
    while i < ids.len()
        invariant
            i <= ids@.len(),
            out@ == typed_refs(*hir, items@, ctx, *module, ids@.take(i as int), fuel as nat).0,
            issues_view(issues@) == issues_view(before) + typed_refs(*hir, items@, ctx, *module, ids@.take(i as int), fuel as nat).1,
        decreases ids@.len() - i,
    {
        proof {
            assert(ids@.take(i + 1).drop_last() =~= ids@.take(i as int));
            assert(ids@.take(i + 1).last() == ids@[i as int]);
        }
        let t = type_ref(hir, items, ctx, module, ids[i], fuel, issues);
        out.push(t);
        proof {
            let p = typed_refs(*hir, items@, ctx, *module, ids@.take(i as int), fuel as nat);
            let x = typed_ref(*hir, items@, ctx, *module, ids@[i as int], fuel as nat);
            assert(issues_view(issues@) =~= issues_view(before) + (p.1 + x.1));
        }
        i = i + 1;
    }
    proof {
        assert(ids@.take(ids@.len() as int) =~= ids@);
    }
    out
}

/* Typing signatures */

/// A typed signature as plain values: labels, parameter types, return type.
pub type SigV = (Seq<TypedParamLabel>, Seq<Type>, Option<Type>);

/// The label a declared parameter label becomes.
pub open spec fn label_of(l: HirParamLabel) -> TypedParamLabel {
    match l {
        HirParamLabel::Unlabeled => TypedParamLabel::Unlabeled,
        HirParamLabel::Explicit(s) => TypedParamLabel::Explicit(s),
        HirParamLabel::FromName => TypedParamLabel::FromName,
    }
}

/// A declared signature typed: labels kept, parameter types then the
/// return type typed in order.
pub open spec fn typed_sig(
    hir: SemanticHirInput,
    items: Seq<GlobalItem>,
    ctx: SigCtx,
    m: HirModule,
    sig: HirFunctionSignature,
    fuel: nat,
) -> (SigV, Seq<IssueView>) {
    let ps = typed_refs(hir, items, ctx, m, sig.params@.map_values(|p: HirParam| p.ty), fuel);
    let ret: (Option<Type>, Seq<IssueView>) = match sig.return_type {
        Some(t) => {
            let x = typed_ref(hir, items, ctx, m, t, fuel);
            (Some(x.0), x.1)
        },
        None => (None, seq![]),
    };
    ((sig.params@.map_values(|p: HirParam| label_of(p.label)), ps.0, ret.0), ps.1 + ret.1)
}

fn copy_label(l: &HirParamLabel) -> (r: TypedParamLabel)
    ensures
        r == label_of(*l),
{
    match l {
        HirParamLabel::Unlabeled => TypedParamLabel::Unlabeled,
        HirParamLabel::Explicit(s) => TypedParamLabel::Explicit(s.clone()),
        HirParamLabel::FromName => TypedParamLabel::FromName,
    }
}

/// A declared signature typed (see [`typed_sig`]).
pub fn type_function_signature(
    hir: &SemanticHirInput,
    items: &GlobalItemTable,
    ctx: SigCtx,
    module: &HirModule,
    sig: &HirFunctionSignature,
    fuel: usize,
    issues: &mut Vec<SignatureTypingIssue>,
) -> (r: TypedFunctionSignature)
    ensures
        r@ == typed_sig(*hir, items@, ctx, *module, *sig, fuel as nat).0,
        issues_view(final(issues)@) == issues_view(old(issues)@) + typed_sig(*hir, items@, ctx, *module, *sig, fuel as nat).1,
{
    let ghost before = issues@;
    let mut ids: Vec<HirTypeId> = Vec::new();
    let mut labels: Vec<TypedParamLabel> = Vec::new();
    let mut i: usize = 0;
    while i < sig.params.len()
        invariant
            i <= sig.params@.len(),
            ids@ == sig.params@.take(i as int).map_values(|p: HirParam| p.ty),
            labels@ == sig.params@.take(i as int).map_values(|p: HirParam| label_of(p.label)),
        decreases sig.params@.len() - i,
    {
        ids.push(sig.params[i].ty);
        labels.push(copy_label(&sig.params[i].label));
        proof {
            assert(sig.params@.take(i + 1) =~= sig.params@.take(i as int).push(sig.params@[i as int]));
            assert(ids@ =~= sig.params@.take(i + 1).map_values(|p: HirParam| p.ty));
            assert(labels@ =~= sig.params@.take(i + 1).map_values(|p: HirParam| label_of(p.label)));
        }
        i = i + 1;
    }
    proof {
        assert(sig.params@.take(sig.params@.len() as int) =~= sig.params@);
    }
    let param_types = type_refs(hir, items, ctx, module, &ids, fuel, issues);
    let return_type = match &sig.return_type {
        Some(t) => Some(type_ref(hir, items, ctx, module, *t, fuel, issues)),
        None => None,
    };
    proof {
        assert(issues_view(issues@) =~= issues_view(before) + typed_sig(*hir, items@, ctx, *module, *sig, fuel as nat).1);
    }
    TypedFunctionSignature { param_labels: labels, param_types, return_type }
}

/// Methods (named) and initializers of a list of declared functions, each
/// signature typed in order.
pub open spec fn typed_fns(
    hir: SemanticHirInput,
    items: Seq<GlobalItem>,
    ctx: SigCtx,
    m: HirModule,
    fs: Seq<HirFunctionDecl>,
    fuel: nat,
) -> (Seq<(String, SigV)>, Seq<SigV>, Seq<IssueView>)
    decreases fs.len(),
{
    if fs.len() == 0 {
        (seq![], seq![], seq![])
    } else {
        let prev = typed_fns(hir, items, ctx, m, fs.drop_last(), fuel);
        let f = fs.last();
        let x = typed_sig(hir, items, ctx, m, f.signature, fuel);
        if f.is_initializer {
            (prev.0, prev.1.push(x.0), prev.2 + x.1)
        } else {
            (prev.0.push((f.name, x.0)), prev.1, prev.2 + x.1)
        }
    }
}

/// The same for protocol requirements.
pub open spec fn typed_proto_fns(
    hir: SemanticHirInput,
    items: Seq<GlobalItem>,
    ctx: SigCtx,
    m: HirModule,
    fs: Seq<HirProtocolFunction>,
    fuel: nat,
) -> (Seq<(String, SigV)>, Seq<SigV>, Seq<IssueView>)
    decreases fs.len(),
{
    if fs.len() == 0 {
        (seq![], seq![], seq![])
    } else {
        let prev = typed_proto_fns(hir, items, ctx, m, fs.drop_last(), fuel);
        let f = fs.last();
        let x = typed_sig(hir, items, ctx, m, f.signature, fuel);
        if f.is_initializer {
            (prev.0, prev.1.push(x.0), prev.2 + x.1)
        } else {
            (prev.0.push((f.name, x.0)), prev.1, prev.2 + x.1)
        }
    }
}

/// Methods and initializers of declared functions (see [`typed_fns`]).
pub fn type_hir_functions(
    hir: &SemanticHirInput,
    items: &GlobalItemTable,
    ctx: SigCtx,
    module: &HirModule,
    fs: &Vec<HirFunctionDecl>,
    fuel: usize,
    issues: &mut Vec<SignatureTypingIssue>,
) -> (r: (Vec<TypedNamedFunctionSignature>, Vec<TypedFunctionSignature>))
    ensures
        r.0@.map_values(|n: TypedNamedFunctionSignature| n@) == typed_fns(*hir, items@, ctx, *module, fs@, fuel as nat).0,
        r.1@.map_values(|f: TypedFunctionSignature| f@) == typed_fns(*hir, items@, ctx, *module, fs@, fuel as nat).1,
        issues_view(final(issues)@) == issues_view(old(issues)@) + typed_fns(*hir, items@, ctx, *module, fs@, fuel as nat).2,
{
    let ghost before = issues@;
    let mut methods: Vec<TypedNamedFunctionSignature> = Vec::new();
    let mut inits: Vec<TypedFunctionSignature> = Vec::new();
    let mut i: usize = 0;
    proof {
        assert(fs@.take(0) =~= Seq::<HirFunctionDecl>::empty());
        assert(issues_view(issues@) =~= issues_view(before) + Seq::<IssueView>::empty());
    }
    while i < fs.len()
        invariant
            i <= fs@.len(),
            methods@.map_values(|n: TypedNamedFunctionSignature| n@) == typed_fns(*hir, items@, ctx, *module, fs@.take(i as int), fuel as nat).0,
            inits@.map_values(|f: TypedFunctionSignature| f@) == typed_fns(*hir, items@, ctx, *module, fs@.take(i as int), fuel as nat).1,
            issues_view(issues@) == issues_view(before) + typed_fns(*hir, items@, ctx, *module, fs@.take(i as int), fuel as nat).2,
        decreases fs@.len() - i,
    {
        proof {
            assert(fs@.take(i + 1).drop_last() =~= fs@.take(i as int));
            assert(fs@.take(i + 1).last() == fs@[i as int]);
        }
        let ghost p = typed_fns(*hir, items@, ctx, *module, fs@.take(i as int), fuel as nat);
        let ghost m0 = methods@;
        let ghost i0 = inits@;
        let ghost is0 = issues@;
        let f = &fs[i];
        let sig = type_function_signature(hir, items, ctx, module, &f.signature, fuel, issues);
        if f.is_initializer {
            inits.push(sig);
            proof {
                assert(inits@.map_values(|f: TypedFunctionSignature| f@) =~= i0.map_values(|f: TypedFunctionSignature| f@).push(inits@.last()@));
            }
        } else {
            methods.push(TypedNamedFunctionSignature { name: f.name.clone(), signature: sig });
            proof {
                assert(methods@.map_values(|n: TypedNamedFunctionSignature| n@) =~= m0.map_values(|n: TypedNamedFunctionSignature| n@).push(methods@.last()@));
            }
        }
        proof {
            assert(issues_view(issues@) =~= issues_view(before) + typed_fns(*hir, items@, ctx, *module, fs@.take(i + 1), fuel as nat).2);
        }
        i = i + 1;
    }
    proof {
        assert(fs@.take(fs@.len() as int) =~= fs@);
    }
    (methods, inits)
}

/// Methods and initializers of protocol requirements (see [`typed_proto_fns`]).
pub fn type_hir_protocol_functions(
    hir: &SemanticHirInput,
    items: &GlobalItemTable,
    ctx: SigCtx,
    module: &HirModule,
    fs: &Vec<HirProtocolFunction>,
    fuel: usize,
    issues: &mut Vec<SignatureTypingIssue>,
) -> (r: (Vec<TypedNamedFunctionSignature>, Vec<TypedFunctionSignature>))
    ensures
        r.0@.map_values(|n: TypedNamedFunctionSignature| n@) == typed_proto_fns(*hir, items@, ctx, *module, fs@, fuel as nat).0,
        r.1@.map_values(|f: TypedFunctionSignature| f@) == typed_proto_fns(*hir, items@, ctx, *module, fs@, fuel as nat).1,
        issues_view(final(issues)@) == issues_view(old(issues)@) + typed_proto_fns(*hir, items@, ctx, *module, fs@, fuel as nat).2,
{
    let ghost before = issues@;
    let mut methods: Vec<TypedNamedFunctionSignature> = Vec::new();
    let mut inits: Vec<TypedFunctionSignature> = Vec::new();
    let mut i: usize = 0;
    proof {
        assert(fs@.take(0) =~= Seq::<HirProtocolFunction>::empty());
        assert(issues_view(issues@) =~= issues_view(before) + Seq::<IssueView>::empty());
    }
    while i < fs.len()
        invariant
            i <= fs@.len(),
            methods@.map_values(|n: TypedNamedFunctionSignature| n@) == typed_proto_fns(*hir, items@, ctx, *module, fs@.take(i as int), fuel as nat).0,
            inits@.map_values(|f: TypedFunctionSignature| f@) == typed_proto_fns(*hir, items@, ctx, *module, fs@.take(i as int), fuel as nat).1,
            issues_view(issues@) == issues_view(before) + typed_proto_fns(*hir, items@, ctx, *module, fs@.take(i as int), fuel as nat).2,
        decreases fs@.len() - i,
    {
        proof {
            assert(fs@.take(i + 1).drop_last() =~= fs@.take(i as int));
            assert(fs@.take(i + 1).last() == fs@[i as int]);
        }
        let ghost m0 = methods@;
        let ghost i0 = inits@;
        let f = &fs[i];
        let sig = type_function_signature(hir, items, ctx, module, &f.signature, fuel, issues);
        if f.is_initializer {
            inits.push(sig);
            proof {
                assert(inits@.map_values(|f: TypedFunctionSignature| f@) =~= i0.map_values(|f: TypedFunctionSignature| f@).push(inits@.last()@));
            }
        } else {
            methods.push(TypedNamedFunctionSignature { name: f.name.clone(), signature: sig });
            proof {
                assert(methods@.map_values(|n: TypedNamedFunctionSignature| n@) =~= m0.map_values(|n: TypedNamedFunctionSignature| n@).push(methods@.last()@));
            }
        }
        proof {
            assert(issues_view(issues@) =~= issues_view(before) + typed_proto_fns(*hir, items@, ctx, *module, fs@.take(i + 1), fuel as nat).2);
        }
        i = i + 1;
    }
    proof {
        assert(fs@.take(fs@.len() as int) =~= fs@);
    }
    (methods, inits)
}

/// Struct fields typed in order.
pub open spec fn typed_fields(
    hir: SemanticHirInput,
    items: Seq<GlobalItem>,
    ctx: SigCtx,
    m: HirModule,
    fs: Seq<HirStructField>,
    fuel: nat,
) -> (Seq<TypedStructField>, Seq<IssueView>)
    decreases fs.len(),
{
    if fs.len() == 0 {
        (seq![], seq![])
    } else {
        let prev = typed_fields(hir, items, ctx, m, fs.drop_last(), fuel);
        let x = typed_ref(hir, items, ctx, m, fs.last().ty, fuel);
        (prev.0.push(TypedStructField { name: fs.last().name, ty: x.0 }), prev.1 + x.1)
    }
}

/// Protocol properties typed in order.
pub open spec fn typed_properties(
    hir: SemanticHirInput,
    items: Seq<GlobalItem>,
    ctx: SigCtx,
    m: HirModule,
    ps: Seq<HirProtocolProperty>,
    fuel: nat,
) -> (Seq<TypedProtocolProperty>, Seq<IssueView>)
    decreases ps.len(),
{
    if ps.len() == 0 {
        (seq![], seq![])
    } else {
        let prev = typed_properties(hir, items, ctx, m, ps.drop_last(), fuel);
        let x = typed_ref(hir, items, ctx, m, ps.last().ty, fuel);
        (prev.0.push(TypedProtocolProperty { name: ps.last().name, ty: x.0 }), prev.1 + x.1)
    }
}

/// Enum variants with their payload types typed in order.
pub open spec fn typed_variants(
    hir: SemanticHirInput,
    items: Seq<GlobalItem>,
    ctx: SigCtx,
    m: HirModule,
    vs: Seq<HirEnumVariant>,
    fuel: nat,
) -> (Seq<(String, Seq<Type>)>, Seq<IssueView>)
    decreases vs.len(),
{
    if vs.len() == 0 {
        (seq![], seq![])
    } else {
        let prev = typed_variants(hir, items, ctx, m, vs.drop_last(), fuel);
        let x = typed_refs(hir, items, ctx, m, vs.last().payload@, fuel);
        (prev.0.push((vs.last().name, x.0)), prev.1 + x.1)
    }
}

/// Associated types with their bounds typed in order.
pub open spec fn typed_assoc(
    hir: SemanticHirInput,
    items: Seq<GlobalItem>,
    ctx: SigCtx,
    m: HirModule,
    ts: Seq<HirAssociatedType>,
    fuel: nat,
) -> (Seq<(String, Seq<Type>)>, Seq<IssueView>)
    decreases ts.len(),
{
    if ts.len() == 0 {
        (seq![], seq![])
    } else {
        let prev = typed_assoc(hir, items, ctx, m, ts.drop_last(), fuel);
        let x = typed_refs(hir, items, ctx, m, ts.last().bounds@, fuel);
        (prev.0.push((ts.last().name, x.0)), prev.1 + x.1)
    }
}

fn type_fields(
    hir: &SemanticHirInput,
    items: &GlobalItemTable,
    ctx: SigCtx,
    module: &HirModule,
    fs: &Vec<HirStructField>,
    fuel: usize,
    issues: &mut Vec<SignatureTypingIssue>,
) -> (r: Vec<TypedStructField>)
    ensures
        r@ == typed_fields(*hir, items@, ctx, *module, fs@, fuel as nat).0,
        issues_view(final(issues)@) == issues_view(old(issues)@) + typed_fields(*hir, items@, ctx, *module, fs@, fuel as nat).1,
{
    let ghost before = issues@;
    let mut out: Vec<TypedStructField> = Vec::new();
    let mut i: usize = 0;
    proof {
        assert(fs@.take(0) =~= Seq::<HirStructField>::empty());
        assert(issues_view(issues@) =~= issues_view(before) + Seq::<IssueView>::empty());
    }
    while i < fs.len()
        invariant
            i <= fs@.len(),
            out@ == typed_fields(*hir, items@, ctx, *module, fs@.take(i as int), fuel as nat).0,
            issues_view(issues@) == issues_view(before) + typed_fields(*hir, items@, ctx, *module, fs@.take(i as int), fuel as nat).1,
        decreases fs@.len() - i,
    {
        proof {
            assert(fs@.take(i + 1).drop_last() =~= fs@.take(i as int));
            assert(fs@.take(i + 1).last() == fs@[i as int]);
        }
        let t = type_ref(hir, items, ctx, module, fs[i].ty, fuel, issues);
        out.push(TypedStructField { name: fs[i].name.clone(), ty: t });
        proof {
            assert(issues_view(issues@) =~= issues_view(before) + typed_fields(*hir, items@, ctx, *module, fs@.take(i + 1), fuel as nat).1);
        }
        i = i + 1;
    }
    proof {
        assert(fs@.take(fs@.len() as int) =~= fs@);
    }
    out
}

fn type_properties(
    hir: &SemanticHirInput,
    items: &GlobalItemTable,
    ctx: SigCtx,
    module: &HirModule,
    ps: &Vec<HirProtocolProperty>,
    fuel: usize,
    issues: &mut Vec<SignatureTypingIssue>,
) -> (r: Vec<TypedProtocolProperty>)
    ensures
        r@ == typed_properties(*hir, items@, ctx, *module, ps@, fuel as nat).0,
        issues_view(final(issues)@) == issues_view(old(issues)@) + typed_properties(*hir, items@, ctx, *module, ps@, fuel as nat).1,
{
    let ghost before = issues@;
    let mut out: Vec<TypedProtocolProperty> = Vec::new();
    let mut i: usize = 0;
    proof {
        assert(ps@.take(0) =~= Seq::<HirProtocolProperty>::empty());
        assert(issues_view(issues@) =~= issues_view(before) + Seq::<IssueView>::empty());
    }
    while i < ps.len()
        invariant
            i <= ps@.len(),
            out@ == typed_properties(*hir, items@, ctx, *module, ps@.take(i as int), fuel as nat).0,
            issues_view(issues@) == issues_view(before) + typed_properties(*hir, items@, ctx, *module, ps@.take(i as int), fuel as nat).1,
        decreases ps@.len() - i,
    {
        proof {
            assert(ps@.take(i + 1).drop_last() =~= ps@.take(i as int));
            assert(ps@.take(i + 1).last() == ps@[i as int]);
        }
        let t = type_ref(hir, items, ctx, module, ps[i].ty, fuel, issues);
        out.push(TypedProtocolProperty { name: ps[i].name.clone(), ty: t });
        proof {
            assert(issues_view(issues@) =~= issues_view(before) + typed_properties(*hir, items@, ctx, *module, ps@.take(i + 1), fuel as nat).1);
        }
        i = i + 1;
    }
    proof {
        assert(ps@.take(ps@.len() as int) =~= ps@);
    }
    out
}

fn type_variants(
    hir: &SemanticHirInput,
    items: &GlobalItemTable,
    ctx: SigCtx,
    module: &HirModule,
    vs: &Vec<HirEnumVariant>,
    fuel: usize,
    issues: &mut Vec<SignatureTypingIssue>,
) -> (r: Vec<TypedEnumCaseSignature>)
    ensures
        r@.map_values(|c: TypedEnumCaseSignature| c@) == typed_variants(*hir, items@, ctx, *module, vs@, fuel as nat).0,
        issues_view(final(issues)@) == issues_view(old(issues)@) + typed_variants(*hir, items@, ctx, *module, vs@, fuel as nat).1,
{
    let ghost before = issues@;
    let mut out: Vec<TypedEnumCaseSignature> = Vec::new();
    let mut i: usize = 0;
    proof {
        assert(vs@.take(0) =~= Seq::<HirEnumVariant>::empty());
        assert(issues_view(issues@) =~= issues_view(before) + Seq::<IssueView>::empty());
    }
    while i < vs.len()
        invariant
            i <= vs@.len(),
            out@.map_values(|c: TypedEnumCaseSignature| c@) == typed_variants(*hir, items@, ctx, *module, vs@.take(i as int), fuel as nat).0,
            issues_view(issues@) == issues_view(before) + typed_variants(*hir, items@, ctx, *module, vs@.take(i as int), fuel as nat).1,
        decreases vs@.len() - i,
    {
        proof {
            assert(vs@.take(i + 1).drop_last() =~= vs@.take(i as int));
            assert(vs@.take(i + 1).last() == vs@[i as int]);
        }
        let ghost o0 = out@;
        let ts = type_refs(hir, items, ctx, module, &vs[i].payload, fuel, issues);
        out.push(TypedEnumCaseSignature { name: vs[i].name.clone(), payload_types: ts });
        proof {
            assert(out@.map_values(|c: TypedEnumCaseSignature| c@) =~= o0.map_values(|c: TypedEnumCaseSignature| c@).push(out@.last()@));
            assert(issues_view(issues@) =~= issues_view(before) + typed_variants(*hir, items@, ctx, *module, vs@.take(i + 1), fuel as nat).1);
        }
        i = i + 1;
    }
    proof {
        assert(vs@.take(vs@.len() as int) =~= vs@);
    }
    out
}

fn type_assoc(
    hir: &SemanticHirInput,
    items: &GlobalItemTable,
    ctx: SigCtx,
    module: &HirModule,
    ts: &Vec<HirAssociatedType>,
    fuel: usize,
    issues: &mut Vec<SignatureTypingIssue>,
) -> (r: Vec<TypedAssociatedTypeBounds>)
    ensures
        r@.map_values(|b: TypedAssociatedTypeBounds| b@) == typed_assoc(*hir, items@, ctx, *module, ts@, fuel as nat).0,
        issues_view(final(issues)@) == issues_view(old(issues)@) + typed_assoc(*hir, items@, ctx, *module, ts@, fuel as nat).1,
{
    let ghost before = issues@;
    let mut out: Vec<TypedAssociatedTypeBounds> = Vec::new();
    let mut i: usize = 0;
    proof {
        assert(ts@.take(0) =~= Seq::<HirAssociatedType>::empty());
        assert(issues_view(issues@) =~= issues_view(before) + Seq::<IssueView>::empty());
    }
    while i < ts.len()
        invariant
            i <= ts@.len(),
            out@.map_values(|b: TypedAssociatedTypeBounds| b@) == typed_assoc(*hir, items@, ctx, *module, ts@.take(i as int), fuel as nat).0,
            issues_view(issues@) == issues_view(before) + typed_assoc(*hir, items@, ctx, *module, ts@.take(i as int), fuel as nat).1,
        decreases ts@.len() - i,
    {
        proof {
            assert(ts@.take(i + 1).drop_last() =~= ts@.take(i as int));
            assert(ts@.take(i + 1).last() == ts@[i as int]);
        }
        let ghost o0 = out@;
        let bs = type_refs(hir, items, ctx, module, &ts[i].bounds, fuel, issues);
        out.push(TypedAssociatedTypeBounds { name: ts[i].name.clone(), bounds: bs });
        proof {
            assert(out@.map_values(|b: TypedAssociatedTypeBounds| b@) =~= o0.map_values(|b: TypedAssociatedTypeBounds| b@).push(out@.last()@));
            assert(issues_view(issues@) =~= issues_view(before) + typed_assoc(*hir, items@, ctx, *module, ts@.take(i + 1), fuel as nat).1);
        }
        i = i + 1;
    }
    proof {
        assert(ts@.take(ts@.len() as int) =~= ts@);
    }
    out
}

/* Typing the declarations of a program */

/// A typed struct as plain values: fields, methods, initializers.
pub type StructV = (Seq<TypedStructField>, Seq<(String, SigV)>, Seq<SigV>);
/// A typed enum as plain values: cases, methods, initializers.
pub type EnumV = (Seq<(String, Seq<Type>)>, Seq<(String, SigV)>, Seq<SigV>);
/// A typed protocol as plain values: inherited types, properties, methods,
/// initializers, associated type bounds.
pub type ProtoV = (Seq<Type>, Seq<TypedProtocolProperty>, Seq<(String, SigV)>, Seq<SigV>, Seq<(String, Seq<Type>)>);
/// A typed impl as plain values: owner, scope file, target, conformance,
/// methods, initializers.
pub type ImplV = (DeclarationOwner, FileId, Type, Option<Type>, Seq<(String, SigV)>, Seq<SigV>);

/// The typed declaration of one item.
pub enum DeclView {
    Function(SigV),
    Struct(StructV),
    Enum(EnumV),
    Protocol(ProtoV),
}

/// How deep a walk of the module's written types may go: one more than
/// their number, at most `usize::MAX`.
pub open spec fn type_fuel(m: HirModule) -> nat {
    if m.types@.len() + 1 <= usize::MAX {
        (m.types@.len() + 1) as nat
    } else {
        usize::MAX as nat
    }
}

/// The typed declaration an item of global kind `kind` gets from its HIR
/// item: functions, structs, enums and protocols whose HIR item has the same
/// kind are typed (functions first for structs, enums and protocols); scopes
/// get nothing; any other pairing gets nothing and an issue.
pub open spec fn typed_item_decl(
    hir: SemanticHirInput,
    items: Seq<GlobalItem>,
    ctx: SigCtx,
    m: HirModule,
    kind: ItemKind,
    hk: HirItemKind,
) -> (Option<DeclView>, Seq<IssueView>) {
    let fuel = type_fuel(m);
    match (kind, hk) {
        (ItemKind::Function, HirItemKind::Function { signature, .. }) => {
            let x = typed_sig(hir, items, ctx, m, signature, fuel);
            (Some(DeclView::Function(x.0)), x.1)
        },
        (ItemKind::Struct, HirItemKind::Struct { functions, fields, .. }) => {
            let f = typed_fns(hir, items, ctx, m, functions@, fuel);
            let d = typed_fields(hir, items, ctx, m, fields@, fuel);
            (Some(DeclView::Struct((d.0, f.0, f.1))), f.2 + d.1)
        },
        (ItemKind::Enum, HirItemKind::Enum { functions, variants, .. }) => {
            let f = typed_fns(hir, items, ctx, m, functions@, fuel);
            let v = typed_variants(hir, items, ctx, m, variants@, fuel);
            (Some(DeclView::Enum((v.0, f.0, f.1))), f.2 + v.1)
        },
        (
            ItemKind::Protocol,
            HirItemKind::Protocol { functions, inherited_types, properties, associated_types, .. },
        ) => {
            let f = typed_proto_fns(hir, items, ctx, m, functions@, fuel);
            let i = typed_refs(hir, items, ctx, m, inherited_types@, fuel);
            let p = typed_properties(hir, items, ctx, m, properties@, fuel);
            let a = typed_assoc(hir, items, ctx, m, associated_types@, fuel);
            (Some(DeclView::Protocol((i.0, p.0, f.0, f.1, a.0))), f.2 + i.1 + p.1 + a.1)
        },
        (ItemKind::Scope, _) => (None, seq![]),
        _ => (None, seq![unsupported(ctx, "global and HIR item kind mismatch"@)]),
    }
}

/// The first HIR item reference (in reference order) that declares item `id`.
pub open spec fn first_ref(entries: Seq<(HirItemRef, ItemId)>, id: ItemId) -> Option<HirItemRef>
    decreases entries.len(),
{
    if entries.len() == 0 {
        None
    } else if entries[0].1 == id {
        Some(entries[0].0)
    } else {
        first_ref(entries.drop_first(), id)
    }
}

/// What typing gives item `g`: without a HIR item reference, a module for
/// its file or the HIR item itself, nothing and a missing-metadata issue;
/// else the typed declaration of its HIR item, its types resolved in the
/// HIR item's file.
pub open spec fn decl_step(hir: SemanticHirInput, items: Seq<GlobalItem>, g: GlobalItem) -> (Option<DeclView>, Seq<IssueView>) {
    let ctx = SigCtx { owner: DeclarationOwner::Item(g.id), scope: Some(g.containing_scope_file_id), file_id: g.containing_scope_file_id };
    let missing = (None, seq![(ctx.owner, ctx.scope, IssueKindView::MissingGlobalItemMetadata(g.id))]);
    match first_ref(hir.item_id_by_hir_item_ref@, g.id) {
        None => missing,
        Some(r) => match hir.hir_modules.spec_get(r.file_id) {
            None => missing,
            Some(m) => match m.items.spec_get(r.item_id) {
                None => missing,
                Some(hi) => typed_item_decl(hir, items, SigCtx { file_id: r.file_id, ..ctx }, m, g.kind, hi.kind),
            },
        },
    }
}

/// The typed declarations of the items `gs`, in order, and their issues.
pub open spec fn decl_fold(hir: SemanticHirInput, items: Seq<GlobalItem>, gs: Seq<GlobalItem>) -> (Seq<(ItemId, DeclView)>, Seq<IssueView>)
    decreases gs.len(),
{
    if gs.len() == 0 {
        (seq![], seq![])
    } else {
        let prev = decl_fold(hir, items, gs.drop_last());
        let x = decl_step(hir, items, gs.last());
        match x.0 {
            Some(d) => (prev.0.push((gs.last().id, d)), prev.1 + x.1),
            None => (prev.0, prev.1 + x.1),
        }
    }
}

/// The kind tag of a typed declaration: 0 function, 1 struct, 2 enum, 3 protocol.
pub open spec fn decl_tag(d: DeclView) -> int {
    match d {
        DeclView::Function(_) => 0,
        DeclView::Struct(_) => 1,
        DeclView::Enum(_) => 2,
        DeclView::Protocol(_) => 3,
    }
}

/// The last typed declaration of item `id` with tag `tag`.
pub open spec fn last_decl(es: Seq<(ItemId, DeclView)>, id: ItemId, tag: int) -> Option<DeclView>
    decreases es.len(),
{
    if es.len() == 0 {
        None
    } else if es.last().0 == id && decl_tag(es.last().1) == tag {
        Some(es.last().1)
    } else {
        last_decl(es.drop_last(), id, tag)
    }
}

/// An impl typed: functions first, then its target, then its conformance.
pub open spec fn typed_impl(
    hir: SemanticHirInput,
    items: Seq<GlobalItem>,
    ctx: SigCtx,
    m: HirModule,
    scope: FileId,
    functions: Seq<HirFunctionDecl>,
    target: HirTypeId,
    conformance: Option<HirTypeId>,
) -> (ImplV, Seq<IssueView>) {
    let fuel = type_fuel(m);
    let f = typed_fns(hir, items, ctx, m, functions, fuel);
    let t = typed_ref(hir, items, ctx, m, target, fuel);
    let c: (Option<Type>, Seq<IssueView>) = match conformance {
        Some(x) => {
            let y = typed_ref(hir, items, ctx, m, x, fuel);
            (Some(y.0), y.1)
        },
        None => (None, seq![]),
    };
    ((ctx.owner, scope, t.0, c.0, f.0, f.1), f.2 + t.1 + c.1)
}

/// The typed impls among the root items `roots` of file `f`, the `n`-th
/// of them owned by `Impl { f, n }`, and their issues.
pub open spec fn file_impls(hir: SemanticHirInput, items: Seq<GlobalItem>, f: FileId, m: HirModule, roots: Seq<HirItemId>) -> (
    Seq<ImplV>,
    Seq<IssueView>,
)
    decreases roots.len(),
{
    if roots.len() == 0 {
        (seq![], seq![])
    } else {
        let prev = file_impls(hir, items, f, m, roots.drop_last());
        match m.items.spec_get(roots.last()) {
            Some(it) => match it.kind {
                HirItemKind::Impl { functions, target, conformance } => {
                    let ctx = SigCtx {
                        owner: DeclarationOwner::Impl { scope_file_id: f, impl_index: prev.0.len() as usize },
                        scope: Some(f),
                        file_id: f,
                    };
                    let x = typed_impl(hir, items, ctx, m, f, functions@, target, conformance);
                    (prev.0.push(x.0), prev.1 + x.1)
                },
                _ => prev,
            },
            None => prev,
        }
    }
}

/// The typed impls of the HIR files that have a module, with their files, and their issues.
pub open spec fn impl_fold(hir: SemanticHirInput, items: Seq<GlobalItem>, files: Seq<HirFile>) -> (Seq<(FileId, ImplV)>, Seq<IssueView>)
    decreases files.len(),
{
    if files.len() == 0 {
        (seq![], seq![])
    } else {
        let prev = impl_fold(hir, items, files.drop_last());
        let f = files.last().file_id;
        match hir.hir_modules.spec_get(f) {
            Some(m) => {
                let x = file_impls(hir, items, f, m, files.last().root_items@);
                (prev.0 + x.0.map_values(|v: ImplV| (f, v)), prev.1 + x.1)
            },
            None => prev,
        }
    }
}

/// The typed impls of file `f`, in order.
pub open spec fn impls_of(es: Seq<(FileId, ImplV)>, f: FileId) -> Seq<ImplV>
    decreases es.len(),
{
    if es.len() == 0 {
        seq![]
    } else if es.last().0 == f {
        impls_of(es.drop_last(), f).push(es.last().1)
    } else {
        impls_of(es.drop_last(), f)
    }
}

/// The per-kind tables hold, for each item, the last typed declaration of
/// that kind among `es`.
pub open spec fn kinds_match(t: TypedSignatureTable, es: Seq<(ItemId, DeclView)>) -> bool {
    &&& forall|id: ItemId| #![trigger t.functions.spec_get(id)] match last_decl(es, id, 0) {
        Some(DeclView::Function(s)) => t.functions.spec_get(id) matches Some(x) && x@ == s,
        _ => t.functions.spec_get(id) is None,
    }
    &&& forall|id: ItemId| #![trigger t.structs.spec_get(id)] match last_decl(es, id, 1) {
        Some(DeclView::Struct(s)) => t.structs.spec_get(id) matches Some(x) && x@ == s,
        _ => t.structs.spec_get(id) is None,
    }
    &&& forall|id: ItemId| #![trigger t.enums.spec_get(id)] match last_decl(es, id, 2) {
        Some(DeclView::Enum(s)) => t.enums.spec_get(id) matches Some(x) && x@ == s,
        _ => t.enums.spec_get(id) is None,
    }
    &&& forall|id: ItemId| #![trigger t.protocols.spec_get(id)] match last_decl(es, id, 3) {
        Some(DeclView::Protocol(s)) => t.protocols.spec_get(id) matches Some(x) && x@ == s,
        _ => t.protocols.spec_get(id) is None,
    }
}

/// The impl table holds, per scope file, the typed impls of that file among
/// `es` in order, and no entry for a file without any.
pub open spec fn impls_match(t: SortedMap<FileId, Vec<TypedImplSignature>>, es: Seq<(FileId, ImplV)>) -> bool {
    forall|f: FileId| match #[trigger] t.spec_get(f) {
        Some(v) => v@.map_values(|x: TypedImplSignature| x@) == impls_of(es, f) && impls_of(es, f).len() > 0,
        None => impls_of(es, f).len() == 0,
    }
}

/// `r` holds the typed signatures of the program: per item the last typed
/// declaration of each kind that [`decl_fold`] gives over the item table,
/// per scope file the impls [`impl_fold`] gives (no entry when there are
/// none), and the issues of both, declarations first.
pub open spec fn signatures_typed(r: TypedSignatureTable, hir: SemanticHirInput, items: Seq<GlobalItem>) -> bool {
    let d = decl_fold(hir, items, items);
    let i = impl_fold(hir, items, hir.hir_files@);
    &&& kinds_match(r, d.0)
    &&& impls_match(r.impls_by_scope_file_id, i.0)
    &&& issues_view(r.issues@) == d.1 + i.1
}

fn type_item_decl(
    hir: &SemanticHirInput,
    items: &GlobalItemTable,
    ctx: SigCtx,
    module: &HirModule,
    kind: ItemKind,
    hk: &HirItemKind,
    issues: &mut Vec<SignatureTypingIssue>,
    table: &mut TypedSignatureTable,
)
    ensures
        issues_view(final(issues)@) == issues_view(old(issues)@) + typed_item_decl(*hir, items@, ctx, *module, kind, *hk).1,
        final(table).impls_by_scope_file_id == old(table).impls_by_scope_file_id,
        final(table).issues == old(table).issues,
        match typed_item_decl(*hir, items@, ctx, *module, kind, *hk).0 {
            Some(DeclView::Function(sv)) => final(table).functions.spec_get(ctx_item(ctx)) matches Some(x) && x@ == sv,
            _ => final(table).functions.spec_get(ctx_item(ctx)) == old(table).functions.spec_get(ctx_item(ctx)),
        },
        match typed_item_decl(*hir, items@, ctx, *module, kind, *hk).0 {
            Some(DeclView::Struct(sv)) => final(table).structs.spec_get(ctx_item(ctx)) matches Some(x) && x@ == sv,
            _ => final(table).structs.spec_get(ctx_item(ctx)) == old(table).structs.spec_get(ctx_item(ctx)),
        },
        match typed_item_decl(*hir, items@, ctx, *module, kind, *hk).0 {
            Some(DeclView::Enum(sv)) => final(table).enums.spec_get(ctx_item(ctx)) matches Some(x) && x@ == sv,
            _ => final(table).enums.spec_get(ctx_item(ctx)) == old(table).enums.spec_get(ctx_item(ctx)),
        },
        match typed_item_decl(*hir, items@, ctx, *module, kind, *hk).0 {
            Some(DeclView::Protocol(sv)) => final(table).protocols.spec_get(ctx_item(ctx)) matches Some(x) && x@ == sv,
            _ => final(table).protocols.spec_get(ctx_item(ctx)) == old(table).protocols.spec_get(ctx_item(ctx)),
        },
        forall|k: ItemId| k != ctx_item(ctx) ==> #[trigger] final(table).functions.spec_get(k) == old(table).functions.spec_get(k),
        forall|k: ItemId| k != ctx_item(ctx) ==> #[trigger] final(table).structs.spec_get(k) == old(table).structs.spec_get(k),
        forall|k: ItemId| k != ctx_item(ctx) ==> #[trigger] final(table).enums.spec_get(k) == old(table).enums.spec_get(k),
        forall|k: ItemId| k != ctx_item(ctx) ==> #[trigger] final(table).protocols.spec_get(k) == old(table).protocols.spec_get(k),
{
    let ghost before = issues@;
    let fuel = module.types.len().saturating_add(1);
    let id = match ctx.owner {
        DeclarationOwner::Item(id) => id,
        DeclarationOwner::Impl { .. } => ItemId(0),
    };
    proof {
        assert(fuel as nat == type_fuel(*module));
    }
    match (kind, hk) {
        (ItemKind::Function, HirItemKind::Function { signature, .. }) => {
            let sig = type_function_signature(hir, items, ctx, module, signature, fuel, issues);
            let _ = table.functions.insert(id, sig);
        },
        (ItemKind::Struct, HirItemKind::Struct { functions, fields, .. }) => {
            let (methods, inits) = type_hir_functions(hir, items, ctx, module, functions, fuel, issues);
            let typed_fields = type_fields(hir, items, ctx, module, fields, fuel, issues);
            let _ = table.structs.insert(
                id,
                TypedStructSignatureData { fields: typed_fields, method_signatures: methods, initializer_signatures: inits },
            );
        },
        (ItemKind::Enum, HirItemKind::Enum { functions, variants, .. }) => {
            let (methods, inits) = type_hir_functions(hir, items, ctx, module, functions, fuel, issues);
            let cases = type_variants(hir, items, ctx, module, variants, fuel, issues);
            let _ = table.enums.insert(
                id,
                TypedEnumSignatureData { case_signatures: cases, method_signatures: methods, initializer_signatures: inits },
            );
        },
        (ItemKind::Protocol, HirItemKind::Protocol { functions, inherited_types, properties, associated_types, .. }) => {
            let (methods, inits) = type_hir_protocol_functions(hir, items, ctx, module, functions, fuel, issues);
            let inherited = type_refs(hir, items, ctx, module, inherited_types, fuel, issues);
            let props = type_properties(hir, items, ctx, module, properties, fuel, issues);
            let assoc = type_assoc(hir, items, ctx, module, associated_types, fuel, issues);
            let _ = table.protocols.insert(
                id,
                TypedProtocolSignatureData {
                    inheritance_types: inherited,
                    properties: props,
                    method_signatures: methods,
                    initializer_signatures: inits,
                    associated_type_bounds: assoc,
                },
            );
        },
        (ItemKind::Scope, _) => {},
        _ => {
            push_unsupported(issues, ctx, "global and HIR item kind mismatch");
        },
    }
    proof {
        assert(issues_view(issues@) =~= issues_view(before) + typed_item_decl(*hir, items@, ctx, *module, kind, *hk).1);
    }
}

/// The item a declaration context's owner names (item 0 for an impl).
pub open spec fn ctx_item(ctx: SigCtx) -> ItemId {
    match ctx.owner {
        DeclarationOwner::Item(id) => id,
        DeclarationOwner::Impl { .. } => ItemId(0),
    }
}

fn find_first_ref(entries: &Vec<(HirItemRef, ItemId)>, id: ItemId) -> (r: Option<HirItemRef>)
    ensures
        r == first_ref(entries@, id),
{
    let mut i: usize = 0;
    proof {
        assert(entries@.skip(0) =~= entries@);
    }
    while i < entries.len()
        invariant
            i <= entries@.len(),
            first_ref(entries@, id) == first_ref(entries@.skip(i as int), id),
        decreases entries@.len() - i,
    {
        proof {
            assert(entries@.skip(i as int)[0] == entries@[i as int]);
            assert(entries@.skip(i as int).drop_first() =~= entries@.skip(i + 1));
        }
        if entries[i].1 == id {
            return Some(entries[i].0);
        }
        i = i + 1;
    }
    None
}

fn type_impl_signature(
    hir: &SemanticHirInput,
    items: &GlobalItemTable,
    ctx: SigCtx,
    module: &HirModule,
    scope: FileId,
    functions: &Vec<HirFunctionDecl>,
    target: HirTypeId,
    conformance: Option<HirTypeId>,
    issues: &mut Vec<SignatureTypingIssue>,
) -> (r: TypedImplSignature)
    ensures
        r@ == typed_impl(*hir, items@, ctx, *module, scope, functions@, target, conformance).0,
        issues_view(final(issues)@) == issues_view(old(issues)@) + typed_impl(*hir, items@, ctx, *module, scope, functions@, target, conformance).1,
{
    let ghost before = issues@;
    let fuel = module.types.len().saturating_add(1);
    let (methods, inits) = type_hir_functions(hir, items, ctx, module, functions, fuel, issues);
    let t = type_ref(hir, items, ctx, module, target, fuel, issues);
    let c = match conformance {
        Some(x) => Some(type_ref(hir, items, ctx, module, x, fuel, issues)),
        None => None,
    };
    proof {
        assert(issues_view(issues@) =~= issues_view(before) + typed_impl(*hir, items@, ctx, *module, scope, functions@, target, conformance).1);
    }
    TypedImplSignature {
        owner: ctx.owner,
        containing_scope_file_id: scope,
        target: t,
        conformance: c,
        method_signatures: methods,
        initializer_signatures: inits,
    }
}

/// The typed signatures of every declaration of the program (see
/// [`signatures_typed`]): functions, structs, enums and protocols of the
/// item table, and the impls of each lowered file.
pub fn type_declaration_signatures(hir_input: &SemanticHirInput, item_table: &GlobalItemTable) -> (r: TypedSignatureTable)
    ensures
        signatures_typed(r, *hir_input, item_table@),
{
    let hir = hir_input;
    let ghost all = item_table@;
    let mut table = TypedSignatureTable::new();
    let mut issues: Vec<SignatureTypingIssue> = Vec::new();
    let gs = item_table.items();
    let refs = hir.item_id_by_hir_item_ref.entries();
    let ghost mut decls: Seq<(ItemId, DeclView)> = seq![];
    let mut i: usize = 0;
    proof {
        assert(all.take(0) =~= Seq::<GlobalItem>::empty());
        assert(issues_view(issues@) =~= Seq::<IssueView>::empty());
    }
    while i < gs.len()
        invariant
            i <= all.len(),
            gs@ == all,
            all == item_table@,
            refs@ == hir.item_id_by_hir_item_ref@,
            decls == decl_fold(*hir, all, all.take(i as int)).0,
            issues_view(issues@) == decl_fold(*hir, all, all.take(i as int)).1,
            kinds_match(table, decls),
            table.impls_by_scope_file_id@.len() == 0,
        decreases all.len() - i,
    {
        proof {
            assert(all.take(i + 1).drop_last() =~= all.take(i as int));
            assert(all.take(i + 1).last() == all[i as int]);
        }
        let g = &gs[i];
        let ctx = SigCtx { owner: DeclarationOwner::Item(g.id), scope: Some(g.containing_scope_file_id), file_id: g.containing_scope_file_id };
        let ghost step = decl_step(*hir, all, *g);
        let ghost t0 = table;
        let ghost is0 = issues@;
        match find_first_ref(refs, g.id) {
            None => {
                push_issue(&mut issues, ctx, SignatureTypingIssueKind::MissingGlobalItemMetadata { item_id: g.id });
                proof {
                    assert(issues_view(issues@) == issues_view(is0) + step.1);
                }
            },
            Some(r) => match hir.hir_modules.get(&r.file_id) {
                None => {
                    push_issue(&mut issues, ctx, SignatureTypingIssueKind::MissingGlobalItemMetadata { item_id: g.id });
                    proof {
                        assert(issues_view(issues@) == issues_view(is0) + step.1);
                    }
                },
                Some(m) => match m.items.get(&r.item_id) {
                    None => {
                        push_issue(&mut issues, ctx, SignatureTypingIssueKind::MissingGlobalItemMetadata { item_id: g.id });
                        proof {
                            assert(issues_view(issues@) == issues_view(is0) + step.1);
                        }
                    },
                    Some(hi) => {
                        let c = SigCtx { owner: ctx.owner, scope: ctx.scope, file_id: r.file_id };
                        proof {
                            assert(step == typed_item_decl(*hir, all, c, *m, g.kind, hi.kind));
                            assert(ctx_item(c) == g.id);
                        }
                        type_item_decl(hir, item_table, c, m, g.kind, &hi.kind, &mut issues, &mut table);
                    },
                },
            },
        }
        proof {
            let nd = match step.0 {
                Some(d) => decls.push((g.id, d)),
                None => decls,
            };
            assert(decl_fold(*hir, all, all.take(i + 1)).1 == decl_fold(*hir, all, all.take(i as int)).1 + step.1);
            assert(nd == decl_fold(*hir, all, all.take(i + 1)).0);
            assert(issues_view(issues@) =~= decl_fold(*hir, all, all.take(i + 1)).1);
            assert forall|k: ItemId, tag: int| #[trigger] last_decl(nd, k, tag) == (if k == g.id {
                match step.0 {
                    Some(d) => if decl_tag(d) == tag { Some(d) } else { last_decl(decls, k, tag) },
                    None => last_decl(decls, k, tag),
                }
            } else {
                last_decl(decls, k, tag)
            }) by {
                match step.0 {
                    Some(d) => {
                        assert(nd.drop_last() =~= decls);
                    },
                    None => {},
                }
            }
            assert(kinds_match(table, nd));
            decls = nd;
        }
        i = i + 1;
    }
    proof {
        assert(all.take(all.len() as int) =~= all);
    }
    let ghost d_issues = issues@;
    let files = &hir.hir_files;
    let ghost fs = files@;
    let ghost mut ies: Seq<(FileId, ImplV)> = seq![];
    let mut j: usize = 0;
    proof {
        assert(fs.take(0) =~= Seq::<HirFile>::empty());
        assert(issues_view(issues@) =~= issues_view(d_issues) + Seq::<IssueView>::empty());
    }
    while j < files.len()
        invariant
            j <= fs.len(),
            fs == files@,
            fs == hir.hir_files@,
            all == item_table@,
            ies == impl_fold(*hir, all, fs.take(j as int)).0,
            issues_view(issues@) == issues_view(d_issues) + impl_fold(*hir, all, fs.take(j as int)).1,
            kinds_match(table, decls),
            impls_match(table.impls_by_scope_file_id, ies),
        decreases fs.len() - j,
    {
        proof {
            assert(fs.take(j + 1).drop_last() =~= fs.take(j as int));
            assert(fs.take(j + 1).last() == fs[j as int]);
        }
        let f = files[j].file_id;
        let ghost ies0 = ies;
        let ghost is0 = issues@;
        match hir.hir_modules.get(&f) {
            None => {},
            Some(m) => {
                let roots = &files[j].root_items;
                let ghost rs = roots@;
                let mut n: usize = 0;
                let mut k: usize = 0;
                proof {
                    assert(rs.take(0) =~= Seq::<HirItemId>::empty());
                    assert(ies0 + Seq::<ImplV>::empty().map_values(|v: ImplV| (f, v)) =~= ies0);
                    assert(issues_view(issues@) =~= issues_view(is0) + Seq::<IssueView>::empty());
                }
                while k < roots.len()
                    invariant
                        k <= rs.len(),
                        rs == roots@,
                        all == item_table@,
                        hir.hir_modules.spec_get(f) == Some(*m),
                        n <= k,
                        n == file_impls(*hir, all, f, *m, rs.take(k as int)).0.len(),
                        ies == ies0 + file_impls(*hir, all, f, *m, rs.take(k as int)).0.map_values(|v: ImplV| (f, v)),
                        issues_view(issues@) == issues_view(is0) + file_impls(*hir, all, f, *m, rs.take(k as int)).1,
                        kinds_match(table, decls),
                        impls_match(table.impls_by_scope_file_id, ies),
                    decreases rs.len() - k,
                {
                    proof {
                        assert(rs.take(k + 1).drop_last() =~= rs.take(k as int));
                        assert(rs.take(k + 1).last() == rs[k as int]);
                    }
                    let ghost prev = file_impls(*hir, all, f, *m, rs.take(k as int));
                    match m.items.get(&roots[k]) {
                        Some(it) => match &it.kind {
                            HirItemKind::Impl { functions, target, conformance } => {
                                let ctx = SigCtx {
                                    owner: DeclarationOwner::Impl { scope_file_id: f, impl_index: n },
                                    scope: Some(f),
                                    file_id: f,
                                };
                                let ghost t0 = table.impls_by_scope_file_id;
                                proof {
                                    assert(m.items.spec_get(rs.take(k + 1).last()) == Some(*it));
                                    assert(prev.0.len() == n);
                                }
                                let imp = type_impl_signature(hir, item_table, ctx, m, f, functions, *target, *conformance, &mut issues);
                                let ghost v = imp@;
                                table.impls_by_scope_file_id.push_value(f, imp);
                                proof {
                                    let nes = ies.push((f, v));
                                    let ctx2 = SigCtx {
                                        owner: DeclarationOwner::Impl { scope_file_id: f, impl_index: prev.0.len() as usize },
                                        scope: Some(f),
                                        file_id: f,
                                    };
                                    assert(ctx2 == ctx);
                                    assert(v == typed_impl(*hir, all, ctx2, *m, f, functions@, *target, *conformance).0);
                                    assert(file_impls(*hir, all, f, *m, rs.take(k + 1)).0 == prev.0.push(v));
                                    assert(nes =~= ies0 + file_impls(*hir, all, f, *m, rs.take(k + 1)).0.map_values(|v: ImplV| (f, v)));
                                    assert(issues_view(issues@) =~= issues_view(is0) + file_impls(*hir, all, f, *m, rs.take(k + 1)).1);
                                    assert forall|g: FileId| #[trigger] impls_of(nes, g) == (if g == f { impls_of(ies, g).push(v) } else { impls_of(ies, g) }) by {
                                        assert(nes.drop_last() =~= ies);
                                    }
                                    assert forall|g: FileId| match #[trigger] table.impls_by_scope_file_id.spec_get(g) {
                                        Some(w) => w@.map_values(|x: TypedImplSignature| x@) == impls_of(nes, g) && impls_of(nes, g).len() > 0,
                                        None => impls_of(nes, g).len() == 0,
                                    } by {
                                        if g == f {
                                            let w = table.impls_by_scope_file_id.spec_get(g)->0;
                                            match t0.spec_get(g) {
                                                Some(w0) => {
                                                    assert(w@ == w0@.push(w@.last()));
                                                    assert(w@.map_values(|x: TypedImplSignature| x@) =~= w0@.map_values(|x: TypedImplSignature| x@).push(v));
                                                },
                                                None => {
                                                    assert(w@.map_values(|x: TypedImplSignature| x@) =~= seq![v]);
                                                    assert(impls_of(ies, g) =~= Seq::<ImplV>::empty());
                                                },
                                            }
                                        } else {
                                            assert(table.impls_by_scope_file_id.spec_get(g) == t0.spec_get(g));
                                        }
                                    }
                                    ies = nes;
                                }
                                n = n + 1;
                            },
                            _ => {},
                        },
                        None => {},
                    }
                    k = k + 1;
                }
                proof {
                    assert(rs.take(rs.len() as int) =~= rs);
                    assert(issues_view(issues@) =~= issues_view(d_issues) + impl_fold(*hir, all, fs.take(j + 1)).1);
                }
            },
        }
        j = j + 1;
    }
    proof {
        assert(fs.take(fs.len() as int) =~= fs);
    }
    table.issues = issues;
    table
}

} // verus!
