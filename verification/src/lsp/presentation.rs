//! How analysis results are shown to the editor: completion item kinds as
//! the protocol numbers them, and hover texts of items and external functions.

use crate::collections::sorted_map::SortedMap;
use crate::collections::text_map::string_texts;
use crate::frontend::ast::Span;
use crate::frontend::hir::{HirExpr, HirExprId, HirModule};
use crate::frontend::resolver::{BodyKey, DeclarationOwner, GlobalItem, ItemKind, LocalId, ResolvedBody, ResolvedLocal};
use crate::frontend::semantic::hir_input::SemanticHirInput;
use crate::frontend::source::FileId;
use crate::midend::type_check::expr_check::BodyExprId;
use crate::midend::type_infer::body_infer::{expr_key, BodyInferenceTable, InferTableView};
use crate::frontend::semantic::analysis::SemanticAnalysis;
use crate::frontend::semantic::definition::{item_type_text, push_item_type_text, SemanticCompletionKind};
use crate::frontend::semantic::item_table::{TypedItemData, TypedItemTable};
use crate::frontend::semantic::types::Type;
use crate::frontend::text::{joined_with, push_joined};
use crate::midend::completion::types::CompletionKind;
use crate::midend::type_check::signatures::TypedFunctionSignature;
use vstd::prelude::*;
use vstd::string::StringExecFns;

verus! {

/// The protocol's completion item kind of a completion kind.
pub open spec fn lsp_completion_kind(kind: CompletionKind) -> i32 {
    match kind {
        CompletionKind::Local => 6,
        CompletionKind::Function => 3,
        CompletionKind::Struct => 22,
        CompletionKind::Enum => 13,
        CompletionKind::EnumVariant => 12,
        CompletionKind::Protocol => 8,
        CompletionKind::Field => 5,
        CompletionKind::Scope => 9,
        CompletionKind::TypeParameter => 14,
        CompletionKind::AssociatedType => 14,
        CompletionKind::Property => 10,
    }
}

/// The protocol's completion item kind of a file-level entry kind.
pub open spec fn lsp_semantic_kind(kind: SemanticCompletionKind) -> i32 {
    match kind {
        SemanticCompletionKind::Local => 6,
        SemanticCompletionKind::ImportScope => 9,
        SemanticCompletionKind::Scope => 9,
        SemanticCompletionKind::ImportFunction => 3,
        SemanticCompletionKind::Function => 3,
        SemanticCompletionKind::ImportStruct => 22,
        SemanticCompletionKind::Struct => 22,
        SemanticCompletionKind::ImportEnum => 13,
        SemanticCompletionKind::Enum => 13,
        SemanticCompletionKind::ImportProtocol => 8,
        SemanticCompletionKind::Protocol => 8,
    }
}

/// The protocol's completion item kind of a completion kind (see [`lsp_completion_kind`]).
pub fn completion_kind_to_lsp(kind: CompletionKind) -> (r: i32)
    ensures
        r == lsp_completion_kind(kind),
{
    match kind {
        CompletionKind::Local => 6,
        CompletionKind::Function => 3,
        CompletionKind::Struct => 22,
        CompletionKind::Enum => 13,
        CompletionKind::EnumVariant => 12,
        CompletionKind::Protocol => 8,
        CompletionKind::Field => 5,
        CompletionKind::Scope => 9,
        CompletionKind::TypeParameter => 14,
        CompletionKind::AssociatedType => 14,
        CompletionKind::Property => 10,
    }
}

/// The protocol's completion item kind of a file-level entry kind (see [`lsp_semantic_kind`]).
pub fn completion_kind_for_semantic_candidate(kind: SemanticCompletionKind) -> (r: i32)
    ensures
        r == lsp_semantic_kind(kind),
{
    match kind {
        SemanticCompletionKind::Local => 6,
        SemanticCompletionKind::ImportScope | SemanticCompletionKind::Scope => 9,
        SemanticCompletionKind::ImportFunction | SemanticCompletionKind::Function => 3,
        SemanticCompletionKind::ImportStruct | SemanticCompletionKind::Struct => 22,
        SemanticCompletionKind::ImportEnum | SemanticCompletionKind::Enum => 13,
        SemanticCompletionKind::ImportProtocol | SemanticCompletionKind::Protocol => 8,
    }
}

/// The word hover texts use for an item kind.
pub open spec fn item_kind_word(kind: ItemKind) -> Seq<char> {
    match kind {
        ItemKind::Scope => "scope"@,
        ItemKind::Function => "function"@,
        ItemKind::Struct => "struct"@,
        ItemKind::Enum => "enum"@,
        ItemKind::Protocol => "protocol"@,
    }
}

/// `(p1, p2, ...) -> r` with the types as completion shows them, `void` for
/// a missing return type.
pub open spec fn hover_signature(params: Seq<Type>, ret: Option<Type>, items: Seq<GlobalItem>) -> Seq<char> {
    "("@ + joined_with(params.map_values(|t: Type| item_type_text(t, items)), ", "@) + ") -> "@ + match ret {
        Some(t) => item_type_text(t, items),
        None => "void"@,
    }
}

/// The hover text of an item: for a function, its kind word, name and
/// signature; else its kind word and full path.
pub open spec fn item_hover_text(item: GlobalItem, typed: TypedItemTable, items: Seq<GlobalItem>) -> Seq<char> {
    if typed.spec_items().contains_key(item.id) && typed.spec_items()[item.id] is Function {
        match typed.spec_items()[item.id] {
            TypedItemData::Function(sig) => item_kind_word(item.kind) + " "@ + item.name@ + hover_signature(
                sig.param_types@,
                sig.return_type,
                items,
            ),
            _ => Seq::empty(),
        }
    } else {
        item_kind_word(item.kind) + " "@ + joined_with(string_texts(item.full_path@), "::"@)
    }
}

/// The hover text of function `path` of external root `root`.
pub open spec fn external_function_hover(
    root: Seq<char>,
    path: Seq<Seq<char>>,
    params: Seq<Type>,
    ret: Option<Type>,
    items: Seq<GlobalItem>,
) -> Seq<char> {
    "external function "@ + root + "::"@ + joined_with(path, "::"@) + hover_signature(params, ret, items)
}

fn push_kind_word(out: &mut String, kind: ItemKind)
    ensures
        final(out)@ == old(out)@ + item_kind_word(kind),
{
    match kind {
        ItemKind::Scope => out.append("scope"),
        ItemKind::Function => out.append("function"),
        ItemKind::Struct => out.append("struct"),
        ItemKind::Enum => out.append("enum"),
        ItemKind::Protocol => out.append("protocol"),
    }
}

fn push_hover_signature(out: &mut String, params: &Vec<Type>, ret: &Option<Type>, items: &Vec<GlobalItem>)
    ensures
        final(out)@ == old(out)@ + hover_signature(params@, *ret, items@),
{
    out.append("(");
    let ghost start = out@;
    let ghost texts = params@.map_values(|t: Type| item_type_text(t, items@));
    let mut i: usize = 0;
    while i < params.len()
        invariant
            i <= params@.len(),
            texts == params@.map_values(|t: Type| item_type_text(t, items@)),
            out@ == start + joined_with(texts.take(i as int), ", "@),
        decreases params@.len() - i,
    {
        if i > 0 {
            out.append(", ");
        }
        push_item_type_text(out, &params[i], items);
        proof {
            let next = texts.take(i + 1);
            assert(next.drop_last() =~= texts.take(i as int));
            assert(next.last() == item_type_text(params@[i as int], items@));
            if i == 0 {
                assert(joined_with(texts.take(0), ", "@) =~= Seq::<char>::empty());
                assert(joined_with(next, ", "@) == next[0]);
            }
            assert(out@ =~= start + joined_with(next, ", "@));
        }
        i = i + 1;
    }
    proof {
        assert(texts.take(params@.len() as int) =~= texts);
    }
    out.append(") -> ");
    match ret {
        Some(t) => push_item_type_text(out, t, items),
        None => out.append("void"),
    }
    proof {
        assert(out@ =~= old(out)@ + hover_signature(params@, *ret, items@));
    }
}

/// The hover text of an item (see [`item_hover_text`]).
pub fn hover_text_for_item(item: &GlobalItem, semantic: &SemanticAnalysis) -> (r: String)
    ensures
        r@ == item_hover_text(*item, semantic.typed_items, semantic.global_items@),
{
    let mut out = String::new();
    push_kind_word(&mut out, item.kind);
    out.append(" ");
    match semantic.typed_items.function(item.id) {
        Some(function) => {
            out.append(item.name.as_str());
            push_hover_signature(&mut out, &function.param_types, &function.return_type, semantic.global_items.items());
        },
        None => push_joined(&mut out, item.full_path.as_slice(), "::"),
    }
    proof {
        assert(out@ =~= item_hover_text(*item, semantic.typed_items, semantic.global_items@));
    }
    out
}

/// The hover text of function `path` of external root `root_name` (see [`external_function_hover`]).
pub fn hover_text_for_external_function(
    root_name: &str,
    path: &[String],
    signature: &TypedFunctionSignature,
    semantic: &SemanticAnalysis,
) -> (r: String)
    ensures
        r@ == external_function_hover(
            root_name@,
            string_texts(path@),
            signature.param_types@,
            signature.return_type,
            semantic.global_items@,
        ),
{
    let mut out = String::new();
    out.append("external function ");
    out.append(root_name);
    out.append("::");
    push_joined(&mut out, path, "::");
    push_hover_signature(&mut out, &signature.param_types, &signature.return_type, semantic.global_items.items());
    proof {
        assert(out@ =~= external_function_hover(
            root_name@,
            string_texts(path@),
            signature.param_types@,
            signature.return_type,
            semantic.global_items@,
        ));
    }
    out
}

/* Inferred types */

/// The type inference gave resolved local `id` of a body, if any.
pub open spec fn inferred_local(inf: InferTableView, owner: DeclarationOwner, body_index: usize, id: LocalId) -> Option<Type> {
    let key = BodyKey { owner, body_index };
    if inf.resolved_locals.contains_key(key) && inf.resolved_locals[key].contains_key(id) {
        Some(inf.resolved_locals[key][id])
    } else {
        None
    }
}

/// Whether `locals` hold a local with id `id`.
pub open spec fn has_local(locals: Seq<ResolvedLocal>, id: LocalId) -> bool {
    exists|i: int| 0 <= i < locals.len() && #[trigger] locals[i].id == id
}

/// The inferred type of local `id` in the first of `bodies` that declares it
/// and for which inference gave it one.
pub open spec fn first_inferred_local(inf: InferTableView, bodies: Seq<ResolvedBody>, id: LocalId) -> Option<Type>
    decreases bodies.len(),
{
    if bodies.len() == 0 {
        None
    } else if has_local(bodies[0].locals@, id) && inferred_local(inf, bodies[0].owner, bodies[0].body_index, id) is Some {
        inferred_local(inf, bodies[0].owner, bodies[0].body_index, id)
    } else {
        first_inferred_local(inf, bodies.drop_first(), id)
    }
}

fn declares_local(locals: &Vec<ResolvedLocal>, id: LocalId) -> (b: bool)
    ensures
        b == has_local(locals@, id),
{
    let mut i: usize = 0;
    while i < locals.len()
        invariant
            i <= locals@.len(),
            forall|j: int| 0 <= j < i ==> locals@[j].id != id,
        decreases locals@.len() - i,
    {
        if locals[i].id == id {
            return true;
        }
        i = i + 1;
    }
    false
}

/// The inferred type of a resolved local (see [`first_inferred_local`]).
pub fn inferred_local_type_for_resolved_local<'a>(
    semantic: &SemanticAnalysis,
    inference: &'a BodyInferenceTable,
    local_id: LocalId,
) -> (r: Option<&'a Type>)
    ensures
        match r {
            Some(t) => first_inferred_local(inference@, semantic.resolved_bodies.bodies@, local_id) == Some(*t),
            None => first_inferred_local(inference@, semantic.resolved_bodies.bodies@, local_id) is None,
        },
{
    let bodies = semantic.resolved_bodies.iter();
    let ghost all = bodies@;
    proof {
        assert(all.skip(0) =~= all);
    }
    let mut i: usize = 0;
    while i < bodies.len()
        invariant
            i <= all.len(),
            all == bodies@,
            all == semantic.resolved_bodies.bodies@,
            first_inferred_local(inference@, all, local_id) == first_inferred_local(inference@, all.skip(i as int), local_id),
        decreases all.len() - i,
    {
        proof {
            assert(all.skip(i as int)[0] == all[i as int]);
            assert(all.skip(i as int).drop_first() =~= all.skip(i + 1));
        }
        let body = &bodies[i];
        if declares_local(&body.locals, local_id) {
            if let Some(ty) = inference.local_type_for_resolved_local(&body.owner, body.body_index, local_id) {
                return Some(ty);
            }
        }
        i = i + 1;
    }
    proof {
        assert(all.skip(i as int).len() == 0);
    }
    None
}

/// The typed expressions of a body under `offset`, in expression id order:
/// the length of each one's span and its inferred type (error types left out).
pub open spec fn typed_exprs_at(
    inf: InferTableView,
    owner: DeclarationOwner,
    body_index: usize,
    exprs: Seq<(HirExprId, HirExpr)>,
    offset: usize,
) -> Seq<(int, Type)>
    decreases exprs.len(),
{
    if exprs.len() == 0 {
        seq![]
    } else {
        let prev = typed_exprs_at(inf, owner, body_index, exprs.drop_last(), offset);
        let (id, e) = exprs.last();
        let sp = e.origin.span;
        let key = expr_key(owner, body_index, id);
        if sp.start <= offset && offset <= sp.end && inf.exprs.contains_key(key) && !(inf.exprs[key] is Error) {
            prev.push((if sp.end >= sp.start { sp.end - sp.start } else { 0 }, inf.exprs[key]))
        } else {
            prev
        }
    }
}

/// The typed expressions under `offset` of the bodies of file `file_id`
/// whose HIR body lies in that file, body by body.
pub open spec fn file_typed_exprs_at(
    inf: InferTableView,
    hir: SemanticHirInput,
    bodies: Seq<ResolvedBody>,
    file_id: FileId,
    offset: usize,
) -> Seq<(int, Type)>
    decreases bodies.len(),
{
    if bodies.len() == 0 {
        seq![]
    } else {
        let b = bodies.last();
        let refs = hir.spec_owner_refs(b.owner);
        let here = if b.containing_scope_file_id == file_id && b.body_index < refs.len() && refs[b.body_index as int].file_id
            == file_id && hir.hir_modules.spec_get(file_id) is Some {
            typed_exprs_at(inf, b.owner, b.body_index, hir.hir_modules.spec_get(file_id)->0.exprs@, offset)
        } else {
            seq![]
        };
        file_typed_exprs_at(inf, hir, bodies.drop_last(), file_id, offset) + here
    }
}

/// The last of the shortest among `cs`.
pub open spec fn shortest_last(best: Option<(int, Type)>, cs: Seq<(int, Type)>) -> Option<(int, Type)>
    decreases cs.len(),
{
    if cs.len() == 0 {
        best
    } else {
        let prev = shortest_last(best, cs.drop_last());
        match prev {
            Some(b) => if cs.last().0 <= b.0 { Some(cs.last()) } else { prev },
            None => Some(cs.last()),
        }
    }
}

/// The hover text of the innermost typed expression under `offset` in file
/// `file_id`: `expr:` and its type as completion shows it; the last one
/// met among equally short ones.
pub open spec fn expression_hover(
    inf: InferTableView,
    hir: SemanticHirInput,
    semantic: SemanticAnalysis,
    file_id: FileId,
    offset: usize,
) -> Option<Seq<char>> {
    match shortest_last(None, file_typed_exprs_at(inf, hir, semantic.resolved_bodies.bodies@, file_id, offset)) {
        Some((_, t)) => Some("expr: "@ + item_type_text(t, semantic.global_items@)),
        None => None,
    }
}

proof fn lemma_shortest_last_concat(b: Option<(int, Type)>, xs: Seq<(int, Type)>, ys: Seq<(int, Type)>)
    ensures
        shortest_last(b, xs + ys) == shortest_last(shortest_last(b, xs), ys),
    decreases ys.len(),
{
    if ys.len() == 0 {
        assert(xs + ys =~= xs);
    } else {
        assert((xs + ys).drop_last() =~= xs + ys.drop_last());
        lemma_shortest_last_concat(b, xs, ys.drop_last());
    }
}

/// Offers the typed expressions of one body under `offset` to `best`.
fn offer_body_exprs(
    inference: &BodyInferenceTable,
    owner: DeclarationOwner,
    body_index: usize,
    module: &HirModule,
    offset: usize,
    best: &mut Option<(usize, Type)>,
)
    ensures
        opt_len_type(*final(best)) == shortest_last(opt_len_type(*old(best)), typed_exprs_at(inference@, owner, body_index, module.exprs@, offset)),
{
    let entries = module.exprs.entries();
    let ghost es = entries@;
    let mut i: usize = 0;
    while i < entries.len()
        invariant
            i <= es.len(),
            es == entries@,
            es == module.exprs@,
            opt_len_type(*best) == shortest_last(opt_len_type(*old(best)), typed_exprs_at(inference@, owner, body_index, es.take(i as int), offset)),
        decreases es.len() - i,
    {
        proof {
            let t = es.take(i + 1);
            assert(t.drop_last() =~= es.take(i as int));
            assert(t.last() == es[i as int]);
        }
        let ghost prev_list = typed_exprs_at(inference@, owner, body_index, es.take(i as int), offset);
        let ghost next_list = typed_exprs_at(inference@, owner, body_index, es.take(i + 1), offset);
        let expr_id = entries[i].0;
        let sp = entries[i].1.origin.span;
        let mut offered = false;
        if sp.start <= offset && offset <= sp.end {
            if let Some(ty) = inference.expr_type_for_hir_expr(&owner, body_index, expr_id) {
                if !ty.is_error() {
                    let span_len = sp.end.saturating_sub(sp.start);
                    let replace = match &*best {
                        Some(existing) => span_len <= existing.0,
                        None => true,
                    };
                    if replace {
                        *best = Some((span_len, ty.clone()));
                    }
                    offered = true;
                    proof {
                        assert(next_list == prev_list.push((span_len as int, *ty)));
                        lemma_shortest_last_concat(opt_len_type(*old(best)), prev_list, seq![(span_len as int, *ty)]);
                        assert(prev_list + seq![(span_len as int, *ty)] =~= next_list);
                        let one = seq![(span_len as int, *ty)];
                        let c = shortest_last(opt_len_type(*old(best)), prev_list);
                        assert(one.drop_last() =~= Seq::<(int, Type)>::empty());
                        assert(shortest_last(c, one.drop_last()) == c);
                        assert(opt_len_type(*best) == shortest_last(c, one));
                    }
                }
            }
        }
        proof {
            if !offered {
                assert(next_list == prev_list);
            }
        }
        i = i + 1;
    }
    proof {
        assert(es.take(es.len() as int) =~= es);
    }
}

/// The view of an optional (length, type) pair.
pub open spec fn opt_len_type(o: Option<(usize, Type)>) -> Option<(int, Type)> {
    match o {
        Some((n, t)) => Some((n as int, t)),
        None => None,
    }
}

/// The hover text of the innermost typed expression under `offset` in file
/// `primary_file_id` (see [`expression_hover`]).
pub fn inferred_expression_hover_text(
    semantic: &SemanticAnalysis,
    hir: &SemanticHirInput,
    inference: &BodyInferenceTable,
    primary_file_id: FileId,
    offset: usize,
) -> (r: Option<String>)
    ensures
        match r {
            Some(s) => expression_hover(inference@, *hir, *semantic, primary_file_id, offset) == Some(s@),
            None => expression_hover(inference@, *hir, *semantic, primary_file_id, offset) is None,
        },
{
    let mut best: Option<(usize, Type)> = None;
    let bodies = semantic.resolved_bodies.iter();
    let ghost all = bodies@;
    let mut bi: usize = 0;
    while bi < bodies.len()
        invariant
            bi <= all.len(),
            all == bodies@,
            all == semantic.resolved_bodies.bodies@,
            opt_len_type(best) == shortest_last(None, file_typed_exprs_at(inference@, *hir, all.take(bi as int), primary_file_id, offset)),
        decreases all.len() - bi,
    {
        let body = &bodies[bi];
        proof {
            let t = all.take(bi + 1);
            assert(t.drop_last() =~= all.take(bi as int));
            assert(t.last() == *body);
        }
        let ghost before = opt_len_type(best);
        let ghost prev_list = file_typed_exprs_at(inference@, *hir, all.take(bi as int), primary_file_id, offset);
        let mut offered = false;
        if body.containing_scope_file_id == primary_file_id {
            if let Some(body_ref) = hir.body_ref(&body.owner, body.body_index) {
                if body_ref.file_id == primary_file_id {
                    if let Some(module) = hir.hir_modules.get(&primary_file_id) {
                        offer_body_exprs(inference, body.owner, body.body_index, module, offset, &mut best);
                        offered = true;
                        proof {
                            lemma_shortest_last_concat(
                                None,
                                prev_list,
                                typed_exprs_at(inference@, body.owner, body.body_index, module.exprs@, offset),
                            );
                        }
                    }
                }
            }
        }
        proof {
            if !offered {
                assert(file_typed_exprs_at(inference@, *hir, all.take(bi + 1), primary_file_id, offset) =~= prev_list);
            }
        }
        bi = bi + 1;
    }
    proof {
        assert(all.take(all.len() as int) =~= all);
    }
    match best {
        Some((_, ty)) => {
            let mut text = String::new();
            text.append("expr: ");
            push_item_type_text(&mut text, &ty, semantic.global_items.items());
            proof {
                assert(text@ =~= "expr: "@ + item_type_text(ty, semantic.global_items@));
            }
            Some(text)
        },
        None => None,
    }
}

} // verus!
