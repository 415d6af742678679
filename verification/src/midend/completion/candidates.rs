//! Completion candidates: the names visible at global scope and after a
//! path `::`, drawn from the item table and the imports, and the members
//! drawn from typed declaration signatures: the associated members of a
//! type (`Type::`), the members of an instance (`value.`) and the cases of
//! an enum.

use crate::collections::sorted_map::SortedMap;
use crate::collections::text_map::string_texts;
use crate::frontend::resolver::{
    first_with_path, GlobalItem, GlobalItemTable, ImportBindingKind, ItemId, ItemKind, ResolvedImportBinding,
    ResolvedImports,
};
use crate::frontend::semantic::definition::{find_item, item_with_id};
use crate::frontend::semantic::external_lookup::ExternalSemanticLookup;
use crate::frontend::source::FileId;
use crate::frontend::text::{joined_with, push_joined};
use crate::frontend::semantic::types::{builtin_text, Mutability, NamedTypeKind, Type};
use crate::frontend::text::{decimal, push_decimal};
use crate::midend::completion::types::{CompletionCandidate, CompletionKind, CompletionMetadata};
use crate::midend::type_check::signatures::{
    TypedEnumCaseSignature, TypedEnumSignatureData, TypedFunctionSignature,
    TypedNamedFunctionSignature, TypedSignatureTable, TypedStructField, TypedStructSignatureData,
};
use vstd::prelude::*;
use vstd::string::StringExecFns;

verus! {

/// How a type is shown in a completion detail: a builtin's name,
/// `NamedType(ItemId(n))`, `*` (after `mut ` for a mutable pointer) before
/// the pointee, `<error>`.
pub open spec fn completion_type_text(t: Type) -> Seq<char>
    decreases t,
{
    match t {
        Type::Builtin(b) => builtin_text(b),
        Type::Named { item_id, .. } => "NamedType(ItemId("@ + decimal(item_id.0 as nat) + "))"@,
        Type::Pointer { pointee, mutability } => (match mutability {
            Mutability::Mut => "mut "@,
            Mutability::Const => Seq::<char>::empty(),
        }) + "*"@ + completion_type_text(*pointee),
        Type::Error => "<error>"@,
    }
}

/// The parts joined with `", "` between neighbours.
pub open spec fn joined(parts: Seq<Seq<char>>) -> Seq<char>
    decreases parts.len(),
{
    if parts.len() == 0 {
        Seq::empty()
    } else if parts.len() == 1 {
        parts[0]
    } else {
        joined(parts.drop_last()) + ", "@ + parts.last()
    }
}

/// The completion text of each type.
pub open spec fn type_texts(types: Seq<Type>) -> Seq<Seq<char>> {
    types.map_values(|t: Type| completion_type_text(t))
}

/// `(p1, p2, ...) -> r`, with `()` for a missing return type.
pub open spec fn signature_text(params: Seq<Type>, ret: Option<Type>) -> Seq<char> {
    "("@ + joined(type_texts(params)) + ") -> "@ + match ret {
        Some(t) => completion_type_text(t),
        None => "()"@,
    }
}

/// The case name, followed by its payload types in brackets when it has any.
pub open spec fn case_text(name: Seq<char>, payloads: Seq<Type>) -> Seq<char> {
    if payloads.len() == 0 {
        name
    } else {
        name + "("@ + joined(type_texts(payloads)) + ")"@
    }
}

/// A completion candidate as plain values.
pub struct CandidateView {
    pub label: Seq<char>,
    pub kind: CompletionKind,
    pub detail: Option<Seq<char>>,
    pub documentation: Option<Seq<char>>,
    pub item_id: Option<ItemId>,
    pub deprecated: bool,
    pub ty: Option<Type>,
}

/// The characters of an optional string.
pub open spec fn opt_text(s: Option<String>) -> Option<Seq<char>> {
    match s {
        Some(s) => Some(s@),
        None => None,
    }
}

impl View for CompletionCandidate {
    type V = CandidateView;

    open spec fn view(&self) -> CandidateView {
        CandidateView {
            label: self.label@,
            kind: self.kind,
            detail: opt_text(self.detail),
            documentation: opt_text(self.documentation),
            item_id: self.metadata.item_id,
            deprecated: self.metadata.deprecated,
            ty: self.metadata.ty,
        }
    }
}

/// The views of a list of candidates.
pub open spec fn candidate_views(v: Seq<CompletionCandidate>) -> Seq<CandidateView> {
    v.map_values(|c: CompletionCandidate| c@)
}

/// A candidate of the given label, kind and detail that belongs to item `id`,
/// with no documentation, not deprecated and with no type.
pub open spec fn item_candidate(id: ItemId, label: Seq<char>, kind: CompletionKind, detail: Seq<char>) -> CandidateView {
    CandidateView {
        label,
        kind,
        detail: Some(detail),
        documentation: None,
        item_id: Some(id),
        deprecated: false,
        ty: None,
    }
}

/// The candidate `init` for an initializer of item `id`.
pub open spec fn init_candidate(id: ItemId, sig: TypedFunctionSignature) -> CandidateView {
    item_candidate(id, "init"@, CompletionKind::Function, signature_text(sig.param_types@, sig.return_type))
}

/// The candidate for a method of item `id`.
pub open spec fn method_candidate(id: ItemId, m: TypedNamedFunctionSignature) -> CandidateView {
    item_candidate(id, m.name@, CompletionKind::Function, signature_text(m.signature.param_types@, m.signature.return_type))
}

/// The candidate for a case of enum `id`.
pub open spec fn case_candidate(id: ItemId, c: TypedEnumCaseSignature) -> CandidateView {
    item_candidate(id, c.name@, CompletionKind::EnumVariant, case_text(c.name@, c.payload_types@))
}

/// The candidate for a field of struct `id`, which carries the field's type.
pub open spec fn field_candidate(id: ItemId, f: TypedStructField) -> CandidateView {
    CandidateView {
        label: f.name@,
        kind: CompletionKind::Field,
        detail: Some(completion_type_text(f.ty)),
        documentation: None,
        item_id: Some(id),
        deprecated: false,
        ty: Some(f.ty),
    }
}

pub open spec fn init_candidates(id: ItemId, sigs: Seq<TypedFunctionSignature>) -> Seq<CandidateView> {
    sigs.map_values(|s: TypedFunctionSignature| init_candidate(id, s))
}

pub open spec fn method_candidates(id: ItemId, ms: Seq<TypedNamedFunctionSignature>) -> Seq<CandidateView> {
    ms.map_values(|m: TypedNamedFunctionSignature| method_candidate(id, m))
}

pub open spec fn case_candidates(id: ItemId, cs: Seq<TypedEnumCaseSignature>) -> Seq<CandidateView> {
    cs.map_values(|c: TypedEnumCaseSignature| case_candidate(id, c))
}

pub open spec fn field_candidates(id: ItemId, fs: Seq<TypedStructField>) -> Seq<CandidateView> {
    fs.map_values(|f: TypedStructField| field_candidate(id, f))
}

/// The candidates after `Type::` on a struct: its initializers, then its methods.
pub open spec fn struct_associated(id: ItemId, s: Option<TypedStructSignatureData>) -> Seq<CandidateView> {
    match s {
        Some(d) => init_candidates(id, d.initializer_signatures@) + method_candidates(id, d.method_signatures@),
        None => Seq::empty(),
    }
}

/// The candidates of an enum: its cases, then its methods.
pub open spec fn enum_members(id: ItemId, e: Option<TypedEnumSignatureData>) -> Seq<CandidateView> {
    match e {
        Some(d) => case_candidates(id, d.case_signatures@) + method_candidates(id, d.method_signatures@),
        None => Seq::empty(),
    }
}

/// The candidates after `value.` on a struct: its fields, then its methods.
pub open spec fn struct_members(id: ItemId, s: Option<TypedStructSignatureData>) -> Seq<CandidateView> {
    match s {
        Some(d) => field_candidates(id, d.fields@) + method_candidates(id, d.method_signatures@),
        None => Seq::empty(),
    }
}

/// What `complete_associated_access` offers on `base_type`.
pub open spec fn associated_access_candidates(signatures: TypedSignatureTable, base_type: Type) -> Seq<CandidateView> {
    match base_type {
        Type::Named { item_id, .. } => struct_associated(item_id, signatures.structs.spec_get(item_id))
            + enum_members(item_id, signatures.enums.spec_get(item_id)),
        _ => Seq::empty(),
    }
}

/// What `complete_member_access` offers on `receiver_type`.
pub open spec fn member_access_candidates(signatures: TypedSignatureTable, receiver_type: Type) -> Seq<CandidateView> {
    match receiver_type {
        Type::Named { item_id, .. } => struct_members(item_id, signatures.structs.spec_get(item_id))
            + enum_members(item_id, signatures.enums.spec_get(item_id)),
        _ => Seq::empty(),
    }
}

/// What `complete_enum_cases` offers on `enum_type`.
pub open spec fn enum_case_candidates(signatures: TypedSignatureTable, enum_type: Type) -> Seq<CandidateView> {
    match enum_type {
        Type::Named { item_id, .. } => match signatures.enums.spec_get(item_id) {
            Some(d) => case_candidates(item_id, d.case_signatures@),
            None => Seq::empty(),
        },
        _ => Seq::empty(),
    }
}

/// Appends the completion text of `ty`.
fn push_type_text(out: &mut String, ty: &Type)
    ensures
        final(out)@ == old(out)@ + completion_type_text(*ty),
    decreases ty,
{
    match ty {
        Type::Builtin(b) => out.append(b.name()),
        Type::Named { item_id, .. } => {
            out.append("NamedType(ItemId(");
            push_decimal(out, item_id.0);
            out.append("))");
        },
        Type::Pointer { pointee, mutability } => {
            match mutability {
                Mutability::Mut => out.append("mut "),
                Mutability::Const => {},
            }
            out.append("*");
            push_type_text(out, &**pointee);
        },
        Type::Error => out.append("<error>"),
    }
    proof {
        assert(out@ =~= old(out)@ + completion_type_text(*ty));
    }
}

/// The completion text of a type.
pub fn format_type(ty: &Type) -> (r: String)
    ensures
        r@ == completion_type_text(*ty),
{
    let mut out = String::new();
    push_type_text(&mut out, ty);
    proof {
        assert(out@ =~= completion_type_text(*ty));
    }
    out
}

proof fn lemma_joined_step(parts: Seq<Seq<char>>, i: int)
    requires
        0 <= i < parts.len(),
    ensures
        joined(parts.take(i + 1)) == joined(parts.take(i)) + (if i == 0 { Seq::<char>::empty() } else { ", "@ }) + parts[i],
{
    let next = parts.take(i + 1);
    assert(next.drop_last() =~= parts.take(i));
    assert(next.last() == parts[i]);
    if i == 0 {
        assert(joined(parts.take(0)) =~= Seq::<char>::empty());
        assert(joined(next) == next[0]);
        assert(joined(next) =~= joined(parts.take(i)) + Seq::<char>::empty() + parts[i]);
    }
}

/// Appends the completion texts of `types`, joined by `", "`.
fn push_joined_types(out: &mut String, types: &Vec<Type>)
    ensures
        final(out)@ == old(out)@ + joined(type_texts(types@)),
{
    let ghost start = out@;
    let ghost texts = type_texts(types@);
    let mut i: usize = 0;
    while i < types.len()
        invariant
            i <= types@.len(),
            texts == type_texts(types@),
            out@ == start + joined(texts.take(i as int)),
        decreases types@.len() - i,
    {
        let ghost before = out@;
        if i > 0 {
            out.append(", ");
        }
        push_type_text(out, &types[i]);
        proof {
            lemma_joined_step(texts, i as int);
            assert(texts[i as int] == completion_type_text(types@[i as int]));
            assert(out@ =~= start + joined(texts.take(i + 1)));
        }
        i = i + 1;
    }
    proof {
        assert(texts.take(types@.len() as int) =~= texts);
    }
}

/// The completion detail of a function signature (see [`signature_text`]).
pub fn format_function_signature(sig: &TypedFunctionSignature) -> (r: String)
    ensures
        r@ == signature_text(sig.param_types@, sig.return_type),
{
    let mut out = String::new();
    out.append("(");
    push_joined_types(&mut out, &sig.param_types);
    out.append(") -> ");
    match &sig.return_type {
        Some(t) => push_type_text(&mut out, t),
        None => out.append("()"),
    }
    proof {
        assert(out@ =~= signature_text(sig.param_types@, sig.return_type));
    }
    out
}

/// The completion detail of an enum case (see [`case_text`]).
pub fn format_enum_variant_signature(variant: &TypedEnumCaseSignature) -> (r: String)
    ensures
        r@ == case_text(variant.name@, variant.payload_types@),
{
    if variant.payload_types.len() == 0 {
        variant.name.clone()
    } else {
        let mut out = variant.name.clone();
        out.append("(");
        push_joined_types(&mut out, &variant.payload_types);
        out.append(")");
        proof {
            assert(out@ =~= case_text(variant.name@, variant.payload_types@));
        }
        out
    }
}

/// A candidate of item `id` with the given label, kind and detail.
fn make_item_candidate(id: ItemId, label: String, kind: CompletionKind, detail: String) -> (c: CompletionCandidate)
    ensures
        c@ == item_candidate(id, label@, kind, detail@),
{
    CompletionCandidate {
        label,
        kind,
        detail: Some(detail),
        documentation: None,
        metadata: CompletionMetadata { item_id: Some(id), deprecated: false, ty: None },
    }
}

/// Appends an `init` candidate for each initializer.
fn push_init_candidates(out: &mut Vec<CompletionCandidate>, id: ItemId, sigs: &Vec<TypedFunctionSignature>)
    ensures
        candidate_views(final(out)@) == candidate_views(old(out)@) + init_candidates(id, sigs@),
{
    let ghost start = candidate_views(out@);
    let mut i: usize = 0;
    while i < sigs.len()
        invariant
            i <= sigs@.len(),
            candidate_views(out@) == start + init_candidates(id, sigs@).take(i as int),
        decreases sigs@.len() - i,
    {
        let ghost before = out@;
        let c = make_item_candidate(id, "init".to_owned(), CompletionKind::Function, format_function_signature(&sigs[i]));
        proof {
            reveal_strlit("init");
        }
        out.push(c);
        proof {
            assert(candidate_views(out@) =~= candidate_views(before).push(c@));
            assert(init_candidates(id, sigs@).take(i + 1) =~= init_candidates(id, sigs@).take(i as int).push(init_candidate(id, sigs@[i as int])));
        }
        i = i + 1;
    }
    proof {
        assert(init_candidates(id, sigs@).take(sigs@.len() as int) =~= init_candidates(id, sigs@));
    }
}

/// Appends a candidate for each method.
fn push_method_candidates(out: &mut Vec<CompletionCandidate>, id: ItemId, ms: &Vec<TypedNamedFunctionSignature>)
    ensures
        candidate_views(final(out)@) == candidate_views(old(out)@) + method_candidates(id, ms@),
{
    let ghost start = candidate_views(out@);
    let mut i: usize = 0;
    while i < ms.len()
        invariant
            i <= ms@.len(),
            candidate_views(out@) == start + method_candidates(id, ms@).take(i as int),
        decreases ms@.len() - i,
    {
        let ghost before = out@;
        let c = make_item_candidate(id, ms[i].name.clone(), CompletionKind::Function, format_function_signature(&ms[i].signature));
        out.push(c);
        proof {
            assert(candidate_views(out@) =~= candidate_views(before).push(c@));
            assert(method_candidates(id, ms@).take(i + 1) =~= method_candidates(id, ms@).take(i as int).push(method_candidate(id, ms@[i as int])));
        }
        i = i + 1;
    }
    proof {
        assert(method_candidates(id, ms@).take(ms@.len() as int) =~= method_candidates(id, ms@));
    }
}

/// Appends a candidate for each enum case.
fn push_case_candidates(out: &mut Vec<CompletionCandidate>, id: ItemId, cs: &Vec<TypedEnumCaseSignature>)
    ensures
        candidate_views(final(out)@) == candidate_views(old(out)@) + case_candidates(id, cs@),
{
    let ghost start = candidate_views(out@);
    let mut i: usize = 0;
    while i < cs.len()
        invariant
            i <= cs@.len(),
            candidate_views(out@) == start + case_candidates(id, cs@).take(i as int),
        decreases cs@.len() - i,
    {
        let ghost before = out@;
        let c = make_item_candidate(id, cs[i].name.clone(), CompletionKind::EnumVariant, format_enum_variant_signature(&cs[i]));
        out.push(c);
        proof {
            assert(candidate_views(out@) =~= candidate_views(before).push(c@));
            assert(case_candidates(id, cs@).take(i + 1) =~= case_candidates(id, cs@).take(i as int).push(case_candidate(id, cs@[i as int])));
        }
        i = i + 1;
    }
    proof {
        assert(case_candidates(id, cs@).take(cs@.len() as int) =~= case_candidates(id, cs@));
    }
}

/// Appends a candidate for each struct field.
fn push_field_candidates(out: &mut Vec<CompletionCandidate>, id: ItemId, fs: &Vec<TypedStructField>)
    ensures
        candidate_views(final(out)@) == candidate_views(old(out)@) + field_candidates(id, fs@),
{
    let ghost start = candidate_views(out@);
    let mut i: usize = 0;
    while i < fs.len()
        invariant
            i <= fs@.len(),
            candidate_views(out@) == start + field_candidates(id, fs@).take(i as int),
        decreases fs@.len() - i,
    {
        let ghost before = out@;
        let c = CompletionCandidate {
            label: fs[i].name.clone(),
            kind: CompletionKind::Field,
            detail: Some(format_type(&fs[i].ty)),
            documentation: None,
            metadata: CompletionMetadata { item_id: Some(id), deprecated: false, ty: Some(fs[i].ty.clone()) },
        };
        out.push(c);
        proof {
            assert(c@ == field_candidate(id, fs@[i as int]));
            assert(candidate_views(out@) =~= candidate_views(before).push(c@));
            assert(field_candidates(id, fs@).take(i + 1) =~= field_candidates(id, fs@).take(i as int).push(field_candidate(id, fs@[i as int])));
        }
        i = i + 1;
    }
    proof {
        assert(field_candidates(id, fs@).take(fs@.len() as int) =~= field_candidates(id, fs@));
    }
}

/// Appends the cases and then the methods of enum `id`, when it has enum signature data.
fn push_enum_members(out: &mut Vec<CompletionCandidate>, signatures: &TypedSignatureTable, id: ItemId)
    ensures
        candidate_views(final(out)@) == candidate_views(old(out)@) + enum_members(id, signatures.enums.spec_get(id)),
{
    match signatures.enum_data(id) {
        Some(data) => {
            push_case_candidates(out, id, &data.case_signatures);
            push_method_candidates(out, id, &data.method_signatures);
            proof {
                assert(candidate_views(out@) =~= candidate_views(old(out)@) + enum_members(id, signatures.enums.spec_get(id)));
            }
        },
        None => {
            proof {
                assert(candidate_views(out@) =~= candidate_views(old(out)@) + enum_members(id, signatures.enums.spec_get(id)));
            }
        },
    }
}

/// The associated members offered after `Type::`: for a nominal type, a
/// struct's initializers (each labelled `init`) and methods, then an enum's
/// cases and methods; nothing for any other type.
pub fn complete_associated_access(signatures: &TypedSignatureTable, base_type: &Type) -> (r: Vec<CompletionCandidate>)
    ensures
        candidate_views(r@) == associated_access_candidates(*signatures, *base_type),
{
    let mut out: Vec<CompletionCandidate> = Vec::new();
    match base_type {
        Type::Named { item_id, .. } => {
            let id = *item_id;
            match signatures.struct_data(id) {
                Some(data) => {
                    push_init_candidates(&mut out, id, &data.initializer_signatures);
                    push_method_candidates(&mut out, id, &data.method_signatures);
                },
                None => {},
            }
            let ghost mid = candidate_views(out@);
            proof {
                assert(mid =~= struct_associated(id, signatures.structs.spec_get(id)));
            }
            push_enum_members(&mut out, signatures, id);
        },
        _ => {},
    }
    proof {
        assert(candidate_views(out@) =~= associated_access_candidates(*signatures, *base_type));
    }
    out
}

/// The instance members offered after `value.`: for a nominal type, a
/// struct's fields and methods, then an enum's cases and methods; nothing for
/// any other type.
pub fn complete_member_access(signatures: &TypedSignatureTable, receiver_type: &Type) -> (r: Vec<CompletionCandidate>)
    ensures
        candidate_views(r@) == member_access_candidates(*signatures, *receiver_type),
{
    let mut out: Vec<CompletionCandidate> = Vec::new();
    match receiver_type {
        Type::Named { item_id, .. } => {
            let id = *item_id;
            match signatures.struct_data(id) {
                Some(data) => {
                    push_field_candidates(&mut out, id, &data.fields);
                    push_method_candidates(&mut out, id, &data.method_signatures);
                },
                None => {},
            }
            let ghost mid = candidate_views(out@);
            proof {
                assert(mid =~= struct_members(id, signatures.structs.spec_get(id)));
            }
            push_enum_members(&mut out, signatures, id);
        },
        _ => {},
    }
    proof {
        assert(candidate_views(out@) =~= member_access_candidates(*signatures, *receiver_type));
    }
    out
}

/// The cases of the enum named by `enum_type`; nothing when it is not a
/// nominal type with enum signature data.
pub fn complete_enum_cases(signatures: &TypedSignatureTable, enum_type: &Type) -> (r: Vec<CompletionCandidate>)
    ensures
        candidate_views(r@) == enum_case_candidates(*signatures, *enum_type),
{
    let mut out: Vec<CompletionCandidate> = Vec::new();
    match enum_type {
        Type::Named { item_id, .. } => {
            match signatures.enum_data(*item_id) {
                Some(data) => push_case_candidates(&mut out, *item_id, &data.case_signatures),
                None => {},
            }
        },
        _ => {},
    }
    proof {
        assert(candidate_views(out@) =~= enum_case_candidates(*signatures, *enum_type));
    }
    out
}

/* Global scope and paths */

/// The completion kind of an import binding.
pub open spec fn import_completion_kind(k: ImportBindingKind) -> CompletionKind {
    match k {
        ImportBindingKind::Scope => CompletionKind::Scope,
        ImportBindingKind::Symbol(ItemKind::Function) => CompletionKind::Function,
        ImportBindingKind::Symbol(ItemKind::Struct) => CompletionKind::Struct,
        ImportBindingKind::Symbol(ItemKind::Enum) => CompletionKind::Enum,
        ImportBindingKind::Symbol(ItemKind::Protocol) => CompletionKind::Protocol,
        ImportBindingKind::Symbol(ItemKind::Scope) => CompletionKind::Scope,
    }
}

/// The completion kind of an item.
pub open spec fn item_completion_kind(k: ItemKind) -> CompletionKind {
    match k {
        ItemKind::Scope => CompletionKind::Scope,
        ItemKind::Function => CompletionKind::Function,
        ItemKind::Struct => CompletionKind::Struct,
        ItemKind::Enum => CompletionKind::Enum,
        ItemKind::Protocol => CompletionKind::Protocol,
    }
}

/// A candidate with a detail and no item, documentation or type.
pub open spec fn plain_candidate(label: Seq<char>, kind: CompletionKind, detail: Seq<char>) -> CandidateView {
    CandidateView { label, kind, detail: Some(detail), documentation: None, item_id: None, deprecated: false, ty: None }
}

/// The candidate of an import binding: its local name, `import` and its target path.
pub open spec fn import_binding_candidate(b: ResolvedImportBinding) -> CandidateView {
    plain_candidate(b.local_name@, import_completion_kind(b.kind), "import "@ + joined_with(string_texts(b.target_path@), "::"@))
}

/// The candidate of an item: its name and full path.
pub open spec fn global_item_candidate(g: GlobalItem) -> CandidateView {
    item_candidate(g.id, g.name@, item_completion_kind(g.kind), joined_with(string_texts(g.full_path@), "::"@))
}

/// The import bindings of file `file_id`, in name order.
pub open spec fn file_bindings(imports: SortedMap<FileId, ResolvedImports>, file_id: FileId) -> Seq<ResolvedImportBinding> {
    match imports.spec_get(file_id) {
        Some(f) => f.bindings.spec_entries().map_values(|e: (String, ResolvedImportBinding)| e.1),
        None => seq![],
    }
}

/// The items of `items` declared in the scope of file `f`, in order.
pub open spec fn scope_items(items: Seq<GlobalItem>, f: FileId) -> Seq<GlobalItem>
    decreases items.len(),
{
    if items.len() == 0 {
        seq![]
    } else if items.last().containing_scope_file_id == f {
        scope_items(items.drop_last(), f).push(items.last())
    } else {
        scope_items(items.drop_last(), f)
    }
}

/// The scopes among `items`.
pub open spec fn scopes_only(items: Seq<GlobalItem>) -> Seq<GlobalItem>
    decreases items.len(),
{
    if items.len() == 0 {
        seq![]
    } else if items.last().kind == ItemKind::Scope {
        scopes_only(items.drop_last()).push(items.last())
    } else {
        scopes_only(items.drop_last())
    }
}

pub open spec fn binding_candidates(bs: Seq<ResolvedImportBinding>) -> Seq<CandidateView> {
    bs.map_values(|b: ResolvedImportBinding| import_binding_candidate(b))
}

pub open spec fn item_candidates(gs: Seq<GlobalItem>) -> Seq<CandidateView> {
    gs.map_values(|g: GlobalItem| global_item_candidate(g))
}

/// What `complete_global` offers in file `file_id`: its imports, then the items of its scope.
pub open spec fn global_candidates(items: Seq<GlobalItem>, imports: SortedMap<FileId, ResolvedImports>, file_id: FileId) -> Seq<CandidateView> {
    binding_candidates(file_bindings(imports, file_id)) + item_candidates(scope_items(items, file_id))
}

/// The candidate of a scope import after `::`: an extern library, or an imported scope.
pub open spec fn scope_import_candidate(ext: ExternalSemanticLookup, b: ResolvedImportBinding) -> CandidateView {
    if ext.spec_is_library(b.local_name@) {
        plain_candidate(b.local_name@, CompletionKind::Scope, "extern library "@ + b.local_name@)
    } else {
        plain_candidate(b.local_name@, CompletionKind::Scope, "import "@ + joined_with(string_texts(b.target_path@), "::"@))
    }
}

/// The candidates of the scope imports among `bs`, in order.
pub open spec fn scope_import_candidates(ext: ExternalSemanticLookup, bs: Seq<ResolvedImportBinding>) -> Seq<CandidateView>
    decreases bs.len(),
{
    if bs.len() == 0 {
        seq![]
    } else if bs.last().kind == ImportBindingKind::Scope {
        scope_import_candidates(ext, bs.drop_last()).push(scope_import_candidate(ext, bs.last()))
    } else {
        scope_import_candidates(ext, bs.drop_last())
    }
}

/// What a path `::` continuing the scope with path `path` offers: the items
/// of that scope's file, when the first item with that path is a scope.
pub open spec fn scope_children(items: Seq<GlobalItem>, path: Seq<Seq<char>>) -> Seq<CandidateView> {
    match first_with_path(items, path) {
        Some(i) => if items[i].kind == ItemKind::Scope {
            item_candidates(scope_items(items, items[i].defining_file_id))
        } else {
            seq![]
        },
        None => seq![],
    }
}

/// What `complete_path_access` offers: after a known item, the members of
/// the scope with that item's path; at the start of a path, `super`, `root`,
/// the scope imports of the file and the scopes of its scope.
pub open spec fn path_access_candidates(
    items: Seq<GlobalItem>,
    imports: SortedMap<FileId, ResolvedImports>,
    ext: ExternalSemanticLookup,
    file_id: FileId,
    scope_item: Option<ItemId>,
) -> Seq<CandidateView> {
    match scope_item {
        Some(id) => match item_with_id(items, id) {
            Some(g) => scope_children(items, string_texts(g.full_path@)),
            None => seq![],
        },
        None => seq![
            plain_candidate("super"@, CompletionKind::Scope, "parent scope"@),
            plain_candidate("root"@, CompletionKind::Scope, "project root"@),
        ] + scope_import_candidates(ext, file_bindings(imports, file_id)) + item_candidates(
            scopes_only(scope_items(items, file_id)),
        ),
    }
}

fn completion_kind_of_import(k: ImportBindingKind) -> (r: CompletionKind)
    ensures
        r == import_completion_kind(k),
{
    match k {
        ImportBindingKind::Scope => CompletionKind::Scope,
        ImportBindingKind::Symbol(ItemKind::Function) => CompletionKind::Function,
        ImportBindingKind::Symbol(ItemKind::Struct) => CompletionKind::Struct,
        ImportBindingKind::Symbol(ItemKind::Enum) => CompletionKind::Enum,
        ImportBindingKind::Symbol(ItemKind::Protocol) => CompletionKind::Protocol,
        ImportBindingKind::Symbol(ItemKind::Scope) => CompletionKind::Scope,
    }
}

fn completion_kind_of_item(k: ItemKind) -> (r: CompletionKind)
    ensures
        r == item_completion_kind(k),
{
    match k {
        ItemKind::Scope => CompletionKind::Scope,
        ItemKind::Function => CompletionKind::Function,
        ItemKind::Struct => CompletionKind::Struct,
        ItemKind::Enum => CompletionKind::Enum,
        ItemKind::Protocol => CompletionKind::Protocol,
    }
}

fn make_plain_candidate(label: String, kind: CompletionKind, detail: String) -> (c: CompletionCandidate)
    ensures
        c@ == plain_candidate(label@, kind, detail@),
{
    CompletionCandidate {
        label,
        kind,
        detail: Some(detail),
        documentation: None,
        metadata: CompletionMetadata { item_id: None, deprecated: false, ty: None },
    }
}

fn import_detail(b: &ResolvedImportBinding) -> (r: String)
    ensures
        r@ == "import "@ + joined_with(string_texts(b.target_path@), "::"@),
{
    let mut d = String::new();
    d.append("import ");
    push_joined(&mut d, b.target_path.as_slice(), "::");
    proof {
        assert(d@ =~= "import "@ + joined_with(string_texts(b.target_path@), "::"@));
    }
    d
}

fn global_item_entry(g: &GlobalItem) -> (c: CompletionCandidate)
    ensures
        c@ == global_item_candidate(*g),
{
    let mut d = String::new();
    push_joined(&mut d, g.full_path.as_slice(), "::");
    proof {
        assert(d@ =~= joined_with(string_texts(g.full_path@), "::"@));
    }
    make_item_candidate(g.id, g.name.clone(), completion_kind_of_item(g.kind), d)
}

/// Appends the candidates of the items of `items` declared in the scope of
/// `f` (only the scopes among them when `scopes` is set).
fn push_scope_items(out: &mut Vec<CompletionCandidate>, items: &Vec<GlobalItem>, f: FileId, scopes: bool)
    ensures
        candidate_views(final(out)@) == candidate_views(old(out)@) + item_candidates(
            if scopes { scopes_only(scope_items(items@, f)) } else { scope_items(items@, f) },
        ),
{
    let ghost start = candidate_views(out@);
    let mut i: usize = 0;
    while i < items.len()
        invariant
            i <= items@.len(),
            candidate_views(out@) == start + item_candidates(
                if scopes { scopes_only(scope_items(items@.take(i as int), f)) } else { scope_items(items@.take(i as int), f) },
            ),
        decreases items@.len() - i,
    {
        let ghost before = out@;
        let ghost pre = items@.take(i as int);
        let ghost t = items@.take(i + 1);
        proof {
            assert(t.drop_last() =~= pre);
            assert(t.last() == items@[i as int]);
        }
        let g = &items[i];
        if g.containing_scope_file_id == f && (!scopes || g.kind == ItemKind::Scope) {
            let c = global_item_entry(g);
            out.push(c);
            proof {
                assert(candidate_views(out@) =~= candidate_views(before).push(c@));
                let st = scope_items(t, f);
                assert(st == scope_items(pre, f).push(*g));
                assert(st.drop_last() =~= scope_items(pre, f));
                assert(st.last() == *g);
                if scopes {
                    assert(scopes_only(scope_items(t, f)) =~= scopes_only(scope_items(pre, f)).push(*g));
                    assert(item_candidates(scopes_only(scope_items(t, f))) =~= item_candidates(
                        scopes_only(scope_items(pre, f)),
                    ).push(c@));
                } else {
                    assert(item_candidates(scope_items(t, f)) =~= item_candidates(scope_items(pre, f)).push(c@));
                }
            }
        } else {
            proof {
                if g.containing_scope_file_id == f {
                    let st = scope_items(t, f);
                    assert(st == scope_items(pre, f).push(*g));
                    assert(st.drop_last() =~= scope_items(pre, f));
                    assert(st.last() == *g);
                    assert(scopes_only(scope_items(t, f)) =~= scopes_only(scope_items(pre, f)));
                }
            }
        }
        i = i + 1;
    }
    proof {
        assert(items@.take(items@.len() as int) =~= items@);
    }
}

/// Appends the candidates of the import bindings of file `file_id`; with
/// an external lookup, only those of the scope imports, described against it.
fn push_bindings(
    out: &mut Vec<CompletionCandidate>,
    imports: &SortedMap<FileId, ResolvedImports>,
    scope_ext: Option<&ExternalSemanticLookup>,
    file_id: FileId,
)
    ensures
        candidate_views(final(out)@) == candidate_views(old(out)@) + match scope_ext {
            Some(ext) => scope_import_candidates(*ext, file_bindings(*imports, file_id)),
            None => binding_candidates(file_bindings(*imports, file_id)),
        },
{
    let ghost start = candidate_views(out@);
    match imports.get(&file_id) {
        Some(file_imports) => {
            let entries = file_imports.bindings.entries();
            let ghost bs = file_bindings(*imports, file_id);
            let mut i: usize = 0;
            while i < entries.len()
                invariant
                    i <= entries@.len(),
                    bs == entries@.map_values(|e: (String, ResolvedImportBinding)| e.1),
                    bs == file_bindings(*imports, file_id),
                    candidate_views(out@) == start + match scope_ext {
                        Some(ext) => scope_import_candidates(*ext, bs.take(i as int)),
                        None => binding_candidates(bs.take(i as int)),
                    },
                decreases entries@.len() - i,
            {
                let ghost before = out@;
                let ghost t = bs.take(i + 1);
                let b = &entries[i].1;
                proof {
                    assert(t.drop_last() =~= bs.take(i as int));
                    assert(t.last() == *b);
                }
                match scope_ext {
                    None => {
                        let c = make_plain_candidate(b.local_name.clone(), completion_kind_of_import(b.kind), import_detail(b));
                        out.push(c);
                        proof {
                            assert(candidate_views(out@) =~= candidate_views(before).push(c@));
                            assert(binding_candidates(t) =~= binding_candidates(bs.take(i as int)).push(c@));
                        }
                    },
                    Some(ext) => {
                        if b.kind == ImportBindingKind::Scope {
                            let detail = if ext.is_extern_library(b.local_name.as_str()) {
                                let mut d = String::new();
                                d.append("extern library ");
                                d.append(b.local_name.as_str());
                                d
                            } else {
                                import_detail(b)
                            };
                            let c = make_plain_candidate(b.local_name.clone(), CompletionKind::Scope, detail);
                            out.push(c);
                            proof {
                                assert(c@ == scope_import_candidate(*ext, *b));
                                assert(candidate_views(out@) =~= candidate_views(before).push(c@));
                            }
                        }
                    },
                }
                i = i + 1;
            }
            proof {
                assert(bs.take(entries@.len() as int) =~= bs);
            }
        },
        None => {
            proof {
                assert(candidate_views(out@) =~= start + match scope_ext {
                    Some(ext) => scope_import_candidates(*ext, file_bindings(*imports, file_id)),
                    None => binding_candidates(file_bindings(*imports, file_id)),
                });
            }
        },
    }
}

/// The names offered at global scope in file `file_id`: the file's imports
/// (`import` and the target path), then the items of its scope (with their
/// full path and item id).
pub fn complete_global(global_items: &GlobalItemTable, imports: &SortedMap<FileId, ResolvedImports>, file_id: FileId) -> (r: Vec<CompletionCandidate>)
    ensures
        candidate_views(r@) == global_candidates(global_items@, *imports, file_id),
{
    let mut out: Vec<CompletionCandidate> = Vec::new();
    push_bindings(&mut out, imports, None, file_id);
    push_scope_items(&mut out, global_items.items(), file_id, false);
    proof {
        assert(candidate_views(out@) =~= global_candidates(global_items@, *imports, file_id));
    }
    out
}

/// The names offered after a path `::` (see [`path_access_candidates`]).
pub fn complete_path_access(
    global_items: &GlobalItemTable,
    imports: &SortedMap<FileId, ResolvedImports>,
    external_lookup: &ExternalSemanticLookup,
    file_id: FileId,
    scope_item: Option<ItemId>,
) -> (r: Vec<CompletionCandidate>)
    ensures
        candidate_views(r@) == path_access_candidates(global_items@, *imports, *external_lookup, file_id, scope_item),
{
    let mut out: Vec<CompletionCandidate> = Vec::new();
    let items = global_items.items();
    match scope_item {
        Some(item_id) => {
            if let Some(global_item) = find_item(items, item_id) {
                if let Some(scope) = global_items.get_by_full_path(&global_item.full_path) {
                    if scope.kind == ItemKind::Scope {
                        push_scope_items(&mut out, items, scope.defining_file_id, false);
                    }
                }
            }
        },
        None => {
            let s = make_plain_candidate("super".to_owned(), CompletionKind::Scope, "parent scope".to_owned());
            out.push(s);
            let r = make_plain_candidate("root".to_owned(), CompletionKind::Scope, "project root".to_owned());
            out.push(r);
            proof {
                reveal_strlit("super");
                reveal_strlit("root");
                reveal_strlit("parent scope");
                reveal_strlit("project root");
            }
            push_bindings(&mut out, imports, Some(external_lookup), file_id);
            push_scope_items(&mut out, items, file_id, true);
        },
    }
    proof {
        assert(candidate_views(out@) =~= path_access_candidates(global_items@, *imports, *external_lookup, file_id, scope_item));
    }
    out
}

/// Whether `candidates` holds one labelled `label`, of kind `kind`, that
/// belongs to item `id`.
pub open spec fn offers(candidates: Seq<CandidateView>, label: Seq<char>, kind: CompletionKind, id: ItemId) -> bool {
    exists|j: int| #![trigger candidates[j]] 0 <= j < candidates.len() && candidates[j].label == label
        && candidates[j].kind == kind && candidates[j].item_id == Some(id)
}

/// After `value.` on a value of a named type with enum signatures, every
/// case and every method of the enum is offered, labelled with its name
/// and tied to the enum; after `Type::` likewise. After `value.` on a
/// struct, every field and every method of it is offered.
pub proof fn law_members_offered(signatures: TypedSignatureTable, item_id: ItemId, kind: NamedTypeKind)
    ensures
        signatures.enums.spec_get(item_id) matches Some(d) ==> {
            &&& forall|i: int| #![trigger d.case_signatures@[i]] 0 <= i < d.case_signatures@.len() ==> {
                &&& offers(member_access_candidates(signatures, Type::Named { item_id, kind }),
                    d.case_signatures@[i].name@, CompletionKind::EnumVariant, item_id)
                &&& offers(associated_access_candidates(signatures, Type::Named { item_id, kind }),
                    d.case_signatures@[i].name@, CompletionKind::EnumVariant, item_id)
            }
            &&& forall|i: int| #![trigger d.method_signatures@[i]] 0 <= i < d.method_signatures@.len() ==> {
                &&& offers(member_access_candidates(signatures, Type::Named { item_id, kind }),
                    d.method_signatures@[i].name@, CompletionKind::Function, item_id)
                &&& offers(associated_access_candidates(signatures, Type::Named { item_id, kind }),
                    d.method_signatures@[i].name@, CompletionKind::Function, item_id)
            }
        },
        signatures.structs.spec_get(item_id) matches Some(d) ==> {
            &&& forall|i: int| #![trigger d.fields@[i]] 0 <= i < d.fields@.len() ==> offers(
                member_access_candidates(signatures, Type::Named { item_id, kind }), d.fields@[i].name@,
                CompletionKind::Field, item_id)
            &&& forall|i: int| #![trigger d.method_signatures@[i]] 0 <= i < d.method_signatures@.len() ==> offers(
                member_access_candidates(signatures, Type::Named { item_id, kind }), d.method_signatures@[i].name@,
                CompletionKind::Function, item_id)
        },
{
    let t = Type::Named { item_id, kind };
    let members = member_access_candidates(signatures, t);
    let assoc = associated_access_candidates(signatures, t);
    let sm = struct_members(item_id, signatures.structs.spec_get(item_id));
    let sa = struct_associated(item_id, signatures.structs.spec_get(item_id));
    match signatures.enums.spec_get(item_id) {
        Some(d) => {
            let cs = case_candidates(item_id, d.case_signatures@);
            let ms = method_candidates(item_id, d.method_signatures@);
            assert(members == sm + (cs + ms));
            assert(assoc == sa + (cs + ms));
            assert forall|i: int| #![trigger d.case_signatures@[i]] 0 <= i < d.case_signatures@.len() implies {
                &&& offers(members, d.case_signatures@[i].name@, CompletionKind::EnumVariant, item_id)
                &&& offers(assoc, d.case_signatures@[i].name@, CompletionKind::EnumVariant, item_id)
            } by {
                assert((cs + ms)[i] == cs[i]);
                assert(members[sm.len() + i] == cs[i]);
                assert(assoc[sa.len() + i] == cs[i]);
            }
            assert forall|i: int| #![trigger d.method_signatures@[i]] 0 <= i < d.method_signatures@.len() implies {
                &&& offers(members, d.method_signatures@[i].name@, CompletionKind::Function, item_id)
                &&& offers(assoc, d.method_signatures@[i].name@, CompletionKind::Function, item_id)
            } by {
                assert((cs + ms)[cs.len() + i] == ms[i]);
                assert(members[sm.len() + cs.len() + i] == ms[i]);
                assert(assoc[sa.len() + cs.len() + i] == ms[i]);
            }
        },
        None => {},
    }
    match signatures.structs.spec_get(item_id) {
        Some(d) => {
            let fs = field_candidates(item_id, d.fields@);
            let ms = method_candidates(item_id, d.method_signatures@);
            let em = enum_members(item_id, signatures.enums.spec_get(item_id));
            assert(members == (fs + ms) + em);
            assert forall|i: int| #![trigger d.fields@[i]] 0 <= i < d.fields@.len() implies offers(
                members, d.fields@[i].name@, CompletionKind::Field, item_id) by {
                assert(members[i] == fs[i]);
            }
            assert forall|i: int| #![trigger d.method_signatures@[i]] 0 <= i < d.method_signatures@.len() implies offers(
                members, d.method_signatures@[i].name@, CompletionKind::Function, item_id) by {
                assert(members[fs.len() + i] == ms[i]);
            }
        },
        None => {},
    }
}

} // verus!
