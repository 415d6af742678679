//! Per-body type environments: the expected return type of each body and
//! the type of each of its locals, from the typed item table.

use crate::collections::sorted_map::{
    entries_contain, entries_list_map, entries_lookup, entries_map, entries_sorted, MapKey, SortedMap,
};
use crate::frontend::resolver::{
    BodyKind, DeclarationOwner, ItemId, LocalId, LocalKind, LocalMutability, ResolvedBody,
    ResolvedBodyTable, ResolvedLocal, ResolvedTypeRef,
};
use crate::frontend::semantic::item_table::{TypedItemData, TypedItemTable};
use crate::frontend::semantic::types::{BuiltinType, Mutability, NamedTypeKind, Type};
use crate::frontend::source::FileId;
use crate::frontend::text::str_eq;
use crate::midend::type_check::signatures::TypedFunctionSignature;
use vstd::prelude::*;

verus! {

/// How a local was bound.
#[derive(Debug, Clone, Copy, PartialEq, Eq, Structural)]
pub struct BodyLocalBindingInfo {
    pub kind: LocalKind,
    pub mutability: LocalMutability,
}

/// The type environment of one body.
pub struct BodyTypeEnvironment {
    pub owner: DeclarationOwner,
    pub body_index: usize,
    pub kind: BodyKind,
    pub containing_scope_file_id: FileId,
    pub expected_return_type: Type,
    pub local_types: SortedMap<LocalId, Type>,
    pub local_bindings: SortedMap<LocalId, BodyLocalBindingInfo>,
}

/// What went wrong while typing a body's environment.
#[derive(Debug, PartialEq, Eq)]
pub enum BodyEnvIssueKind {
    MissingBodySignature,
    MissingParameterType { local_id: LocalId, parameter_index: usize },
    MissingSelfType { local_id: LocalId },
    UnresolvedLocalTypePath { local_id: LocalId, path: Vec<String> },
    InvalidLocalTypeItem { local_id: LocalId, item_id: ItemId },
    MissingTypedItemForLocalType { local_id: LocalId, item_id: ItemId },
    UnsupportedLocalTypeSurface { local_id: LocalId, description: &'static str },
}

/// An issue found while typing a body's environment.
#[derive(Debug, PartialEq, Eq)]
pub struct BodyEnvIssue {
    pub owner: DeclarationOwner,
    pub body_index: usize,
    pub containing_scope_file_id: FileId,
    pub kind: BodyEnvIssueKind,
}

/// The builtin type a type name denotes.
pub open spec fn builtin_named(name: Seq<char>) -> Option<BuiltinType> {
    if name == "bool"@ {
        Some(BuiltinType::Bool)
    } else if name == "char"@ {
        Some(BuiltinType::Char)
    } else if name == "string"@ {
        Some(BuiltinType::String)
    } else if name == "i8"@ {
        Some(BuiltinType::I8)
    } else if name == "i16"@ {
        Some(BuiltinType::I16)
    } else if name == "i32"@ {
        Some(BuiltinType::I32)
    } else if name == "i64"@ {
        Some(BuiltinType::I64)
    } else if name == "u8"@ {
        Some(BuiltinType::U8)
    } else if name == "u16"@ {
        Some(BuiltinType::U16)
    } else if name == "u32"@ {
        Some(BuiltinType::U32)
    } else if name == "u64"@ {
        Some(BuiltinType::U64)
    } else if name == "isize"@ {
        Some(BuiltinType::ISize)
    } else if name == "usize"@ {
        Some(BuiltinType::USize)
    } else if name == "f32"@ {
        Some(BuiltinType::F32)
    } else if name == "f64"@ {
        Some(BuiltinType::F64)
    } else if name == "void"@ {
        Some(BuiltinType::Void)
    } else if name == "never"@ {
        Some(BuiltinType::Never)
    } else {
        None
    }
}

/// The builtin type a path denotes: a single builtin name.
pub open spec fn builtin_of_path(segments: Seq<String>) -> Option<BuiltinType> {
    if segments.len() == 1 {
        builtin_named(segments[0]@)
    } else {
        None
    }
}

/// The builtin type a single-segment path names, if any.
pub fn builtin_from_segments(segments: &Vec<String>) -> (r: Option<BuiltinType>)
    ensures
        r == builtin_of_path(segments@),
{
    if segments.len() != 1 {
        return None;
    }
    let name = segments[0].as_str();
    if str_eq(name, "bool") {
        Some(BuiltinType::Bool)
    } else if str_eq(name, "char") {
        Some(BuiltinType::Char)
    } else if str_eq(name, "string") {
        Some(BuiltinType::String)
    } else if str_eq(name, "i8") {
        Some(BuiltinType::I8)
    } else if str_eq(name, "i16") {
        Some(BuiltinType::I16)
    } else if str_eq(name, "i32") {
        Some(BuiltinType::I32)
    } else if str_eq(name, "i64") {
        Some(BuiltinType::I64)
    } else if str_eq(name, "u8") {
        Some(BuiltinType::U8)
    } else if str_eq(name, "u16") {
        Some(BuiltinType::U16)
    } else if str_eq(name, "u32") {
        Some(BuiltinType::U32)
    } else if str_eq(name, "u64") {
        Some(BuiltinType::U64)
    } else if str_eq(name, "isize") {
        Some(BuiltinType::ISize)
    } else if str_eq(name, "usize") {
        Some(BuiltinType::USize)
    } else if str_eq(name, "f32") {
        Some(BuiltinType::F32)
    } else if str_eq(name, "f64") {
        Some(BuiltinType::F64)
    } else if str_eq(name, "void") {
        Some(BuiltinType::Void)
    } else if str_eq(name, "never") {
        Some(BuiltinType::Never)
    } else {
        None
    }
}

/// The nominal type of an item with the given data; functions have none.
pub open spec fn named_type_of(item_id: ItemId, data: TypedItemData) -> Option<Type> {
    match data {
        TypedItemData::Struct(_) => Some(Type::Named { item_id, kind: NamedTypeKind::Struct }),
        TypedItemData::Enum(_) => Some(Type::Named { item_id, kind: NamedTypeKind::Enum }),
        TypedItemData::Protocol(_) => Some(Type::Named { item_id, kind: NamedTypeKind::Protocol }),
        TypedItemData::Function(_) => None,
    }
}

/// The nominal type of an item with the given data; `None` for functions.
pub fn named_type_from_item_data(item_id: ItemId, item_data: &TypedItemData) -> (r: Option<Type>)
    ensures
        r == named_type_of(item_id, *item_data),
{
    match item_data {
        TypedItemData::Struct(_) => Some(Type::named(item_id, NamedTypeKind::Struct)),
        TypedItemData::Enum(_) => Some(Type::named(item_id, NamedTypeKind::Enum)),
        TypedItemData::Protocol(_) => Some(Type::named(item_id, NamedTypeKind::Protocol)),
        TypedItemData::Function(_) => None,
    }
}

/// The nominal type of item `id` in the table, if it has one.
pub open spec fn item_named_type(items: TypedItemTable, id: ItemId) -> Option<Type> {
    if items.spec_items().contains_key(id) {
        named_type_of(id, items.spec_items()[id])
    } else {
        None
    }
}

/// The `Self` type of a declaration: the item's own nominal type, or for an
/// impl the nominal type of its target item.
pub open spec fn self_type_of(items: TypedItemTable, owner: DeclarationOwner) -> Option<Type> {
    match owner {
        DeclarationOwner::Item(id) => item_named_type(items, id),
        DeclarationOwner::Impl { .. } => if items.spec_impl_attachments().contains_key(owner) {
            match items.spec_impl_attachments()[owner].target_item_id {
                Some(t) => item_named_type(items, t),
                None => None,
            }
        } else {
            None
        },
    }
}

/// The `Self` type of a declaration, if it has one.
pub fn self_type_for_owner(typed_items: &TypedItemTable, owner: &DeclarationOwner) -> (r: Option<Type>)
    ensures
        r == self_type_of(*typed_items, *owner),
{
    match owner {
        DeclarationOwner::Item(item_id) => match typed_items.get(*item_id) {
            Some(data) => named_type_from_item_data(*item_id, data),
            None => None,
        },
        DeclarationOwner::Impl { .. } => {
            let attachment = match typed_items.impl_attachment(owner) {
                Some(a) => a,
                None => return None,
            };
            let target_item_id = match attachment.target_item_id {
                Some(t) => t,
                None => return None,
            };
            match typed_items.get(target_item_id) {
                Some(data) => named_type_from_item_data(target_item_id, data),
                None => None,
            }
        },
    }
}

/// The `i`-th signature of a list of named signatures.
pub open spec fn method_sig(v: Seq<crate::midend::type_check::signatures::TypedNamedFunctionSignature>, i: usize) -> Option<TypedFunctionSignature> {
    if i < v.len() {
        Some(v[i as int].signature)
    } else {
        None
    }
}

/// The `i`-th signature of a list of signatures.
pub open spec fn init_sig(v: Seq<TypedFunctionSignature>, i: usize) -> Option<TypedFunctionSignature> {
    if i < v.len() {
        Some(v[i as int])
    } else {
        None
    }
}

/// The signature a body implements: the function itself, or the method or
/// initializer at the body's signature index of its struct, enum, protocol
/// (default bodies only) or impl.
pub open spec fn body_signature_of(items: TypedItemTable, owner: DeclarationOwner, kind: BodyKind, index: usize) -> Option<TypedFunctionSignature> {
    match owner {
        DeclarationOwner::Item(id) => if items.spec_items().contains_key(id) {
            match items.spec_items()[id] {
                TypedItemData::Function(s) => if kind == BodyKind::Function && index == 0 {
                    Some(s)
                } else {
                    None
                },
                TypedItemData::Struct(d) => match kind {
                    BodyKind::Function => method_sig(d.method_signatures@, index),
                    BodyKind::Initializer => init_sig(d.initializer_signatures@, index),
                    _ => None,
                },
                TypedItemData::Enum(d) => match kind {
                    BodyKind::Function => method_sig(d.method_signatures@, index),
                    BodyKind::Initializer => init_sig(d.initializer_signatures@, index),
                    _ => None,
                },
                TypedItemData::Protocol(d) => match kind {
                    BodyKind::ProtocolDefaultFunction => method_sig(d.method_signatures@, index),
                    BodyKind::ProtocolDefaultInitializer => init_sig(d.initializer_signatures@, index),
                    _ => None,
                },
            }
        } else {
            None
        },
        DeclarationOwner::Impl { .. } => if items.spec_impl_signatures().contains_key(owner) {
            let s = items.spec_impl_signatures()[owner];
            match kind {
                BodyKind::Function => method_sig(s.method_signatures@, index),
                BodyKind::Initializer => init_sig(s.initializer_signatures@, index),
                _ => None,
            }
        } else {
            None
        },
    }
}

fn method_signature_at(v: &Vec<crate::midend::type_check::signatures::TypedNamedFunctionSignature>, i: usize) -> (r: Option<&TypedFunctionSignature>)
    ensures
        match r {
            Some(s) => method_sig(v@, i) == Some(*s),
            None => method_sig(v@, i) is None,
        },
{
    if i < v.len() {
        Some(&v[i].signature)
    } else {
        None
    }
}

fn initializer_signature_at(v: &Vec<TypedFunctionSignature>, i: usize) -> (r: Option<&TypedFunctionSignature>)
    ensures
        match r {
            Some(s) => init_sig(v@, i) == Some(*s),
            None => init_sig(v@, i) is None,
        },
{
    if i < v.len() {
        Some(&v[i])
    } else {
        None
    }
}

/// The signature the body implements, if the table has it.
pub fn body_signature<'a>(typed_items: &'a TypedItemTable, body: &ResolvedBody) -> (r: Option<&'a TypedFunctionSignature>)
    ensures
        match r {
            Some(s) => body_signature_of(*typed_items, body.owner, body.kind, body.signature_index) == Some(*s),
            None => body_signature_of(*typed_items, body.owner, body.kind, body.signature_index) is None,
        },
{
    match body.owner {
        DeclarationOwner::Item(item_id) => match typed_items.get(item_id) {
            Some(TypedItemData::Function(signature)) => {
                if body.kind == BodyKind::Function && body.signature_index == 0 {
                    Some(signature)
                } else {
                    None
                }
            },
            Some(TypedItemData::Struct(data)) => match body.kind {
                BodyKind::Function => method_signature_at(&data.method_signatures, body.signature_index),
                BodyKind::Initializer => initializer_signature_at(&data.initializer_signatures, body.signature_index),
                _ => None,
            },
            Some(TypedItemData::Enum(data)) => match body.kind {
                BodyKind::Function => method_signature_at(&data.method_signatures, body.signature_index),
                BodyKind::Initializer => initializer_signature_at(&data.initializer_signatures, body.signature_index),
                _ => None,
            },
            Some(TypedItemData::Protocol(data)) => match body.kind {
                BodyKind::ProtocolDefaultFunction => method_signature_at(&data.method_signatures, body.signature_index),
                BodyKind::ProtocolDefaultInitializer => initializer_signature_at(&data.initializer_signatures, body.signature_index),
                _ => None,
            },
            None => None,
        },
        DeclarationOwner::Impl { .. } => {
            let impl_signature = match typed_items.impl_signature(&body.owner) {
                Some(s) => s,
                None => return None,
            };
            match body.kind {
                BodyKind::Function => method_signature_at(&impl_signature.method_signatures, body.signature_index),
                BodyKind::Initializer => initializer_signature_at(&impl_signature.initializer_signatures, body.signature_index),
                _ => None,
            }
        },
    }
}

/// An issue kind with its path as a sequence.
pub enum BodyEnvIssueKindView {
    MissingBodySignature,
    MissingParameterType { local_id: LocalId, parameter_index: usize },
    MissingSelfType { local_id: LocalId },
    UnresolvedLocalTypePath { local_id: LocalId, path: Seq<Seq<char>> },
    InvalidLocalTypeItem { local_id: LocalId, item_id: ItemId },
    MissingTypedItemForLocalType { local_id: LocalId, item_id: ItemId },
    UnsupportedLocalTypeSurface { local_id: LocalId, description: Seq<char> },
}

impl View for BodyEnvIssueKind {
    type V = BodyEnvIssueKindView;

    open spec fn view(&self) -> BodyEnvIssueKindView {
        match *self {
            BodyEnvIssueKind::MissingBodySignature => BodyEnvIssueKindView::MissingBodySignature,
            BodyEnvIssueKind::MissingParameterType { local_id, parameter_index } => BodyEnvIssueKindView::MissingParameterType { local_id, parameter_index },
            BodyEnvIssueKind::MissingSelfType { local_id } => BodyEnvIssueKindView::MissingSelfType { local_id },
            BodyEnvIssueKind::UnresolvedLocalTypePath { local_id, path } => BodyEnvIssueKindView::UnresolvedLocalTypePath { local_id, path: crate::frontend::text::string_views(path@) },
            BodyEnvIssueKind::InvalidLocalTypeItem { local_id, item_id } => BodyEnvIssueKindView::InvalidLocalTypeItem { local_id, item_id },
            BodyEnvIssueKind::MissingTypedItemForLocalType { local_id, item_id } => BodyEnvIssueKindView::MissingTypedItemForLocalType { local_id, item_id },
            BodyEnvIssueKind::UnsupportedLocalTypeSurface { local_id, description } => BodyEnvIssueKindView::UnsupportedLocalTypeSurface { local_id, description: description@ },
        }
    }
}

/// Where a body's issues are reported: its owner, index and scope file.
pub type BodyPlace = (DeclarationOwner, usize, FileId);

impl View for BodyEnvIssue {
    type V = (BodyPlace, BodyEnvIssueKindView);

    open spec fn view(&self) -> (BodyPlace, BodyEnvIssueKindView) {
        ((self.owner, self.body_index, self.containing_scope_file_id), self.kind@)
    }
}

/// Issue views of a list of issues.
pub open spec fn issue_views(s: Seq<BodyEnvIssue>) -> Seq<(BodyPlace, BodyEnvIssueKindView)> {
    s.map_values(|i: BodyEnvIssue| i@)
}

/// The type of a local from its annotation, and the issues lowering it
/// reports: builtin names and resolved struct, enum and protocol items map
/// to their types, references and pointers to pointers (mutable for `&mut`
/// and `*mut`), `Self` to the owner's self type; generic applications,
/// arrays, optionals and results lower their parts and then are reported as
/// unsupported, giving the error type.
pub open spec fn lowered_type(at: BodyPlace, local: LocalId, ty: ResolvedTypeRef, items: TypedItemTable) -> (Type, Seq<(BodyPlace, BodyEnvIssueKindView)>)
    decreases ty,
{
    match ty {
        ResolvedTypeRef::Named { segments, resolved } => match builtin_of_path(segments@) {
            Some(b) => (Type::Builtin(b), seq![]),
            None => match resolved {
                None => (Type::Error, seq![(at, BodyEnvIssueKindView::UnresolvedLocalTypePath { local_id: local, path: crate::frontend::text::string_views(segments@) })]),
                Some(r) => if items.spec_items().contains_key(r.item_id) {
                    match items.spec_items()[r.item_id] {
                        TypedItemData::Function(_) => (Type::Error, seq![(at, BodyEnvIssueKindView::InvalidLocalTypeItem { local_id: local, item_id: r.item_id })]),
                        d => (named_type_of(r.item_id, d).unwrap(), seq![]),
                    }
                } else {
                    (Type::Error, seq![(at, BodyEnvIssueKindView::MissingTypedItemForLocalType { local_id: local, item_id: r.item_id })])
                },
            },
        },
        ResolvedTypeRef::Reference(inner) => {
            let (t, i) = lowered_type(at, local, *inner, items);
            (Type::Pointer { pointee: Box::new(t), mutability: Mutability::Const }, i)
        },
        ResolvedTypeRef::MutableReference(inner) => {
            let (t, i) = lowered_type(at, local, *inner, items);
            (Type::Pointer { pointee: Box::new(t), mutability: Mutability::Mut }, i)
        },
        ResolvedTypeRef::MutablePointer(inner) => {
            let (t, i) = lowered_type(at, local, *inner, items);
            (Type::Pointer { pointee: Box::new(t), mutability: Mutability::Mut }, i)
        },
        ResolvedTypeRef::ConstPointer(inner) => {
            let (t, i) = lowered_type(at, local, *inner, items);
            (Type::Pointer { pointee: Box::new(t), mutability: Mutability::Const }, i)
        },
        ResolvedTypeRef::Grouped(inner) => lowered_type(at, local, *inner, items),
        ResolvedTypeRef::SelfType => match self_type_of(items, at.0) {
            Some(t) => (t, seq![]),
            None => (Type::Error, seq![(at, BodyEnvIssueKindView::MissingSelfType { local_id: local })]),
        },
        ResolvedTypeRef::GenericApplication { base, args } => (
            Type::Error,
            lowered_type(at, local, *base, items).1 + lowered_args(at, local, args@, items)
                + seq![(at, BodyEnvIssueKindView::UnsupportedLocalTypeSurface { local_id: local, description: "generic application"@ })],
        ),
        ResolvedTypeRef::Array(inner) => (
            Type::Error,
            lowered_type(at, local, *inner, items).1
                + seq![(at, BodyEnvIssueKindView::UnsupportedLocalTypeSurface { local_id: local, description: "array type"@ })],
        ),
        ResolvedTypeRef::Optional(inner) => (
            Type::Error,
            lowered_type(at, local, *inner, items).1
                + seq![(at, BodyEnvIssueKindView::UnsupportedLocalTypeSurface { local_id: local, description: "optional type"@ })],
        ),
        ResolvedTypeRef::Result { ok, err } => (
            Type::Error,
            lowered_type(at, local, *ok, items).1 + lowered_type(at, local, *err, items).1
                + seq![(at, BodyEnvIssueKindView::UnsupportedLocalTypeSurface { local_id: local, description: "result type"@ })],
        ),
    }
}

/// Issues of lowering each type argument, in order.
pub open spec fn lowered_args(at: BodyPlace, local: LocalId, args: Seq<ResolvedTypeRef>, items: TypedItemTable) -> Seq<(BodyPlace, BodyEnvIssueKindView)>
    decreases args,
{
    if args.len() == 0 {
        seq![]
    } else {
        lowered_args(at, local, args.drop_last(), items) + lowered_type(at, local, args.last(), items).1
    }
}

fn push_issue(issues: &mut Vec<BodyEnvIssue>, owner: &DeclarationOwner, body_index: usize, containing_scope_file_id: FileId, kind: BodyEnvIssueKind)
    ensures
        issue_views(final(issues)@) == issue_views(old(issues)@).push(((*owner, body_index, containing_scope_file_id), kind@)),
{
    issues.push(BodyEnvIssue { owner: *owner, body_index, containing_scope_file_id, kind });
    proof {
        assert(issue_views(final(issues)@) =~= issue_views(old(issues)@).push(((*owner, body_index, containing_scope_file_id), kind@)));
    }
}

/// Lowers a local's type annotation to a semantic type, appending the
/// issues it finds (see [`lowered_type`]).
pub fn lower_local_type_ref(
    owner: &DeclarationOwner,
    body_index: usize,
    containing_scope_file_id: FileId,
    local_id: LocalId,
    ty: &ResolvedTypeRef,
    typed_items: &TypedItemTable,
    issues: &mut Vec<BodyEnvIssue>,
) -> (r: Type)
    ensures
        ({
            let l = lowered_type((*owner, body_index, containing_scope_file_id), local_id, *ty, *typed_items);
            &&& r == l.0
            &&& issue_views(final(issues)@) == issue_views(old(issues)@) + l.1
        }),
    decreases ty,
{
    let ghost at: BodyPlace = (*owner, body_index, containing_scope_file_id);
    let ghost start = issue_views(issues@);
    match ty {
        ResolvedTypeRef::Named { segments, resolved } => {
            if let Some(builtin) = builtin_from_segments(segments) {
                proof {
                    assert(issue_views(issues@) =~= start + seq![]);
                }
                return Type::builtin(builtin);
            }
            let resolved_item = match resolved {
                Some(r) => *r,
                None => {
                    let path = crate::frontend::text::clone_strings(segments);
                    push_issue(issues, owner, body_index, containing_scope_file_id, BodyEnvIssueKind::UnresolvedLocalTypePath { local_id, path });
                    return Type::error();
                },
            };
            match typed_items.get(resolved_item.item_id) {
                Some(TypedItemData::Struct(_)) => {
                    proof {
                        assert(issue_views(issues@) =~= start + seq![]);
                    }
                    Type::named(resolved_item.item_id, NamedTypeKind::Struct)
                },
                Some(TypedItemData::Enum(_)) => {
                    proof {
                        assert(issue_views(issues@) =~= start + seq![]);
                    }
                    Type::named(resolved_item.item_id, NamedTypeKind::Enum)
                },
                Some(TypedItemData::Protocol(_)) => {
                    proof {
                        assert(issue_views(issues@) =~= start + seq![]);
                    }
                    Type::named(resolved_item.item_id, NamedTypeKind::Protocol)
                },
                Some(TypedItemData::Function(_)) => {
                    push_issue(issues, owner, body_index, containing_scope_file_id, BodyEnvIssueKind::InvalidLocalTypeItem { local_id, item_id: resolved_item.item_id });
                    Type::error()
                },
                None => {
                    push_issue(issues, owner, body_index, containing_scope_file_id, BodyEnvIssueKind::MissingTypedItemForLocalType { local_id, item_id: resolved_item.item_id });
                    Type::error()
                },
            }
        },
        ResolvedTypeRef::Reference(inner) => Type::pointer(
            lower_local_type_ref(owner, body_index, containing_scope_file_id, local_id, inner, typed_items, issues),
            Mutability::Const,
        ),
        ResolvedTypeRef::MutableReference(inner) => Type::pointer(
            lower_local_type_ref(owner, body_index, containing_scope_file_id, local_id, inner, typed_items, issues),
            Mutability::Mut,
        ),
        ResolvedTypeRef::MutablePointer(inner) => Type::pointer(
            lower_local_type_ref(owner, body_index, containing_scope_file_id, local_id, inner, typed_items, issues),
            Mutability::Mut,
        ),
        ResolvedTypeRef::ConstPointer(inner) => Type::pointer(
            lower_local_type_ref(owner, body_index, containing_scope_file_id, local_id, inner, typed_items, issues),
            Mutability::Const,
        ),
        ResolvedTypeRef::Grouped(inner) => lower_local_type_ref(owner, body_index, containing_scope_file_id, local_id, inner, typed_items, issues),
        ResolvedTypeRef::SelfType => match self_type_for_owner(typed_items, owner) {
            Some(t) => {
                proof {
                    assert(issue_views(issues@) =~= start + seq![]);
                }
                t
            },
            None => {
                push_issue(issues, owner, body_index, containing_scope_file_id, BodyEnvIssueKind::MissingSelfType { local_id });
                Type::error()
            },
        },
        ResolvedTypeRef::GenericApplication { base, args } => {
            lower_local_type_ref(owner, body_index, containing_scope_file_id, local_id, base, typed_items, issues);
            let ghost after_base = issue_views(issues@);
            proof {
                assert(decreases_to!(*ty => args@));
            }
            let mut i: usize = 0;
            while i < args.len()
                invariant
                    i <= args@.len(),
                    issue_views(issues@) == after_base + lowered_args(at, local_id, args@.subrange(0, i as int), *typed_items),
                    at == (*owner, body_index, containing_scope_file_id),
                    decreases_to!(*ty => args@),
                decreases args@.len() - i,
            {
                proof {
                    assert(args@.subrange(0, i as int + 1).drop_last() =~= args@.subrange(0, i as int));
                    assert(decreases_to!(args@ => args@[i as int]));
                    assert(decreases_to!(*ty => args@[i as int]));
                }
                lower_local_type_ref(owner, body_index, containing_scope_file_id, local_id, &args[i], typed_items, issues);
                i = i + 1;
            }
            proof {
                assert(args@.subrange(0, args@.len() as int) =~= args@);
                reveal_strlit("generic application");
            }
            push_issue(issues, owner, body_index, containing_scope_file_id, BodyEnvIssueKind::UnsupportedLocalTypeSurface { local_id, description: "generic application" });
            proof {
                assert(issue_views(issues@) =~= start + lowered_type(at, local_id, *ty, *typed_items).1);
            }
            Type::error()
        },
        ResolvedTypeRef::Array(inner) => {
            lower_local_type_ref(owner, body_index, containing_scope_file_id, local_id, inner, typed_items, issues);
            push_issue(issues, owner, body_index, containing_scope_file_id, BodyEnvIssueKind::UnsupportedLocalTypeSurface { local_id, description: "array type" });
            proof {
                assert(issue_views(issues@) =~= start + lowered_type(at, local_id, *ty, *typed_items).1);
            }
            Type::error()
        },
        ResolvedTypeRef::Optional(inner) => {
            lower_local_type_ref(owner, body_index, containing_scope_file_id, local_id, inner, typed_items, issues);
            push_issue(issues, owner, body_index, containing_scope_file_id, BodyEnvIssueKind::UnsupportedLocalTypeSurface { local_id, description: "optional type" });
            proof {
                assert(issue_views(issues@) =~= start + lowered_type(at, local_id, *ty, *typed_items).1);
            }
            Type::error()
        },
        ResolvedTypeRef::Result { ok, err } => {
            lower_local_type_ref(owner, body_index, containing_scope_file_id, local_id, ok, typed_items, issues);
            lower_local_type_ref(owner, body_index, containing_scope_file_id, local_id, err, typed_items, issues);
            push_issue(issues, owner, body_index, containing_scope_file_id, BodyEnvIssueKind::UnsupportedLocalTypeSurface { local_id, description: "result type" });
            proof {
                assert(issue_views(issues@) =~= start + lowered_type(at, local_id, *ty, *typed_items).1);
            }
            Type::error()
        },
    }
}

/// The type of one local and the parameter position after it: `self`
/// parameters take the owner's self type, other parameters the signature's
/// next parameter type, annotated bindings their lowered annotation, and
/// anything else the error type.
pub open spec fn local_type_step(
    at: BodyPlace,
    items: TypedItemTable,
    sig: Option<TypedFunctionSignature>,
    local: ResolvedLocal,
    parameter_index: nat,
) -> (Type, nat, Seq<(BodyPlace, BodyEnvIssueKindView)>) {
    if local.kind == LocalKind::Parameter {
        if local.name@ == "self"@ {
            match self_type_of(items, at.0) {
                Some(t) => (t, parameter_index, seq![]),
                None => (Type::Error, parameter_index, seq![(at, BodyEnvIssueKindView::MissingSelfType { local_id: local.id })]),
            }
        } else {
            match sig {
                Some(s) => if parameter_index < s.param_types@.len() {
                    (s.param_types@[parameter_index as int], parameter_index + 1, seq![])
                } else {
                    (
                        Type::Error,
                        parameter_index + 1,
                        seq![(at, BodyEnvIssueKindView::MissingParameterType { local_id: local.id, parameter_index: parameter_index as usize })],
                    )
                },
                None => (Type::Error, parameter_index, seq![]),
            }
        }
    } else {
        match local.declared_type {
            Some(ty) => {
                let l = lowered_type(at, local.id, ty, items);
                (l.0, parameter_index, l.1)
            },
            None => (Type::Error, parameter_index, seq![]),
        }
    }
}

/// Typing the locals in order: the local types and bindings (a later local
/// with the same id replaces an earlier one), the next parameter position,
/// and the issues reported.
pub open spec fn locals_env(
    at: BodyPlace,
    items: TypedItemTable,
    sig: Option<TypedFunctionSignature>,
    locals: Seq<ResolvedLocal>,
) -> (Map<LocalId, Type>, Map<LocalId, BodyLocalBindingInfo>, nat, Seq<(BodyPlace, BodyEnvIssueKindView)>)
    decreases locals.len(),
{
    if locals.len() == 0 {
        (Map::empty(), Map::empty(), 0, seq![])
    } else {
        let prev = locals_env(at, items, sig, locals.drop_last());
        let local = locals.last();
        let step = local_type_step(at, items, sig, local, prev.2);
        (
            prev.0.insert(local.id, step.0),
            prev.1.insert(local.id, BodyLocalBindingInfo { kind: local.kind, mutability: local.mutability }),
            step.1,
            prev.3 + step.2,
        )
    }
}

/// The return type a body is expected to produce: the signature's return
/// type, `void` when it declares none, the error type without a signature.
pub open spec fn expected_return_of(sig: Option<TypedFunctionSignature>) -> Type {
    match sig {
        Some(s) => match s.return_type {
            Some(t) => t,
            None => Type::Builtin(BuiltinType::Void),
        },
        None => Type::Error,
    }
}

/// The issues of building one body's environment: a missing signature
/// first, then those of its locals.
pub open spec fn body_env_issues(items: TypedItemTable, body: ResolvedBody) -> Seq<(BodyPlace, BodyEnvIssueKindView)> {
    let at: BodyPlace = (body.owner, body.body_index, body.containing_scope_file_id);
    let sig = body_signature_of(items, body.owner, body.kind, body.signature_index);
    let head = if sig is None {
        seq![(at, BodyEnvIssueKindView::MissingBodySignature)]
    } else {
        seq![]
    };
    head + locals_env(at, items, sig, body.locals@).3
}

/// The environment built for `body` is exactly that of its signature and
/// locals.
pub open spec fn is_body_env_of(env: BodyTypeEnvironment, items: TypedItemTable, body: ResolvedBody) -> bool {
    let at: BodyPlace = (body.owner, body.body_index, body.containing_scope_file_id);
    let sig = body_signature_of(items, body.owner, body.kind, body.signature_index);
    let l = locals_env(at, items, sig, body.locals@);
    &&& env.owner == body.owner
    &&& env.body_index == body.body_index
    &&& env.kind == body.kind
    &&& env.containing_scope_file_id == body.containing_scope_file_id
    &&& env.expected_return_type == expected_return_of(sig)
    &&& entries_map(env.local_types@) == l.0
    &&& entries_map(env.local_bindings@) == l.1
}

/// Builds the type environment of one body, appending its issues.
pub fn build_one_body_env(body: &ResolvedBody, typed_items: &TypedItemTable, issues: &mut Vec<BodyEnvIssue>) -> (r: BodyTypeEnvironment)
    requires
        body.locals@.len() < usize::MAX,
    ensures
        is_body_env_of(r, *typed_items, *body),
        issue_views(final(issues)@) == issue_views(old(issues)@) + body_env_issues(*typed_items, *body),
{
    let ghost at: BodyPlace = (body.owner, body.body_index, body.containing_scope_file_id);
    let ghost start = issue_views(issues@);
    let signature = body_signature(typed_items, body);
    let ghost sig = body_signature_of(*typed_items, body.owner, body.kind, body.signature_index);
    if signature.is_none() {
        push_issue(issues, &body.owner, body.body_index, body.containing_scope_file_id, BodyEnvIssueKind::MissingBodySignature);
    } else {
        proof {
            assert(issue_views(issues@) =~= start + seq![]);
        }
    }
    let ghost head = issue_views(issues@);
    let expected_return_type = match signature {
        Some(sig_ref) => match &sig_ref.return_type {
            Some(t) => t.clone(),
            None => Type::void(),
        },
        None => Type::error(),
    };
    let mut local_types: SortedMap<LocalId, Type> = SortedMap::new();
    let mut local_bindings: SortedMap<LocalId, BodyLocalBindingInfo> = SortedMap::new();
    let mut parameter_index: usize = 0;
    let mut i: usize = 0;
    proof {
        assert(body.locals@.subrange(0, 0) =~= Seq::<ResolvedLocal>::empty());
        assert(entries_map(local_types@) =~= Map::<LocalId, Type>::empty());
        assert(entries_map(local_bindings@) =~= Map::<LocalId, BodyLocalBindingInfo>::empty());
        assert(issue_views(issues@) =~= head + seq![]);
    }
    while i < body.locals.len()
        invariant
            i <= body.locals@.len() < usize::MAX,
            at == (body.owner, body.body_index, body.containing_scope_file_id),
            sig == body_signature_of(*typed_items, body.owner, body.kind, body.signature_index),
            match signature {
                Some(s) => sig == Some(*s),
                None => sig is None,
            },
            ({
                let l = locals_env(at, *typed_items, sig, body.locals@.subrange(0, i as int));
                &&& entries_map(local_types@) == l.0
                &&& entries_map(local_bindings@) == l.1
                &&& parameter_index == l.2
                &&& l.2 <= i
                &&& issue_views(issues@) == head + l.3
            }),
        decreases body.locals@.len() - i,
    {
        let local = &body.locals[i];
        let ghost prefix = body.locals@.subrange(0, i as int);
        let ghost prev = locals_env(at, *typed_items, sig, prefix);
        let ghost step = local_type_step(at, *typed_items, sig, *local, prev.2);
        proof {
            assert(body.locals@.subrange(0, i as int + 1).drop_last() =~= prefix);
            assert(body.locals@.subrange(0, i as int + 1).last() == *local);
        }
        let ghost before = issue_views(issues@);
        local_bindings.insert(local.id, BodyLocalBindingInfo { kind: local.kind, mutability: local.mutability });
        let local_type = if local.kind == LocalKind::Parameter {
            if str_eq(local.name.as_str(), "self") {
                proof {
                    reveal_strlit("self");
                }
                match self_type_for_owner(typed_items, &body.owner) {
                    Some(t) => {
                        proof {
                            assert(issue_views(issues@) =~= before + seq![]);
                        }
                        t
                    },
                    None => {
                        push_issue(issues, &body.owner, body.body_index, body.containing_scope_file_id, BodyEnvIssueKind::MissingSelfType { local_id: local.id });
                        Type::error()
                    },
                }
            } else {
                proof {
                    reveal_strlit("self");
                }
                match signature {
                    Some(sig_ref) => {
                        if parameter_index < sig_ref.param_types.len() {
                            let t = sig_ref.param_types[parameter_index].clone();
                            parameter_index = parameter_index + 1;
                            proof {
                                assert(issue_views(issues@) =~= before + seq![]);
                            }
                            t
                        } else {
                            push_issue(issues, &body.owner, body.body_index, body.containing_scope_file_id, BodyEnvIssueKind::MissingParameterType { local_id: local.id, parameter_index });
                            parameter_index = parameter_index + 1;
                            Type::error()
                        }
                    },
                    None => {
                        proof {
                            assert(issue_views(issues@) =~= before + seq![]);
                        }
                        Type::error()
                    },
                }
            }
        } else {
            match &local.declared_type {
                Some(ty) => lower_local_type_ref(&body.owner, body.body_index, body.containing_scope_file_id, local.id, ty, typed_items, issues),
                None => {
                    proof {
                        assert(issue_views(issues@) =~= before + seq![]);
                    }
                    Type::error()
                },
            }
        };
        local_types.insert(local.id, local_type);
        proof {
            assert(local_type == step.0);
            assert(parameter_index == step.1);
            assert(issue_views(issues@) == before + step.2);
            assert(head + prev.3 + step.2 =~= head + (prev.3 + step.2));
        }
        i = i + 1;
    }
    proof {
        assert(body.locals@.subrange(0, body.locals@.len() as int) =~= body.locals@);
        assert(head + locals_env(at, *typed_items, sig, body.locals@).3 =~= start + body_env_issues(*typed_items, *body));
    }
    BodyTypeEnvironment {
        owner: body.owner,
        body_index: body.body_index,
        kind: body.kind,
        containing_scope_file_id: body.containing_scope_file_id,
        expected_return_type,
        local_types,
        local_bindings,
    }
}

/// Positions, among the first `n` bodies, of those owned by `owner`, in order.
pub open spec fn owner_positions(bodies: Seq<ResolvedBody>, owner: DeclarationOwner, n: nat) -> Seq<usize>
    decreases n,
{
    if n == 0 {
        seq![]
    } else {
        let prev = owner_positions(bodies, owner, (n - 1) as nat);
        if bodies[n - 1].owner == owner {
            prev.push((n - 1) as usize)
        } else {
            prev
        }
    }
}

/// Inserts position `p` after every position whose body index is not
/// greater than that of `p`'s body.
pub open spec fn insert_by_body_index(bodies: Seq<ResolvedBody>, s: Seq<usize>, p: usize) -> Seq<usize>
    decreases s.len(),
{
    if s.len() == 0 {
        seq![p]
    } else if bodies[s.last() as int].body_index <= bodies[p as int].body_index {
        s.push(p)
    } else {
        insert_by_body_index(bodies, s.drop_last(), p).push(s.last())
    }
}

/// Positions stably sorted by their bodies' body index.
pub open spec fn sort_by_body_index(bodies: Seq<ResolvedBody>, s: Seq<usize>) -> Seq<usize>
    decreases s.len(),
{
    if s.len() == 0 {
        s
    } else {
        insert_by_body_index(bodies, sort_by_body_index(bodies, s.drop_last()), s.last())
    }
}

/// The bodies of `owner` in the order their environments are built: by
/// body index, ties in resolution order.
pub open spec fn owner_body_order(bodies: Seq<ResolvedBody>, owner: DeclarationOwner) -> Seq<usize> {
    sort_by_body_index(bodies, owner_positions(bodies, owner, bodies.len()))
}

/// Issues of building the environments of the bodies at the given positions, in order.
pub open spec fn positions_issues(items: TypedItemTable, bodies: Seq<ResolvedBody>, ps: Seq<usize>) -> Seq<(BodyPlace, BodyEnvIssueKindView)>
    decreases ps.len(),
{
    if ps.len() == 0 {
        seq![]
    } else {
        positions_issues(items, bodies, ps.drop_last()) + body_env_issues(items, bodies[ps.last() as int])
    }
}

/// Issues of building the environments of the given owners' bodies, owner by owner.
pub open spec fn owners_issues(items: TypedItemTable, bodies: Seq<ResolvedBody>, owners: Seq<DeclarationOwner>) -> Seq<(BodyPlace, BodyEnvIssueKindView)>
    decreases owners.len(),
{
    if owners.len() == 0 {
        seq![]
    } else {
        owners_issues(items, bodies, owners.drop_last()) + positions_issues(items, bodies, owner_body_order(bodies, owners.last()))
    }
}

/// `envs` are the environments of the bodies at positions `order`, in that order.
pub open spec fn envs_of_positions(envs: Seq<BodyTypeEnvironment>, items: TypedItemTable, bodies: Seq<ResolvedBody>, order: Seq<usize>) -> bool {
    &&& envs.len() == order.len()
    &&& forall|k: int| 0 <= k < envs.len() ==> is_body_env_of(#[trigger] envs[k], items, bodies[order[k] as int])
}

pub(crate) proof fn lemma_owner_positions_nonempty(bodies: Seq<ResolvedBody>, owner: DeclarationOwner, n: nat)
    requires
        n <= bodies.len(),
    ensures
        owner_positions(bodies, owner, n).len() > 0 <==> exists|i: int| 0 <= i < n && #[trigger] bodies[i].owner == owner,
        forall|k: int| 0 <= k < owner_positions(bodies, owner, n).len() ==> #[trigger] owner_positions(bodies, owner, n)[k] < n,
    decreases n,
{
    if n > 0 {
        lemma_owner_positions_nonempty(bodies, owner, (n - 1) as nat);
        if bodies[n - 1].owner == owner {
            assert(bodies[n - 1].owner == owner);
        }
    }
}

proof fn lemma_insert_at(bodies: Seq<ResolvedBody>, s: Seq<usize>, p: usize, j: int)
    requires
        0 <= j <= s.len(),
        j == 0 || bodies[s[j - 1] as int].body_index <= bodies[p as int].body_index,
        forall|k: int| j <= k < s.len() ==> bodies[#[trigger] s[k] as int].body_index > bodies[p as int].body_index,
    ensures
        insert_by_body_index(bodies, s, p) == s.insert(j, p),
    decreases s.len(),
{
    if s.len() == 0 {
        assert(s.insert(j, p) =~= seq![p]);
    } else if j == s.len() {
        assert(s.insert(j, p) =~= s.push(p));
    } else {
        assert(bodies[s[s.len() - 1] as int].body_index > bodies[p as int].body_index);
        lemma_insert_at(bodies, s.drop_last(), p, j);
        assert(s.drop_last().insert(j, p).push(s.last()) =~= s.insert(j, p));
    }
}

/// `ps` stably sorted by body index.
pub(crate) fn sort_positions_by_body_index(bodies: &Vec<ResolvedBody>, ps: &Vec<usize>) -> (r: Vec<usize>)
    requires
        forall|k: int| 0 <= k < ps@.len() ==> #[trigger] ps@[k] < bodies@.len(),
    ensures
        r@ == sort_by_body_index(bodies@, ps@),
        forall|k: int| 0 <= k < r@.len() ==> #[trigger] r@[k] < bodies@.len(),
{
    let mut out: Vec<usize> = Vec::new();
    let mut t: usize = 0;
    while t < ps.len()
        invariant
            t <= ps@.len(),
            forall|k: int| 0 <= k < ps@.len() ==> #[trigger] ps@[k] < bodies@.len(),
            out@ == sort_by_body_index(bodies@, ps@.subrange(0, t as int)),
            forall|k: int| 0 <= k < out@.len() ==> #[trigger] out@[k] < bodies@.len(),
        decreases ps@.len() - t,
    {
        let p = ps[t];
        let mut j: usize = out.len();
        while j > 0 && bodies[out[j - 1]].body_index > bodies[p].body_index
            invariant
                j <= out@.len(),
                p < bodies@.len(),
                forall|k: int| 0 <= k < out@.len() ==> #[trigger] out@[k] < bodies@.len(),
                forall|k: int| j <= k < out@.len() ==> bodies@[#[trigger] out@[k] as int].body_index > bodies@[p as int].body_index,
            decreases j,
        {
            j = j - 1;
        }
        proof {
            lemma_insert_at(bodies@, out@, p, j as int);
            assert(ps@.subrange(0, t as int + 1).drop_last() =~= ps@.subrange(0, t as int));
        }
        out.insert(j, p);
        t = t + 1;
    }
    proof {
        assert(ps@.subrange(0, ps@.len() as int) =~= ps@);
    }
    out
}

/// The type environments of all bodies, grouped by owner, and the issues
/// found while building them.
pub struct BodyTypeEnvironmentTable {
    by_owner: SortedMap<DeclarationOwner, Vec<BodyTypeEnvironment>>,
    pub issues: Vec<BodyEnvIssue>,
}

/// The environments of every entry, flattened in entry order.
pub open spec fn flatten_envs(s: Seq<(DeclarationOwner, Vec<BodyTypeEnvironment>)>) -> Seq<BodyTypeEnvironment>
    decreases s.len(),
{
    if s.len() == 0 {
        seq![]
    } else {
        flatten_envs(s.drop_last()) + s.last().1@
    }
}

impl BodyTypeEnvironmentTable {
    /// The environments by owner, owners ascending.
    pub closed spec fn spec_envs(&self) -> Seq<(DeclarationOwner, Vec<BodyTypeEnvironment>)> {
        self.by_owner@
    }

    /// The issues found while building the environments.
    pub closed spec fn spec_issues(&self) -> Seq<BodyEnvIssue> {
        self.issues@
    }

    /// The issues found while building the environments, in order.
    pub fn issues(&self) -> (r: &Vec<BodyEnvIssue>)
        ensures
            r@ == self.spec_issues(),
    {
        &self.issues
    }

    /// The environments of `owner`'s bodies in body-index order; empty for an
    /// owner without bodies.
    pub fn envs_for_owner(&self, owner: &DeclarationOwner) -> (r: &[BodyTypeEnvironment])
        ensures
            r@ == (match entries_lookup(self.spec_envs(), *owner) {
                Some(v) => v@,
                None => Seq::<BodyTypeEnvironment>::empty(),
            }),
    {
        match self.by_owner.get(owner) {
            Some(v) => v.as_slice(),
            None => &[],
        }
    }

    /// Every environment: owners ascending, each owner's bodies in order.
    pub fn iter(&self) -> (r: Vec<&BodyTypeEnvironment>)
        ensures
            r@.len() == flatten_envs(self.spec_envs()).len(),
            forall|k: int| 0 <= k < r@.len() ==> *(#[trigger] r@[k]) == flatten_envs(self.spec_envs())[k],
    {
        let entries = self.by_owner.entries();
        let mut out: Vec<&BodyTypeEnvironment> = Vec::new();
        let mut j: usize = 0;
        while j < entries.len()
            invariant
                j <= entries@.len(),
                entries@ == self.spec_envs(),
                out@.len() == flatten_envs(entries@.subrange(0, j as int)).len(),
                forall|k: int| 0 <= k < out@.len() ==> *(#[trigger] out@[k]) == flatten_envs(entries@.subrange(0, j as int))[k],
            decreases entries@.len() - j,
        {
            let envs = &entries[j].1;
            let ghost before = flatten_envs(entries@.subrange(0, j as int));
            proof {
                assert(entries@.subrange(0, j as int + 1).drop_last() =~= entries@.subrange(0, j as int));
            }
            let mut k: usize = 0;
            while k < envs.len()
                invariant
                    k <= envs@.len(),
                    out@.len() == before.len() + k,
                    forall|m: int| 0 <= m < out@.len() ==> *(#[trigger] out@[m]) == (before + envs@)[m],
                decreases envs@.len() - k,
            {
                out.push(&envs[k]);
                k = k + 1;
            }
            j = j + 1;
        }
        proof {
            assert(entries@.subrange(0, entries@.len() as int) =~= entries@);
        }
        out
    }

    /// Total number of environments.
    pub fn len(&self) -> (n: usize)
        requires
            flatten_envs(self.spec_envs()).len() <= usize::MAX,
        ensures
            n == flatten_envs(self.spec_envs()).len(),
    {
        let entries = self.by_owner.entries();
        let mut total: usize = 0;
        let mut j: usize = 0;
        proof {
            lemma_flatten_prefix_len(entries@);
        }
        while j < entries.len()
            invariant
                j <= entries@.len(),
                entries@ == self.spec_envs(),
                total == flatten_envs(entries@.subrange(0, j as int)).len(),
                flatten_envs(entries@).len() <= usize::MAX,
                forall|a: int| 0 <= a <= entries@.len() ==> #[trigger] flatten_envs(entries@.subrange(0, a)).len() <= flatten_envs(entries@).len(),
            decreases entries@.len() - j,
        {
            proof {
                assert(entries@.subrange(0, j as int + 1).drop_last() =~= entries@.subrange(0, j as int));
                assert(flatten_envs(entries@.subrange(0, j as int + 1)).len() <= flatten_envs(entries@).len());
            }
            total = total + entries[j].1.len();
            j = j + 1;
        }
        proof {
            assert(entries@.subrange(0, entries@.len() as int) =~= entries@);
        }
        total
    }

    /// True when there is no environment.
    pub fn is_empty(&self) -> (b: bool)
        ensures
            b == (flatten_envs(self.spec_envs()).len() == 0),
    {
        let entries = self.by_owner.entries();
        let mut j: usize = 0;
        while j < entries.len()
            invariant
                j <= entries@.len(),
                entries@ == self.spec_envs(),
                flatten_envs(entries@.subrange(0, j as int)).len() == 0,
            decreases entries@.len() - j,
        {
            proof {
                assert(entries@.subrange(0, j as int + 1).drop_last() =~= entries@.subrange(0, j as int));
            }
            if entries[j].1.len() != 0 {
                proof {
                    lemma_flatten_prefix_len(entries@);
                    assert(flatten_envs(entries@.subrange(0, j as int + 1)).len() > 0);
                }
                return false;
            }
            j = j + 1;
        }
        proof {
            assert(entries@.subrange(0, entries@.len() as int) =~= entries@);
        }
        true
    }
}

proof fn lemma_flatten_prefix_len(s: Seq<(DeclarationOwner, Vec<BodyTypeEnvironment>)>)
    ensures
        forall|a: int| 0 <= a <= s.len() ==> #[trigger] flatten_envs(s.subrange(0, a)).len() <= flatten_envs(s).len(),
    decreases s.len(),
{
    if s.len() > 0 {
        lemma_flatten_prefix_len(s.drop_last());
        assert forall|a: int| 0 <= a <= s.len() implies #[trigger] flatten_envs(s.subrange(0, a)).len() <= flatten_envs(s).len() by {
            if a < s.len() {
                assert(s.subrange(0, a) =~= s.drop_last().subrange(0, a));
                assert(flatten_envs(s.drop_last().subrange(0, a)).len() <= flatten_envs(s.drop_last()).len());
            } else {
                assert(s.subrange(0, a) =~= s);
            }
        }
    }
}

/// The environments of the bodies at `positions`, sorted by body index,
/// appending their issues in that order.
fn build_owner_envs(bodies: &Vec<ResolvedBody>, positions: &Vec<usize>, typed_items: &TypedItemTable, issues: &mut Vec<BodyEnvIssue>) -> (envs: Vec<BodyTypeEnvironment>)
    requires
        forall|i: int| 0 <= i < bodies@.len() ==> (#[trigger] bodies@[i]).locals@.len() < usize::MAX,
        forall|m: int| 0 <= m < positions@.len() ==> #[trigger] positions@[m] < bodies@.len(),
    ensures
        envs_of_positions(envs@, *typed_items, bodies@, sort_by_body_index(bodies@, positions@)),
        issue_views(final(issues)@) == issue_views(old(issues)@) + positions_issues(*typed_items, bodies@, sort_by_body_index(bodies@, positions@)),
{
    let order = sort_positions_by_body_index(bodies, positions);
    let ghost bs = bodies@;
    let ghost base = issue_views(issues@);
    let mut envs: Vec<BodyTypeEnvironment> = Vec::new();
    let mut k: usize = 0;
    proof {
        assert(order@.subrange(0, 0) =~= Seq::<usize>::empty());
        assert(issue_views(issues@) =~= base + seq![]);
    }
    while k < order.len()
        invariant
            k <= order@.len(),
            bodies@ == bs,
            forall|i: int| 0 <= i < bs.len() ==> (#[trigger] bs[i]).locals@.len() < usize::MAX,
            forall|m: int| 0 <= m < order@.len() ==> #[trigger] order@[m] < bs.len(),
            envs@.len() == k,
            forall|m: int| 0 <= m < k ==> is_body_env_of(#[trigger] envs@[m], *typed_items, bs[order@[m] as int]),
            issue_views(issues@) == base + positions_issues(*typed_items, bs, order@.subrange(0, k as int)),
        decreases order@.len() - k,
    {
        let p = order[k];
        proof {
            assert(bs[p as int].locals@.len() < usize::MAX);
            assert(order@.subrange(0, k as int + 1).drop_last() =~= order@.subrange(0, k as int));
        }
        let env = build_one_body_env(&bodies[p], typed_items, issues);
        envs.push(env);
        proof {
            assert(base + positions_issues(*typed_items, bs, order@.subrange(0, k as int)) + body_env_issues(*typed_items, bs[p as int])
                =~= base + positions_issues(*typed_items, bs, order@.subrange(0, k as int + 1)));
        }
        k = k + 1;
    }
    proof {
        assert(order@.subrange(0, order@.len() as int) =~= order@);
    }
    envs
}

/// The positions of the bodies of each owner, in order.
pub(crate) fn group_positions_by_owner(bodies: &Vec<ResolvedBody>) -> (grouped: SortedMap<DeclarationOwner, Vec<usize>>)
    ensures
        forall|o: DeclarationOwner| #[trigger] entries_contain(grouped@, o) <==> owner_positions(bodies@, o, bodies@.len()).len() > 0,
        forall|o: DeclarationOwner| entries_contain(grouped@, o) ==> (#[trigger] entries_list_map(grouped@)[o]) == owner_positions(bodies@, o, bodies@.len()),
{
    let ghost bs = bodies@;
    let mut grouped: SortedMap<DeclarationOwner, Vec<usize>> = SortedMap::new();
    let mut i: usize = 0;
    while i < bodies.len()
        invariant
            i <= bs.len(),
            bodies@ == bs,
            forall|o: DeclarationOwner| #[trigger] entries_contain(grouped@, o) <==> owner_positions(bs, o, i as nat).len() > 0,
            forall|o: DeclarationOwner| entries_contain(grouped@, o) ==> (#[trigger] entries_list_map(grouped@)[o]) == owner_positions(bs, o, i as nat),
        decreases bs.len() - i,
    {
        let owner = bodies[i].owner;
        let ghost g0 = grouped@;
        grouped.push_value(owner, i);
        proof {
            assert forall|o: DeclarationOwner| #[trigger] entries_contain(grouped@, o) <==> owner_positions(bs, o, i as nat + 1).len() > 0 by {
                if o == owner {
                    assert(owner_positions(bs, o, i as nat + 1) == owner_positions(bs, o, i as nat).push(i));
                } else {
                    assert(owner_positions(bs, o, i as nat + 1) == owner_positions(bs, o, i as nat));
                }
            }
            assert forall|o: DeclarationOwner| entries_contain(grouped@, o) implies (#[trigger] entries_list_map(grouped@)[o]) == owner_positions(bs, o, i as nat + 1) by {
                assert(entries_list_map(g0).contains_key(o) == entries_contain(g0, o));
                if o == owner {
                    assert(owner_positions(bs, o, i as nat + 1) == owner_positions(bs, o, i as nat).push(i));
                    if !entries_contain(g0, o) {
                        assert(owner_positions(bs, o, i as nat) =~= Seq::<usize>::empty());
                    }
                } else {
                    assert(owner_positions(bs, o, i as nat + 1) == owner_positions(bs, o, i as nat));
                    assert(entries_list_map(grouped@)[o] == entries_list_map(g0)[o]);
                }
            }
        }
        i = i + 1;
    }
    grouped
}

/// Owners of a list of entries, in order.
pub open spec fn entry_owners(s: Seq<(DeclarationOwner, Vec<BodyTypeEnvironment>)>) -> Seq<DeclarationOwner> {
    s.map_values(|e: (DeclarationOwner, Vec<BodyTypeEnvironment>)| e.0)
}

/// Whether `r` holds the environments of `bodies` typed with `typed_items`
/// (see [`build_body_type_environments`]).
pub open spec fn body_envs_built(r: BodyTypeEnvironmentTable, bodies: Seq<ResolvedBody>, typed_items: TypedItemTable) -> bool {
    &&& entries_sorted(r.spec_envs())
    &&& forall|o: DeclarationOwner| #[trigger] entries_contain(r.spec_envs(), o) <==> exists|i: int|
        0 <= i < bodies.len() && (#[trigger] bodies[i]).owner == o
    &&& forall|j: int| 0 <= j < r.spec_envs().len() ==> envs_of_positions(
        (#[trigger] r.spec_envs()[j]).1@,
        typed_items,
        bodies,
        owner_body_order(bodies, r.spec_envs()[j].0),
    )
    &&& issue_views(r.spec_issues()) == owners_issues(typed_items, bodies, entry_owners(r.spec_envs()))
}

/// Builds the type environment of every body: bodies are grouped by owner,
/// owners taken in ascending order and each owner's bodies by body index
/// (ties in resolution order); issues are reported in that order.
pub fn build_body_type_environments(resolved_bodies: &ResolvedBodyTable, typed_items: &TypedItemTable) -> (r: BodyTypeEnvironmentTable)
    requires
        forall|i: int| 0 <= i < resolved_bodies.bodies@.len() ==> (#[trigger] resolved_bodies.bodies@[i]).locals@.len() < usize::MAX,
    ensures
        body_envs_built(r, resolved_bodies.bodies@, *typed_items),
{
    let bodies = resolved_bodies.iter();
    let ghost bs = bodies@;
    let grouped = group_positions_by_owner(bodies);
    let groups = grouped.entries();
    let mut issues: Vec<BodyEnvIssue> = Vec::new();
    let mut by_owner: Vec<(DeclarationOwner, Vec<BodyTypeEnvironment>)> = Vec::new();
    let mut j: usize = 0;
    while j < groups.len()
        invariant
            j <= groups@.len(),
            entries_sorted(groups@),
            bodies@ == bs,
            bs == resolved_bodies.bodies@,
            forall|i: int| 0 <= i < bs.len() ==> (#[trigger] bs[i]).locals@.len() < usize::MAX,
            forall|o: DeclarationOwner| entries_contain(groups@, o) ==> (#[trigger] entries_list_map(groups@)[o]) == owner_positions(bs, o, bs.len()),
            by_owner@.len() == j,
            forall|k: int| 0 <= k < j ==> (#[trigger] by_owner@[k]).0 == groups@[k].0,
            forall|k: int| 0 <= k < j ==> envs_of_positions((#[trigger] by_owner@[k]).1@, *typed_items, bs, owner_body_order(bs, by_owner@[k].0)),
            issue_views(issues@) == owners_issues(*typed_items, bs, entry_owners(by_owner@)),
        decreases groups@.len() - j,
    {
        let owner = groups[j].0;
        let positions = &groups[j].1;
        proof {
            crate::collections::sorted_map::lemma_lookup_at(groups@, j as int);
            assert(entries_contain(groups@, owner));
            assert(entries_list_map(groups@)[owner] == groups@[j as int].1@);
            assert(positions@ == owner_positions(bs, owner, bs.len()));
            lemma_owner_positions_nonempty(bs, owner, bs.len());
        }
        let ghost base = issue_views(issues@);
        let envs = build_owner_envs(bodies, positions, typed_items, &mut issues);
        let ghost old_by_owner = by_owner@;
        by_owner.push((owner, envs));
        proof {
            assert(issue_views(issues@) == base + positions_issues(*typed_items, bs, owner_body_order(bs, owner)));
            assert(entry_owners(by_owner@).drop_last() =~= entry_owners(old_by_owner));
            assert(entry_owners(by_owner@).last() == owner);
        }
        j = j + 1;
    }
    proof {
        assert forall|a: int, b: int| 0 <= a < b < by_owner@.len() implies #[trigger] by_owner@[a].0.key_lt(#[trigger] by_owner@[b].0) by {
            assert(groups@[a].0.key_lt(groups@[b].0));
        }
        assert forall|o: DeclarationOwner| #[trigger] entries_contain(by_owner@, o) <==> exists|i: int|
            0 <= i < bs.len() && (#[trigger] bs[i]).owner == o by {
            lemma_owner_positions_nonempty(bs, o, bs.len());
            if entries_contain(by_owner@, o) {
                let k = choose|k: int| 0 <= k < by_owner@.len() && #[trigger] by_owner@[k].0 == o;
                assert(groups@[k].0 == o);
                assert(entries_contain(groups@, o));
            }
            if entries_contain(groups@, o) {
                let k = choose|k: int| 0 <= k < groups@.len() && #[trigger] groups@[k].0 == o;
                assert(by_owner@[k].0 == o);
            }
        }
    }
    BodyTypeEnvironmentTable { by_owner: SortedMap::from_sorted_entries(by_owner), issues }
}

/// The first of `envs` at position `body_index`.
pub open spec fn first_env_with_index(envs: Seq<BodyTypeEnvironment>, body_index: usize) -> Option<BodyTypeEnvironment>
    decreases envs.len(),
{
    if envs.len() == 0 {
        None
    } else if envs[0].body_index == body_index {
        Some(envs[0])
    } else {
        first_env_with_index(envs.drop_first(), body_index)
    }
}

/// The environment of body `body_index` of `owner`, if any.
pub open spec fn env_for(body_envs: BodyTypeEnvironmentTable, owner: DeclarationOwner, body_index: usize) -> Option<BodyTypeEnvironment> {
    match entries_lookup(body_envs.spec_envs(), owner) {
        Some(v) => first_env_with_index(v@, body_index),
        None => None,
    }
}

/// The first of `envs` at position `body_index`.
pub(crate) fn find_env_with_index<'a>(envs: &'a [BodyTypeEnvironment], body_index: usize) -> (r: Option<&'a BodyTypeEnvironment>)
    ensures
        match r {
            Some(e) => first_env_with_index(envs@, body_index) == Some(*e),
            None => first_env_with_index(envs@, body_index) is None,
        },
{
    let mut i: usize = 0;
    proof {
        assert(envs@.subrange(0, envs@.len() as int) =~= envs@);
    }
    while i < envs.len()
        invariant
            i <= envs@.len(),
            first_env_with_index(envs@, body_index) == first_env_with_index(envs@.subrange(i as int, envs@.len() as int), body_index),
        decreases envs@.len() - i,
    {
        proof {
            assert(envs@.subrange(i as int, envs@.len() as int).drop_first() =~= envs@.subrange(i as int + 1, envs@.len() as int));
        }
        if envs[i].body_index == body_index {
            return Some(&envs[i]);
        }
        i = i + 1;
    }
    None
}

/// A copy of a map of local types.
pub(crate) fn copy_local_types(m: &SortedMap<LocalId, Type>) -> (r: SortedMap<LocalId, Type>)
    ensures
        r@ == m@,
{
    let entries = m.entries();
    let mut out: Vec<(LocalId, Type)> = Vec::new();
    let mut i: usize = 0;
    while i < entries.len()
        invariant
            i <= entries@.len(),
            out@ == entries@.subrange(0, i as int),
        decreases entries@.len() - i,
    {
        out.push((entries[i].0, entries[i].1.clone()));
        proof {
            assert(out@ =~= entries@.subrange(0, i as int + 1));
        }
        i = i + 1;
    }
    proof {
        assert(out@ =~= entries@);
    }
    SortedMap::from_sorted_entries(out)
}

} // verus!
