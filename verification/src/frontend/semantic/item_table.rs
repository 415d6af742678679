//! The typed item table: each global item joined with its typed
//! signature, grouped by kind and by scope file, plus impl attachments.

use crate::collections::sorted_map::{entries_list_map, entries_map, SortedMap};
use crate::collections::MapKey;
use crate::frontend::resolver::{DeclarationOwner, GlobalItem, GlobalItemTable, ItemId, ItemKind};
use crate::frontend::semantic::types::Type;
use crate::frontend::source::FileId;
use crate::midend::type_check::signatures::{
    TypedEnumSignatureData, TypedFunctionSignature, TypedImplSignature,
    TypedProtocolSignatureData, TypedSignatureTable, TypedStructSignatureData,
};
use vstd::prelude::*;

verus! {

/// Kinds of items that carry a typed signature.
#[derive(Debug, Clone, Copy, PartialEq, Eq, PartialOrd, Ord, Structural)]
pub enum TypedItemKind {
    Function,
    Struct,
    Enum,
    Protocol,
}

/// Rank of a typed item kind in declaration order.
pub open spec fn typed_kind_rank(k: TypedItemKind) -> int {
    match k {
        TypedItemKind::Function => 0,
        TypedItemKind::Struct => 1,
        TypedItemKind::Enum => 2,
        TypedItemKind::Protocol => 3,
    }
}

impl MapKey for TypedItemKind {
    open spec fn key_lt(self, other: Self) -> bool {
        typed_kind_rank(self) < typed_kind_rank(other)
    }

    proof fn lemma_key_lt_irreflexive(a: Self) {
    }

    proof fn lemma_key_lt_transitive(a: Self, b: Self, c: Self) {
    }

    proof fn lemma_key_lt_total(a: Self, b: Self) {
    }

    fn less_than(&self, other: &Self) -> (r: bool) {
        let a: u8 = match self {
            TypedItemKind::Function => 0,
            TypedItemKind::Struct => 1,
            TypedItemKind::Enum => 2,
            TypedItemKind::Protocol => 3,
        };
        let b: u8 = match other {
            TypedItemKind::Function => 0,
            TypedItemKind::Struct => 1,
            TypedItemKind::Enum => 2,
            TypedItemKind::Protocol => 3,
        };
        a < b
    }

    fn same_key(&self, other: &Self) -> (r: bool) {
        *self == *other
    }

    fn copy_key(&self) -> (r: Self) {
        *self
    }
}

/// The typed kind of a resolver item kind; scopes have none.
pub open spec fn typed_kind_of(kind: ItemKind) -> Option<TypedItemKind> {
    match kind {
        ItemKind::Function => Some(TypedItemKind::Function),
        ItemKind::Struct => Some(TypedItemKind::Struct),
        ItemKind::Enum => Some(TypedItemKind::Enum),
        ItemKind::Protocol => Some(TypedItemKind::Protocol),
        ItemKind::Scope => None,
    }
}

impl TypedItemKind {
    /// The typed kind of a resolver item kind; `None` for scopes.
    pub fn from_item_kind(kind: ItemKind) -> (r: Option<Self>)
        ensures
            r == typed_kind_of(kind),
    {
        match kind {
            ItemKind::Function => Some(TypedItemKind::Function),
            ItemKind::Struct => Some(TypedItemKind::Struct),
            ItemKind::Enum => Some(TypedItemKind::Enum),
            ItemKind::Protocol => Some(TypedItemKind::Protocol),
            ItemKind::Scope => None,
        }
    }
}

/// The signature data of one typed item.
#[derive(Debug)]
pub enum TypedItemData {
    Function(TypedFunctionSignature),
    Struct(TypedStructSignatureData),
    Enum(TypedEnumSignatureData),
    Protocol(TypedProtocolSignatureData),
}

/// Where an impl block attaches.
#[derive(Debug, Clone, Copy, PartialEq, Eq, Structural)]
pub struct TypedImplAttachment {
    pub owner: DeclarationOwner,
    pub containing_scope_file_id: FileId,
    pub target_item_id: Option<ItemId>,
    pub conformance_item_id: Option<ItemId>,
}

/// Inconsistencies between the global item table and the signatures.
#[derive(Debug, Clone, Copy, PartialEq, Eq, Structural)]
pub enum TypedItemTableIssueKind {
    MissingSignatureForGlobalItem { item_kind: TypedItemKind },
    SignatureWithoutGlobalItem { signature_kind: TypedItemKind },
    SignatureKindMismatch { global_kind: ItemKind, signature_kind: TypedItemKind },
    DuplicateImplOwner { owner: DeclarationOwner },
}

/// An issue found while building the typed item table.
#[derive(Debug, Clone, Copy, PartialEq, Eq, Structural)]
pub struct TypedItemTableIssue {
    pub associated_item_id: Option<ItemId>,
    pub kind: TypedItemTableIssueKind,
}

/// Whether the signature table holds a signature of kind `k` for `id`.
pub open spec fn has_signature(sigs: TypedSignatureTable, id: ItemId, k: TypedItemKind) -> bool {
    match k {
        TypedItemKind::Function => sigs.functions.spec_get(id) is Some,
        TypedItemKind::Struct => sigs.structs.spec_get(id) is Some,
        TypedItemKind::Enum => sigs.enums.spec_get(id) is Some,
        TypedItemKind::Protocol => sigs.protocols.spec_get(id) is Some,
    }
}

/// `d` carries the content of the signature of kind `k` stored for `id`.
pub open spec fn copies_signature(d: TypedItemData, sigs: TypedSignatureTable, id: ItemId, k: TypedItemKind) -> bool {
    match (d, k) {
        (TypedItemData::Function(f), TypedItemKind::Function) => sigs.functions.spec_get(id) matches Some(g) && f@ == g@,
        (TypedItemData::Struct(f), TypedItemKind::Struct) => sigs.structs.spec_get(id) matches Some(g) && f@ == g@,
        (TypedItemData::Enum(f), TypedItemKind::Enum) => sigs.enums.spec_get(id) matches Some(g) && f@ == g@,
        (TypedItemData::Protocol(f), TypedItemKind::Protocol) => sigs.protocols.spec_get(id) matches Some(g) && f@ == g@,
        _ => false,
    }
}

/// A global item of a typed kind that has a signature.
pub open spec fn is_typed_item(g: GlobalItem, sigs: TypedSignatureTable) -> bool {
    typed_kind_of(g.kind) matches Some(k) && has_signature(sigs, g.id, k)
}

/// Ids of the typed items of kind `k`, in table order.
pub open spec fn kind_ids(items: Seq<GlobalItem>, sigs: TypedSignatureTable, k: TypedItemKind) -> Seq<ItemId>
    decreases items.len(),
{
    if items.len() == 0 {
        seq![]
    } else {
        let g = items.last();
        kind_ids(items.drop_last(), sigs, k) + if is_typed_item(g, sigs) && typed_kind_of(g.kind) == Some(k) {
            seq![g.id]
        } else {
            seq![]
        }
    }
}

/// Ids of the typed items of scope file `f`, in table order.
pub open spec fn scope_ids(items: Seq<GlobalItem>, sigs: TypedSignatureTable, f: FileId) -> Seq<ItemId>
    decreases items.len(),
{
    if items.len() == 0 {
        seq![]
    } else {
        let g = items.last();
        scope_ids(items.drop_last(), sigs, f) + if is_typed_item(g, sigs) && g.containing_scope_file_id == f {
            seq![g.id]
        } else {
            seq![]
        }
    }
}

/// One issue per item of a typed kind that lacks a signature, in table order.
pub open spec fn missing_signature_issues(items: Seq<GlobalItem>, sigs: TypedSignatureTable) -> Seq<TypedItemTableIssue>
    decreases items.len(),
{
    if items.len() == 0 {
        seq![]
    } else {
        let g = items.last();
        missing_signature_issues(items.drop_last(), sigs) + match typed_kind_of(g.kind) {
            Some(k) => if has_signature(sigs, g.id, k) {
                seq![]
            } else {
                seq![TypedItemTableIssue {
                    associated_item_id: Some(g.id),
                    kind: TypedItemTableIssueKind::MissingSignatureForGlobalItem { item_kind: k },
                }]
            },
            None => seq![],
        }
    }
}

/// The global item with id `id`, if any.
pub open spec fn global_item(items: Seq<GlobalItem>, id: ItemId) -> Option<GlobalItem> {
    if exists|i: int| 0 <= i < items.len() && #[trigger] items[i].id == id {
        Some(items[choose|i: int| 0 <= i < items.len() && #[trigger] items[i].id == id])
    } else {
        None
    }
}

/// The issue a signature of kind `k` for `id` raises against the global items, if any.
pub open spec fn consistency_issue(items: Seq<GlobalItem>, id: ItemId, k: TypedItemKind) -> Seq<TypedItemTableIssue> {
    match global_item(items, id) {
        None => seq![TypedItemTableIssue {
            associated_item_id: Some(id),
            kind: TypedItemTableIssueKind::SignatureWithoutGlobalItem { signature_kind: k },
        }],
        Some(g) => if typed_kind_of(g.kind) == Some(k) {
            seq![]
        } else {
            seq![TypedItemTableIssue {
                associated_item_id: Some(id),
                kind: TypedItemTableIssueKind::SignatureKindMismatch { global_kind: g.kind, signature_kind: k },
            }]
        },
    }
}

/// Consistency issues of signatures of kind `k` with the given ids, in order.
pub open spec fn consistency_issues(items: Seq<GlobalItem>, ids: Seq<ItemId>, k: TypedItemKind) -> Seq<TypedItemTableIssue>
    decreases ids.len(),
{
    if ids.len() == 0 {
        seq![]
    } else {
        consistency_issues(items, ids.drop_last(), k) + consistency_issue(items, ids.last(), k)
    }
}

/// The item a named type refers to.
pub open spec fn named_item_of(ty: Type) -> Option<ItemId> {
    match ty {
        Type::Named { item_id, .. } => Some(item_id),
        _ => None,
    }
}

/// All impl signatures, scope file by scope file in ascending order.
pub open spec fn flatten_impls(s: Seq<(FileId, Vec<TypedImplSignature>)>) -> Seq<TypedImplSignature>
    decreases s.len(),
{
    if s.len() == 0 {
        seq![]
    } else {
        flatten_impls(s.drop_last()) + s.last().1@
    }
}

/// State of the impl phase: signature per owner (the last one declared),
/// attachment per owner (the first one), owners per target, issues.
pub type ImplPhase = (
    Map<DeclarationOwner, (DeclarationOwner, FileId, Type, Option<Type>, Seq<(String, (Seq<crate::midend::type_check::signatures::TypedParamLabel>, Seq<Type>, Option<Type>))>, Seq<(Seq<crate::midend::type_check::signatures::TypedParamLabel>, Seq<Type>, Option<Type>)>)>,
    Map<DeclarationOwner, TypedImplAttachment>,
    Map<ItemId, Seq<DeclarationOwner>>,
    Seq<TypedItemTableIssue>,
);

/// The impl phase over impls in order: a repeated owner replaces the stored
/// signature and is reported as a duplicate; a new owner also gets an
/// attachment and is listed under its target item.
pub open spec fn impl_phase(impls: Seq<TypedImplSignature>) -> ImplPhase
    decreases impls.len(),
{
    if impls.len() == 0 {
        (Map::empty(), Map::empty(), Map::empty(), seq![])
    } else {
        let (sigs, atts, owners, issues) = impl_phase(impls.drop_last());
        let imp = impls.last();
        let target = named_item_of(imp.target);
        if sigs.contains_key(imp.owner) {
            (
                sigs.insert(imp.owner, imp@),
                atts,
                owners,
                issues.push(TypedItemTableIssue {
                    associated_item_id: target,
                    kind: TypedItemTableIssueKind::DuplicateImplOwner { owner: imp.owner },
                }),
            )
        } else {
            let conformance = match imp.conformance {
                Some(c) => named_item_of(c),
                None => None,
            };
            (
                sigs.insert(imp.owner, imp@),
                atts.insert(imp.owner, TypedImplAttachment {
                    owner: imp.owner,
                    containing_scope_file_id: imp.containing_scope_file_id,
                    target_item_id: target,
                    conformance_item_id: conformance,
                }),
                match target {
                    Some(t) => owners.insert(t, (if owners.contains_key(t) {
                        owners[t]
                    } else {
                        Seq::empty()
                    }).push(imp.owner)),
                    None => owners,
                },
                issues,
            )
        }
    }
}

/// Ids are unique in a sorted global item table.
proof fn lemma_global_item_at(items: Seq<GlobalItem>, i: int)
    requires
        crate::frontend::resolver::global_items_sorted(items),
        0 <= i < items.len(),
    ensures
        global_item(items, items[i].id) == Some(items[i]),
{
    let id = items[i].id;
    assert(exists|j: int| 0 <= j < items.len() && #[trigger] items[j].id == id);
    let j = choose|j: int| 0 <= j < items.len() && #[trigger] items[j].id == id;
    if j < i {
        assert(items[j].id.0 < items[i].id.0);
    } else if j > i {
        assert(items[i].id.0 < items[j].id.0);
    }
}

/// The signature data stored for `item_id` under kind `kind`, copied.
fn signature_data_for_item(signatures: &TypedSignatureTable, item_id: ItemId, kind: TypedItemKind) -> (r: Option<TypedItemData>)
    ensures
        match r {
            Some(d) => has_signature(*signatures, item_id, kind) && copies_signature(d, *signatures, item_id, kind),
            None => !has_signature(*signatures, item_id, kind),
        },
{
    match kind {
        TypedItemKind::Function => match signatures.functions.get(&item_id) {
            Some(s) => Some(TypedItemData::Function(s.clone_content())),
            None => None,
        },
        TypedItemKind::Struct => match signatures.structs.get(&item_id) {
            Some(s) => Some(TypedItemData::Struct(s.clone_content())),
            None => None,
        },
        TypedItemKind::Enum => match signatures.enums.get(&item_id) {
            Some(s) => Some(TypedItemData::Enum(s.clone_content())),
            None => None,
        },
        TypedItemKind::Protocol => match signatures.protocols.get(&item_id) {
            Some(s) => Some(TypedItemData::Protocol(s.clone_content())),
            None => None,
        },
    }
}

/// The list stored under `k`, or the empty list.
pub open spec fn list_or_empty<K, T>(m: Map<K, Seq<T>>, k: K) -> Seq<T> {
    if m.contains_key(k) {
        m[k]
    } else {
        Seq::empty()
    }
}

/// Typed items of the global table, grouped, and the issues for items that
/// lack a signature.
fn collect_typed_items(global_items: &GlobalItemTable, signatures: &TypedSignatureTable) -> (r: (
    SortedMap<ItemId, TypedItemData>,
    SortedMap<TypedItemKind, Vec<ItemId>>,
    SortedMap<FileId, Vec<ItemId>>,
    Vec<TypedItemTableIssue>,
))
    ensures
        forall|id: ItemId| #[trigger] entries_map(r.0@).contains_key(id) <==> (global_item(global_items@, id) matches Some(g) && is_typed_item(g, *signatures)),
        forall|id: ItemId| #[trigger] entries_map(r.0@).contains_key(id) ==> copies_signature(
            entries_map(r.0@)[id],
            *signatures,
            id,
            typed_kind_of(global_item(global_items@, id).unwrap().kind).unwrap(),
        ),
        forall|k: TypedItemKind| #[trigger] list_or_empty(entries_list_map(r.1@), k) == kind_ids(global_items@, *signatures, k),
        forall|f: FileId| #[trigger] list_or_empty(entries_list_map(r.2@), f) == scope_ids(global_items@, *signatures, f),
        r.3@ == missing_signature_issues(global_items@, *signatures),
{
    let items = global_items.items();
    let ghost gs = items@;
    let mut by_item_id: SortedMap<ItemId, TypedItemData> = SortedMap::new();
    let mut by_kind: SortedMap<TypedItemKind, Vec<ItemId>> = SortedMap::new();
    let mut by_scope_file_id: SortedMap<FileId, Vec<ItemId>> = SortedMap::new();
    let mut issues: Vec<TypedItemTableIssue> = Vec::new();
    let mut i: usize = 0;
    while i < items.len()
        invariant
            i <= gs.len(),
            gs == items@,
            gs == global_items@,
            crate::frontend::resolver::global_items_sorted(gs),
            forall|id: ItemId| #[trigger] entries_map(by_item_id@).contains_key(id) <==> exists|j: int| 0 <= j < i && #[trigger] gs[j].id == id && is_typed_item(gs[j], *signatures),
            forall|j: int| 0 <= j < i && #[trigger] is_typed_item(gs[j], *signatures) ==> entries_map(by_item_id@).contains_key(gs[j].id) && copies_signature(
                entries_map(by_item_id@)[gs[j].id],
                *signatures,
                gs[j].id,
                typed_kind_of(gs[j].kind).unwrap(),
            ),
            forall|k: TypedItemKind| #[trigger] list_or_empty(entries_list_map(by_kind@), k) == kind_ids(gs.subrange(0, i as int), *signatures, k),
            forall|f: FileId| #[trigger] list_or_empty(entries_list_map(by_scope_file_id@), f) == scope_ids(gs.subrange(0, i as int), *signatures, f),
            issues@ == missing_signature_issues(gs.subrange(0, i as int), *signatures),
        decreases gs.len() - i,
    {
        let global_item = &items[i];
        let ghost pre = gs.subrange(0, i as int + 1);
        proof {
            assert(pre.drop_last() =~= gs.subrange(0, i as int));
            assert(pre.last() == gs[i as int]);
        }
        let typed_kind = match TypedItemKind::from_item_kind(global_item.kind) {
            Some(k) => k,
            None => {
                proof {
                    assert(!is_typed_item(gs[i as int], *signatures));
                    assert forall|k: TypedItemKind| #[trigger] list_or_empty(entries_list_map(by_kind@), k) == kind_ids(pre, *signatures, k) by {
                        assert(kind_ids(pre, *signatures, k) =~= kind_ids(gs.subrange(0, i as int), *signatures, k));
                    }
                    assert forall|f: FileId| #[trigger] list_or_empty(entries_list_map(by_scope_file_id@), f) == scope_ids(pre, *signatures, f) by {
                        assert(scope_ids(pre, *signatures, f) =~= scope_ids(gs.subrange(0, i as int), *signatures, f));
                    }
                    assert(missing_signature_issues(pre, *signatures) =~= issues@);
                    assert forall|id: ItemId| #[trigger] entries_map(by_item_id@).contains_key(id) <==> exists|j: int| 0 <= j < i + 1 && #[trigger] gs[j].id == id && is_typed_item(gs[j], *signatures) by {
                        if exists|j: int| 0 <= j < i + 1 && #[trigger] gs[j].id == id && is_typed_item(gs[j], *signatures) {
                            let j = choose|j: int| 0 <= j < i + 1 && #[trigger] gs[j].id == id && is_typed_item(gs[j], *signatures);
                            assert(j < i);
                        }
                    }
                }
                i = i + 1;
                continue;
            },
        };
        match signature_data_for_item(signatures, global_item.id, typed_kind) {
            Some(data) => {
                let ghost m_kind = entries_list_map(by_kind@);
                let ghost m_scope = entries_list_map(by_scope_file_id@);
                by_kind.push_value(typed_kind, global_item.id);
                by_scope_file_id.push_value(global_item.containing_scope_file_id, global_item.id);
                let ghost d = data;
                by_item_id.insert(global_item.id, data);
                proof {
                    assert(is_typed_item(gs[i as int], *signatures));
                    assert forall|k: TypedItemKind| #[trigger] list_or_empty(entries_list_map(by_kind@), k) == kind_ids(pre, *signatures, k) by {
                        assert(list_or_empty(m_kind, k) == kind_ids(gs.subrange(0, i as int), *signatures, k));
                    }
                    assert forall|f: FileId| #[trigger] list_or_empty(entries_list_map(by_scope_file_id@), f) == scope_ids(pre, *signatures, f) by {
                        assert(list_or_empty(m_scope, f) == scope_ids(gs.subrange(0, i as int), *signatures, f));
                    }
                    assert(missing_signature_issues(pre, *signatures) =~= issues@);
                    assert forall|id: ItemId| #[trigger] entries_map(by_item_id@).contains_key(id) <==> exists|j: int| 0 <= j < i + 1 && #[trigger] gs[j].id == id && is_typed_item(gs[j], *signatures) by {
                        if id == gs[i as int].id {
                            assert(gs[i as int].id == id && is_typed_item(gs[i as int], *signatures));
                        }
                        if exists|j: int| 0 <= j < i + 1 && #[trigger] gs[j].id == id && is_typed_item(gs[j], *signatures) {
                            let j = choose|j: int| 0 <= j < i + 1 && #[trigger] gs[j].id == id && is_typed_item(gs[j], *signatures);
                            if j < i {
                                assert(exists|j2: int| 0 <= j2 < i && #[trigger] gs[j2].id == id && is_typed_item(gs[j2], *signatures));
                            }
                        }
                    }
                    assert forall|j: int| 0 <= j < i + 1 && #[trigger] is_typed_item(gs[j], *signatures) implies entries_map(by_item_id@).contains_key(gs[j].id) && copies_signature(
                        entries_map(by_item_id@)[gs[j].id],
                        *signatures,
                        gs[j].id,
                        typed_kind_of(gs[j].kind).unwrap(),
                    ) by {
                        if j < i {
                            assert(gs[j].id.0 < gs[i as int].id.0);
                        }
                    }
                }
            },
            None => {
                issues.push(TypedItemTableIssue {
                    associated_item_id: Some(global_item.id),
                    kind: TypedItemTableIssueKind::MissingSignatureForGlobalItem { item_kind: typed_kind },
                });
                proof {
                    assert(!is_typed_item(gs[i as int], *signatures));
                    assert forall|k: TypedItemKind| #[trigger] list_or_empty(entries_list_map(by_kind@), k) == kind_ids(pre, *signatures, k) by {
                        assert(kind_ids(pre, *signatures, k) =~= kind_ids(gs.subrange(0, i as int), *signatures, k));
                    }
                    assert forall|f: FileId| #[trigger] list_or_empty(entries_list_map(by_scope_file_id@), f) == scope_ids(pre, *signatures, f) by {
                        assert(scope_ids(pre, *signatures, f) =~= scope_ids(gs.subrange(0, i as int), *signatures, f));
                    }
                    assert(missing_signature_issues(pre, *signatures) =~= issues@);
                    assert forall|id: ItemId| #[trigger] entries_map(by_item_id@).contains_key(id) <==> exists|j: int| 0 <= j < i + 1 && #[trigger] gs[j].id == id && is_typed_item(gs[j], *signatures) by {
                        if exists|j: int| 0 <= j < i + 1 && #[trigger] gs[j].id == id && is_typed_item(gs[j], *signatures) {
                            let j = choose|j: int| 0 <= j < i + 1 && #[trigger] gs[j].id == id && is_typed_item(gs[j], *signatures);
                            assert(j < i);
                        }
                    }
                }
            },
        }
        i = i + 1;
    }
    proof {
        assert(gs.subrange(0, gs.len() as int) =~= gs);
        assert forall|id: ItemId| #[trigger] entries_map(by_item_id@).contains_key(id) <==> (global_item(gs, id) matches Some(g) && is_typed_item(g, *signatures)) by {
            if exists|j: int| 0 <= j < gs.len() && #[trigger] gs[j].id == id && is_typed_item(gs[j], *signatures) {
                let j = choose|j: int| 0 <= j < gs.len() && #[trigger] gs[j].id == id && is_typed_item(gs[j], *signatures);
                lemma_global_item_at(gs, j);
            }
            if global_item(gs, id) is Some {
                let j = choose|j: int| 0 <= j < gs.len() && #[trigger] gs[j].id == id;
                lemma_global_item_at(gs, j);
            }
        }
        assert forall|id: ItemId| #[trigger] entries_map(by_item_id@).contains_key(id) implies copies_signature(
            entries_map(by_item_id@)[id],
            *signatures,
            id,
            typed_kind_of(global_item(gs, id).unwrap().kind).unwrap(),
        ) by {
            let j = choose|j: int| 0 <= j < gs.len() && #[trigger] gs[j].id == id && is_typed_item(gs[j], *signatures);
            lemma_global_item_at(gs, j);
        }
    }
    (by_item_id, by_kind, by_scope_file_id, issues)
}

/// Ids of the entries of a signature map, ascending.
pub open spec fn signature_ids<T>(s: Seq<(ItemId, T)>) -> Seq<ItemId> {
    s.map_values(|e: (ItemId, T)| e.0)
}

/// Appends an issue for each signature whose item is missing from the
/// global table or has another kind.
fn collect_signature_consistency_issues<T>(
    global_items: &GlobalItemTable,
    signatures: &SortedMap<ItemId, T>,
    signature_kind: TypedItemKind,
    issues: &mut Vec<TypedItemTableIssue>,
)
    ensures
        final(issues)@ == old(issues)@ + consistency_issues(global_items@, signature_ids(signatures@), signature_kind),
{
    let entries = signatures.entries();
    let all_items = global_items.items();
    let ghost ids = signature_ids(signatures@);
    let ghost gs = global_items@;
    let mut i: usize = 0;
    while i < entries.len()
        invariant
            i <= entries@.len(),
            entries@ == signatures@,
            ids == signature_ids(signatures@),
            gs == global_items@,
            crate::frontend::resolver::global_items_sorted(gs),
            issues@ == old(issues)@ + consistency_issues(gs, ids.subrange(0, i as int), signature_kind),
        decreases entries@.len() - i,
    {
        let item_id = entries[i].0;
        let ghost pre = ids.subrange(0, i as int + 1);
        proof {
            assert(pre.drop_last() =~= ids.subrange(0, i as int));
            assert(pre.last() == item_id);
        }
        let ghost before = issues@;
        match global_items.get(item_id) {
            None => {
                issues.push(TypedItemTableIssue {
                    associated_item_id: Some(item_id),
                    kind: TypedItemTableIssueKind::SignatureWithoutGlobalItem { signature_kind },
                });
                proof {
                    assert(global_item(gs, item_id) is None);
                    assert(issues@ =~= old(issues)@ + consistency_issues(gs, pre, signature_kind));
                }
            },
            Some(global_item) => {
                proof {
                    let j = choose|j: int| 0 <= j < gs.len() && gs[j] == global_item;
                    lemma_global_item_at(gs, j);
                }
                match TypedItemKind::from_item_kind(global_item.kind) {
                    None => {
                        issues.push(TypedItemTableIssue {
                            associated_item_id: Some(item_id),
                            kind: TypedItemTableIssueKind::SignatureKindMismatch {
                                global_kind: global_item.kind,
                                signature_kind,
                            },
                        });
                    },
                    Some(global_kind) => {
                        if global_kind != signature_kind {
                            issues.push(TypedItemTableIssue {
                                associated_item_id: Some(item_id),
                                kind: TypedItemTableIssueKind::SignatureKindMismatch {
                                    global_kind: global_item.kind,
                                    signature_kind,
                                },
                            });
                        }
                    },
                }
                proof {
                    assert(issues@ =~= old(issues)@ + consistency_issues(gs, pre, signature_kind));
                }
            },
        }
        i = i + 1;
    }
    proof {
        assert(ids.subrange(0, ids.len() as int) =~= ids);
    }
}

/// Impl signatures by owner, each by its content.
pub open spec fn impl_views(s: Seq<(DeclarationOwner, TypedImplSignature)>) -> Map<DeclarationOwner, <TypedImplSignature as View>::V> {
    Map::new(|k: DeclarationOwner| entries_map(s).contains_key(k), |k: DeclarationOwner| entries_map(s)[k]@)
}

/// The item a named type refers to.
fn named_item_id(ty: &Type) -> (r: Option<ItemId>)
    ensures
        r == named_item_of(*ty),
{
    match ty {
        Type::Named { item_id, .. } => Some(*item_id),
        _ => None,
    }
}

/// Runs the impl phase over all impl signatures.
fn collect_impls(signatures: &TypedSignatureTable) -> (r: (
    SortedMap<DeclarationOwner, TypedImplSignature>,
    SortedMap<DeclarationOwner, TypedImplAttachment>,
    SortedMap<ItemId, Vec<DeclarationOwner>>,
    Vec<TypedItemTableIssue>,
))
    ensures
        ({
            let phase = impl_phase(flatten_impls(signatures.impls_by_scope_file_id@));
            &&& impl_views(r.0@) == phase.0
            &&& entries_map(r.1@) == phase.1
            &&& entries_list_map(r.2@) == phase.2
            &&& r.3@ == phase.3
        }),
{
    let files = signatures.impls_by_scope_file_id.entries();
    let ghost fs = files@;
    let mut sigs_by_owner: SortedMap<DeclarationOwner, TypedImplSignature> = SortedMap::new();
    let mut atts_by_owner: SortedMap<DeclarationOwner, TypedImplAttachment> = SortedMap::new();
    let mut owners_by_target: SortedMap<ItemId, Vec<DeclarationOwner>> = SortedMap::new();
    let mut issues: Vec<TypedItemTableIssue> = Vec::new();
    proof {
        assert(impl_views(sigs_by_owner@) =~= Map::empty());
        assert(entries_map(atts_by_owner@) =~= Map::empty());
        assert(entries_list_map(owners_by_target@) =~= Map::empty());
        assert(fs.subrange(0, 0) =~= Seq::<(FileId, Vec<TypedImplSignature>)>::empty());
    }
    let mut f: usize = 0;
    while f < files.len()
        invariant
            f <= fs.len(),
            fs == files@,
            fs == signatures.impls_by_scope_file_id@,
            ({
                let phase = impl_phase(flatten_impls(fs.subrange(0, f as int)));
                &&& impl_views(sigs_by_owner@) == phase.0
                &&& entries_map(atts_by_owner@) == phase.1
                &&& entries_list_map(owners_by_target@) == phase.2
                &&& issues@ == phase.3
            }),
        decreases fs.len() - f,
    {
        let impls = &files[f].1;
        let ghost base = flatten_impls(fs.subrange(0, f as int));
        proof {
            assert(fs.subrange(0, f as int + 1).drop_last() =~= fs.subrange(0, f as int));
            assert(flatten_impls(fs.subrange(0, f as int + 1)) == base + impls@);
            assert(base + impls@.subrange(0, 0) =~= base);
        }
        let mut j: usize = 0;
        while j < impls.len()
            invariant
                j <= impls@.len(),
                ({
                    let phase = impl_phase(base + impls@.subrange(0, j as int));
                    &&& impl_views(sigs_by_owner@) == phase.0
                    &&& entries_map(atts_by_owner@) == phase.1
                    &&& entries_list_map(owners_by_target@) == phase.2
                    &&& issues@ == phase.3
                }),
            decreases impls@.len() - j,
        {
            let imp = &impls[j];
            let ghost prev = base + impls@.subrange(0, j as int);
            let ghost next = base + impls@.subrange(0, j as int + 1);
            proof {
                assert(next.drop_last() =~= prev);
                assert(next.last() == *imp);
            }
            let ghost phase0 = impl_phase(prev);
            let owner = imp.owner;
            let target_item_id = named_item_id(&imp.target);
            let conformance_item_id = match &imp.conformance {
                Some(c) => named_item_id(c),
                None => None,
            };
            let copy = imp.clone_content();
            let ghost sigs_before = sigs_by_owner@;
            let previous = sigs_by_owner.insert(owner, copy);
            proof {
                assert(impl_views(sigs_by_owner@) =~= phase0.0.insert(owner, imp@));
                assert(previous is Some <==> phase0.0.contains_key(owner));
            }
            if previous.is_some() {
                issues.push(TypedItemTableIssue {
                    associated_item_id: target_item_id,
                    kind: TypedItemTableIssueKind::DuplicateImplOwner { owner },
                });
            } else {
                atts_by_owner.insert(owner, TypedImplAttachment {
                    owner,
                    containing_scope_file_id: imp.containing_scope_file_id,
                    target_item_id,
                    conformance_item_id,
                });
                if let Some(target) = target_item_id {
                    owners_by_target.push_value(target, owner);
                }
            }
            j = j + 1;
        }
        proof {
            assert(impls@.subrange(0, impls@.len() as int) =~= impls@);
        }
        f = f + 1;
    }
    proof {
        assert(fs.subrange(0, fs.len() as int) =~= fs);
    }
    (sigs_by_owner, atts_by_owner, owners_by_target, issues)
}

/// Whether `table` is the typed item table of the global items and their
/// signatures (see [`build_typed_item_table`]).
pub open spec fn typed_item_table_built(table: TypedItemTable, global_items: GlobalItemTable, signatures: TypedSignatureTable) -> bool {
    &&& forall|id: ItemId| #[trigger] table.spec_items().contains_key(id) <==> (global_item(global_items@, id) matches Some(g) && is_typed_item(g, signatures))
    &&& forall|id: ItemId| #[trigger] table.spec_items().contains_key(id) ==> copies_signature(
        table.spec_items()[id],
        signatures,
        id,
        typed_kind_of(global_item(global_items@, id).unwrap().kind).unwrap(),
    )
    &&& forall|k: TypedItemKind| #[trigger] list_or_empty(table.spec_by_kind(), k) == kind_ids(global_items@, signatures, k)
    &&& forall|f: FileId| #[trigger] list_or_empty(table.spec_by_scope(), f) == scope_ids(global_items@, signatures, f)
    &&& ({
        let phase = impl_phase(flatten_impls(signatures.impls_by_scope_file_id@));
        &&& forall|o: DeclarationOwner| #[trigger] table.spec_impl_signatures().contains_key(o) <==> phase.0.contains_key(o)
        &&& forall|o: DeclarationOwner| #[trigger] table.spec_impl_signatures().contains_key(o) ==> table.spec_impl_signatures()[o]@ == phase.0[o]
        &&& table.spec_impl_attachments() == phase.1
        &&& table.spec_impl_owners() == phase.2
        &&& table.spec_issues() == missing_signature_issues(global_items@, signatures)
            + consistency_issues(global_items@, signature_ids(signatures.functions@), TypedItemKind::Function)
            + consistency_issues(global_items@, signature_ids(signatures.structs@), TypedItemKind::Struct)
            + consistency_issues(global_items@, signature_ids(signatures.enums@), TypedItemKind::Enum)
            + consistency_issues(global_items@, signature_ids(signatures.protocols@), TypedItemKind::Protocol)
            + phase.3
    })
}

/// Joins the global items with their signatures: typed items by id, kind
/// and scope file, an issue per item lacking a signature and per signature
/// without a matching global item (functions, structs, enums, protocols in
/// turn), then impl signatures by owner (the last of a repeated owner, which
/// is reported), attachments of first-seen owners and their target items.
pub fn build_typed_item_table(global_items: &GlobalItemTable, signatures: &TypedSignatureTable) -> (table: TypedItemTable)
    ensures
        typed_item_table_built(table, *global_items, *signatures),
{
    let (by_item_id, by_kind, by_scope_file_id, mut issues) = collect_typed_items(global_items, signatures);
    collect_signature_consistency_issues(global_items, &signatures.functions, TypedItemKind::Function, &mut issues);
    collect_signature_consistency_issues(global_items, &signatures.structs, TypedItemKind::Struct, &mut issues);
    collect_signature_consistency_issues(global_items, &signatures.enums, TypedItemKind::Enum, &mut issues);
    collect_signature_consistency_issues(global_items, &signatures.protocols, TypedItemKind::Protocol, &mut issues);
    let (impl_signatures_by_owner, impl_attachments_by_owner, impl_owners_by_target_item_id, impl_issues) = collect_impls(signatures);
    let ghost before = issues@;
    let mut k: usize = 0;
    while k < impl_issues.len()
        invariant
            k <= impl_issues@.len(),
            issues@ == before + impl_issues@.subrange(0, k as int),
        decreases impl_issues@.len() - k,
    {
        issues.push(impl_issues[k]);
        proof {
            assert(issues@ =~= before + impl_issues@.subrange(0, k as int + 1));
        }
        k = k + 1;
    }
    proof {
        assert(impl_issues@.subrange(0, impl_issues@.len() as int) =~= impl_issues@);
    }
    let table = TypedItemTable {
        by_item_id,
        by_kind,
        by_scope_file_id,
        impl_signatures_by_owner,
        impl_attachments_by_owner,
        impl_owners_by_target_item_id,
        issues,
    };
    proof {
        let phase = impl_phase(flatten_impls(signatures.impls_by_scope_file_id@));
        assert forall|o: DeclarationOwner| #[trigger] table.spec_impl_signatures().contains_key(o) <==> phase.0.contains_key(o) by {
            assert(impl_views(table.impl_signatures_by_owner@).contains_key(o) == table.spec_impl_signatures().contains_key(o));
        }
        assert forall|o: DeclarationOwner| #[trigger] table.spec_impl_signatures().contains_key(o) implies table.spec_impl_signatures()[o]@ == phase.0[o] by {
            assert(impl_views(table.impl_signatures_by_owner@)[o] == table.spec_impl_signatures()[o]@);
        }
    }
    table
}

/// Typed items by id, by kind and by scope file, with impl signatures and
/// attachments by owner and impl owners by target item.
pub struct TypedItemTable {
    by_item_id: SortedMap<ItemId, TypedItemData>,
    by_kind: SortedMap<TypedItemKind, Vec<ItemId>>,
    by_scope_file_id: SortedMap<FileId, Vec<ItemId>>,
    impl_signatures_by_owner: SortedMap<DeclarationOwner, TypedImplSignature>,
    impl_attachments_by_owner: SortedMap<DeclarationOwner, TypedImplAttachment>,
    impl_owners_by_target_item_id: SortedMap<ItemId, Vec<DeclarationOwner>>,
    pub issues: Vec<TypedItemTableIssue>,
}

impl TypedItemTable {
    /// Typed item data by id.
    pub closed spec fn spec_items(&self) -> Map<ItemId, TypedItemData> {
        entries_map(self.by_item_id@)
    }

    /// The issues found while building.
    pub closed spec fn spec_issues(&self) -> Seq<TypedItemTableIssue> {
        self.issues@
    }

    /// Item ids, in ascending order.
    pub closed spec fn spec_item_ids(&self) -> Seq<ItemId> {
        self.by_item_id@.map_values(|e: (ItemId, TypedItemData)| e.0)
    }

    /// The issues found while building the table, in order.
    pub fn issues(&self) -> (r: &Vec<TypedItemTableIssue>)
        ensures
            r@ == self.spec_issues(),
    {
        &self.issues
    }

    /// Ids by kind.
    pub closed spec fn spec_by_kind(&self) -> Map<TypedItemKind, Seq<ItemId>> {
        entries_list_map(self.by_kind@)
    }

    /// Ids by scope file.
    pub closed spec fn spec_by_scope(&self) -> Map<FileId, Seq<ItemId>> {
        entries_list_map(self.by_scope_file_id@)
    }

    /// Impl signatures by owner.
    pub closed spec fn spec_impl_signatures(&self) -> Map<DeclarationOwner, TypedImplSignature> {
        entries_map(self.impl_signatures_by_owner@)
    }

    /// Impl attachments by owner.
    pub closed spec fn spec_impl_attachments(&self) -> Map<DeclarationOwner, TypedImplAttachment> {
        entries_map(self.impl_attachments_by_owner@)
    }

    /// Impl owners by target item.
    pub closed spec fn spec_impl_owners(&self) -> Map<ItemId, Seq<DeclarationOwner>> {
        entries_list_map(self.impl_owners_by_target_item_id@)
    }

    /// The typed data of `item_id`, if any.
    pub fn get(&self, item_id: ItemId) -> (r: Option<&TypedItemData>)
        ensures
            match r {
                Some(d) => self.spec_items().contains_key(item_id) && self.spec_items()[item_id] == *d,
                None => !self.spec_items().contains_key(item_id),
            },
    {
        self.by_item_id.get(&item_id)
    }

    /// The function signature of `item_id`, when it is a function.
    pub fn function(&self, item_id: ItemId) -> (r: Option<&TypedFunctionSignature>)
        ensures
            match r {
                Some(s) => self.spec_items().contains_key(item_id) && self.spec_items()[item_id] == TypedItemData::Function(*s),
                None => !(self.spec_items().contains_key(item_id) && self.spec_items()[item_id] is Function),
            },
    {
        match self.by_item_id.get(&item_id) {
            Some(TypedItemData::Function(signature)) => Some(signature),
            _ => None,
        }
    }

    /// The struct signature data of `item_id`, when it is a struct.
    pub fn struct_data(&self, item_id: ItemId) -> (r: Option<&TypedStructSignatureData>)
        ensures
            match r {
                Some(s) => self.spec_items().contains_key(item_id) && self.spec_items()[item_id] == TypedItemData::Struct(*s),
                None => !(self.spec_items().contains_key(item_id) && self.spec_items()[item_id] is Struct),
            },
    {
        match self.by_item_id.get(&item_id) {
            Some(TypedItemData::Struct(signature)) => Some(signature),
            _ => None,
        }
    }

    /// The enum signature data of `item_id`, when it is an enum.
    pub fn enum_data(&self, item_id: ItemId) -> (r: Option<&TypedEnumSignatureData>)
        ensures
            match r {
                Some(s) => self.spec_items().contains_key(item_id) && self.spec_items()[item_id] == TypedItemData::Enum(*s),
                None => !(self.spec_items().contains_key(item_id) && self.spec_items()[item_id] is Enum),
            },
    {
        match self.by_item_id.get(&item_id) {
            Some(TypedItemData::Enum(signature)) => Some(signature),
            _ => None,
        }
    }

    /// The protocol signature data of `item_id`, when it is a protocol.
    pub fn protocol(&self, item_id: ItemId) -> (r: Option<&TypedProtocolSignatureData>)
        ensures
            match r {
                Some(s) => self.spec_items().contains_key(item_id) && self.spec_items()[item_id] == TypedItemData::Protocol(*s),
                None => !(self.spec_items().contains_key(item_id) && self.spec_items()[item_id] is Protocol),
            },
    {
        match self.by_item_id.get(&item_id) {
            Some(TypedItemData::Protocol(signature)) => Some(signature),
            _ => None,
        }
    }

    /// Ids of the typed items of kind `kind`, in id order; empty when none.
    pub fn ids_for_kind(&self, kind: TypedItemKind) -> (r: &[ItemId])
        ensures
            r@ == if self.spec_by_kind().contains_key(kind) {
                self.spec_by_kind()[kind]
            } else {
                Seq::empty()
            },
    {
        match self.by_kind.get(&kind) {
            Some(v) => v.as_slice(),
            None => &[],
        }
    }

    /// Ids of the typed items of scope file `scope_file_id`; empty when none.
    pub fn ids_in_scope(&self, scope_file_id: FileId) -> (r: &[ItemId])
        ensures
            r@ == if self.spec_by_scope().contains_key(scope_file_id) {
                self.spec_by_scope()[scope_file_id]
            } else {
                Seq::empty()
            },
    {
        match self.by_scope_file_id.get(&scope_file_id) {
            Some(v) => v.as_slice(),
            None => &[],
        }
    }

    /// The impl signature of `owner`, if any.
    pub fn impl_signature(&self, owner: &DeclarationOwner) -> (r: Option<&TypedImplSignature>)
        ensures
            match r {
                Some(s) => self.spec_impl_signatures().contains_key(*owner) && self.spec_impl_signatures()[*owner] == *s,
                None => !self.spec_impl_signatures().contains_key(*owner),
            },
    {
        self.impl_signatures_by_owner.get(owner)
    }

    /// The impl attachment of `owner`, if any.
    pub fn impl_attachment(&self, owner: &DeclarationOwner) -> (r: Option<&TypedImplAttachment>)
        ensures
            match r {
                Some(s) => self.spec_impl_attachments().contains_key(*owner) && self.spec_impl_attachments()[*owner] == *s,
                None => !self.spec_impl_attachments().contains_key(*owner),
            },
    {
        self.impl_attachments_by_owner.get(owner)
    }

    /// The impl owners attached to `item_id`; empty when none.
    pub fn impl_owners_for_target(&self, item_id: ItemId) -> (r: &[DeclarationOwner])
        ensures
            r@ == if self.spec_impl_owners().contains_key(item_id) {
                self.spec_impl_owners()[item_id]
            } else {
                Seq::empty()
            },
    {
        match self.impl_owners_by_target_item_id.get(&item_id) {
            Some(v) => v.as_slice(),
            None => &[],
        }
    }

    /// All typed items in ascending id order.
    pub fn iter(&self) -> (r: &Vec<(ItemId, TypedItemData)>)
        ensures
            r@.map_values(|e: (ItemId, TypedItemData)| e.0) == self.spec_item_ids(),
            forall|i: int| 0 <= i < r@.len() ==> self.spec_items().contains_key(#[trigger] r@[i].0) && self.spec_items()[r@[i].0] == r@[i].1,
    {
        let r = self.by_item_id.entries();
        proof {
            assert forall|i: int| 0 <= i < r@.len() implies self.spec_items().contains_key(#[trigger] r@[i].0) && self.spec_items()[r@[i].0] == r@[i].1 by {
                crate::collections::sorted_map::lemma_lookup_at(r@, i);
            }
        }
        r
    }

    /// Number of typed items.
    pub fn len(&self) -> (n: usize)
        ensures
            n == self.spec_item_ids().len(),
    {
        self.by_item_id.len()
    }

    /// True when there is no typed item.
    pub fn is_empty(&self) -> (b: bool)
        ensures
            b == (self.spec_item_ids().len() == 0),
    {
        self.by_item_id.is_empty()
    }
}

} // verus!
