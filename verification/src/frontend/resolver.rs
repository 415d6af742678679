//! Resolver-level identities and tables consumed by semantic analysis:
//! global item ids and kinds, declaration owners, body locals and the
//! global item table.

use crate::collections::text_map::{string_texts, TextKey};
use crate::collections::{MapKey, SortedMap, TextMap};
use crate::frontend::hir::{HirBodyId, HirExprId, HirItemId, HirPatId};
use crate::frontend::source::FileId;
use vstd::prelude::*;

verus! {

/// Stable identifier of a global item.
#[derive(Debug, Clone, Copy, PartialEq, Eq, Structural)]
pub struct ItemId(pub u32);

impl ItemId {
    /// Creates an item id from its raw value.
    pub fn new(raw: u32) -> (id: Self)
        ensures
            id.0 == raw,
    {
        ItemId(raw)
    }

    /// Returns the raw value of this item id.
    pub fn raw(self) -> (raw: u32)
        ensures
            raw == self.0,
    {
        self.0
    }
}

impl MapKey for ItemId {
    open spec fn key_lt(self, other: Self) -> bool {
        self.0 < other.0
    }

    proof fn lemma_key_lt_irreflexive(a: Self) {
    }

    proof fn lemma_key_lt_transitive(a: Self, b: Self, c: Self) {
    }

    proof fn lemma_key_lt_total(a: Self, b: Self) {
    }

    fn less_than(&self, other: &Self) -> (r: bool) {
        self.0 < other.0
    }

    fn same_key(&self, other: &Self) -> (r: bool) {
        self.0 == other.0
    }

    fn copy_key(&self) -> (r: Self) {
        *self
    }
}

/// A body named by its owner and its position among the owner's bodies.
#[derive(Debug, Clone, Copy, PartialEq, Eq, Structural)]
pub struct BodyKey {
    pub owner: DeclarationOwner,
    pub body_index: usize,
}

impl MapKey for BodyKey {
    /// By owner, then by body index.
    open spec fn key_lt(self, other: Self) -> bool {
        self.owner.key_lt(other.owner) || (self.owner == other.owner && self.body_index < other.body_index)
    }

    proof fn lemma_key_lt_irreflexive(a: Self) {
        DeclarationOwner::lemma_key_lt_irreflexive(a.owner);
    }

    proof fn lemma_key_lt_transitive(a: Self, b: Self, c: Self) {
        if a.owner.key_lt(b.owner) && b.owner.key_lt(c.owner) {
            DeclarationOwner::lemma_key_lt_transitive(a.owner, b.owner, c.owner);
        }
    }

    proof fn lemma_key_lt_total(a: Self, b: Self) {
        DeclarationOwner::lemma_key_lt_total(a.owner, b.owner);
    }

    fn less_than(&self, other: &Self) -> (r: bool) {
        self.owner.less_than(&other.owner) || (self.owner.same_key(&other.owner) && self.body_index < other.body_index)
    }

    fn same_key(&self, other: &Self) -> (r: bool) {
        self.owner.same_key(&other.owner) && self.body_index == other.body_index
    }

    fn copy_key(&self) -> (r: Self) {
        *self
    }
}

/// Kind of a global item.
#[derive(Debug, Clone, Copy, PartialEq, Eq, Structural)]
pub enum ItemKind {
    Scope,
    Function,
    Struct,
    Enum,
    Protocol,
}

/// The declaration that owns a body or a signature: a global item, or the
/// `impl_index`-th impl block of a scope file.
#[derive(Debug, Clone, Copy, PartialEq, Eq, Structural)]
pub enum DeclarationOwner {
    Item(ItemId),
    Impl { scope_file_id: FileId, impl_index: usize },
}

impl MapKey for DeclarationOwner {
    /// Items before impls; items by id; impls by scope file, then index.
    open spec fn key_lt(self, other: Self) -> bool {
        match (self, other) {
            (DeclarationOwner::Item(a), DeclarationOwner::Item(b)) => a.0 < b.0,
            (DeclarationOwner::Item(_), DeclarationOwner::Impl { .. }) => true,
            (DeclarationOwner::Impl { .. }, DeclarationOwner::Item(_)) => false,
            (
                DeclarationOwner::Impl { scope_file_id: fa, impl_index: ia },
                DeclarationOwner::Impl { scope_file_id: fb, impl_index: ib },
            ) => fa.0 < fb.0 || (fa.0 == fb.0 && ia < ib),
        }
    }

    proof fn lemma_key_lt_irreflexive(a: Self) {
    }

    proof fn lemma_key_lt_transitive(a: Self, b: Self, c: Self) {
    }

    proof fn lemma_key_lt_total(a: Self, b: Self) {
    }

    fn less_than(&self, other: &Self) -> (r: bool) {
        match (self, other) {
            (DeclarationOwner::Item(a), DeclarationOwner::Item(b)) => a.0 < b.0,
            (DeclarationOwner::Item(_), DeclarationOwner::Impl { .. }) => true,
            (DeclarationOwner::Impl { .. }, DeclarationOwner::Item(_)) => false,
            (
                DeclarationOwner::Impl { scope_file_id: fa, impl_index: ia },
                DeclarationOwner::Impl { scope_file_id: fb, impl_index: ib },
            ) => fa.0 < fb.0 || (fa.0 == fb.0 && *ia < *ib),
        }
    }

    fn same_key(&self, other: &Self) -> (r: bool) {
        *self == *other
    }

    fn copy_key(&self) -> (r: Self) {
        *self
    }
}

/// Identifier of a resolved local binding.
#[derive(Debug, Clone, Copy, PartialEq, Eq, Structural)]
pub struct LocalId(pub u32);

impl MapKey for LocalId {
    open spec fn key_lt(self, other: Self) -> bool {
        self.0 < other.0
    }

    proof fn lemma_key_lt_irreflexive(a: Self) {
    }

    proof fn lemma_key_lt_transitive(a: Self, b: Self, c: Self) {
    }

    proof fn lemma_key_lt_total(a: Self, b: Self) {
    }

    fn less_than(&self, other: &Self) -> (r: bool) {
        self.0 < other.0
    }

    fn same_key(&self, other: &Self) -> (r: bool) {
        self.0 == other.0
    }

    fn copy_key(&self) -> (r: Self) {
        *self
    }
}

/// How a local was introduced.
#[derive(Debug, Clone, Copy, PartialEq, Eq, Structural)]
pub enum LocalKind {
    Parameter,
    LocalBinding,
    PatternBinding,
}

/// Whether a local may be reassigned.
#[derive(Debug, Clone, Copy, PartialEq, Eq, Structural)]
pub enum LocalMutability {
    Immutable,
    Mutable,
}

/// What kind of declaration a body belongs to.
#[derive(Debug, Clone, Copy, PartialEq, Eq, Structural)]
pub enum BodyKind {
    Function,
    Initializer,
    ProtocolDefaultFunction,
    ProtocolDefaultInitializer,
}

/// One entry of the global item table.
#[derive(Debug)]
pub struct GlobalItem {
    pub id: ItemId,
    pub kind: ItemKind,
    /// The item's own name.
    pub name: String,
    /// The scope path of the item, its own name last.
    pub full_path: Vec<String>,
    /// The scope file whose scope declares the item.
    pub containing_scope_file_id: FileId,
    /// The file that holds the item's declaration; for a scope, the scope's own file.
    pub defining_file_id: FileId,
}

/// Ids strictly ascending.
pub open spec fn global_items_sorted(items: Seq<GlobalItem>) -> bool {
    forall|i: int, j: int| 0 <= i < j < items.len() ==> #[trigger] items[i].id.0 < #[trigger] items[j].id.0
}

/// The index of the first item whose full path has the texts `path`.
pub open spec fn first_with_path(items: Seq<GlobalItem>, path: Seq<Seq<char>>) -> Option<int>
    decreases items.len(),
{
    if items.len() == 0 {
        None
    } else if string_texts(items[0].full_path@) == path {
        Some(0)
    } else {
        match first_with_path(items.drop_first(), path) {
            Some(i) => Some(i + 1),
            None => None,
        }
    }
}

proof fn lemma_first_with_path(items: Seq<GlobalItem>, path: Seq<Seq<char>>)
    ensures
        match first_with_path(items, path) {
            Some(i) => 0 <= i < items.len() && string_texts(items[i].full_path@) == path && forall|j: int|
                0 <= j < i ==> string_texts(#[trigger] items[j].full_path@) != path,
            None => forall|j: int| 0 <= j < items.len() ==> string_texts(#[trigger] items[j].full_path@) != path,
        },
    decreases items.len(),
{
    if items.len() > 0 {
        lemma_first_with_path(items.drop_first(), path);
        assert forall|j: int| 1 <= j < items.len() implies items.drop_first()[j - 1] == #[trigger] items[j] by {}
    }
}

/// The ids of the items whose containing scope file is `file_id`, in table order.
pub open spec fn scope_item_ids(items: Seq<GlobalItem>, file_id: FileId) -> Seq<ItemId>
    decreases items.len(),
{
    if items.len() == 0 {
        seq![]
    } else {
        let rest = scope_item_ids(items.drop_last(), file_id);
        if items.last().containing_scope_file_id == file_id {
            rest.push(items.last().id)
        } else {
            rest
        }
    }
}

/// The resolver's table of global items, in ascending id order.
pub struct GlobalItemTable {
    items: Vec<GlobalItem>,
}

impl View for GlobalItemTable {
    type V = Seq<GlobalItem>;

    closed spec fn view(&self) -> Seq<GlobalItem> {
        self.items@
    }
}

impl GlobalItemTable {
    #[verifier::type_invariant]
    closed spec fn inv(self) -> bool {
        global_items_sorted(self.items@)
    }

    /// Builds a table from items given in strictly ascending id order;
    /// `None` when the ids are not strictly ascending.
    pub fn from_items(items: Vec<GlobalItem>) -> (r: Option<Self>)
        ensures
            r is Some <==> global_items_sorted(items@),
            r matches Some(t) ==> t@ == items@,
    {
        let n = items.len();
        let mut i: usize = 1;
        while i < n
            invariant
                n == items@.len(),
                1 <= i,
                forall|a: int, b: int| 0 <= a < b < i && b < n ==> #[trigger] items@[a].id.0 < #[trigger] items@[b].id.0,
            decreases n - i,
        {
            if items[i - 1].id.0 >= items[i].id.0 {
                return None;
            }
            proof {
                assert forall|a: int, b: int| 0 <= a < b < i + 1 && b < n implies #[trigger] items@[a].id.0
                    < #[trigger] items@[b].id.0 by {
                    if b == i && a < i - 1 {
                        assert(items@[a].id.0 < items@[i - 1].id.0);
                    }
                }
            }
            i = i + 1;
        }
        Some(GlobalItemTable { items })
    }

    /// All items in ascending id order.
    pub fn items(&self) -> (r: &Vec<GlobalItem>)
        ensures
            r@ == self@,
            global_items_sorted(self@),
    {
        proof {
            use_type_invariant(self);
        }
        &self.items
    }

    /// The item with id `id`, if any.
    pub fn get(&self, id: ItemId) -> (r: Option<&GlobalItem>)
        ensures
            match r {
                Some(item) => item.id == id && self@.contains(*item),
                None => forall|i: int| 0 <= i < self@.len() ==> #[trigger] self@[i].id != id,
            },
    {
        let mut i: usize = 0;
        while i < self.items.len()
            invariant
                i <= self.items@.len(),
                forall|j: int| 0 <= j < i ==> #[trigger] self.items@[j].id != id,
            decreases self.items@.len() - i,
        {
            if self.items[i].id.0 == id.0 {
                return Some(&self.items[i]);
            }
            i = i + 1;
        }
        None
    }

    /// The first item, in id order, whose full path is `path`.
    pub fn get_by_full_path(&self, path: &Vec<String>) -> (r: Option<&GlobalItem>)
        ensures
            match first_with_path(self@, string_texts(path@)) {
                Some(i) => r == Some(&self@[i]),
                None => r is None,
            },
    {
        let mut i: usize = 0;
        while i < self.items.len()
            invariant
                i <= self.items@.len(),
                forall|j: int| 0 <= j < i ==> string_texts(#[trigger] self.items@[j].full_path@) != string_texts(path@),
            decreases self.items@.len() - i,
        {
            if self.items[i].full_path.compare_text(path) == 0 {
                proof {
                    lemma_first_with_path(self.items@, string_texts(path@));
                    let st = string_texts(self.items@[i as int].full_path@);
                    assert(self.items@[i as int].full_path.text() == st);
                    match first_with_path(self.items@, string_texts(path@)) {
                        Some(k) => {
                            if k < i {
                                assert(string_texts(self.items@[k].full_path@) != string_texts(path@));
                            }
                            if k > i {
                                assert(st != string_texts(path@));
                            }
                        },
                        None => {
                            assert(st != string_texts(path@));
                        },
                    }
                }
                return Some(&self.items[i]);
            }
            i = i + 1;
        }
        proof {
            lemma_first_with_path(self.items@, string_texts(path@));
            match first_with_path(self.items@, string_texts(path@)) {
                Some(k) => {
                    assert(string_texts(self.items@[k].full_path@) != string_texts(path@));
                },
                None => {},
            }
        }
        None
    }

    /// The id of the first item, in id order, whose full path is `path`.
    pub fn item_id_by_full_path(&self, path: &Vec<String>) -> (r: Option<ItemId>)
        ensures
            match first_with_path(self@, string_texts(path@)) {
                Some(i) => r == Some(self@[i].id),
                None => r is None,
            },
    {
        match self.get_by_full_path(path) {
            Some(item) => Some(item.id),
            None => None,
        }
    }

    /// The ids of the items declared in the scope of `scope_file_id`, in id order.
    pub fn ids_in_scope(&self, scope_file_id: FileId) -> (r: Vec<ItemId>)
        ensures
            r@ == scope_item_ids(self@, scope_file_id),
    {
        let mut out: Vec<ItemId> = Vec::new();
        let mut i: usize = 0;
        while i < self.items.len()
            invariant
                i <= self.items@.len(),
                out@ == scope_item_ids(self.items@.take(i as int), scope_file_id),
            decreases self.items@.len() - i,
        {
            proof {
                let t = self.items@.take(i + 1);
                assert(t.drop_last() =~= self.items@.take(i as int));
                assert(t.last() == self.items@[i as int]);
            }
            if self.items[i].containing_scope_file_id == scope_file_id {
                out.push(self.items[i].id);
            }
            i = i + 1;
        }
        proof {
            assert(self.items@.take(self.items@.len() as int) =~= self.items@);
        }
        out
    }

    /// Number of items.
    pub fn len(&self) -> (n: usize)
        ensures
            n == self@.len(),
    {
        self.items.len()
    }
}

/// The item a resolved path refers to.
#[derive(Debug, Clone, Copy, PartialEq, Eq, Structural)]
pub struct ResolvedItemRef {
    pub item_id: ItemId,
}

/// A resolved type annotation as written at a local binding.
#[derive(Debug)]
pub enum ResolvedTypeRef {
    Named { segments: Vec<String>, resolved: Option<ResolvedItemRef> },
    Reference(Box<ResolvedTypeRef>),
    MutableReference(Box<ResolvedTypeRef>),
    MutablePointer(Box<ResolvedTypeRef>),
    ConstPointer(Box<ResolvedTypeRef>),
    Grouped(Box<ResolvedTypeRef>),
    SelfType,
    GenericApplication { base: Box<ResolvedTypeRef>, args: Vec<ResolvedTypeRef> },
    Array(Box<ResolvedTypeRef>),
    Optional(Box<ResolvedTypeRef>),
    Result { ok: Box<ResolvedTypeRef>, err: Box<ResolvedTypeRef> },
}

/// A local binding of a resolved body.
#[derive(Debug)]
pub struct ResolvedLocal {
    pub id: LocalId,
    pub name: String,
    pub kind: LocalKind,
    pub mutability: LocalMutability,
    pub declared_type: Option<ResolvedTypeRef>,
    pub declared_span: crate::frontend::ast::Span,
}

/// What a name used in a body resolved to.
#[derive(Debug, Clone, Copy, PartialEq, Eq, Structural)]
pub enum ResolvedBodyRef {
    Local(LocalId),
    Item(ItemId),
    Import(ItemId),
    Unresolved,
}

/// A use of a name in a body, with what it resolved to.
#[derive(Debug, Clone, Copy, PartialEq, Eq, Structural)]
pub struct ResolvedBodyReference {
    pub span: crate::frontend::ast::Span,
    pub resolved: ResolvedBodyRef,
}

/// A path used in a body that the resolver could not resolve.
#[derive(Debug)]
pub struct UnresolvedBodyReference {
    pub span: crate::frontend::ast::Span,
    pub segments: Vec<String>,
}

/// A body with its owner, position among the owner's bodies, the signature
/// it implements, its locals in declaration order and the names it uses.
#[derive(Debug)]
pub struct ResolvedBody {
    pub owner: DeclarationOwner,
    pub body_index: usize,
    pub kind: BodyKind,
    pub signature_index: usize,
    pub containing_scope_file_id: FileId,
    pub locals: Vec<ResolvedLocal>,
    pub references: Vec<ResolvedBodyReference>,
    pub unresolved_references: Vec<UnresolvedBodyReference>,
}

/// All resolved bodies, in resolution order.
#[derive(Debug)]
pub struct ResolvedBodyTable {
    pub bodies: Vec<ResolvedBody>,
}

impl ResolvedBodyTable {
    /// All bodies, in resolution order.
    pub fn iter(&self) -> (r: &Vec<ResolvedBody>)
        ensures
            r@ == self.bodies@,
    {
        &self.bodies
    }
}

/// An item of a HIR file.
#[derive(Debug, Clone, Copy, PartialEq, Eq, Structural)]
pub struct HirItemRef {
    pub file_id: FileId,
    pub item_id: HirItemId,
}

impl HirItemRef {
    /// The reference to item `item_id` of file `file_id`.
    pub fn new(file_id: FileId, item_id: HirItemId) -> (r: Self)
        ensures
            r.file_id == file_id,
            r.item_id == item_id,
    {
        HirItemRef { file_id, item_id }
    }
}

impl MapKey for HirItemRef {
    /// By file, then item.
    open spec fn key_lt(self, other: Self) -> bool {
        self.file_id.0 < other.file_id.0 || (self.file_id.0 == other.file_id.0 && self.item_id.0 < other.item_id.0)
    }

    proof fn lemma_key_lt_irreflexive(a: Self) {
    }

    proof fn lemma_key_lt_transitive(a: Self, b: Self, c: Self) {
    }

    proof fn lemma_key_lt_total(a: Self, b: Self) {
    }

    fn less_than(&self, other: &Self) -> (r: bool) {
        self.file_id.0 < other.file_id.0 || (self.file_id.0 == other.file_id.0 && self.item_id.0 < other.item_id.0)
    }

    fn same_key(&self, other: &Self) -> (r: bool) {
        self.file_id.0 == other.file_id.0 && self.item_id.0 == other.item_id.0
    }

    fn copy_key(&self) -> (r: Self) {
        *self
    }
}

/// An expression of a HIR file.
#[derive(Debug, Clone, Copy, PartialEq, Eq, Structural)]
pub struct HirExprRef {
    pub file_id: FileId,
    pub expr_id: HirExprId,
}

impl MapKey for HirExprRef {
    /// By file, then expression.
    open spec fn key_lt(self, other: Self) -> bool {
        self.file_id.0 < other.file_id.0 || (self.file_id.0 == other.file_id.0 && self.expr_id.0 < other.expr_id.0)
    }

    proof fn lemma_key_lt_irreflexive(a: Self) {
    }

    proof fn lemma_key_lt_transitive(a: Self, b: Self, c: Self) {
    }

    proof fn lemma_key_lt_total(a: Self, b: Self) {
    }

    fn less_than(&self, other: &Self) -> (r: bool) {
        self.file_id.0 < other.file_id.0 || (self.file_id.0 == other.file_id.0 && self.expr_id.0 < other.expr_id.0)
    }

    fn same_key(&self, other: &Self) -> (r: bool) {
        self.file_id.0 == other.file_id.0 && self.expr_id.0 == other.expr_id.0
    }

    fn copy_key(&self) -> (r: Self) {
        *self
    }
}

/// Whether an associated member is a method or an initializer.
#[derive(Debug, Clone, Copy, PartialEq, Eq, Structural)]
pub enum AssociatedMemberKind {
    Method,
    Initializer,
}

/// What a path expression resolved to.
#[derive(Debug, Clone, PartialEq, Eq)]
pub enum HirPathResolution {
    Local(LocalId),
    Item(HirItemRef),
    AssociatedMember { type_item_ref: HirItemRef, member_name: String, member_kind: AssociatedMemberKind },
}

/// The resolutions of path expressions, by file and expression.
pub struct HirPathResolutionTable {
    pub by_expr_ref: SortedMap<HirExprRef, HirPathResolution>,
}

impl HirPathResolutionTable {
    /// A table with no resolution.
    pub fn empty() -> (t: Self)
        ensures
            t.by_expr_ref@.len() == 0,
    {
        HirPathResolutionTable { by_expr_ref: SortedMap::new() }
    }

    /// The resolution of expression `expr_id` of file `file_id`, if any.
    pub fn by_expr(&self, file_id: FileId, expr_id: HirExprId) -> (r: Option<&HirPathResolution>)
        ensures
            match r {
                Some(p) => self.by_expr_ref.spec_get(HirExprRef { file_id, expr_id }) == Some(*p),
                None => self.by_expr_ref.spec_get(HirExprRef { file_id, expr_id }) is None,
            },
    {
        self.by_expr_ref.get(&HirExprRef { file_id, expr_id })
    }
}

/// A local binding introduced in a HIR body.
#[derive(Debug, Clone)]
pub struct HirLocalBinding {
    pub id: LocalId,
    pub file_id: FileId,
    pub body_id: HirBodyId,
    pub name: String,
    pub kind: LocalKind,
    pub mutability: LocalMutability,
    pub declared_pat: Option<HirPatId>,
}

/// The first of `bindings` with id `id`.
pub open spec fn first_binding(bindings: Seq<HirLocalBinding>, id: LocalId) -> Option<HirLocalBinding>
    decreases bindings.len(),
{
    if bindings.len() == 0 {
        None
    } else if bindings[0].id == id {
        Some(bindings[0])
    } else {
        first_binding(bindings.drop_first(), id)
    }
}

/// The id of the first of `bindings` declared by pattern `pat_id` of file `file_id`.
pub open spec fn first_pat_binding(bindings: Seq<HirLocalBinding>, file_id: FileId, pat_id: HirPatId) -> Option<LocalId>
    decreases bindings.len(),
{
    if bindings.len() == 0 {
        None
    } else if bindings[0].file_id == file_id && bindings[0].declared_pat == Some(pat_id) {
        Some(bindings[0].id)
    } else {
        first_pat_binding(bindings.drop_first(), file_id, pat_id)
    }
}

/// The local bindings of all HIR bodies, in introduction order.
pub struct HirLocalBindingTable {
    pub bindings: Vec<HirLocalBinding>,
}

impl HirLocalBindingTable {
    /// The first binding with id `id`, if any.
    pub fn binding(&self, id: LocalId) -> (r: Option<&HirLocalBinding>)
        ensures
            match r {
                Some(b) => first_binding(self.bindings@, id) == Some(*b),
                None => first_binding(self.bindings@, id) is None,
            },
    {
        let mut i: usize = 0;
        proof {
            assert(self.bindings@.subrange(0, self.bindings@.len() as int) =~= self.bindings@);
        }
        while i < self.bindings.len()
            invariant
                i <= self.bindings@.len(),
                first_binding(self.bindings@, id) == first_binding(self.bindings@.subrange(i as int, self.bindings@.len() as int), id),
            decreases self.bindings@.len() - i,
        {
            proof {
                assert(self.bindings@.subrange(i as int, self.bindings@.len() as int).drop_first() =~= self.bindings@.subrange(i as int + 1, self.bindings@.len() as int));
            }
            if self.bindings[i].id == id {
                return Some(&self.bindings[i]);
            }
            i = i + 1;
        }
        None
    }

    /// The id of the first binding declared by pattern `pat_id` of file
    /// `file_id`, if any.
    pub fn binding_for_pat(&self, file_id: FileId, pat_id: HirPatId) -> (r: Option<LocalId>)
        ensures
            r == first_pat_binding(self.bindings@, file_id, pat_id),
    {
        let mut i: usize = 0;
        proof {
            assert(self.bindings@.subrange(0, self.bindings@.len() as int) =~= self.bindings@);
        }
        while i < self.bindings.len()
            invariant
                i <= self.bindings@.len(),
                first_pat_binding(self.bindings@, file_id, pat_id) == first_pat_binding(self.bindings@.subrange(i as int, self.bindings@.len() as int), file_id, pat_id),
            decreases self.bindings@.len() - i,
        {
            proof {
                assert(self.bindings@.subrange(i as int, self.bindings@.len() as int).drop_first() =~= self.bindings@.subrange(i as int + 1, self.bindings@.len() as int));
            }
            let b = &self.bindings[i];
            let same_pat = match b.declared_pat {
                Some(p) => p == pat_id,
                None => false,
            };
            if b.file_id == file_id && same_pat {
                return Some(b.id);
            }
            i = i + 1;
        }
        None
    }

    /// All bindings, in introduction order.
    pub fn iter_bindings(&self) -> (r: &Vec<HirLocalBinding>)
        ensures
            r@ == self.bindings@,
    {
        &self.bindings
    }
}

/// What a HIR import binds a name to.
#[derive(Debug, Clone, Copy, PartialEq, Eq, Structural)]
pub enum HirImportBindingKind {
    Item,
    Scope,
}

/// A name imported into a HIR file.
#[derive(Debug)]
pub struct HirImportBinding {
    pub kind: HirImportBindingKind,
    pub target_item: Option<HirItemRef>,
    pub target_path: Vec<String>,
    pub source_root: Option<String>,
}

/// The import tables of HIR files: the names each file imports, the scope
/// path of each file, and the items of the project and of each named root
/// by full path.
pub struct HirImportTables {
    pub bindings_by_file: SortedMap<FileId, TextMap<String, HirImportBinding>>,
    pub scope_paths: SortedMap<FileId, Vec<String>>,
    pub local_item_paths: TextMap<Vec<String>, HirItemRef>,
    pub root_item_paths: TextMap<String, TextMap<Vec<String>, HirItemRef>>,
}

impl HirImportTables {
    /// Tables with no import and no item.
    pub fn new() -> (t: Self)
        ensures
            t.bindings_by_file@.len() == 0,
            t.scope_paths@.len() == 0,
            forall|p: Seq<Seq<char>>| #[trigger] t.local_item_paths.spec_get(p) is None,
            forall|r: Seq<Seq<char>>| #[trigger] t.root_item_paths.spec_get(r) is None,
    {
        HirImportTables {
            bindings_by_file: SortedMap::new(),
            scope_paths: SortedMap::new(),
            local_item_paths: TextMap::new(),
            root_item_paths: TextMap::new(),
        }
    }

    /// The names imported into file `file_id`, if it has an import table.
    pub fn get(&self, file_id: FileId) -> (r: Option<&TextMap<String, HirImportBinding>>)
        ensures
            match r {
                Some(t) => self.bindings_by_file.spec_get(file_id) == Some(*t),
                None => self.bindings_by_file.spec_get(file_id) is None,
            },
    {
        self.bindings_by_file.get(&file_id)
    }

    /// The items by full path of the project (no root) or of a named root.
    pub fn item_paths_for_root(&self, root: Option<&String>) -> (r: Option<&TextMap<Vec<String>, HirItemRef>>)
        ensures
            match root {
                None => r == Some(&self.local_item_paths),
                Some(name) => match r {
                    Some(t) => self.root_item_paths.spec_get(seq![name@]) == Some(*t),
                    None => self.root_item_paths.spec_get(seq![name@]) is None,
                },
            },
    {
        match root {
            None => Some(&self.local_item_paths),
            Some(name) => self.root_item_paths.get(name),
        }
    }

    /// The scope path of file `file_id`, if known.
    pub fn scope_path_for_file(&self, file_id: FileId) -> (r: Option<&Vec<String>>)
        ensures
            match r {
                Some(p) => self.scope_paths.spec_get(file_id) == Some(*p),
                None => self.scope_paths.spec_get(file_id) is None,
            },
    {
        self.scope_paths.get(&file_id)
    }
}

/// What a resolved import binds a name to: a scope, or a symbol of a kind.
#[derive(Debug, Clone, Copy, PartialEq, Eq, Structural)]
pub enum ImportBindingKind {
    Scope,
    Symbol(ItemKind),
}

/// A name imported into a file, with the root it comes from.
#[derive(Debug)]
pub struct ResolvedImportBinding {
    pub local_name: String,
    pub kind: ImportBindingKind,
    pub target_path: Vec<String>,
    pub source_root: Option<String>,
}

/// The names imported into one file.
pub struct ResolvedImports {
    pub bindings: TextMap<String, ResolvedImportBinding>,
}

impl ResolvedImports {
    /// The binding of `name`, if imported.
    pub fn get(&self, name: &String) -> (r: Option<&ResolvedImportBinding>)
        ensures
            match r {
                Some(b) => self.bindings.spec_get(seq![name@]) == Some(*b),
                None => self.bindings.spec_get(seq![name@]) is None,
            },
    {
        self.bindings.get(name)
    }
}

} // verus!
