//! The expression type table: the type of every checked expression of every
//! body, the expressions found at each span, each body's result type, and
//! the issues found while checking.

use crate::collections::sorted_map::{entries_contain, entries_lookup, entries_map, entries_sorted};
use crate::collections::{MapKey, SortedMap};
use crate::frontend::ast::Span;
use crate::collections::text_map::string_texts;
use crate::frontend::hir::{
    HirArrayElement, HirBinaryOp, HirBodyId, HirCallArg, HirExprId, HirExprKind, HirMatchArm, HirModule,
    HirMutability, HirPatId, HirPatKind, HirStmtId, HirStmtKind, HirStructExprField, HirUnaryOp,
};
use crate::frontend::resolver::{
    first_pat_binding, AssociatedMemberKind, BodyKey, DeclarationOwner, HirImportBindingKind, HirItemRef,
    HirPathResolution, ImportBindingKind, ItemId, LocalId, LocalMutability, ResolvedBody, ResolvedBodyTable, ResolvedImports,
};
use crate::frontend::semantic::body_env::{copy_local_types, env_for, find_env_with_index, BodyLocalBindingInfo, BodyTypeEnvironmentTable};
use crate::frontend::semantic::external_lookup::ExternalSemanticLookup;
use crate::frontend::semantic::hir_input::SemanticHirInput;
use crate::frontend::semantic::item_table::{TypedItemData, TypedItemTable};
use crate::frontend::semantic::types::{BuiltinType, Type};
use crate::frontend::source::FileId;
use crate::frontend::text::str_eq;
use crate::collections::text_map::TextKey;
use crate::midend::type_check::signatures::{TypedFunctionSignature, TypedNamedFunctionSignature, TypedParamLabel};
use vstd::prelude::*;

verus! {

/// An expression of a body.
#[derive(Debug, Clone, Copy, PartialEq, Eq, Structural)]
pub struct BodyExprId {
    pub owner: DeclarationOwner,
    pub body_index: usize,
    pub hir_expr_id: HirExprId,
}

impl MapKey for BodyExprId {
    /// By owner, then body index, then expression id.
    open spec fn key_lt(self, other: Self) -> bool {
        ||| self.owner.key_lt(other.owner)
        ||| (self.owner == other.owner && self.body_index < other.body_index)
        ||| (self.owner == other.owner && self.body_index == other.body_index && self.hir_expr_id.0 < other.hir_expr_id.0)
    }

    proof fn lemma_key_lt_irreflexive(a: Self) {
        DeclarationOwner::lemma_key_lt_irreflexive(a.owner);
    }

    proof fn lemma_key_lt_transitive(a: Self, b: Self, c: Self) {
        if a.owner.key_lt(b.owner) && b.owner.key_lt(c.owner) {
            DeclarationOwner::lemma_key_lt_transitive(a.owner, b.owner, c.owner);
        }
    }

    proof fn lemma_key_lt_total(a: Self, b: Self) {
        DeclarationOwner::lemma_key_lt_total(a.owner, b.owner);
    }

    fn less_than(&self, other: &Self) -> (r: bool) {
        if self.owner.less_than(&other.owner) {
            true
        } else if !self.owner.same_key(&other.owner) {
            false
        } else {
            self.body_index < other.body_index || (self.body_index == other.body_index && self.hir_expr_id.0 < other.hir_expr_id.0)
        }
    }

    fn same_key(&self, other: &Self) -> (r: bool) {
        self.owner.same_key(&other.owner) && self.body_index == other.body_index && self.hir_expr_id.0 == other.hir_expr_id.0
    }

    fn copy_key(&self) -> (r: Self) {
        *self
    }
}

/// A source range within a body.
#[derive(Debug, Clone, Copy, PartialEq, Eq, Structural)]
pub struct BodySpanKey {
    pub owner: DeclarationOwner,
    pub body_index: usize,
    pub start: usize,
    pub end: usize,
}

impl MapKey for BodySpanKey {
    /// By owner, then body index, then start, then end.
    open spec fn key_lt(self, other: Self) -> bool {
        ||| self.owner.key_lt(other.owner)
        ||| (self.owner == other.owner && self.body_index < other.body_index)
        ||| (self.owner == other.owner && self.body_index == other.body_index && self.start < other.start)
        ||| (self.owner == other.owner && self.body_index == other.body_index && self.start == other.start && self.end < other.end)
    }

    proof fn lemma_key_lt_irreflexive(a: Self) {
        DeclarationOwner::lemma_key_lt_irreflexive(a.owner);
    }

    proof fn lemma_key_lt_transitive(a: Self, b: Self, c: Self) {
        if a.owner.key_lt(b.owner) && b.owner.key_lt(c.owner) {
            DeclarationOwner::lemma_key_lt_transitive(a.owner, b.owner, c.owner);
        }
    }

    proof fn lemma_key_lt_total(a: Self, b: Self) {
        DeclarationOwner::lemma_key_lt_total(a.owner, b.owner);
    }

    fn less_than(&self, other: &Self) -> (r: bool) {
        if self.owner.less_than(&other.owner) {
            true
        } else if !self.owner.same_key(&other.owner) {
            false
        } else if self.body_index != other.body_index {
            self.body_index < other.body_index
        } else if self.start != other.start {
            self.start < other.start
        } else {
            self.end < other.end
        }
    }

    fn same_key(&self, other: &Self) -> (r: bool) {
        self.owner.same_key(&other.owner) && self.body_index == other.body_index && self.start == other.start
            && self.end == other.end
    }

    fn copy_key(&self) -> (r: Self) {
        *self
    }
}

/// What went wrong while checking an expression.
#[derive(Debug, PartialEq, Eq)]
pub enum ExprCheckIssueKind {
    MissingBodyAst,
    MissingBodyEnvironment,
    MissingResolvedReference { segments: Vec<String> },
    MissingLocalType { local_id: LocalId },
    MissingTypedItem { item_id: ItemId },
    InvalidUnaryOp,
    InvalidBinaryOp,
    InvalidAssignmentTarget,
    MutabilityViolation { local_id: LocalId },
    AssignmentTypeMismatch { target: Type, value: Type },
    InvalidCallCallee,
    BareExternFunctionCall { function: String, namespace: String },
    CallArityMismatch { expected: usize, found: usize },
    CallArgTypeMismatch { index: usize, expected: Type, found: Type },
    MissingElseBranch,
    IncompatibleIfBranches { then_type: Type, else_type: Type },
}

/// An issue found while checking the expressions of a body.
#[derive(Debug, PartialEq, Eq)]
pub struct ExprCheckIssue {
    pub owner: DeclarationOwner,
    pub body_index: usize,
    pub span: Span,
    pub kind: ExprCheckIssueKind,
}

/// The ids of the entries of `s` that belong to the given body, in entry order.
pub open spec fn body_expr_ids(s: Seq<(BodyExprId, Type)>, owner: DeclarationOwner, body_index: usize) -> Seq<BodyExprId>
    decreases s.len(),
{
    if s.len() == 0 {
        seq![]
    } else {
        let prev = body_expr_ids(s.drop_last(), owner, body_index);
        if s.last().0.owner == owner && s.last().0.body_index == body_index {
            prev.push(s.last().0)
        } else {
            prev
        }
    }
}

/// Types of the checked expressions, by expression, by span and by body.
pub struct ExpressionTypeTable {
    types_by_expr_id: SortedMap<BodyExprId, Type>,
    expr_ids_by_span: SortedMap<BodySpanKey, Vec<BodyExprId>>,
    root_types_by_body: SortedMap<BodyKey, Type>,
    pub issues: Vec<ExprCheckIssue>,
}

impl ExpressionTypeTable {
    /// Expression types, in id order.
    pub closed spec fn spec_entries(&self) -> Seq<(BodyExprId, Type)> {
        self.types_by_expr_id@
    }

    /// The type of each checked expression.
    pub open spec fn spec_types(&self) -> Map<BodyExprId, Type> {
        entries_map(self.spec_entries())
    }

    /// The expressions recorded at each span, in the order they were checked.
    pub closed spec fn spec_span_ids(&self) -> Map<BodySpanKey, Seq<BodyExprId>> {
        crate::collections::sorted_map::entries_list_map(self.expr_ids_by_span@)
    }

    /// The result type of each checked body.
    pub closed spec fn spec_roots(&self) -> Map<BodyKey, Type> {
        entries_map(self.root_types_by_body@)
    }

    /// The issues found, in order.
    pub closed spec fn spec_issues(&self) -> Seq<ExprCheckIssue> {
        self.issues@
    }

    /// A table with nothing checked.
    pub fn new() -> (t: Self)
        ensures
            t.spec_entries().len() == 0,
            t.spec_types() == Map::<BodyExprId, Type>::empty(),
            t.spec_span_ids() == Map::<BodySpanKey, Seq<BodyExprId>>::empty(),
            t.spec_roots() == Map::<BodyKey, Type>::empty(),
            t.spec_issues().len() == 0,
    {
        let t = ExpressionTypeTable {
            types_by_expr_id: SortedMap::new(),
            expr_ids_by_span: SortedMap::new(),
            root_types_by_body: SortedMap::new(),
            issues: Vec::new(),
        };
        proof {
            assert(t.spec_types() =~= Map::<BodyExprId, Type>::empty());
            assert(t.spec_span_ids() =~= Map::<BodySpanKey, Seq<BodyExprId>>::empty());
            assert(t.spec_roots() =~= Map::<BodyKey, Type>::empty());
        }
        t
    }

    /// Records that expression `id`, found at `span`, has type `ty`: the
    /// type replaces any earlier one, and `id` is appended to the
    /// expressions at that span.
    pub fn record_expr_type(&mut self, id: BodyExprId, span: Span, ty: Type)
        ensures
            final(self).spec_types() == old(self).spec_types().insert(id, ty),
            ({
                let key = BodySpanKey { owner: id.owner, body_index: id.body_index, start: span.start, end: span.end };
                final(self).spec_span_ids() == old(self).spec_span_ids().insert(
                    key,
                    (if old(self).spec_span_ids().contains_key(key) {
                        old(self).spec_span_ids()[key]
                    } else {
                        Seq::<BodyExprId>::empty()
                    }).push(id),
                )
            }),
            final(self).spec_roots() == old(self).spec_roots(),
            final(self).spec_issues() == old(self).spec_issues(),
    {
        let key = BodySpanKey { owner: id.owner, body_index: id.body_index, start: span.start, end: span.end };
        self.expr_ids_by_span.push_value(key, id);
        self.types_by_expr_id.insert(id, ty);
    }

    /// Records the result type of a body, replacing any earlier one.
    pub fn record_root_type(&mut self, body: BodyKey, ty: Type)
        ensures
            final(self).spec_types() == old(self).spec_types(),
            final(self).spec_entries() == old(self).spec_entries(),
            final(self).spec_span_ids() == old(self).spec_span_ids(),
            final(self).spec_roots() == old(self).spec_roots().insert(body, ty),
            final(self).spec_issues() == old(self).spec_issues(),
    {
        self.root_types_by_body.insert(body, ty);
    }

    /// The issues found, in order.
    pub fn issues(&self) -> (r: &Vec<ExprCheckIssue>)
        ensures
            r@ == self.spec_issues(),
    {
        &self.issues
    }

    /// Appends an issue.
    pub fn push_issue(&mut self, issue: ExprCheckIssue)
        ensures
            final(self).spec_entries() == old(self).spec_entries(),
            final(self).spec_span_ids() == old(self).spec_span_ids(),
            final(self).spec_roots() == old(self).spec_roots(),
            final(self).spec_issues() == old(self).spec_issues().push(issue),
    {
        self.issues.push(issue);
    }

    /// The type of an expression, if it was checked.
    pub fn expr_type(&self, expr_id: &BodyExprId) -> (r: Option<&Type>)
        ensures
            match r {
                Some(t) => self.spec_types().contains_key(*expr_id) && self.spec_types()[*expr_id] == *t,
                None => !self.spec_types().contains_key(*expr_id),
            },
    {
        let r = self.types_by_expr_id.get(expr_id);
        proof {
            if entries_contain(self.spec_entries(), *expr_id) {
                assert(entries_lookup(self.spec_entries(), *expr_id) is Some);
            }
        }
        r
    }

    /// The type of HIR expression `expr_id` of the given body, if it was checked.
    pub fn expr_type_for_hir_expr(&self, owner: &DeclarationOwner, body_index: usize, expr_id: HirExprId) -> (r: Option<&Type>)
        ensures
            ({
                let id = BodyExprId { owner: *owner, body_index, hir_expr_id: expr_id };
                match r {
                    Some(t) => self.spec_types().contains_key(id) && self.spec_types()[id] == *t,
                    None => !self.spec_types().contains_key(id),
                }
            }),
    {
        self.expr_type(&BodyExprId { owner: *owner, body_index, hir_expr_id: expr_id })
    }

    /// The type of the expression checked last among those at `span` in the
    /// given body.
    pub fn expr_type_for_span(&self, owner: &DeclarationOwner, body_index: usize, span: Span) -> (r: Option<&Type>)
        ensures
            ({
                let key = BodySpanKey { owner: *owner, body_index, start: span.start, end: span.end };
                match r {
                    Some(t) => self.spec_span_ids().contains_key(key) && self.spec_span_ids()[key].len() > 0
                        && self.spec_types().contains_key(self.spec_span_ids()[key].last())
                        && self.spec_types()[self.spec_span_ids()[key].last()] == *t,
                    None => !self.spec_span_ids().contains_key(key) || self.spec_span_ids()[key].len() == 0
                        || !self.spec_types().contains_key(self.spec_span_ids()[key].last()),
                }
            }),
    {
        let key = BodySpanKey { owner: *owner, body_index, start: span.start, end: span.end };
        let ids = match self.expr_ids_by_span.get(&key) {
            Some(ids) => ids,
            None => return None,
        };
        if ids.len() == 0 {
            return None;
        }
        let last = ids[ids.len() - 1];
        self.expr_type(&last)
    }

    /// The result type of a body, if it was checked.
    pub fn root_type(&self, owner: &DeclarationOwner, body_index: usize) -> (r: Option<&Type>)
        ensures
            ({
                let key = BodyKey { owner: *owner, body_index };
                match r {
                    Some(t) => self.spec_roots().contains_key(key) && self.spec_roots()[key] == *t,
                    None => !self.spec_roots().contains_key(key),
                }
            }),
    {
        let key = BodyKey { owner: *owner, body_index };
        let r = self.root_types_by_body.get(&key);
        proof {
            if entries_contain(self.root_types_by_body@, key) {
                assert(entries_lookup(self.root_types_by_body@, key) is Some);
            }
        }
        r
    }

    /// The checked expressions of a body, in id order.
    pub fn expr_ids_for_body(&self, owner: &DeclarationOwner, body_index: usize) -> (r: Vec<BodyExprId>)
        ensures
            r@ == body_expr_ids(self.spec_entries(), *owner, body_index),
    {
        let entries = self.types_by_expr_id.entries();
        let mut out: Vec<BodyExprId> = Vec::new();
        let mut i: usize = 0;
        while i < entries.len()
            invariant
                i <= entries@.len(),
                entries@ == self.spec_entries(),
                out@ == body_expr_ids(entries@.subrange(0, i as int), *owner, body_index),
            decreases entries@.len() - i,
        {
            proof {
                assert(entries@.subrange(0, i as int + 1).drop_last() =~= entries@.subrange(0, i as int));
            }
            let id = entries[i].0;
            if id.owner == *owner && id.body_index == body_index {
                out.push(id);
            }
            i = i + 1;
        }
        proof {
            assert(entries@.subrange(0, entries@.len() as int) =~= entries@);
        }
        out
    }

    /// Every checked expression with its type, in id order.
    pub fn iter(&self) -> (r: &Vec<(BodyExprId, Type)>)
        ensures
            r@ == self.spec_entries(),
            entries_sorted(r@),
    {
        self.types_by_expr_id.entries()
    }

    /// Number of checked expressions.
    pub fn len(&self) -> (n: usize)
        ensures
            n == self.spec_entries().len(),
    {
        self.types_by_expr_id.len()
    }

    /// True when no expression was checked.
    pub fn is_empty(&self) -> (b: bool)
        ensures
            b == (self.spec_entries().len() == 0),
    {
        self.types_by_expr_id.is_empty()
    }
}

/// An issue kind with its strings as character sequences.
pub enum ExprCheckIssueKindView {
    MissingBodyAst,
    MissingBodyEnvironment,
    MissingResolvedReference { segments: Seq<Seq<char>> },
    MissingLocalType { local_id: LocalId },
    MissingTypedItem { item_id: ItemId },
    InvalidUnaryOp,
    InvalidBinaryOp,
    InvalidAssignmentTarget,
    MutabilityViolation { local_id: LocalId },
    AssignmentTypeMismatch { target: Type, value: Type },
    InvalidCallCallee,
    BareExternFunctionCall { function: Seq<char>, namespace: Seq<char> },
    CallArityMismatch { expected: usize, found: usize },
    CallArgTypeMismatch { index: usize, expected: Type, found: Type },
    MissingElseBranch,
    IncompatibleIfBranches { then_type: Type, else_type: Type },
}

impl View for ExprCheckIssueKind {
    type V = ExprCheckIssueKindView;

    open spec fn view(&self) -> ExprCheckIssueKindView {
        match *self {
            ExprCheckIssueKind::MissingBodyAst => ExprCheckIssueKindView::MissingBodyAst,
            ExprCheckIssueKind::MissingBodyEnvironment => ExprCheckIssueKindView::MissingBodyEnvironment,
            ExprCheckIssueKind::MissingResolvedReference { segments } => ExprCheckIssueKindView::MissingResolvedReference { segments: string_texts(segments@) },
            ExprCheckIssueKind::MissingLocalType { local_id } => ExprCheckIssueKindView::MissingLocalType { local_id },
            ExprCheckIssueKind::MissingTypedItem { item_id } => ExprCheckIssueKindView::MissingTypedItem { item_id },
            ExprCheckIssueKind::InvalidUnaryOp => ExprCheckIssueKindView::InvalidUnaryOp,
            ExprCheckIssueKind::InvalidBinaryOp => ExprCheckIssueKindView::InvalidBinaryOp,
            ExprCheckIssueKind::InvalidAssignmentTarget => ExprCheckIssueKindView::InvalidAssignmentTarget,
            ExprCheckIssueKind::MutabilityViolation { local_id } => ExprCheckIssueKindView::MutabilityViolation { local_id },
            ExprCheckIssueKind::AssignmentTypeMismatch { target, value } => ExprCheckIssueKindView::AssignmentTypeMismatch { target, value },
            ExprCheckIssueKind::InvalidCallCallee => ExprCheckIssueKindView::InvalidCallCallee,
            ExprCheckIssueKind::BareExternFunctionCall { function, namespace } => ExprCheckIssueKindView::BareExternFunctionCall { function: function@, namespace: namespace@ },
            ExprCheckIssueKind::CallArityMismatch { expected, found } => ExprCheckIssueKindView::CallArityMismatch { expected, found },
            ExprCheckIssueKind::CallArgTypeMismatch { index, expected, found } => ExprCheckIssueKindView::CallArgTypeMismatch { index, expected, found },
            ExprCheckIssueKind::MissingElseBranch => ExprCheckIssueKindView::MissingElseBranch,
            ExprCheckIssueKind::IncompatibleIfBranches { then_type, else_type } => ExprCheckIssueKindView::IncompatibleIfBranches { then_type, else_type },
        }
    }
}

/// Where an expression issue is reported: owner, body index and span.
pub type ExprIssuePlace = (DeclarationOwner, usize, Span);

impl View for ExprCheckIssue {
    type V = (ExprIssuePlace, ExprCheckIssueKindView);

    open spec fn view(&self) -> (ExprIssuePlace, ExprCheckIssueKindView) {
        ((self.owner, self.body_index, self.span), self.kind@)
    }
}

/// Issue views of a list of issues.
pub open spec fn expr_issue_views(s: Seq<ExprCheckIssue>) -> Seq<(ExprIssuePlace, ExprCheckIssueKindView)> {
    s.map_values(|i: ExprCheckIssue| i@)
}

/// What the expression check of one body reads: the body, the HIR input,
/// the module and file of its HIR body, the typed items, the resolved
/// imports by file, the external lookup, and how each local was bound.
pub type ExprCtx = (
    ResolvedBody,
    SemanticHirInput,
    HirModule,
    FileId,
    TypedItemTable,
    SortedMap<FileId, ResolvedImports>,
    ExternalSemanticLookup,
    Map<LocalId, BodyLocalBindingInfo>,
);

/// What the expression check has found so far: the local types, the issue
/// views, the expression types, and the expressions recorded at each span.
pub type ExprState = (Map<LocalId, Type>, Seq<(ExprIssuePlace, ExprCheckIssueKindView)>, Map<BodyExprId, Type>, Map<BodySpanKey, Seq<BodyExprId>>);

/// A signature as its parameter labels, parameter types and return type.
pub type SigView = (Seq<TypedParamLabel>, Seq<Type>, Option<Type>);

/// `st` with an issue of the checked body at `span`.
pub open spec fn with_expr_issue(ctx: ExprCtx, st: ExprState, span: Span, kind: ExprCheckIssueKindView) -> ExprState {
    (st.0, st.1.push(((ctx.0.owner, ctx.0.body_index, span), kind)), st.2, st.3)
}

/// `st` with the type of expression `e` at `span` recorded.
pub open spec fn with_expr_type(ctx: ExprCtx, st: ExprState, e: HirExprId, span: Span, ty: Type) -> ExprState {
    let id = BodyExprId { owner: ctx.0.owner, body_index: ctx.0.body_index, hir_expr_id: e };
    let key = BodySpanKey { owner: ctx.0.owner, body_index: ctx.0.body_index, start: span.start, end: span.end };
    let prev = if st.3.contains_key(key) {
        st.3[key]
    } else {
        Seq::empty()
    };
    (st.0, st.1, st.2.insert(id, ty), st.3.insert(key, prev.push(id)))
}

/// The path an expression names: a path expression's segments, or a
/// namespace access appended to its base's path (at most `fuel` levels).
pub open spec fn namespace_path(module: HirModule, e: HirExprId, fuel: nat) -> Option<Seq<Seq<char>>>
    decreases fuel,
{
    if fuel == 0 {
        None
    } else {
        match module.exprs.spec_get(e) {
            Some(x) => match x.kind {
                HirExprKind::Path { segments } => Some(string_texts(segments@)),
                HirExprKind::NamespaceField { base, name } => match namespace_path(module, base, (fuel - 1) as nat) {
                    Some(p) => Some(p.push(name@)),
                    None => None,
                },
                _ => None,
            },
            None => None,
        }
    }
}

/// The global item of a HIR item.
pub open spec fn item_of_ref(hir: SemanticHirInput, r: HirItemRef) -> Option<ItemId> {
    hir.item_id_by_hir_item_ref.spec_get(r)
}

/// The project's items (no root) or a named root's, by full path.
pub open spec fn item_paths_of(hir: SemanticHirInput, root: Option<String>) -> Option<crate::collections::TextMap<Vec<String>, HirItemRef>> {
    match root {
        None => Some(hir.hir_imports.local_item_paths),
        Some(name) => hir.hir_imports.root_item_paths.spec_get(seq![name@]),
    }
}

/// The global item a path names from the body's scope file: through an
/// imported item or scope, else relative to the file's own scope.
pub open spec fn resolve_item_path(ctx: ExprCtx, path: Seq<Seq<char>>) -> Option<ItemId> {
    if path.len() == 0 {
        None
    } else {
        let file = ctx.0.containing_scope_file_id;
        let imports = ctx.1.hir_imports;
        let binding = match imports.bindings_by_file.spec_get(file) {
            Some(t) => t.spec_get(seq![path[0]]),
            None => None,
        };
        let local_lookup = match imports.scope_paths.spec_get(file) {
            Some(scope) => match imports.local_item_paths.spec_get(string_texts(scope@) + path) {
                Some(r) => item_of_ref(ctx.1, r),
                None => None,
            },
            None => None,
        };
        match binding {
            Some(b) => if path.len() == 1 {
                if b.kind == HirImportBindingKind::Item {
                    match b.target_item {
                        Some(r) => item_of_ref(ctx.1, r),
                        None => None,
                    }
                } else {
                    local_lookup
                }
            } else if b.kind == HirImportBindingKind::Scope {
                let full = string_texts(b.target_path@) + path.drop_first();
                match item_paths_of(ctx.1, b.source_root) {
                    Some(paths) => match paths.spec_get(full) {
                        Some(r) => item_of_ref(ctx.1, r),
                        None => local_lookup,
                    },
                    None => local_lookup,
                }
            } else {
                local_lookup
            },
            None => local_lookup,
        }
    }
}

/// The view of a signature.
pub open spec fn sig_view(s: TypedFunctionSignature) -> SigView {
    (s.param_labels@, s.param_types@, s.return_type)
}

/// The signature of an external root function a path names through an
/// import of the body's scope file.
pub open spec fn external_import_signature(ctx: ExprCtx, path: Seq<Seq<char>>) -> Option<SigView> {
    if path.len() == 0 {
        None
    } else {
        match ctx.5.spec_get(ctx.0.containing_scope_file_id) {
            None => None,
            Some(imports) => match imports.bindings.spec_get(seq![path[0]]) {
                None => None,
                Some(b) => {
                    let rest = path.drop_first();
                    let full = if rest.len() == 0 {
                        Some(string_texts(b.target_path@))
                    } else {
                        match b.kind {
                            ImportBindingKind::Scope => Some(string_texts(b.target_path@) + rest),
                            ImportBindingKind::Symbol(_) => None,
                        }
                    };
                    match (full, b.source_root) {
                        (Some(f), Some(root)) => match ctx.6.spec_root_function(root@, f) {
                            Some(s) => Some(sig_view(s)),
                            None => None,
                        },
                        _ => None,
                    }
                },
            },
        }
    }
}

/// The signature of a function of a named root written with the root's
/// name first.
pub open spec fn direct_root_signature(ctx: ExprCtx, path: Seq<Seq<char>>) -> Option<SigView> {
    if path.len() < 2 {
        None
    } else {
        match ctx.6.spec_root_function(path[0], path.drop_first()) {
            Some(s) => Some(sig_view(s)),
            None => None,
        }
    }
}

/// The signature of an extern library function written `library.function`.
pub open spec fn extern_path_signature(ctx: ExprCtx, path: Seq<Seq<char>>) -> Option<SigView> {
    if path.len() != 2 {
        None
    } else {
        match ctx.6.spec_extern_function(path[0], path[1]) {
            Some(s) => Some(sig_view(s)),
            None => None,
        }
    }
}

/// The first initializer signature, if any.
pub open spec fn first_initializer(inits: Seq<TypedFunctionSignature>) -> Option<SigView> {
    if inits.len() > 0 {
        Some(sig_view(inits[0]))
    } else {
        None
    }
}

/// The first initializer of the struct, enum or protocol named by a path
/// ending in `init`.
pub open spec fn initializer_signature(ctx: ExprCtx, path: Seq<Seq<char>>) -> Option<SigView> {
    if path.len() < 2 || path.last() != "init"@ {
        None
    } else {
        match resolve_item_path(ctx, path.drop_last()) {
            None => None,
            Some(owner) => if ctx.4.spec_items().contains_key(owner) {
                match ctx.4.spec_items()[owner] {
                    TypedItemData::Struct(d) => first_initializer(d.initializer_signatures@),
                    TypedItemData::Enum(d) => first_initializer(d.initializer_signatures@),
                    TypedItemData::Protocol(d) => first_initializer(d.initializer_signatures@),
                    TypedItemData::Function(_) => None,
                }
            } else {
                None
            },
        }
    }
}

/// The first method named `name`.
pub open spec fn first_method_named(methods: Seq<TypedNamedFunctionSignature>, name: Seq<char>) -> Option<SigView>
    decreases methods.len(),
{
    if methods.len() == 0 {
        None
    } else if methods[0].name@ == name {
        Some(sig_view(methods[0].signature))
    } else {
        first_method_named(methods.drop_first(), name)
    }
}

/// The signature of an associated member: the first method of that name,
/// or for `init` the first initializer.
pub open spec fn select_member(methods: Seq<TypedNamedFunctionSignature>, inits: Seq<TypedFunctionSignature>, name: Seq<char>, kind: AssociatedMemberKind) -> Option<SigView> {
    match kind {
        AssociatedMemberKind::Method => first_method_named(methods, name),
        AssociatedMemberKind::Initializer => if name == "init"@ {
            first_initializer(inits)
        } else {
            None
        },
    }
}

/// The member signature in the first of the impls that has one.
pub open spec fn impls_member(items: TypedItemTable, owners: Seq<DeclarationOwner>, name: Seq<char>, kind: AssociatedMemberKind) -> Option<SigView>
    decreases owners.len(),
{
    if owners.len() == 0 {
        None
    } else {
        let here = if items.spec_impl_signatures().contains_key(owners[0]) {
            let s = items.spec_impl_signatures()[owners[0]];
            select_member(s.method_signatures@, s.initializer_signatures@, name, kind)
        } else {
            None
        };
        if here is Some {
            here
        } else {
            impls_member(items, owners.drop_first(), name, kind)
        }
    }
}

/// The signature of an associated member of an item: declared on the item
/// itself, else in the first impl for it that has one.
pub open spec fn associated_member_signature(items: TypedItemTable, item: ItemId, name: Seq<char>, kind: AssociatedMemberKind) -> Option<SigView> {
    if !items.spec_items().contains_key(item) {
        None
    } else {
        let direct = match items.spec_items()[item] {
            TypedItemData::Struct(d) => select_member(d.method_signatures@, d.initializer_signatures@, name, kind),
            TypedItemData::Enum(d) => select_member(d.method_signatures@, d.initializer_signatures@, name, kind),
            TypedItemData::Protocol(d) => select_member(d.method_signatures@, d.initializer_signatures@, name, kind),
            TypedItemData::Function(_) => None,
        };
        if direct is Some {
            direct
        } else {
            let owners = if items.spec_impl_owners().contains_key(item) {
                items.spec_impl_owners()[item]
            } else {
                Seq::empty()
            };
            impls_member(items, owners, name, kind)
        }
    }
}

/// The signature of a function item.
pub open spec fn function_signature_of(items: TypedItemTable, item: ItemId) -> Option<SigView> {
    if items.spec_items().contains_key(item) {
        match items.spec_items()[item] {
            TypedItemData::Function(s) => Some(sig_view(s)),
            _ => None,
        }
    } else {
        None
    }
}

/// The signature of a callee of the current target: by its resolution (a
/// function item, or an associated member), else by its path (a function
/// item, or an initializer).
pub open spec fn local_callee_signature(ctx: ExprCtx, callee: HirExprId, path: Seq<Seq<char>>) -> Option<SigView> {
    let by_resolution = match ctx.1.hir_path_table.by_expr_ref.spec_get(crate::frontend::resolver::HirExprRef { file_id: ctx.3, expr_id: callee }) {
        Some(HirPathResolution::Item(r)) => match item_of_ref(ctx.1, r) {
            Some(item) => function_signature_of(ctx.4, item),
            None => None,
        },
        Some(HirPathResolution::AssociatedMember { type_item_ref, member_name, member_kind }) => match item_of_ref(ctx.1, type_item_ref) {
            Some(item) => associated_member_signature(ctx.4, item, member_name@, member_kind),
            None => None,
        },
        _ => None,
    };
    if by_resolution is Some {
        by_resolution
    } else {
        let by_path = match resolve_item_path(ctx, path) {
            Some(item) => function_signature_of(ctx.4, item),
            None => None,
        };
        if by_path is Some {
            by_path
        } else {
            initializer_signature(ctx, path)
        }
    }
}

/// How a call's callee resolves.
pub enum CalleeSignature {
    Signature(SigView),
    BareExtern { function: Seq<char>, namespace: Seq<char> },
    Missing,
}

/// Resolving a callee: a signature of the current target, of an imported
/// external function, of a named root function, of an extern function; a
/// bare extern function name; or nothing.
pub open spec fn callee_signature(ctx: ExprCtx, callee: HirExprId) -> CalleeSignature {
    match namespace_path(ctx.2, callee, crate::frontend::hir::walk_fuel(ctx.2)) {
        None => CalleeSignature::Missing,
        Some(path) => {
            if local_callee_signature(ctx, callee, path) is Some {
                CalleeSignature::Signature(local_callee_signature(ctx, callee, path).unwrap())
            } else if external_import_signature(ctx, path) is Some {
                CalleeSignature::Signature(external_import_signature(ctx, path).unwrap())
            } else if direct_root_signature(ctx, path) is Some {
                CalleeSignature::Signature(direct_root_signature(ctx, path).unwrap())
            } else if extern_path_signature(ctx, path) is Some {
                CalleeSignature::Signature(extern_path_signature(ctx, path).unwrap())
            } else if path.len() == 1 && ctx.6.spec_namespace_of(path[0]) is Some {
                CalleeSignature::BareExtern { function: path[0], namespace: ctx.6.spec_namespace_of(path[0]).unwrap() }
            } else {
                CalleeSignature::Missing
            }
        },
    }
}

/// The type and state after recording the type of expression `e`.
pub open spec fn finish_expr(ctx: ExprCtx, st: ExprState, e: HirExprId, span: Span, ty: Type) -> (Type, ExprState) {
    (ty, with_expr_type(ctx, st, e, span, ty))
}

/// A reference to an item has no value type; a reference to an item the
/// typed table lacks is reported.
pub open spec fn item_reference_type(ctx: ExprCtx, st: ExprState, span: Span, item: ItemId) -> (Type, ExprState) {
    if ctx.4.spec_items().contains_key(item) {
        (Type::Error, st)
    } else {
        (Type::Error, with_expr_issue(ctx, st, span, ExprCheckIssueKindView::MissingTypedItem { item_id: item }))
    }
}

/// The resolution of expression `e` of the checked file.
pub open spec fn resolution_of(ctx: ExprCtx, e: HirExprId) -> Option<HirPathResolution> {
    ctx.1.hir_path_table.by_expr_ref.spec_get(crate::frontend::resolver::HirExprRef { file_id: ctx.3, expr_id: e })
}

/// The type of a path expression: a local's current type, no type for an
/// item; an unresolved path of several segments that no external lookup
/// knows is reported (a single segment is left to inference).
pub open spec fn path_reference_type(ctx: ExprCtx, st: ExprState, e: HirExprId, span: Span, segments: Seq<Seq<char>>) -> (Type, ExprState) {
    let res = resolution_of(ctx, e);
    let resolved_item = match res {
        Some(HirPathResolution::Item(r)) => item_of_ref(ctx.1, r),
        Some(HirPathResolution::AssociatedMember { type_item_ref, .. }) => item_of_ref(ctx.1, type_item_ref),
        _ => None,
    };
    let local = match res {
        Some(HirPathResolution::Local(h)) => Some(h),
        _ => None,
    };
    if local is Some {
        let h = local.unwrap();
        if st.0.contains_key(h) {
            (st.0[h], st)
        } else {
            (Type::Error, with_expr_issue(ctx, st, span, ExprCheckIssueKindView::MissingLocalType { local_id: h }))
        }
    } else if resolved_item is Some {
        item_reference_type(ctx, st, span, resolved_item.unwrap())
    } else if resolve_item_path(ctx, segments) is Some {
        item_reference_type(ctx, st, span, resolve_item_path(ctx, segments).unwrap())
    } else if external_import_signature(ctx, segments) is Some || direct_root_signature(ctx, segments) is Some
        || extern_path_signature(ctx, segments) is Some {
        (Type::Error, st)
    } else if segments.len() == 1 {
        (Type::Error, st)
    } else {
        (Type::Error, with_expr_issue(ctx, st, span, ExprCheckIssueKindView::MissingResolvedReference { segments }))
    }
}

/// A numeric builtin type.
pub open spec fn is_numeric(t: Type) -> bool {
    match t {
        Type::Builtin(b) => match b {
            BuiltinType::I8 | BuiltinType::I16 | BuiltinType::I32 | BuiltinType::I64 | BuiltinType::U8 | BuiltinType::U16
            | BuiltinType::U32 | BuiltinType::U64 | BuiltinType::ISize | BuiltinType::USize | BuiltinType::F32
            | BuiltinType::F64 => true,
            _ => false,
        },
        _ => false,
    }
}

/// An integer builtin type.
pub open spec fn is_integer(t: Type) -> bool {
    match t {
        Type::Builtin(b) => match b {
            BuiltinType::I8 | BuiltinType::I16 | BuiltinType::I32 | BuiltinType::I64 | BuiltinType::U8 | BuiltinType::U16
            | BuiltinType::U32 | BuiltinType::U64 | BuiltinType::ISize | BuiltinType::USize => true,
            _ => false,
        },
        _ => false,
    }
}

/// The type of a unary operation: negation of a number, `!` of a `bool`.
pub open spec fn unary_type(ctx: ExprCtx, st: ExprState, span: Span, op: HirUnaryOp, operand: Type) -> (Type, ExprState) {
    if operand is Error {
        (Type::Error, st)
    } else if op == HirUnaryOp::Negate && is_numeric(operand) {
        (operand, st)
    } else if op == HirUnaryOp::Not && operand == Type::Builtin(BuiltinType::Bool) {
        (Type::Builtin(BuiltinType::Bool), st)
    } else {
        (Type::Error, with_expr_issue(ctx, st, span, ExprCheckIssueKindView::InvalidUnaryOp))
    }
}

/// The type of a binary operation: arithmetic on equal numeric types,
/// logic on `bool`s, comparison of equal types, `??` of equal types,
/// bitwise operations on equal integer types.
pub open spec fn binary_type(ctx: ExprCtx, st: ExprState, span: Span, op: HirBinaryOp, lhs: Type, rhs: Type) -> (Type, ExprState) {
    let bool_ty = Type::Builtin(BuiltinType::Bool);
    let invalid = (Type::Error, with_expr_issue(ctx, st, span, ExprCheckIssueKindView::InvalidBinaryOp));
    if lhs is Error || rhs is Error {
        (Type::Error, st)
    } else {
        match op {
            HirBinaryOp::Add | HirBinaryOp::Subtract | HirBinaryOp::Multiply | HirBinaryOp::Divide | HirBinaryOp::Remainder => if is_numeric(lhs) && lhs == rhs {
                (lhs, st)
            } else {
                invalid
            },
            HirBinaryOp::LogicalAnd | HirBinaryOp::LogicalOr => if lhs == bool_ty && rhs == bool_ty {
                (bool_ty, st)
            } else {
                invalid
            },
            HirBinaryOp::Equal | HirBinaryOp::NotEqual | HirBinaryOp::Less | HirBinaryOp::LessEqual | HirBinaryOp::Greater
            | HirBinaryOp::GreaterEqual => if lhs == rhs {
                (bool_ty, st)
            } else {
                invalid
            },
            HirBinaryOp::NullCoalescing => if lhs == rhs {
                (lhs, st)
            } else {
                (Type::Error, st)
            },
            HirBinaryOp::BitOr | HirBinaryOp::BitXor | HirBinaryOp::BitAnd | HirBinaryOp::ShiftLeft | HirBinaryOp::ShiftRight => if is_integer(lhs) && lhs == rhs {
                (lhs, st)
            } else {
                invalid
            },
        }
    }
}

/// What an assignment target is.
pub enum AssignTarget {
    MutableLocalOrNonPath,
    ImmutableLocal(LocalId),
    Invalid,
}

/// Classifying an assignment target: anything but a path may be assigned;
/// a path must resolve to a mutable local.
pub open spec fn assign_target(ctx: ExprCtx, target: HirExprId) -> AssignTarget {
    match namespace_path(ctx.2, target, crate::frontend::hir::walk_fuel(ctx.2)) {
        None => AssignTarget::MutableLocalOrNonPath,
        Some(_) => match resolution_of(ctx, target) {
            Some(HirPathResolution::Local(h)) => if ctx.7.contains_key(h) {
                if ctx.7[h].mutability == LocalMutability::Mutable {
                    AssignTarget::MutableLocalOrNonPath
                } else {
                    AssignTarget::ImmutableLocal(h)
                }
            } else {
                AssignTarget::Invalid
            },
            _ => AssignTarget::Invalid,
        },
    }
}

/// Giving the local bound by a binding pattern the type of its
/// initializer, when the local has no type yet (and, for `var`, is
/// mutable).
pub open spec fn infer_from_pattern(ctx: ExprCtx, st: ExprState, pat: HirPatId, ty: Type, requires_mutable: bool) -> ExprState {
    match ctx.2.patterns.spec_get(pat) {
        None => st,
        Some(p) => if !(p.kind is Binding) || ty is Error {
            st
        } else {
            match first_pat_binding(ctx.1.hir_local_bindings.bindings@, ctx.3, pat) {
                None => st,
                Some(h) => if requires_mutable && !(ctx.7.contains_key(h) && ctx.7[h].mutability == LocalMutability::Mutable) {
                    st
                } else if !st.0.contains_key(h) || st.0[h] is Error {
                    (st.0.insert(h, ty), st.1, st.2, st.3)
                } else {
                    st
                },
            }
        },
    }
}

/// The first position where a parameter and an argument type (both known)
/// differ.
pub open spec fn first_arg_mismatch(params: Seq<Type>, args: Seq<Type>) -> Option<int>
    decreases params.len(),
{
    if params.len() == 0 || args.len() == 0 {
        None
    } else if !(params[0] is Error) && !(args[0] is Error) && params[0] != args[0] {
        Some(0)
    } else {
        match first_arg_mismatch(params.drop_first(), args.drop_first()) {
            Some(i) => Some(i + 1),
            None => None,
        }
    }
}

/// Consecutive types are all equal.
pub open spec fn all_equal(ts: Seq<Type>) -> bool {
    forall|i: int| 0 <= i < ts.len() - 1 ==> #[trigger] ts[i] == ts[i + 1]
}

/// The type of a literal.
pub open spec fn literal_type(l: crate::frontend::hir::HirLiteral) -> Type {
    match l {
        crate::frontend::hir::HirLiteral::Integer => Type::Builtin(BuiltinType::I32),
        crate::frontend::hir::HirLiteral::Float => Type::Builtin(BuiltinType::F64),
        crate::frontend::hir::HirLiteral::Char => Type::Builtin(BuiltinType::Char),
        crate::frontend::hir::HirLiteral::Boolean => Type::Builtin(BuiltinType::Bool),
        crate::frontend::hir::HirLiteral::String => Type::Builtin(BuiltinType::String),
    }
}

/// The expression of an array element.
pub open spec fn element_expr(el: HirArrayElement) -> HirExprId {
    match el {
        HirArrayElement::Expr(v) => v,
        HirArrayElement::Spread(v) => v,
    }
}

/// The expression of a struct literal field.
pub open spec fn field_expr(f: HirStructExprField) -> HirExprId {
    match f {
        HirStructExprField::Named { value } => value,
        HirStructExprField::Spread { value } => value,
    }
}

/// A condition must be `bool` (or the error type).
pub open spec fn condition_issue(ctx: ExprCtx, st: ExprState, span: Span, ty: Type) -> ExprState {
    if ty != Type::Builtin(BuiltinType::Bool) && !(ty is Error) {
        with_expr_issue(ctx, st, span, ExprCheckIssueKindView::InvalidBinaryOp)
    } else {
        st
    }
}

/// `st` with the local types of `before`: a branch's inference is not kept.
pub open spec fn restore_locals(before: ExprState, st: ExprState) -> ExprState {
    (before.0, st.1, st.2, st.3)
}

/// Checking a call, once the callee and arguments are checked.
pub open spec fn call_type(ctx: ExprCtx, st: ExprState, e: HirExprId, span: Span, callee: HirExprId, sig: CalleeSignature, arg_types: Seq<Type>) -> (Type, ExprState) {
    match sig {
        CalleeSignature::Signature(sv) => if sv.1.len() != arg_types.len() {
            finish_expr(ctx, with_expr_issue(ctx, st, span, ExprCheckIssueKindView::CallArityMismatch { expected: sv.1.len() as usize, found: arg_types.len() as usize }), e, span, Type::Error)
        } else {
            match first_arg_mismatch(sv.1, arg_types) {
                Some(i) => finish_expr(
                    ctx,
                    with_expr_issue(ctx, st, span, ExprCheckIssueKindView::CallArgTypeMismatch { index: i as usize, expected: sv.1[i], found: arg_types[i] }),
                    e,
                    span,
                    Type::Error,
                ),
                None => finish_expr(ctx, st, e, span, match sv.2 {
                    Some(t) => t,
                    None => Type::Builtin(BuiltinType::Void),
                }),
            }
        },
        CalleeSignature::BareExtern { function, namespace } => finish_expr(
            ctx,
            with_expr_issue(ctx, st, span, ExprCheckIssueKindView::BareExternFunctionCall { function, namespace }),
            e,
            span,
            Type::Error,
        ),
        CalleeSignature::Missing => if resolution_of(ctx, callee) matches Some(HirPathResolution::Local(_)) {
            finish_expr(ctx, with_expr_issue(ctx, st, span, ExprCheckIssueKindView::InvalidCallCallee), e, span, Type::Error)
        } else {
            finish_expr(ctx, st, e, span, Type::Error)
        },
    }
}

/// Checking expression `e` (at most `fuel` levels deep): its type, and the
/// state after recording the types of it and of the expressions below it.
pub open spec fn check_expr_spec(ctx: ExprCtx, st: ExprState, fuel: nat, e: HirExprId) -> (Type, ExprState)
    decreases fuel, 0nat,
{
    if fuel == 0 {
        (Type::Error, st)
    } else {
        let f = (fuel - 1) as nat;
        match ctx.2.exprs.spec_get(e) {
            None => finish_expr(ctx, st, e, Span { start: 0, end: 0 }, Type::Error),
            Some(x) => {
                let span = x.origin.span;
                match x.kind {
                    HirExprKind::Literal(l) => finish_expr(ctx, st, e, span, literal_type(l)),
                    HirExprKind::Path { segments } => {
                        let (t, s1) = path_reference_type(ctx, st, e, span, string_texts(segments@));
                        finish_expr(ctx, s1, e, span, t)
                    },
                    HirExprKind::NamespaceField { .. } => match namespace_path(ctx.2, e, crate::frontend::hir::walk_fuel(ctx.2)) {
                        None => finish_expr(ctx, st, e, span, Type::Error),
                        Some(p) => {
                            let (t, s1) = path_reference_type(ctx, st, e, span, p);
                            finish_expr(ctx, s1, e, span, t)
                        },
                    },
                    HirExprKind::Unary { op, expr } => {
                        let (t1, s1) = check_expr_spec(ctx, st, f, expr);
                        let (t, s2) = unary_type(ctx, s1, span, op, t1);
                        finish_expr(ctx, s2, e, span, t)
                    },
                    HirExprKind::Binary { op, lhs, rhs } => {
                        let (tl, s1) = check_expr_spec(ctx, st, f, lhs);
                        let (tr, s2) = check_expr_spec(ctx, s1, f, rhs);
                        let (t, s3) = binary_type(ctx, s2, span, op, tl, tr);
                        finish_expr(ctx, s3, e, span, t)
                    },
                    HirExprKind::Assign { target, value, .. } => {
                        let (tt, s1) = check_expr_spec(ctx, st, f, target);
                        let (tv, s2) = check_expr_spec(ctx, s1, f, value);
                        match assign_target(ctx, target) {
                            AssignTarget::MutableLocalOrNonPath => if !(tt is Error) && !(tv is Error) && tt != tv {
                                finish_expr(ctx, with_expr_issue(ctx, s2, span, ExprCheckIssueKindView::AssignmentTypeMismatch { target: tt, value: tv }), e, span, Type::Error)
                            } else {
                                finish_expr(ctx, s2, e, span, tt)
                            },
                            AssignTarget::ImmutableLocal(h) => finish_expr(ctx, with_expr_issue(ctx, s2, span, ExprCheckIssueKindView::MutabilityViolation { local_id: h }), e, span, Type::Error),
                            AssignTarget::Invalid => finish_expr(ctx, with_expr_issue(ctx, s2, span, ExprCheckIssueKindView::InvalidAssignmentTarget), e, span, Type::Error),
                        }
                    },
                    HirExprKind::Call { callee, args } => {
                        let sig = callee_signature(ctx, callee);
                        let (_, s1) = check_expr_spec(ctx, st, f, callee);
                        let (ts, s2) = check_exprs_spec(ctx, s1, f, args@.map_values(|a: HirCallArg| a.value));
                        call_type(ctx, s2, e, span, callee, sig, ts)
                    },
                    HirExprKind::Block { body } => {
                        let (t, s1) = check_body_spec(ctx, st, f, body);
                        finish_expr(ctx, s1, e, span, t)
                    },
                    HirExprKind::If { condition, then_body, else_expr } => {
                        let (tc, s1) = check_expr_spec(ctx, st, f, condition);
                        let s1b = condition_issue(ctx, s1, span, tc);
                        let (tt, s2) = check_body_spec(ctx, s1b, f, then_body);
                        let s2r = restore_locals(s1b, s2);
                        match else_expr {
                            None => finish_expr(ctx, with_expr_issue(ctx, s2r, span, ExprCheckIssueKindView::MissingElseBranch), e, span, Type::Error),
                            Some(el) => {
                                let (te, s3) = check_expr_spec(ctx, s2r, f, el);
                                let s3r = restore_locals(s1b, s3);
                                if tt == te {
                                    finish_expr(ctx, s3r, e, span, tt)
                                } else if tt is Error || te is Error {
                                    finish_expr(ctx, s3r, e, span, Type::Error)
                                } else {
                                    finish_expr(
                                        ctx,
                                        with_expr_issue(ctx, s3r, span, ExprCheckIssueKindView::IncompatibleIfBranches { then_type: tt, else_type: te }),
                                        e,
                                        span,
                                        Type::Error,
                                    )
                                }
                            },
                        }
                    },
                    HirExprKind::Match { subject, arms } => {
                        let (_, s1) = check_expr_spec(ctx, st, f, subject);
                        let (ts, s2) = check_exprs_spec(ctx, s1, f, arms@.map_values(|a: HirMatchArm| a.expr));
                        let t = if ts.len() == 0 {
                            Type::Builtin(BuiltinType::Void)
                        } else if all_equal(ts) {
                            ts[0]
                        } else {
                            Type::Error
                        };
                        finish_expr(ctx, s2, e, span, t)
                    },
                    HirExprKind::Array { elements } => {
                        let (_, s1) = check_exprs_spec(ctx, st, f, elements@.map_values(|el: HirArrayElement| element_expr(el)));
                        finish_expr(ctx, s1, e, span, Type::Error)
                    },
                    HirExprKind::Struct { fields } => {
                        let (_, s1) = check_exprs_spec(ctx, st, f, fields@.map_values(|fl: HirStructExprField| field_expr(fl)));
                        finish_expr(ctx, s1, e, span, Type::Error)
                    },
                    HirExprKind::Tuple { elements } => {
                        let (_, s1) = check_exprs_spec(ctx, st, f, elements@);
                        finish_expr(ctx, s1, e, span, Type::Error)
                    },
                    HirExprKind::While { condition, body } => {
                        let (tc, s1) = check_expr_spec(ctx, st, f, condition);
                        let s1b = condition_issue(ctx, s1, span, tc);
                        let (_, s2) = check_body_spec(ctx, s1b, f, body);
                        finish_expr(ctx, s2, e, span, Type::Builtin(BuiltinType::Void))
                    },
                    HirExprKind::For { iterator, body, .. } => {
                        let (_, s1) = check_expr_spec(ctx, st, f, iterator);
                        let (_, s2) = check_body_spec(ctx, s1, f, body);
                        finish_expr(ctx, s2, e, span, Type::Builtin(BuiltinType::Void))
                    },
                    HirExprKind::Return { value } => {
                        let s1 = match value {
                            Some(v) => check_expr_spec(ctx, st, f, v).1,
                            None => st,
                        };
                        finish_expr(ctx, s1, e, span, Type::Builtin(BuiltinType::Never))
                    },
                    HirExprKind::Try { expr } => {
                        let (t, s1) = check_expr_spec(ctx, st, f, expr);
                        finish_expr(ctx, s1, e, span, t)
                    },
                    HirExprKind::ForceUnwrap { expr } => {
                        let (t, s1) = check_expr_spec(ctx, st, f, expr);
                        finish_expr(ctx, s1, e, span, t)
                    },
                    HirExprKind::Spread { expr } => {
                        let (t, s1) = check_expr_spec(ctx, st, f, expr);
                        finish_expr(ctx, s1, e, span, t)
                    },
                    HirExprKind::Break => finish_expr(ctx, st, e, span, Type::Builtin(BuiltinType::Never)),
                    HirExprKind::Continue => finish_expr(ctx, st, e, span, Type::Builtin(BuiltinType::Never)),
                    _ => finish_expr(ctx, st, e, span, Type::Error),
                }
            },
        }
    }
}

/// Checking expressions in order: their types and the state after.
pub open spec fn check_exprs_spec(ctx: ExprCtx, st: ExprState, fuel: nat, es: Seq<HirExprId>) -> (Seq<Type>, ExprState)
    decreases fuel, es.len(),
{
    if es.len() == 0 {
        (seq![], st)
    } else {
        let (ts, s1) = check_exprs_spec(ctx, st, fuel, es.drop_last());
        let (t, s2) = check_expr_spec(ctx, s1, fuel, es.last());
        (ts.push(t), s2)
    }
}

/// Checking a statement: a `let` gives its local the initializer's type,
/// an expression statement is checked.
pub open spec fn check_stmt_spec(ctx: ExprCtx, st: ExprState, fuel: nat, s: HirStmtId) -> ExprState
    decreases fuel, 0nat,
{
    if fuel == 0 {
        st
    } else {
        match ctx.2.stmts.spec_get(s) {
            None => st,
            Some(stmt) => match stmt.kind {
                HirStmtKind::Let { pat, value, mutability } => {
                    let (t, s1) = match value {
                        Some(v) => check_expr_spec(ctx, st, (fuel - 1) as nat, v),
                        None => (Type::Builtin(BuiltinType::Void), st),
                    };
                    infer_from_pattern(ctx, s1, pat, t, mutability == HirMutability::Mutable)
                },
                HirStmtKind::Expr { expr } => check_expr_spec(ctx, st, (fuel - 1) as nat, expr).1,
                HirStmtKind::Semi { expr } => check_expr_spec(ctx, st, (fuel - 1) as nat, expr).1,
                HirStmtKind::Item { .. } => st,
            },
        }
    }
}

/// Checking statements in order.
pub open spec fn check_stmts_spec(ctx: ExprCtx, st: ExprState, fuel: nat, stmts: Seq<HirStmtId>) -> ExprState
    decreases fuel, stmts.len(),
{
    if stmts.len() == 0 {
        st
    } else {
        check_stmt_spec(ctx, check_stmts_spec(ctx, st, fuel, stmts.drop_last()), fuel, stmts.last())
    }
}

/// Checking a block body: its statements, then its tail expression, whose
/// type is the block's (`void` without tail; the error type for a missing
/// body).
pub open spec fn check_body_spec(ctx: ExprCtx, st: ExprState, fuel: nat, b: HirBodyId) -> (Type, ExprState)
    decreases fuel, 0nat,
{
    if fuel == 0 {
        (Type::Error, st)
    } else {
        match ctx.2.bodies.spec_get(b) {
            None => (Type::Error, st),
            Some(body) => {
                let s1 = check_stmts_spec(ctx, st, (fuel - 1) as nat, body.stmts@);
                match body.tail_expr {
                    Some(t) => check_expr_spec(ctx, s1, (fuel - 1) as nat, t),
                    None => (Type::Builtin(BuiltinType::Void), s1),
                }
            },
        }
    }
}

fn extract_namespace_path(module: &HirModule, e: HirExprId, fuel: usize) -> (r: Option<Vec<String>>)
    ensures
        match r {
            Some(v) => namespace_path(*module, e, fuel as nat) == Some(string_texts(v@)),
            None => namespace_path(*module, e, fuel as nat) is None,
        },
    decreases fuel,
{
    if fuel == 0 {
        return None;
    }
    let x = match module.exprs.get(&e) {
        Some(x) => x,
        None => return None,
    };
    match &x.kind {
        HirExprKind::Path { segments } => {
            let v = segments.clone_text();
            Some(v)
        },
        HirExprKind::NamespaceField { base, name } => match extract_namespace_path(module, *base, fuel - 1) {
            Some(mut p) => {
                let ghost p0 = p@;
                p.push(name.clone());
                proof {
                    assert(string_texts(p@) =~= string_texts(p0).push(name@));
                }
                Some(p)
            },
            None => None,
        },
        _ => None,
    }
}

/// `prefix` followed by `rest`, as owned strings.
fn join_paths(prefix: &Vec<String>, rest: &[String]) -> (r: Vec<String>)
    ensures
        string_texts(r@) == string_texts(prefix@) + string_texts(rest@),
{
    let mut out = prefix.clone_text();
    let ghost p0 = out@;
    let mut i: usize = 0;
    while i < rest.len()
        invariant
            i <= rest@.len(),
            string_texts(out@) == string_texts(prefix@) + string_texts(rest@.subrange(0, i as int)),
        decreases rest@.len() - i,
    {
        let ghost o0 = out@;
        out.push(rest[i].clone());
        proof {
            assert(string_texts(out@) =~= string_texts(o0).push(rest@[i as int]@));
            assert(string_texts(rest@.subrange(0, i as int + 1)) =~= string_texts(rest@.subrange(0, i as int)).push(rest@[i as int]@));
            assert(string_texts(prefix@) + string_texts(rest@.subrange(0, i as int + 1)) =~= (string_texts(prefix@) + string_texts(rest@.subrange(0, i as int))).push(rest@[i as int]@));
        }
        i = i + 1;
    }
    proof {
        assert(rest@.subrange(0, rest@.len() as int) =~= rest@);
    }
    out
}

fn select_associated_member_signature<'b>(
    methods: &'b Vec<TypedNamedFunctionSignature>,
    inits: &'b Vec<TypedFunctionSignature>,
    name: &str,
    kind: AssociatedMemberKind,
) -> (r: Option<&'b TypedFunctionSignature>)
    ensures
        match r {
            Some(s) => select_member(methods@, inits@, name@, kind) == Some(sig_view(*s)),
            None => select_member(methods@, inits@, name@, kind) is None,
        },
{
    match kind {
        AssociatedMemberKind::Method => {
            let mut i: usize = 0;
            proof {
                assert(methods@.subrange(0, methods@.len() as int) =~= methods@);
            }
            while i < methods.len()
                invariant
                    i <= methods@.len(),
                    kind == AssociatedMemberKind::Method,
                    first_method_named(methods@, name@) == first_method_named(methods@.subrange(i as int, methods@.len() as int), name@),
                decreases methods@.len() - i,
            {
                proof {
                    assert(methods@.subrange(i as int, methods@.len() as int).drop_first() =~= methods@.subrange(i as int + 1, methods@.len() as int));
                }
                if str_eq(methods[i].name.as_str(), name) {
                    proof {
                        let rest = methods@.subrange(i as int, methods@.len() as int);
                        assert(rest[0] == methods@[i as int]);
                    }
                    return Some(&methods[i].signature);
                }
                i = i + 1;
            }
            None
        },
        AssociatedMemberKind::Initializer => {
            proof {
                reveal_strlit("init");
            }
            if str_eq(name, "init") && inits.len() > 0 {
                Some(&inits[0])
            } else {
                None
            }
        },
    }
}

/// The first initializer signature, if any.
fn first_initializer_of(inits: &Vec<TypedFunctionSignature>) -> (r: Option<&TypedFunctionSignature>)
    ensures
        match r {
            Some(s) => first_initializer(inits@) == Some(sig_view(*s)),
            None => first_initializer(inits@) is None,
        },
{
    if inits.len() > 0 {
        Some(&inits[0])
    } else {
        None
    }
}

/// How a callee resolves.
enum CallSignatureResolution<'a> {
    Signature(&'a TypedFunctionSignature),
    BareExtern { function: String, namespace: String },
    Missing,
}

/// Whether an assignment target may be assigned.
enum AssignmentTargetStatus {
    MutableLocalOrNonPath,
    ImmutableLocal(LocalId),
    Invalid,
}

struct BodyExprChecker<'a> {
    body: &'a ResolvedBody,
    file_id: FileId,
    module: &'a HirModule,
    hir_input: &'a SemanticHirInput,
    typed_items: &'a TypedItemTable,
    imports: &'a SortedMap<FileId, ResolvedImports>,
    external_lookup: &'a ExternalSemanticLookup,
    local_bindings: &'a SortedMap<LocalId, BodyLocalBindingInfo>,
    local_types: SortedMap<LocalId, Type>,
}

impl<'a> BodyExprChecker<'a> {
    spec fn ctx(&self) -> ExprCtx {
        (*self.body, *self.hir_input, *self.module, self.file_id, *self.typed_items, *self.imports, *self.external_lookup, entries_map(self.local_bindings@))
    }

    fn item_id_of(&self, r: &HirItemRef) -> (id: Option<ItemId>)
        ensures
            id == item_of_ref(self.ctx().1, *r),
    {
        match self.hir_input.item_id_by_hir_item_ref.get(r) {
            Some(i) => Some(*i),
            None => None,
        }
    }

    fn local_item_lookup(&self, path: &[String]) -> (r: Option<ItemId>)
        requires
            path@.len() > 0,
        ensures
            r == (match self.ctx().1.hir_imports.scope_paths.spec_get(self.body.containing_scope_file_id) {
                Some(scope) => match self.ctx().1.hir_imports.local_item_paths.spec_get(string_texts(scope@) + string_texts(path@)) {
                    Some(hr) => item_of_ref(self.ctx().1, hr),
                    None => None,
                },
                None => None,
            }),
    {
        let imports = &self.hir_input.hir_imports;
        let scope = match imports.scope_path_for_file(self.body.containing_scope_file_id) {
            Some(s) => s,
            None => return None,
        };
        let full = join_paths(scope, path);
        let paths = match imports.item_paths_for_root(None) {
            Some(p) => p,
            None => return None,
        };
        match paths.get(&full) {
            Some(hr) => self.item_id_of(hr),
            None => None,
        }
    }

    /// The global item a path names from the body's scope file (see
    /// [`resolve_item_path`]).
    fn resolve_item_id_from_hir_path(&self, path: &[String]) -> (r: Option<ItemId>)
        ensures
            r == resolve_item_path(self.ctx(), string_texts(path@)),
    {
        if path.len() == 0 {
            return None;
        }
        let ghost p = string_texts(path@);
        let imports = &self.hir_input.hir_imports;
        let first = &path[0];
        proof {
            assert(first.text() == seq![p[0]]);
        }
        let binding = match imports.get(self.body.containing_scope_file_id) {
            Some(table) => table.get(first),
            None => None,
        };
        match binding {
            Some(b) => {
                if path.len() == 1 {
                    if b.kind == HirImportBindingKind::Item {
                        return match &b.target_item {
                            Some(hr) => self.item_id_of(hr),
                            None => None,
                        };
                    }
                } else if b.kind == HirImportBindingKind::Scope {
                    let rest = path_tail(path);
                    let full = join_paths(&b.target_path, rest);
                    proof {
                        assert(string_texts(path@.subrange(1, path@.len() as int)) =~= p.drop_first());
                    }
                    let paths = imports.item_paths_for_root(b.source_root.as_ref());
                    match paths {
                        Some(paths) => match paths.get(&full) {
                            Some(hr) => {
                                return self.item_id_of(hr);
                            },
                            None => {},
                        },
                        None => {},
                    }
                }
            },
            None => {},
        }
        self.local_item_lookup(path)
    }

    /// See [`external_import_signature`].
    fn external_import_signature_for_path(&self, path: &[String]) -> (r: Option<&'a TypedFunctionSignature>)
        ensures
            match r {
                Some(s) => external_import_signature(self.ctx(), string_texts(path@)) == Some(sig_view(*s)),
                None => external_import_signature(self.ctx(), string_texts(path@)) is None,
            },
    {
        if path.len() == 0 {
            return None;
        }
        let ghost p = string_texts(path@);
        let imports = match self.imports.get(&self.body.containing_scope_file_id) {
            Some(i) => i,
            None => return None,
        };
        let binding = match imports.get(&path[0]) {
            Some(b) => b,
            None => return None,
        };
        let rest = path_tail(path);
        proof {
            assert(string_texts(rest@) =~= p.drop_first());
        }
        let full = if rest.len() == 0 {
            binding.target_path.clone_text()
        } else {
            match binding.kind {
                ImportBindingKind::Scope => join_paths(&binding.target_path, rest),
                ImportBindingKind::Symbol(_) => return None,
            }
        };
        let root = match &binding.source_root {
            Some(r) => r,
            None => return None,
        };
        self.external_lookup.function_for_named_root_path(root.as_str(), full.as_slice())
    }

    /// See [`direct_root_signature`].
    fn direct_named_root_signature_for_path(&self, path: &[String]) -> (r: Option<&'a TypedFunctionSignature>)
        ensures
            match r {
                Some(s) => direct_root_signature(self.ctx(), string_texts(path@)) == Some(sig_view(*s)),
                None => direct_root_signature(self.ctx(), string_texts(path@)) is None,
            },
    {
        if path.len() < 2 {
            return None;
        }
        let rest = path_tail(path);
        proof {
            assert(string_texts(rest@) =~= string_texts(path@).drop_first());
        }
        self.external_lookup.function_for_named_root_path(path[0].as_str(), rest)
    }

    /// See [`extern_path_signature`].
    fn extern_signature_for_path(&self, path: &[String]) -> (r: Option<&'a TypedFunctionSignature>)
        ensures
            match r {
                Some(s) => extern_path_signature(self.ctx(), string_texts(path@)) == Some(sig_view(*s)),
                None => extern_path_signature(self.ctx(), string_texts(path@)) is None,
            },
    {
        if path.len() != 2 {
            return None;
        }
        self.external_lookup.extern_function_signature(path[0].as_str(), path[1].as_str())
    }

    /// See [`initializer_signature`].
    fn initializer_signature_for_path(&self, path: &[String]) -> (r: Option<&'a TypedFunctionSignature>)
        ensures
            match r {
                Some(s) => initializer_signature(self.ctx(), string_texts(path@)) == Some(sig_view(*s)),
                None => initializer_signature(self.ctx(), string_texts(path@)) is None,
            },
    {
        proof {
            reveal_strlit("init");
        }
        if path.len() < 2 || !str_eq(path[path.len() - 1].as_str(), "init") {
            return None;
        }
        let owner_path = path_init(path);
        proof {
            assert(string_texts(owner_path@) =~= string_texts(path@).drop_last());
        }
        let owner = match self.resolve_item_id_from_hir_path(owner_path) {
            Some(o) => o,
            None => return None,
        };
        match self.typed_items.get(owner) {
            Some(TypedItemData::Struct(d)) => first_initializer_of(&d.initializer_signatures),
            Some(TypedItemData::Enum(d)) => first_initializer_of(&d.initializer_signatures),
            Some(TypedItemData::Protocol(d)) => first_initializer_of(&d.initializer_signatures),
            Some(TypedItemData::Function(_)) => None,
            None => None,
        }
    }

    /// See [`associated_member_signature`].
    fn associated_member_signature_for_item(&self, item: ItemId, name: &str, kind: AssociatedMemberKind) -> (r: Option<&'a TypedFunctionSignature>)
        ensures
            match r {
                Some(s) => associated_member_signature(self.ctx().4, item, name@, kind) == Some(sig_view(*s)),
                None => associated_member_signature(self.ctx().4, item, name@, kind) is None,
            },
    {
        let typed_items = self.typed_items;
        let direct = match typed_items.get(item) {
            Some(TypedItemData::Struct(d)) => select_associated_member_signature(&d.method_signatures, &d.initializer_signatures, name, kind),
            Some(TypedItemData::Enum(d)) => select_associated_member_signature(&d.method_signatures, &d.initializer_signatures, name, kind),
            Some(TypedItemData::Protocol(d)) => select_associated_member_signature(&d.method_signatures, &d.initializer_signatures, name, kind),
            Some(TypedItemData::Function(_)) => None,
            None => return None,
        };
        if direct.is_some() {
            return direct;
        }
        let owners = typed_items.impl_owners_for_target(item);
        let mut i: usize = 0;
        proof {
            assert(owners@.subrange(0, owners@.len() as int) =~= owners@);
        }
        while i < owners.len()
            invariant
                i <= owners@.len(),
                self.ctx().4 == *typed_items,
                associated_member_signature(*typed_items, item, name@, kind) == impls_member(*typed_items, owners@, name@, kind),
                impls_member(*typed_items, owners@, name@, kind) == impls_member(*typed_items, owners@.subrange(i as int, owners@.len() as int), name@, kind),
            decreases owners@.len() - i,
        {
            let ghost rest = owners@.subrange(i as int, owners@.len() as int);
            proof {
                assert(rest.drop_first() =~= owners@.subrange(i as int + 1, owners@.len() as int));
                assert(rest[0] == owners@[i as int]);
            }
            match typed_items.impl_signature(&owners[i]) {
                Some(sig) => {
                    let found = select_associated_member_signature(&sig.method_signatures, &sig.initializer_signatures, name, kind);
                    if found.is_some() {
                        return found;
                    }
                },
                None => {},
            }
            i = i + 1;
        }
        None
    }

    /// See [`local_callee_signature`].
    fn local_signature_for_callee(&self, callee: HirExprId, path: &[String]) -> (r: Option<&'a TypedFunctionSignature>)
        ensures
            match r {
                Some(s) => local_callee_signature(self.ctx(), callee, string_texts(path@)) == Some(sig_view(*s)),
                None => local_callee_signature(self.ctx(), callee, string_texts(path@)) is None,
            },
    {
        match self.hir_input.hir_path_table.by_expr(self.file_id, callee) {
            Some(HirPathResolution::Item(hr)) => {
                match self.item_id_of(hr) {
                    Some(item) => match self.typed_items.function(item) {
                        Some(sig) => {
                            return Some(sig);
                        },
                        None => {},
                    },
                    None => {},
                }
            },
            Some(HirPathResolution::AssociatedMember { type_item_ref, member_name, member_kind }) => {
                match self.item_id_of(type_item_ref) {
                    Some(item) => match self.associated_member_signature_for_item(item, member_name.as_str(), *member_kind) {
                        Some(sig) => {
                            return Some(sig);
                        },
                        None => {},
                    },
                    None => {},
                }
            },
            _ => {},
        }
        match self.resolve_item_id_from_hir_path(path) {
            Some(item) => match self.typed_items.function(item) {
                Some(sig) => {
                    return Some(sig);
                },
                None => {},
            },
            None => {},
        }
        self.initializer_signature_for_path(path)
    }

    /// See [`callee_signature`].
    fn call_signature_for_callee(&self, callee: HirExprId) -> (r: CallSignatureResolution<'a>)
        ensures
            match r {
                CallSignatureResolution::Signature(s) => callee_signature(self.ctx(), callee) == CalleeSignature::Signature(sig_view(*s)),
                CallSignatureResolution::BareExtern { function, namespace } => callee_signature(self.ctx(), callee)
                    == CalleeSignature::BareExtern { function: function@, namespace: namespace@ },
                CallSignatureResolution::Missing => callee_signature(self.ctx(), callee) is Missing,
            },
    {
        let path = match extract_namespace_path(self.module, callee, self.module.walk_fuel()) {
            Some(p) => p,
            None => return CallSignatureResolution::Missing,
        };
        match self.local_signature_for_callee(callee, path.as_slice()) {
            Some(s) => {
                return CallSignatureResolution::Signature(s);
            },
            None => {},
        }
        match self.external_import_signature_for_path(path.as_slice()) {
            Some(s) => {
                return CallSignatureResolution::Signature(s);
            },
            None => {},
        }
        match self.direct_named_root_signature_for_path(path.as_slice()) {
            Some(s) => {
                return CallSignatureResolution::Signature(s);
            },
            None => {},
        }
        match self.extern_signature_for_path(path.as_slice()) {
            Some(s) => {
                return CallSignatureResolution::Signature(s);
            },
            None => {},
        }
        if path.len() == 1 {
            match self.external_lookup.extern_namespace_for_function(path[0].as_str()) {
                Some(namespace) => {
                    return CallSignatureResolution::BareExtern { function: path[0].clone(), namespace: namespace.to_owned() };
                },
                None => {},
            }
        }
        CallSignatureResolution::Missing
    }

    spec fn state(&self, t: ExpressionTypeTable) -> ExprState {
        (entries_map(self.local_types@), expr_issue_views(t.spec_issues()), t.spec_types(), t.spec_span_ids())
    }

    fn issue(&self, table: &mut ExpressionTypeTable, span: Span, kind: ExprCheckIssueKind)
        ensures
            self.state(*final(table)) == with_expr_issue(self.ctx(), self.state(*old(table)), span, kind@),
            final(table).spec_roots() == old(table).spec_roots(),
    {
        let ghost k = kind@;
        table.push_issue(ExprCheckIssue { owner: self.body.owner, body_index: self.body.body_index, span, kind });
        proof {
            assert(expr_issue_views(table.spec_issues()) =~= expr_issue_views(old(table).spec_issues()).push(((self.body.owner, self.body.body_index, span), k)));
        }
    }

    fn store_and_return(&self, e: HirExprId, span: Span, ty: Type, table: &mut ExpressionTypeTable) -> (r: Type)
        ensures
            (r, self.state(*final(table))) == finish_expr(self.ctx(), self.state(*old(table)), e, span, ty),
            final(table).spec_roots() == old(table).spec_roots(),
    {
        let id = BodyExprId { owner: self.body.owner, body_index: self.body.body_index, hir_expr_id: e };
        table.record_expr_type(id, span, ty.clone());
        proof {
            let key = BodySpanKey { owner: id.owner, body_index: id.body_index, start: span.start, end: span.end };
            assert(self.state(*table).3 == with_expr_type(self.ctx(), self.state(*old(table)), e, span, ty).3);
        }
        ty
    }

    fn type_for_item_reference(&self, span: Span, item: ItemId, table: &mut ExpressionTypeTable) -> (r: Type)
        ensures
            (r, self.state(*final(table))) == item_reference_type(self.ctx(), self.state(*old(table)), span, item),
            final(table).spec_roots() == old(table).spec_roots(),
    {
        match self.typed_items.get(item) {
            Some(_) => Type::error(),
            None => {
                self.issue(table, span, ExprCheckIssueKind::MissingTypedItem { item_id: item });
                Type::error()
            },
        }
    }

    fn type_for_path_reference(&self, e: HirExprId, span: Span, segments: &Vec<String>, table: &mut ExpressionTypeTable) -> (r: Type)
        ensures
            (r, self.state(*final(table))) == path_reference_type(self.ctx(), self.state(*old(table)), e, span, string_texts(segments@)),
            final(table).spec_roots() == old(table).spec_roots(),
    {
        match self.hir_input.hir_path_table.by_expr(self.file_id, e) {
            Some(HirPathResolution::Local(h)) => {
                return match self.local_types.get(h) {
                    Some(t) => t.clone(),
                    None => {
                        self.issue(table, span, ExprCheckIssueKind::MissingLocalType { local_id: *h });
                        Type::error()
                    },
                };
            },
            Some(HirPathResolution::Item(hr)) => match self.item_id_of(hr) {
                Some(item) => {
                    return self.type_for_item_reference(span, item, table);
                },
                None => {},
            },
            Some(HirPathResolution::AssociatedMember { type_item_ref, .. }) => match self.item_id_of(type_item_ref) {
                Some(item) => {
                    return self.type_for_item_reference(span, item, table);
                },
                None => {},
            },
            None => {},
        }
        match self.resolve_item_id_from_hir_path(segments.as_slice()) {
            Some(item) => {
                return self.type_for_item_reference(span, item, table);
            },
            None => {},
        }
        if self.external_import_signature_for_path(segments.as_slice()).is_some()
            || self.direct_named_root_signature_for_path(segments.as_slice()).is_some()
            || self.extern_signature_for_path(segments.as_slice()).is_some() {
            return Type::error();
        }
        if segments.len() == 1 {
            return Type::error();
        }
        self.issue(table, span, ExprCheckIssueKind::MissingResolvedReference { segments: segments.clone_text() });
        Type::error()
    }

    fn type_unary(&self, span: Span, op: HirUnaryOp, operand: Type, table: &mut ExpressionTypeTable) -> (r: Type)
        ensures
            (r, self.state(*final(table))) == unary_type(self.ctx(), self.state(*old(table)), span, op, operand),
            final(table).spec_roots() == old(table).spec_roots(),
    {
        if operand.is_error() {
            return Type::error();
        }
        if op == HirUnaryOp::Negate && is_numeric_type(&operand) {
            return operand;
        }
        if op == HirUnaryOp::Not && operand == Type::builtin(BuiltinType::Bool) {
            return Type::builtin(BuiltinType::Bool);
        }
        self.issue(table, span, ExprCheckIssueKind::InvalidUnaryOp);
        Type::error()
    }

    fn type_binary(&self, span: Span, op: HirBinaryOp, lhs: Type, rhs: Type, table: &mut ExpressionTypeTable) -> (r: Type)
        ensures
            (r, self.state(*final(table))) == binary_type(self.ctx(), self.state(*old(table)), span, op, lhs, rhs),
            final(table).spec_roots() == old(table).spec_roots(),
    {
        if lhs.is_error() || rhs.is_error() {
            return Type::error();
        }
        match op {
            HirBinaryOp::Add | HirBinaryOp::Subtract | HirBinaryOp::Multiply | HirBinaryOp::Divide | HirBinaryOp::Remainder => {
                if is_numeric_type(&lhs) && lhs == rhs {
                    return lhs;
                }
            },
            HirBinaryOp::LogicalAnd | HirBinaryOp::LogicalOr => {
                if lhs == Type::builtin(BuiltinType::Bool) && rhs == Type::builtin(BuiltinType::Bool) {
                    return Type::builtin(BuiltinType::Bool);
                }
            },
            HirBinaryOp::Equal | HirBinaryOp::NotEqual | HirBinaryOp::Less | HirBinaryOp::LessEqual | HirBinaryOp::Greater
            | HirBinaryOp::GreaterEqual => {
                if lhs == rhs {
                    return Type::builtin(BuiltinType::Bool);
                }
            },
            HirBinaryOp::NullCoalescing => {
                return if lhs == rhs {
                    lhs
                } else {
                    Type::error()
                };
            },
            HirBinaryOp::BitOr | HirBinaryOp::BitXor | HirBinaryOp::BitAnd | HirBinaryOp::ShiftLeft | HirBinaryOp::ShiftRight => {
                if is_integer_type(&lhs) && lhs == rhs {
                    return lhs;
                }
            },
        }
        self.issue(table, span, ExprCheckIssueKind::InvalidBinaryOp);
        Type::error()
    }

    fn assignment_target_status(&self, target: HirExprId) -> (r: AssignmentTargetStatus)
        ensures
            match r {
                AssignmentTargetStatus::MutableLocalOrNonPath => assign_target(self.ctx(), target) is MutableLocalOrNonPath,
                AssignmentTargetStatus::ImmutableLocal(h) => assign_target(self.ctx(), target) == AssignTarget::ImmutableLocal(h),
                AssignmentTargetStatus::Invalid => assign_target(self.ctx(), target) is Invalid,
            },
    {
        if extract_namespace_path(self.module, target, self.module.walk_fuel()).is_none() {
            return AssignmentTargetStatus::MutableLocalOrNonPath;
        }
        match self.hir_input.hir_path_table.by_expr(self.file_id, target) {
            Some(HirPathResolution::Local(h)) => match self.local_bindings.get(h) {
                Some(info) => if info.mutability == LocalMutability::Mutable {
                    AssignmentTargetStatus::MutableLocalOrNonPath
                } else {
                    AssignmentTargetStatus::ImmutableLocal(*h)
                },
                None => AssignmentTargetStatus::Invalid,
            },
            _ => AssignmentTargetStatus::Invalid,
        }
    }

    fn infer_local_from_pattern(&mut self, pat: HirPatId, ty: Type, requires_mutable: bool, table: &ExpressionTypeTable)
        ensures
            final(self).ctx() == old(self).ctx(),
            final(self).state(*table) == infer_from_pattern(old(self).ctx(), old(self).state(*table), pat, ty, requires_mutable),
    {
        let pattern = match self.module.patterns.get(&pat) {
            Some(p) => p,
            None => return,
        };
        match &pattern.kind {
            HirPatKind::Binding { .. } => {},
            _ => return,
        }
        if ty.is_error() {
            return;
        }
        let h = match self.hir_input.hir_local_bindings.binding_for_pat(self.file_id, pat) {
            Some(h) => h,
            None => return,
        };
        if requires_mutable {
            let is_mutable = match self.local_bindings.get(&h) {
                Some(info) => info.mutability == LocalMutability::Mutable,
                None => false,
            };
            if !is_mutable {
                return;
            }
        }
        let current_is_error = match self.local_types.get(&h) {
            Some(t) => t.is_error(),
            None => true,
        };
        if current_is_error {
            self.local_types.insert(h, ty);
        }
    }

    fn check_expr_list(&mut self, ids: &Vec<HirExprId>, fuel: usize, table: &mut ExpressionTypeTable) -> (r: Vec<Type>)
        ensures
            final(self).ctx() == old(self).ctx(),
            (r@, final(self).state(*final(table))) == check_exprs_spec(old(self).ctx(), old(self).state(*old(table)), fuel as nat, ids@),
            final(table).spec_roots() == old(table).spec_roots(),
        decreases fuel, 1nat,
    {
        let ghost ctx = self.ctx();
        let ghost st0 = self.state(*table);
        let mut types: Vec<Type> = Vec::new();
        let mut i: usize = 0;
        proof {
            assert(ids@.subrange(0, 0) =~= Seq::<HirExprId>::empty());
        }
        while i < ids.len()
            invariant
                i <= ids@.len(),
                self.ctx() == ctx,
                (types@, self.state(*table)) == check_exprs_spec(ctx, st0, fuel as nat, ids@.subrange(0, i as int)),
                table.spec_roots() == old(table).spec_roots(),
            decreases ids@.len() - i,
        {
            proof {
                assert(ids@.subrange(0, i as int + 1).drop_last() =~= ids@.subrange(0, i as int));
            }
            let t = self.check_expr(ids[i], fuel, table);
            types.push(t);
            i = i + 1;
        }
        proof {
            assert(ids@.subrange(0, ids@.len() as int) =~= ids@);
        }
        types
    }

    fn check_expr(&mut self, e: HirExprId, fuel: usize, table: &mut ExpressionTypeTable) -> (r: Type)
        ensures
            final(self).ctx() == old(self).ctx(),
            (r, final(self).state(*final(table))) == check_expr_spec(old(self).ctx(), old(self).state(*old(table)), fuel as nat, e),
            final(table).spec_roots() == old(table).spec_roots(),
        decreases fuel, 0nat,
    {
        if fuel == 0 {
            return Type::error();
        }
        let f = fuel - 1;
        let x = match self.module.exprs.get(&e) {
            Some(x) => x,
            None => {
                return self.store_and_return(e, Span::new(0, 0), Type::error(), table);
            },
        };
        let span = x.origin.span;
        match &x.kind {
            HirExprKind::Literal(l) => {
                let t = match l {
                    crate::frontend::hir::HirLiteral::Integer => Type::builtin(BuiltinType::I32),
                    crate::frontend::hir::HirLiteral::Float => Type::builtin(BuiltinType::F64),
                    crate::frontend::hir::HirLiteral::Char => Type::builtin(BuiltinType::Char),
                    crate::frontend::hir::HirLiteral::Boolean => Type::builtin(BuiltinType::Bool),
                    crate::frontend::hir::HirLiteral::String => Type::builtin(BuiltinType::String),
                };
                self.store_and_return(e, span, t, table)
            },
            HirExprKind::Path { segments } => {
                let t = self.type_for_path_reference(e, span, segments, table);
                self.store_and_return(e, span, t, table)
            },
            HirExprKind::NamespaceField { .. } => match extract_namespace_path(self.module, e, self.module.walk_fuel()) {
                None => self.store_and_return(e, span, Type::error(), table),
                Some(p) => {
                    let t = self.type_for_path_reference(e, span, &p, table);
                    self.store_and_return(e, span, t, table)
                },
            },
            HirExprKind::Unary { op, expr } => {
                let operand = self.check_expr(*expr, f, table);
                let t = self.type_unary(span, *op, operand, table);
                self.store_and_return(e, span, t, table)
            },
            HirExprKind::Binary { op, lhs, rhs } => {
                let lt = self.check_expr(*lhs, f, table);
                let rt = self.check_expr(*rhs, f, table);
                let t = self.type_binary(span, *op, lt, rt, table);
                self.store_and_return(e, span, t, table)
            },
            HirExprKind::Assign { target, value, .. } => {
                let target_ty = self.check_expr(*target, f, table);
                let value_ty = self.check_expr(*value, f, table);
                match self.assignment_target_status(*target) {
                    AssignmentTargetStatus::MutableLocalOrNonPath => {
                        if !target_ty.is_error() && !value_ty.is_error() && target_ty != value_ty {
                            self.issue(table, span, ExprCheckIssueKind::AssignmentTypeMismatch { target: target_ty, value: value_ty });
                            self.store_and_return(e, span, Type::error(), table)
                        } else {
                            self.store_and_return(e, span, target_ty, table)
                        }
                    },
                    AssignmentTargetStatus::ImmutableLocal(h) => {
                        self.issue(table, span, ExprCheckIssueKind::MutabilityViolation { local_id: h });
                        self.store_and_return(e, span, Type::error(), table)
                    },
                    AssignmentTargetStatus::Invalid => {
                        self.issue(table, span, ExprCheckIssueKind::InvalidAssignmentTarget);
                        self.store_and_return(e, span, Type::error(), table)
                    },
                }
            },
            HirExprKind::Call { callee, args } => {
                let sig = self.call_signature_for_callee(*callee);
                self.check_expr(*callee, f, table);
                let ids = call_arg_ids(args);
                let arg_types = self.check_expr_list(&ids, f, table);
                self.finish_call(e, span, *callee, sig, arg_types, table)
            },
            HirExprKind::Block { body } => {
                let t = self.check_body(*body, f, table);
                self.store_and_return(e, span, t, table)
            },
            HirExprKind::If { condition, then_body, else_expr } => {
                let tc = self.check_expr(*condition, f, table);
                if tc != Type::builtin(BuiltinType::Bool) && !tc.is_error() {
                    self.issue(table, span, ExprCheckIssueKind::InvalidBinaryOp);
                }
                let saved = copy_local_types(&self.local_types);
                let tt = self.check_body(*then_body, f, table);
                self.local_types = copy_local_types(&saved);
                match else_expr {
                    None => {
                        self.issue(table, span, ExprCheckIssueKind::MissingElseBranch);
                        self.store_and_return(e, span, Type::error(), table)
                    },
                    Some(el) => {
                        let te = self.check_expr(*el, f, table);
                        self.local_types = saved;
                        if tt == te {
                            self.store_and_return(e, span, tt, table)
                        } else if tt.is_error() || te.is_error() {
                            self.store_and_return(e, span, Type::error(), table)
                        } else {
                            self.issue(table, span, ExprCheckIssueKind::IncompatibleIfBranches { then_type: tt, else_type: te });
                            self.store_and_return(e, span, Type::error(), table)
                        }
                    },
                }
            },
            HirExprKind::Match { subject, arms } => {
                self.check_expr(*subject, f, table);
                let ids = arm_ids(arms);
                let types = self.check_expr_list(&ids, f, table);
                let t = if types.len() == 0 {
                    Type::void()
                } else if all_types_equal(&types) {
                    types[0].clone()
                } else {
                    Type::error()
                };
                self.store_and_return(e, span, t, table)
            },
            HirExprKind::Array { elements } => {
                let ids = element_ids(elements);
                self.check_expr_list(&ids, f, table);
                self.store_and_return(e, span, Type::error(), table)
            },
            HirExprKind::Struct { fields } => {
                let ids = field_ids(fields);
                self.check_expr_list(&ids, f, table);
                self.store_and_return(e, span, Type::error(), table)
            },
            HirExprKind::Tuple { elements } => {
                self.check_expr_list(elements, f, table);
                self.store_and_return(e, span, Type::error(), table)
            },
            HirExprKind::While { condition, body } => {
                let tc = self.check_expr(*condition, f, table);
                if tc != Type::builtin(BuiltinType::Bool) && !tc.is_error() {
                    self.issue(table, span, ExprCheckIssueKind::InvalidBinaryOp);
                }
                self.check_body(*body, f, table);
                self.store_and_return(e, span, Type::void(), table)
            },
            HirExprKind::For { iterator, body, .. } => {
                self.check_expr(*iterator, f, table);
                self.check_body(*body, f, table);
                self.store_and_return(e, span, Type::void(), table)
            },
            HirExprKind::Return { value } => {
                match value {
                    Some(v) => {
                        self.check_expr(*v, f, table);
                    },
                    None => {},
                }
                self.store_and_return(e, span, Type::builtin(BuiltinType::Never), table)
            },
            HirExprKind::Try { expr } => {
                let t = self.check_expr(*expr, f, table);
                self.store_and_return(e, span, t, table)
            },
            HirExprKind::ForceUnwrap { expr } => {
                let t = self.check_expr(*expr, f, table);
                self.store_and_return(e, span, t, table)
            },
            HirExprKind::Spread { expr } => {
                let t = self.check_expr(*expr, f, table);
                self.store_and_return(e, span, t, table)
            },
            HirExprKind::Break | HirExprKind::Continue => self.store_and_return(e, span, Type::builtin(BuiltinType::Never), table),
            _ => self.store_and_return(e, span, Type::error(), table),
        }
    }

    fn finish_call(
        &self,
        e: HirExprId,
        span: Span,
        callee: HirExprId,
        sig: CallSignatureResolution<'a>,
        arg_types: Vec<Type>,
        table: &mut ExpressionTypeTable,
    ) -> (r: Type)
        ensures
            ({
                let spec_sig = match sig {
                    CallSignatureResolution::Signature(s) => CalleeSignature::Signature(sig_view(*s)),
                    CallSignatureResolution::BareExtern { function, namespace } => CalleeSignature::BareExtern { function: function@, namespace: namespace@ },
                    CallSignatureResolution::Missing => CalleeSignature::Missing,
                };
                (r, self.state(*final(table))) == call_type(self.ctx(), self.state(*old(table)), e, span, callee, spec_sig, arg_types@)
            }),
            final(table).spec_roots() == old(table).spec_roots(),
    {
        match sig {
            CallSignatureResolution::Signature(signature) => {
                if signature.param_types.len() != arg_types.len() {
                    self.issue(table, span, ExprCheckIssueKind::CallArityMismatch { expected: signature.param_types.len(), found: arg_types.len() });
                    return self.store_and_return(e, span, Type::error(), table);
                }
                match first_mismatch(&signature.param_types, &arg_types) {
                    Some(index) => {
                        self.issue(
                            table,
                            span,
                            ExprCheckIssueKind::CallArgTypeMismatch {
                                index,
                                expected: signature.param_types[index].clone(),
                                found: arg_types[index].clone(),
                            },
                        );
                        self.store_and_return(e, span, Type::error(), table)
                    },
                    None => {
                        let t = match &signature.return_type {
                            Some(t) => t.clone(),
                            None => Type::void(),
                        };
                        self.store_and_return(e, span, t, table)
                    },
                }
            },
            CallSignatureResolution::BareExtern { function, namespace } => {
                self.issue(table, span, ExprCheckIssueKind::BareExternFunctionCall { function, namespace });
                self.store_and_return(e, span, Type::error(), table)
            },
            CallSignatureResolution::Missing => {
                let is_local = match self.hir_input.hir_path_table.by_expr(self.file_id, callee) {
                    Some(HirPathResolution::Local(_)) => true,
                    _ => false,
                };
                if is_local {
                    self.issue(table, span, ExprCheckIssueKind::InvalidCallCallee);
                }
                self.store_and_return(e, span, Type::error(), table)
            },
        }
    }

    fn check_stmt(&mut self, stmt_id: HirStmtId, fuel: usize, table: &mut ExpressionTypeTable)
        ensures
            final(self).ctx() == old(self).ctx(),
            final(self).state(*final(table)) == check_stmt_spec(old(self).ctx(), old(self).state(*old(table)), fuel as nat, stmt_id),
            final(table).spec_roots() == old(table).spec_roots(),
        decreases fuel, 0nat,
    {
        if fuel == 0 {
            return;
        }
        let stmt = match self.module.stmts.get(&stmt_id) {
            Some(s) => s,
            None => return,
        };
        match &stmt.kind {
            HirStmtKind::Let { pat, value, mutability } => {
                let t = match value {
                    Some(v) => self.check_expr(*v, fuel - 1, table),
                    None => Type::void(),
                };
                self.infer_local_from_pattern(*pat, t, *mutability == HirMutability::Mutable, table);
            },
            HirStmtKind::Expr { expr } | HirStmtKind::Semi { expr } => {
                self.check_expr(*expr, fuel - 1, table);
            },
            HirStmtKind::Item { .. } => {},
        }
    }

    fn check_body(&mut self, body_id: HirBodyId, fuel: usize, table: &mut ExpressionTypeTable) -> (r: Type)
        ensures
            final(self).ctx() == old(self).ctx(),
            (r, final(self).state(*final(table))) == check_body_spec(old(self).ctx(), old(self).state(*old(table)), fuel as nat, body_id),
            final(table).spec_roots() == old(table).spec_roots(),
        decreases fuel, 0nat,
    {
        if fuel == 0 {
            return Type::error();
        }
        let body = match self.module.bodies.get(&body_id) {
            Some(b) => b,
            None => return Type::error(),
        };
        let ghost ctx = self.ctx();
        let ghost st0 = self.state(*table);
        let mut i: usize = 0;
        proof {
            assert(body.stmts@.subrange(0, 0) =~= Seq::<HirStmtId>::empty());
        }
        while i < body.stmts.len()
            invariant
                i <= body.stmts@.len(),
                self.ctx() == ctx,
                ctx.2.bodies.spec_get(body_id) == Some(*body),
                fuel > 0,
                self.state(*table) == check_stmts_spec(ctx, st0, (fuel - 1) as nat, body.stmts@.subrange(0, i as int)),
                table.spec_roots() == old(table).spec_roots(),
            decreases body.stmts@.len() - i,
        {
            proof {
                assert(body.stmts@.subrange(0, i as int + 1).drop_last() =~= body.stmts@.subrange(0, i as int));
            }
            self.check_stmt(body.stmts[i], fuel - 1, table);
            i = i + 1;
        }
        proof {
            assert(body.stmts@.subrange(0, body.stmts@.len() as int) =~= body.stmts@);
        }
        match body.tail_expr {
            Some(t) => self.check_expr(t, fuel - 1, table),
            None => Type::void(),
        }
    }
}

/// All segments but the first.
fn path_tail(path: &[String]) -> (r: &[String])
    requires
        path@.len() > 0,
    ensures
        r@ == path@.subrange(1, path@.len() as int),
{
    vstd::slice::slice_subrange(path, 1, path.len())
}

/// All segments but the last.
fn path_init(path: &[String]) -> (r: &[String])
    requires
        path@.len() > 0,
    ensures
        r@ == path@.subrange(0, path@.len() - 1),
{
    vstd::slice::slice_subrange(path, 0, path.len() - 1)
}

fn is_numeric_type(ty: &Type) -> (r: bool)
    ensures
        r == is_numeric(*ty),
{
    match ty {
        Type::Builtin(b) => match b {
            BuiltinType::I8 | BuiltinType::I16 | BuiltinType::I32 | BuiltinType::I64 | BuiltinType::U8 | BuiltinType::U16
            | BuiltinType::U32 | BuiltinType::U64 | BuiltinType::ISize | BuiltinType::USize | BuiltinType::F32
            | BuiltinType::F64 => true,
            _ => false,
        },
        _ => false,
    }
}

fn is_integer_type(ty: &Type) -> (r: bool)
    ensures
        r == is_integer(*ty),
{
    match ty {
        Type::Builtin(b) => match b {
            BuiltinType::I8 | BuiltinType::I16 | BuiltinType::I32 | BuiltinType::I64 | BuiltinType::U8 | BuiltinType::U16
            | BuiltinType::U32 | BuiltinType::U64 | BuiltinType::ISize | BuiltinType::USize => true,
            _ => false,
        },
        _ => false,
    }
}

pub(crate) fn call_arg_ids(args: &Vec<HirCallArg>) -> (r: Vec<HirExprId>)
    ensures
        r@ == args@.map_values(|a: HirCallArg| a.value),
{
    let mut out: Vec<HirExprId> = Vec::new();
    let mut i: usize = 0;
    while i < args.len()
        invariant
            i <= args@.len(),
            out@ == args@.subrange(0, i as int).map_values(|a: HirCallArg| a.value),
        decreases args@.len() - i,
    {
        out.push(args[i].value);
        proof {
            assert(out@ =~= args@.subrange(0, i as int + 1).map_values(|a: HirCallArg| a.value));
        }
        i = i + 1;
    }
    proof {
        assert(args@.subrange(0, args@.len() as int) =~= args@);
    }
    out
}

pub(crate) fn arm_ids(arms: &Vec<HirMatchArm>) -> (r: Vec<HirExprId>)
    ensures
        r@ == arms@.map_values(|a: HirMatchArm| a.expr),
{
    let mut out: Vec<HirExprId> = Vec::new();
    let mut i: usize = 0;
    while i < arms.len()
        invariant
            i <= arms@.len(),
            out@ == arms@.subrange(0, i as int).map_values(|a: HirMatchArm| a.expr),
        decreases arms@.len() - i,
    {
        out.push(arms[i].expr);
        proof {
            assert(out@ =~= arms@.subrange(0, i as int + 1).map_values(|a: HirMatchArm| a.expr));
        }
        i = i + 1;
    }
    proof {
        assert(arms@.subrange(0, arms@.len() as int) =~= arms@);
    }
    out
}

pub(crate) fn element_ids(elements: &Vec<HirArrayElement>) -> (r: Vec<HirExprId>)
    ensures
        r@ == elements@.map_values(|el: HirArrayElement| element_expr(el)),
{
    let mut out: Vec<HirExprId> = Vec::new();
    let mut i: usize = 0;
    while i < elements.len()
        invariant
            i <= elements@.len(),
            out@ == elements@.subrange(0, i as int).map_values(|el: HirArrayElement| element_expr(el)),
        decreases elements@.len() - i,
    {
        let id = match elements[i] {
            HirArrayElement::Expr(v) => v,
            HirArrayElement::Spread(v) => v,
        };
        out.push(id);
        proof {
            assert(out@ =~= elements@.subrange(0, i as int + 1).map_values(|el: HirArrayElement| element_expr(el)));
        }
        i = i + 1;
    }
    proof {
        assert(elements@.subrange(0, elements@.len() as int) =~= elements@);
    }
    out
}

pub(crate) fn field_ids(fields: &Vec<HirStructExprField>) -> (r: Vec<HirExprId>)
    ensures
        r@ == fields@.map_values(|fl: HirStructExprField| field_expr(fl)),
{
    let mut out: Vec<HirExprId> = Vec::new();
    let mut i: usize = 0;
    while i < fields.len()
        invariant
            i <= fields@.len(),
            out@ == fields@.subrange(0, i as int).map_values(|fl: HirStructExprField| field_expr(fl)),
        decreases fields@.len() - i,
    {
        let id = match fields[i] {
            HirStructExprField::Named { value } => value,
            HirStructExprField::Spread { value } => value,
        };
        out.push(id);
        proof {
            assert(out@ =~= fields@.subrange(0, i as int + 1).map_values(|fl: HirStructExprField| field_expr(fl)));
        }
        i = i + 1;
    }
    proof {
        assert(fields@.subrange(0, fields@.len() as int) =~= fields@);
    }
    out
}

fn all_types_equal(types: &Vec<Type>) -> (r: bool)
    ensures
        r == all_equal(types@),
{
    if types.len() == 0 {
        return true;
    }
    let mut i: usize = 0;
    while i < types.len() - 1
        invariant
            types@.len() > 0,
            i <= types@.len() - 1,
            forall|k: int| 0 <= k < i ==> #[trigger] types@[k] == types@[k + 1],
        decreases types@.len() - i,
    {
        if types[i] != types[i + 1] {
            return false;
        }
        i = i + 1;
    }
    true
}

fn first_mismatch(params: &Vec<Type>, args: &Vec<Type>) -> (r: Option<usize>)
    requires
        params@.len() == args@.len(),
    ensures
        match r {
            Some(i) => i < params@.len() && first_arg_mismatch(params@, args@) == Some(i as int),
            None => first_arg_mismatch(params@, args@) is None,
        },
{
    let mut i: usize = 0;
    proof {
        assert(params@.subrange(0, params@.len() as int) =~= params@);
        assert(args@.subrange(0, args@.len() as int) =~= args@);
    }
    while i < params.len()
        invariant
            i <= params@.len() == args@.len(),
            first_arg_mismatch(params@, args@) == match first_arg_mismatch(params@.subrange(i as int, params@.len() as int), args@.subrange(i as int, args@.len() as int)) {
                Some(k) => Some(k + i),
                None => None,
            },
        decreases params@.len() - i,
    {
        let p = &params[i];
        let a = &args[i];
        proof {
            let ps = params@.subrange(i as int, params@.len() as int);
            let as_ = args@.subrange(i as int, args@.len() as int);
            assert(ps[0] == params@[i as int]);
            assert(as_[0] == args@[i as int]);
            assert(ps.drop_first() =~= params@.subrange(i as int + 1, params@.len() as int));
            assert(as_.drop_first() =~= args@.subrange(i as int + 1, args@.len() as int));
        }
        if !p.is_error() && !a.is_error() && *p != *a {
            return Some(i);
        }
        i = i + 1;
    }
    None
}

/// What the expression table holds: the issue views, the expression
/// types, the expressions at each span, and the body result types.
pub type ExprTableState = (Seq<(ExprIssuePlace, ExprCheckIssueKindView)>, Map<BodyExprId, Type>, Map<BodySpanKey, Seq<BodyExprId>>, Map<BodyKey, Type>);

/// The state of an expression table.
pub open spec fn expr_table_state(t: ExpressionTypeTable) -> ExprTableState {
    (expr_issue_views(t.spec_issues()), t.spec_types(), t.spec_span_ids(), t.spec_roots())
}

/// Checking the expressions of one body: a missing environment or HIR body
/// is reported; otherwise the HIR body is checked from the environment's
/// local types and its type recorded as the body's result type.
pub open spec fn expr_check_body(
    hir: SemanticHirInput,
    items: TypedItemTable,
    envs: BodyTypeEnvironmentTable,
    imports: SortedMap<FileId, ResolvedImports>,
    external: ExternalSemanticLookup,
    t: ExprTableState,
    body: ResolvedBody,
) -> ExprTableState {
    let owner = body.owner;
    let index = body.body_index;
    let at = ((owner, index, Span { start: 0, end: 0 }));
    let missing_ast = (t.0.push((at, ExprCheckIssueKindView::MissingBodyAst)), t.1, t.2, t.3);
    match env_for(envs, owner, index) {
        None => (t.0.push((at, ExprCheckIssueKindView::MissingBodyEnvironment)), t.1, t.2, t.3),
        Some(env) => {
            let refs = hir.spec_owner_refs(owner);
            if index >= refs.len() {
                missing_ast
            } else {
                let body_ref = refs[index as int];
                match hir.hir_modules.spec_get(body_ref.file_id) {
                    None => missing_ast,
                    Some(module) => if module.bodies.spec_get(body_ref.body_id) is None {
                        missing_ast
                    } else {
                        let ctx: ExprCtx = (body, hir, module, body_ref.file_id, items, imports, external, entries_map(env.local_bindings@));
                        let st0: ExprState = (entries_map(env.local_types@), t.0, t.1, t.2);
                        let (root, st) = check_body_spec(ctx, st0, crate::frontend::hir::walk_fuel(module), body_ref.body_id);
                        (st.1, st.2, st.3, t.3.insert(BodyKey { owner, body_index: index }, root))
                    },
                }
            }
        },
    }
}

/// Checking the expressions of the bodies in order.
pub open spec fn expr_check_fold(
    hir: SemanticHirInput,
    items: TypedItemTable,
    envs: BodyTypeEnvironmentTable,
    imports: SortedMap<FileId, ResolvedImports>,
    external: ExternalSemanticLookup,
    bodies: Seq<ResolvedBody>,
) -> ExprTableState
    decreases bodies.len(),
{
    if bodies.len() == 0 {
        (seq![], Map::empty(), Map::empty(), Map::empty())
    } else {
        expr_check_body(hir, items, envs, imports, external, expr_check_fold(hir, items, envs, imports, external, bodies.drop_last()), bodies.last())
    }
}

fn check_body_expressions(
    hir_input: &SemanticHirInput,
    typed_items: &TypedItemTable,
    body_envs: &BodyTypeEnvironmentTable,
    imports: &SortedMap<FileId, ResolvedImports>,
    external_lookup: &ExternalSemanticLookup,
    body: &ResolvedBody,
    table: &mut ExpressionTypeTable,
)
    ensures
        expr_table_state(*final(table)) == expr_check_body(*hir_input, *typed_items, *body_envs, *imports, *external_lookup, expr_table_state(*old(table)), *body),
{
    let owner = body.owner;
    let index = body.body_index;
    let ghost t0 = expr_table_state(*table);
    let env = match find_env_with_index(body_envs.envs_for_owner(&owner), index) {
        Some(e) => e,
        None => {
            table.push_issue(ExprCheckIssue { owner, body_index: index, span: Span::new(0, 0), kind: ExprCheckIssueKind::MissingBodyEnvironment });
            proof {
                assert(expr_issue_views(table.spec_issues()) =~= t0.0.push(((owner, index, Span { start: 0, end: 0 }), ExprCheckIssueKindView::MissingBodyEnvironment)));
            }
            return;
        },
    };
    let body_ref = match hir_input.body_ref(&owner, index) {
        Some(b) => b,
        None => {
            table.push_issue(ExprCheckIssue { owner, body_index: index, span: Span::new(0, 0), kind: ExprCheckIssueKind::MissingBodyAst });
            proof {
                assert(expr_issue_views(table.spec_issues()) =~= t0.0.push(((owner, index, Span { start: 0, end: 0 }), ExprCheckIssueKindView::MissingBodyAst)));
            }
            return;
        },
    };
    let module = match hir_input.hir_modules.get(&body_ref.file_id) {
        Some(m) => m,
        None => {
            table.push_issue(ExprCheckIssue { owner, body_index: index, span: Span::new(0, 0), kind: ExprCheckIssueKind::MissingBodyAst });
            proof {
                assert(expr_issue_views(table.spec_issues()) =~= t0.0.push(((owner, index, Span { start: 0, end: 0 }), ExprCheckIssueKindView::MissingBodyAst)));
            }
            return;
        },
    };
    if !module.bodies.contains_key(&body_ref.body_id) {
        table.push_issue(ExprCheckIssue { owner, body_index: index, span: Span::new(0, 0), kind: ExprCheckIssueKind::MissingBodyAst });
        proof {
            assert(expr_issue_views(table.spec_issues()) =~= t0.0.push(((owner, index, Span { start: 0, end: 0 }), ExprCheckIssueKindView::MissingBodyAst)));
        }
        return;
    }
    let mut checker = BodyExprChecker {
        body,
        file_id: body_ref.file_id,
        module,
        hir_input,
        typed_items,
        imports,
        external_lookup,
        local_bindings: &env.local_bindings,
        local_types: copy_local_types(&env.local_types),
    };
    proof {
        assert(env_for(*body_envs, owner, index) == Some(*env));
    }
    let fuel = module.walk_fuel();
    let root = checker.check_body(body_ref.body_id, fuel, table);
    table.record_root_type(BodyKey { owner, body_index: index }, root);
}

/// Checks the expressions of every body, in resolution order (see
/// [`expr_check_body`]), with the resolved imports and external lookup
/// for paths into other roots.
pub fn check_expression_types_with_external_lookup(
    hir_input: &SemanticHirInput,
    typed_items: &TypedItemTable,
    resolved_bodies: &ResolvedBodyTable,
    body_envs: &BodyTypeEnvironmentTable,
    imports: &SortedMap<FileId, ResolvedImports>,
    external_lookup: &ExternalSemanticLookup,
) -> (r: ExpressionTypeTable)
    ensures
        expr_table_state(r) == expr_check_fold(*hir_input, *typed_items, *body_envs, *imports, *external_lookup, resolved_bodies.bodies@),
{
    let bodies = resolved_bodies.iter();
    let mut table = ExpressionTypeTable::new();
    let mut i: usize = 0;
    proof {
        assert(bodies@.subrange(0, 0) =~= Seq::<ResolvedBody>::empty());
        assert(expr_issue_views(table.spec_issues()) =~= Seq::<(ExprIssuePlace, ExprCheckIssueKindView)>::empty());
    }
    while i < bodies.len()
        invariant
            i <= bodies@.len(),
            bodies@ == resolved_bodies.bodies@,
            expr_table_state(table) == expr_check_fold(*hir_input, *typed_items, *body_envs, *imports, *external_lookup, bodies@.subrange(0, i as int)),
        decreases bodies@.len() - i,
    {
        proof {
            assert(bodies@.subrange(0, i as int + 1).drop_last() =~= bodies@.subrange(0, i as int));
        }
        check_body_expressions(hir_input, typed_items, body_envs, imports, external_lookup, &bodies[i], &mut table);
        i = i + 1;
    }
    proof {
        assert(bodies@.subrange(0, bodies@.len() as int) =~= bodies@);
    }
    table
}

/// Whether `r` is the expression check of `bodies` with no imports and no
/// external roots, libraries or namespaces.
pub open spec fn plain_expr_check(r: ExpressionTypeTable, hir: SemanticHirInput, items: TypedItemTable, envs: BodyTypeEnvironmentTable, bodies: Seq<ResolvedBody>) -> bool {
    exists|imports: SortedMap<FileId, ResolvedImports>, external: ExternalSemanticLookup|
        imports@.len() == 0
        && (forall|root: Seq<char>, path: Seq<Seq<char>>| #[trigger] external.spec_root_function(root, path) is None)
        && (forall|lib: Seq<char>, name: Seq<char>| #[trigger] external.spec_extern_function(lib, name) is None)
        && (forall|name: Seq<char>| #[trigger] external.spec_namespace_of(name) is None)
        && expr_table_state(r) == expr_check_fold(hir, items, envs, imports, external, bodies)
}

/// Checks the expressions of every body, without imports or external
/// roots.
pub fn check_expression_types(
    hir_input: &SemanticHirInput,
    typed_items: &TypedItemTable,
    resolved_bodies: &ResolvedBodyTable,
    body_envs: &BodyTypeEnvironmentTable,
) -> (r: ExpressionTypeTable)
    ensures
        plain_expr_check(r, *hir_input, *typed_items, *body_envs, resolved_bodies.bodies@),
{
    let imports: SortedMap<FileId, ResolvedImports> = SortedMap::new();
    let external = ExternalSemanticLookup::new();
    check_expression_types_with_external_lookup(hir_input, typed_items, resolved_bodies, body_envs, &imports, &external)
}

/// Arithmetic (`+ - * / %`) on two operands of the same number type, float
/// or integer, has that type and reports nothing; bit operations on the
/// same integer type likewise; comparisons of equal types give `bool` and
/// report nothing.
pub proof fn law_binary_operand_types(ctx: ExprCtx, st: ExprState, span: Span, op: HirBinaryOp, b: BuiltinType)
    ensures
        (op is Add || op is Subtract || op is Multiply || op is Divide || op is Remainder) && (b is I8 || b is I16 || b
            is I32 || b is I64 || b is U8 || b is U16 || b is U32 || b is U64 || b is ISize || b is USize || b is F32
            || b is F64) ==> binary_type(ctx, st, span, op, Type::Builtin(b), Type::Builtin(b)) == (Type::Builtin(b), st),
        (op is BitOr || op is BitXor || op is BitAnd || op is ShiftLeft || op is ShiftRight) && (b is I8 || b is I16 || b
            is I32 || b is I64 || b is U8 || b is U16 || b is U32 || b is U64 || b is ISize || b is USize) ==> binary_type(
            ctx,
            st,
            span,
            op,
            Type::Builtin(b),
            Type::Builtin(b),
        ) == (Type::Builtin(b), st),
        (op is Equal || op is NotEqual || op is Less || op is LessEqual || op is Greater || op is GreaterEqual) ==> binary_type(
            ctx,
            st,
            span,
            op,
            Type::Builtin(b),
            Type::Builtin(b),
        ) == (Type::Builtin(BuiltinType::Bool), st),
        op is NullCoalescing ==> binary_type(ctx, st, span, op, Type::Builtin(b), Type::Builtin(b)) == (Type::Builtin(b), st),
{
}

} // verus!
