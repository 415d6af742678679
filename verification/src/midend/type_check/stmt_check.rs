//! The statement type table: the kind, span and type of every checked
//! statement, each body's local types after checking, and the issues found.

use crate::collections::sorted_map::{entries_contain, entries_lookup, entries_map, entries_sorted};
use crate::collections::{MapKey, SortedMap};
use crate::frontend::ast::Span;
use crate::frontend::hir::{HirBodyId, HirExprId, HirExprKind, HirModule, HirMutability, HirPatId, HirStmtId, HirStmtKind};
use crate::frontend::resolver::{
    first_pat_binding, BodyKey, DeclarationOwner, HirLocalBinding, LocalId, ResolvedBody, ResolvedBodyTable, ResolvedLocal,
};
use crate::frontend::hir::walk_fuel;
use crate::frontend::semantic::body_env::{copy_local_types, env_for, find_env_with_index, BodyLocalBindingInfo, BodyTypeEnvironmentTable};
use crate::frontend::semantic::types::{BuiltinType, Type};
use crate::frontend::source::FileId;
use crate::frontend::semantic::hir_input::{SemanticBodyRef, SemanticHirInput};
use crate::midend::type_check::expr_check::{check_expression_types, plain_expr_check, BodyExprId, ExpressionTypeTable};
use crate::frontend::semantic::item_table::TypedItemTable;
use vstd::prelude::*;

verus! {

/// A statement of a body.
#[derive(Debug, Clone, Copy, PartialEq, Eq, Structural)]
pub struct BodyStmtId {
    pub owner: DeclarationOwner,
    pub body_index: usize,
    pub hir_stmt_id: HirStmtId,
}

impl MapKey for BodyStmtId {
    /// By owner, then body index, then statement id.
    open spec fn key_lt(self, other: Self) -> bool {
        ||| self.owner.key_lt(other.owner)
        ||| (self.owner == other.owner && self.body_index < other.body_index)
        ||| (self.owner == other.owner && self.body_index == other.body_index && self.hir_stmt_id.0 < other.hir_stmt_id.0)
    }

    proof fn lemma_key_lt_irreflexive(a: Self) {
        DeclarationOwner::lemma_key_lt_irreflexive(a.owner);
    }

    proof fn lemma_key_lt_transitive(a: Self, b: Self, c: Self) {
        if a.owner.key_lt(b.owner) && b.owner.key_lt(c.owner) {
            DeclarationOwner::lemma_key_lt_transitive(a.owner, b.owner, c.owner);
        }
    }

    proof fn lemma_key_lt_total(a: Self, b: Self) {
        DeclarationOwner::lemma_key_lt_total(a.owner, b.owner);
    }

    fn less_than(&self, other: &Self) -> (r: bool) {
        if self.owner.less_than(&other.owner) {
            true
        } else if !self.owner.same_key(&other.owner) {
            false
        } else {
            self.body_index < other.body_index || (self.body_index == other.body_index && self.hir_stmt_id.0 < other.hir_stmt_id.0)
        }
    }

    fn same_key(&self, other: &Self) -> (r: bool) {
        self.owner.same_key(&other.owner) && self.body_index == other.body_index && self.hir_stmt_id.0 == other.hir_stmt_id.0
    }

    fn copy_key(&self) -> (r: Self) {
        *self
    }
}

/// What kind of statement was checked.
#[derive(Debug, Clone, Copy, PartialEq, Eq, Structural)]
pub enum StatementKind {
    Let,
    Var,
    Expr,
    Return,
    If,
    Guard,
    While,
    For,
    Break,
    Continue,
}

/// A checked statement: its kind, span and type.
#[derive(Debug, PartialEq, Eq)]
pub struct StatementTypeEntry {
    pub kind: StatementKind,
    pub span: Span,
    pub ty: Type,
}

/// What went wrong while checking a statement.
#[derive(Debug, PartialEq, Eq)]
pub enum StmtCheckIssueKind {
    MissingBodyAst,
    MissingBodyEnvironment,
    MissingExpressionType { span: Span },
    MissingPatternLocal { span: Span },
    AnnotatedLocalTypeMismatch { local_id: LocalId, annotated: Type, initializer: Type },
    AssignmentTypeMismatch { target: Type, value: Type },
    ReturnTypeMismatch { expected: Type, found: Type },
    MissingReturnValue { expected: Type },
    UnexpectedReturnValue { found: Type },
    InvalidConditionType { found: Type },
}

/// An issue found while checking the statements of a body.
#[derive(Debug, PartialEq, Eq)]
pub struct StmtCheckIssue {
    pub owner: DeclarationOwner,
    pub body_index: usize,
    pub span: Span,
    pub kind: StmtCheckIssueKind,
}

/// The ids of the entries of `s` that belong to the given body, in entry order.
pub open spec fn body_stmt_ids(s: Seq<(BodyStmtId, StatementTypeEntry)>, owner: DeclarationOwner, body_index: usize) -> Seq<BodyStmtId>
    decreases s.len(),
{
    if s.len() == 0 {
        seq![]
    } else {
        let prev = body_stmt_ids(s.drop_last(), owner, body_index);
        if s.last().0.owner == owner && s.last().0.body_index == body_index {
            prev.push(s.last().0)
        } else {
            prev
        }
    }
}

/// Types of the checked statements, and each body's local types keyed by
/// HIR local, with the HIR local of each resolved local.
pub struct StatementTypeTable {
    by_stmt_id: SortedMap<BodyStmtId, StatementTypeEntry>,
    local_types_by_hir_id_by_body: SortedMap<BodyKey, SortedMap<LocalId, Type>>,
    hir_local_id_by_resolved_local_id_by_body: SortedMap<BodyKey, SortedMap<LocalId, LocalId>>,
    pub issues: Vec<StmtCheckIssue>,
}

impl StatementTypeTable {
    /// Statement entries, in id order.
    pub closed spec fn spec_entries(&self) -> Seq<(BodyStmtId, StatementTypeEntry)> {
        self.by_stmt_id@
    }

    /// The entry of each checked statement.
    pub open spec fn spec_stmts(&self) -> Map<BodyStmtId, StatementTypeEntry> {
        entries_map(self.spec_entries())
    }

    /// The local types of each checked body, by HIR local.
    pub closed spec fn spec_local_types(&self) -> Map<BodyKey, SortedMap<LocalId, Type>> {
        entries_map(self.local_types_by_hir_id_by_body@)
    }

    /// For each checked body, the HIR local of each resolved local.
    pub closed spec fn spec_hir_locals(&self) -> Map<BodyKey, SortedMap<LocalId, LocalId>> {
        entries_map(self.hir_local_id_by_resolved_local_id_by_body@)
    }

    /// The issues found, in order.
    pub closed spec fn spec_issues(&self) -> Seq<StmtCheckIssue> {
        self.issues@
    }

    /// A table with nothing checked.
    pub fn new() -> (t: Self)
        ensures
            t.spec_entries().len() == 0,
            t.spec_stmts() == Map::<BodyStmtId, StatementTypeEntry>::empty(),
            t.spec_local_types() == Map::<BodyKey, SortedMap<LocalId, Type>>::empty(),
            t.spec_hir_locals() == Map::<BodyKey, SortedMap<LocalId, LocalId>>::empty(),
            t.spec_issues().len() == 0,
    {
        let t = StatementTypeTable {
            by_stmt_id: SortedMap::new(),
            local_types_by_hir_id_by_body: SortedMap::new(),
            hir_local_id_by_resolved_local_id_by_body: SortedMap::new(),
            issues: Vec::new(),
        };
        proof {
            assert(t.spec_stmts() =~= Map::<BodyStmtId, StatementTypeEntry>::empty());
            assert(t.spec_local_types() =~= Map::<BodyKey, SortedMap<LocalId, Type>>::empty());
            assert(t.spec_hir_locals() =~= Map::<BodyKey, SortedMap<LocalId, LocalId>>::empty());
        }
        t
    }

    /// Records the entry of a statement, replacing any earlier one.
    pub fn record_stmt(&mut self, id: BodyStmtId, entry: StatementTypeEntry)
        ensures
            final(self).spec_stmts() == old(self).spec_stmts().insert(id, entry),
            final(self).spec_local_types() == old(self).spec_local_types(),
            final(self).spec_hir_locals() == old(self).spec_hir_locals(),
            final(self).spec_issues() == old(self).spec_issues(),
    {
        self.by_stmt_id.insert(id, entry);
    }

    /// Records a body's local types and the HIR local of each of its
    /// resolved locals, replacing earlier ones.
    pub fn record_body_locals(&mut self, body: BodyKey, local_types: SortedMap<LocalId, Type>, hir_locals: SortedMap<LocalId, LocalId>)
        ensures
            final(self).spec_entries() == old(self).spec_entries(),
            final(self).spec_local_types() == old(self).spec_local_types().insert(body, local_types),
            final(self).spec_hir_locals() == old(self).spec_hir_locals().insert(body, hir_locals),
            final(self).spec_issues() == old(self).spec_issues(),
    {
        self.local_types_by_hir_id_by_body.insert(body, local_types);
        self.hir_local_id_by_resolved_local_id_by_body.insert(body, hir_locals);
    }

    /// The issues found, in order.
    pub fn issues(&self) -> (r: &Vec<StmtCheckIssue>)
        ensures
            r@ == self.spec_issues(),
    {
        &self.issues
    }

    /// Appends an issue.
    pub fn push_issue(&mut self, issue: StmtCheckIssue)
        ensures
            final(self).spec_entries() == old(self).spec_entries(),
            final(self).spec_local_types() == old(self).spec_local_types(),
            final(self).spec_hir_locals() == old(self).spec_hir_locals(),
            final(self).spec_issues() == old(self).spec_issues().push(issue),
    {
        self.issues.push(issue);
    }

    /// The entry of a statement, if it was checked.
    pub fn stmt_entry(&self, stmt_id: &BodyStmtId) -> (r: Option<&StatementTypeEntry>)
        ensures
            match r {
                Some(e) => self.spec_stmts().contains_key(*stmt_id) && self.spec_stmts()[*stmt_id] == *e,
                None => !self.spec_stmts().contains_key(*stmt_id),
            },
    {
        let r = self.by_stmt_id.get(stmt_id);
        proof {
            if entries_contain(self.spec_entries(), *stmt_id) {
                assert(entries_lookup(self.spec_entries(), *stmt_id) is Some);
            }
        }
        r
    }

    /// The checked statements of a body, in id order.
    pub fn stmt_ids_for_body(&self, owner: &DeclarationOwner, body_index: usize) -> (r: Vec<BodyStmtId>)
        ensures
            r@ == body_stmt_ids(self.spec_entries(), *owner, body_index),
    {
        let entries = self.by_stmt_id.entries();
        let mut out: Vec<BodyStmtId> = Vec::new();
        let mut i: usize = 0;
        while i < entries.len()
            invariant
                i <= entries@.len(),
                entries@ == self.spec_entries(),
                out@ == body_stmt_ids(entries@.subrange(0, i as int), *owner, body_index),
            decreases entries@.len() - i,
        {
            proof {
                assert(entries@.subrange(0, i as int + 1).drop_last() =~= entries@.subrange(0, i as int));
            }
            let id = entries[i].0;
            if id.owner == *owner && id.body_index == body_index {
                out.push(id);
            }
            i = i + 1;
        }
        proof {
            assert(entries@.subrange(0, entries@.len() as int) =~= entries@);
        }
        out
    }

    /// A body's local types by HIR local, if the body was checked.
    pub fn local_types_for_body(&self, owner: &DeclarationOwner, body_index: usize) -> (r: Option<&SortedMap<LocalId, Type>>)
        ensures
            ({
                let key = BodyKey { owner: *owner, body_index };
                match r {
                    Some(m) => self.spec_local_types().contains_key(key) && self.spec_local_types()[key] == *m,
                    None => !self.spec_local_types().contains_key(key),
                }
            }),
    {
        let key = BodyKey { owner: *owner, body_index };
        let r = self.local_types_by_hir_id_by_body.get(&key);
        proof {
            if entries_contain(self.local_types_by_hir_id_by_body@, key) {
                assert(entries_lookup(self.local_types_by_hir_id_by_body@, key) is Some);
            }
        }
        r
    }

    /// The type recorded for HIR local `local_id` of a body.
    pub open spec fn spec_hir_local_type(&self, owner: DeclarationOwner, body_index: usize, local_id: LocalId) -> Option<Type> {
        let key = BodyKey { owner, body_index };
        if self.spec_local_types().contains_key(key) {
            self.spec_local_types()[key].spec_get(local_id)
        } else {
            None
        }
    }

    /// The type of resolved local `local_id` of a body: that of the HIR
    /// local it maps to.
    pub open spec fn spec_resolved_local_type(&self, owner: DeclarationOwner, body_index: usize, local_id: LocalId) -> Option<Type> {
        let key = BodyKey { owner, body_index };
        if self.spec_hir_locals().contains_key(key) {
            match self.spec_hir_locals()[key].spec_get(local_id) {
                Some(h) => self.spec_hir_local_type(owner, body_index, h),
                None => None,
            }
        } else {
            None
        }
    }

    /// The type of a resolved local of a body, through the HIR local it maps to.
    pub fn local_type(&self, owner: &DeclarationOwner, body_index: usize, local_id: LocalId) -> (r: Option<&Type>)
        ensures
            match r {
                Some(t) => self.spec_resolved_local_type(*owner, body_index, local_id) == Some(*t),
                None => self.spec_resolved_local_type(*owner, body_index, local_id) is None,
            },
            !self.spec_local_types().contains_key(BodyKey { owner: *owner, body_index }) ==> r is None,
            r matches Some(t) ==> exists|h: LocalId| #[trigger] self.spec_hir_local_type(*owner, body_index, h) == Some(*t),
            ({
                let key = BodyKey { owner: *owner, body_index };
                let found = self.spec_hir_locals().contains_key(key) && self.spec_hir_locals()[key].spec_get(local_id) is Some
                    && self.spec_local_types().contains_key(key)
                    && self.spec_local_types()[key].spec_get(self.spec_hir_locals()[key].spec_get(local_id).unwrap()) is Some;
                match r {
                    Some(t) => found && self.spec_local_types()[key].spec_get(self.spec_hir_locals()[key].spec_get(local_id).unwrap()) == Some(*t),
                    None => !found,
                }
            }),
    {
        proof {
            self.lemma_resolved_local_type_through_hir(*owner, body_index, local_id);
        }
        let key = BodyKey { owner: *owner, body_index };
        let mapping = match self.hir_local_id_by_resolved_local_id_by_body.get(&key) {
            Some(m) => m,
            None => {
                proof {
                    if entries_contain(self.hir_local_id_by_resolved_local_id_by_body@, key) {
                        assert(entries_lookup(self.hir_local_id_by_resolved_local_id_by_body@, key) is Some);
                    }
                }
                return None;
            },
        };
        let hir_local_id = match mapping.get(&local_id) {
            Some(h) => *h,
            None => return None,
        };
        match self.local_types_for_body(owner, body_index) {
            Some(types) => types.get(&hir_local_id),
            None => None,
        }
    }

    /// The type of a HIR local of a body, if the body was checked.
    pub fn local_type_for_hir_local(&self, owner: &DeclarationOwner, body_index: usize, local_id: LocalId) -> (r: Option<&Type>)
        ensures
            match r {
                Some(t) => self.spec_hir_local_type(*owner, body_index, local_id) == Some(*t),
                None => self.spec_hir_local_type(*owner, body_index, local_id) is None,
            },
            ({
                let key = BodyKey { owner: *owner, body_index };
                let found = self.spec_local_types().contains_key(key) && self.spec_local_types()[key].spec_get(local_id) is Some;
                match r {
                    Some(t) => found && self.spec_local_types()[key].spec_get(local_id) == Some(*t),
                    None => !found,
                }
            }),
    {
        match self.local_types_for_body(owner, body_index) {
            Some(types) => types.get(&local_id),
            None => None,
        }
    }

    /// A resolved local's type is the type of the HIR local it maps to, and
    /// a body without recorded local types gives no type to any local.
    pub proof fn lemma_resolved_local_type_through_hir(&self, owner: DeclarationOwner, body_index: usize, local_id: LocalId)
        ensures
            !self.spec_local_types().contains_key(BodyKey { owner, body_index }) ==> self.spec_resolved_local_type(
                owner,
                body_index,
                local_id,
            ) is None,
            self.spec_resolved_local_type(owner, body_index, local_id) matches Some(t) ==> exists|h: LocalId|
                #[trigger] self.spec_hir_local_type(owner, body_index, h) == Some(t),
    {
        let key = BodyKey { owner, body_index };
        if self.spec_hir_locals().contains_key(key) {
            match self.spec_hir_locals()[key].spec_get(local_id) {
                Some(h) => {
                    assert(self.spec_resolved_local_type(owner, body_index, local_id) == self.spec_hir_local_type(owner, body_index, h));
                },
                None => {},
            }
        }
    }

    /// Every checked statement with its entry, in id order.
    pub fn iter(&self) -> (r: &Vec<(BodyStmtId, StatementTypeEntry)>)
        ensures
            r@ == self.spec_entries(),
            entries_sorted(r@),
    {
        self.by_stmt_id.entries()
    }

    /// Number of checked statements.
    pub fn len(&self) -> (n: usize)
        ensures
            n == self.spec_entries().len(),
    {
        self.by_stmt_id.len()
    }

    /// True when no statement was checked.
    pub fn is_empty(&self) -> (b: bool)
        ensures
            b == (self.spec_entries().len() == 0),
    {
        self.by_stmt_id.is_empty()
    }
}

/// What the statement check of one body reads: the body, the file of its
/// HIR body, the HIR module, the local bindings, the expression types, and
/// the HIR locals whose resolved local has a declared type.
pub type StmtCtx = (ResolvedBody, FileId, HirModule, Seq<HirLocalBinding>, ExpressionTypeTable, Set<LocalId>);

/// What the statement check of one body has found so far: the local types
/// by HIR local, the expressions already reported without a type, the
/// statement entries, and the issues.
pub type StmtState = (Map<LocalId, Type>, Set<HirExprId>, Map<BodyStmtId, StatementTypeEntry>, Seq<StmtCheckIssue>);

/// An issue of the checked body at `span`.
pub open spec fn stmt_issue(ctx: StmtCtx, span: Span, kind: StmtCheckIssueKind) -> StmtCheckIssue {
    StmtCheckIssue { owner: ctx.0.owner, body_index: ctx.0.body_index, span, kind }
}

/// `st` with `issue` appended.
pub open spec fn with_issue(st: StmtState, issue: StmtCheckIssue) -> StmtState {
    (st.0, st.1, st.2, st.3.push(issue))
}

/// The span of an expression of the module, or an empty span.
pub open spec fn expr_span_in(module: HirModule, e: HirExprId) -> Span {
    match module.exprs.spec_get(e) {
        Some(x) => x.origin.span,
        None => Span { start: 0, end: 0 },
    }
}

/// The checked type of expression `e` of the body; without one, the error
/// type, reporting the expression the first time only.
pub open spec fn stmt_expr_type(ctx: StmtCtx, st: StmtState, e: HirExprId) -> (Type, StmtState) {
    let id = BodyExprId { owner: ctx.0.owner, body_index: ctx.0.body_index, hir_expr_id: e };
    if ctx.4.spec_types().contains_key(id) {
        (ctx.4.spec_types()[id], st)
    } else if st.1.contains(e) {
        (Type::Error, st)
    } else {
        let span = expr_span_in(ctx.2, e);
        (Type::Error, (st.0, st.1.insert(e), st.2, st.3.push(stmt_issue(ctx, span, StmtCheckIssueKind::MissingExpressionType { span }))))
    }
}

/// Checking a condition: it must be `bool` (or the error type).
pub open spec fn stmt_condition(ctx: StmtCtx, st: StmtState, e: HirExprId, span: Span) -> StmtState {
    let (found, st1) = stmt_expr_type(ctx, st, e);
    if found != Type::Builtin(BuiltinType::Bool) && !(found is Error) {
        with_issue(st1, stmt_issue(ctx, span, StmtCheckIssueKind::InvalidConditionType { found }))
    } else {
        st1
    }
}

/// Giving the local bound by pattern `pat` the initializer's type: a local
/// with a declared type must agree with it; an untyped local takes it.
pub open spec fn stmt_apply_binding(ctx: StmtCtx, st: StmtState, pat: HirPatId, init: Type) -> StmtState {
    let span = match ctx.2.patterns.spec_get(pat) {
        Some(p) => p.origin.span,
        None => Span { start: 0, end: 0 },
    };
    match first_pat_binding(ctx.3, ctx.1, pat) {
        None => with_issue(st, stmt_issue(ctx, span, StmtCheckIssueKind::MissingPatternLocal { span })),
        Some(local) => {
            let current = if st.0.contains_key(local) {
                st.0[local]
            } else {
                Type::Error
            };
            if ctx.5.contains(local) {
                if !(current is Error) && !(init is Error) && current != init {
                    with_issue(
                        st,
                        stmt_issue(ctx, span, StmtCheckIssueKind::AnnotatedLocalTypeMismatch { local_id: local, annotated: current, initializer: init }),
                    )
                } else {
                    st
                }
            } else if current is Error && !(init is Error) {
                (st.0.insert(local, init), st.1, st.2, st.3)
            } else {
                st
            }
        },
    }
}

/// `st` with the entry of statement `stmt_id` recorded.
pub open spec fn with_entry(ctx: StmtCtx, st: StmtState, stmt_id: HirStmtId, kind: StatementKind, span: Span, ty: Type) -> StmtState {
    (st.0, st.1, st.2.insert(BodyStmtId { owner: ctx.0.owner, body_index: ctx.0.body_index, hir_stmt_id: stmt_id }, StatementTypeEntry { kind, span, ty }), st.3)
}

/// An `if` with an empty then-body and a block as else: a lowered `guard`.
pub open spec fn is_guard_if(module: HirModule, e: HirExprId) -> bool {
    match module.exprs.spec_get(e) {
        Some(x) => match x.kind {
            HirExprKind::If { then_body, else_expr, .. } => match module.bodies.spec_get(then_body) {
                Some(b) => b.stmts@.len() == 0 && b.tail_expr is None && match else_expr {
                    Some(el) => match module.exprs.spec_get(el) {
                        Some(y) => y.kind is Block,
                        None => false,
                    },
                    None => false,
                },
                None => false,
            },
            _ => false,
        },
        None => false,
    }
}

/// Checking a return statement against the expected return type.
pub open spec fn stmt_return(ctx: StmtCtx, st: StmtState, expected: Type, stmt_id: HirStmtId, span: Span, value: Option<HirExprId>) -> StmtState {
    let (ret, st1) = match value {
        Some(v) => stmt_expr_type(ctx, st, v),
        None => (Type::Builtin(BuiltinType::Void), st),
    };
    let void = Type::Builtin(BuiltinType::Void);
    let st2 = if value is None && expected != void && !(expected is Error) {
        with_issue(st1, stmt_issue(ctx, span, StmtCheckIssueKind::MissingReturnValue { expected }))
    } else if value is Some && expected == void && !(ret is Error) {
        with_issue(st1, stmt_issue(ctx, span, StmtCheckIssueKind::UnexpectedReturnValue { found: ret }))
    } else if value is Some && !(expected is Error) && !(ret is Error) && expected != ret {
        with_issue(st1, stmt_issue(ctx, span, StmtCheckIssueKind::ReturnTypeMismatch { expected, found: ret }))
    } else {
        st1
    };
    with_entry(ctx, st2, stmt_id, StatementKind::Return, span, ret)
}

/// Checking an assignment statement: target and value types must agree.
pub open spec fn stmt_assign(ctx: StmtCtx, st: StmtState, stmt_id: HirStmtId, span: Span, expr: HirExprId, expr_span: Span, target: HirExprId, value: HirExprId) -> StmtState {
    let (ty, st1) = stmt_expr_type(ctx, st, expr);
    let (target_ty, st2) = stmt_expr_type(ctx, st1, target);
    let (value_ty, st3) = stmt_expr_type(ctx, st2, value);
    let st4 = if !(target_ty is Error) && !(value_ty is Error) && target_ty != value_ty {
        with_issue(st3, stmt_issue(ctx, expr_span, StmtCheckIssueKind::AssignmentTypeMismatch { target: target_ty, value: value_ty }))
    } else {
        st3
    };
    with_entry(ctx, st4, stmt_id, StatementKind::Expr, span, ty)
}

/// Checking one statement (at most `fuel` levels deep).
pub open spec fn stmt_step(ctx: StmtCtx, st: StmtState, expected: Type, fuel: nat, stmt_id: HirStmtId) -> StmtState
    decreases fuel, 0nat,
{
    if fuel == 0 {
        st
    } else {
        match ctx.2.stmts.spec_get(stmt_id) {
            None => st,
            Some(stmt) => {
                let span = stmt.origin.span;
                match stmt.kind {
                    HirStmtKind::Let { pat, value, mutability } => {
                        let st1 = match value {
                            Some(v) => {
                                let (t, s) = stmt_expr_type(ctx, st, v);
                                stmt_apply_binding(ctx, s, pat, t)
                            },
                            None => st,
                        };
                        let kind = if mutability == HirMutability::Mutable {
                            StatementKind::Var
                        } else {
                            StatementKind::Let
                        };
                        with_entry(ctx, st1, stmt_id, kind, span, Type::Builtin(BuiltinType::Void))
                    },
                    HirStmtKind::Item { .. } => st,
                    _ => {
                        let expr = match stmt.kind {
                            HirStmtKind::Expr { expr } => expr,
                            HirStmtKind::Semi { expr } => expr,
                            _ => HirExprId(0),
                        };
                        match ctx.2.exprs.spec_get(expr) {
                            None => with_entry(ctx, st, stmt_id, StatementKind::Expr, span, Type::Error),
                            Some(e) => match e.kind {
                                HirExprKind::Return { value } => stmt_return(ctx, st, expected, stmt_id, span, value),
                                HirExprKind::If { condition, then_body, else_expr } => {
                                    let s1 = stmt_condition(ctx, st, condition, e.origin.span);
                                    let s2 = stmt_body_step(ctx, s1, expected, (fuel - 1) as nat, then_body);
                                    let s3 = match else_expr {
                                        Some(x) => stmt_else_step(ctx, s2, expected, (fuel - 1) as nat, x),
                                        None => s2,
                                    };
                                    let kind = if is_guard_if(ctx.2, expr) {
                                        StatementKind::Guard
                                    } else {
                                        StatementKind::If
                                    };
                                    with_entry(ctx, s3, stmt_id, kind, span, Type::Builtin(BuiltinType::Void))
                                },
                                HirExprKind::While { condition, body } => {
                                    let s1 = stmt_condition(ctx, st, condition, e.origin.span);
                                    let s2 = stmt_body_step(ctx, s1, expected, (fuel - 1) as nat, body);
                                    with_entry(ctx, s2, stmt_id, StatementKind::While, span, Type::Builtin(BuiltinType::Void))
                                },
                                HirExprKind::For { body, .. } => {
                                    let s1 = stmt_body_step(ctx, st, expected, (fuel - 1) as nat, body);
                                    with_entry(ctx, s1, stmt_id, StatementKind::For, span, Type::Builtin(BuiltinType::Void))
                                },
                                HirExprKind::Break => with_entry(ctx, st, stmt_id, StatementKind::Break, span, Type::Builtin(BuiltinType::Void)),
                                HirExprKind::Continue => with_entry(ctx, st, stmt_id, StatementKind::Continue, span, Type::Builtin(BuiltinType::Void)),
                                HirExprKind::Assign { target, value, .. } => stmt_assign(ctx, st, stmt_id, span, expr, e.origin.span, target, value),
                                _ => {
                                    let (t, s) = stmt_expr_type(ctx, st, expr);
                                    with_entry(ctx, s, stmt_id, StatementKind::Expr, span, t)
                                },
                            },
                        }
                    },
                }
            },
        }
    }
}

/// Checking the else branch of an `if` statement: a nested `if` or a block.
pub open spec fn stmt_else_step(ctx: StmtCtx, st: StmtState, expected: Type, fuel: nat, e: HirExprId) -> StmtState
    decreases fuel, 0nat,
{
    if fuel == 0 {
        st
    } else {
        match ctx.2.exprs.spec_get(e) {
            None => st,
            Some(x) => match x.kind {
                HirExprKind::If { condition, then_body, else_expr } => {
                    let s1 = stmt_condition(ctx, st, condition, x.origin.span);
                    let s2 = stmt_body_step(ctx, s1, expected, (fuel - 1) as nat, then_body);
                    match else_expr {
                        Some(y) => stmt_else_step(ctx, s2, expected, (fuel - 1) as nat, y),
                        None => s2,
                    }
                },
                HirExprKind::Block { body } => stmt_body_step(ctx, st, expected, (fuel - 1) as nat, body),
                _ => st,
            },
        }
    }
}

/// Checking the statements of a block body in order.
pub open spec fn stmt_body_step(ctx: StmtCtx, st: StmtState, expected: Type, fuel: nat, b: HirBodyId) -> StmtState
    decreases fuel, 0nat,
{
    if fuel == 0 {
        st
    } else {
        match ctx.2.bodies.spec_get(b) {
            None => st,
            Some(body) => stmts_fold(ctx, st, expected, (fuel - 1) as nat, body.stmts@),
        }
    }
}

/// Checking statements in order.
pub open spec fn stmts_fold(ctx: StmtCtx, st: StmtState, expected: Type, fuel: nat, stmts: Seq<HirStmtId>) -> StmtState
    decreases fuel, stmts.len(),
{
    if stmts.len() == 0 {
        st
    } else {
        stmt_step(ctx, stmts_fold(ctx, st, expected, fuel, stmts.drop_last()), expected, fuel, stmts.last())
    }
}

/// The two tables hold the same local types and local maps for every body.
pub open spec fn same_body_locals(a: StatementTypeTable, b: StatementTypeTable) -> bool {
    a.spec_local_types() == b.spec_local_types() && a.spec_hir_locals() == b.spec_hir_locals()
}

struct BodyStmtChecker<'a> {
    body: &'a ResolvedBody,
    body_ref: SemanticBodyRef,
    module: &'a HirModule,
    hir_input: &'a SemanticHirInput,
    expr_types: &'a ExpressionTypeTable,
    declared_type_hir_locals: SortedMap<LocalId, bool>,
    local_types: SortedMap<LocalId, Type>,
    missing_expr_ids: SortedMap<HirExprId, bool>,
}

impl<'a> BodyStmtChecker<'a> {
    spec fn ctx(&self) -> StmtCtx {
        (
            *self.body,
            self.body_ref.file_id,
            *self.module,
            self.hir_input.hir_local_bindings.bindings@,
            *self.expr_types,
            entries_map(self.declared_type_hir_locals@).dom(),
        )
    }

    spec fn state(&self, table: StatementTypeTable) -> StmtState {
        (entries_map(self.local_types@), entries_map(self.missing_expr_ids@).dom(), table.spec_stmts(), table.spec_issues())
    }

    fn issue(&self, span: Span, kind: StmtCheckIssueKind) -> (r: StmtCheckIssue)
        ensures
            r == stmt_issue(self.ctx(), span, kind),
    {
        StmtCheckIssue { owner: self.body.owner, body_index: self.body.body_index, span, kind }
    }

    fn record(&self, table: &mut StatementTypeTable, stmt_id: HirStmtId, kind: StatementKind, span: Span, ty: Type)
        ensures
            self.state(*final(table)) == with_entry(self.ctx(), self.state(*old(table)), stmt_id, kind, span, ty),
            same_body_locals(*final(table), *old(table)),
    {
        table.record_stmt(BodyStmtId { owner: self.body.owner, body_index: self.body.body_index, hir_stmt_id: stmt_id }, StatementTypeEntry { kind, span, ty });
    }

    fn push(&self, table: &mut StatementTypeTable, issue: StmtCheckIssue)
        ensures
            self.state(*final(table)) == with_issue(self.state(*old(table)), issue),
            same_body_locals(*final(table), *old(table)),
    {
        table.push_issue(issue);
    }

    fn expr_type_or_error(&mut self, expr_id: HirExprId, table: &mut StatementTypeTable) -> (r: Type)
        ensures
            final(self).ctx() == old(self).ctx(),
            same_body_locals(*final(table), *old(table)),
            ({
                let (t, st) = stmt_expr_type(old(self).ctx(), old(self).state(*old(table)), expr_id);
                &&& r == t
                &&& final(self).state(*final(table)) == st
            }),
    {
        match self.expr_types.expr_type_for_hir_expr(&self.body.owner, self.body.body_index, expr_id) {
            Some(t) => {
                return t.clone();
            },
            None => {},
        }
        if self.missing_expr_ids.contains_key(&expr_id) {
            return Type::error();
        }
        let ghost st0 = self.state(*table);
        self.missing_expr_ids.insert(expr_id, true);
        let span = match self.module.exprs.get(&expr_id) {
            Some(e) => e.origin.span,
            None => Span::new(0, 0),
        };
        let issue = self.issue(span, StmtCheckIssueKind::MissingExpressionType { span });
        self.push(table, issue);
        proof {
            assert(entries_map(self.missing_expr_ids@).dom() =~= st0.1.insert(expr_id));
        }
        Type::error()
    }

    fn check_condition_expr(&mut self, expr_id: HirExprId, table: &mut StatementTypeTable, span: Span)
        ensures
            final(self).ctx() == old(self).ctx(),
            same_body_locals(*final(table), *old(table)),
            final(self).state(*final(table)) == stmt_condition(old(self).ctx(), old(self).state(*old(table)), expr_id, span),
    {
        let found = self.expr_type_or_error(expr_id, table);
        if found != Type::builtin(BuiltinType::Bool) && !found.is_error() {
            let issue = self.issue(span, StmtCheckIssueKind::InvalidConditionType { found });
            self.push(table, issue);
        }
    }

    fn apply_binding_type(&mut self, pat_id: HirPatId, initializer: Type, table: &mut StatementTypeTable)
        ensures
            final(self).ctx() == old(self).ctx(),
            same_body_locals(*final(table), *old(table)),
            final(self).state(*final(table)) == stmt_apply_binding(old(self).ctx(), old(self).state(*old(table)), pat_id, initializer),
    {
        let span = match self.module.patterns.get(&pat_id) {
            Some(p) => p.origin.span,
            None => Span::new(0, 0),
        };
        let local_id = match self.hir_input.hir_local_bindings.binding_for_pat(self.body_ref.file_id, pat_id) {
            Some(l) => l,
            None => {
                let issue = self.issue(span, StmtCheckIssueKind::MissingPatternLocal { span });
                self.push(table, issue);
                return;
            },
        };
        let current = match self.local_types.get(&local_id) {
            Some(t) => t.clone(),
            None => Type::error(),
        };
        if self.declared_type_hir_locals.contains_key(&local_id) {
            if !current.is_error() && !initializer.is_error() && current != initializer {
                let issue = self.issue(span, StmtCheckIssueKind::AnnotatedLocalTypeMismatch { local_id, annotated: current, initializer });
                self.push(table, issue);
            }
            return;
        }
        if current.is_error() && !initializer.is_error() {
            self.local_types.insert(local_id, initializer);
        }
    }

    fn check_return(&mut self, stmt_id: HirStmtId, span: Span, value: Option<HirExprId>, expected: &Type, table: &mut StatementTypeTable)
        ensures
            final(self).ctx() == old(self).ctx(),
            same_body_locals(*final(table), *old(table)),
            final(self).state(*final(table)) == stmt_return(old(self).ctx(), old(self).state(*old(table)), *expected, stmt_id, span, value),
    {
        let return_ty = match value {
            Some(v) => self.expr_type_or_error(v, table),
            None => Type::void(),
        };
        let void = Type::void();
        if value.is_none() && *expected != void && !expected.is_error() {
            let issue = self.issue(span, StmtCheckIssueKind::MissingReturnValue { expected: expected.clone() });
            self.push(table, issue);
        } else if value.is_some() && *expected == void && !return_ty.is_error() {
            let issue = self.issue(span, StmtCheckIssueKind::UnexpectedReturnValue { found: return_ty.clone() });
            self.push(table, issue);
        } else if value.is_some() && !expected.is_error() && !return_ty.is_error() && *expected != return_ty {
            let issue = self.issue(span, StmtCheckIssueKind::ReturnTypeMismatch { expected: expected.clone(), found: return_ty.clone() });
            self.push(table, issue);
        }
        self.record(table, stmt_id, StatementKind::Return, span, return_ty);
    }

    fn check_assign(
        &mut self,
        stmt_id: HirStmtId,
        span: Span,
        expr: HirExprId,
        expr_span: Span,
        target: HirExprId,
        value: HirExprId,
        table: &mut StatementTypeTable,
    )
        ensures
            final(self).ctx() == old(self).ctx(),
            same_body_locals(*final(table), *old(table)),
            final(self).state(*final(table)) == stmt_assign(old(self).ctx(), old(self).state(*old(table)), stmt_id, span, expr, expr_span, target, value),
    {
        let expr_ty = self.expr_type_or_error(expr, table);
        let target_ty = self.expr_type_or_error(target, table);
        let value_ty = self.expr_type_or_error(value, table);
        if !target_ty.is_error() && !value_ty.is_error() && target_ty != value_ty {
            let issue = self.issue(expr_span, StmtCheckIssueKind::AssignmentTypeMismatch { target: target_ty, value: value_ty });
            self.push(table, issue);
        }
        self.record(table, stmt_id, StatementKind::Expr, span, expr_ty);
    }

    fn check_stmt(&mut self, stmt_id: HirStmtId, expected: &Type, fuel: usize, table: &mut StatementTypeTable)
        ensures
            final(self).ctx() == old(self).ctx(),
            same_body_locals(*final(table), *old(table)),
            final(self).state(*final(table)) == stmt_step(old(self).ctx(), old(self).state(*old(table)), *expected, fuel as nat, stmt_id),
        decreases fuel, 0nat,
    {
        if fuel == 0 {
            return;
        }
        let stmt = match self.module.stmts.get(&stmt_id) {
            Some(s) => s,
            None => return,
        };
        let span = stmt.origin.span;
        match &stmt.kind {
            HirStmtKind::Let { pat, value, mutability } => {
                match value {
                    Some(v) => {
                        let init_ty = self.expr_type_or_error(*v, table);
                        self.apply_binding_type(*pat, init_ty, table);
                    },
                    None => {},
                }
                let kind = if *mutability == HirMutability::Mutable {
                    StatementKind::Var
                } else {
                    StatementKind::Let
                };
                self.record(table, stmt_id, kind, span, Type::void());
            },
            HirStmtKind::Item { .. } => {},
            HirStmtKind::Expr { expr } | HirStmtKind::Semi { expr } => {
                let expr = *expr;
                let expression = match self.module.exprs.get(&expr) {
                    Some(e) => e,
                    None => {
                        self.record(table, stmt_id, StatementKind::Expr, span, Type::error());
                        return;
                    },
                };
                let expr_span = expression.origin.span;
                match &expression.kind {
                    HirExprKind::Return { value } => {
                        self.check_return(stmt_id, span, *value, expected, table);
                    },
                    HirExprKind::If { condition, then_body, else_expr } => {
                        self.check_condition_expr(*condition, table, expr_span);
                        self.check_body(*then_body, expected, fuel - 1, table);
                        match else_expr {
                            Some(x) => self.check_else_branch(*x, expected, fuel - 1, table),
                            None => {},
                        }
                        let kind = if is_lowered_guard_if(self.module, expr) {
                            StatementKind::Guard
                        } else {
                            StatementKind::If
                        };
                        self.record(table, stmt_id, kind, span, Type::void());
                    },
                    HirExprKind::While { condition, body } => {
                        self.check_condition_expr(*condition, table, expr_span);
                        self.check_body(*body, expected, fuel - 1, table);
                        self.record(table, stmt_id, StatementKind::While, span, Type::void());
                    },
                    HirExprKind::For { body, .. } => {
                        self.check_body(*body, expected, fuel - 1, table);
                        self.record(table, stmt_id, StatementKind::For, span, Type::void());
                    },
                    HirExprKind::Break => {
                        self.record(table, stmt_id, StatementKind::Break, span, Type::void());
                    },
                    HirExprKind::Continue => {
                        self.record(table, stmt_id, StatementKind::Continue, span, Type::void());
                    },
                    HirExprKind::Assign { target, value, .. } => {
                        self.check_assign(stmt_id, span, expr, expr_span, *target, *value, table);
                    },
                    _ => {
                        let ty = self.expr_type_or_error(expr, table);
                        self.record(table, stmt_id, StatementKind::Expr, span, ty);
                    },
                }
            },
        }
    }

    fn check_else_branch(&mut self, else_expr: HirExprId, expected: &Type, fuel: usize, table: &mut StatementTypeTable)
        ensures
            final(self).ctx() == old(self).ctx(),
            same_body_locals(*final(table), *old(table)),
            final(self).state(*final(table)) == stmt_else_step(old(self).ctx(), old(self).state(*old(table)), *expected, fuel as nat, else_expr),
        decreases fuel, 0nat,
    {
        if fuel == 0 {
            return;
        }
        let expr = match self.module.exprs.get(&else_expr) {
            Some(e) => e,
            None => return,
        };
        let expr_span = expr.origin.span;
        match &expr.kind {
            HirExprKind::If { condition, then_body, else_expr } => {
                self.check_condition_expr(*condition, table, expr_span);
                self.check_body(*then_body, expected, fuel - 1, table);
                match else_expr {
                    Some(x) => self.check_else_branch(*x, expected, fuel - 1, table),
                    None => {},
                }
            },
            HirExprKind::Block { body } => {
                self.check_body(*body, expected, fuel - 1, table);
            },
            _ => {},
        }
    }

    fn check_body(&mut self, body_id: HirBodyId, expected: &Type, fuel: usize, table: &mut StatementTypeTable)
        ensures
            final(self).ctx() == old(self).ctx(),
            same_body_locals(*final(table), *old(table)),
            final(self).state(*final(table)) == stmt_body_step(old(self).ctx(), old(self).state(*old(table)), *expected, fuel as nat, body_id),
        decreases fuel, 0nat,
    {
        if fuel == 0 {
            return;
        }
        let body = match self.module.bodies.get(&body_id) {
            Some(b) => b,
            None => return,
        };
        let ghost ctx = self.ctx();
        let ghost st0 = self.state(*table);
        let mut i: usize = 0;
        proof {
            assert(body.stmts@.subrange(0, 0) =~= Seq::<HirStmtId>::empty());
        }
        while i < body.stmts.len()
            invariant
                i <= body.stmts@.len(),
                self.ctx() == ctx,
                ctx.2.bodies.spec_get(body_id) == Some(*body),
                fuel > 0,
                self.state(*table) == stmts_fold(ctx, st0, *expected, (fuel - 1) as nat, body.stmts@.subrange(0, i as int)),
                same_body_locals(*table, *old(table)),
            decreases body.stmts@.len() - i,
        {
            proof {
                assert(body.stmts@.subrange(0, i as int + 1).drop_last() =~= body.stmts@.subrange(0, i as int));
            }
            self.check_stmt(body.stmts[i], expected, fuel - 1, table);
            i = i + 1;
        }
        proof {
            assert(body.stmts@.subrange(0, body.stmts@.len() as int) =~= body.stmts@);
        }
    }
}

fn is_lowered_guard_if(module: &HirModule, expr_id: HirExprId) -> (r: bool)
    ensures
        r == is_guard_if(*module, expr_id),
{
    let expr = match module.exprs.get(&expr_id) {
        Some(e) => e,
        None => return false,
    };
    match &expr.kind {
        HirExprKind::If { then_body, else_expr, .. } => {
            let then_node = match module.bodies.get(then_body) {
                Some(b) => b,
                None => return false,
            };
            if then_node.stmts.len() != 0 || then_node.tail_expr.is_some() {
                return false;
            }
            let else_id = match else_expr {
                Some(e) => *e,
                None => return false,
            };
            match module.exprs.get(&else_id) {
                Some(e) => match &e.kind {
                    HirExprKind::Block { .. } => true,
                    _ => false,
                },
                None => false,
            }
        },
        _ => false,
    }
}

/// The first of `locals` with id `id`.
pub open spec fn first_local_with_id(locals: Seq<ResolvedLocal>, id: LocalId) -> Option<ResolvedLocal>
    decreases locals.len(),
{
    if locals.len() == 0 {
        None
    } else if locals[0].id == id {
        Some(locals[0])
    } else {
        first_local_with_id(locals.drop_first(), id)
    }
}

/// Whether the first local with id `l` has a declared type.
pub open spec fn has_declared_type(locals: Seq<ResolvedLocal>, l: LocalId) -> bool {
    match first_local_with_id(locals, l) {
        Some(x) => x.declared_type is Some,
        None => false,
    }
}

/// The bound locals whose resolved local has a declared type.
pub open spec fn declared_locals(bound: Map<LocalId, BodyLocalBindingInfo>, locals: Seq<ResolvedLocal>) -> Set<LocalId> {
    Set::new(|l: LocalId| bound.contains_key(l) && has_declared_type(locals, l))
}

/// Checking the statements of one body against the table so far: a
/// missing environment or HIR body is reported; otherwise its statements
/// are checked from the environment's local types, and the result gives
/// the body's local types after the check and its bound locals. HIR locals
/// and resolved locals share ids here.
pub open spec fn stmt_check_body(
    hir: SemanticHirInput,
    envs: BodyTypeEnvironmentTable,
    expr_types: ExpressionTypeTable,
    stmts: Map<BodyStmtId, StatementTypeEntry>,
    issues: Seq<StmtCheckIssue>,
    body: ResolvedBody,
) -> (Map<BodyStmtId, StatementTypeEntry>, Seq<StmtCheckIssue>, Option<(Map<LocalId, Type>, Set<LocalId>)>) {
    let owner = body.owner;
    let index = body.body_index;
    let at = |kind: StmtCheckIssueKind| StmtCheckIssue { owner, body_index: index, span: Span { start: 0, end: 0 }, kind };
    let missing_ast = (stmts, issues.push(at(StmtCheckIssueKind::MissingBodyAst)), None);
    match env_for(envs, owner, index) {
        None => (stmts, issues.push(at(StmtCheckIssueKind::MissingBodyEnvironment)), None),
        Some(env) => {
            let refs = hir.spec_owner_refs(owner);
            if index >= refs.len() {
                missing_ast
            } else {
                let body_ref = refs[index as int];
                match hir.hir_modules.spec_get(body_ref.file_id) {
                    None => missing_ast,
                    Some(module) => if module.bodies.spec_get(body_ref.body_id) is None {
                        missing_ast
                    } else {
                        let bound = entries_map(env.local_bindings@);
                        let ctx: StmtCtx = (body, body_ref.file_id, module, hir.hir_local_bindings.bindings@, expr_types, declared_locals(bound, body.locals@));
                        let st0: StmtState = (entries_map(env.local_types@), Set::empty(), stmts, issues);
                        let st = stmt_body_step(ctx, st0, env.expected_return_type, walk_fuel(module), body_ref.body_id);
                        (st.2, st.3, Some((st.0, bound.dom())))
                    },
                }
            }
        },
    }
}

/// Checking the statements of the bodies in order: the statement entries,
/// the issues, and for each checked body its local types and bound locals.
pub open spec fn stmt_check_fold(
    hir: SemanticHirInput,
    envs: BodyTypeEnvironmentTable,
    expr_types: ExpressionTypeTable,
    bodies: Seq<ResolvedBody>,
) -> (Map<BodyStmtId, StatementTypeEntry>, Seq<StmtCheckIssue>, Map<BodyKey, Map<LocalId, Type>>, Map<BodyKey, Set<LocalId>>)
    decreases bodies.len(),
{
    if bodies.len() == 0 {
        (Map::empty(), seq![], Map::empty(), Map::empty())
    } else {
        let prev = stmt_check_fold(hir, envs, expr_types, bodies.drop_last());
        let b = bodies.last();
        let r = stmt_check_body(hir, envs, expr_types, prev.0, prev.1, b);
        let key = BodyKey { owner: b.owner, body_index: b.body_index };
        match r.2 {
            Some((locals, bound)) => (r.0, r.1, prev.2.insert(key, locals), prev.3.insert(key, bound)),
            None => (r.0, r.1, prev.2, prev.3),
        }
    }
}

fn first_local_by_id(locals: &Vec<ResolvedLocal>, id: LocalId) -> (r: Option<&ResolvedLocal>)
    ensures
        match r {
            Some(l) => first_local_with_id(locals@, id) == Some(*l),
            None => first_local_with_id(locals@, id) is None,
        },
{
    let mut i: usize = 0;
    proof {
        assert(locals@.subrange(0, locals@.len() as int) =~= locals@);
    }
    while i < locals.len()
        invariant
            i <= locals@.len(),
            first_local_with_id(locals@, id) == first_local_with_id(locals@.subrange(i as int, locals@.len() as int), id),
        decreases locals@.len() - i,
    {
        proof {
            assert(locals@.subrange(i as int, locals@.len() as int).drop_first() =~= locals@.subrange(i as int + 1, locals@.len() as int));
        }
        if locals[i].id == id {
            return Some(&locals[i]);
        }
        i = i + 1;
    }
    None
}

/// The bound locals with a declared type, as a set of keys.
fn declared_type_locals(bindings: &SortedMap<LocalId, BodyLocalBindingInfo>, locals: &Vec<ResolvedLocal>) -> (r: SortedMap<LocalId, bool>)
    ensures
        entries_map(r@).dom() == declared_locals(entries_map(bindings@), locals@),
{
    let entries = bindings.entries();
    let mut out: SortedMap<LocalId, bool> = SortedMap::new();
    let mut i: usize = 0;
    while i < entries.len()
        invariant
            i <= entries@.len(),
            entries@ == bindings@,
            forall|l: LocalId| #[trigger] entries_map(out@).contains_key(l) <==> (exists|j: int| 0 <= j < i && entries@[j].0 == l)
                && has_declared_type(locals@, l),
        decreases entries@.len() - i,
    {
        let id = entries[i].0;
        let declared = match first_local_by_id(locals, id) {
            Some(l) => l.declared_type.is_some(),
            None => false,
        };
        if declared {
            out.insert(id, true);
        }
        proof {
            assert forall|l: LocalId| #[trigger] entries_map(out@).contains_key(l) <==> (exists|j: int| 0 <= j < i + 1 && entries@[j].0 == l)
                && has_declared_type(locals@, l) by {
                if l == id {
                    assert(entries@[i as int].0 == l);
                }
                if exists|j: int| 0 <= j < i + 1 && entries@[j].0 == l {
                    let j = choose|j: int| 0 <= j < i + 1 && entries@[j].0 == l;
                    if j < i {
                        assert(exists|j2: int| 0 <= j2 < i && entries@[j2].0 == l);
                    }
                }
            }
        }
        i = i + 1;
    }
    proof {
        assert(entries_map(out@).dom() =~= declared_locals(entries_map(bindings@), locals@)) by {
            assert forall|l: LocalId| entries_map(out@).dom().contains(l) <==> declared_locals(entries_map(bindings@), locals@).contains(l) by {
                if entries_map(bindings@).contains_key(l) {
                    let j = choose|j: int| 0 <= j < entries@.len() && #[trigger] entries@[j].0 == l;
                    assert(entries@[j].0 == l);
                }
            }
        }
    }
    out
}

/// Each bound local mapped to itself.
fn identity_locals(bindings: &SortedMap<LocalId, BodyLocalBindingInfo>) -> (r: SortedMap<LocalId, LocalId>)
    ensures
        entries_map(r@) == Map::new(|l: LocalId| entries_map(bindings@).dom().contains(l), |l: LocalId| l),
{
    let entries = bindings.entries();
    let mut out: Vec<(LocalId, LocalId)> = Vec::new();
    let mut i: usize = 0;
    while i < entries.len()
        invariant
            i <= entries@.len(),
            entries@ == bindings@,
            crate::collections::sorted_map::entries_sorted(entries@),
            out@.len() == i,
            forall|j: int| 0 <= j < i ==> #[trigger] out@[j] == (entries@[j].0, entries@[j].0),
        decreases entries@.len() - i,
    {
        out.push((entries[i].0, entries[i].0));
        i = i + 1;
    }
    proof {
        assert(crate::collections::sorted_map::entries_sorted(out@)) by {
            assert forall|a: int, b: int| 0 <= a < b < out@.len() implies #[trigger] out@[a].0.key_lt(#[trigger] out@[b].0) by {
                assert(entries@[a].0.key_lt(entries@[b].0));
            }
        }
        let m = Map::new(|l: LocalId| entries_map(bindings@).dom().contains(l), |l: LocalId| l);
        assert forall|l: LocalId| #[trigger] entries_map(out@).contains_key(l) <==> m.contains_key(l) by {
            if crate::collections::sorted_map::entries_contain(out@, l) {
                let j = choose|j: int| 0 <= j < out@.len() && #[trigger] out@[j].0 == l;
                assert(entries@[j].0 == l);
            }
            if crate::collections::sorted_map::entries_contain(entries@, l) {
                let j = choose|j: int| 0 <= j < entries@.len() && #[trigger] entries@[j].0 == l;
                assert(out@[j].0 == l);
            }
        }
        assert forall|l: LocalId| m.contains_key(l) implies #[trigger] entries_map(out@)[l] == m[l] by {
            let j = choose|j: int| 0 <= j < entries@.len() && #[trigger] entries@[j].0 == l;
            assert(out@[j].0 == l);
            crate::collections::sorted_map::lemma_lookup_at(out@, j);
        }
        assert(entries_map(out@) =~= m);
    }
    SortedMap::from_sorted_entries(out)
}

fn check_body_statements(
    hir_input: &SemanticHirInput,
    body_envs: &BodyTypeEnvironmentTable,
    expr_types: &ExpressionTypeTable,
    body: &ResolvedBody,
    table: &mut StatementTypeTable,
)
    ensures
        ({
            let r = stmt_check_body(*hir_input, *body_envs, *expr_types, old(table).spec_stmts(), old(table).spec_issues(), *body);
            let key = BodyKey { owner: body.owner, body_index: body.body_index };
            &&& final(table).spec_stmts() == r.0
            &&& final(table).spec_issues() == r.1
            &&& match r.2 {
                Some((locals, bound)) => {
                    &&& final(table).spec_local_types() == old(table).spec_local_types().insert(key, final(table).spec_local_types()[key])
                    &&& entries_map(final(table).spec_local_types()[key]@) == locals
                    &&& final(table).spec_hir_locals() == old(table).spec_hir_locals().insert(key, final(table).spec_hir_locals()[key])
                    &&& entries_map(final(table).spec_hir_locals()[key]@) == Map::new(|l: LocalId| bound.contains(l), |l: LocalId| l)
                },
                None => {
                    &&& final(table).spec_local_types() == old(table).spec_local_types()
                    &&& final(table).spec_hir_locals() == old(table).spec_hir_locals()
                },
            }
        }),
{
    let owner = body.owner;
    let index = body.body_index;
    let env = match find_env_with_index(body_envs.envs_for_owner(&owner), index) {
        Some(e) => e,
        None => {
            table.push_issue(StmtCheckIssue { owner, body_index: index, span: Span::new(0, 0), kind: StmtCheckIssueKind::MissingBodyEnvironment });
            return;
        },
    };
    let body_ref = match hir_input.body_ref(&owner, index) {
        Some(b) => b,
        None => {
            table.push_issue(StmtCheckIssue { owner, body_index: index, span: Span::new(0, 0), kind: StmtCheckIssueKind::MissingBodyAst });
            return;
        },
    };
    let module = match hir_input.hir_modules.get(&body_ref.file_id) {
        Some(m) => m,
        None => {
            table.push_issue(StmtCheckIssue { owner, body_index: index, span: Span::new(0, 0), kind: StmtCheckIssueKind::MissingBodyAst });
            return;
        },
    };
    if !module.bodies.contains_key(&body_ref.body_id) {
        table.push_issue(StmtCheckIssue { owner, body_index: index, span: Span::new(0, 0), kind: StmtCheckIssueKind::MissingBodyAst });
        return;
    }
    let mut checker = BodyStmtChecker {
        body,
        body_ref,
        module,
        hir_input,
        expr_types,
        declared_type_hir_locals: declared_type_locals(&env.local_bindings, &body.locals),
        local_types: copy_local_types(&env.local_types),
        missing_expr_ids: SortedMap::new(),
    };
    proof {
        assert(entries_map(checker.missing_expr_ids@).dom() =~= Set::<HirExprId>::empty());
    }
    let fuel = module.walk_fuel();
    let ghost bound = entries_map(env.local_bindings@);
    let ghost ctx: StmtCtx = (*body, body_ref.file_id, *module, hir_input.hir_local_bindings.bindings@, *expr_types, declared_locals(bound, body.locals@));
    let ghost st0: StmtState = (entries_map(env.local_types@), Set::empty(), table.spec_stmts(), table.spec_issues());
    proof {
        assert(checker.ctx() == ctx);
        assert(checker.state(*table) == st0);
        assert(env_for(*body_envs, owner, index) == Some(*env));
    }
    checker.check_body(body_ref.body_id, &env.expected_return_type, fuel, table);
    let ghost st = stmt_body_step(ctx, st0, env.expected_return_type, walk_fuel(*module), body_ref.body_id);
    proof {
        assert(checker.state(*table) == st);
        assert(stmt_check_body(*hir_input, *body_envs, *expr_types, old(table).spec_stmts(), old(table).spec_issues(), *body) == (st.2, st.3, Some((st.0, bound.dom()))));
    }
    let hir_locals = identity_locals(&env.local_bindings);
    table.record_body_locals(BodyKey { owner, body_index: index }, checker.local_types, hir_locals);
}

/// Whether `r` holds the statement check of `bodies` from the expression
/// types `expr_types`.
pub open spec fn stmt_table_matches(r: StatementTypeTable, hir: SemanticHirInput, envs: BodyTypeEnvironmentTable, expr_types: ExpressionTypeTable, bodies: Seq<ResolvedBody>) -> bool {
    let f = stmt_check_fold(hir, envs, expr_types, bodies);
    &&& r.spec_stmts() == f.0
    &&& r.spec_issues() == f.1
    &&& forall|k: BodyKey| #[trigger] r.spec_local_types().contains_key(k) == f.2.contains_key(k)
    &&& forall|k: BodyKey| r.spec_local_types().contains_key(k) ==> entries_map((#[trigger] r.spec_local_types()[k])@) == f.2[k]
    &&& forall|k: BodyKey| #[trigger] r.spec_hir_locals().contains_key(k) == f.3.contains_key(k)
    &&& forall|k: BodyKey| r.spec_hir_locals().contains_key(k) ==> entries_map((#[trigger] r.spec_hir_locals()[k])@)
        == Map::new(|l: LocalId| f.3[k].contains(l), |l: LocalId| l)
}

/// Checks the expressions of every body (without imports or external
/// roots), then their statements.
pub fn check_statements(
    hir_input: &SemanticHirInput,
    typed_items: &TypedItemTable,
    resolved_bodies: &ResolvedBodyTable,
    body_envs: &BodyTypeEnvironmentTable,
) -> (r: StatementTypeTable)
    ensures
        exists|et: ExpressionTypeTable|
            plain_expr_check(et, *hir_input, *typed_items, *body_envs, resolved_bodies.bodies@)
            && stmt_table_matches(r, *hir_input, *body_envs, et, resolved_bodies.bodies@),
{
    let expr_types = check_expression_types(hir_input, typed_items, resolved_bodies, body_envs);
    check_statements_with_expression_types(hir_input, resolved_bodies, body_envs, &expr_types)
}

/// Checks the statements of every body, in resolution order (see
/// [`stmt_check_body`]), from the expression types already checked.
pub fn check_statements_with_expression_types(
    hir_input: &SemanticHirInput,
    resolved_bodies: &ResolvedBodyTable,
    body_envs: &BodyTypeEnvironmentTable,
    expr_types: &ExpressionTypeTable,
) -> (r: StatementTypeTable)
    ensures
        stmt_table_matches(r, *hir_input, *body_envs, *expr_types, resolved_bodies.bodies@),
{
    let bodies = resolved_bodies.iter();
    let mut table = StatementTypeTable::new();
    let mut i: usize = 0;
    proof {
        assert(bodies@.subrange(0, 0) =~= Seq::<ResolvedBody>::empty());
    }
    while i < bodies.len()
        invariant
            i <= bodies@.len(),
            bodies@ == resolved_bodies.bodies@,
            ({
                let f = stmt_check_fold(*hir_input, *body_envs, *expr_types, bodies@.subrange(0, i as int));
                &&& table.spec_stmts() == f.0
                &&& table.spec_issues() == f.1
                &&& forall|k: BodyKey| #[trigger] table.spec_local_types().contains_key(k) == f.2.contains_key(k)
                &&& forall|k: BodyKey| table.spec_local_types().contains_key(k) ==> entries_map((#[trigger] table.spec_local_types()[k])@) == f.2[k]
                &&& forall|k: BodyKey| #[trigger] table.spec_hir_locals().contains_key(k) == f.3.contains_key(k)
                &&& forall|k: BodyKey| table.spec_hir_locals().contains_key(k) ==> entries_map((#[trigger] table.spec_hir_locals()[k])@)
                    == Map::new(|l: LocalId| f.3[k].contains(l), |l: LocalId| l)
            }),
        decreases bodies@.len() - i,
    {
        proof {
            assert(bodies@.subrange(0, i as int + 1).drop_last() =~= bodies@.subrange(0, i as int));
        }
        check_body_statements(hir_input, body_envs, expr_types, &bodies[i], &mut table);
        i = i + 1;
    }
    proof {
        assert(bodies@.subrange(0, bodies@.len() as int) =~= bodies@);
    }
    table
}

} // verus!
