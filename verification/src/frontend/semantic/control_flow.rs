//! Control-flow checking of bodies: that every body produces, through its
//! tail expression and its return statements, the type its signature
//! expects, and that `if` expressions have compatible branches.

use crate::collections::sorted_map::{entries_contain, entries_lookup, entries_map, entries_sorted};
use crate::collections::{MapKey, SortedMap};
use crate::frontend::ast::Span;
use crate::frontend::hir::{HirBody, HirBodyId, HirModule, HirStmtId};
use crate::frontend::resolver::{BodyKey, DeclarationOwner};
use crate::frontend::semantic::body_env::{flatten_envs, BodyTypeEnvironment, BodyTypeEnvironmentTable};
use crate::frontend::semantic::hir_input::SemanticHirInput;
use crate::frontend::semantic::types::{BuiltinType, Type};
use crate::midend::type_check::expr_check::{check_expression_types, plain_expr_check, ExprCheckIssue, ExprCheckIssueKind, ExpressionTypeTable};
use crate::frontend::semantic::item_table::TypedItemTable;
use crate::frontend::resolver::ResolvedBodyTable;
use crate::midend::type_check::stmt_check::{check_statements_with_expression_types, stmt_table_matches, BodyStmtId, StatementKind, StatementTypeEntry, StatementTypeTable};
use vstd::prelude::*;

verus! {

/// A checked body: its owner, position and HIR body.
#[derive(Debug, Clone, Copy, PartialEq, Eq, Structural)]
pub struct BodyControlFlowId {
    pub owner: DeclarationOwner,
    pub body_index: usize,
    pub hir_body_id: HirBodyId,
}

impl MapKey for BodyControlFlowId {
    /// By owner, then body index, then HIR body.
    open spec fn key_lt(self, other: Self) -> bool {
        ||| self.owner.key_lt(other.owner)
        ||| (self.owner == other.owner && self.body_index < other.body_index)
        ||| (self.owner == other.owner && self.body_index == other.body_index && self.hir_body_id.0 < other.hir_body_id.0)
    }

    proof fn lemma_key_lt_irreflexive(a: Self) {
        DeclarationOwner::lemma_key_lt_irreflexive(a.owner);
    }

    proof fn lemma_key_lt_transitive(a: Self, b: Self, c: Self) {
        if a.owner.key_lt(b.owner) && b.owner.key_lt(c.owner) {
            DeclarationOwner::lemma_key_lt_transitive(a.owner, b.owner, c.owner);
        }
    }

    proof fn lemma_key_lt_total(a: Self, b: Self) {
        DeclarationOwner::lemma_key_lt_total(a.owner, b.owner);
    }

    fn less_than(&self, other: &Self) -> (r: bool) {
        if self.owner.less_than(&other.owner) {
            true
        } else if !self.owner.same_key(&other.owner) {
            false
        } else {
            self.body_index < other.body_index || (self.body_index == other.body_index && self.hir_body_id.0 < other.hir_body_id.0)
        }
    }

    fn same_key(&self, other: &Self) -> (r: bool) {
        self.owner.same_key(&other.owner) && self.body_index == other.body_index && self.hir_body_id.0 == other.hir_body_id.0
    }

    fn copy_key(&self) -> (r: Self) {
        *self
    }
}

/// The outcome of checking one body.
#[derive(Debug, PartialEq, Eq)]
pub struct BodyControlFlowResult {
    pub id: BodyControlFlowId,
    pub expected_return_type: Type,
    pub block_result_type: Type,
    pub has_tail_expression: bool,
    pub return_count: usize,
    pub is_compatible: bool,
}

/// What went wrong in a body's control flow.
#[derive(Debug, PartialEq, Eq)]
pub enum ControlFlowIssueKind {
    MissingBodyAst,
    MissingBodyEnvironment,
    MissingBlockResultType,
    MissingReturnValue { expected: Type },
    UnexpectedReturnValue { found: Type },
    ReturnTypeMismatch { expected: Type, found: Type },
    MissingTailExpression { expected: Type },
    TailTypeMismatch { expected: Type, found: Type },
    UnexpectedTailValue { found: Type },
    IfBranchTypeMismatch { then_type: Type, else_type: Type },
    MissingElseBranch,
}

/// An issue found in a body's control flow.
#[derive(Debug, PartialEq, Eq)]
pub struct ControlFlowIssue {
    pub owner: DeclarationOwner,
    pub body_index: usize,
    pub span: Span,
    pub kind: ControlFlowIssueKind,
}

/// A value of type `found` may stand where `expected` is expected: the
/// types are equal, either is the error type, or `found` is `never`.
pub open spec fn type_compatible(expected: Type, found: Type) -> bool {
    ||| expected == found
    ||| expected is Error
    ||| found is Error
    ||| found == Type::Builtin(BuiltinType::Never)
}

/// Whether a value of type `found` may stand where `expected` is expected.
pub fn is_type_compatible(expected: &Type, found: &Type) -> (r: bool)
    ensures
        r == type_compatible(*expected, *found),
{
    *expected == *found || expected.is_error() || found.is_error() || *found == Type::builtin(BuiltinType::Never)
}

/// The issue at `span` of body `body_index` of `owner`.
pub open spec fn flow_issue(owner: DeclarationOwner, body_index: usize, span: Span, kind: ControlFlowIssueKind) -> ControlFlowIssue {
    ControlFlowIssue { owner, body_index, span, kind }
}

/// Checking one return statement against the expected type: whether it
/// passes, and the issue when it does not. In a `void` body a return value
/// of a type other than `void` must be compatible with `void`; otherwise a
/// value must be returned, of a compatible type.
pub open spec fn return_check(owner: DeclarationOwner, body_index: usize, entry: StatementTypeEntry, expected: Type) -> (bool, Seq<ControlFlowIssue>) {
    let found = entry.ty;
    let void = Type::Builtin(BuiltinType::Void);
    if expected == void {
        if found != void && !type_compatible(expected, found) {
            (false, seq![flow_issue(owner, body_index, entry.span, ControlFlowIssueKind::UnexpectedReturnValue { found })])
        } else {
            (true, seq![])
        }
    } else if found == void {
        (false, seq![flow_issue(owner, body_index, entry.span, ControlFlowIssueKind::MissingReturnValue { expected })])
    } else if !type_compatible(expected, found) {
        (false, seq![flow_issue(owner, body_index, entry.span, ControlFlowIssueKind::ReturnTypeMismatch { expected, found })])
    } else {
        (true, seq![])
    }
}

/// The return statements among `stmts`, by their checked entries: how many
/// there are, whether all pass, and the issues, in order. Statements
/// without an entry are skipped.
pub open spec fn returns_check(
    owner: DeclarationOwner,
    body_index: usize,
    stmts: Seq<HirStmtId>,
    entries: Map<BodyStmtId, StatementTypeEntry>,
    expected: Type,
) -> (nat, bool, Seq<ControlFlowIssue>)
    decreases stmts.len(),
{
    if stmts.len() == 0 {
        (0, true, seq![])
    } else {
        let prev = returns_check(owner, body_index, stmts.drop_last(), entries, expected);
        let id = BodyStmtId { owner, body_index, hir_stmt_id: stmts.last() };
        if entries.contains_key(id) && entries[id].kind == StatementKind::Return {
            let c = return_check(owner, body_index, entries[id], expected);
            (prev.0 + 1, prev.1 && c.0, prev.2 + c.1)
        } else {
            prev
        }
    }
}

/// Checking the tail of a body: a tail value must be compatible with the
/// expected type (an unexpected value in a `void` body); a non-`void` body
/// without tail must have a return statement.
pub open spec fn tail_check(
    owner: DeclarationOwner,
    body_index: usize,
    has_tail: bool,
    expected: Type,
    block: Type,
    tail_span: Span,
    issue_span: Span,
    return_count: nat,
) -> (bool, Seq<ControlFlowIssue>) {
    let void = Type::Builtin(BuiltinType::Void);
    if has_tail {
        if type_compatible(expected, block) {
            (true, seq![])
        } else if expected == void {
            (false, seq![flow_issue(owner, body_index, tail_span, ControlFlowIssueKind::UnexpectedTailValue { found: block })])
        } else {
            (false, seq![flow_issue(owner, body_index, tail_span, ControlFlowIssueKind::TailTypeMismatch { expected, found: block })])
        }
    } else if expected != void && return_count == 0 {
        (false, seq![flow_issue(owner, body_index, issue_span, ControlFlowIssueKind::MissingTailExpression { expected })])
    } else {
        (true, seq![])
    }
}

/// The `if` issues of the expression check for one body, restated as
/// control-flow issues in order, and whether there is any.
pub open spec fn branch_issues(owner: DeclarationOwner, body_index: usize, issues: Seq<ExprCheckIssue>) -> (bool, Seq<ControlFlowIssue>)
    decreases issues.len(),
{
    if issues.len() == 0 {
        (false, seq![])
    } else {
        let prev = branch_issues(owner, body_index, issues.drop_last());
        let issue = issues.last();
        if issue.owner == owner && issue.body_index == body_index {
            match issue.kind {
                ExprCheckIssueKind::IncompatibleIfBranches { then_type, else_type } => (
                    true,
                    prev.1.push(flow_issue(owner, body_index, issue.span, ControlFlowIssueKind::IfBranchTypeMismatch { then_type, else_type })),
                ),
                ExprCheckIssueKind::MissingElseBranch => (
                    true,
                    prev.1.push(flow_issue(owner, body_index, issue.span, ControlFlowIssueKind::MissingElseBranch)),
                ),
                _ => prev,
            }
        } else {
            prev
        }
    }
}

/// The span of a body's tail expression, or an empty span.
pub open spec fn tail_span_of(module: HirModule, body: HirBody) -> Span {
    match body.tail_expr {
        Some(t) => match module.exprs.spec_get(t) {
            Some(e) => e.origin.span,
            None => Span { start: 0, end: 0 },
        },
        None => Span { start: 0, end: 0 },
    }
}

/// Where a body's issues are reported: its tail expression, else its last
/// statement, else the body itself.
pub open spec fn issue_span_of(module: HirModule, body: HirBody) -> Span {
    let tail = match body.tail_expr {
        Some(t) => match module.exprs.spec_get(t) {
            Some(e) => Some(e.origin.span),
            None => None,
        },
        None => None,
    };
    match tail {
        Some(s) => s,
        None => if body.stmts@.len() > 0 {
            match module.stmts.spec_get(body.stmts@.last()) {
                Some(st) => st.origin.span,
                None => body.origin.span,
            }
        } else {
            body.origin.span
        },
    }
}

/// Checking one body's control flow: its result, or `None` with a
/// missing-body issue when its HIR body cannot be found; and the issues, in
/// order: a missing result type, the return statements', the tail's, the
/// `if` branches'.
pub open spec fn body_flow(
    hir: SemanticHirInput,
    expr_types: ExpressionTypeTable,
    stmt_types: StatementTypeTable,
    env: BodyTypeEnvironment,
) -> (Option<BodyControlFlowResult>, Seq<ControlFlowIssue>) {
    let owner = env.owner;
    let index = env.body_index;
    let missing = (None, seq![flow_issue(owner, index, Span { start: 0, end: 0 }, ControlFlowIssueKind::MissingBodyAst)]);
    let refs = hir.spec_owner_refs(owner);
    if index >= refs.len() {
        missing
    } else {
        let body_ref = refs[index as int];
        match hir.hir_modules.spec_get(body_ref.file_id) {
            None => missing,
            Some(module) => match module.bodies.spec_get(body_ref.body_id) {
                None => missing,
                Some(body) => {
                    let expected = env.expected_return_type;
                    let issue_span = issue_span_of(module, body);
                    let key = BodyKey { owner, body_index: index };
                    let has_root = expr_types.spec_roots().contains_key(key);
                    let block = if has_root {
                        expr_types.spec_roots()[key]
                    } else {
                        Type::Error
                    };
                    let root_issues = if has_root {
                        seq![]
                    } else {
                        seq![flow_issue(owner, index, issue_span, ControlFlowIssueKind::MissingBlockResultType)]
                    };
                    let rets = returns_check(owner, index, body.stmts@, stmt_types.spec_stmts(), expected);
                    let tail = tail_check(owner, index, body.tail_expr is Some, expected, block, tail_span_of(module, body), issue_span, rets.0);
                    let branches = branch_issues(owner, index, expr_types.spec_issues());
                    (
                        Some(BodyControlFlowResult {
                            id: BodyControlFlowId { owner, body_index: index, hir_body_id: body_ref.body_id },
                            expected_return_type: expected,
                            block_result_type: block,
                            has_tail_expression: body.tail_expr is Some,
                            return_count: rets.0 as usize,
                            is_compatible: has_root && rets.1 && tail.0 && !branches.0,
                        }),
                        root_issues + rets.2 + tail.1 + branches.1,
                    )
                },
            },
        }
    }
}

/// The key environments are checked by: owner, then body index.
pub open spec fn env_key(e: BodyTypeEnvironment) -> BodyKey {
    BodyKey { owner: e.owner, body_index: e.body_index }
}

/// Inserts position `p` after every position whose environment's key is not
/// greater than that of `p`'s.
pub open spec fn insert_by_env_key(envs: Seq<BodyTypeEnvironment>, s: Seq<usize>, p: usize) -> Seq<usize>
    decreases s.len(),
{
    if s.len() == 0 {
        seq![p]
    } else if !env_key(envs[p as int]).key_lt(env_key(envs[s.last() as int])) {
        s.push(p)
    } else {
        insert_by_env_key(envs, s.drop_last(), p).push(s.last())
    }
}

/// The positions `0..n` of `envs` stably sorted by key.
pub open spec fn sorted_env_positions(envs: Seq<BodyTypeEnvironment>, n: nat) -> Seq<usize>
    decreases n,
{
    if n == 0 {
        seq![]
    } else {
        insert_by_env_key(envs, sorted_env_positions(envs, (n - 1) as nat), (n - 1) as usize)
    }
}

/// Checking the bodies at the given positions in order: the results by id
/// (a later result with the same id replaces an earlier one) and the issues.
pub open spec fn flow_fold(
    hir: SemanticHirInput,
    expr_types: ExpressionTypeTable,
    stmt_types: StatementTypeTable,
    envs: Seq<BodyTypeEnvironment>,
    order: Seq<usize>,
) -> (Map<BodyControlFlowId, BodyControlFlowResult>, Seq<ControlFlowIssue>)
    decreases order.len(),
{
    if order.len() == 0 {
        (Map::empty(), seq![])
    } else {
        let prev = flow_fold(hir, expr_types, stmt_types, envs, order.drop_last());
        let b = body_flow(hir, expr_types, stmt_types, envs[order.last() as int]);
        (
            match b.0 {
                Some(res) => prev.0.insert(res.id, res),
                None => prev.0,
            },
            prev.1 + b.1,
        )
    }
}

/// The result of the first entry (in id order) with the given owner and position.
pub open spec fn first_flow_result(entries: Seq<(BodyControlFlowId, BodyControlFlowResult)>, owner: DeclarationOwner, body_index: usize) -> Option<BodyControlFlowResult>
    decreases entries.len(),
{
    if entries.len() == 0 {
        None
    } else {
        let e = entries[0];
        if e.0.owner == owner && e.0.body_index == body_index {
            Some(e.1)
        } else {
            first_flow_result(entries.drop_first(), owner, body_index)
        }
    }
}

/// The control-flow result of every checked body, and the issues found.
pub struct ControlFlowTable {
    by_body: SortedMap<BodyControlFlowId, BodyControlFlowResult>,
    pub issues: Vec<ControlFlowIssue>,
}

impl ControlFlowTable {
    /// Results in id order.
    pub closed spec fn spec_entries(&self) -> Seq<(BodyControlFlowId, BodyControlFlowResult)> {
        self.by_body@
    }

    /// The result of each checked body.
    pub open spec fn spec_results(&self) -> Map<BodyControlFlowId, BodyControlFlowResult> {
        entries_map(self.spec_entries())
    }

    /// The issues found, in order.
    pub closed spec fn spec_issues(&self) -> Seq<ControlFlowIssue> {
        self.issues@
    }

    /// The issues found, in order.
    pub fn issues(&self) -> (r: &Vec<ControlFlowIssue>)
        ensures
            r@ == self.spec_issues(),
    {
        &self.issues
    }

    /// The result of a checked body.
    pub fn body(&self, id: &BodyControlFlowId) -> (r: Option<&BodyControlFlowResult>)
        ensures
            match r {
                Some(v) => self.spec_results().contains_key(*id) && self.spec_results()[*id] == *v,
                None => !self.spec_results().contains_key(*id),
            },
    {
        let r = self.by_body.get(id);
        proof {
            if entries_contain(self.spec_entries(), *id) {
                assert(entries_lookup(self.spec_entries(), *id) is Some);
            }
        }
        r
    }

    /// The result of the first checked body (in id order) with the given
    /// owner and position, whatever its HIR body.
    pub fn body_result(&self, owner: &DeclarationOwner, body_index: usize) -> (r: Option<&BodyControlFlowResult>)
        ensures
            match r {
                Some(v) => first_flow_result(self.spec_entries(), *owner, body_index) == Some(*v),
                None => first_flow_result(self.spec_entries(), *owner, body_index) is None,
            },
    {
        let entries = self.by_body.entries();
        let mut i: usize = 0;
        proof {
            assert(entries@.subrange(0, entries@.len() as int) =~= entries@);
        }
        while i < entries.len()
            invariant
                i <= entries@.len(),
                entries@ == self.spec_entries(),
                first_flow_result(entries@, *owner, body_index) == first_flow_result(entries@.subrange(i as int, entries@.len() as int), *owner, body_index),
            decreases entries@.len() - i,
        {
            proof {
                assert(entries@.subrange(i as int, entries@.len() as int).drop_first() =~= entries@.subrange(i as int + 1, entries@.len() as int));
            }
            if entries[i].0.owner == *owner && entries[i].0.body_index == body_index {
                return Some(&entries[i].1);
            }
            i = i + 1;
        }
        None
    }

    /// Every result, in id order.
    pub fn iter(&self) -> (r: &Vec<(BodyControlFlowId, BodyControlFlowResult)>)
        ensures
            r@ == self.spec_entries(),
            entries_sorted(r@),
    {
        self.by_body.entries()
    }

    /// Number of checked bodies.
    pub fn len(&self) -> (n: usize)
        ensures
            n == self.spec_entries().len(),
    {
        self.by_body.len()
    }

    /// True when no body was checked.
    pub fn is_empty(&self) -> (b: bool)
        ensures
            b == (self.spec_entries().len() == 0),
    {
        self.by_body.is_empty()
    }
}

fn tail_span_for_body(module: &HirModule, body: &HirBody) -> (r: Span)
    ensures
        r == tail_span_of(*module, *body),
{
    match body.tail_expr {
        Some(t) => match module.exprs.get(&t) {
            Some(e) => e.origin.span,
            None => Span::new(0, 0),
        },
        None => Span::new(0, 0),
    }
}

fn issue_span_for_body(module: &HirModule, body: &HirBody) -> (r: Span)
    ensures
        r == issue_span_of(*module, *body),
{
    if let Some(t) = body.tail_expr {
        if let Some(e) = module.exprs.get(&t) {
            return e.origin.span;
        }
    }
    if body.stmts.len() > 0 {
        let last = body.stmts[body.stmts.len() - 1];
        match module.stmts.get(&last) {
            Some(st) => st.origin.span,
            None => body.origin.span,
        }
    } else {
        body.origin.span
    }
}

fn check_return_statement(
    owner: &DeclarationOwner,
    body_index: usize,
    entry: &StatementTypeEntry,
    expected: &Type,
    issues: &mut Vec<ControlFlowIssue>,
) -> (ok: bool)
    ensures
        ({
            let c = return_check(*owner, body_index, *entry, *expected);
            &&& ok == c.0
            &&& final(issues)@ == old(issues)@ + c.1
        }),
{
    let found = &entry.ty;
    let void = Type::void();
    if *expected == void {
        if *found != void && !is_type_compatible(expected, found) {
            issues.push(ControlFlowIssue {
                owner: *owner,
                body_index,
                span: entry.span,
                kind: ControlFlowIssueKind::UnexpectedReturnValue { found: found.clone() },
            });
            return false;
        }
        proof {
            assert(issues@ =~= old(issues)@ + seq![]);
        }
        return true;
    }
    if *found == void {
        issues.push(ControlFlowIssue {
            owner: *owner,
            body_index,
            span: entry.span,
            kind: ControlFlowIssueKind::MissingReturnValue { expected: expected.clone() },
        });
        return false;
    }
    if !is_type_compatible(expected, found) {
        issues.push(ControlFlowIssue {
            owner: *owner,
            body_index,
            span: entry.span,
            kind: ControlFlowIssueKind::ReturnTypeMismatch { expected: expected.clone(), found: found.clone() },
        });
        return false;
    }
    proof {
        assert(issues@ =~= old(issues)@ + seq![]);
    }
    true
}

fn check_returns(
    owner: &DeclarationOwner,
    body_index: usize,
    stmts: &Vec<HirStmtId>,
    stmt_types: &StatementTypeTable,
    expected: &Type,
    issues: &mut Vec<ControlFlowIssue>,
) -> (r: (usize, bool))
    ensures
        ({
            let c = returns_check(*owner, body_index, stmts@, stmt_types.spec_stmts(), *expected);
            &&& r.0 == c.0
            &&& r.1 == c.1
            &&& final(issues)@ == old(issues)@ + c.2
        }),
{
    let ghost start = issues@;
    let mut count: usize = 0;
    let mut all_ok = true;
    let mut i: usize = 0;
    proof {
        assert(stmts@.subrange(0, 0) =~= Seq::<HirStmtId>::empty());
        assert(issues@ =~= start + seq![]);
    }
    while i < stmts.len()
        invariant
            i <= stmts@.len(),
            count <= i,
            ({
                let c = returns_check(*owner, body_index, stmts@.subrange(0, i as int), stmt_types.spec_stmts(), *expected);
                &&& count == c.0
                &&& all_ok == c.1
                &&& issues@ == start + c.2
            }),
        decreases stmts@.len() - i,
    {
        proof {
            assert(stmts@.subrange(0, i as int + 1).drop_last() =~= stmts@.subrange(0, i as int));
        }
        let id = BodyStmtId { owner: *owner, body_index, hir_stmt_id: stmts[i] };
        match stmt_types.stmt_entry(&id) {
            Some(entry) => {
                if entry.kind == StatementKind::Return {
                    count = count + 1;
                    let ghost before = issues@;
                    let ok = check_return_statement(owner, body_index, entry, expected, issues);
                    if !ok {
                        all_ok = false;
                    }
                    proof {
                        let c = return_check(*owner, body_index, *entry, *expected);
                        assert(start + returns_check(*owner, body_index, stmts@.subrange(0, i as int), stmt_types.spec_stmts(), *expected).2 + c.1
                            =~= start + (returns_check(*owner, body_index, stmts@.subrange(0, i as int), stmt_types.spec_stmts(), *expected).2 + c.1));
                    }
                }
            },
            None => {},
        }
        i = i + 1;
    }
    proof {
        assert(stmts@.subrange(0, stmts@.len() as int) =~= stmts@);
    }
    (count, all_ok)
}

fn map_branch_issues(owner: &DeclarationOwner, body_index: usize, expr_issues: &Vec<ExprCheckIssue>, issues: &mut Vec<ControlFlowIssue>) -> (any: bool)
    ensures
        ({
            let c = branch_issues(*owner, body_index, expr_issues@);
            &&& any == c.0
            &&& final(issues)@ == old(issues)@ + c.1
        }),
{
    let ghost start = issues@;
    let mut any = false;
    let mut i: usize = 0;
    proof {
        assert(expr_issues@.subrange(0, 0) =~= Seq::<ExprCheckIssue>::empty());
        assert(issues@ =~= start + seq![]);
    }
    while i < expr_issues.len()
        invariant
            i <= expr_issues@.len(),
            ({
                let c = branch_issues(*owner, body_index, expr_issues@.subrange(0, i as int));
                &&& any == c.0
                &&& issues@ == start + c.1
            }),
        decreases expr_issues@.len() - i,
    {
        proof {
            assert(expr_issues@.subrange(0, i as int + 1).drop_last() =~= expr_issues@.subrange(0, i as int));
        }
        let issue = &expr_issues[i];
        if issue.owner == *owner && issue.body_index == body_index {
            match &issue.kind {
                ExprCheckIssueKind::IncompatibleIfBranches { then_type, else_type } => {
                    issues.push(ControlFlowIssue {
                        owner: *owner,
                        body_index,
                        span: issue.span,
                        kind: ControlFlowIssueKind::IfBranchTypeMismatch { then_type: then_type.clone(), else_type: else_type.clone() },
                    });
                    any = true;
                },
                ExprCheckIssueKind::MissingElseBranch => {
                    issues.push(ControlFlowIssue {
                        owner: *owner,
                        body_index,
                        span: issue.span,
                        kind: ControlFlowIssueKind::MissingElseBranch,
                    });
                    any = true;
                },
                _ => {},
            }
        }
        i = i + 1;
    }
    proof {
        assert(expr_issues@.subrange(0, expr_issues@.len() as int) =~= expr_issues@);
    }
    any
}

fn push_missing_body(owner: &DeclarationOwner, body_index: usize, issues: &mut Vec<ControlFlowIssue>)
    ensures
        final(issues)@ == old(issues)@.push(flow_issue(*owner, body_index, Span { start: 0, end: 0 }, ControlFlowIssueKind::MissingBodyAst)),
{
    issues.push(ControlFlowIssue { owner: *owner, body_index, span: Span::new(0, 0), kind: ControlFlowIssueKind::MissingBodyAst });
}

/// Checks one body's control flow (see [`body_flow`]), appending its issues.
fn check_body_flow(
    hir_input: &SemanticHirInput,
    env: &BodyTypeEnvironment,
    expr_types: &ExpressionTypeTable,
    stmt_types: &StatementTypeTable,
    issues: &mut Vec<ControlFlowIssue>,
) -> (r: Option<BodyControlFlowResult>)
    ensures
        ({
            let b = body_flow(*hir_input, *expr_types, *stmt_types, *env);
            &&& r == b.0
            &&& final(issues)@ == old(issues)@ + b.1
        }),
{
    let owner = &env.owner;
    let index = env.body_index;
    let body_ref = match hir_input.body_ref(owner, index) {
        Some(b) => b,
        None => {
            push_missing_body(owner, index, issues);
            return None;
        },
    };
    let module = match hir_input.hir_modules.get(&body_ref.file_id) {
        Some(m) => m,
        None => {
            push_missing_body(owner, index, issues);
            return None;
        },
    };
    let hir_body = match module.bodies.get(&body_ref.body_id) {
        Some(b) => b,
        None => {
            push_missing_body(owner, index, issues);
            return None;
        },
    };
    let ghost start = issues@;
    let expected = env.expected_return_type.clone();
    let issue_span = issue_span_for_body(module, hir_body);
    let tail_span = tail_span_for_body(module, hir_body);
    let has_tail_expression = hir_body.tail_expr.is_some();
    let mut is_compatible = true;
    let block_result_type = match expr_types.root_type(owner, index) {
        Some(t) => t.clone(),
        None => {
            issues.push(ControlFlowIssue { owner: *owner, body_index: index, span: issue_span, kind: ControlFlowIssueKind::MissingBlockResultType });
            is_compatible = false;
            Type::error()
        },
    };
    let ghost after_root = issues@;
    let (return_count, returns_ok) = check_returns(owner, index, &hir_body.stmts, stmt_types, &expected, issues);
    if !returns_ok {
        is_compatible = false;
    }
    let ghost after_returns = issues@;
    let void = Type::void();
    if has_tail_expression {
        if !is_type_compatible(&expected, &block_result_type) {
            if expected == void {
                issues.push(ControlFlowIssue {
                    owner: *owner,
                    body_index: index,
                    span: tail_span,
                    kind: ControlFlowIssueKind::UnexpectedTailValue { found: block_result_type.clone() },
                });
            } else {
                issues.push(ControlFlowIssue {
                    owner: *owner,
                    body_index: index,
                    span: tail_span,
                    kind: ControlFlowIssueKind::TailTypeMismatch { expected: expected.clone(), found: block_result_type.clone() },
                });
            }
            is_compatible = false;
        }
    } else if expected != void && return_count == 0 {
        issues.push(ControlFlowIssue {
            owner: *owner,
            body_index: index,
            span: issue_span,
            kind: ControlFlowIssueKind::MissingTailExpression { expected: expected.clone() },
        });
        is_compatible = false;
    }
    let ghost after_tail = issues@;
    let any_branch = map_branch_issues(owner, index, expr_types.issues(), issues);
    if any_branch {
        is_compatible = false;
    }
    proof {
        let key = BodyKey { owner: *owner, body_index: index };
        let rets = returns_check(*owner, index, hir_body.stmts@, stmt_types.spec_stmts(), expected);
        let tail = tail_check(*owner, index, has_tail_expression, expected, block_result_type, tail_span, issue_span, rets.0);
        let branches = branch_issues(*owner, index, expr_types.spec_issues());
        assert(after_tail == after_returns + tail.1) by {
            if !has_tail_expression && !(expected != void && return_count == 0) {
                assert(after_tail =~= after_returns + seq![]);
            }
            if has_tail_expression && type_compatible(expected, block_result_type) {
                assert(after_tail =~= after_returns + seq![]);
            }
        }
        if expr_types.spec_roots().contains_key(key) {
            assert(after_root =~= start + seq![]);
        }
        let root_issues = if expr_types.spec_roots().contains_key(key) {
            seq![]
        } else {
            seq![flow_issue(*owner, index, issue_span, ControlFlowIssueKind::MissingBlockResultType)]
        };
        assert(after_root == start + root_issues);
        assert(issues@ =~= start + (root_issues + rets.2 + tail.1 + branches.1));
    }
    Some(BodyControlFlowResult {
        id: BodyControlFlowId { owner: *owner, body_index: index, hir_body_id: body_ref.body_id },
        expected_return_type: expected,
        block_result_type,
        has_tail_expression,
        return_count,
        is_compatible,
    })
}

proof fn lemma_insert_env_at(envs: Seq<BodyTypeEnvironment>, s: Seq<usize>, p: usize, j: int)
    requires
        0 <= j <= s.len(),
        j == 0 || !env_key(envs[p as int]).key_lt(env_key(envs[s[j - 1] as int])),
        forall|k: int| j <= k < s.len() ==> env_key(envs[p as int]).key_lt(env_key(envs[#[trigger] s[k] as int])),
    ensures
        insert_by_env_key(envs, s, p) == s.insert(j, p),
    decreases s.len(),
{
    if s.len() == 0 {
        assert(s.insert(j, p) =~= seq![p]);
    } else if j == s.len() {
        assert(s.insert(j, p) =~= s.push(p));
    } else {
        assert(env_key(envs[p as int]).key_lt(env_key(envs[s[s.len() - 1] as int])));
        lemma_insert_env_at(envs, s.drop_last(), p, j);
        assert(s.drop_last().insert(j, p).push(s.last()) =~= s.insert(j, p));
    }
}

fn env_less(a: &BodyTypeEnvironment, b: &BodyTypeEnvironment) -> (r: bool)
    ensures
        r == env_key(*a).key_lt(env_key(*b)),
{
    let ka = BodyKey { owner: a.owner, body_index: a.body_index };
    let kb = BodyKey { owner: b.owner, body_index: b.body_index };
    ka.less_than(&kb)
}

/// The positions of `envs` (given by reference) stably sorted by key.
fn sort_env_positions(envs: &Vec<&BodyTypeEnvironment>, Ghost(spec_envs): Ghost<Seq<BodyTypeEnvironment>>) -> (r: Vec<usize>)
    requires
        envs@.len() == spec_envs.len(),
        forall|k: int| 0 <= k < envs@.len() ==> *(#[trigger] envs@[k]) == spec_envs[k],
    ensures
        r@ == sorted_env_positions(spec_envs, spec_envs.len()),
        forall|k: int| 0 <= k < r@.len() ==> #[trigger] r@[k] < spec_envs.len(),
{
    let mut out: Vec<usize> = Vec::new();
    let mut t: usize = 0;
    while t < envs.len()
        invariant
            t <= envs@.len(),
            envs@.len() == spec_envs.len(),
            forall|k: int| 0 <= k < envs@.len() ==> *(#[trigger] envs@[k]) == spec_envs[k],
            out@ == sorted_env_positions(spec_envs, t as nat),
            forall|k: int| 0 <= k < out@.len() ==> #[trigger] out@[k] < t,
        decreases envs@.len() - t,
    {
        let ghost key = env_key(spec_envs[t as int]);
        let mut j: usize = out.len();
        while j > 0 && env_less(envs[t], envs[out[j - 1]])
            invariant
                j <= out@.len(),
                t < envs@.len(),
                envs@.len() == spec_envs.len(),
                forall|k: int| 0 <= k < envs@.len() ==> *(#[trigger] envs@[k]) == spec_envs[k],
                key == env_key(spec_envs[t as int]),
                forall|k: int| 0 <= k < out@.len() ==> #[trigger] out@[k] < t,
                forall|k: int| j <= k < out@.len() ==> key.key_lt(env_key(spec_envs[#[trigger] out@[k] as int])),
            decreases j,
        {
            j = j - 1;
        }
        proof {
            lemma_insert_env_at(spec_envs, out@, t, j as int);
        }
        let ghost out0 = out@;
        out.insert(j, t);
        proof {
            assert forall|k: int| 0 <= k < out@.len() implies #[trigger] out@[k] < t + 1 by {
                if k < j {
                    assert(out@[k] == out0[k]);
                } else if k > j {
                    assert(out@[k] == out0[k - 1]);
                }
            }
        }
        t = t + 1;
    }
    out
}

/// Whether `r` holds the control-flow check of every environment's body
/// from the given expression and statement tables.
pub open spec fn flow_table_matches(r: ControlFlowTable, hir: SemanticHirInput, envs: BodyTypeEnvironmentTable, expr_types: ExpressionTypeTable, stmt_types: StatementTypeTable) -> bool {
    let flat = flatten_envs(envs.spec_envs());
    let f = flow_fold(hir, expr_types, stmt_types, flat, sorted_env_positions(flat, flat.len()));
    &&& r.spec_results() == f.0
    &&& r.spec_issues() == f.1
}

/// Checks the expressions (without imports or external roots), then the
/// statements, then the control flow of every body.
pub fn check_control_flow(
    hir_input: &SemanticHirInput,
    typed_items: &TypedItemTable,
    resolved_bodies: &ResolvedBodyTable,
    body_envs: &BodyTypeEnvironmentTable,
) -> (r: ControlFlowTable)
    ensures
        exists|et: ExpressionTypeTable, st: StatementTypeTable|
            plain_expr_check(et, *hir_input, *typed_items, *body_envs, resolved_bodies.bodies@)
            && stmt_table_matches(st, *hir_input, *body_envs, et, resolved_bodies.bodies@)
            && flow_table_matches(r, *hir_input, *body_envs, et, st),
{
    let expr_types = check_expression_types(hir_input, typed_items, resolved_bodies, body_envs);
    let stmt_types = check_statements_with_expression_types(hir_input, resolved_bodies, body_envs, &expr_types);
    check_control_flow_with_tables(hir_input, body_envs, &expr_types, &stmt_types)
}

/// Checks the control flow of every body with an environment, in order of
/// owner and body index (see [`body_flow`]), from the expression and
/// statement tables already built for them.
pub fn check_control_flow_with_tables(
    hir_input: &SemanticHirInput,
    body_envs: &BodyTypeEnvironmentTable,
    expr_types: &ExpressionTypeTable,
    stmt_types: &StatementTypeTable,
) -> (r: ControlFlowTable)
    ensures
        flow_table_matches(r, *hir_input, *body_envs, *expr_types, *stmt_types),
{
    let envs = body_envs.iter();
    let ghost spec_envs = flatten_envs(body_envs.spec_envs());
    let order = sort_env_positions(&envs, Ghost(spec_envs));
    let ghost full = sorted_env_positions(spec_envs, spec_envs.len());
    let mut by_body: SortedMap<BodyControlFlowId, BodyControlFlowResult> = SortedMap::new();
    let mut issues: Vec<ControlFlowIssue> = Vec::new();
    let mut k: usize = 0;
    proof {
        assert(order@.subrange(0, 0) =~= Seq::<usize>::empty());
        assert(entries_map(by_body@) =~= Map::<BodyControlFlowId, BodyControlFlowResult>::empty());
    }
    while k < order.len()
        invariant
            k <= order@.len(),
            order@ == full,
            envs@.len() == spec_envs.len(),
            forall|m: int| 0 <= m < envs@.len() ==> *(#[trigger] envs@[m]) == spec_envs[m],
            forall|m: int| 0 <= m < order@.len() ==> #[trigger] order@[m] < spec_envs.len(),
            ({
                let f = flow_fold(*hir_input, *expr_types, *stmt_types, spec_envs, order@.subrange(0, k as int));
                &&& entries_map(by_body@) == f.0
                &&& issues@ == f.1
            }),
        decreases order@.len() - k,
    {
        proof {
            assert(order@.subrange(0, k as int + 1).drop_last() =~= order@.subrange(0, k as int));
        }
        let p = order[k];
        let env = envs[p];
        match check_body_flow(hir_input, env, expr_types, stmt_types, &mut issues) {
            Some(result) => {
                let id = result.id;
                by_body.insert(id, result);
            },
            None => {},
        }
        k = k + 1;
    }
    proof {
        assert(order@.subrange(0, order@.len() as int) =~= order@);
    }
    ControlFlowTable { by_body, issues }
}

} // verus!
