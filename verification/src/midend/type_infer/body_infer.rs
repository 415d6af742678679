//! Body type inference: walks each body's HIR giving every expression and
//! local an inference type, picks call targets among candidate signatures,
//! and finalizes what it found into semantic types.

use super::constraints::{InferenceConstraint, InferenceIssue, InferenceIssueKind};
use super::context::{finalize_roots, rebound, unify_binding, unify_issues, unify_result, InferenceContext};
use super::defaults::{InferenceDefaults, LiteralDefaultKind};
use super::ids::TypeVarId;
use super::signature_env::inference_type_of;
use super::types::{concrete_of, semantic_of, ConcreteType, InferenceType};
use crate::collections::sorted_map::{entries_contain, entries_lookup, entries_map, entries_sorted, lemma_entries_map_step, lemma_lookup_at};
use crate::collections::{MapKey, SortedMap};
use crate::frontend::ast::Span;
use crate::frontend::hir::{walk_fuel, HirArrayElement, HirBinaryOp, HirBodyId, HirCallArg, HirExpr, HirExprId, HirExprKind, HirLiteral, HirMatchArm, HirModule, HirPatId, HirPatKind, HirStmtId, HirStmtKind, HirStructExprField, HirUnaryOp};
use crate::frontend::resolver::{LocalKind, ResolvedBody, ResolvedBodyTable, ResolvedLocal, first_pat_binding, AssociatedMemberKind, BodyKey, DeclarationOwner, HirExprRef, HirItemRef, HirPathResolution, ItemId, LocalId};
use crate::frontend::semantic::item_table::{TypedItemData, TypedItemTable};
use crate::frontend::semantic::body_env::{env_for, find_env_with_index, BodyTypeEnvironment, BodyTypeEnvironmentTable};
use crate::frontend::semantic::types::{BuiltinType, NamedTypeKind, Type};
use crate::frontend::text::{clone_strings, decimal, push_decimal, str_eq, string_views};
use crate::midend::type_check::expr_check::{arm_ids, call_arg_ids, element_expr, element_ids, field_expr, field_ids, BodyExprId};
use crate::midend::type_check::signatures::{TypedEnumCaseSignature, TypedFunctionSignature, TypedImplSignature, TypedNamedFunctionSignature, TypedParamLabel};
use crate::frontend::semantic::hir_input::{SemanticBodyRef, SemanticHirInput};
use crate::frontend::source::FileId;
use vstd::prelude::*;
use vstd::string::StringExecFns;

verus! {

/// What went wrong while inferring a body.
#[derive(Debug)]
pub enum BodyInferIssueKind {
    MissingBodyAst,
    MissingBodyEnvironment,
    MissingResolvedPath { expr_id: HirExprId },
    MissingElseBranch,
    InvalidCallTarget,
    NoMatchingCallCandidate { candidate_count: usize },
    AmbiguousCallCandidate { candidate_count: usize },
    MissingLocalBinding { pat_id: HirPatId },
    RequiresExplicitLocalTypeAnnotation { hir_local_id: LocalId, resolved_local_id: Option<LocalId> },
    /// Several enums have a case with this name.
    AmbiguousEnumCase { case_name: String, candidates: Vec<(ItemId, String)> },
    /// No enum has a case with this name.
    MissingEnumCase { case_name: String, available_enums: Vec<String> },
    CoreInferenceIssue { kind: InferenceIssueKind },
}

/// An inference issue of one body.
#[derive(Debug)]
pub struct BodyInferIssue {
    pub owner: DeclarationOwner,
    pub body_index: usize,
    pub span: Span,
    pub kind: BodyInferIssueKind,
}

/// The target a call was resolved to.
#[derive(Debug)]
pub enum InferredCallTarget {
    Function { path: Vec<String> },
    AssociatedMember { type_item_id: Option<ItemId>, member_name: String, member_kind: AssociatedMemberKind },
    Method { receiver_item_id: Option<ItemId>, method_name: String },
    EnumCase { enum_item_id: ItemId, case_name: String },
}

/// An issue kind with its strings as character sequences.
pub enum BodyInferIssueKindView {
    MissingBodyAst,
    MissingBodyEnvironment,
    MissingResolvedPath { expr_id: HirExprId },
    MissingElseBranch,
    InvalidCallTarget,
    NoMatchingCallCandidate { candidate_count: usize },
    AmbiguousCallCandidate { candidate_count: usize },
    MissingLocalBinding { pat_id: HirPatId },
    RequiresExplicitLocalTypeAnnotation { hir_local_id: LocalId, resolved_local_id: Option<LocalId> },
    AmbiguousEnumCase { case_name: Seq<char>, candidates: Seq<(ItemId, Seq<char>)> },
    MissingEnumCase { case_name: Seq<char>, available_enums: Seq<Seq<char>> },
    CoreInferenceIssue { kind: InferenceIssueKind },
}

/// An issue with its strings as character sequences.
pub struct BodyInferIssueView {
    pub owner: DeclarationOwner,
    pub body_index: usize,
    pub span: Span,
    pub kind: BodyInferIssueKindView,
}

/// A call target with its strings as character sequences.
pub enum CallTargetView {
    Function { path: Seq<Seq<char>> },
    AssociatedMember { type_item_id: Option<ItemId>, member_name: Seq<char>, member_kind: AssociatedMemberKind },
    Method { receiver_item_id: Option<ItemId>, method_name: Seq<char> },
    EnumCase { enum_item_id: ItemId, case_name: Seq<char> },
}

/// Pairs of an item id and a name, with the names as character sequences.
pub open spec fn named_ids_view(s: Seq<(ItemId, String)>) -> Seq<(ItemId, Seq<char>)> {
    s.map_values(|p: (ItemId, String)| (p.0, p.1@))
}

impl View for BodyInferIssueKind {
    type V = BodyInferIssueKindView;

    open spec fn view(&self) -> BodyInferIssueKindView {
        match self {
            BodyInferIssueKind::MissingBodyAst => BodyInferIssueKindView::MissingBodyAst,
            BodyInferIssueKind::MissingBodyEnvironment => BodyInferIssueKindView::MissingBodyEnvironment,
            BodyInferIssueKind::MissingResolvedPath { expr_id } => BodyInferIssueKindView::MissingResolvedPath { expr_id: *expr_id },
            BodyInferIssueKind::MissingElseBranch => BodyInferIssueKindView::MissingElseBranch,
            BodyInferIssueKind::InvalidCallTarget => BodyInferIssueKindView::InvalidCallTarget,
            BodyInferIssueKind::NoMatchingCallCandidate { candidate_count } => BodyInferIssueKindView::NoMatchingCallCandidate { candidate_count: *candidate_count },
            BodyInferIssueKind::AmbiguousCallCandidate { candidate_count } => BodyInferIssueKindView::AmbiguousCallCandidate { candidate_count: *candidate_count },
            BodyInferIssueKind::MissingLocalBinding { pat_id } => BodyInferIssueKindView::MissingLocalBinding { pat_id: *pat_id },
            BodyInferIssueKind::RequiresExplicitLocalTypeAnnotation { hir_local_id, resolved_local_id } => BodyInferIssueKindView::RequiresExplicitLocalTypeAnnotation {
                hir_local_id: *hir_local_id,
                resolved_local_id: *resolved_local_id,
            },
            BodyInferIssueKind::AmbiguousEnumCase { case_name, candidates } => BodyInferIssueKindView::AmbiguousEnumCase {
                case_name: case_name@,
                candidates: named_ids_view(candidates@),
            },
            BodyInferIssueKind::MissingEnumCase { case_name, available_enums } => BodyInferIssueKindView::MissingEnumCase {
                case_name: case_name@,
                available_enums: string_views(available_enums@),
            },
            BodyInferIssueKind::CoreInferenceIssue { kind } => BodyInferIssueKindView::CoreInferenceIssue { kind: *kind },
        }
    }
}

impl View for BodyInferIssue {
    type V = BodyInferIssueView;

    open spec fn view(&self) -> BodyInferIssueView {
        BodyInferIssueView { owner: self.owner, body_index: self.body_index, span: self.span, kind: self.kind@ }
    }
}

impl View for InferredCallTarget {
    type V = CallTargetView;

    open spec fn view(&self) -> CallTargetView {
        match self {
            InferredCallTarget::Function { path } => CallTargetView::Function { path: string_views(path@) },
            InferredCallTarget::AssociatedMember { type_item_id, member_name, member_kind } => CallTargetView::AssociatedMember {
                type_item_id: *type_item_id,
                member_name: member_name@,
                member_kind: *member_kind,
            },
            InferredCallTarget::Method { receiver_item_id, method_name } => CallTargetView::Method {
                receiver_item_id: *receiver_item_id,
                method_name: method_name@,
            },
            InferredCallTarget::EnumCase { enum_item_id, case_name } => CallTargetView::EnumCase {
                enum_item_id: *enum_item_id,
                case_name: case_name@,
            },
        }
    }
}

/// The views of a sequence of issues.
pub open spec fn infer_issue_views(s: Seq<BodyInferIssue>) -> Seq<BodyInferIssueView> {
    s.map_values(|i: BodyInferIssue| i@)
}

impl InferredCallTarget {
    /// A copy of this target.
    pub fn duplicate(&self) -> (r: Self)
        ensures
            r@ == self@,
    {
        match self {
            InferredCallTarget::Function { path } => InferredCallTarget::Function { path: clone_strings(path) },
            InferredCallTarget::AssociatedMember { type_item_id, member_name, member_kind } => InferredCallTarget::AssociatedMember {
                type_item_id: *type_item_id,
                member_name: member_name.clone(),
                member_kind: *member_kind,
            },
            InferredCallTarget::Method { receiver_item_id, method_name } => InferredCallTarget::Method {
                receiver_item_id: *receiver_item_id,
                method_name: method_name.clone(),
            },
            InferredCallTarget::EnumCase { enum_item_id, case_name } => InferredCallTarget::EnumCase {
                enum_item_id: *enum_item_id,
                case_name: case_name.clone(),
            },
        }
    }
}

// ---------------------------------------------------------------------------
// The inference context as a mathematical state.

/// What an inference context holds, as mathematical values: what each
/// variable resolves to, the next variable, the literal hints, the issues,
/// the constraints and the literal defaults.
#[verifier::ext_equal]
pub struct CtxModel {
    pub roots: spec_fn(TypeVarId) -> InferenceType,
    pub next: u32,
    pub hints: Seq<(TypeVarId, LiteralDefaultKind)>,
    pub issues: Seq<InferenceIssue>,
    pub constraints: Seq<InferenceConstraint>,
    pub defaults: InferenceDefaults,
}

/// The model of an inference context.
pub open spec fn ctx_model(c: InferenceContext) -> CtxModel {
    CtxModel {
        roots: c.spec_roots(),
        next: c.spec_next_var(),
        hints: c.spec_hints(),
        issues: c.spec_issues(),
        constraints: c.spec_constraints(),
        defaults: c.spec_defaults(),
    }
}

/// Every hinted variable was handed out before the next one (the counter
/// saturates at `u32::MAX`).
pub open spec fn hints_below(m: CtxModel) -> bool {
    forall|i: int| 0 <= i < m.hints.len() ==> #[trigger] m.hints[i].0.0 < m.next || m.next == u32::MAX
}

/// What `t` resolves to under `roots`.
pub open spec fn res_in(roots: spec_fn(TypeVarId) -> InferenceType, t: InferenceType) -> InferenceType {
    match t {
        InferenceType::Var(v) => roots(v),
        _ => t,
    }
}

/// Resolution after unifying `l` with `r`.
pub open spec fn unify_roots(roots: spec_fn(TypeVarId) -> InferenceType, l: InferenceType, r: InferenceType) -> spec_fn(TypeVarId) -> InferenceType {
    match unify_binding(res_in(roots, l), res_in(roots, r)) {
        Some((v, t)) => |u: TypeVarId| rebound(roots(u), v, t),
        None => roots,
    }
}

/// The counter after handing out a variable.
pub open spec fn next_after(n: u32) -> u32 {
    if n == u32::MAX {
        u32::MAX
    } else {
        (n + 1) as u32
    }
}

/// The model after handing out variable `TypeVarId(m.next)`.
pub open spec fn m_fresh(m: CtxModel) -> CtxModel {
    CtxModel { next: next_after(m.next), ..m }
}

/// The model after hinting variable `v` as a literal of kind `k` (a variable
/// keeps its first hint).
pub open spec fn m_mark(m: CtxModel, v: TypeVarId, k: LiteralDefaultKind) -> CtxModel {
    if entries_contain(m.hints, v) {
        m
    } else {
        CtxModel { hints: m.hints.push((v, k)), ..m }
    }
}

/// Recording and solving `l == r`: the unification's result and the model
/// after.
pub open spec fn m_constrain(m: CtxModel, l: InferenceType, r: InferenceType) -> (InferenceType, CtxModel) {
    let rl = res_in(m.roots, l);
    let rr = res_in(m.roots, r);
    (
        unify_result(rl, rr),
        CtxModel {
            roots: unify_roots(m.roots, l, r),
            issues: m.issues + unify_issues(rl, rr),
            constraints: m.constraints.push(InferenceConstraint::Equal(l, r)),
            ..m
        },
    )
}

/// The model after literal defaulting.
pub open spec fn m_finalize(m: CtxModel) -> CtxModel {
    CtxModel { roots: finalize_roots(m.roots, m.hints, m.defaults), ..m }
}

/// Whether `l` and `r` can be made equal in a scratch copy whose resolution
/// is `roots` (an error type on either side counts as compatible), and the
/// scratch resolution after trying.
pub open spec fn probe_compat(roots: spec_fn(TypeVarId) -> InferenceType, l: InferenceType, r: InferenceType) -> (bool, spec_fn(TypeVarId) -> InferenceType) {
    if res_in(roots, l) is Error || res_in(roots, r) is Error {
        (true, roots)
    } else {
        (!(unify_result(res_in(roots, l), res_in(roots, r)) is Error), unify_roots(roots, l, r))
    }
}

/// The semantic type a resolved inference type finalizes to: a known type's
/// semantic form, the error type otherwise.
pub open spec fn finalize_ty(roots: spec_fn(TypeVarId) -> InferenceType, t: InferenceType) -> Type {
    match res_in(roots, t) {
        InferenceType::Known(k) => match semantic_of(k) {
            Some(s) => s,
            None => Type::Error,
        },
        _ => Type::Error,
    }
}

/// A builtin as an inference type.
pub open spec fn bi(b: BuiltinType) -> InferenceType {
    InferenceType::Known(ConcreteType::Builtin(b))
}

fn ctx_fresh(ctx: &mut InferenceContext) -> (v: TypeVarId)
    requires
        old(ctx).wf(),
        hints_below(ctx_model(*old(ctx))),
    ensures
        final(ctx).wf(),
        hints_below(ctx_model(*final(ctx))),
        v == TypeVarId(ctx_model(*old(ctx)).next),
        ctx_model(*final(ctx)) == m_fresh(ctx_model(*old(ctx))),
{
    let v = ctx.fresh_type_var();
    proof {
        assert(ctx_model(*ctx) =~= m_fresh(ctx_model(*old(ctx))));
    }
    v
}

fn ctx_fresh_type(ctx: &mut InferenceContext) -> (t: InferenceType)
    requires
        old(ctx).wf(),
        hints_below(ctx_model(*old(ctx))),
    ensures
        final(ctx).wf(),
        hints_below(ctx_model(*final(ctx))),
        t == InferenceType::Var(TypeVarId(ctx_model(*old(ctx)).next)),
        ctx_model(*final(ctx)) == m_fresh(ctx_model(*old(ctx))),
{
    InferenceType::Var(ctx_fresh(ctx))
}

fn ctx_literal_var(ctx: &mut InferenceContext, kind: LiteralDefaultKind) -> (t: InferenceType)
    requires
        old(ctx).wf(),
        hints_below(ctx_model(*old(ctx))),
    ensures
        final(ctx).wf(),
        hints_below(ctx_model(*final(ctx))),
        t == InferenceType::Var(TypeVarId(ctx_model(*old(ctx)).next)),
        ctx_model(*final(ctx)) == m_mark(m_fresh(ctx_model(*old(ctx))), TypeVarId(ctx_model(*old(ctx)).next), kind),
{
    let v = ctx_fresh(ctx);
    let ghost m1 = ctx_model(*ctx);
    proof {
        assert forall|i: int| 0 <= i < m1.hints.len() implies #[trigger] m1.hints[i].0.0 < v.0 || m1.hints[i].0 == v by {
        }
    }
    match kind {
        LiteralDefaultKind::Integer => ctx.mark_integer_literal_var(v),
        LiteralDefaultKind::Float => ctx.mark_float_literal_var(v),
    }
    proof {
        let m2 = ctx_model(*ctx);
        if entries_contain(m1.hints, v) {
            assert(m2 =~= m_mark(m1, v, kind));
        } else {
            assert forall|i: int| 0 <= i < m1.hints.len() implies #[trigger] m1.hints[i].0.0 < v.0 by {
                if m1.hints[i].0 == v {
                    assert(entries_contain(m1.hints, v));
                }
            }
            assert(m2 =~= m_mark(m1, v, kind));
        }
        assert forall|i: int| 0 <= i < m2.hints.len() implies #[trigger] m2.hints[i].0.0 < m2.next || m2.next == u32::MAX by {
            if i < m1.hints.len() {
                assert(m2.hints[i] == m1.hints[i]);
            }
        }
    }
    InferenceType::Var(v)
}

fn ctx_constrain(ctx: &mut InferenceContext, l: InferenceType, r: InferenceType) -> (t: InferenceType)
    requires
        old(ctx).wf(),
        hints_below(ctx_model(*old(ctx))),
    ensures
        final(ctx).wf(),
        hints_below(ctx_model(*final(ctx))),
        (t, ctx_model(*final(ctx))) == m_constrain(ctx_model(*old(ctx)), l, r),
{
    let ghost m0 = ctx_model(*ctx);
    let t = ctx.constrain_equal(l, r);
    proof {
        let m1 = ctx_model(*ctx);
        assert(res_in(m0.roots, l) == old(ctx).spec_resolve(l));
        assert(res_in(m0.roots, r) == old(ctx).spec_resolve(r));
        match unify_binding(res_in(m0.roots, l), res_in(m0.roots, r)) {
            Some((v, tt)) => {
                assert forall|u: TypeVarId| #[trigger] (m1.roots)(u) == (unify_roots(m0.roots, l, r))(u) by {
                    assert(ctx.spec_root(u) == rebound(old(ctx).spec_root(u), v, tt));
                }
            },
            None => {
            },
        }
        assert(m1.roots =~= unify_roots(m0.roots, l, r));
        assert(m1 =~= m_constrain(m0, l, r).1);
    }
    t
}

fn ctx_resolve(ctx: &mut InferenceContext, t: InferenceType) -> (r: InferenceType)
    requires
        old(ctx).wf(),
        hints_below(ctx_model(*old(ctx))),
    ensures
        final(ctx).wf(),
        hints_below(ctx_model(*final(ctx))),
        r == res_in(ctx_model(*old(ctx)).roots, t),
        ctx_model(*final(ctx)) == ctx_model(*old(ctx)),
{
    let r = ctx.resolve(t);
    proof {
        assert(ctx_model(*ctx) =~= ctx_model(*old(ctx)));
    }
    r
}

fn ctx_finalize(ctx: &mut InferenceContext)
    requires
        old(ctx).wf(),
        hints_below(ctx_model(*old(ctx))),
    ensures
        final(ctx).wf(),
        hints_below(ctx_model(*final(ctx))),
        ctx_model(*final(ctx)) == m_finalize(ctx_model(*old(ctx))),
{
    ctx.finalize();
    proof {
        let m0 = ctx_model(*old(ctx));
        assert forall|u: TypeVarId| #[trigger] (ctx_model(*ctx).roots)(u) == (finalize_roots(m0.roots, m0.hints, m0.defaults))(u) by {
            assert(ctx.spec_root(u) == (finalize_roots(old(ctx).spec_roots(), old(ctx).spec_hints(), old(ctx).spec_defaults()))(u));
        }
        assert(ctx_model(*ctx).roots =~= finalize_roots(m0.roots, m0.hints, m0.defaults));
        assert(ctx_model(*ctx) =~= m_finalize(m0));
    }
}

/// Tries `l == r` in the scratch context `probe`.
fn probe_compatible(probe: &mut InferenceContext, l: InferenceType, r: InferenceType) -> (b: bool)
    requires
        old(probe).wf(),
    ensures
        final(probe).wf(),
        (b, final(probe).spec_roots()) == probe_compat(old(probe).spec_roots(), l, r),
{
    let ghost roots0 = probe.spec_roots();
    let rl = probe.resolve(l.clone());
    let rr = probe.resolve(r.clone());
    proof {
        assert(probe.spec_roots() == roots0);
        assert(rl == res_in(roots0, l));
        assert(rr == res_in(roots0, r));
    }
    if matches!(rl, InferenceType::Error) || matches!(rr, InferenceType::Error) {
        return true;
    }
    let ghost mid = *probe;
    let t = probe.constrain_equal(l, r);
    proof {
        match unify_binding(res_in(roots0, l), res_in(roots0, r)) {
            Some((v, tt)) => {
                assert forall|u: TypeVarId| #[trigger] (probe.spec_roots())(u) == (unify_roots(roots0, l, r))(u) by {
                    assert(probe.spec_root(u) == rebound(mid.spec_root(u), v, tt));
                    assert(mid.spec_roots()(u) == roots0(u));
                }
            },
            None => {
            },
        }
        assert(probe.spec_roots() =~= unify_roots(roots0, l, r));
    }
    !matches!(t, InferenceType::Error)
}


// ---------------------------------------------------------------------------
// What inference reads and what it has found.

/// What inference of one body reads: the HIR input, the typed items, the
/// body's module, file and HIR body, its owner and index, and the return
/// type it must produce.
pub struct InferCtx {
    pub hir: SemanticHirInput,
    pub items: TypedItemTable,
    pub module: HirModule,
    pub file: FileId,
    pub body: HirBodyId,
    pub owner: DeclarationOwner,
    pub body_index: usize,
    pub ret: InferenceType,
}

/// What inference of one body has found so far: the context's model, the
/// type of each local and of each expression, the chosen call targets and
/// the issues.
pub struct InferState {
    pub m: CtxModel,
    pub locals: Map<LocalId, InferenceType>,
    pub exprs: Map<HirExprId, InferenceType>,
    pub targets: Map<HirExprId, CallTargetView>,
    pub issues: Seq<BodyInferIssueView>,
}

/// The span `0..0`, used where no better place is known.
pub open spec fn zero_span() -> Span {
    Span { start: 0, end: 0 }
}

/// `st` with an issue of the inferred body at `span`.
pub open spec fn with_issue(ic: InferCtx, st: InferState, span: Span, kind: BodyInferIssueKindView) -> InferState {
    InferState {
        issues: st.issues.push(BodyInferIssueView { owner: ic.owner, body_index: ic.body_index, span, kind }),
        ..st
    }
}

/// Solving `l == r` in `st`.
pub open spec fn s_constrain(st: InferState, l: InferenceType, r: InferenceType) -> (InferenceType, InferState) {
    let (t, m) = m_constrain(st.m, l, r);
    (t, InferState { m, ..st })
}

/// A fresh variable in `st`.
pub open spec fn s_fresh(st: InferState) -> (InferenceType, InferState) {
    (InferenceType::Var(TypeVarId(st.m.next)), InferState { m: m_fresh(st.m), ..st })
}

/// Whether `t` resolves to `never` in `st`.
pub open spec fn is_never(st: InferState, t: InferenceType) -> bool {
    res_in(st.m.roots, t) == bi(BuiltinType::Never)
}

/// Meeting an expected type: `never` on either side is left alone,
/// otherwise the two are unified.
pub open spec fn s_expected(st: InferState, actual: InferenceType, expected: InferenceType) -> (InferenceType, InferState) {
    if is_never(st, actual) || is_never(st, expected) {
        (actual, st)
    } else {
        s_constrain(st, actual, expected)
    }
}

/// The type of an `if` from its branches: a `never` branch gives way to the
/// other, otherwise the two are unified.
pub open spec fn s_merge(st: InferState, a: InferenceType, b: InferenceType) -> (InferenceType, InferState) {
    if is_never(st, a) {
        (b, st)
    } else if is_never(st, b) {
        (a, st)
    } else {
        s_constrain(st, a, b)
    }
}

/// A literal's type: a builtin, or a fresh variable hinted as an integer or
/// float literal.
pub open spec fn s_literal(st: InferState, l: HirLiteral) -> (InferenceType, InferState) {
    match l {
        HirLiteral::Boolean => (bi(BuiltinType::Bool), st),
        HirLiteral::Char => (bi(BuiltinType::Char), st),
        HirLiteral::String => (bi(BuiltinType::String), st),
        HirLiteral::Integer => {
            let v = TypeVarId(st.m.next);
            (InferenceType::Var(v), InferState { m: m_mark(m_fresh(st.m), v, LiteralDefaultKind::Integer), ..st })
        },
        HirLiteral::Float => {
            let v = TypeVarId(st.m.next);
            (InferenceType::Var(v), InferState { m: m_mark(m_fresh(st.m), v, LiteralDefaultKind::Float), ..st })
        },
    }
}

/// Expression `e` of the inferred module.
pub open spec fn expr_of(ic: InferCtx, e: HirExprId) -> Option<HirExpr> {
    ic.module.exprs.spec_get(e)
}

/// The resolution of path expression `e` of the inferred file.
pub open spec fn resolution(ic: InferCtx, e: HirExprId) -> Option<HirPathResolution> {
    ic.hir.hir_path_table.by_expr_ref.spec_get(HirExprRef { file_id: ic.file, expr_id: e })
}

/// The global item a HIR item reference stands for.
pub open spec fn item_of_ref(ic: InferCtx, r: HirItemRef) -> Option<ItemId> {
    ic.hir.item_id_by_hir_item_ref.spec_get(r)
}

/// The typed data of item `id`.
pub open spec fn item_data(ic: InferCtx, id: ItemId) -> Option<TypedItemData> {
    if ic.items.spec_items().contains_key(id) {
        Some(ic.items.spec_items()[id])
    } else {
        None
    }
}

/// The nominal type of a struct, enum or protocol item.
pub open spec fn nominal_for_item(ic: InferCtx, id: ItemId) -> Option<InferenceType> {
    match item_data(ic, id) {
        Some(TypedItemData::Struct(_)) => Some(InferenceType::Known(ConcreteType::Nominal { item_id: id, kind: NamedTypeKind::Struct })),
        Some(TypedItemData::Enum(_)) => Some(InferenceType::Known(ConcreteType::Nominal { item_id: id, kind: NamedTypeKind::Enum })),
        Some(TypedItemData::Protocol(_)) => Some(InferenceType::Known(ConcreteType::Nominal { item_id: id, kind: NamedTypeKind::Protocol })),
        _ => None,
    }
}

/// The item a type resolves to, when it resolves to a nominal type.
pub open spec fn nominal_id(roots: spec_fn(TypeVarId) -> InferenceType, t: InferenceType) -> Option<ItemId> {
    match res_in(roots, t) {
        InferenceType::Known(ConcreteType::Nominal { item_id, .. }) => Some(item_id),
        _ => None,
    }
}

/// The enum a type resolves to, when it resolves to an enum.
pub open spec fn expected_enum_id(roots: spec_fn(TypeVarId) -> InferenceType, t: InferenceType) -> Option<ItemId> {
    match res_in(roots, t) {
        InferenceType::Known(ConcreteType::Nominal { item_id, kind: NamedTypeKind::Enum }) => Some(item_id),
        _ => None,
    }
}

/// A signature's parameter types for inference.
pub open spec fn sig_params(s: TypedFunctionSignature) -> Seq<InferenceType> {
    s.param_types@.map_values(|t: Type| inference_type_of(t))
}

/// A signature's return type for inference.
pub open spec fn sig_ret(s: TypedFunctionSignature) -> Option<InferenceType> {
    match s.return_type {
        Some(t) => Some(inference_type_of(t)),
        None => None,
    }
}

/// Whether a call argument's label fits a parameter label.
pub open spec fn label_fits(p: TypedParamLabel, a: Option<String>) -> bool {
    match p {
        TypedParamLabel::Explicit(name) => a matches Some(l) && l@ == name@,
        _ => a is None,
    }
}

/// Whether a signature takes the given arguments: as many, labelled as its
/// parameters ask.
pub open spec fn shape_fits(s: TypedFunctionSignature, args: Seq<HirCallArg>) -> bool {
    &&& s.param_types@.len() == args.len()
    &&& forall|i: int| 0 <= i < s.param_labels@.len() && i < args.len() ==> label_fits(#[trigger] s.param_labels@[i], args[i].label)
}

/// The values of call arguments.
pub open spec fn arg_values(args: Seq<HirCallArg>) -> Seq<HirExprId> {
    args.map_values(|a: HirCallArg| a.value)
}

/// The signatures among `ms` named `name`, in order.
pub open spec fn named_methods(ms: Seq<TypedNamedFunctionSignature>, name: Seq<char>) -> Seq<TypedFunctionSignature>
    decreases ms.len(),
{
    if ms.len() == 0 {
        seq![]
    } else {
        let prev = named_methods(ms.drop_last(), name);
        if ms.last().name@ == name {
            prev.push(ms.last().signature)
        } else {
            prev
        }
    }
}

/// The methods declared with an item.
pub open spec fn data_methods(d: TypedItemData) -> Seq<TypedNamedFunctionSignature> {
    match d {
        TypedItemData::Struct(x) => x.method_signatures@,
        TypedItemData::Enum(x) => x.method_signatures@,
        TypedItemData::Protocol(x) => x.method_signatures@,
        TypedItemData::Function(_) => seq![],
    }
}

/// The initializers declared with an item.
pub open spec fn data_inits(d: TypedItemData) -> Seq<TypedFunctionSignature> {
    match d {
        TypedItemData::Struct(x) => x.initializer_signatures@,
        TypedItemData::Enum(x) => x.initializer_signatures@,
        TypedItemData::Protocol(x) => x.initializer_signatures@,
        TypedItemData::Function(_) => seq![],
    }
}

/// The characters of `init`.
pub open spec fn init_name() -> Seq<char> {
    seq!['i', 'n', 'i', 't']
}

/// The members named `name` of the given kind: methods by name, or all
/// initializers when the name is `init`.
pub open spec fn select_members(methods: Seq<TypedNamedFunctionSignature>, inits: Seq<TypedFunctionSignature>, name: Seq<char>, kind: AssociatedMemberKind) -> Seq<TypedFunctionSignature> {
    match kind {
        AssociatedMemberKind::Method => named_methods(methods, name),
        AssociatedMemberKind::Initializer => if name == init_name() {
            inits
        } else {
            seq![]
        },
    }
}

/// The impls attached to item `id`.
pub open spec fn impl_owners(ic: InferCtx, id: ItemId) -> Seq<DeclarationOwner> {
    if ic.items.spec_impl_owners().contains_key(id) {
        ic.items.spec_impl_owners()[id]
    } else {
        seq![]
    }
}

/// The impl signature of `owner`.
pub open spec fn impl_sig(ic: InferCtx, owner: DeclarationOwner) -> Option<TypedImplSignature> {
    if ic.items.spec_impl_signatures().contains_key(owner) {
        Some(ic.items.spec_impl_signatures()[owner])
    } else {
        None
    }
}

/// The members named `name` of the given kind declared in the impls `owners`.
pub open spec fn impl_members(ic: InferCtx, owners: Seq<DeclarationOwner>, name: Seq<char>, kind: AssociatedMemberKind) -> Seq<TypedFunctionSignature>
    decreases owners.len(),
{
    if owners.len() == 0 {
        seq![]
    } else {
        let prev = impl_members(ic, owners.drop_last(), name, kind);
        match impl_sig(ic, owners.last()) {
            Some(im) => prev + select_members(im.method_signatures@, im.initializer_signatures@, name, kind),
            None => prev,
        }
    }
}

/// The associated members named `name` of item `id`: its own, then its impls'.
pub open spec fn associated_sigs(ic: InferCtx, id: ItemId, name: Seq<char>, kind: AssociatedMemberKind) -> Seq<TypedFunctionSignature> {
    let own = match item_data(ic, id) {
        Some(d) => if d is Function {
            seq![]
        } else {
            select_members(data_methods(d), data_inits(d), name, kind)
        },
        None => seq![],
    };
    own + impl_members(ic, impl_owners(ic, id), name, kind)
}

/// The signatures a callee may be called with.
pub open spec fn call_candidates(ic: InferCtx, callee: HirExprId) -> Seq<TypedFunctionSignature> {
    match resolution(ic, callee) {
        Some(HirPathResolution::Item(r)) => match item_of_ref(ic, r) {
            Some(id) => match item_data(ic, id) {
                Some(TypedItemData::Function(sig)) => seq![sig],
                Some(d) => data_inits(d),
                None => seq![],
            },
            None => seq![],
        },
        Some(HirPathResolution::AssociatedMember { type_item_ref, member_name, member_kind }) => match item_of_ref(ic, type_item_ref) {
            Some(id) => associated_sigs(ic, id, member_name@, member_kind),
            None => seq![],
        },
        _ => seq![],
    }
}

/// Each signature paired with the receiver type `recv`.
pub open spec fn with_receiver(recv: InferenceType, sigs: Seq<TypedFunctionSignature>) -> Seq<(InferenceType, TypedFunctionSignature)> {
    sigs.map_values(|s: TypedFunctionSignature| (recv, s))
}

/// The methods named `name` of the impls `owners`, each with its impl's
/// target as receiver.
pub open spec fn impl_methods(ic: InferCtx, owners: Seq<DeclarationOwner>, name: Seq<char>) -> Seq<(InferenceType, TypedFunctionSignature)>
    decreases owners.len(),
{
    if owners.len() == 0 {
        seq![]
    } else {
        let prev = impl_methods(ic, owners.drop_last(), name);
        match impl_sig(ic, owners.last()) {
            Some(im) => prev + with_receiver(inference_type_of(im.target), named_methods(im.method_signatures@, name)),
            None => prev,
        }
    }
}

/// The methods named `name` of a struct, enum or protocol item and of its impls.
pub open spec fn item_methods(ic: InferCtx, id: ItemId, name: Seq<char>) -> Seq<(InferenceType, TypedFunctionSignature)> {
    match nominal_for_item(ic, id) {
        Some(recv) => with_receiver(recv, named_methods(data_methods(item_data(ic, id).unwrap()), name)) + impl_methods(ic, impl_owners(ic, id), name),
        None => seq![],
    }
}

/// The typed items in id order.
pub open spec fn item_entries(items: TypedItemTable) -> Seq<(ItemId, TypedItemData)> {
    items.spec_item_ids().map_values(|id: ItemId| (id, items.spec_items()[id]))
}

/// The nominal kind of an item's data, if it has one.
pub open spec fn data_kind(d: TypedItemData) -> Option<NamedTypeKind> {
    match d {
        TypedItemData::Struct(_) => Some(NamedTypeKind::Struct),
        TypedItemData::Enum(_) => Some(NamedTypeKind::Enum),
        TypedItemData::Protocol(_) => Some(NamedTypeKind::Protocol),
        TypedItemData::Function(_) => None,
    }
}

/// The methods named `name` declared with the items `es`.
pub open spec fn declared_methods(es: Seq<(ItemId, TypedItemData)>, name: Seq<char>) -> Seq<(InferenceType, TypedFunctionSignature)>
    decreases es.len(),
{
    if es.len() == 0 {
        seq![]
    } else {
        let prev = declared_methods(es.drop_last(), name);
        let (id, d) = es.last();
        match data_kind(d) {
            Some(k) => prev + with_receiver(InferenceType::Known(ConcreteType::Nominal { item_id: id, kind: k }), named_methods(data_methods(d), name)),
            None => prev,
        }
    }
}

/// The methods named `name` of the impls of the items `es`.
pub open spec fn all_impl_methods(ic: InferCtx, es: Seq<(ItemId, TypedItemData)>, name: Seq<char>) -> Seq<(InferenceType, TypedFunctionSignature)>
    decreases es.len(),
{
    if es.len() == 0 {
        seq![]
    } else {
        all_impl_methods(ic, es.drop_last(), name) + impl_methods(ic, impl_owners(ic, es.last().0), name)
    }
}

/// The method candidates for a call of `name` on a receiver of type
/// `recv`: a nominal receiver's own methods, or every method of that name.
pub open spec fn method_candidates(ic: InferCtx, roots: spec_fn(TypeVarId) -> InferenceType, name: Seq<char>, recv: InferenceType) -> Seq<(InferenceType, TypedFunctionSignature)> {
    match nominal_id(roots, recv) {
        Some(id) => item_methods(ic, id, name),
        None => declared_methods(item_entries(ic.items), name) + all_impl_methods(ic, item_entries(ic.items), name),
    }
}

/// Whether the argument types fit the parameter types pairwise, trying
/// each pair in a scratch resolution carried from pair to pair.
pub open spec fn pairs_compat(roots: spec_fn(TypeVarId) -> InferenceType, args: Seq<InferenceType>, params: Seq<InferenceType>) -> bool
    decreases args.len(),
{
    if args.len() == 0 || params.len() == 0 {
        true
    } else {
        let (ok, r1) = probe_compat(roots, args[0], params[0]);
        ok && pairs_compat(r1, args.drop_first(), params.drop_first())
    }
}

/// Whether a signature fits the expected type (by its return type) and the
/// argument types.
pub open spec fn call_compat(roots: spec_fn(TypeVarId) -> InferenceType, s: TypedFunctionSignature, args: Seq<InferenceType>, expected: Option<InferenceType>) -> bool {
    match (expected, sig_ret(s)) {
        (Some(e), Some(rt)) => {
            let (ok, r1) = probe_compat(roots, rt, e);
            ok && pairs_compat(r1, args, sig_params(s))
        },
        _ => pairs_compat(roots, args, sig_params(s)),
    }
}

/// Whether a method candidate fits the receiver, then as a call.
pub open spec fn method_compat(roots: spec_fn(TypeVarId) -> InferenceType, c: (InferenceType, TypedFunctionSignature), recv: InferenceType, args: Seq<InferenceType>, expected: Option<InferenceType>) -> bool {
    let (ok, r1) = probe_compat(roots, recv, c.0);
    ok && call_compat(r1, c.1, args, expected)
}

/// The candidates that take the arguments' shape.
pub open spec fn shaped(cs: Seq<TypedFunctionSignature>, args: Seq<HirCallArg>) -> Seq<TypedFunctionSignature>
    decreases cs.len(),
{
    if cs.len() == 0 {
        seq![]
    } else {
        let prev = shaped(cs.drop_last(), args);
        if shape_fits(cs.last(), args) {
            prev.push(cs.last())
        } else {
            prev
        }
    }
}

/// The candidates compatible with the argument types and expected type.
pub open spec fn compatible_calls(cs: Seq<TypedFunctionSignature>, roots: spec_fn(TypeVarId) -> InferenceType, args: Seq<InferenceType>, expected: Option<InferenceType>) -> Seq<TypedFunctionSignature>
    decreases cs.len(),
{
    if cs.len() == 0 {
        seq![]
    } else {
        let prev = compatible_calls(cs.drop_last(), roots, args, expected);
        if call_compat(roots, cs.last(), args, expected) {
            prev.push(cs.last())
        } else {
            prev
        }
    }
}

/// The method candidates that take the arguments' shape.
pub open spec fn shaped_methods(cs: Seq<(InferenceType, TypedFunctionSignature)>, args: Seq<HirCallArg>) -> Seq<(InferenceType, TypedFunctionSignature)>
    decreases cs.len(),
{
    if cs.len() == 0 {
        seq![]
    } else {
        let prev = shaped_methods(cs.drop_last(), args);
        if shape_fits(cs.last().1, args) {
            prev.push(cs.last())
        } else {
            prev
        }
    }
}

/// The method candidates compatible with receiver, arguments and expected type.
pub open spec fn compatible_methods(cs: Seq<(InferenceType, TypedFunctionSignature)>, roots: spec_fn(TypeVarId) -> InferenceType, recv: InferenceType, args: Seq<InferenceType>, expected: Option<InferenceType>) -> Seq<(InferenceType, TypedFunctionSignature)>
    decreases cs.len(),
{
    if cs.len() == 0 {
        seq![]
    } else {
        let prev = compatible_methods(cs.drop_last(), roots, recv, args, expected);
        if method_compat(roots, cs.last(), recv, args, expected) {
            prev.push(cs.last())
        } else {
            prev
        }
    }
}

/// The call target recorded for a callee: a function by its path, or an
/// associated member.
pub open spec fn callee_target(ic: InferCtx, callee: HirExprId) -> Option<CallTargetView> {
    match expr_of(ic, callee) {
        None => None,
        Some(x) => match resolution(ic, callee) {
            Some(HirPathResolution::Item(_)) => match x.kind {
                HirExprKind::Path { segments } => Some(CallTargetView::Function { path: string_views(segments@) }),
                HirExprKind::NamespaceField { base, name } => match expr_of(ic, base) {
                    Some(b) => match b.kind {
                        HirExprKind::Path { segments } => Some(CallTargetView::Function { path: string_views(segments@).push(name@) }),
                        _ => None,
                    },
                    None => None,
                },
                _ => None,
            },
            Some(HirPathResolution::AssociatedMember { type_item_ref, member_name, member_kind }) => Some(CallTargetView::AssociatedMember {
                type_item_id: item_of_ref(ic, type_item_ref),
                member_name: member_name@,
                member_kind,
            }),
            _ => None,
        },
    }
}

/// `st` with a call target recorded for `e`, when there is one.
pub open spec fn with_target(st: InferState, e: HirExprId, t: Option<CallTargetView>) -> InferState {
    match t {
        Some(t) => InferState { targets: st.targets.insert(e, t), ..st },
        None => st,
    }
}

/// A call's type: the signature's return type, else the type an item or
/// initializer callee constructs, else `void`.
pub open spec fn call_return(ic: InferCtx, callee: HirExprId, s: TypedFunctionSignature) -> InferenceType {
    match sig_ret(s) {
        Some(t) => t,
        None => match resolution(ic, callee) {
            Some(HirPathResolution::Item(r)) => match item_of_ref(ic, r) {
                Some(id) => match nominal_for_item(ic, id) {
                    Some(t) => t,
                    None => bi(BuiltinType::Void),
                },
                None => bi(BuiltinType::Void),
            },
            Some(HirPathResolution::AssociatedMember { type_item_ref, member_kind: AssociatedMemberKind::Initializer, .. }) => match item_of_ref(ic, type_item_ref) {
                Some(id) => match nominal_for_item(ic, id) {
                    Some(t) => t,
                    None => bi(BuiltinType::Void),
                },
                None => bi(BuiltinType::Void),
            },
            _ => bi(BuiltinType::Void),
        },
    }
}

/// The first case named `name`.
pub open spec fn first_case(cases: Seq<TypedEnumCaseSignature>, name: Seq<char>) -> Option<TypedEnumCaseSignature>
    decreases cases.len(),
{
    if cases.len() == 0 {
        None
    } else if cases[0].name@ == name {
        Some(cases[0])
    } else {
        first_case(cases.drop_first(), name)
    }
}

/// The single segment of a one-segment path expression.
pub open spec fn single_segment(ic: InferCtx, e: HirExprId) -> Option<Seq<char>> {
    match expr_of(ic, e) {
        Some(x) => match x.kind {
            HirExprKind::Path { segments } => if segments@.len() == 1 {
                Some(segments@[0]@)
            } else {
                None
            },
            _ => None,
        },
        None => None,
    }
}

/// The case of an enum named `name`, when `id` is an enum that has one.
pub open spec fn enum_case(ic: InferCtx, id: ItemId, name: Seq<char>) -> Option<TypedEnumCaseSignature> {
    match item_data(ic, id) {
        Some(TypedItemData::Enum(d)) => first_case(d.case_signatures@, name),
        _ => None,
    }
}

/// A bare case name used where an enum is expected: the enum's type, when
/// the enum has a payload-free case of that name.
pub open spec fn contextual_path(ic: InferCtx, roots: spec_fn(TypeVarId) -> InferenceType, e: HirExprId, expected: Option<InferenceType>) -> Option<InferenceType> {
    match expected {
        None => None,
        Some(x) => match expected_enum_id(roots, x) {
            None => None,
            Some(id) => match single_segment(ic, e) {
                None => None,
                Some(name) => match enum_case(ic, id, name) {
                    Some(c) => if c.payload_types@.len() == 0 {
                        nominal_for_item(ic, id)
                    } else {
                        None
                    },
                    None => None,
                },
            },
        },
    }
}

/// The name an enum is reported by: `EnumItemId(` and its id in decimal and `)`.
pub open spec fn enum_display(id: ItemId) -> Seq<char> {
    seq!['E', 'n', 'u', 'm', 'I', 't', 'e', 'm', 'I', 'd', '('] + decimal(id.0 as nat) + seq![')']
}

/// The enums among `es` that have a case named `name`, with their names.
pub open spec fn enums_with_case(es: Seq<(ItemId, TypedItemData)>, name: Seq<char>) -> Seq<(ItemId, Seq<char>)>
    decreases es.len(),
{
    if es.len() == 0 {
        seq![]
    } else {
        let prev = enums_with_case(es.drop_last(), name);
        match es.last().1 {
            TypedItemData::Enum(d) => if first_case(d.case_signatures@, name) is Some {
                prev.push((es.last().0, enum_display(es.last().0)))
            } else {
                prev
            },
            _ => prev,
        }
    }
}

/// The names of the enums among `es`.
pub open spec fn enum_names(es: Seq<(ItemId, TypedItemData)>) -> Seq<Seq<char>>
    decreases es.len(),
{
    if es.len() == 0 {
        seq![]
    } else {
        let prev = enum_names(es.drop_last());
        if es.last().1 is Enum {
            prev.push(enum_display(es.last().0))
        } else {
            prev
        }
    }
}

/// A bare case name with no expected type: the one enum that has such a
/// case gives the type; none or several are reported.
pub open spec fn scoped_path(ic: InferCtx, st: InferState, e: HirExprId, name: Seq<char>) -> (Option<InferenceType>, InferState) {
    let span = expr_of(ic, e).unwrap().origin.span;
    let es = item_entries(ic.items);
    let cands = enums_with_case(es, name);
    if cands.len() == 0 {
        (None, with_issue(ic, st, span, BodyInferIssueKindView::MissingEnumCase { case_name: name, available_enums: enum_names(es) }))
    } else if cands.len() == 1 {
        (nominal_for_item(ic, cands[0].0), st)
    } else {
        (None, with_issue(ic, st, span, BodyInferIssueKindView::AmbiguousEnumCase { case_name: name, candidates: cands }))
    }
}

/// A path expression's type: a local's type; an unresolved bare case name
/// is tried against the expected enum, then against every enum; anything
/// else unresolved is reported.
pub open spec fn path_type(ic: InferCtx, st: InferState, e: HirExprId, span: Span, expected: Option<InferenceType>) -> (InferenceType, InferState) {
    match resolution(ic, e) {
        Some(HirPathResolution::Local(id)) => (if st.locals.contains_key(id) {
            st.locals[id]
        } else {
            InferenceType::Error
        }, st),
        Some(_) => (InferenceType::Error, st),
        None => match contextual_path(ic, st.m.roots, e, expected) {
            Some(t) => (t, st),
            None => {
                let (found, s1) = match single_segment(ic, e) {
                    Some(name) => scoped_path(ic, st, e, name),
                    None => (None, st),
                };
                match found {
                    Some(t) => (t, s1),
                    None => (InferenceType::Error, with_issue(ic, s1, span, BodyInferIssueKindView::MissingResolvedPath { expr_id: e })),
                }
            },
        },
    }
}

/// The enums among `es` whose case named `name` takes `n` payloads, with
/// their names and payload types.
pub open spec fn enums_with_arity(es: Seq<(ItemId, TypedItemData)>, name: Seq<char>, n: nat) -> Seq<(ItemId, Seq<char>, Seq<Type>)>
    decreases es.len(),
{
    if es.len() == 0 {
        seq![]
    } else {
        let prev = enums_with_arity(es.drop_last(), name, n);
        match es.last().1 {
            TypedItemData::Enum(d) => match first_case(d.case_signatures@, name) {
                Some(c) => if c.payload_types@.len() == n {
                    prev.push((es.last().0, enum_display(es.last().0), c.payload_types@))
                } else {
                    prev
                },
                None => prev,
            },
            _ => prev,
        }
    }
}

/// The ids and names of enum candidates.
pub open spec fn candidate_names(cs: Seq<(ItemId, Seq<char>, Seq<Type>)>) -> Seq<(ItemId, Seq<char>)> {
    cs.map_values(|c: (ItemId, Seq<char>, Seq<Type>)| (c.0, c.1))
}

/// The payload-free case of an expected enum named by a bare callee whose
/// payload count matches the arguments.
pub open spec fn contextual_case(ic: InferCtx, roots: spec_fn(TypeVarId) -> InferenceType, callee: HirExprId, n: nat, expected: Option<InferenceType>) -> Option<(ItemId, Seq<char>, Seq<Type>)> {
    match expected {
        None => None,
        Some(x) => match expected_enum_id(roots, x) {
            None => None,
            Some(id) => match single_segment(ic, callee) {
                None => None,
                Some(name) => match enum_case(ic, id, name) {
                    Some(c) => if c.payload_types@.len() == n {
                        Some((id, name, c.payload_types@))
                    } else {
                        None
                    },
                    None => None,
                },
            },
        },
    }
}

/// Pattern bindings: the locals pattern `pat` binds (itself first, then
/// the tuple elements'), at most `fuel` levels deep.
pub open spec fn pat_bindings(ic: InferCtx, pat: HirPatId, fuel: nat) -> Seq<LocalId>
    decreases fuel, 0nat,
{
    if fuel == 0 {
        seq![]
    } else {
        match ic.module.patterns.spec_get(pat) {
            None => seq![],
            Some(p) => {
                let head = match first_pat_binding(ic.hir.hir_local_bindings.bindings@, ic.file, pat) {
                    Some(id) => seq![id],
                    None => seq![],
                };
                match p.kind {
                    HirPatKind::Tuple { elements } => head + pats_bindings(ic, elements@, (fuel - 1) as nat),
                    _ => head,
                }
            },
        }
    }
}

/// The bindings of several patterns, in order.
pub open spec fn pats_bindings(ic: InferCtx, ps: Seq<HirPatId>, fuel: nat) -> Seq<LocalId>
    decreases fuel, ps.len(),
{
    if ps.len() == 0 {
        seq![]
    } else {
        pats_bindings(ic, ps.drop_last(), fuel) + pat_bindings(ic, ps.last(), fuel)
    }
}

/// Giving each of `ids` the initializer's type: a local without a type so
/// far gets a fresh variable first.
pub open spec fn bind_locals(st: InferState, ids: Seq<LocalId>, init: InferenceType) -> InferState
    decreases ids.len(),
{
    if ids.len() == 0 {
        st
    } else {
        let s1 = bind_locals(st, ids.drop_last(), init);
        let id = ids.last();
        let (lt, s2) = if s1.locals.contains_key(id) {
            (s1.locals[id], s1)
        } else {
            let (v, s) = s_fresh(s1);
            (v, InferState { locals: s.locals.insert(id, v), ..s })
        };
        s_constrain(s2, lt, init).1
    }
}


/// Whether `op` combines booleans.
pub open spec fn is_logical(op: HirBinaryOp) -> bool {
    op is LogicalAnd || op is LogicalOr
}

/// Whether `op` compares its operands.
pub open spec fn is_comparison(op: HirBinaryOp) -> bool {
    op is Equal || op is NotEqual || op is Less || op is LessEqual || op is Greater || op is GreaterEqual
}

/// Inferring expression `e` (at most `fuel` levels deep) against an
/// optional expected type: its type and the state after recording it.
pub open spec fn infer_expr_s(ic: InferCtx, st: InferState, fuel: nat, e: HirExprId, expected: Option<InferenceType>) -> (InferenceType, InferState)
    decreases fuel, 4nat,
{
    if fuel == 0 {
        (InferenceType::Error, st)
    } else {
        match expr_of(ic, e) {
            None => (InferenceType::Error, with_issue(ic, st, zero_span(), BodyInferIssueKindView::MissingBodyAst)),
            Some(x) => {
                let (t, s1) = infer_kind_s(ic, st, (fuel - 1) as nat, e, x, expected);
                let (t2, s2) = match expected {
                    Some(y) => s_expected(s1, t, y),
                    None => (t, s1),
                };
                (t2, InferState { exprs: s2.exprs.insert(e, t2), ..s2 })
            },
        }
    }
}

/// The type of expression `e`, whose node is `x`, by its kind (before the
/// expected type is met and the type recorded).
pub open spec fn infer_kind_s(ic: InferCtx, st: InferState, f: nat, e: HirExprId, x: HirExpr, expected: Option<InferenceType>) -> (InferenceType, InferState)
    decreases f + 1, 3nat,
{
    let span = x.origin.span;
    match x.kind {
            HirExprKind::Literal(l) => s_literal(st, l),
            HirExprKind::Path { .. } => path_type(ic, st, e, span, expected),
            HirExprKind::NamespaceField { .. } => path_type(ic, st, e, span, expected),
            HirExprKind::Call { callee, args } => infer_call_s(ic, st, f, e, callee, args@, span, expected),
            HirExprKind::MethodCall { receiver, name, args } => infer_method_s(ic, st, f, e, receiver, name@, args@, span, expected),
            HirExprKind::Block { body } => infer_body_s(ic, st, f, body, expected),
            HirExprKind::If { condition, then_body, else_expr } => {
                let (_, s1) = infer_expr_s(ic, st, f, condition, Some(bi(BuiltinType::Bool)));
                let (tt, s2) = infer_body_s(ic, s1, f, then_body, expected);
                match else_expr {
                    None => (InferenceType::Error, with_issue(ic, s2, span, BodyInferIssueKindView::MissingElseBranch)),
                    Some(el) => {
                        let (te, s3) = infer_expr_s(ic, s2, f, el, expected);
                        s_merge(s3, tt, te)
                    },
                }
            },
            HirExprKind::Assign { target, value, .. } => {
                let (tt, s1) = infer_expr_s(ic, st, f, target, None);
                let (tv, s2) = infer_expr_s(ic, s1, f, value, Some(tt));
                s_constrain(s2, tt, tv)
            },
            HirExprKind::Return { value } => {
                let s2 = match value {
                    Some(v) => {
                        let (tv, s1) = infer_expr_s(ic, st, f, v, Some(ic.ret));
                        s_constrain(s1, ic.ret, tv).1
                    },
                    None => s_constrain(st, ic.ret, bi(BuiltinType::Void)).1,
                };
                (bi(BuiltinType::Never), s2)
            },
            HirExprKind::Unary { op, expr } => if op is Not {
                let (_, s1) = infer_expr_s(ic, st, f, expr, Some(bi(BuiltinType::Bool)));
                (bi(BuiltinType::Bool), s1)
            } else {
                let (out, s0) = s_fresh(st);
                let (ti, s1) = infer_expr_s(ic, s0, f, expr, Some(out));
                s_constrain(s1, ti, out)
            },
            HirExprKind::Binary { op, lhs, rhs } => infer_binary_s(ic, st, f, op, lhs, rhs),
        HirExprKind::While { condition, body } => {
                let (_, s1) = infer_expr_s(ic, st, f, condition, Some(bi(BuiltinType::Bool)));
                let (_, s2) = infer_body_s(ic, s1, f, body, None);
                (bi(BuiltinType::Void), s2)
            },
            HirExprKind::For { iterator, body, .. } => {
                let (_, s1) = infer_expr_s(ic, st, f, iterator, None);
                let (_, s2) = infer_body_s(ic, s1, f, body, None);
                (bi(BuiltinType::Void), s2)
            },
            HirExprKind::Try { expr } => infer_expr_s(ic, st, f, expr, expected),
            HirExprKind::ForceUnwrap { expr } => infer_expr_s(ic, st, f, expr, expected),
            HirExprKind::Spread { expr } => infer_expr_s(ic, st, f, expr, expected),
            HirExprKind::Break => (bi(BuiltinType::Never), st),
            HirExprKind::Continue => (bi(BuiltinType::Never), st),
            HirExprKind::Array { elements } => (InferenceType::Error, infer_exprs_s(ic, st, f, elements@.map_values(|el: HirArrayElement| element_expr(el))).1),
            HirExprKind::Struct { fields } => (InferenceType::Error, infer_exprs_s(ic, st, f, fields@.map_values(|fl: HirStructExprField| field_expr(fl))).1),
            HirExprKind::Tuple { elements } => (InferenceType::Error, infer_exprs_s(ic, st, f, elements@).1),
            HirExprKind::Match { subject, arms } => {
                let (_, s1) = infer_expr_s(ic, st, f, subject, None);
                let (t, s2) = infer_arms_s(ic, s1, f, arms@.map_values(|a: HirMatchArm| a.expr), expected);
                (match t {
                    Some(t) => t,
                    None => bi(BuiltinType::Void),
                }, s2)
            },
            HirExprKind::Field { base, .. } => (InferenceType::Error, infer_expr_s(ic, st, f, base, None).1),
            HirExprKind::OptionalField { base, .. } => (InferenceType::Error, infer_expr_s(ic, st, f, base, None).1),
            HirExprKind::Index { base, index } => {
                let (_, s1) = infer_expr_s(ic, st, f, base, None);
                (InferenceType::Error, infer_expr_s(ic, s1, f, index, None).1)
            },
            HirExprKind::OptionalIndex { base, index } => {
                let (_, s1) = infer_expr_s(ic, st, f, base, None);
                (InferenceType::Error, infer_expr_s(ic, s1, f, index, None).1)
            },
            _ => (InferenceType::Error, st),
        }
}

/// Inferring a binary expression: logical operators take booleans,
/// comparisons unify their operands and give `bool`, `??` unifies its
/// operands, and arithmetic and bit operators unify both operands with a
/// fresh result type.
pub open spec fn infer_binary_s(ic: InferCtx, st: InferState, f: nat, op: HirBinaryOp, lhs: HirExprId, rhs: HirExprId) -> (InferenceType, InferState)
    decreases f + 1, 1nat,
{
    if is_logical(op) {
        let (_, s1) = infer_expr_s(ic, st, f, lhs, Some(bi(BuiltinType::Bool)));
        let (_, s2) = infer_expr_s(ic, s1, f, rhs, Some(bi(BuiltinType::Bool)));
        (bi(BuiltinType::Bool), s2)
    } else if is_comparison(op) || op is NullCoalescing {
        let (tl, s1) = infer_expr_s(ic, st, f, lhs, None);
        let (tr, s2) = infer_expr_s(ic, s1, f, rhs, Some(tl));
        let (tu, s3) = s_constrain(s2, tl, tr);
        if op is NullCoalescing {
            (tu, s3)
        } else {
            (bi(BuiltinType::Bool), s3)
        }
    } else {
        let (out, s0) = s_fresh(st);
        let (tl, s1) = infer_expr_s(ic, s0, f, lhs, Some(out));
        let (tr, s2) = infer_expr_s(ic, s1, f, rhs, Some(out));
        let (out2, s3) = s_constrain(s2, tl, out);
        s_constrain(s3, tr, out2)
    }
}

/// Inferring expressions in order without expected types.
pub open spec fn infer_exprs_s(ic: InferCtx, st: InferState, f: nat, es: Seq<HirExprId>) -> (Seq<InferenceType>, InferState)
    decreases f, es.len() + 5,
{
    if es.len() == 0 {
        (seq![], st)
    } else {
        let (ts, s1) = infer_exprs_s(ic, st, f, es.drop_last());
        let (t, s2) = infer_expr_s(ic, s1, f, es.last(), None);
        (ts.push(t), s2)
    }
}

/// Inferring call arguments against the chosen signature's parameters:
/// each is expected to have, and made equal to, its parameter's type.
pub open spec fn infer_args_s(ic: InferCtx, st: InferState, f: nat, es: Seq<HirExprId>, params: Seq<InferenceType>) -> InferState
    decreases f, es.len() + 5,
{
    if es.len() == 0 {
        st
    } else {
        let s1 = infer_args_s(ic, st, f, es.drop_last(), params);
        let i = es.len() - 1;
        if i < params.len() {
            let (t, s2) = infer_expr_s(ic, s1, f, es.last(), Some(params[i]));
            s_constrain(s2, t, params[i]).1
        } else {
            infer_expr_s(ic, s1, f, es.last(), None).1
        }
    }
}

/// Inferring enum case arguments against the case's payload types (pairs
/// past the shorter side are skipped).
pub open spec fn infer_payloads_s(ic: InferCtx, st: InferState, f: nat, es: Seq<HirExprId>, payloads: Seq<Type>) -> InferState
    decreases f, es.len() + 5,
{
    if es.len() == 0 {
        st
    } else {
        let s1 = infer_payloads_s(ic, st, f, es.drop_last(), payloads);
        let i = es.len() - 1;
        if i < payloads.len() {
            let p = inference_type_of(payloads[i]);
            let (t, s2) = infer_expr_s(ic, s1, f, es.last(), Some(p));
            s_constrain(s2, t, p).1
        } else {
            s1
        }
    }
}

/// Inferring match arms: every arm against the expected type, unified in turn.
pub open spec fn infer_arms_s(ic: InferCtx, st: InferState, f: nat, arms: Seq<HirExprId>, expected: Option<InferenceType>) -> (Option<InferenceType>, InferState)
    decreases f, arms.len() + 5,
{
    if arms.len() == 0 {
        (None, st)
    } else {
        let (prev, s1) = infer_arms_s(ic, st, f, arms.drop_last(), expected);
        let (cur, s2) = infer_expr_s(ic, s1, f, arms.last(), expected);
        match prev {
            Some(ex) => {
                let (t, s3) = s_constrain(s2, ex, cur);
                (Some(t), s3)
            },
            None => (Some(cur), s2),
        }
    }
}

/// Inferring a block body against an optional expected type: its
/// statements, then its tail (or `void`).
pub open spec fn infer_body_s(ic: InferCtx, st: InferState, fuel: nat, b: HirBodyId, expected: Option<InferenceType>) -> (InferenceType, InferState)
    decreases fuel, 4nat,
{
    if fuel == 0 {
        (InferenceType::Error, st)
    } else {
        let f = (fuel - 1) as nat;
        match ic.module.bodies.spec_get(b) {
            None => (InferenceType::Error, with_issue(ic, st, zero_span(), BodyInferIssueKindView::MissingBodyAst)),
            Some(body) => {
                let s1 = infer_stmts_s(ic, st, f, body.stmts@);
                let (t, s2) = match body.tail_expr {
                    Some(tail) => infer_expr_s(ic, s1, f, tail, expected),
                    None => match expected {
                        Some(x) => s_expected(s1, bi(BuiltinType::Void), x),
                        None => (bi(BuiltinType::Void), s1),
                    },
                };
                match expected {
                    Some(x) => s_expected(s2, t, x),
                    None => (t, s2),
                }
            },
        }
    }
}

/// Inferring statements in order.
pub open spec fn infer_stmts_s(ic: InferCtx, st: InferState, f: nat, stmts: Seq<HirStmtId>) -> InferState
    decreases f, stmts.len() + 5,
{
    if stmts.len() == 0 {
        st
    } else {
        infer_stmt_s(ic, infer_stmts_s(ic, st, f, stmts.drop_last()), f, stmts.last())
    }
}

/// Inferring a statement: a `let` infers its initializer against its first
/// binding's type and gives every binding the initializer's type.
pub open spec fn infer_stmt_s(ic: InferCtx, st: InferState, fuel: nat, s: HirStmtId) -> InferState
    decreases fuel, 4nat,
{
    if fuel == 0 {
        st
    } else {
        let f = (fuel - 1) as nat;
        match ic.module.stmts.spec_get(s) {
            None => with_issue(ic, st, zero_span(), BodyInferIssueKindView::MissingBodyAst),
            Some(stmt) => match stmt.kind {
                HirStmtKind::Let { pat, value, .. } => let_stmt_s(ic, st, f, pat, value, stmt.origin.span),
                HirStmtKind::Expr { expr } => infer_expr_s(ic, st, f, expr, None).1,
                HirStmtKind::Semi { expr } => infer_expr_s(ic, st, f, expr, None).1,
                HirStmtKind::Item { .. } => st,
            },
        }
    }
}

/// Inferring a `let`: the initializer against the first binding's type,
/// then every binding made equal to it; a pattern that binds nothing is
/// reported.
pub open spec fn let_stmt_s(ic: InferCtx, st: InferState, f: nat, pat: HirPatId, value: Option<HirExprId>, span: Span) -> InferState
    decreases f + 1, 1nat,
{
    let ids = pat_bindings(ic, pat, walk_fuel(ic.module));
    let exp = if ids.len() > 0 && st.locals.contains_key(ids[0]) {
        Some(st.locals[ids[0]])
    } else {
        None
    };
    let (init, s1) = match value {
        Some(v) => {
            let (t, s) = infer_expr_s(ic, st, f, v, exp);
            (Some(t), s)
        },
        None => (None, st),
    };
    let s2 = if ids.len() == 0 {
        with_issue(ic, s1, span, BodyInferIssueKindView::MissingLocalBinding { pat_id: pat })
    } else {
        s1
    };
    match init {
        Some(t) => bind_locals(s2, ids, t),
        None => s2,
    }
}

/// The receiver and member name of a field-access callee, if it is one.
pub open spec fn field_callee(ic: InferCtx, callee: HirExprId) -> Option<(HirExprId, Seq<char>)> {
    match expr_of(ic, callee) {
        Some(x) => match x.kind {
            HirExprKind::Field { base, name } => Some((base, name@)),
            HirExprKind::OptionalField { base, name } => Some((base, name@)),
            _ => None,
        },
        None => None,
    }
}

/// Inferring a call: a field callee is a method call; otherwise the
/// callee's candidate signatures are narrowed by argument shape and by
/// compatibility, and the single survivor types the arguments and gives the
/// call's type. Without candidates, a bare enum case name is tried.
pub open spec fn infer_call_s(ic: InferCtx, st: InferState, f: nat, e: HirExprId, callee: HirExprId, args: Seq<HirCallArg>, span: Span, expected: Option<InferenceType>) -> (InferenceType, InferState)
    decreases f + 1, 2nat,
{
    match field_callee(ic, callee) {
        Some((base, name)) => infer_method_s(ic, st, f, e, base, name, args, span, expected),
        None => {
            let (_, s1) = infer_expr_s(ic, st, f, callee, None);
            let cands = call_candidates(ic, callee);
            let vals = arg_values(args);
            if cands.len() == 0 {
                match contextual_call_s(ic, s1, f, e, callee, vals, expected) {
                    Some(r) => r,
                    None => {
                        let (found, s2) = if expected is None {
                            scoped_call_s(ic, s1, f, e, callee, vals)
                        } else {
                            (None, s1)
                        };
                        match found {
                            Some(t) => (t, s2),
                            None => {
                                let s3 = infer_exprs_s(ic, s2, f, vals).1;
                                (InferenceType::Error, with_issue(ic, s3, span, BodyInferIssueKindView::InvalidCallTarget))
                            },
                        }
                    },
                }
            } else {
                let sh = shaped(cands, args);
                let (tys, s2) = infer_exprs_s(ic, s1, f, vals);
                let matched = compatible_calls(sh, s2.m.roots, tys, expected);
                if matched.len() == 0 {
                    (InferenceType::Error, with_issue(ic, s2, span, BodyInferIssueKindView::NoMatchingCallCandidate { candidate_count: cands.len() as usize }))
                } else if matched.len() > 1 {
                    (InferenceType::Error, with_issue(ic, s2, span, BodyInferIssueKindView::AmbiguousCallCandidate { candidate_count: matched.len() as usize }))
                } else {
                    let sig = matched[0];
                    let s3 = with_target(s2, e, callee_target(ic, callee));
                    let s4 = infer_args_s(ic, s3, f, vals, sig_params(sig));
                    (call_return(ic, callee, sig), s4)
                }
            }
        },
    }
}

/// Inferring a method call: the receiver's candidates are narrowed as for
/// a call; the survivor's receiver type is unified with the receiver's.
pub open spec fn infer_method_s(ic: InferCtx, st: InferState, f: nat, e: HirExprId, receiver: HirExprId, name: Seq<char>, args: Seq<HirCallArg>, span: Span, expected: Option<InferenceType>) -> (InferenceType, InferState)
    decreases f + 1, 1nat,
{
    let (rt, s1) = infer_expr_s(ic, st, f, receiver, None);
    let vals = arg_values(args);
    let cands = method_candidates(ic, s1.m.roots, name, rt);
    if cands.len() == 0 {
        let s2 = infer_exprs_s(ic, s1, f, vals).1;
        (InferenceType::Error, with_issue(ic, s2, span, BodyInferIssueKindView::InvalidCallTarget))
    } else {
        let sh = shaped_methods(cands, args);
        let (tys, s2) = infer_exprs_s(ic, s1, f, vals);
        let matched = compatible_methods(sh, s2.m.roots, rt, tys, expected);
        if matched.len() == 0 {
            (InferenceType::Error, with_issue(ic, s2, span, BodyInferIssueKindView::NoMatchingCallCandidate { candidate_count: method_candidates(ic, s2.m.roots, name, rt).len() as usize }))
        } else if matched.len() > 1 {
            (InferenceType::Error, with_issue(ic, s2, span, BodyInferIssueKindView::AmbiguousCallCandidate { candidate_count: matched.len() as usize }))
        } else {
            let c = matched[0];
            let s3 = with_target(s2, e, Some(CallTargetView::Method { receiver_item_id: nominal_id(s2.m.roots, c.0), method_name: name }));
            let s4 = s_constrain(s3, rt, c.0).1;
            let s5 = infer_args_s(ic, s4, f, vals, sig_params(c.1));
            (match sig_ret(c.1) {
                Some(t) => t,
                None => bi(BuiltinType::Void),
            }, s5)
        }
    }
}

/// A bare case name called where an enum is expected, with as many
/// arguments as the case has payloads: the arguments are inferred against
/// the payloads and the call has the enum's type.
pub open spec fn contextual_call_s(ic: InferCtx, st: InferState, f: nat, e: HirExprId, callee: HirExprId, vals: Seq<HirExprId>, expected: Option<InferenceType>) -> Option<(InferenceType, InferState)>
    decreases f + 1, 1nat,
{
    match contextual_case(ic, st.m.roots, callee, vals.len(), expected) {
        None => None,
        Some((id, name, payloads)) => {
            let s1 = infer_payloads_s(ic, st, f, vals, payloads);
            let s2 = with_target(s1, e, Some(CallTargetView::EnumCase { enum_item_id: id, case_name: name }));
            Some((nominal_for_item(ic, id).unwrap(), s2))
        },
    }
}

/// A bare case name called with no expected type: the one enum whose case
/// of that name takes as many payloads types it; several are reported.
pub open spec fn scoped_call_s(ic: InferCtx, st: InferState, f: nat, e: HirExprId, callee: HirExprId, vals: Seq<HirExprId>) -> (Option<InferenceType>, InferState)
    decreases f + 1, 1nat,
{
    match single_segment(ic, callee) {
        None => (None, st),
        Some(name) => {
            let cands = enums_with_arity(item_entries(ic.items), name, vals.len());
            if cands.len() == 0 {
                (None, st)
            } else if cands.len() == 1 {
                let (id, _, payloads) = cands[0];
                let s1 = infer_payloads_s(ic, st, f, vals, payloads);
                let s2 = with_target(s1, e, Some(CallTargetView::EnumCase { enum_item_id: id, case_name: name }));
                (nominal_for_item(ic, id), s2)
            } else {
                (None, with_issue(ic, st, expr_of(ic, callee).unwrap().origin.span, BodyInferIssueKindView::AmbiguousEnumCase { case_name: name, candidates: candidate_names(cands) }))
            }
        },
    }
}


// ---------------------------------------------------------------------------
// The inferencer.

/// The call targets recorded so far, as views.
pub open spec fn targets_view<K>(s: Seq<(K, InferredCallTarget)>) -> Map<K, CallTargetView> {
    Map::new(|k: K| entries_contain(s, k), |k: K| entries_lookup(s, k).unwrap()@)
}

/// The signatures behind references.
pub open spec fn sig_refs(v: Seq<&TypedFunctionSignature>) -> Seq<TypedFunctionSignature> {
    v.map_values(|r: &TypedFunctionSignature| *r)
}

/// Method candidates behind references.
pub open spec fn method_refs(v: Seq<(InferenceType, &TypedFunctionSignature)>) -> Seq<(InferenceType, TypedFunctionSignature)> {
    v.map_values(|c: (InferenceType, &TypedFunctionSignature)| (c.0, *c.1))
}

struct BodyInferencer<'a> {
    body: &'a ResolvedBody,
    body_ref: SemanticBodyRef,
    module: &'a HirModule,
    hir_input: &'a SemanticHirInput,
    typed_items: &'a TypedItemTable,
    ctx: InferenceContext,
    function_return_type: InferenceType,
    local_types: SortedMap<LocalId, InferenceType>,
    expr_types: SortedMap<HirExprId, InferenceType>,
    selected_call_targets: SortedMap<HirExprId, InferredCallTarget>,
    issues: Vec<BodyInferIssue>,
}

impl<'a> BodyInferencer<'a> {
    spec fn ictx(&self) -> InferCtx {
        InferCtx {
            hir: *self.hir_input,
            items: *self.typed_items,
            module: *self.module,
            file: self.body_ref.file_id,
            body: self.body_ref.body_id,
            owner: self.body.owner,
            body_index: self.body.body_index,
            ret: self.function_return_type,
        }
    }

    spec fn st(&self) -> InferState {
        InferState {
            m: ctx_model(self.ctx),
            locals: entries_map(self.local_types@),
            exprs: entries_map(self.expr_types@),
            targets: targets_view(self.selected_call_targets@),
            issues: infer_issue_views(self.issues@),
        }
    }

    spec fn wf(&self) -> bool {
        &&& self.ctx.wf()
        &&& hints_below(ctx_model(self.ctx))
    }

    fn issue(&mut self, span: Span, kind: BodyInferIssueKind)
        ensures
            final(self).ictx() == old(self).ictx(),
            final(self).st() == with_issue(old(self).ictx(), old(self).st(), span, kind@),
            final(self).ctx == old(self).ctx,
    {
        let ghost k = kind@;
        self.issues.push(BodyInferIssue { owner: self.body.owner, body_index: self.body.body_index, span, kind });
        proof {
            assert(infer_issue_views(self.issues@) =~= infer_issue_views(old(self).issues@).push(
                BodyInferIssueView { owner: self.body.owner, body_index: self.body.body_index, span, kind: k },
            ));
            assert(self.st() =~= with_issue(old(self).ictx(), old(self).st(), span, k));
        }
    }

    fn constrain(&mut self, l: InferenceType, r: InferenceType) -> (t: InferenceType)
        requires
            old(self).wf(),
        ensures
            final(self).wf(),
            final(self).ictx() == old(self).ictx(),
            (t, final(self).st()) == s_constrain(old(self).st(), l, r),
    {
        let t = ctx_constrain(&mut self.ctx, l, r);
        proof {
            assert(self.st() =~= s_constrain(old(self).st(), l, r).1);
        }
        t
    }

    fn fresh_type(&mut self) -> (t: InferenceType)
        requires
            old(self).wf(),
        ensures
            final(self).wf(),
            final(self).ictx() == old(self).ictx(),
            (t, final(self).st()) == s_fresh(old(self).st()),
    {
        let t = ctx_fresh_type(&mut self.ctx);
        proof {
            assert(self.st() =~= s_fresh(old(self).st()).1);
        }
        t
    }

    fn resolve(&mut self, t: &InferenceType) -> (r: InferenceType)
        requires
            old(self).wf(),
        ensures
            final(self).wf(),
            final(self).ictx() == old(self).ictx(),
            final(self).st() == old(self).st(),
            r == res_in(old(self).st().m.roots, *t),
    {
        let r = ctx_resolve(&mut self.ctx, t.clone());
        proof {
            assert(self.st() =~= old(self).st());
        }
        r
    }

    fn is_never(&mut self, t: &InferenceType) -> (b: bool)
        requires
            old(self).wf(),
        ensures
            final(self).wf(),
            final(self).ictx() == old(self).ictx(),
            final(self).st() == old(self).st(),
            b == is_never(old(self).st(), *t),
    {
        let r = self.resolve(t);
        matches!(r, InferenceType::Known(ConcreteType::Builtin(BuiltinType::Never)))
    }

    fn meet_expected(&mut self, actual: InferenceType, expected: InferenceType) -> (t: InferenceType)
        requires
            old(self).wf(),
        ensures
            final(self).wf(),
            final(self).ictx() == old(self).ictx(),
            (t, final(self).st()) == s_expected(old(self).st(), actual, expected),
    {
        if self.is_never(&actual) || self.is_never(&expected) {
            return actual;
        }
        self.constrain(actual, expected)
    }

    fn merge_branches(&mut self, a: InferenceType, b: InferenceType) -> (t: InferenceType)
        requires
            old(self).wf(),
        ensures
            final(self).wf(),
            final(self).ictx() == old(self).ictx(),
            (t, final(self).st()) == s_merge(old(self).st(), a, b),
    {
        if self.is_never(&a) {
            return b;
        }
        if self.is_never(&b) {
            return a;
        }
        self.constrain(a, b)
    }

    fn literal(&mut self, l: HirLiteral) -> (t: InferenceType)
        requires
            old(self).wf(),
        ensures
            final(self).wf(),
            final(self).ictx() == old(self).ictx(),
            (t, final(self).st()) == s_literal(old(self).st(), l),
    {
        match l {
            HirLiteral::Boolean => InferenceType::Known(ConcreteType::Builtin(BuiltinType::Bool)),
            HirLiteral::Char => InferenceType::Known(ConcreteType::Builtin(BuiltinType::Char)),
            HirLiteral::String => InferenceType::Known(ConcreteType::Builtin(BuiltinType::String)),
            HirLiteral::Integer => {
                let t = ctx_literal_var(&mut self.ctx, LiteralDefaultKind::Integer);
                proof {
                    assert(self.st() =~= s_literal(old(self).st(), l).1);
                }
                t
            },
            HirLiteral::Float => {
                let t = ctx_literal_var(&mut self.ctx, LiteralDefaultKind::Float);
                proof {
                    assert(self.st() =~= s_literal(old(self).st(), l).1);
                }
                t
            },
        }
    }

    fn set_expr_type(&mut self, e: HirExprId, t: InferenceType)
        ensures
            final(self).ictx() == old(self).ictx(),
            final(self).st() == (InferState { exprs: old(self).st().exprs.insert(e, t), ..old(self).st() }),
            final(self).ctx == old(self).ctx,
    {
        self.expr_types.insert(e, t);
        proof {
            assert(self.st() =~= (InferState { exprs: old(self).st().exprs.insert(e, t), ..old(self).st() }));
        }
    }

    fn record_target(&mut self, e: HirExprId, target: Option<InferredCallTarget>)
        ensures
            final(self).ictx() == old(self).ictx(),
            final(self).st() == with_target(old(self).st(), e, match target {
                Some(t) => Some(t@),
                None => None,
            }),
            final(self).ctx == old(self).ctx,
    {
        if let Some(t) = target {
            let ghost tv = t@;
            self.selected_call_targets.insert(e, t);
            proof {
                let s1 = self.selected_call_targets@;
                let s0 = old(self).selected_call_targets@;
                assert(targets_view(s1) =~= targets_view(s0).insert(e, tv)) by {
                    assert forall|k: HirExprId| #[trigger] targets_view(s1).contains_key(k) <==> targets_view(s0).insert(e, tv).contains_key(k) by {
                        assert(entries_contain(s1, k) <==> (entries_contain(s0, k) || k == e));
                    }
                    assert forall|k: HirExprId| targets_view(s1).contains_key(k) implies #[trigger] targets_view(s1)[k] == targets_view(s0).insert(e, tv)[k] by {
                        if k != e {
                            assert(self.selected_call_targets.spec_get(k) == old(self).selected_call_targets.spec_get(k));
                        }
                    }
                }
                assert(self.st() =~= with_target(old(self).st(), e, Some(tv)));
            }
        }
    }

    // -- items

    fn item_of_ref(&self, r: &HirItemRef) -> (id: Option<ItemId>)
        ensures
            id == item_of_ref(self.ictx(), *r),
    {
        match self.hir_input.item_id_by_hir_item_ref.get(r) {
            Some(id) => Some(*id),
            None => None,
        }
    }

    fn item_data(&self, id: ItemId) -> (d: Option<&'a TypedItemData>)
        ensures
            match d {
                Some(x) => item_data(self.ictx(), id) == Some(*x),
                None => item_data(self.ictx(), id) is None,
            },
    {
        let items: &'a TypedItemTable = self.typed_items;
        items.get(id)
    }

    fn nominal_for_item(&self, id: ItemId) -> (t: Option<InferenceType>)
        ensures
            t == nominal_for_item(self.ictx(), id),
    {
        match self.item_data(id) {
            Some(TypedItemData::Struct(_)) => Some(InferenceType::Known(ConcreteType::Nominal { item_id: id, kind: NamedTypeKind::Struct })),
            Some(TypedItemData::Enum(_)) => Some(InferenceType::Known(ConcreteType::Nominal { item_id: id, kind: NamedTypeKind::Enum })),
            Some(TypedItemData::Protocol(_)) => Some(InferenceType::Known(ConcreteType::Nominal { item_id: id, kind: NamedTypeKind::Protocol })),
            _ => None,
        }
    }

    fn nominal_id(&mut self, t: &InferenceType) -> (r: Option<ItemId>)
        requires
            old(self).wf(),
        ensures
            final(self).wf(),
            final(self).ictx() == old(self).ictx(),
            final(self).st() == old(self).st(),
            r == nominal_id(old(self).st().m.roots, *t),
    {
        match self.resolve(t) {
            InferenceType::Known(ConcreteType::Nominal { item_id, .. }) => Some(item_id),
            _ => None,
        }
    }

    fn expected_enum_id(&mut self, t: &InferenceType) -> (r: Option<ItemId>)
        requires
            old(self).wf(),
        ensures
            final(self).wf(),
            final(self).ictx() == old(self).ictx(),
            final(self).st() == old(self).st(),
            r == expected_enum_id(old(self).st().m.roots, *t),
    {
        match self.resolve(t) {
            InferenceType::Known(ConcreteType::Nominal { item_id, kind: NamedTypeKind::Enum }) => Some(item_id),
            _ => None,
        }
    }

    fn entries(&self) -> (r: &'a Vec<(ItemId, TypedItemData)>)
        ensures
            r@ == item_entries(self.ictx().items),
    {
        let items: &'a TypedItemTable = self.typed_items;
        let r = items.iter();
        proof {
            let ids = items.spec_item_ids();
            assert(r@.map_values(|e: (ItemId, TypedItemData)| e.0).len() == r@.len());
            assert forall|i: int| 0 <= i < r@.len() implies #[trigger] r@[i] == item_entries(*items)[i] by {
                assert(r@.map_values(|e: (ItemId, TypedItemData)| e.0)[i] == r@[i].0);
                assert(ids[i] == r@[i].0);
            }
            assert(r@ =~= item_entries(*items));
        }
        r
    }

    fn impl_owners(&self, id: ItemId) -> (r: &'a [DeclarationOwner])
        ensures
            r@ == impl_owners(self.ictx(), id),
    {
        let items: &'a TypedItemTable = self.typed_items;
        items.impl_owners_for_target(id)
    }

    fn impl_sig(&self, owner: &DeclarationOwner) -> (r: Option<&'a TypedImplSignature>)
        ensures
            match r {
                Some(x) => impl_sig(self.ictx(), *owner) == Some(*x),
                None => impl_sig(self.ictx(), *owner) is None,
            },
    {
        let items: &'a TypedItemTable = self.typed_items;
        items.impl_signature(owner)
    }
}

/// Appends the signatures among `ms` named `name`.
fn push_named_methods<'b>(out: &mut Vec<&'b TypedFunctionSignature>, ms: &'b Vec<TypedNamedFunctionSignature>, name: &str)
    ensures
        sig_refs(final(out)@) == sig_refs(old(out)@) + named_methods(ms@, name@),
{
    let mut i: usize = 0;
    while i < ms.len()
        invariant
            i <= ms@.len(),
            sig_refs(out@) == sig_refs(old(out)@) + named_methods(ms@.subrange(0, i as int), name@),
        decreases ms@.len() - i,
    {
        proof {
            assert(ms@.subrange(0, i as int + 1).drop_last() =~= ms@.subrange(0, i as int));
        }
        let ghost before = out@;
        if str_eq(ms[i].name.as_str(), name) {
            out.push(&ms[i].signature);
            proof {
                assert(sig_refs(out@) =~= sig_refs(before).push(ms@[i as int].signature));
                assert(ms@.subrange(0, i as int + 1).last() == ms@[i as int]);
                assert(sig_refs(out@) =~= sig_refs(old(out)@) + named_methods(ms@.subrange(0, i as int + 1), name@));
            }
        } else {
            proof {
                assert(sig_refs(out@) =~= sig_refs(old(out)@) + named_methods(ms@.subrange(0, i as int + 1), name@));
            }
        }
        i = i + 1;
    }
    proof {
        assert(ms@.subrange(0, ms@.len() as int) =~= ms@);
    }
}

/// Appends every signature of `v`.
fn push_all_sigs<'b>(out: &mut Vec<&'b TypedFunctionSignature>, v: &'b Vec<TypedFunctionSignature>)
    ensures
        sig_refs(final(out)@) == sig_refs(old(out)@) + v@,
{
    let mut i: usize = 0;
    while i < v.len()
        invariant
            i <= v@.len(),
            sig_refs(out@) == sig_refs(old(out)@) + v@.subrange(0, i as int),
        decreases v@.len() - i,
    {
        let ghost before = out@;
        out.push(&v[i]);
        proof {
            assert(sig_refs(out@) =~= sig_refs(before).push(v@[i as int]));
            assert(v@.subrange(0, i as int + 1) =~= v@.subrange(0, i as int).push(v@[i as int]));
            assert(sig_refs(out@) =~= sig_refs(old(out)@) + v@.subrange(0, i as int + 1));
        }
        i = i + 1;
    }
    proof {
        assert(v@.subrange(0, v@.len() as int) =~= v@);
    }
}

/// Appends the members named `name` of the given kind.
fn push_members<'b>(out: &mut Vec<&'b TypedFunctionSignature>, methods: &'b Vec<TypedNamedFunctionSignature>, inits: &'b Vec<TypedFunctionSignature>, name: &str, kind: AssociatedMemberKind)
    ensures
        sig_refs(final(out)@) == sig_refs(old(out)@) + select_members(methods@, inits@, name@, kind),
{
    match kind {
        AssociatedMemberKind::Method => push_named_methods(out, methods, name),
        AssociatedMemberKind::Initializer => {
            let is_init = str_eq(name, "init");
            proof {
                reveal_strlit("init");
                assert("init"@ =~= init_name());
            }
            if is_init {
                push_all_sigs(out, inits);
            } else {
                proof {
                    assert(sig_refs(out@) =~= sig_refs(old(out)@) + Seq::<TypedFunctionSignature>::empty());
                }
            }
        },
    }
}

/// Appends each signature named `name` of `ms` with receiver `recv`.
fn push_receiver_methods<'b>(out: &mut Vec<(InferenceType, &'b TypedFunctionSignature)>, recv: &InferenceType, ms: &'b Vec<TypedNamedFunctionSignature>, name: &str)
    ensures
        method_refs(final(out)@) == method_refs(old(out)@) + with_receiver(*recv, named_methods(ms@, name@)),
{
    let mut sigs: Vec<&'b TypedFunctionSignature> = Vec::new();
    push_named_methods(&mut sigs, ms, name);
    proof {
        assert(sig_refs(sigs@) =~= named_methods(ms@, name@));
    }
    let mut i: usize = 0;
    while i < sigs.len()
        invariant
            i <= sigs@.len(),
            sig_refs(sigs@) == named_methods(ms@, name@),
            method_refs(out@) == method_refs(old(out)@) + with_receiver(*recv, sig_refs(sigs@).subrange(0, i as int)),
        decreases sigs@.len() - i,
    {
        let ghost before = out@;
        out.push((recv.clone(), sigs[i]));
        proof {
            assert(sig_refs(sigs@)[i as int] == *sigs@[i as int]);
            assert(method_refs(out@) =~= method_refs(before).push((*recv, *sigs@[i as int])));
            assert(sig_refs(sigs@).subrange(0, i as int + 1) =~= sig_refs(sigs@).subrange(0, i as int).push(*sigs@[i as int]));
            assert(with_receiver(*recv, sig_refs(sigs@).subrange(0, i as int + 1)) =~= with_receiver(*recv, sig_refs(sigs@).subrange(0, i as int)).push((*recv, *sigs@[i as int])));
            assert(method_refs(out@) =~= method_refs(old(out)@) + with_receiver(*recv, sig_refs(sigs@).subrange(0, i as int + 1)));
        }
        i = i + 1;
    }
    proof {
        assert(sig_refs(sigs@).subrange(0, sigs@.len() as int) =~= sig_refs(sigs@));
    }
}


fn infer_ty(t: &Type) -> (r: InferenceType)
    ensures
        r == inference_type_of(*t),
{
    match ConcreteType::from_semantic_type(t) {
        Some(c) => InferenceType::Known(c),
        None => InferenceType::Error,
    }
}

fn params_of(sig: &TypedFunctionSignature) -> (r: Vec<InferenceType>)
    ensures
        r@ == sig_params(*sig),
{
    let mut out: Vec<InferenceType> = Vec::new();
    let mut i: usize = 0;
    while i < sig.param_types.len()
        invariant
            i <= sig.param_types@.len(),
            out@ == sig_params(*sig).subrange(0, i as int),
        decreases sig.param_types@.len() - i,
    {
        out.push(infer_ty(&sig.param_types[i]));
        proof {
            assert(out@ =~= sig_params(*sig).subrange(0, i as int + 1));
        }
        i = i + 1;
    }
    proof {
        assert(out@ =~= sig_params(*sig));
    }
    out
}

fn ret_of(sig: &TypedFunctionSignature) -> (r: Option<InferenceType>)
    ensures
        r == sig_ret(*sig),
{
    match &sig.return_type {
        Some(t) => Some(infer_ty(t)),
        None => None,
    }
}

/// Whether the argument types fit the parameter types, pair by pair, in
/// the scratch context `probe`.
fn pairs_ok(probe: &mut InferenceContext, args: &Vec<InferenceType>, params: &Vec<InferenceType>) -> (b: bool)
    requires
        old(probe).wf(),
    ensures
        b == pairs_compat(old(probe).spec_roots(), args@, params@),
{
    let ghost r0 = probe.spec_roots();
    let mut i: usize = 0;
    proof {
        assert(args@.subrange(0, args@.len() as int) =~= args@);
        assert(params@.subrange(0, params@.len() as int) =~= params@);
    }
    while i < args.len() && i < params.len()
        invariant
            probe.wf(),
            r0 == old(probe).spec_roots(),
            i <= args@.len(),
            i <= params@.len(),
            pairs_compat(r0, args@, params@) == pairs_compat(probe.spec_roots(), args@.subrange(i as int, args@.len() as int), params@.subrange(i as int, params@.len() as int)),
        decreases args@.len() - i,
    {
        let ghost a = args@.subrange(i as int, args@.len() as int);
        let ghost p = params@.subrange(i as int, params@.len() as int);
        proof {
            assert(a[0] == args@[i as int]);
            assert(p[0] == params@[i as int]);
            assert(a.drop_first() =~= args@.subrange(i as int + 1, args@.len() as int));
            assert(p.drop_first() =~= params@.subrange(i as int + 1, params@.len() as int));
        }
        let ghost rb = probe.spec_roots();
        let ok = probe_compatible(probe, args[i].clone(), params[i].clone());
        proof {
            assert(a.len() > 0 && p.len() > 0);
            assert(pairs_compat(rb, a, p) == (ok && pairs_compat(probe.spec_roots(), a.drop_first(), p.drop_first())));
        }
        if !ok {
            return false;
        }
        i = i + 1;
    }
    true
}

/// Whether a signature fits the expected type and the argument types,
/// tried in a scratch copy of `ctx`.
fn call_compat_exec(ctx: &InferenceContext, sig: &TypedFunctionSignature, args: &Vec<InferenceType>, expected: &Option<InferenceType>) -> (b: bool)
    requires
        ctx.wf(),
    ensures
        b == call_compat(ctx.spec_roots(), *sig, args@, *expected),
{
    let mut probe = ctx.fork();
    call_compat_in(&mut probe, sig, args, expected)
}

fn call_compat_in(probe: &mut InferenceContext, sig: &TypedFunctionSignature, args: &Vec<InferenceType>, expected: &Option<InferenceType>) -> (b: bool)
    requires
        old(probe).wf(),
    ensures
        b == call_compat(old(probe).spec_roots(), *sig, args@, *expected),
{
    let params = params_of(sig);
    let ret = ret_of(sig);
    match (expected, ret) {
        (Some(e), Some(rt)) => {
            if !probe_compatible(probe, rt, e.clone()) {
                return false;
            }
            pairs_ok(probe, args, &params)
        },
        _ => pairs_ok(probe, args, &params),
    }
}

fn method_compat_exec(ctx: &InferenceContext, recv_ty: &InferenceType, cand_recv: &InferenceType, sig: &TypedFunctionSignature, args: &Vec<InferenceType>, expected: &Option<InferenceType>) -> (b: bool)
    requires
        ctx.wf(),
    ensures
        b == method_compat(ctx.spec_roots(), (*cand_recv, *sig), *recv_ty, args@, *expected),
{
    let mut probe = ctx.fork();
    if !probe_compatible(&mut probe, recv_ty.clone(), cand_recv.clone()) {
        return false;
    }
    call_compat_in(&mut probe, sig, args, expected)
}

fn label_fits_exec(p: &TypedParamLabel, a: &Option<String>) -> (b: bool)
    ensures
        b == label_fits(*p, *a),
{
    match p {
        TypedParamLabel::Explicit(name) => match a {
            Some(l) => str_eq(l.as_str(), name.as_str()),
            None => false,
        },
        _ => a.is_none(),
    }
}

fn shape_fits_exec(sig: &TypedFunctionSignature, args: &Vec<HirCallArg>) -> (b: bool)
    ensures
        b == shape_fits(*sig, args@),
{
    if sig.param_types.len() != args.len() {
        return false;
    }
    let mut i: usize = 0;
    while i < sig.param_labels.len() && i < args.len()
        invariant
            i <= sig.param_labels@.len(),
            i <= args@.len(),
            sig.param_types@.len() == args@.len(),
            forall|j: int| 0 <= j < i ==> label_fits(#[trigger] sig.param_labels@[j], args@[j].label),
        decreases args@.len() - i,
    {
        if !label_fits_exec(&sig.param_labels[i], &args[i].label) {
            return false;
        }
        i = i + 1;
    }
    true
}


/// The methods and initializers declared with a struct, enum or protocol.
fn data_members<'b>(d: &'b TypedItemData) -> (r: Option<(&'b Vec<TypedNamedFunctionSignature>, &'b Vec<TypedFunctionSignature>)>)
    ensures
        match r {
            Some((ms, is)) => !(*d is Function) && ms@ == data_methods(*d) && is@ == data_inits(*d),
            None => *d is Function,
        },
{
    match d {
        TypedItemData::Struct(x) => Some((&x.method_signatures, &x.initializer_signatures)),
        TypedItemData::Enum(x) => Some((&x.method_signatures, &x.initializer_signatures)),
        TypedItemData::Protocol(x) => Some((&x.method_signatures, &x.initializer_signatures)),
        TypedItemData::Function(_) => None,
    }
}

impl<'a> BodyInferencer<'a> {
    fn push_impl_members(&self, owners: &'a [DeclarationOwner], name: &str, kind: AssociatedMemberKind, out: &mut Vec<&'a TypedFunctionSignature>)
        ensures
            sig_refs(final(out)@) == sig_refs(old(out)@) + impl_members(self.ictx(), owners@, name@, kind),
    {
        let mut i: usize = 0;
        while i < owners.len()
            invariant
                i <= owners@.len(),
                sig_refs(out@) == sig_refs(old(out)@) + impl_members(self.ictx(), owners@.subrange(0, i as int), name@, kind),
            decreases owners@.len() - i,
        {
            proof {
                assert(owners@.subrange(0, i as int + 1).drop_last() =~= owners@.subrange(0, i as int));
            }
            let ghost before = sig_refs(out@);
            match self.impl_sig(&owners[i]) {
                Some(im) => {
                    push_members(out, &im.method_signatures, &im.initializer_signatures, name, kind);
                    proof {
                        let prev = impl_members(self.ictx(), owners@.subrange(0, i as int), name@, kind);
                        let add = select_members(im.method_signatures@, im.initializer_signatures@, name@, kind);
                        assert(sig_refs(out@) =~= sig_refs(old(out)@) + (prev + add));
                    }
                },
                None => {
                },
            }
            i = i + 1;
        }
        proof {
            assert(owners@.subrange(0, owners@.len() as int) =~= owners@);
        }
    }

    fn call_candidates(&self, callee: HirExprId) -> (r: Vec<&'a TypedFunctionSignature>)
        ensures
            sig_refs(r@) == call_candidates(self.ictx(), callee),
    {
        let hir: &'a SemanticHirInput = self.hir_input;
        let mut out: Vec<&'a TypedFunctionSignature> = Vec::new();
        proof {
            assert(sig_refs(out@) =~= Seq::<TypedFunctionSignature>::empty());
        }
        match hir.hir_path_table.by_expr(self.body_ref.file_id, callee) {
            Some(HirPathResolution::Item(r)) => match self.item_of_ref(r) {
                Some(id) => match self.item_data(id) {
                    Some(TypedItemData::Function(sig)) => {
                        out.push(sig);
                        proof {
                            assert(sig_refs(out@) =~= seq![*sig]);
                        }
                    },
                    Some(d) => match data_members(d) {
                        Some((_, inits)) => {
                            push_all_sigs(&mut out, inits);
                            proof {
                                assert(sig_refs(out@) =~= data_inits(*d));
                            }
                        },
                        None => {
                        },
                    },
                    None => {
                    },
                },
                None => {
                },
            },
            Some(HirPathResolution::AssociatedMember { type_item_ref, member_name, member_kind }) => match self.item_of_ref(type_item_ref) {
                Some(id) => {
                    match self.item_data(id) {
                        Some(d) => match data_members(d) {
                            Some((ms, inits)) => push_members(&mut out, ms, inits, member_name.as_str(), *member_kind),
                            None => {
                            },
                        },
                        None => {
                        },
                    }
                    let ghost own = sig_refs(out@);
                    self.push_impl_members(self.impl_owners(id), member_name.as_str(), *member_kind, &mut out);
                    proof {
                        assert(sig_refs(out@) =~= associated_sigs(self.ictx(), id, member_name@, *member_kind));
                    }
                },
                None => {
                },
            },
            _ => {
            },
        }
        out
    }

    fn push_impl_methods(&self, owners: &'a [DeclarationOwner], name: &str, out: &mut Vec<(InferenceType, &'a TypedFunctionSignature)>)
        ensures
            method_refs(final(out)@) == method_refs(old(out)@) + impl_methods(self.ictx(), owners@, name@),
    {
        let mut i: usize = 0;
        while i < owners.len()
            invariant
                i <= owners@.len(),
                method_refs(out@) == method_refs(old(out)@) + impl_methods(self.ictx(), owners@.subrange(0, i as int), name@),
            decreases owners@.len() - i,
        {
            proof {
                assert(owners@.subrange(0, i as int + 1).drop_last() =~= owners@.subrange(0, i as int));
            }
            match self.impl_sig(&owners[i]) {
                Some(im) => {
                    let recv = infer_ty(&im.target);
                    push_receiver_methods(out, &recv, &im.method_signatures, name);
                    proof {
                        let prev = impl_methods(self.ictx(), owners@.subrange(0, i as int), name@);
                        let add = with_receiver(inference_type_of(im.target), named_methods(im.method_signatures@, name@));
                        assert(method_refs(out@) =~= method_refs(old(out)@) + (prev + add));
                    }
                },
                None => {
                },
            }
            i = i + 1;
        }
        proof {
            assert(owners@.subrange(0, owners@.len() as int) =~= owners@);
        }
    }

    fn push_item_methods(&self, id: ItemId, name: &str, out: &mut Vec<(InferenceType, &'a TypedFunctionSignature)>)
        ensures
            method_refs(final(out)@) == method_refs(old(out)@) + item_methods(self.ictx(), id, name@),
    {
        match self.nominal_for_item(id) {
            None => {
                proof {
                    assert(method_refs(out@) =~= method_refs(old(out)@) + item_methods(self.ictx(), id, name@));
                }
            },
            Some(recv) => {
                match self.item_data(id) {
                    Some(d) => match data_members(d) {
                        Some((ms, _)) => push_receiver_methods(out, &recv, ms, name),
                        None => {
                        },
                    },
                    None => {
                    },
                }
                let ghost own = method_refs(out@);
                self.push_impl_methods(self.impl_owners(id), name, out);
                proof {
                    assert(method_refs(out@) =~= method_refs(old(out)@) + item_methods(self.ictx(), id, name@));
                }
            },
        }
    }

    fn push_declared_methods(&self, es: &'a Vec<(ItemId, TypedItemData)>, name: &str, out: &mut Vec<(InferenceType, &'a TypedFunctionSignature)>)
        ensures
            method_refs(final(out)@) == method_refs(old(out)@) + declared_methods(es@, name@),
    {
        let mut i: usize = 0;
        while i < es.len()
            invariant
                i <= es@.len(),
                method_refs(out@) == method_refs(old(out)@) + declared_methods(es@.subrange(0, i as int), name@),
            decreases es@.len() - i,
        {
            proof {
                assert(es@.subrange(0, i as int + 1).drop_last() =~= es@.subrange(0, i as int));
            }
            let (id, d) = &es[i];
            let kind = match d {
                TypedItemData::Struct(_) => Some(NamedTypeKind::Struct),
                TypedItemData::Enum(_) => Some(NamedTypeKind::Enum),
                TypedItemData::Protocol(_) => Some(NamedTypeKind::Protocol),
                TypedItemData::Function(_) => None,
            };
            match kind {
                Some(k) => match data_members(d) {
                    Some((ms, _)) => {
                        let recv = InferenceType::Known(ConcreteType::Nominal { item_id: *id, kind: k });
                        push_receiver_methods(out, &recv, ms, name);
                        proof {
                            let prev = declared_methods(es@.subrange(0, i as int), name@);
                            let add = with_receiver(recv, named_methods(data_methods(*d), name@));
                            assert(method_refs(out@) =~= method_refs(old(out)@) + (prev + add));
                        }
                    },
                    None => {
                    },
                },
                None => {
                },
            }
            i = i + 1;
        }
        proof {
            assert(es@.subrange(0, es@.len() as int) =~= es@);
        }
    }

    fn push_all_impl_methods(&self, es: &'a Vec<(ItemId, TypedItemData)>, name: &str, out: &mut Vec<(InferenceType, &'a TypedFunctionSignature)>)
        ensures
            method_refs(final(out)@) == method_refs(old(out)@) + all_impl_methods(self.ictx(), es@, name@),
    {
        let mut i: usize = 0;
        while i < es.len()
            invariant
                i <= es@.len(),
                method_refs(out@) == method_refs(old(out)@) + all_impl_methods(self.ictx(), es@.subrange(0, i as int), name@),
            decreases es@.len() - i,
        {
            proof {
                assert(es@.subrange(0, i as int + 1).drop_last() =~= es@.subrange(0, i as int));
            }
            let ghost before = method_refs(out@);
            self.push_impl_methods(self.impl_owners(es[i].0), name, out);
            proof {
                let prev = all_impl_methods(self.ictx(), es@.subrange(0, i as int), name@);
                let add = impl_methods(self.ictx(), impl_owners(self.ictx(), es@[i as int].0), name@);
                assert(method_refs(out@) =~= method_refs(old(out)@) + (prev + add));
            }
            i = i + 1;
        }
        proof {
            assert(es@.subrange(0, es@.len() as int) =~= es@);
        }
    }

    fn method_candidates(&mut self, name: &str, recv: &InferenceType) -> (r: Vec<(InferenceType, &'a TypedFunctionSignature)>)
        requires
            old(self).wf(),
        ensures
            final(self).wf(),
            final(self).ictx() == old(self).ictx(),
            final(self).st() == old(self).st(),
            method_refs(r@) == method_candidates(old(self).ictx(), old(self).st().m.roots, name@, *recv),
    {
        let mut out: Vec<(InferenceType, &'a TypedFunctionSignature)> = Vec::new();
        proof {
            assert(method_refs(out@) =~= Seq::<(InferenceType, TypedFunctionSignature)>::empty());
        }
        match self.nominal_id(recv) {
            Some(id) => {
                self.push_item_methods(id, name, &mut out);
                proof {
                    assert(method_refs(out@) =~= item_methods(self.ictx(), id, name@));
                }
            },
            None => {
                let es = self.entries();
                self.push_declared_methods(es, name, &mut out);
                self.push_all_impl_methods(es, name, &mut out);
                proof {
                    assert(method_refs(out@) =~= declared_methods(es@, name@) + all_impl_methods(self.ictx(), es@, name@));
                }
            },
        }
        out
    }
}


fn shaped_exec<'b>(cs: &Vec<&'b TypedFunctionSignature>, args: &Vec<HirCallArg>) -> (r: Vec<&'b TypedFunctionSignature>)
    ensures
        sig_refs(r@) == shaped(sig_refs(cs@), args@),
{
    let mut out: Vec<&'b TypedFunctionSignature> = Vec::new();
    let mut i: usize = 0;
    proof {
        assert(sig_refs(out@) =~= shaped(sig_refs(cs@).subrange(0, 0), args@));
    }
    while i < cs.len()
        invariant
            i <= cs@.len(),
            sig_refs(out@) == shaped(sig_refs(cs@).subrange(0, i as int), args@),
        decreases cs@.len() - i,
    {
        proof {
            assert(sig_refs(cs@).subrange(0, i as int + 1).drop_last() =~= sig_refs(cs@).subrange(0, i as int));
            assert(sig_refs(cs@).subrange(0, i as int + 1).last() == *cs@[i as int]);
        }
        let ghost before = out@;
        if shape_fits_exec(cs[i], args) {
            out.push(cs[i]);
            proof {
                assert(sig_refs(out@) =~= sig_refs(before).push(*cs@[i as int]));
            }
        }
        i = i + 1;
    }
    proof {
        assert(sig_refs(cs@).subrange(0, cs@.len() as int) =~= sig_refs(cs@));
    }
    out
}

fn compatible_calls_exec<'b>(ctx: &InferenceContext, cs: &Vec<&'b TypedFunctionSignature>, args: &Vec<InferenceType>, expected: &Option<InferenceType>) -> (r: Vec<&'b TypedFunctionSignature>)
    requires
        ctx.wf(),
    ensures
        sig_refs(r@) == compatible_calls(sig_refs(cs@), ctx.spec_roots(), args@, *expected),
{
    let mut out: Vec<&'b TypedFunctionSignature> = Vec::new();
    let mut i: usize = 0;
    proof {
        assert(sig_refs(out@) =~= compatible_calls(sig_refs(cs@).subrange(0, 0), ctx.spec_roots(), args@, *expected));
    }
    while i < cs.len()
        invariant
            ctx.wf(),
            i <= cs@.len(),
            sig_refs(out@) == compatible_calls(sig_refs(cs@).subrange(0, i as int), ctx.spec_roots(), args@, *expected),
        decreases cs@.len() - i,
    {
        proof {
            assert(sig_refs(cs@).subrange(0, i as int + 1).drop_last() =~= sig_refs(cs@).subrange(0, i as int));
            assert(sig_refs(cs@).subrange(0, i as int + 1).last() == *cs@[i as int]);
        }
        let ghost before = out@;
        if call_compat_exec(ctx, cs[i], args, expected) {
            out.push(cs[i]);
            proof {
                assert(sig_refs(out@) =~= sig_refs(before).push(*cs@[i as int]));
            }
        }
        i = i + 1;
    }
    proof {
        assert(sig_refs(cs@).subrange(0, cs@.len() as int) =~= sig_refs(cs@));
    }
    out
}

fn shaped_methods_exec<'b>(cs: &Vec<(InferenceType, &'b TypedFunctionSignature)>, args: &Vec<HirCallArg>) -> (r: Vec<(InferenceType, &'b TypedFunctionSignature)>)
    ensures
        method_refs(r@) == shaped_methods(method_refs(cs@), args@),
{
    let mut out: Vec<(InferenceType, &'b TypedFunctionSignature)> = Vec::new();
    let mut i: usize = 0;
    proof {
        assert(method_refs(out@) =~= shaped_methods(method_refs(cs@).subrange(0, 0), args@));
    }
    while i < cs.len()
        invariant
            i <= cs@.len(),
            method_refs(out@) == shaped_methods(method_refs(cs@).subrange(0, i as int), args@),
        decreases cs@.len() - i,
    {
        proof {
            assert(method_refs(cs@).subrange(0, i as int + 1).drop_last() =~= method_refs(cs@).subrange(0, i as int));
            assert(method_refs(cs@).subrange(0, i as int + 1).last() == (cs@[i as int].0, *cs@[i as int].1));
        }
        let ghost before = out@;
        if shape_fits_exec(cs[i].1, args) {
            out.push((cs[i].0.clone(), cs[i].1));
            proof {
                assert(method_refs(out@) =~= method_refs(before).push((cs@[i as int].0, *cs@[i as int].1)));
            }
        }
        i = i + 1;
    }
    proof {
        assert(method_refs(cs@).subrange(0, cs@.len() as int) =~= method_refs(cs@));
    }
    out
}

fn compatible_methods_exec<'b>(ctx: &InferenceContext, cs: &Vec<(InferenceType, &'b TypedFunctionSignature)>, recv: &InferenceType, args: &Vec<InferenceType>, expected: &Option<InferenceType>) -> (r: Vec<(InferenceType, &'b TypedFunctionSignature)>)
    requires
        ctx.wf(),
    ensures
        method_refs(r@) == compatible_methods(method_refs(cs@), ctx.spec_roots(), *recv, args@, *expected),
{
    let mut out: Vec<(InferenceType, &'b TypedFunctionSignature)> = Vec::new();
    let mut i: usize = 0;
    proof {
        assert(method_refs(out@) =~= compatible_methods(method_refs(cs@).subrange(0, 0), ctx.spec_roots(), *recv, args@, *expected));
    }
    while i < cs.len()
        invariant
            ctx.wf(),
            i <= cs@.len(),
            method_refs(out@) == compatible_methods(method_refs(cs@).subrange(0, i as int), ctx.spec_roots(), *recv, args@, *expected),
        decreases cs@.len() - i,
    {
        proof {
            assert(method_refs(cs@).subrange(0, i as int + 1).drop_last() =~= method_refs(cs@).subrange(0, i as int));
            assert(method_refs(cs@).subrange(0, i as int + 1).last() == (cs@[i as int].0, *cs@[i as int].1));
        }
        let ghost before = out@;
        if method_compat_exec(ctx, recv, &cs[i].0, cs[i].1, args, expected) {
            out.push((cs[i].0.clone(), cs[i].1));
            proof {
                assert(method_refs(out@) =~= method_refs(before).push((cs@[i as int].0, *cs@[i as int].1)));
            }
        }
        i = i + 1;
    }
    proof {
        assert(method_refs(cs@).subrange(0, cs@.len() as int) =~= method_refs(cs@));
    }
    out
}

/// The name an enum is reported by.
fn enum_display_exec(id: ItemId) -> (r: String)
    ensures
        r@ == enum_display(id),
{
    let mut s = String::from_str("EnumItemId(");
    proof {
        reveal_strlit("EnumItemId(");
    }
    push_decimal(&mut s, id.0);
    s.append(")");
    proof {
        reveal_strlit(")");
        assert(s@ =~= enum_display(id));
    }
    s
}

fn first_case_exec<'b>(cases: &'b Vec<TypedEnumCaseSignature>, name: &str) -> (r: Option<&'b TypedEnumCaseSignature>)
    ensures
        match r {
            Some(c) => first_case(cases@, name@) == Some(*c),
            None => first_case(cases@, name@) is None,
        },
{
    let mut i: usize = 0;
    proof {
        assert(cases@.subrange(0, cases@.len() as int) =~= cases@);
    }
    while i < cases.len()
        invariant
            i <= cases@.len(),
            first_case(cases@, name@) == first_case(cases@.subrange(i as int, cases@.len() as int), name@),
        decreases cases@.len() - i,
    {
        proof {
            assert(cases@.subrange(i as int, cases@.len() as int).drop_first() =~= cases@.subrange(i as int + 1, cases@.len() as int));
        }
        if str_eq(cases[i].name.as_str(), name) {
            return Some(&cases[i]);
        }
        i = i + 1;
    }
    None
}

/// Enum candidates as views.
pub open spec fn arity_view(v: Seq<(ItemId, String, &Vec<Type>)>) -> Seq<(ItemId, Seq<char>, Seq<Type>)> {
    v.map_values(|c: (ItemId, String, &Vec<Type>)| (c.0, c.1@, c.2@))
}

fn enums_with_case_exec(es: &Vec<(ItemId, TypedItemData)>, name: &str) -> (r: Vec<(ItemId, String)>)
    ensures
        named_ids_view(r@) == enums_with_case(es@, name@),
{
    let mut out: Vec<(ItemId, String)> = Vec::new();
    let mut i: usize = 0;
    proof {
        assert(named_ids_view(out@) =~= enums_with_case(es@.subrange(0, 0), name@));
    }
    while i < es.len()
        invariant
            i <= es@.len(),
            named_ids_view(out@) == enums_with_case(es@.subrange(0, i as int), name@),
        decreases es@.len() - i,
    {
        proof {
            assert(es@.subrange(0, i as int + 1).drop_last() =~= es@.subrange(0, i as int));
        }
        let ghost before = out@;
        if let TypedItemData::Enum(d) = &es[i].1 {
            if first_case_exec(&d.case_signatures, name).is_some() {
                out.push((es[i].0, enum_display_exec(es[i].0)));
                proof {
                    assert(named_ids_view(out@) =~= named_ids_view(before).push((es@[i as int].0, enum_display(es@[i as int].0))));
                }
            }
        }
        i = i + 1;
    }
    proof {
        assert(es@.subrange(0, es@.len() as int) =~= es@);
    }
    out
}

fn enum_names_exec(es: &Vec<(ItemId, TypedItemData)>) -> (r: Vec<String>)
    ensures
        string_views(r@) == enum_names(es@),
{
    let mut out: Vec<String> = Vec::new();
    let mut i: usize = 0;
    proof {
        assert(string_views(out@) =~= enum_names(es@.subrange(0, 0)));
    }
    while i < es.len()
        invariant
            i <= es@.len(),
            string_views(out@) == enum_names(es@.subrange(0, i as int)),
        decreases es@.len() - i,
    {
        proof {
            assert(es@.subrange(0, i as int + 1).drop_last() =~= es@.subrange(0, i as int));
        }
        let ghost before = out@;
        if let TypedItemData::Enum(_) = &es[i].1 {
            out.push(enum_display_exec(es[i].0));
            proof {
                assert(string_views(out@) =~= string_views(before).push(enum_display(es@[i as int].0)));
            }
        }
        i = i + 1;
    }
    proof {
        assert(es@.subrange(0, es@.len() as int) =~= es@);
    }
    out
}

fn enums_with_arity_exec<'b>(es: &'b Vec<(ItemId, TypedItemData)>, name: &str, n: usize) -> (r: Vec<(ItemId, String, &'b Vec<Type>)>)
    ensures
        arity_view(r@) == enums_with_arity(es@, name@, n as nat),
{
    let mut out: Vec<(ItemId, String, &'b Vec<Type>)> = Vec::new();
    let mut i: usize = 0;
    proof {
        assert(arity_view(out@) =~= enums_with_arity(es@.subrange(0, 0), name@, n as nat));
    }
    while i < es.len()
        invariant
            i <= es@.len(),
            arity_view(out@) == enums_with_arity(es@.subrange(0, i as int), name@, n as nat),
        decreases es@.len() - i,
    {
        proof {
            assert(es@.subrange(0, i as int + 1).drop_last() =~= es@.subrange(0, i as int));
        }
        let ghost before = out@;
        if let TypedItemData::Enum(d) = &es[i].1 {
            if let Some(c) = first_case_exec(&d.case_signatures, name) {
                if c.payload_types.len() == n {
                    out.push((es[i].0, enum_display_exec(es[i].0), &c.payload_types));
                    proof {
                        assert(arity_view(out@) =~= arity_view(before).push((es@[i as int].0, enum_display(es@[i as int].0), c.payload_types@)));
                    }
                }
            }
        }
        i = i + 1;
    }
    proof {
        assert(es@.subrange(0, es@.len() as int) =~= es@);
    }
    out
}


impl<'a> BodyInferencer<'a> {
    fn expr(&self, e: HirExprId) -> (r: Option<&'a HirExpr>)
        ensures
            match r {
                Some(x) => expr_of(self.ictx(), e) == Some(*x),
                None => expr_of(self.ictx(), e) is None,
            },
    {
        let module: &'a HirModule = self.module;
        module.exprs.get(&e)
    }

    fn resolution(&self, e: HirExprId) -> (r: Option<&'a HirPathResolution>)
        ensures
            match r {
                Some(x) => resolution(self.ictx(), e) == Some(*x),
                None => resolution(self.ictx(), e) is None,
            },
    {
        let hir: &'a SemanticHirInput = self.hir_input;
        hir.hir_path_table.by_expr(self.body_ref.file_id, e)
    }

    fn callee_target(&self, callee: HirExprId) -> (r: Option<InferredCallTarget>)
        ensures
            match r {
                Some(t) => callee_target(self.ictx(), callee) == Some(t@),
                None => callee_target(self.ictx(), callee) is None,
            },
    {
        let x = match self.expr(callee) {
            Some(x) => x,
            None => return None,
        };
        match self.resolution(callee) {
            Some(HirPathResolution::Item(_)) => match &x.kind {
                HirExprKind::Path { segments } => Some(InferredCallTarget::Function { path: clone_strings(segments) }),
                HirExprKind::NamespaceField { base, name } => match self.expr(*base) {
                    Some(b) => match &b.kind {
                        HirExprKind::Path { segments } => {
                            let mut path = clone_strings(segments);
                            let ghost p0 = path@;
                            path.push(name.clone());
                            proof {
                                assert(string_views(path@) =~= string_views(p0).push(name@));
                            }
                            Some(InferredCallTarget::Function { path })
                        },
                        _ => None,
                    },
                    None => None,
                },
                _ => None,
            },
            Some(HirPathResolution::AssociatedMember { type_item_ref, member_name, member_kind }) => Some(InferredCallTarget::AssociatedMember {
                type_item_id: self.item_of_ref(type_item_ref),
                member_name: member_name.clone(),
                member_kind: *member_kind,
            }),
            _ => None,
        }
    }

    fn call_return(&self, callee: HirExprId, sig: &TypedFunctionSignature) -> (t: InferenceType)
        ensures
            t == call_return(self.ictx(), callee, *sig),
    {
        if let Some(t) = ret_of(sig) {
            return t;
        }
        let void = InferenceType::Known(ConcreteType::Builtin(BuiltinType::Void));
        match self.resolution(callee) {
            Some(HirPathResolution::Item(r)) => match self.item_of_ref(r) {
                Some(id) => match self.nominal_for_item(id) {
                    Some(t) => t,
                    None => void,
                },
                None => void,
            },
            Some(HirPathResolution::AssociatedMember { type_item_ref, member_kind: AssociatedMemberKind::Initializer, .. }) => match self.item_of_ref(type_item_ref) {
                Some(id) => match self.nominal_for_item(id) {
                    Some(t) => t,
                    None => void,
                },
                None => void,
            },
            _ => void,
        }
    }

    fn single_segment(&self, e: HirExprId) -> (r: Option<&'a String>)
        ensures
            match r {
                Some(n) => single_segment(self.ictx(), e) == Some(n@),
                None => single_segment(self.ictx(), e) is None,
            },
    {
        match self.expr(e) {
            Some(x) => match &x.kind {
                HirExprKind::Path { segments } => if segments.len() == 1 {
                    Some(&segments[0])
                } else {
                    None
                },
                _ => None,
            },
            None => None,
        }
    }

    fn enum_case(&self, id: ItemId, name: &str) -> (r: Option<&'a TypedEnumCaseSignature>)
        ensures
            match r {
                Some(c) => enum_case(self.ictx(), id, name@) == Some(*c),
                None => enum_case(self.ictx(), id, name@) is None,
            },
    {
        match self.item_data(id) {
            Some(TypedItemData::Enum(d)) => first_case_exec(&d.case_signatures, name),
            _ => None,
        }
    }

    fn contextual_path(&mut self, e: HirExprId, expected: &Option<InferenceType>) -> (r: Option<InferenceType>)
        requires
            old(self).wf(),
        ensures
            final(self).wf(),
            final(self).ictx() == old(self).ictx(),
            final(self).st() == old(self).st(),
            r == contextual_path(old(self).ictx(), old(self).st().m.roots, e, *expected),
    {
        let x = match expected {
            Some(x) => x,
            None => return None,
        };
        let id = match self.expected_enum_id(x) {
            Some(id) => id,
            None => return None,
        };
        let name = match self.single_segment(e) {
            Some(n) => n,
            None => return None,
        };
        match self.enum_case(id, name.as_str()) {
            Some(c) => if c.payload_types.len() == 0 {
                self.nominal_for_item(id)
            } else {
                None
            },
            None => None,
        }
    }

    fn scoped_path(&mut self, e: HirExprId, name: &String) -> (r: Option<InferenceType>)
        requires
            old(self).wf(),
            expr_of(old(self).ictx(), e) is Some,
        ensures
            final(self).wf(),
            final(self).ictx() == old(self).ictx(),
            (r, final(self).st()) == scoped_path(old(self).ictx(), old(self).st(), e, name@),
    {
        let span = self.expr(e).unwrap().origin.span;
        let es = self.entries();
        let cands = enums_with_case_exec(es, name.as_str());
        if cands.len() == 0 {
            let available = enum_names_exec(es);
            self.issue(span, BodyInferIssueKind::MissingEnumCase { case_name: name.clone(), available_enums: available });
            None
        } else if cands.len() == 1 {
            proof {
                assert(named_ids_view(cands@)[0].0 == cands@[0].0);
            }
            self.nominal_for_item(cands[0].0)
        } else {
            self.issue(span, BodyInferIssueKind::AmbiguousEnumCase { case_name: name.clone(), candidates: cands });
            None
        }
    }

    fn path_type(&mut self, e: HirExprId, span: Span, expected: &Option<InferenceType>) -> (t: InferenceType)
        requires
            old(self).wf(),
            expr_of(old(self).ictx(), e) is Some,
        ensures
            final(self).wf(),
            final(self).ictx() == old(self).ictx(),
            (t, final(self).st()) == path_type(old(self).ictx(), old(self).st(), e, span, *expected),
    {
        match self.resolution(e) {
            Some(HirPathResolution::Local(id)) => {
                return match self.local_types.get(id) {
                    Some(t) => t.clone(),
                    None => InferenceType::Error,
                };
            },
            Some(_) => {
                return InferenceType::Error;
            },
            None => {
            },
        }
        if let Some(t) = self.contextual_path(e, expected) {
            return t;
        }
        let found = match self.single_segment(e) {
            Some(name) => self.scoped_path(e, name),
            None => None,
        };
        match found {
            Some(t) => t,
            None => {
                self.issue(span, BodyInferIssueKind::MissingResolvedPath { expr_id: e });
                InferenceType::Error
            },
        }
    }

    fn contextual_case(&mut self, callee: HirExprId, n: usize, expected: &Option<InferenceType>) -> (r: Option<(ItemId, &'a String, &'a Vec<Type>)>)
        requires
            old(self).wf(),
        ensures
            final(self).wf(),
            final(self).ictx() == old(self).ictx(),
            final(self).st() == old(self).st(),
            match r {
                Some((id, name, payloads)) => contextual_case(old(self).ictx(), old(self).st().m.roots, callee, n as nat, *expected) == Some((id, name@, payloads@)),
                None => contextual_case(old(self).ictx(), old(self).st().m.roots, callee, n as nat, *expected) is None,
            },
    {
        let x = match expected {
            Some(x) => x,
            None => return None,
        };
        let id = match self.expected_enum_id(x) {
            Some(id) => id,
            None => return None,
        };
        let name = match self.single_segment(callee) {
            Some(n) => n,
            None => return None,
        };
        match self.enum_case(id, name.as_str()) {
            Some(c) => if c.payload_types.len() == n {
                Some((id, name, &c.payload_types))
            } else {
                None
            },
            None => None,
        }
    }

    fn push_pattern_bindings(&self, pat: HirPatId, fuel: usize, out: &mut Vec<LocalId>)
        ensures
            final(out)@ == old(out)@ + pat_bindings(self.ictx(), pat, fuel as nat),
        decreases fuel,
    {
        if fuel == 0 {
            proof {
                assert(out@ =~= old(out)@ + pat_bindings(self.ictx(), pat, fuel as nat));
            }
            return;
        }
        let module: &'a HirModule = self.module;
        let p = match module.patterns.get(&pat) {
            Some(p) => p,
            None => {
                proof {
                    assert(out@ =~= old(out)@ + pat_bindings(self.ictx(), pat, fuel as nat));
                }
                return;
            },
        };
        if let Some(id) = self.hir_input.hir_local_bindings.binding_for_pat(self.body_ref.file_id, pat) {
            out.push(id);
        }
        let ghost with_head = out@;
        match &p.kind {
            HirPatKind::Tuple { elements } => {
                let mut i: usize = 0;
                proof {
                    assert(out@ =~= with_head + pats_bindings(self.ictx(), elements@.subrange(0, 0), (fuel - 1) as nat));
                }
                while i < elements.len()
                    invariant
                        i <= elements@.len(),
                        0 < fuel,
                        out@ == with_head + pats_bindings(self.ictx(), elements@.subrange(0, i as int), (fuel - 1) as nat),
                    decreases elements@.len() - i,
                {
                    proof {
                        assert(elements@.subrange(0, i as int + 1).drop_last() =~= elements@.subrange(0, i as int));
                    }
                    self.push_pattern_bindings(elements[i], fuel - 1, out);
                    proof {
                        assert(out@ =~= with_head + pats_bindings(self.ictx(), elements@.subrange(0, i as int + 1), (fuel - 1) as nat));
                    }
                    i = i + 1;
                }
                proof {
                    assert(elements@.subrange(0, elements@.len() as int) =~= elements@);
                    assert(out@ =~= old(out)@ + pat_bindings(self.ictx(), pat, fuel as nat));
                }
            },
            _ => {
                proof {
                    assert(out@ =~= old(out)@ + pat_bindings(self.ictx(), pat, fuel as nat));
                }
            },
        }
    }

    fn bind_locals(&mut self, ids: &Vec<LocalId>, init: &InferenceType)
        requires
            old(self).wf(),
        ensures
            final(self).wf(),
            final(self).ictx() == old(self).ictx(),
            final(self).st() == bind_locals(old(self).st(), ids@, *init),
    {
        let ghost st0 = self.st();
        let mut i: usize = 0;
        proof {
            assert(ids@.subrange(0, 0) =~= Seq::<LocalId>::empty());
        }
        while i < ids.len()
            invariant
                self.wf(),
                self.ictx() == old(self).ictx(),
                st0 == old(self).st(),
                i <= ids@.len(),
                self.st() == bind_locals(st0, ids@.subrange(0, i as int), *init),
            decreases ids@.len() - i,
        {
            proof {
                assert(ids@.subrange(0, i as int + 1).drop_last() =~= ids@.subrange(0, i as int));
            }
            let id = ids[i];
            let lt = match self.local_types.get(&id) {
                Some(t) => t.clone(),
                None => {
                    let v = self.fresh_type();
                    let ghost before = self.st();
                    self.local_types.insert(id, v.clone());
                    proof {
                        assert(self.st() =~= (InferState { locals: before.locals.insert(id, v), ..before }));
                    }
                    v
                },
            };
            let _ = self.constrain(lt, init.clone());
            i = i + 1;
        }
        proof {
            assert(ids@.subrange(0, ids@.len() as int) =~= ids@);
        }
    }
}


fn candidate_names_exec(cs: &Vec<(ItemId, String, &Vec<Type>)>) -> (r: Vec<(ItemId, String)>)
    ensures
        named_ids_view(r@) == candidate_names(arity_view(cs@)),
{
    let mut out: Vec<(ItemId, String)> = Vec::new();
    let mut i: usize = 0;
    while i < cs.len()
        invariant
            i <= cs@.len(),
            named_ids_view(out@) == candidate_names(arity_view(cs@)).subrange(0, i as int),
        decreases cs@.len() - i,
    {
        let ghost before = out@;
        out.push((cs[i].0, cs[i].1.clone()));
        proof {
            assert(named_ids_view(out@) =~= named_ids_view(before).push((cs@[i as int].0, cs@[i as int].1@)));
            assert(named_ids_view(out@) =~= candidate_names(arity_view(cs@)).subrange(0, i as int + 1));
        }
        i = i + 1;
    }
    proof {
        assert(candidate_names(arity_view(cs@)).subrange(0, cs@.len() as int) =~= candidate_names(arity_view(cs@)));
    }
    out
}

impl<'a> BodyInferencer<'a> {
    fn infer_exprs(&mut self, es: &Vec<HirExprId>, f: usize) -> (r: Vec<InferenceType>)
        requires
            old(self).wf(),
        ensures
            final(self).wf(),
            final(self).ictx() == old(self).ictx(),
            (r@, final(self).st()) == infer_exprs_s(old(self).ictx(), old(self).st(), f as nat, es@),
        decreases f, 5nat,
    {
        let ghost ic = self.ictx();
        let ghost st0 = self.st();
        let mut out: Vec<InferenceType> = Vec::new();
        let mut i: usize = 0;
        proof {
            assert(es@.subrange(0, 0) =~= Seq::<HirExprId>::empty());
        }
        while i < es.len()
            invariant
                self.wf(),
                self.ictx() == ic,
                ic == old(self).ictx(),
                st0 == old(self).st(),
                i <= es@.len(),
                (out@, self.st()) == infer_exprs_s(ic, st0, f as nat, es@.subrange(0, i as int)),
            decreases es@.len() - i,
        {
            proof {
                assert(es@.subrange(0, i as int + 1).drop_last() =~= es@.subrange(0, i as int));
            }
            let t = self.infer_expr(es[i], None, f);
            out.push(t);
            i = i + 1;
        }
        proof {
            assert(es@.subrange(0, es@.len() as int) =~= es@);
        }
        out
    }

    fn infer_args(&mut self, es: &Vec<HirExprId>, params: &Vec<InferenceType>, f: usize)
        requires
            old(self).wf(),
        ensures
            final(self).wf(),
            final(self).ictx() == old(self).ictx(),
            final(self).st() == infer_args_s(old(self).ictx(), old(self).st(), f as nat, es@, params@),
        decreases f, 5nat,
    {
        let ghost ic = self.ictx();
        let ghost st0 = self.st();
        let mut i: usize = 0;
        proof {
            assert(es@.subrange(0, 0) =~= Seq::<HirExprId>::empty());
        }
        while i < es.len()
            invariant
                self.wf(),
                self.ictx() == ic,
                ic == old(self).ictx(),
                st0 == old(self).st(),
                i <= es@.len(),
                self.st() == infer_args_s(ic, st0, f as nat, es@.subrange(0, i as int), params@),
            decreases es@.len() - i,
        {
            proof {
                assert(es@.subrange(0, i as int + 1).drop_last() =~= es@.subrange(0, i as int));
            }
            if i < params.len() {
                let p = params[i].clone();
                let t = self.infer_expr(es[i], Some(p.clone()), f);
                let _ = self.constrain(t, p);
            } else {
                let _ = self.infer_expr(es[i], None, f);
            }
            i = i + 1;
        }
        proof {
            assert(es@.subrange(0, es@.len() as int) =~= es@);
        }
    }

    fn infer_payloads(&mut self, es: &Vec<HirExprId>, payloads: &Vec<Type>, f: usize)
        requires
            old(self).wf(),
        ensures
            final(self).wf(),
            final(self).ictx() == old(self).ictx(),
            final(self).st() == infer_payloads_s(old(self).ictx(), old(self).st(), f as nat, es@, payloads@),
        decreases f, 5nat,
    {
        let ghost ic = self.ictx();
        let ghost st0 = self.st();
        let mut i: usize = 0;
        proof {
            assert(es@.subrange(0, 0) =~= Seq::<HirExprId>::empty());
        }
        while i < es.len()
            invariant
                self.wf(),
                self.ictx() == ic,
                ic == old(self).ictx(),
                st0 == old(self).st(),
                i <= es@.len(),
                self.st() == infer_payloads_s(ic, st0, f as nat, es@.subrange(0, i as int), payloads@),
            decreases es@.len() - i,
        {
            proof {
                assert(es@.subrange(0, i as int + 1).drop_last() =~= es@.subrange(0, i as int));
            }
            if i < payloads.len() {
                let p = infer_ty(&payloads[i]);
                let t = self.infer_expr(es[i], Some(p.clone()), f);
                let _ = self.constrain(t, p);
            }
            i = i + 1;
        }
        proof {
            assert(es@.subrange(0, es@.len() as int) =~= es@);
        }
    }

    fn infer_arms(&mut self, arms: &Vec<HirExprId>, expected: &Option<InferenceType>, f: usize) -> (r: Option<InferenceType>)
        requires
            old(self).wf(),
        ensures
            final(self).wf(),
            final(self).ictx() == old(self).ictx(),
            (r, final(self).st()) == infer_arms_s(old(self).ictx(), old(self).st(), f as nat, arms@, *expected),
        decreases f, 5nat,
    {
        let ghost ic = self.ictx();
        let ghost st0 = self.st();
        let mut acc: Option<InferenceType> = None;
        let mut i: usize = 0;
        proof {
            assert(arms@.subrange(0, 0) =~= Seq::<HirExprId>::empty());
        }
        while i < arms.len()
            invariant
                self.wf(),
                self.ictx() == ic,
                ic == old(self).ictx(),
                st0 == old(self).st(),
                i <= arms@.len(),
                (acc, self.st()) == infer_arms_s(ic, st0, f as nat, arms@.subrange(0, i as int), *expected),
            decreases arms@.len() - i,
        {
            proof {
                assert(arms@.subrange(0, i as int + 1).drop_last() =~= arms@.subrange(0, i as int));
            }
            let cur = self.infer_expr(arms[i], expected.clone(), f);
            acc = match acc {
                Some(ex) => Some(self.constrain(ex, cur)),
                None => Some(cur),
            };
            i = i + 1;
        }
        proof {
            assert(arms@.subrange(0, arms@.len() as int) =~= arms@);
        }
        acc
    }

    #[verifier::spinoff_prover]
    #[verifier::rlimit(60)]
    fn infer_stmts(&mut self, stmts: &Vec<HirStmtId>, f: usize)
        requires
            old(self).wf(),
        ensures
            final(self).wf(),
            final(self).ictx() == old(self).ictx(),
            final(self).st() == infer_stmts_s(old(self).ictx(), old(self).st(), f as nat, stmts@),
        decreases f, 5nat,
    {
        let ghost ic = self.ictx();
        let ghost st0 = self.st();
        let mut i: usize = 0;
        proof {
            assert(stmts@.subrange(0, 0) =~= Seq::<HirStmtId>::empty());
        }
        while i < stmts.len()
            invariant
                self.wf(),
                self.ictx() == ic,
                ic == old(self).ictx(),
                st0 == old(self).st(),
                i <= stmts@.len(),
                self.st() == infer_stmts_s(ic, st0, f as nat, stmts@.subrange(0, i as int)),
            decreases stmts@.len() - i,
        {
            proof {
                assert(stmts@.subrange(0, i as int + 1).drop_last() =~= stmts@.subrange(0, i as int));
            }
            self.infer_stmt(stmts[i], f);
            i = i + 1;
        }
        proof {
            assert(stmts@.subrange(0, stmts@.len() as int) =~= stmts@);
        }
    }


    #[verifier::spinoff_prover]
    #[verifier::rlimit(60)]
    fn infer_let(&mut self, pat: HirPatId, value: Option<HirExprId>, span: Span, f: usize)
        requires
            old(self).wf(),
        ensures
            final(self).wf(),
            final(self).ictx() == old(self).ictx(),
            final(self).st() == let_stmt_s(old(self).ictx(), old(self).st(), f as nat, pat, value, span),
        decreases f + 1, 1nat,
    {
        let module: &'a HirModule = self.module;
        let mut ids: Vec<LocalId> = Vec::new();
        self.push_pattern_bindings(pat, module.walk_fuel(), &mut ids);
        proof {
            assert(ids@ =~= pat_bindings(self.ictx(), pat, walk_fuel(*module)));
        }
        let exp = if ids.len() > 0 {
            match self.local_types.get(&ids[0]) {
                Some(t) => Some(t.clone()),
                None => None,
            }
        } else {
            None
        };
        let init = match value {
            Some(v) => Some(self.infer_expr(v, exp, f)),
            None => None,
        };
        if ids.len() == 0 {
            self.issue(span, BodyInferIssueKind::MissingLocalBinding { pat_id: pat });
        }
        if let Some(t) = init {
            self.bind_locals(&ids, &t);
        }
    }

    #[verifier::spinoff_prover]
    #[verifier::rlimit(60)]
    fn infer_stmt(&mut self, s: HirStmtId, fuel: usize)
        requires
            old(self).wf(),
        ensures
            final(self).wf(),
            final(self).ictx() == old(self).ictx(),
            final(self).st() == infer_stmt_s(old(self).ictx(), old(self).st(), fuel as nat, s),
        decreases fuel, 4nat,
    {
        if fuel == 0 {
            return;
        }
        let f = fuel - 1;
        let module: &'a HirModule = self.module;
        let stmt = match module.stmts.get(&s) {
            Some(x) => x,
            None => {
                self.issue(Span::new(0, 0), BodyInferIssueKind::MissingBodyAst);
                return;
            },
        };
        match &stmt.kind {
            HirStmtKind::Let { pat, value, .. } => self.infer_let(*pat, *value, stmt.origin.span, f),
            HirStmtKind::Expr { expr } => {
                let _ = self.infer_expr(*expr, None, f);
            },
            HirStmtKind::Semi { expr } => {
                let _ = self.infer_expr(*expr, None, f);
            },
            HirStmtKind::Item { .. } => {
            },
        }
    }

    fn infer_body(&mut self, b: HirBodyId, expected: Option<InferenceType>, fuel: usize) -> (t: InferenceType)
        requires
            old(self).wf(),
        ensures
            final(self).wf(),
            final(self).ictx() == old(self).ictx(),
            (t, final(self).st()) == infer_body_s(old(self).ictx(), old(self).st(), fuel as nat, b, expected),
        decreases fuel, 4nat,
    {
        if fuel == 0 {
            return InferenceType::Error;
        }
        let f = fuel - 1;
        let module: &'a HirModule = self.module;
        let body = match module.bodies.get(&b) {
            Some(x) => x,
            None => {
                self.issue(Span::new(0, 0), BodyInferIssueKind::MissingBodyAst);
                return InferenceType::Error;
            },
        };
        self.infer_stmts(&body.stmts, f);
        let t = match body.tail_expr {
            Some(tail) => self.infer_expr(tail, expected.clone(), f),
            None => {
                let void = InferenceType::Known(ConcreteType::Builtin(BuiltinType::Void));
                match &expected {
                    Some(x) => self.meet_expected(void, x.clone()),
                    None => void,
                }
            },
        };
        match &expected {
            Some(x) => self.meet_expected(t, x.clone()),
            None => t,
        }
    }

    #[verifier::spinoff_prover]
    #[verifier::rlimit(60)]
    fn contextual_call(&mut self, e: HirExprId, callee: HirExprId, vals: &Vec<HirExprId>, expected: &Option<InferenceType>, f: usize) -> (r: Option<InferenceType>)
        requires
            old(self).wf(),
        ensures
            final(self).wf(),
            final(self).ictx() == old(self).ictx(),
            match r {
                Some(t) => contextual_call_s(old(self).ictx(), old(self).st(), f as nat, e, callee, vals@, *expected) == Some((t, final(self).st())),
                None => contextual_call_s(old(self).ictx(), old(self).st(), f as nat, e, callee, vals@, *expected) is None && final(self).st() == old(self).st(),
            },
        decreases f + 1, 1nat,
    {
        match self.contextual_case(callee, vals.len(), expected) {
            None => None,
            Some((id, name, payloads)) => {
                self.infer_payloads(vals, payloads, f);
                self.record_target(e, Some(InferredCallTarget::EnumCase { enum_item_id: id, case_name: name.clone() }));
                let t = self.nominal_for_item(id);
                Some(t.unwrap())
            },
        }
    }

    #[verifier::spinoff_prover]
    #[verifier::rlimit(60)]
    fn scoped_call(&mut self, e: HirExprId, callee: HirExprId, vals: &Vec<HirExprId>, f: usize) -> (r: Option<InferenceType>)
        requires
            old(self).wf(),
        ensures
            final(self).wf(),
            final(self).ictx() == old(self).ictx(),
            (r, final(self).st()) == scoped_call_s(old(self).ictx(), old(self).st(), f as nat, e, callee, vals@),
        decreases f + 1, 1nat,
    {
        let name = match self.single_segment(callee) {
            Some(n) => n,
            None => return None,
        };
        let es = self.entries();
        let cands = enums_with_arity_exec(es, name.as_str(), vals.len());
        if cands.len() == 0 {
            None
        } else if cands.len() == 1 {
            let id = cands[0].0;
            let payloads = cands[0].2;
            proof {
                assert(arity_view(cands@)[0] == (cands@[0].0, cands@[0].1@, cands@[0].2@));
            }
            self.infer_payloads(vals, payloads, f);
            self.record_target(e, Some(InferredCallTarget::EnumCase { enum_item_id: id, case_name: name.clone() }));
            self.nominal_for_item(id)
        } else {
            let span = self.expr(callee).unwrap().origin.span;
            let named = candidate_names_exec(&cands);
            self.issue(span, BodyInferIssueKind::AmbiguousEnumCase { case_name: name.clone(), candidates: named });
            None
        }
    }

    #[verifier::spinoff_prover]
    #[verifier::rlimit(60)]
    fn infer_call(&mut self, e: HirExprId, callee: HirExprId, args: &Vec<HirCallArg>, span: Span, expected: Option<InferenceType>, f: usize) -> (t: InferenceType)
        requires
            old(self).wf(),
        ensures
            final(self).wf(),
            final(self).ictx() == old(self).ictx(),
            (t, final(self).st()) == infer_call_s(old(self).ictx(), old(self).st(), f as nat, e, callee, args@, span, expected),
        decreases f + 1, 2nat,
    {
        let field = match self.expr(callee) {
            Some(x) => match &x.kind {
                HirExprKind::Field { base, name } => Some((*base, name)),
                HirExprKind::OptionalField { base, name } => Some((*base, name)),
                _ => None,
            },
            None => None,
        };
        if let Some((base, name)) = field {
            return self.infer_method(e, base, name.as_str(), args, span, expected, f);
        }
        let _ = self.infer_expr(callee, None, f);
        let cands = self.call_candidates(callee);
        let vals = call_arg_ids(args);
        if cands.len() == 0 {
            if let Some(t) = self.contextual_call(e, callee, &vals, &expected, f) {
                return t;
            }
            let found = if expected.is_none() {
                self.scoped_call(e, callee, &vals, f)
            } else {
                None
            };
            match found {
                Some(t) => t,
                None => {
                    let _ = self.infer_exprs(&vals, f);
                    self.issue(span, BodyInferIssueKind::InvalidCallTarget);
                    InferenceType::Error
                },
            }
        } else {
            let sh = shaped_exec(&cands, args);
            let tys = self.infer_exprs(&vals, f);
            let matched = compatible_calls_exec(&self.ctx, &sh, &tys, &expected);
            if matched.len() == 0 {
                self.issue(span, BodyInferIssueKind::NoMatchingCallCandidate { candidate_count: cands.len() });
                InferenceType::Error
            } else if matched.len() > 1 {
                self.issue(span, BodyInferIssueKind::AmbiguousCallCandidate { candidate_count: matched.len() });
                InferenceType::Error
            } else {
                let sig = matched[0];
                let target = self.callee_target(callee);
                self.record_target(e, target);
                let params = params_of(sig);
                self.infer_args(&vals, &params, f);
                self.call_return(callee, sig)
            }
        }
    }

    fn infer_method(&mut self, e: HirExprId, receiver: HirExprId, name: &str, args: &Vec<HirCallArg>, span: Span, expected: Option<InferenceType>, f: usize) -> (t: InferenceType)
        requires
            old(self).wf(),
        ensures
            final(self).wf(),
            final(self).ictx() == old(self).ictx(),
            (t, final(self).st()) == infer_method_s(old(self).ictx(), old(self).st(), f as nat, e, receiver, name@, args@, span, expected),
        decreases f + 1, 1nat,
    {
        let rt = self.infer_expr(receiver, None, f);
        let vals = call_arg_ids(args);
        let cands = self.method_candidates(name, &rt);
        if cands.len() == 0 {
            let _ = self.infer_exprs(&vals, f);
            self.issue(span, BodyInferIssueKind::InvalidCallTarget);
            return InferenceType::Error;
        }
        let sh = shaped_methods_exec(&cands, args);
        let tys = self.infer_exprs(&vals, f);
        let matched = compatible_methods_exec(&self.ctx, &sh, &rt, &tys, &expected);
        if matched.len() == 0 {
            let all = self.method_candidates(name, &rt);
            self.issue(span, BodyInferIssueKind::NoMatchingCallCandidate { candidate_count: all.len() });
            InferenceType::Error
        } else if matched.len() > 1 {
            self.issue(span, BodyInferIssueKind::AmbiguousCallCandidate { candidate_count: matched.len() });
            InferenceType::Error
        } else {
            let recv = matched[0].0.clone();
            let sig = matched[0].1;
            proof {
                assert(method_refs(matched@)[0] == (recv, *sig));
            }
            let receiver_item_id = self.nominal_id(&recv);
            self.record_target(e, Some(InferredCallTarget::Method { receiver_item_id, method_name: name.to_string() }));
            let _ = self.constrain(rt, recv);
            let params = params_of(sig);
            self.infer_args(&vals, &params, f);
            match ret_of(sig) {
                Some(t) => t,
                None => InferenceType::Known(ConcreteType::Builtin(BuiltinType::Void)),
            }
        }
    }

    fn infer_expr(&mut self, e: HirExprId, expected: Option<InferenceType>, fuel: usize) -> (t: InferenceType)
        requires
            old(self).wf(),
        ensures
            final(self).wf(),
            final(self).ictx() == old(self).ictx(),
            (t, final(self).st()) == infer_expr_s(old(self).ictx(), old(self).st(), fuel as nat, e, expected),
        decreases fuel, 4nat,
    {
        if fuel == 0 {
            return InferenceType::Error;
        }
        let x = match self.expr(e) {
            Some(x) => x,
            None => {
                self.issue(Span::new(0, 0), BodyInferIssueKind::MissingBodyAst);
                return InferenceType::Error;
            },
        };
        let t = self.infer_kind(e, x, expected.clone(), fuel - 1);
        let t2 = match &expected {
            Some(xe) => self.meet_expected(t, xe.clone()),
            None => t,
        };
        self.set_expr_type(e, t2.clone());
        t2
    }

    #[verifier::spinoff_prover]
    #[verifier::rlimit(60)]
    fn infer_kind(&mut self, e: HirExprId, x: &'a HirExpr, expected: Option<InferenceType>, f: usize) -> (t: InferenceType)
        requires
            old(self).wf(),
            expr_of(old(self).ictx(), e) == Some(*x),
        ensures
            final(self).wf(),
            final(self).ictx() == old(self).ictx(),
            (t, final(self).st()) == infer_kind_s(old(self).ictx(), old(self).st(), f as nat, e, *x, expected),
        decreases f + 1, 3nat,
    {
        let span = x.origin.span;
        let bool_ty = InferenceType::Known(ConcreteType::Builtin(BuiltinType::Bool));
        let void_ty = InferenceType::Known(ConcreteType::Builtin(BuiltinType::Void));
        let never_ty = InferenceType::Known(ConcreteType::Builtin(BuiltinType::Never));
        match &x.kind {
            HirExprKind::Literal(l) => self.literal(*l),
            HirExprKind::Path { .. } => self.path_type(e, span, &expected),
            HirExprKind::NamespaceField { .. } => self.path_type(e, span, &expected),
            HirExprKind::Call { callee, args } => self.infer_call(e, *callee, args, span, expected.clone(), f),
            HirExprKind::MethodCall { receiver, name, args } => self.infer_method(e, *receiver, name.as_str(), args, span, expected.clone(), f),
            HirExprKind::Block { body } => self.infer_body(*body, expected.clone(), f),
            HirExprKind::If { condition, then_body, else_expr } => {
                let _ = self.infer_expr(*condition, Some(bool_ty), f);
                let tt = self.infer_body(*then_body, expected.clone(), f);
                match else_expr {
                    None => {
                        self.issue(span, BodyInferIssueKind::MissingElseBranch);
                        InferenceType::Error
                    },
                    Some(el) => {
                        let te = self.infer_expr(*el, expected.clone(), f);
                        self.merge_branches(tt, te)
                    },
                }
            },
            HirExprKind::Assign { target, value, .. } => {
                let tt = self.infer_expr(*target, None, f);
                let tv = self.infer_expr(*value, Some(tt.clone()), f);
                self.constrain(tt, tv)
            },
            HirExprKind::Return { value } => {
                let ret = self.function_return_type.clone();
                match value {
                    Some(v) => {
                        let tv = self.infer_expr(*v, Some(ret.clone()), f);
                        let _ = self.constrain(ret, tv);
                    },
                    None => {
                        let _ = self.constrain(ret, void_ty);
                    },
                }
                never_ty
            },
            HirExprKind::Unary { op, expr } => match op {
                HirUnaryOp::Not => {
                    let _ = self.infer_expr(*expr, Some(bool_ty.clone()), f);
                    bool_ty
                },
                _ => {
                    let out = self.fresh_type();
                    let ti = self.infer_expr(*expr, Some(out.clone()), f);
                    self.constrain(ti, out)
                },
            },
            HirExprKind::Binary { op, lhs, rhs } => self.infer_binary(*op, *lhs, *rhs, f),
            HirExprKind::While { condition, body } => {
                let _ = self.infer_expr(*condition, Some(bool_ty), f);
                let _ = self.infer_body(*body, None, f);
                void_ty
            },
            HirExprKind::For { iterator, body, .. } => {
                let _ = self.infer_expr(*iterator, None, f);
                let _ = self.infer_body(*body, None, f);
                void_ty
            },
            HirExprKind::Try { expr } => self.infer_expr(*expr, expected.clone(), f),
            HirExprKind::ForceUnwrap { expr } => self.infer_expr(*expr, expected.clone(), f),
            HirExprKind::Spread { expr } => self.infer_expr(*expr, expected.clone(), f),
            HirExprKind::Break => never_ty,
            HirExprKind::Continue => never_ty,
            HirExprKind::Array { elements } => {
                let ids = element_ids(elements);
                let _ = self.infer_exprs(&ids, f);
                InferenceType::Error
            },
            HirExprKind::Struct { fields } => {
                let ids = field_ids(fields);
                let _ = self.infer_exprs(&ids, f);
                InferenceType::Error
            },
            HirExprKind::Tuple { elements } => {
                let _ = self.infer_exprs(elements, f);
                InferenceType::Error
            },
            HirExprKind::Match { subject, arms } => {
                let _ = self.infer_expr(*subject, None, f);
                let ids = arm_ids(arms);
                match self.infer_arms(&ids, &expected, f) {
                    Some(t) => t,
                    None => void_ty,
                }
            },
            HirExprKind::Field { base, .. } => {
                let _ = self.infer_expr(*base, None, f);
                InferenceType::Error
            },
            HirExprKind::OptionalField { base, .. } => {
                let _ = self.infer_expr(*base, None, f);
                InferenceType::Error
            },
            HirExprKind::Index { base, index } => {
                let _ = self.infer_expr(*base, None, f);
                let _ = self.infer_expr(*index, None, f);
                InferenceType::Error
            },
            HirExprKind::OptionalIndex { base, index } => {
                let _ = self.infer_expr(*base, None, f);
                let _ = self.infer_expr(*index, None, f);
                InferenceType::Error
            },
            _ => InferenceType::Error,
        }
    }

    fn infer_binary(&mut self, op: HirBinaryOp, lhs: HirExprId, rhs: HirExprId, f: usize) -> (t: InferenceType)
        requires
            old(self).wf(),
        ensures
            final(self).wf(),
            final(self).ictx() == old(self).ictx(),
            (t, final(self).st()) == infer_binary_s(old(self).ictx(), old(self).st(), f as nat, op, lhs, rhs),
        decreases f + 1, 1nat,
    {
        let bool_ty = InferenceType::Known(ConcreteType::Builtin(BuiltinType::Bool));
        let logical = match op {
            HirBinaryOp::LogicalAnd | HirBinaryOp::LogicalOr => true,
            _ => false,
        };
        let comparison = match op {
            HirBinaryOp::Equal | HirBinaryOp::NotEqual | HirBinaryOp::Less | HirBinaryOp::LessEqual | HirBinaryOp::Greater | HirBinaryOp::GreaterEqual => true,
            _ => false,
        };
        let coalescing = match op {
            HirBinaryOp::NullCoalescing => true,
            _ => false,
        };
        if logical {
            let _ = self.infer_expr(lhs, Some(bool_ty.clone()), f);
            let _ = self.infer_expr(rhs, Some(bool_ty.clone()), f);
            bool_ty
        } else if comparison || coalescing {
            let tl = self.infer_expr(lhs, None, f);
            let tr = self.infer_expr(rhs, Some(tl.clone()), f);
            let tu = self.constrain(tl, tr);
            if coalescing {
                tu
            } else {
                bool_ty
            }
        } else {
            let out = self.fresh_type();
            let tl = self.infer_expr(lhs, Some(out.clone()), f);
            let tr = self.infer_expr(rhs, Some(out.clone()), f);
            let out2 = self.constrain(tl, out);
            self.constrain(tr, out2)
        }
    }
}


// ---------------------------------------------------------------------------
// One body from start to finish.

/// The last of `locals` with id `id`.
pub open spec fn last_local(locals: Seq<ResolvedLocal>, id: LocalId) -> Option<ResolvedLocal>
    decreases locals.len(),
{
    if locals.len() == 0 {
        None
    } else if locals.last().id == id {
        Some(locals.last())
    } else {
        last_local(locals.drop_last(), id)
    }
}

/// The first of `locals` with id `id`.
pub open spec fn first_local(locals: Seq<ResolvedLocal>, id: LocalId) -> Option<ResolvedLocal>
    decreases locals.len(),
{
    if locals.len() == 0 {
        None
    } else if locals[0].id == id {
        Some(locals[0])
    } else {
        first_local(locals.drop_first(), id)
    }
}

/// Whether local `id` of the body is a binding written without a type, so
/// that inference must find its type.
pub open spec fn unannotated(body: ResolvedBody, id: LocalId) -> bool {
    match last_local(body.locals@, id) {
        Some(l) => l.kind != LocalKind::Parameter && l.declared_type is None,
        None => false,
    }
}

/// Where local `id` was declared, or `0..0`.
pub open spec fn declared_span(body: ResolvedBody, id: LocalId) -> Span {
    match first_local(body.locals@, id) {
        Some(l) => l.declared_span,
        None => zero_span(),
    }
}

/// The model of a fresh inference context with the default literal defaults.
pub open spec fn initial_ctx() -> CtxModel {
    CtxModel {
        roots: |v: TypeVarId| InferenceType::Var(v),
        next: 0,
        hints: seq![],
        issues: seq![],
        constraints: seq![],
        defaults: InferenceDefaults { integer_default: BuiltinType::I32, float_default: BuiltinType::F64 },
    }
}

/// The starting local types: an unannotated binding gets a fresh variable,
/// any other local its environment type.
pub open spec fn init_locals(body: ResolvedBody, entries: Seq<(LocalId, Type)>) -> (CtxModel, Map<LocalId, InferenceType>)
    decreases entries.len(),
{
    if entries.len() == 0 {
        (initial_ctx(), Map::empty())
    } else {
        let (m, locals) = init_locals(body, entries.drop_last());
        let (h, sem) = entries.last();
        if unannotated(body, h) {
            (m_fresh(m), locals.insert(h, InferenceType::Var(TypeVarId(m.next))))
        } else {
            (m, locals.insert(h, inference_type_of(sem)))
        }
    }
}

/// The state inference of a body starts from.
pub open spec fn initial_state(body: ResolvedBody, env: BodyTypeEnvironment) -> InferState {
    let (m, locals) = init_locals(body, env.local_types@);
    InferState { m, locals, exprs: Map::empty(), targets: Map::empty(), issues: seq![] }
}

/// A map of inference types finalized.
pub open spec fn fin_map<K>(roots: spec_fn(TypeVarId) -> InferenceType, m: Map<K, InferenceType>) -> Map<K, Type> {
    Map::new(|k: K| m.contains_key(k), |k: K| finalize_ty(roots, m[k]))
}

/// The context's issues as issues of the body at `0..0`.
pub open spec fn core_issue_views(ic: InferCtx, issues: Seq<InferenceIssue>) -> Seq<BodyInferIssueView> {
    issues.map_values(|i: InferenceIssue| BodyInferIssueView {
        owner: ic.owner,
        body_index: ic.body_index,
        span: zero_span(),
        kind: BodyInferIssueKindView::CoreInferenceIssue { kind: i.kind },
    })
}

/// The unannotated locals among `keys` whose type is still a variable,
/// reported in order.
pub open spec fn local_issue_views(ic: InferCtx, body: ResolvedBody, keys: Seq<LocalId>, roots: spec_fn(TypeVarId) -> InferenceType, locals: Map<LocalId, InferenceType>) -> Seq<BodyInferIssueView>
    decreases keys.len(),
{
    if keys.len() == 0 {
        seq![]
    } else {
        let prev = local_issue_views(ic, body, keys.drop_last(), roots, locals);
        let h = keys.last();
        if unannotated(body, h) && locals.contains_key(h) && res_in(roots, locals[h]) is Var {
            prev.push(BodyInferIssueView {
                owner: ic.owner,
                body_index: ic.body_index,
                span: declared_span(body, h),
                kind: BodyInferIssueKindView::RequiresExplicitLocalTypeAnnotation { hir_local_id: h, resolved_local_id: Some(h) },
            })
        } else {
            prev
        }
    }
}

/// The locals of an environment, in id order.
pub open spec fn env_keys(env: BodyTypeEnvironment) -> Seq<LocalId> {
    env.local_types@.map_values(|e: (LocalId, Type)| e.0)
}

/// What inferring one body gives: its result type, the types of its
/// expressions and locals (by HIR id and by resolved id), its call targets
/// and its issues.
pub struct BodyInferResult {
    pub root: Type,
    pub exprs: Map<HirExprId, Type>,
    pub hir_locals: Map<LocalId, Type>,
    pub resolved_locals: Map<LocalId, Type>,
    pub targets: Map<HirExprId, CallTargetView>,
    pub issues: Seq<BodyInferIssueView>,
}

/// Inferring one body: its block against the return type, then literal
/// defaulting, then finalizing every type; the context's issues and the
/// unannotated locals left without a type are reported after the body's own.
pub open spec fn infer_one_s(ic: InferCtx, body: ResolvedBody, env: BodyTypeEnvironment) -> BodyInferResult {
    let (t, s1) = infer_body_s(ic, initial_state(body, env), walk_fuel(ic.module), ic.body, Some(ic.ret));
    let m2 = m_finalize(s1.m);
    let hir_locals = fin_map(m2.roots, s1.locals);
    BodyInferResult {
        root: finalize_ty(m2.roots, t),
        exprs: fin_map(m2.roots, s1.exprs),
        hir_locals,
        resolved_locals: Map::new(|k: LocalId| hir_locals.contains_key(k) && entries_contain(env.local_types@, k), |k: LocalId| hir_locals[k]),
        targets: s1.targets,
        issues: s1.issues + core_issue_views(ic, m2.issues) + local_issue_views(ic, body, env_keys(env), m2.roots, s1.locals),
    }
}

fn last_local_exec(locals: &Vec<ResolvedLocal>, id: LocalId) -> (r: Option<&ResolvedLocal>)
    ensures
        match r {
            Some(l) => last_local(locals@, id) == Some(*l),
            None => last_local(locals@, id) is None,
        },
{
    let mut i: usize = locals.len();
    proof {
        assert(locals@.subrange(0, locals@.len() as int) =~= locals@);
    }
    while i > 0
        invariant
            i <= locals@.len(),
            last_local(locals@, id) == last_local(locals@.subrange(0, i as int), id),
        decreases i,
    {
        proof {
            assert(locals@.subrange(0, i as int).drop_last() =~= locals@.subrange(0, i as int - 1));
        }
        if locals[i - 1].id == id {
            return Some(&locals[i - 1]);
        }
        i = i - 1;
    }
    None
}

fn first_local_exec(locals: &Vec<ResolvedLocal>, id: LocalId) -> (r: Option<&ResolvedLocal>)
    ensures
        match r {
            Some(l) => first_local(locals@, id) == Some(*l),
            None => first_local(locals@, id) is None,
        },
{
    let mut i: usize = 0;
    proof {
        assert(locals@.subrange(0, locals@.len() as int) =~= locals@);
    }
    while i < locals.len()
        invariant
            i <= locals@.len(),
            first_local(locals@, id) == first_local(locals@.subrange(i as int, locals@.len() as int), id),
        decreases locals@.len() - i,
    {
        proof {
            assert(locals@.subrange(i as int, locals@.len() as int).drop_first() =~= locals@.subrange(i as int + 1, locals@.len() as int));
        }
        if locals[i].id == id {
            return Some(&locals[i]);
        }
        i = i + 1;
    }
    None
}

fn unannotated_exec(body: &ResolvedBody, id: LocalId) -> (b: bool)
    ensures
        b == unannotated(*body, id),
{
    match last_local_exec(&body.locals, id) {
        Some(l) => !matches!(l.kind, LocalKind::Parameter) && l.declared_type.is_none(),
        None => false,
    }
}

fn declared_span_exec(body: &ResolvedBody, id: LocalId) -> (r: Span)
    ensures
        r == declared_span(*body, id),
{
    match first_local_exec(&body.locals, id) {
        Some(l) => l.declared_span,
        None => Span::new(0, 0),
    }
}

impl<'a> BodyInferencer<'a> {
    fn new(body: &'a ResolvedBody, body_ref: SemanticBodyRef, module: &'a HirModule, hir_input: &'a SemanticHirInput, typed_items: &'a TypedItemTable, env: &'a BodyTypeEnvironment) -> (r: Self)
        ensures
            r.wf(),
            r.ictx() == (InferCtx {
                hir: *hir_input,
                items: *typed_items,
                module: *module,
                file: body_ref.file_id,
                body: body_ref.body_id,
                owner: body.owner,
                body_index: body.body_index,
                ret: inference_type_of(env.expected_return_type),
            }),
            r.st() == initial_state(*body, *env),
    {
        let mut ctx = InferenceContext::new();
        proof {
            assert(ctx_model(ctx) =~= initial_ctx());
        }
        let entries = env.local_types.entries();
        let mut local_types: SortedMap<LocalId, InferenceType> = SortedMap::new();
        let mut i: usize = 0;
        proof {
            assert(entries@.subrange(0, 0) =~= Seq::<(LocalId, Type)>::empty());
            assert(entries_map(local_types@) =~= Map::<LocalId, InferenceType>::empty());
        }
        while i < entries.len()
            invariant
                i <= entries@.len(),
                entries@ == env.local_types@,
                ctx.wf(),
                hints_below(ctx_model(ctx)),
                (ctx_model(ctx), entries_map(local_types@)) == init_locals(*body, entries@.subrange(0, i as int)),
            decreases entries@.len() - i,
        {
            proof {
                assert(entries@.subrange(0, i as int + 1).drop_last() =~= entries@.subrange(0, i as int));
            }
            let (h, sem) = &entries[i];
            let ghost m0 = ctx_model(ctx);
            let ghost l0 = entries_map(local_types@);
            let t = if unannotated_exec(body, *h) {
                ctx_fresh_type(&mut ctx)
            } else {
                infer_ty(sem)
            };
            local_types.insert(*h, t);
            proof {
                assert(entries_map(local_types@) =~= l0.insert(*h, t));
            }
            i = i + 1;
        }
        proof {
            assert(entries@.subrange(0, entries@.len() as int) =~= entries@);
        }
        let function_return_type = infer_ty(&env.expected_return_type);
        let r = BodyInferencer {
            body,
            body_ref,
            module,
            hir_input,
            typed_items,
            ctx,
            function_return_type,
            local_types,
            expr_types: SortedMap::new(),
            selected_call_targets: SortedMap::new(),
            issues: Vec::new(),
        };
        proof {
            assert(entries_map(r.expr_types@) =~= Map::<HirExprId, InferenceType>::empty());
            assert(targets_view(r.selected_call_targets@) =~= Map::<HirExprId, CallTargetView>::empty());
            assert(infer_issue_views(r.issues@) =~= Seq::<BodyInferIssueView>::empty());
            assert(r.st() =~= initial_state(*body, *env));
        }
        r
    }

}

/// Finalizing a sorted entry list pointwise finalizes its map.
proof fn lemma_same_keys_map<K: MapKey>(out: Seq<(K, Type)>, src: Seq<(K, InferenceType)>, roots: spec_fn(TypeVarId) -> InferenceType)
    requires
        entries_sorted(src),
        out.len() == src.len(),
        forall|j: int| 0 <= j < out.len() ==> #[trigger] out[j] == (src[j].0, finalize_ty(roots, src[j].1)),
    ensures
        entries_map(out) == fin_map(roots, entries_map(src)),
{
    assert forall|k: K| #[trigger] entries_contain(out, k) <==> entries_contain(src, k) by {
        if entries_contain(out, k) {
            let j = choose|j: int| 0 <= j < out.len() && #[trigger] out[j].0 == k;
            assert(src[j].0 == k);
        }
        if entries_contain(src, k) {
            let j = choose|j: int| 0 <= j < src.len() && #[trigger] src[j].0 == k;
            assert(out[j].0 == k);
        }
    }
    assert forall|k: K| entries_contain(src, k) implies #[trigger] entries_lookup(out, k) == Some(finalize_ty(roots, entries_lookup(src, k).unwrap())) by {
        let j = choose|j: int| 0 <= j < src.len() && #[trigger] src[j].0 == k;
        lemma_lookup_at(src, j);
        assert(entries_sorted(out)) by {
            assert forall|a: int, b: int| 0 <= a < b < out.len() implies #[trigger] out[a].0.key_lt(#[trigger] out[b].0) by {
                assert(src[a].0.key_lt(src[b].0));
            }
        }
        lemma_lookup_at(out, j);
    }
    assert(entries_map(out) =~= fin_map(roots, entries_map(src)));
}


/// Finalizes every type of a map under `ctx`'s resolution.
fn finalize_map<K: MapKey>(ctx: &mut InferenceContext, m: &SortedMap<K, InferenceType>) -> (r: SortedMap<K, Type>)
    requires
        old(ctx).wf(),
        hints_below(ctx_model(*old(ctx))),
    ensures
        final(ctx).wf(),
        hints_below(ctx_model(*final(ctx))),
        ctx_model(*final(ctx)) == ctx_model(*old(ctx)),
        entries_map(r@) == fin_map(ctx_model(*old(ctx)).roots, entries_map(m@)),
{
    let entries = m.entries();
    let ghost roots = ctx_model(*ctx).roots;
    let mut out: Vec<(K, Type)> = Vec::new();
    let mut i: usize = 0;
    while i < entries.len()
        invariant
            ctx.wf(),
            hints_below(ctx_model(*ctx)),
            ctx_model(*ctx) == ctx_model(*old(ctx)),
            roots == ctx_model(*old(ctx)).roots,
            i <= entries@.len(),
            entries@ == m@,
            entries_sorted(entries@),
            out@.len() == i,
            forall|j: int| 0 <= j < i ==> #[trigger] out@[j] == (entries@[j].0, finalize_ty(roots, entries@[j].1)),
        decreases entries@.len() - i,
    {
        let r = ctx_resolve(ctx, entries[i].1.clone());
        let t = match r {
            InferenceType::Known(k) => match k.to_semantic_type() {
                Some(x) => x,
                None => Type::error(),
            },
            _ => Type::error(),
        };
        out.push((entries[i].0.copy_key(), t));
        i = i + 1;
    }
    proof {
        assert(entries_sorted(out@)) by {
            assert forall|a: int, b: int| 0 <= a < b < out@.len() implies #[trigger] out@[a].0.key_lt(#[trigger] out@[b].0) by {
                assert(entries@[a].0.key_lt(entries@[b].0));
            }
        }
    }
    let r = SortedMap::from_sorted_entries(out);
    proof {
        lemma_same_keys_map(r@, m@, roots);
    }
    r
}

/// The finalized type of `t` under `ctx`'s resolution.
fn finalize_type(ctx: &mut InferenceContext, t: &InferenceType) -> (r: Type)
    requires
        old(ctx).wf(),
        hints_below(ctx_model(*old(ctx))),
    ensures
        final(ctx).wf(),
        hints_below(ctx_model(*final(ctx))),
        ctx_model(*final(ctx)) == ctx_model(*old(ctx)),
        r == finalize_ty(ctx_model(*old(ctx)).roots, *t),
{
    match ctx_resolve(ctx, t.clone()) {
        InferenceType::Known(k) => match k.to_semantic_type() {
            Some(x) => x,
            None => Type::error(),
        },
        _ => Type::error(),
    }
}

/// What inferring one body produced.
struct BodyInferOutput {
    root: Type,
    exprs: SortedMap<HirExprId, Type>,
    hir_locals: SortedMap<LocalId, Type>,
    resolved_locals: SortedMap<LocalId, Type>,
    targets: SortedMap<HirExprId, InferredCallTarget>,
    issues: Vec<BodyInferIssue>,
}

/// The result an output stands for.
spec fn output_view(o: BodyInferOutput) -> BodyInferResult {
    BodyInferResult {
        root: o.root,
        exprs: entries_map(o.exprs@),
        hir_locals: entries_map(o.hir_locals@),
        resolved_locals: entries_map(o.resolved_locals@),
        targets: targets_view(o.targets@),
        issues: infer_issue_views(o.issues@),
    }
}

/// The inference context of a body.
pub open spec fn body_ictx(hir: SemanticHirInput, items: TypedItemTable, module: HirModule, body_ref: SemanticBodyRef, body: ResolvedBody, env: BodyTypeEnvironment) -> InferCtx {
    InferCtx {
        hir,
        items,
        module,
        file: body_ref.file_id,
        body: body_ref.body_id,
        owner: body.owner,
        body_index: body.body_index,
        ret: inference_type_of(env.expected_return_type),
    }
}

#[verifier::rlimit(40)]
fn infer_one(body: &ResolvedBody, body_ref: SemanticBodyRef, module: &HirModule, hir_input: &SemanticHirInput, typed_items: &TypedItemTable, env: &BodyTypeEnvironment) -> (r: BodyInferOutput)
    ensures
        output_view(r) == infer_one_s(body_ictx(*hir_input, *typed_items, *module, body_ref, *body, *env), *body, *env),
{
    let ghost ic = body_ictx(*hir_input, *typed_items, *module, body_ref, *body, *env);
    let mut inf = BodyInferencer::new(body, body_ref, module, hir_input, typed_items, env);
    let ret = inf.function_return_type.clone();
    let t = inf.infer_body(body_ref.body_id, Some(ret), module.walk_fuel());
    let ghost s1 = inf.st();
    ctx_finalize(&mut inf.ctx);
    let ghost m2 = ctx_model(inf.ctx);
    proof {
        assert(m2 == m_finalize(s1.m));
    }
    let mut j: usize = 0;
    while j < inf.ctx.issue_list().len()
        invariant
            inf.ctx.wf(),
            hints_below(ctx_model(inf.ctx)),
            ctx_model(inf.ctx) == m2,
            inf.ictx() == ic,
            ic.owner == body.owner,
            ic.body_index == body.body_index,
            j <= m2.issues.len(),
            infer_issue_views(inf.issues@) == s1.issues + core_issue_views(ic, m2.issues.subrange(0, j as int)),
            entries_map(inf.expr_types@) == s1.exprs,
            entries_map(inf.local_types@) == s1.locals,
            targets_view(inf.selected_call_targets@) == s1.targets,
        decreases m2.issues.len() - j,
    {
        let kind = inf.ctx.issue_list()[j].kind.clone();
        let ghost before = infer_issue_views(inf.issues@);
        let iss = BodyInferIssue { owner: body.owner, body_index: body.body_index, span: Span::new(0, 0), kind: BodyInferIssueKind::CoreInferenceIssue { kind } };
        let ghost iv = iss@;
        let ghost v0 = inf.issues@;
        inf.issues.push(iss);
        proof {
            assert(m2.issues[j as int] == inf.ctx.spec_issues()[j as int]);
            assert(iv == core_issue_views(ic, m2.issues)[j as int]);
            assert(inf.issues@ == v0.push(iss));
            assert(infer_issue_views(inf.issues@) =~= infer_issue_views(v0).push(iv));
            assert(infer_issue_views(inf.issues@) =~= before.push(core_issue_views(ic, m2.issues)[j as int]));
            assert(core_issue_views(ic, m2.issues.subrange(0, j as int + 1)) =~= core_issue_views(ic, m2.issues.subrange(0, j as int)).push(core_issue_views(ic, m2.issues)[j as int]));
        }
        j = j + 1;
    }
    proof {
        assert(m2.issues.subrange(0, m2.issues.len() as int) =~= m2.issues);
    }
    let root = finalize_type(&mut inf.ctx, &t);
    let exprs = finalize_map(&mut inf.ctx, &inf.expr_types);
    let keys = env.local_types.entries();
    let ghost base = infer_issue_views(inf.issues@);
    let mut k: usize = 0;
    proof {
        assert(keys@.map_values(|e: (LocalId, Type)| e.0).subrange(0, 0) =~= Seq::<LocalId>::empty());
    }
    while k < keys.len()
        invariant
            inf.ctx.wf(),
            hints_below(ctx_model(inf.ctx)),
            ctx_model(inf.ctx) == m2,
            keys@ == env.local_types@,
            targets_view(inf.selected_call_targets@) == s1.targets,
            ic.owner == body.owner,
            ic.body_index == body.body_index,
            k <= keys@.len(),
            entries_map(inf.local_types@) == s1.locals,
            infer_issue_views(inf.issues@) == base + local_issue_views(ic, *body, env_keys(*env).subrange(0, k as int), m2.roots, s1.locals),
        decreases keys@.len() - k,
    {
        let h = keys[k].0;
        proof {
            assert(env_keys(*env).subrange(0, k as int + 1).drop_last() =~= env_keys(*env).subrange(0, k as int));
            assert(env_keys(*env).subrange(0, k as int + 1).last() == h);
        }
        let ghost before = infer_issue_views(inf.issues@);
        if unannotated_exec(body, h) {
            match inf.local_types.get(&h) {
                Some(lt) => {
                    let r = ctx_resolve(&mut inf.ctx, lt.clone());
                    if matches!(r, InferenceType::Var(_)) {
                        let span = declared_span_exec(body, h);
                        let iss = BodyInferIssue {
                            owner: body.owner,
                            body_index: body.body_index,
                            span,
                            kind: BodyInferIssueKind::RequiresExplicitLocalTypeAnnotation { hir_local_id: h, resolved_local_id: Some(h) },
                        };
                        let ghost iv = iss@;
                        let ghost v0 = inf.issues@;
                        inf.issues.push(iss);
                        proof {
                            assert(infer_issue_views(inf.issues@) =~= infer_issue_views(v0).push(iv));
                            assert(infer_issue_views(inf.issues@) =~= before.push(BodyInferIssueView {
                                owner: ic.owner,
                                body_index: ic.body_index,
                                span: declared_span(*body, h),
                                kind: BodyInferIssueKindView::RequiresExplicitLocalTypeAnnotation { hir_local_id: h, resolved_local_id: Some(h) },
                            }));
                        }
                    }
                },
                None => {
                },
            }
        }
        k = k + 1;
    }
    proof {
        assert(env_keys(*env).subrange(0, keys@.len() as int) =~= env_keys(*env));
    }
    let hir_locals = finalize_map(&mut inf.ctx, &inf.local_types);
    let hl = hir_locals.entries();
    let mut resolved_locals: SortedMap<LocalId, Type> = SortedMap::new();
    let mut q: usize = 0;
    let ghost hmap = entries_map(hir_locals@);
    proof {
        assert(entries_map(resolved_locals@) =~= Map::new(|x: LocalId| entries_contain(hl@.subrange(0, 0), x) && entries_contain(env.local_types@, x), |x: LocalId| hmap[x]));
    }
    while q < hl.len()
        invariant
            q <= hl@.len(),
            hl@ == hir_locals@,
            entries_sorted(hl@),
            hmap == entries_map(hir_locals@),
            entries_map(resolved_locals@) == Map::new(|x: LocalId| entries_contain(hl@.subrange(0, q as int), x) && entries_contain(env.local_types@, x), |x: LocalId| hmap[x]),
        decreases hl@.len() - q,
    {
        let (lk, lv) = &hl[q];
        let ghost prev = entries_map(resolved_locals@);
        proof {
            lemma_lookup_at(hl@, q as int);
        }
        if env.local_types.contains_key(lk) {
            resolved_locals.insert(*lk, lv.clone());
        }
        proof {
            assert forall|x: LocalId| #[trigger] entries_contain(hl@.subrange(0, q as int + 1), x) <==> (entries_contain(hl@.subrange(0, q as int), x) || x == *lk) by {
                if entries_contain(hl@.subrange(0, q as int + 1), x) {
                    let w = choose|w: int| 0 <= w < q + 1 && #[trigger] hl@.subrange(0, q as int + 1)[w].0 == x;
                    if w < q {
                        assert(hl@.subrange(0, q as int)[w].0 == x);
                    }
                }
                if entries_contain(hl@.subrange(0, q as int), x) {
                    let w = choose|w: int| 0 <= w < q && #[trigger] hl@.subrange(0, q as int)[w].0 == x;
                    assert(hl@.subrange(0, q as int + 1)[w].0 == x);
                }
                if x == *lk {
                    assert(hl@.subrange(0, q as int + 1)[q as int].0 == x);
                }
            }
            assert(entries_map(resolved_locals@) =~= Map::new(|x: LocalId| entries_contain(hl@.subrange(0, q as int + 1), x) && entries_contain(env.local_types@, x), |x: LocalId| hmap[x]));
        }
        q = q + 1;
    }
    proof {
        assert(hl@.subrange(0, hl@.len() as int) =~= hl@);
    }
    let mut targets: SortedMap<HirExprId, InferredCallTarget> = SortedMap::new();
    std::mem::swap(&mut targets, &mut inf.selected_call_targets);
    let mut issues: Vec<BodyInferIssue> = Vec::new();
    std::mem::swap(&mut issues, &mut inf.issues);
    let r = BodyInferOutput { root, exprs, hir_locals, resolved_locals, targets, issues };
    proof {
        let want = infer_one_s(ic, *body, *env);
        let (t0, s0) = infer_body_s(ic, initial_state(*body, *env), walk_fuel(ic.module), ic.body, Some(ic.ret));
        assert(t0 == t);
        assert(s0 == s1);
        assert(output_view(r).root == want.root);
        assert(output_view(r).exprs == want.exprs);
        assert(output_view(r).hir_locals == want.hir_locals);
        assert(output_view(r).targets == want.targets);
        assert(output_view(r).resolved_locals =~= want.resolved_locals);
        assert(output_view(r).issues =~= want.issues);
        assert(output_view(r) =~= want);
    }
    r
}


// ---------------------------------------------------------------------------
// The table of all bodies.

/// What the table of all bodies holds.
pub struct InferTableView {
    pub exprs: Map<BodyExprId, Type>,
    pub hir_locals: Map<BodyKey, Map<LocalId, Type>>,
    pub resolved_locals: Map<BodyKey, Map<LocalId, Type>>,
    pub roots: Map<BodyKey, Type>,
    pub targets: Map<BodyExprId, CallTargetView>,
    pub issues: Seq<BodyInferIssueView>,
}

/// `acc` with the entries of one body's map added under that body.
pub open spec fn merge_body<V>(acc: Map<BodyExprId, V>, owner: DeclarationOwner, body_index: usize, m: Map<HirExprId, V>) -> Map<BodyExprId, V> {
    Map::new(
        |k: BodyExprId| acc.contains_key(k) || (k.owner == owner && k.body_index == body_index && m.contains_key(k.hir_expr_id)),
        |k: BodyExprId| if k.owner == owner && k.body_index == body_index && m.contains_key(k.hir_expr_id) {
            m[k.hir_expr_id]
        } else {
            acc[k]
        },
    )
}

/// `acc` with an issue of `body` at `0..0`.
pub open spec fn with_body_issue(acc: InferTableView, body: ResolvedBody, kind: BodyInferIssueKindView) -> InferTableView {
    InferTableView {
        issues: acc.issues.push(BodyInferIssueView { owner: body.owner, body_index: body.body_index, span: zero_span(), kind }),
        ..acc
    }
}

/// Inferring one resolved body into the table: a body without environment
/// or without HIR is reported; any other is inferred and its results added.
pub open spec fn infer_step(hir: SemanticHirInput, items: TypedItemTable, envs: BodyTypeEnvironmentTable, acc: InferTableView, body: ResolvedBody) -> InferTableView {
    match env_for(envs, body.owner, body.body_index) {
        None => with_body_issue(acc, body, BodyInferIssueKindView::MissingBodyEnvironment),
        Some(env) => {
            let refs = hir.spec_owner_refs(body.owner);
            if body.body_index >= refs.len() {
                with_body_issue(acc, body, BodyInferIssueKindView::MissingBodyAst)
            } else {
                let bref = refs[body.body_index as int];
                match hir.hir_modules.spec_get(bref.file_id) {
                    None => with_body_issue(acc, body, BodyInferIssueKindView::MissingBodyAst),
                    Some(module) => if !entries_contain(module.bodies@, bref.body_id) {
                        with_body_issue(acc, body, BodyInferIssueKindView::MissingBodyAst)
                    } else {
                        let r = infer_one_s(body_ictx(hir, items, module, bref, body, env), body, env);
                        let key = BodyKey { owner: body.owner, body_index: body.body_index };
                        InferTableView {
                            exprs: merge_body(acc.exprs, body.owner, body.body_index, r.exprs),
                            hir_locals: acc.hir_locals.insert(key, r.hir_locals),
                            resolved_locals: acc.resolved_locals.insert(key, r.resolved_locals),
                            roots: acc.roots.insert(key, r.root),
                            targets: merge_body(acc.targets, body.owner, body.body_index, r.targets),
                            issues: acc.issues + r.issues,
                        }
                    },
                }
            }
        },
    }
}

/// Inferring resolved bodies in order.
pub open spec fn infer_fold(hir: SemanticHirInput, items: TypedItemTable, envs: BodyTypeEnvironmentTable, bodies: Seq<ResolvedBody>) -> InferTableView
    decreases bodies.len(),
{
    if bodies.len() == 0 {
        InferTableView {
            exprs: Map::empty(),
            hir_locals: Map::empty(),
            resolved_locals: Map::empty(),
            roots: Map::empty(),
            targets: Map::empty(),
            issues: seq![],
        }
    } else {
        infer_step(hir, items, envs, infer_fold(hir, items, envs, bodies.drop_last()), bodies.last())
    }
}

/// Per-body local maps as mathematical maps.
pub open spec fn nested_view(s: Seq<(BodyKey, SortedMap<LocalId, Type>)>) -> Map<BodyKey, Map<LocalId, Type>> {
    Map::new(|k: BodyKey| entries_contain(s, k), |k: BodyKey| entries_map(entries_lookup(s, k).unwrap()@))
}

/// The types, local types, result types, call targets and issues inference
/// found for every body.
pub struct BodyInferenceTable {
    expr_types_by_hir_expr_id: SortedMap<BodyExprId, Type>,
    local_types_by_hir_id_by_body: SortedMap<BodyKey, SortedMap<LocalId, Type>>,
    local_types_by_resolved_id_by_body: SortedMap<BodyKey, SortedMap<LocalId, Type>>,
    root_types_by_body: SortedMap<BodyKey, Type>,
    call_targets_by_hir_expr_id: SortedMap<BodyExprId, InferredCallTarget>,
    pub issues: Vec<BodyInferIssue>,
}

impl View for BodyInferenceTable {
    type V = InferTableView;

    closed spec fn view(&self) -> InferTableView {
        InferTableView {
            exprs: entries_map(self.expr_types_by_hir_expr_id@),
            hir_locals: nested_view(self.local_types_by_hir_id_by_body@),
            resolved_locals: nested_view(self.local_types_by_resolved_id_by_body@),
            roots: entries_map(self.root_types_by_body@),
            targets: targets_view(self.call_targets_by_hir_expr_id@),
            issues: infer_issue_views(self.issues@),
        }
    }
}

/// The key of an expression of a body.
pub open spec fn expr_key(owner: DeclarationOwner, body_index: usize, e: HirExprId) -> BodyExprId {
    BodyExprId { owner, body_index, hir_expr_id: e }
}

/// The call targets of one body, by ascending expression id.
pub open spec fn body_targets(s: Seq<(BodyExprId, InferredCallTarget)>, owner: DeclarationOwner, body_index: usize) -> Seq<(HirExprId, CallTargetView)>
    decreases s.len(),
{
    if s.len() == 0 {
        seq![]
    } else {
        let prev = body_targets(s.drop_last(), owner, body_index);
        let (k, t) = s.last();
        if k.owner == owner && k.body_index == body_index {
            prev.push((k.hir_expr_id, t@))
        } else {
            prev
        }
    }
}

/// Target pairs as views.
pub open spec fn target_pairs_view(s: Seq<(HirExprId, InferredCallTarget)>) -> Seq<(HirExprId, CallTargetView)> {
    s.map_values(|p: (HirExprId, InferredCallTarget)| (p.0, p.1@))
}

impl BodyInferenceTable {
    /// The call target entries, ascending.
    pub closed spec fn spec_target_entries(&self) -> Seq<(BodyExprId, InferredCallTarget)> {
        self.call_targets_by_hir_expr_id@
    }

    /// The type inferred for an expression of a body.
    pub fn expr_type_for_hir_expr(&self, owner: &DeclarationOwner, body_index: usize, expr_id: HirExprId) -> (r: Option<&Type>)
        ensures
            match r {
                Some(t) => self@.exprs.contains_key(expr_key(*owner, body_index, expr_id)) && self@.exprs[expr_key(*owner, body_index, expr_id)] == *t,
                None => !self@.exprs.contains_key(expr_key(*owner, body_index, expr_id)),
            },
    {
        let r = self.expr_types_by_hir_expr_id.get(&BodyExprId { owner: *owner, body_index, hir_expr_id: expr_id });
        r
    }

    /// The local types of a body by HIR local id.
    pub fn local_types_for_hir_body(&self, owner: &DeclarationOwner, body_index: usize) -> (r: Option<&SortedMap<LocalId, Type>>)
        ensures
            match r {
                Some(m) => self@.hir_locals.contains_key(BodyKey { owner: *owner, body_index }) && self@.hir_locals[BodyKey { owner: *owner, body_index }] == entries_map(m@),
                None => !self@.hir_locals.contains_key(BodyKey { owner: *owner, body_index }),
            },
    {
        self.local_types_by_hir_id_by_body.get(&BodyKey { owner: *owner, body_index })
    }

    /// The type of a HIR local of a body.
    pub fn local_type_for_hir_local(&self, owner: &DeclarationOwner, body_index: usize, hir_local_id: LocalId) -> (r: Option<&Type>)
        ensures
            match r {
                Some(t) => self@.hir_locals.contains_key(BodyKey { owner: *owner, body_index }) && self@.hir_locals[BodyKey { owner: *owner, body_index }].contains_key(hir_local_id)
                    && self@.hir_locals[BodyKey { owner: *owner, body_index }][hir_local_id] == *t,
                None => !(self@.hir_locals.contains_key(BodyKey { owner: *owner, body_index }) && self@.hir_locals[BodyKey { owner: *owner, body_index }].contains_key(hir_local_id)),
            },
    {
        match self.local_types_for_hir_body(owner, body_index) {
            Some(m) => m.get(&hir_local_id),
            None => None,
        }
    }

    /// The local types of a body by resolved local id.
    pub fn local_types_for_resolved_body(&self, owner: &DeclarationOwner, body_index: usize) -> (r: Option<&SortedMap<LocalId, Type>>)
        ensures
            match r {
                Some(m) => self@.resolved_locals.contains_key(BodyKey { owner: *owner, body_index }) && self@.resolved_locals[BodyKey { owner: *owner, body_index }] == entries_map(m@),
                None => !self@.resolved_locals.contains_key(BodyKey { owner: *owner, body_index }),
            },
    {
        self.local_types_by_resolved_id_by_body.get(&BodyKey { owner: *owner, body_index })
    }

    /// The type of a resolved local of a body.
    pub fn local_type_for_resolved_local(&self, owner: &DeclarationOwner, body_index: usize, resolved_local_id: LocalId) -> (r: Option<&Type>)
        ensures
            match r {
                Some(t) => self@.resolved_locals.contains_key(BodyKey { owner: *owner, body_index }) && self@.resolved_locals[BodyKey { owner: *owner, body_index }].contains_key(resolved_local_id)
                    && self@.resolved_locals[BodyKey { owner: *owner, body_index }][resolved_local_id] == *t,
                None => !(self@.resolved_locals.contains_key(BodyKey { owner: *owner, body_index }) && self@.resolved_locals[BodyKey { owner: *owner, body_index }].contains_key(resolved_local_id)),
            },
    {
        match self.local_types_for_resolved_body(owner, body_index) {
            Some(m) => m.get(&resolved_local_id),
            None => None,
        }
    }

    /// The result type of a body.
    pub fn root_type(&self, owner: &DeclarationOwner, body_index: usize) -> (r: Option<&Type>)
        ensures
            match r {
                Some(t) => self@.roots.contains_key(BodyKey { owner: *owner, body_index }) && self@.roots[BodyKey { owner: *owner, body_index }] == *t,
                None => !self@.roots.contains_key(BodyKey { owner: *owner, body_index }),
            },
    {
        self.root_types_by_body.get(&BodyKey { owner: *owner, body_index })
    }

    /// The call target chosen for an expression of a body.
    pub fn call_target_for_hir_expr(&self, owner: &DeclarationOwner, body_index: usize, expr_id: HirExprId) -> (r: Option<&InferredCallTarget>)
        ensures
            match r {
                Some(t) => self@.targets.contains_key(expr_key(*owner, body_index, expr_id)) && self@.targets[expr_key(*owner, body_index, expr_id)] == t@,
                None => !self@.targets.contains_key(expr_key(*owner, body_index, expr_id)),
            },
    {
        self.call_targets_by_hir_expr_id.get(&BodyExprId { owner: *owner, body_index, hir_expr_id: expr_id })
    }

    /// Number of call targets.
    pub fn call_target_count(&self) -> (n: usize)
        ensures
            n == self.spec_target_entries().len(),
            forall|k: BodyExprId| #[trigger] self@.targets.contains_key(k) <==> entries_contain(self.spec_target_entries(), k),
    {
        self.call_targets_by_hir_expr_id.len()
    }

    /// The expression type entries, ascending.
    pub closed spec fn spec_expr_entries(&self) -> Seq<(BodyExprId, Type)> {
        self.expr_types_by_hir_expr_id@
    }

    /// The result type entries, ascending.
    pub closed spec fn spec_root_entries(&self) -> Seq<(BodyKey, Type)> {
        self.root_types_by_body@
    }

    /// Number of expressions with a type.
    pub fn expr_type_count(&self) -> (n: usize)
        ensures
            n == self.spec_expr_entries().len(),
            forall|k: BodyExprId| #[trigger] self@.exprs.contains_key(k) <==> entries_contain(self.spec_expr_entries(), k),
    {
        self.expr_types_by_hir_expr_id.len()
    }

    /// Number of bodies with a result type.
    pub fn root_type_count(&self) -> (n: usize)
        ensures
            n == self.spec_root_entries().len(),
            forall|k: BodyKey| #[trigger] self@.roots.contains_key(k) <==> entries_contain(self.spec_root_entries(), k),
    {
        self.root_types_by_body.len()
    }

    /// Number of HIR locals with a type, over all bodies (saturating).
    pub fn inferred_hir_local_count(&self) -> (n: usize)
    {
        let entries = self.local_types_by_hir_id_by_body.entries();
        let mut total: usize = 0;
        let mut i: usize = 0;
        while i < entries.len()
            invariant
                i <= entries@.len(),
            decreases entries@.len() - i,
        {
            total = total.saturating_add(entries[i].1.len());
            i = i + 1;
        }
        total
    }

    /// The call targets of one body, by ascending expression id.
    pub fn call_targets_for_body(&self, owner: &DeclarationOwner, body_index: usize) -> (r: Vec<(HirExprId, InferredCallTarget)>)
        ensures
            target_pairs_view(r@) == body_targets(self.spec_target_entries(), *owner, body_index),
    {
        let entries = self.call_targets_by_hir_expr_id.entries();
        let mut out: Vec<(HirExprId, InferredCallTarget)> = Vec::new();
        let mut i: usize = 0;
        proof {
            assert(target_pairs_view(out@) =~= body_targets(entries@.subrange(0, 0), *owner, body_index));
        }
        while i < entries.len()
            invariant
                i <= entries@.len(),
                entries@ == self.spec_target_entries(),
                target_pairs_view(out@) == body_targets(entries@.subrange(0, i as int), *owner, body_index),
            decreases entries@.len() - i,
        {
            proof {
                assert(entries@.subrange(0, i as int + 1).drop_last() =~= entries@.subrange(0, i as int));
            }
            let (k, t) = &entries[i];
            let ghost before = out@;
            if k.owner == *owner && k.body_index == body_index {
                out.push((k.hir_expr_id, t.duplicate()));
                proof {
                    assert(target_pairs_view(out@) =~= target_pairs_view(before).push((k.hir_expr_id, t@)));
                }
            }
            i = i + 1;
        }
        proof {
            assert(entries@.subrange(0, entries@.len() as int) =~= entries@);
        }
        out
    }
}


impl BodyInferenceTable {
    fn empty() -> (t: Self)
        ensures
            t@ == (InferTableView {
                exprs: Map::empty(),
                hir_locals: Map::empty(),
                resolved_locals: Map::empty(),
                roots: Map::empty(),
                targets: Map::empty(),
                issues: seq![],
            }),
    {
        let t = BodyInferenceTable {
            expr_types_by_hir_expr_id: SortedMap::new(),
            local_types_by_hir_id_by_body: SortedMap::new(),
            local_types_by_resolved_id_by_body: SortedMap::new(),
            root_types_by_body: SortedMap::new(),
            call_targets_by_hir_expr_id: SortedMap::new(),
            issues: Vec::new(),
        };
        proof {
            assert(t@.exprs =~= Map::<BodyExprId, Type>::empty());
            assert(t@.hir_locals =~= Map::<BodyKey, Map<LocalId, Type>>::empty());
            assert(t@.resolved_locals =~= Map::<BodyKey, Map<LocalId, Type>>::empty());
            assert(t@.roots =~= Map::<BodyKey, Type>::empty());
            assert(t@.targets =~= Map::<BodyExprId, CallTargetView>::empty());
            assert(t@.issues =~= Seq::<BodyInferIssueView>::empty());
            assert(t@ =~= (InferTableView {
                exprs: Map::empty(),
                hir_locals: Map::empty(),
                resolved_locals: Map::empty(),
                roots: Map::empty(),
                targets: Map::empty(),
                issues: seq![],
            }));
        }
        t
    }

    fn push_issue(&mut self, body: &ResolvedBody, kind: BodyInferIssueKind)
        ensures
            final(self)@ == with_body_issue(old(self)@, *body, kind@),
    {
        let ghost k = kind@;
        let iss = BodyInferIssue { owner: body.owner, body_index: body.body_index, span: Span::new(0, 0), kind };
        let ghost iv = iss@;
        let ghost v0 = self.issues@;
        self.issues.push(iss);
        proof {
            assert(infer_issue_views(self.issues@) =~= infer_issue_views(v0).push(iv));
            assert(self@ =~= with_body_issue(old(self)@, *body, k));
        }
    }

    /// Adds one body's results.
    #[verifier::rlimit(40)]
    fn absorb(&mut self, owner: DeclarationOwner, body_index: usize, out: BodyInferOutput)
        ensures
            final(self)@ == (InferTableView {
                exprs: merge_body(old(self)@.exprs, owner, body_index, output_view(out).exprs),
                hir_locals: old(self)@.hir_locals.insert(BodyKey { owner, body_index }, output_view(out).hir_locals),
                resolved_locals: old(self)@.resolved_locals.insert(BodyKey { owner, body_index }, output_view(out).resolved_locals),
                roots: old(self)@.roots.insert(BodyKey { owner, body_index }, output_view(out).root),
                targets: merge_body(old(self)@.targets, owner, body_index, output_view(out).targets),
                issues: old(self)@.issues + output_view(out).issues,
            }),
    {
        let ghost ov = output_view(out);
        let ghost e0 = old(self)@.exprs;
        let es = out.exprs.entries();
        let mut j: usize = 0;
        proof {
            assert(entries_map(es@.subrange(0, 0)) =~= Map::<HirExprId, Type>::empty());
            assert(merge_body(e0, owner, body_index, entries_map(es@.subrange(0, 0))) =~= e0);
        }
        while j < es.len()
            invariant
                j <= es@.len(),
                es@ == out.exprs@,
                entries_sorted(es@),
                entries_map(self.expr_types_by_hir_expr_id@) == merge_body(e0, owner, body_index, entries_map(es@.subrange(0, j as int))),
                self.local_types_by_hir_id_by_body == old(self).local_types_by_hir_id_by_body,
                self.local_types_by_resolved_id_by_body == old(self).local_types_by_resolved_id_by_body,
                self.root_types_by_body == old(self).root_types_by_body,
                self.call_targets_by_hir_expr_id == old(self).call_targets_by_hir_expr_id,
                self.issues == old(self).issues,
            decreases es@.len() - j,
        {
            let (e, t) = &es[j];
            let ghost m0 = entries_map(es@.subrange(0, j as int));
            self.expr_types_by_hir_expr_id.insert(BodyExprId { owner, body_index, hir_expr_id: *e }, t.clone());
            proof {
                lemma_entries_map_step(es@, j as int);
                assert(merge_body(e0, owner, body_index, m0.insert(*e, *t)) =~= merge_body(e0, owner, body_index, m0).insert(BodyExprId { owner, body_index, hir_expr_id: *e }, *t));
            }
            j = j + 1;
        }
        proof {
            assert(es@.subrange(0, es@.len() as int) =~= es@);
        }
        let ghost g0 = old(self)@.targets;
        let ts = out.targets.entries();
        let mut q: usize = 0;
        proof {
            assert(targets_view(ts@.subrange(0, 0)) =~= Map::<HirExprId, CallTargetView>::empty());
            assert(merge_body(g0, owner, body_index, targets_view(ts@.subrange(0, 0))) =~= g0);
        }
        while q < ts.len()
            invariant
                q <= ts@.len(),
                ts@ == out.targets@,
                entries_sorted(ts@),
                targets_view(self.call_targets_by_hir_expr_id@) == merge_body(g0, owner, body_index, targets_view(ts@.subrange(0, q as int))),
                entries_map(self.expr_types_by_hir_expr_id@) == merge_body(e0, owner, body_index, ov.exprs),
                self.local_types_by_hir_id_by_body == old(self).local_types_by_hir_id_by_body,
                self.local_types_by_resolved_id_by_body == old(self).local_types_by_resolved_id_by_body,
                self.root_types_by_body == old(self).root_types_by_body,
                self.issues == old(self).issues,
            decreases ts@.len() - q,
        {
            let (e, t) = &ts[q];
            let ghost m0 = targets_view(ts@.subrange(0, q as int));
            let ghost before = self.call_targets_by_hir_expr_id@;
            let key = BodyExprId { owner, body_index, hir_expr_id: *e };
            self.call_targets_by_hir_expr_id.insert(key, t.duplicate());
            proof {
                let a = ts@.subrange(0, q as int);
                let b = ts@.subrange(0, q as int + 1);
                assert(entries_sorted(a));
                assert(entries_sorted(b));
                lemma_entries_map_step(ts@, q as int);
                assert forall|k: HirExprId| #[trigger] targets_view(b).contains_key(k) <==> targets_view(a).insert(*e, t@).contains_key(k) by {
                    assert(entries_map(b).contains_key(k) <==> entries_map(a).insert(*e, *t).contains_key(k));
                }
                assert forall|k: HirExprId| targets_view(b).contains_key(k) implies #[trigger] targets_view(b)[k] == targets_view(a).insert(*e, t@)[k] by {
                    assert(entries_map(b)[k] == entries_map(a).insert(*e, *t)[k]);
                }
                assert(targets_view(b) =~= m0.insert(*e, t@));
                let now = self.call_targets_by_hir_expr_id@;
                assert forall|k: BodyExprId| #[trigger] targets_view(now).contains_key(k) <==> targets_view(before).insert(key, t@).contains_key(k) by {
                    assert(entries_contain(now, k) <==> (entries_contain(before, k) || k == key));
                }
                assert forall|k: BodyExprId| targets_view(now).contains_key(k) implies #[trigger] targets_view(now)[k] == targets_view(before).insert(key, t@)[k] by {
                    if k != key {
                        assert(self.call_targets_by_hir_expr_id.spec_get(k) == entries_lookup(before, k));
                    }
                }
                assert(targets_view(now) =~= targets_view(before).insert(key, t@));
                assert(merge_body(g0, owner, body_index, m0.insert(*e, t@)) =~= merge_body(g0, owner, body_index, m0).insert(key, t@));
            }
            q = q + 1;
        }
        proof {
            assert(ts@.subrange(0, ts@.len() as int) =~= ts@);
        }
        let key = BodyKey { owner, body_index };
        let ghost h0 = self.local_types_by_hir_id_by_body@;
        let ghost hmap = entries_map(out.hir_locals@);
        self.local_types_by_hir_id_by_body.insert(key, out.hir_locals);
        proof {
            let now = self.local_types_by_hir_id_by_body@;
            assert forall|k: BodyKey| #[trigger] nested_view(now).contains_key(k) <==> nested_view(h0).insert(key, hmap).contains_key(k) by {
                assert(entries_contain(now, k) <==> (entries_contain(h0, k) || k == key));
            }
            assert forall|k: BodyKey| nested_view(now).contains_key(k) implies #[trigger] nested_view(now)[k] == nested_view(h0).insert(key, hmap)[k] by {
                if k != key {
                    assert(self.local_types_by_hir_id_by_body.spec_get(k) == entries_lookup(h0, k));
                }
            }
            assert(nested_view(now) =~= nested_view(h0).insert(key, hmap));
        }
        let ghost r0 = self.local_types_by_resolved_id_by_body@;
        let ghost rmap = entries_map(out.resolved_locals@);
        self.local_types_by_resolved_id_by_body.insert(key, out.resolved_locals);
        proof {
            let now = self.local_types_by_resolved_id_by_body@;
            assert forall|k: BodyKey| #[trigger] nested_view(now).contains_key(k) <==> nested_view(r0).insert(key, rmap).contains_key(k) by {
                assert(entries_contain(now, k) <==> (entries_contain(r0, k) || k == key));
            }
            assert forall|k: BodyKey| nested_view(now).contains_key(k) implies #[trigger] nested_view(now)[k] == nested_view(r0).insert(key, rmap)[k] by {
                if k != key {
                    assert(self.local_types_by_resolved_id_by_body.spec_get(k) == entries_lookup(r0, k));
                }
            }
            assert(nested_view(now) =~= nested_view(r0).insert(key, rmap));
        }
        self.root_types_by_body.insert(key, out.root);
        let mut issues = out.issues;
        let ghost v0 = self.issues@;
        let ghost v1 = issues@;
        self.issues.append(&mut issues);
        proof {
            assert(infer_issue_views(self.issues@) =~= infer_issue_views(v0) + infer_issue_views(v1));
            assert(self@.exprs == merge_body(e0, owner, body_index, ov.exprs));
            assert(self@ =~= (InferTableView {
                exprs: merge_body(old(self)@.exprs, owner, body_index, ov.exprs),
                hir_locals: old(self)@.hir_locals.insert(key, ov.hir_locals),
                resolved_locals: old(self)@.resolved_locals.insert(key, ov.resolved_locals),
                roots: old(self)@.roots.insert(key, ov.root),
                targets: merge_body(old(self)@.targets, owner, body_index, ov.targets),
                issues: old(self)@.issues + ov.issues,
            }));
        }
    }
}

/// Infers the types of every resolved body: each body's expressions and
/// locals get types, calls get targets, and what could not be inferred is
/// reported.
pub fn infer_body_types(hir_input: &SemanticHirInput, typed_items: &TypedItemTable, resolved_bodies: &ResolvedBodyTable, body_envs: &BodyTypeEnvironmentTable) -> (table: BodyInferenceTable)
    ensures
        table@ == infer_fold(*hir_input, *typed_items, *body_envs, resolved_bodies.bodies@),
{
    let bodies = resolved_bodies.iter();
    let mut table = BodyInferenceTable::empty();
    let mut i: usize = 0;
    proof {
        assert(bodies@.subrange(0, 0) =~= Seq::<ResolvedBody>::empty());
    }
    while i < bodies.len()
        invariant
            i <= bodies@.len(),
            bodies@ == resolved_bodies.bodies@,
            table@ == infer_fold(*hir_input, *typed_items, *body_envs, bodies@.subrange(0, i as int)),
        decreases bodies@.len() - i,
    {
        proof {
            assert(bodies@.subrange(0, i as int + 1).drop_last() =~= bodies@.subrange(0, i as int));
        }
        let body = &bodies[i];
        match find_env_with_index(body_envs.envs_for_owner(&body.owner), body.body_index) {
            None => {
                table.push_issue(body, BodyInferIssueKind::MissingBodyEnvironment);
            },
            Some(env) => match hir_input.body_ref(&body.owner, body.body_index) {
                None => {
                    table.push_issue(body, BodyInferIssueKind::MissingBodyAst);
                },
                Some(body_ref) => match hir_input.hir_modules.get(&body_ref.file_id) {
                    None => {
                        table.push_issue(body, BodyInferIssueKind::MissingBodyAst);
                    },
                    Some(module) => {
                        if !module.bodies.contains_key(&body_ref.body_id) {
                            table.push_issue(body, BodyInferIssueKind::MissingBodyAst);
                        } else {
                            let out = infer_one(body, body_ref, module, hir_input, typed_items, env);
                            table.absorb(body.owner, body.body_index, out);
                        }
                    },
                },
            },
        }
        i = i + 1;
    }
    proof {
        assert(bodies@.subrange(0, bodies@.len() as int) =~= bodies@);
    }
    table
}

/// `a ?? b` has the type its operands unify to: after inferring `a` and
/// then `b` (expected to have `a`'s type), the result is the unification of
/// their resolved types, an equality of the two is recorded, and when both
/// resolve to the same known type the result is that type (for `i32`
/// operands `i32`, never `bool`). Comparisons and `&&`/`||` give `bool`.
pub proof fn law_binary_result_types(ic: InferCtx, st: InferState, f: nat, op: HirBinaryOp, lhs: HirExprId, rhs: HirExprId)
    ensures
        op is NullCoalescing ==> ({
            let l = infer_expr_s(ic, st, f, lhs, None);
            let r = infer_expr_s(ic, l.1, f, rhs, Some(l.0));
            let rl = res_in(r.1.m.roots, l.0);
            let rr = res_in(r.1.m.roots, r.0);
            let out = infer_binary_s(ic, st, f, op, lhs, rhs);
            &&& out.0 == unify_result(rl, rr)
            &&& out.1.m.constraints == r.1.m.constraints.push(InferenceConstraint::Equal(l.0, r.0))
            &&& (forall|c: ConcreteType| rl == InferenceType::Known(c) && rr == InferenceType::Known(c) ==> out.0 == InferenceType::Known(c))
            &&& (forall|c: ConcreteType| rl == InferenceType::Known(c) && rr is Var ==> out.0 == InferenceType::Known(c))
        }),
        (is_comparison(op) || is_logical(op)) ==> infer_binary_s(ic, st, f, op, lhs, rhs).0 == InferenceType::Known(
            ConcreteType::Builtin(BuiltinType::Bool),
        ),
{
}

} // verus!
