//! HIR span indexing for cursor-to-node lookup.

use crate::collections::sorted_map::SortedMap;
use crate::frontend::ast::Span;
use crate::frontend::hir::{
    HirArrayElement, HirBodyId, HirExprId, HirExprKind, HirFile, HirItemId, HirItemKind,
    HirModule, HirOrigin, HirStmtId, HirStmtKind, HirStructExprField,
};
use crate::frontend::source::FileId;
use vstd::prelude::*;
use vstd::seq_lib::*;

verus! {

/// Identifier for the kinds of HIR nodes in the span index.
#[derive(Debug, Clone, Copy, PartialEq, Eq, PartialOrd, Ord, Structural)]
pub enum HirNodeId {
    /// An expression node.
    Expr(HirExprId),
    /// A statement node.
    Stmt(HirStmtId),
    /// An item node (top-level declaration).
    Item(HirItemId),
    /// A body node (block of statements).
    Body(HirBodyId),
}

/// An entry in the span index mapping a span to an HIR node.
#[derive(Debug, Clone, Copy, PartialEq, Eq, PartialOrd, Ord, Structural)]
pub struct SpanIndexEntry {
    /// The start offset of the span.
    pub start: usize,
    /// The end offset of the span.
    pub end: usize,
    /// The HIR node identifier.
    pub node_id: HirNodeId,
}

/// `a` comes no later than `b` by (start, end).
pub open spec fn entry_le(a: SpanIndexEntry, b: SpanIndexEntry) -> bool {
    a.start < b.start || (a.start == b.start && a.end <= b.end)
}

/// Entries ascending by (start, end).
pub open spec fn entries_sorted(s: Seq<SpanIndexEntry>) -> bool {
    forall|i: int, j: int| 0 <= i < j < s.len() ==> entry_le(#[trigger] s[i], #[trigger] s[j])
}

/// The span of a node present in the module.
pub open spec fn node_span(m: HirModule, node: HirNodeId) -> Option<Span> {
    match node {
        HirNodeId::Expr(id) => match m.exprs.spec_get(id) {
            Some(e) => Some(e.origin.span),
            None => None,
        },
        HirNodeId::Stmt(id) => match m.stmts.spec_get(id) {
            Some(s) => Some(s.origin.span),
            None => None,
        },
        HirNodeId::Item(id) => match m.items.spec_get(id) {
            Some(i) => Some(i.origin.span),
            None => None,
        },
        HirNodeId::Body(id) => match m.bodies.spec_get(id) {
            Some(b) => Some(b.origin.span),
            None => None,
        },
    }
}

/// The expression node, if any.
pub open spec fn opt_expr(e: Option<HirExprId>) -> Seq<HirNodeId> {
    match e {
        Some(x) => seq![HirNodeId::Expr(x)],
        None => seq![],
    }
}

/// Child expressions of an expression kind, in order.
pub open spec fn expr_kind_children(kind: HirExprKind) -> Seq<HirNodeId> {
    match kind {
        HirExprKind::Literal(_) => seq![],
        HirExprKind::Path { .. } => seq![],
        HirExprKind::Array { elements } => elements@.map_values(
            |e: HirArrayElement|
                match e {
                    HirArrayElement::Expr(x) => HirNodeId::Expr(x),
                    HirArrayElement::Spread(x) => HirNodeId::Expr(x),
                },
        ),
        HirExprKind::Call { callee, args } => seq![HirNodeId::Expr(callee)] + args@.map_values(
            |a: crate::frontend::hir::HirCallArg| HirNodeId::Expr(a.value),
        ),
        HirExprKind::Block { body } => seq![HirNodeId::Body(body)],
        HirExprKind::If { condition, then_body, else_expr } => seq![
            HirNodeId::Expr(condition),
            HirNodeId::Body(then_body),
        ] + opt_expr(else_expr),
        HirExprKind::While { condition, body } => seq![
            HirNodeId::Expr(condition),
            HirNodeId::Body(body),
        ],
        HirExprKind::For { iterator, body, .. } => seq![
            HirNodeId::Expr(iterator),
            HirNodeId::Body(body),
        ],
        HirExprKind::Return { value } => opt_expr(value),
        HirExprKind::Assign { target, value, .. } => seq![HirNodeId::Expr(target), HirNodeId::Expr(value)],
        HirExprKind::Unary { expr, .. } => seq![HirNodeId::Expr(expr)],
        HirExprKind::Binary { lhs, rhs, .. } => seq![HirNodeId::Expr(lhs), HirNodeId::Expr(rhs)],
        HirExprKind::Field { base, .. } => seq![HirNodeId::Expr(base)],
        HirExprKind::OptionalField { base, .. } => seq![HirNodeId::Expr(base)],
        HirExprKind::NamespaceField { base, .. } => seq![HirNodeId::Expr(base)],
        HirExprKind::MethodCall { receiver, args, .. } => seq![HirNodeId::Expr(receiver)]
            + args@.map_values(|a: crate::frontend::hir::HirCallArg| HirNodeId::Expr(a.value)),
        HirExprKind::Index { base, index } => seq![HirNodeId::Expr(base), HirNodeId::Expr(index)],
        HirExprKind::OptionalIndex { base, index } => seq![
            HirNodeId::Expr(base),
            HirNodeId::Expr(index),
        ],
        HirExprKind::Tuple { elements } => elements@.map_values(|e: HirExprId| HirNodeId::Expr(e)),
        HirExprKind::Struct { fields } => fields@.map_values(
            |f: HirStructExprField|
                match f {
                    HirStructExprField::Named { value } => HirNodeId::Expr(value),
                    HirStructExprField::Spread { value } => HirNodeId::Expr(value),
                },
        ),
        HirExprKind::Match { subject, arms } => seq![HirNodeId::Expr(subject)] + arms@.map_values(
            |a: crate::frontend::hir::HirMatchArm| HirNodeId::Expr(a.expr),
        ),
        HirExprKind::Closure { body } => seq![HirNodeId::Body(body)],
        HirExprKind::ForceUnwrap { expr } => seq![HirNodeId::Expr(expr)],
        HirExprKind::Cast { expr } => seq![HirNodeId::Expr(expr)],
        HirExprKind::Range { start, end } => opt_expr(start) + opt_expr(end),
        HirExprKind::Spread { expr } => seq![HirNodeId::Expr(expr)],
        HirExprKind::Try { expr } => seq![HirNodeId::Expr(expr)],
        HirExprKind::Break => seq![],
        HirExprKind::Continue => seq![],
    }
}

/// The children a node's index entry is followed by: a function item's
/// body; a body's statements then its tail expression; a statement's
/// expression; an expression's sub-expressions and bodies.
pub open spec fn node_children(m: HirModule, node: HirNodeId) -> Seq<HirNodeId> {
    match node {
        HirNodeId::Item(id) => match m.items.spec_get(id) {
            Some(item) => match item.kind {
                HirItemKind::Function { body, .. } => seq![HirNodeId::Body(body)],
                _ => seq![],
            },
            None => seq![],
        },
        HirNodeId::Body(id) => match m.bodies.spec_get(id) {
            Some(body) => body.stmts@.map_values(|s: HirStmtId| HirNodeId::Stmt(s)) + opt_expr(body.tail_expr),
            None => seq![],
        },
        HirNodeId::Stmt(id) => match m.stmts.spec_get(id) {
            Some(stmt) => match stmt.kind {
                HirStmtKind::Let { value, .. } => match value {
                    Some(v) => seq![HirNodeId::Expr(v)],
                    None => seq![],
                },
                HirStmtKind::Expr { expr } => seq![HirNodeId::Expr(expr)],
                HirStmtKind::Semi { expr } => seq![HirNodeId::Expr(expr)],
                HirStmtKind::Item { .. } => seq![],
            },
            None => seq![],
        },
        HirNodeId::Expr(id) => match m.exprs.spec_get(id) {
            Some(expr) => expr_kind_children(expr.kind),
            None => seq![],
        },
    }
}

/// Entries a walk from `node` produces, pre-order, descending at most `fuel` levels.
pub open spec fn entries_of(m: HirModule, node: HirNodeId, fuel: nat) -> Seq<SpanIndexEntry>
    decreases fuel, 0nat,
{
    if fuel == 0 {
        seq![]
    } else {
        match node_span(m, node) {
            Some(sp) => seq![SpanIndexEntry { start: sp.start, end: sp.end, node_id: node }]
                + entries_of_list(m, node_children(m, node), (fuel - 1) as nat),
            None => seq![],
        }
    }
}

/// Entries walks from each of `nodes` produce, in order.
pub open spec fn entries_of_list(m: HirModule, nodes: Seq<HirNodeId>, fuel: nat) -> Seq<SpanIndexEntry>
    decreases fuel, nodes.len() + 1,
{
    if nodes.len() == 0 {
        seq![]
    } else {
        entries_of_list(m, nodes.drop_last(), fuel) + entries_of(m, nodes.last(), fuel)
    }
}

/// Total number of nodes in a module; no walk in an acyclic module is deeper.
pub open spec fn module_size(m: HirModule) -> nat {
    m.items@.len() + m.bodies@.len() + m.stmts@.len() + m.exprs@.len() + 1
}

/// The first index whose entry does not satisfy `pred`, scanning from the start.
pub open spec fn first_failing(s: Seq<SpanIndexEntry>, pred: spec_fn(SpanIndexEntry) -> bool, idx: int) -> bool {
    &&& 0 <= idx <= s.len()
    &&& forall|i: int| 0 <= i < idx ==> pred(#[trigger] s[i])
    &&& idx < s.len() ==> !pred(s[idx])
}

/// Entries starting at or before `offset`.
pub open spec fn starts_before(offset: usize) -> spec_fn(SpanIndexEntry) -> bool {
    |e: SpanIndexEntry| e.start <= offset
}

/// Entries ending before `offset`.
pub open spec fn ends_before(offset: usize) -> spec_fn(SpanIndexEntry) -> bool {
    |e: SpanIndexEntry| e.end < offset
}

/// The entry contains the offset.
pub open spec fn contains_offset(e: SpanIndexEntry, offset: usize) -> bool {
    e.start <= offset <= e.end
}

/// Length of the entry's span.
pub open spec fn entry_len(e: SpanIndexEntry) -> int {
    e.end - e.start
}

/// `b` is the innermost entry below `idx` containing `offset`: no containing
/// entry below `idx` is shorter, and every later one is longer.
pub open spec fn is_innermost(s: Seq<SpanIndexEntry>, idx: int, offset: usize, b: int) -> bool {
    &&& 0 <= b < idx
    &&& contains_offset(s[b], offset)
    &&& forall|j: int| 0 <= j < idx && contains_offset(#[trigger] s[j], offset) ==> entry_len(s[j]) >= entry_len(s[b])
    &&& forall|j: int| b < j < idx && contains_offset(#[trigger] s[j], offset) ==> entry_len(s[j]) > entry_len(s[b])
}

/// The origin reported for a node: the span of its first entry, in file 0.
pub open spec fn origin_for(s: Seq<SpanIndexEntry>, node: HirNodeId) -> Option<HirOrigin> {
    if exists|i: int| 0 <= i < s.len() && #[trigger] s[i].node_id == node {
        let i = choose|i: int| 0 <= i < s.len() && #[trigger] s[i].node_id == node && forall|j: int| 0 <= j < i ==> s[j].node_id != node;
        Some(HirOrigin { file_id: FileId(0), span: Span { start: s[i].start, end: s[i].end } })
    } else {
        None
    }
}

/// Index of HIR nodes by their source spans, ascending by (start, end).
pub struct HirSpanIndex {
    entries: Vec<SpanIndexEntry>,
    bodies_to_files: SortedMap<HirBodyId, FileId>,
}

impl View for HirSpanIndex {
    type V = Seq<SpanIndexEntry>;

    closed spec fn view(&self) -> Seq<SpanIndexEntry> {
        self.entries@
    }
}

/// Sorts entries by (start, end), keeping their multiset.
fn sort_entries(v: Vec<SpanIndexEntry>) -> (r: Vec<SpanIndexEntry>)
    ensures
        entries_sorted(r@),
        r@.to_multiset() == v@.to_multiset(),
{
    let mut out: Vec<SpanIndexEntry> = Vec::new();
    let mut i: usize = 0;
    broadcast use group_to_multiset_ensures;
    while i < v.len()
        invariant
            i <= v@.len(),
            entries_sorted(out@),
            out@.to_multiset() == v@.subrange(0, i as int).to_multiset(),
        decreases v@.len() - i,
    {
        let x = v[i];
        let mut p: usize = out.len();
        while p > 0 && (out[p - 1].start > x.start || (out[p - 1].start == x.start && out[p - 1].end > x.end))
            invariant
                p <= out@.len(),
                entries_sorted(out@),
                forall|j: int| p <= j < out@.len() ==> !entry_le(#[trigger] out@[j], x),
            decreases p,
        {
            p = p - 1;
        }
        let ghost before = out@;
        out.insert(p, x);
        proof {
            to_multiset_insert(before, p as int, x);
            to_multiset_build(v@.subrange(0, i as int), x);
            assert(v@.subrange(0, i as int + 1) =~= v@.subrange(0, i as int).push(x));
            assert(out@ =~= before.insert(p as int, x));
            assert forall|a: int, b: int| 0 <= a < b < out@.len() implies entry_le(
                #[trigger] out@[a],
                #[trigger] out@[b],
            ) by {
                if b < p {
                    assert(entry_le(before[a], before[b]));
                } else if b == p {
                    if p > 0 {
                        assert(entry_le(before[p - 1], x));
                        if a < p - 1 {
                            assert(entry_le(before[a], before[p - 1]));
                        }
                    }
                } else if a == p {
                    assert(!entry_le(before[b - 1], x));
                } else if a < p {
                    assert(entry_le(before[a], before[b - 1]));
                } else {
                    assert(entry_le(before[a - 1], before[b - 1]));
                }
            }
        }
        i = i + 1;
    }
    proof {
        assert(v@.subrange(0, v@.len() as int) =~= v@);
    }
    out
}

/// Child nodes of an expression kind, in order.
fn expr_children(kind: &HirExprKind) -> (r: Vec<HirNodeId>)
    ensures
        r@ == expr_kind_children(*kind),
{
    let mut out: Vec<HirNodeId> = Vec::new();
    match kind {
        HirExprKind::Literal(_) => {},
        HirExprKind::Path { .. } => {},
        HirExprKind::Array { elements } => {
            let mut i: usize = 0;
            while i < elements.len()
                invariant
                    i <= elements@.len(),
                    out@ == elements@.subrange(0, i as int).map_values(
                        |e: HirArrayElement|
                            match e {
                                HirArrayElement::Expr(x) => HirNodeId::Expr(x),
                                HirArrayElement::Spread(x) => HirNodeId::Expr(x),
                            },
                    ),
                decreases elements@.len() - i,
            {
                let node = match elements[i] {
                    HirArrayElement::Expr(x) => HirNodeId::Expr(x),
                    HirArrayElement::Spread(x) => HirNodeId::Expr(x),
                };
                out.push(node);
                proof {
                    assert(elements@.subrange(0, i as int + 1) =~= elements@.subrange(0, i as int).push(elements@[i as int]));
                }
                i = i + 1;
            }
            proof {
                assert(elements@.subrange(0, elements@.len() as int) =~= elements@);
            }
        },
        HirExprKind::Call { callee, args } => {
            out.push(HirNodeId::Expr(*callee));
            let mut i: usize = 0;
            while i < args.len()
                invariant
                    i <= args@.len(),
                    out@ == seq![HirNodeId::Expr(*callee)] + args@.subrange(0, i as int).map_values(
                        |a: crate::frontend::hir::HirCallArg| HirNodeId::Expr(a.value),
                    ),
                decreases args@.len() - i,
            {
                out.push(HirNodeId::Expr(args[i].value));
                proof {
                    assert(args@.subrange(0, i as int + 1) =~= args@.subrange(0, i as int).push(args@[i as int]));
                }
                i = i + 1;
            }
            proof {
                assert(args@.subrange(0, args@.len() as int) =~= args@);
            }
        },
        HirExprKind::Block { body } => {
            out.push(HirNodeId::Body(*body));
        },
        HirExprKind::If { condition, then_body, else_expr } => {
            out.push(HirNodeId::Expr(*condition));
            out.push(HirNodeId::Body(*then_body));
            if let Some(e) = else_expr {
                out.push(HirNodeId::Expr(*e));
            }
        },
        HirExprKind::While { condition, body } => {
            out.push(HirNodeId::Expr(*condition));
            out.push(HirNodeId::Body(*body));
        },
        HirExprKind::For { iterator, body, .. } => {
            out.push(HirNodeId::Expr(*iterator));
            out.push(HirNodeId::Body(*body));
        },
        HirExprKind::Return { value } => {
            if let Some(v) = value {
                out.push(HirNodeId::Expr(*v));
            }
        },
        HirExprKind::Assign { target, value, .. } => {
            out.push(HirNodeId::Expr(*target));
            out.push(HirNodeId::Expr(*value));
        },
        HirExprKind::Unary { expr, .. } => {
            out.push(HirNodeId::Expr(*expr));
        },
        HirExprKind::Binary { lhs, rhs, .. } => {
            out.push(HirNodeId::Expr(*lhs));
            out.push(HirNodeId::Expr(*rhs));
        },
        HirExprKind::Field { base, .. } => {
            out.push(HirNodeId::Expr(*base));
        },
        HirExprKind::OptionalField { base, .. } => {
            out.push(HirNodeId::Expr(*base));
        },
        HirExprKind::NamespaceField { base, .. } => {
            out.push(HirNodeId::Expr(*base));
        },
        HirExprKind::MethodCall { receiver, args, .. } => {
            out.push(HirNodeId::Expr(*receiver));
            let mut i: usize = 0;
            while i < args.len()
                invariant
                    i <= args@.len(),
                    out@ == seq![HirNodeId::Expr(*receiver)] + args@.subrange(0, i as int).map_values(
                        |a: crate::frontend::hir::HirCallArg| HirNodeId::Expr(a.value),
                    ),
                decreases args@.len() - i,
            {
                out.push(HirNodeId::Expr(args[i].value));
                proof {
                    assert(args@.subrange(0, i as int + 1) =~= args@.subrange(0, i as int).push(args@[i as int]));
                }
                i = i + 1;
            }
            proof {
                assert(args@.subrange(0, args@.len() as int) =~= args@);
            }
        },
        HirExprKind::Index { base, index } => {
            out.push(HirNodeId::Expr(*base));
            out.push(HirNodeId::Expr(*index));
        },
        HirExprKind::OptionalIndex { base, index } => {
            out.push(HirNodeId::Expr(*base));
            out.push(HirNodeId::Expr(*index));
        },
        HirExprKind::Tuple { elements } => {
            let mut i: usize = 0;
            while i < elements.len()
                invariant
                    i <= elements@.len(),
                    out@ == elements@.subrange(0, i as int).map_values(|e: HirExprId| HirNodeId::Expr(e)),
                decreases elements@.len() - i,
            {
                out.push(HirNodeId::Expr(elements[i]));
                proof {
                    assert(elements@.subrange(0, i as int + 1) =~= elements@.subrange(0, i as int).push(elements@[i as int]));
                }
                i = i + 1;
            }
            proof {
                assert(elements@.subrange(0, elements@.len() as int) =~= elements@);
            }
        },
        HirExprKind::Struct { fields } => {
            let mut i: usize = 0;
            while i < fields.len()
                invariant
                    i <= fields@.len(),
                    out@ == fields@.subrange(0, i as int).map_values(
                        |f: HirStructExprField|
                            match f {
                                HirStructExprField::Named { value } => HirNodeId::Expr(value),
                                HirStructExprField::Spread { value } => HirNodeId::Expr(value),
                            },
                    ),
                decreases fields@.len() - i,
            {
                let node = match fields[i] {
                    HirStructExprField::Named { value } => HirNodeId::Expr(value),
                    HirStructExprField::Spread { value } => HirNodeId::Expr(value),
                };
                out.push(node);
                proof {
                    assert(fields@.subrange(0, i as int + 1) =~= fields@.subrange(0, i as int).push(fields@[i as int]));
                }
                i = i + 1;
            }
            proof {
                assert(fields@.subrange(0, fields@.len() as int) =~= fields@);
            }
        },
        HirExprKind::Match { subject, arms } => {
            out.push(HirNodeId::Expr(*subject));
            let mut i: usize = 0;
            while i < arms.len()
                invariant
                    i <= arms@.len(),
                    out@ == seq![HirNodeId::Expr(*subject)] + arms@.subrange(0, i as int).map_values(
                        |a: crate::frontend::hir::HirMatchArm| HirNodeId::Expr(a.expr),
                    ),
                decreases arms@.len() - i,
            {
                out.push(HirNodeId::Expr(arms[i].expr));
                proof {
                    assert(arms@.subrange(0, i as int + 1) =~= arms@.subrange(0, i as int).push(arms@[i as int]));
                }
                i = i + 1;
            }
            proof {
                assert(arms@.subrange(0, arms@.len() as int) =~= arms@);
            }
        },
        HirExprKind::Closure { body } => {
            out.push(HirNodeId::Body(*body));
        },
        HirExprKind::ForceUnwrap { expr } => {
            out.push(HirNodeId::Expr(*expr));
        },
        HirExprKind::Cast { expr } => {
            out.push(HirNodeId::Expr(*expr));
        },
        HirExprKind::Range { start, end } => {
            if let Some(s) = start {
                out.push(HirNodeId::Expr(*s));
            }
            if let Some(e) = end {
                out.push(HirNodeId::Expr(*e));
            }
        },
        HirExprKind::Spread { expr } => {
            out.push(HirNodeId::Expr(*expr));
        },
        HirExprKind::Try { expr } => {
            out.push(HirNodeId::Expr(*expr));
        },
        HirExprKind::Break => {},
        HirExprKind::Continue => {},
    }
    proof {
        assert(out@ =~= expr_kind_children(*kind));
    }
    out
}

/// The span of a node and its children, when the node is in the module.
pub(crate) fn node_info(m: &HirModule, node: HirNodeId) -> (r: Option<(Span, Vec<HirNodeId>)>)
    ensures
        match r {
            Some((sp, children)) => node_span(*m, node) == Some(sp) && children@ == node_children(*m, node),
            None => node_span(*m, node) is None,
        },
{
    match node {
        HirNodeId::Item(id) => match m.items.get(&id) {
            Some(item) => {
                let mut children: Vec<HirNodeId> = Vec::new();
                if let HirItemKind::Function { body, .. } = &item.kind {
                    children.push(HirNodeId::Body(*body));
                }
                proof {
                    assert(children@ =~= node_children(*m, node));
                }
                Some((item.origin.span, children))
            },
            None => None,
        },
        HirNodeId::Body(id) => match m.bodies.get(&id) {
            Some(body) => {
                let mut children: Vec<HirNodeId> = Vec::new();
                let mut i: usize = 0;
                while i < body.stmts.len()
                    invariant
                        i <= body.stmts@.len(),
                        children@ == body.stmts@.subrange(0, i as int).map_values(|s: HirStmtId| HirNodeId::Stmt(s)),
                    decreases body.stmts@.len() - i,
                {
                    children.push(HirNodeId::Stmt(body.stmts[i]));
                    proof {
                        assert(body.stmts@.subrange(0, i as int + 1) =~= body.stmts@.subrange(0, i as int).push(body.stmts@[i as int]));
                    }
                    i = i + 1;
                }
                proof {
                    assert(body.stmts@.subrange(0, body.stmts@.len() as int) =~= body.stmts@);
                }
                if let Some(tail) = body.tail_expr {
                    children.push(HirNodeId::Expr(tail));
                }
                proof {
                    assert(children@ =~= node_children(*m, node));
                }
                Some((body.origin.span, children))
            },
            None => None,
        },
        HirNodeId::Stmt(id) => match m.stmts.get(&id) {
            Some(stmt) => {
                let mut children: Vec<HirNodeId> = Vec::new();
                match stmt.kind {
                    HirStmtKind::Let { value, .. } => {
                        if let Some(v) = value {
                            children.push(HirNodeId::Expr(v));
                        }
                    },
                    HirStmtKind::Expr { expr } => {
                        children.push(HirNodeId::Expr(expr));
                    },
                    HirStmtKind::Semi { expr } => {
                        children.push(HirNodeId::Expr(expr));
                    },
                    HirStmtKind::Item { .. } => {},
                }
                proof {
                    assert(children@ =~= node_children(*m, node));
                }
                Some((stmt.origin.span, children))
            },
            None => None,
        },
        HirNodeId::Expr(id) => match m.exprs.get(&id) {
            Some(expr) => Some((expr.origin.span, expr_children(&expr.kind))),
            None => None,
        },
    }
}

/// Appends the entries of a walk from `node`.
fn index_node(entries: &mut Vec<SpanIndexEntry>, m: &HirModule, node: HirNodeId, fuel: usize)
    ensures
        final(entries)@ == old(entries)@ + entries_of(*m, node, fuel as nat),
    decreases fuel, 0nat,
{
    if fuel == 0 {
        proof {
            assert(final(entries)@ =~= old(entries)@ + entries_of(*m, node, fuel as nat));
        }
        return;
    }
    match node_info(m, node) {
        Some((sp, children)) => {
            entries.push(SpanIndexEntry { start: sp.start, end: sp.end, node_id: node });
            index_nodes(entries, m, &children, fuel - 1);
            proof {
                assert(final(entries)@ =~= old(entries)@ + entries_of(*m, node, fuel as nat));
            }
        },
        None => {
            proof {
                assert(final(entries)@ =~= old(entries)@ + entries_of(*m, node, fuel as nat));
            }
        },
    }
}

/// Appends the entries of walks from each of `nodes`, in order.
fn index_nodes(entries: &mut Vec<SpanIndexEntry>, m: &HirModule, nodes: &Vec<HirNodeId>, fuel: usize)
    ensures
        final(entries)@ == old(entries)@ + entries_of_list(*m, nodes@, fuel as nat),
    decreases fuel, nodes@.len() + 1,
{
    let mut i: usize = 0;
    while i < nodes.len()
        invariant
            i <= nodes@.len(),
            entries@ == old(entries)@ + entries_of_list(*m, nodes@.subrange(0, i as int), fuel as nat),
        decreases nodes@.len() - i,
    {
        let ghost before = entries@;
        index_node(entries, m, nodes[i], fuel);
        proof {
            let pre = nodes@.subrange(0, i as int + 1);
            assert(pre.drop_last() =~= nodes@.subrange(0, i as int));
            assert(pre.last() == nodes@[i as int]);
            assert(entries@ =~= old(entries)@ + entries_of_list(*m, pre, fuel as nat));
        }
        i = i + 1;
    }
    proof {
        assert(nodes@.subrange(0, nodes@.len() as int) =~= nodes@);
    }
}

/// In sorted entries, none from the first one starting after `offset` on contains it.
proof fn lemma_later_entries_start_after(s: Seq<SpanIndexEntry>, idx: int, offset: usize)
    requires
        entries_sorted(s),
        0 <= idx <= s.len(),
        idx < s.len() ==> !starts_before(offset)(s[idx]),
    ensures
        forall|j: int| idx <= j < s.len() ==> !contains_offset(#[trigger] s[j], offset),
{
    assert forall|j: int| idx <= j < s.len() implies !contains_offset(#[trigger] s[j], offset) by {
        if j > idx {
            assert(entry_le(s[idx], s[j]));
        }
    }
}

/// Whether `e` passes the scan predicate.
fn entry_passes(e: SpanIndexEntry, offset: usize, by_end: bool) -> (b: bool)
    ensures
        b == (if by_end {
            ends_before(offset)
        } else {
            starts_before(offset)
        })(e),
{
    if by_end {
        e.end < offset
    } else {
        e.start <= offset
    }
}

impl HirSpanIndex {
    #[verifier::type_invariant]
    closed spec fn inv(self) -> bool {
        entries_sorted(self.entries@)
    }

    /// An index over the given entries, sorted by (start, end).
    pub fn from_entries(entries: Vec<SpanIndexEntry>) -> (index: Self)
        ensures
            entries_sorted(index@),
            index@.to_multiset() == entries@.to_multiset(),
    {
        let entries = sort_entries(entries);
        HirSpanIndex { entries, bodies_to_files: SortedMap::new() }
    }

    /// Builds the index of a HIR file: every root item present in the
    /// module, and below it function bodies, their statements and all nested
    /// expressions and bodies, each with its span; then sorted by (start, end).
    /// A walk descends at most as many levels as the module has nodes, which
    /// no walk in an acyclic module exceeds.
    pub fn from_hir_file(file_id: FileId, hir_file: &HirFile, hir_module: &HirModule) -> (index: Self)
        requires
            module_size(*hir_module) <= usize::MAX,
        ensures
            entries_sorted(index@),
            index@.to_multiset() == entries_of_list(
                *hir_module,
                hir_file.root_items@.map_values(|i: HirItemId| HirNodeId::Item(i)),
                module_size(*hir_module),
            ).to_multiset(),
    {
        let fuel = hir_module.items.len() + hir_module.bodies.len() + hir_module.stmts.len()
            + hir_module.exprs.len() + 1;
        let mut roots: Vec<HirNodeId> = Vec::new();
        let mut i: usize = 0;
        while i < hir_file.root_items.len()
            invariant
                i <= hir_file.root_items@.len(),
                roots@ == hir_file.root_items@.subrange(0, i as int).map_values(|x: HirItemId| HirNodeId::Item(x)),
            decreases hir_file.root_items@.len() - i,
        {
            roots.push(HirNodeId::Item(hir_file.root_items[i]));
            proof {
                assert(hir_file.root_items@.subrange(0, i as int + 1) =~= hir_file.root_items@.subrange(0, i as int).push(hir_file.root_items@[i as int]));
            }
            i = i + 1;
        }
        proof {
            assert(hir_file.root_items@.subrange(0, hir_file.root_items@.len() as int) =~= hir_file.root_items@);
        }
        let mut entries: Vec<SpanIndexEntry> = Vec::new();
        index_nodes(&mut entries, hir_module, &roots, fuel);
        proof {
            assert(entries@ =~= entries_of_list(*hir_module, roots@, module_size(*hir_module)));
        }
        HirSpanIndex::from_entries(entries)
    }

    /// The first index from `start` on whose entry fails `pred`, given that
    /// all earlier ones pass.
    fn scan_prefix(&self, offset: usize, by_end: bool) -> (idx: usize)
        ensures
            first_failing(
                self@,
                if by_end {
                    ends_before(offset)
                } else {
                    starts_before(offset)
                },
                idx as int,
            ),
    {
        let mut idx: usize = 0;
        while idx < self.entries.len() && entry_passes(self.entries[idx], offset, by_end)
            invariant
                idx <= self.entries@.len(),
                forall|i: int| 0 <= i < idx ==> (if by_end {
                    ends_before(offset)
                } else {
                    starts_before(offset)
                })(#[trigger] self.entries@[i]),
            decreases self.entries@.len() - idx,
        {
            idx = idx + 1;
        }
        idx
    }

    /// Origin of the first entry for `node_id`.
    fn get_origin_for_node(&self, node_id: HirNodeId) -> (r: Option<HirOrigin>)
        ensures
            r == origin_for(self@, node_id),
    {
        let mut i: usize = 0;
        while i < self.entries.len()
            invariant
                i <= self.entries@.len(),
                forall|j: int| 0 <= j < i ==> self.entries@[j].node_id != node_id,
            decreases self.entries@.len() - i,
        {
            if self.entries[i].node_id == node_id {
                let e = self.entries[i];
                proof {
                    let s = self@;
                    let k = choose|k: int| 0 <= k < s.len() && #[trigger] s[k].node_id == node_id && forall|j: int| 0 <= j < k ==> s[j].node_id != node_id;
                    assert(k == i) by {
                        if k < i {
                            assert(s[k].node_id != node_id);
                        } else if k > i {
                            assert(s[i as int].node_id != node_id);
                        }
                    }
                }
                return Some(HirOrigin::direct_source(FileId::new(0), Span::new(e.start, e.end)));
            }
            i = i + 1;
        }
        None
    }

    /// No entry from `idx` on contains `offset` when the entry at `idx` starts after it.
    fn no_containing_entry_from(&self, idx: usize, offset: usize)
        requires
            idx <= self@.len(),
            idx < self@.len() ==> !starts_before(offset)(self@[idx as int]),
        ensures
            forall|j: int| idx <= j < self@.len() ==> !contains_offset(#[trigger] self@[j], offset),
    {
        proof {
            use_type_invariant(self);
            lemma_later_entries_start_after(self@, idx as int, offset);
        }
    }

    /// Finds the innermost node whose span contains `offset` (both ends
    /// included): the shortest such span, the latest one in index order
    /// among equally short spans; `None` when no span contains it.
    pub fn find_node_at_offset(&self, offset: usize) -> (r: Option<(HirNodeId, HirOrigin)>)
        ensures
            match r {
                None => forall|j: int| 0 <= j < self@.len() ==> !contains_offset(#[trigger] self@[j], offset),
                Some((node, origin)) => exists|b: int| #[trigger] is_innermost(self@, self@.len() as int, offset, b)
                    && node == self@[b].node_id && origin_for(self@, node) == Some(origin),
            },
    {
        let idx = self.scan_prefix(offset, false);
        let mut best: Option<usize> = None;
        let mut i: usize = idx;
        while i > 0 && self.entries[i - 1].start <= offset
            invariant
                i <= idx <= self.entries@.len(),
                first_failing(self@, starts_before(offset), idx as int),
                match best {
                    None => forall|j: int| i <= j < idx ==> !contains_offset(#[trigger] self.entries@[j], offset),
                    Some(b) => {
                        &&& i <= b < idx
                        &&& contains_offset(self.entries@[b as int], offset)
                        &&& forall|j: int| i <= j < idx && contains_offset(#[trigger] self.entries@[j], offset) ==> entry_len(self.entries@[j]) >= entry_len(self.entries@[b as int])
                        &&& forall|j: int| b < j < idx && contains_offset(#[trigger] self.entries@[j], offset) ==> entry_len(self.entries@[j]) > entry_len(self.entries@[b as int])
                    },
                },
            decreases i,
        {
            let k = i - 1;
            let entry = self.entries[k];
            proof {
                assert(starts_before(offset)(self.entries@[k as int]));
            }
            if entry.start <= offset && offset <= entry.end {
                match best {
                    Some(b) => {
                        let cur = self.entries[b];
                        if entry.end - entry.start < cur.end - cur.start {
                            best = Some(k);
                        }
                    },
                    None => {
                        best = Some(k);
                    },
                }
            }
            i = k;
        }
        proof {
            if i > 0 {
                assert(starts_before(offset)(self.entries@[i - 1]));
            }
        }
        self.no_containing_entry_from(idx, offset);
        match best {
            Some(b) => {
                let node = self.entries[b].node_id;
                proof {
                    assert(is_innermost(self@, self@.len() as int, offset, b as int));
                    assert(origin_for(self@, node) is Some) by {
                        assert(self@[b as int].node_id == node);
                    }
                }
                match self.get_origin_for_node(node) {
                    Some(origin) => Some((node, origin)),
                    None => None,
                }
            },
            None => None,
        }
    }

    /// Finds the node of the last entry before the first entry whose span
    /// reaches `offset`; `None` when that is the first entry.
    pub fn find_node_before_offset(&self, offset: usize) -> (r: Option<(HirNodeId, HirOrigin)>)
        ensures
            forall|idx: int| #[trigger] first_failing(self@, ends_before(offset), idx) ==> match r {
                None => idx == 0,
                Some((node, origin)) => idx > 0 && node == self@[idx - 1].node_id
                    && origin_for(self@, node) == Some(origin),
            },
            self@.len() == 0 ==> r is None,
            r matches Some((node, origin)) ==> origin_for(self@, node) == Some(origin) && exists|k: int|
                0 <= k < self@.len() && (#[trigger] self@[k]).node_id == node && self@[k].end < offset,
    {
        let idx = self.scan_prefix(offset, true);
        proof {
            assert forall|idx2: int| #[trigger] first_failing(self@, ends_before(offset), idx2) implies idx2 == idx by {
                if idx2 < idx {
                    assert(ends_before(offset)(self@[idx2]));
                } else if idx2 > idx {
                    assert(ends_before(offset)(self@[idx as int]));
                }
            }
        }
        if idx == 0 {
            return None;
        }
        let entry = self.entries[idx - 1];
        proof {
            assert(ends_before(offset)(self@[idx - 1]));
            assert(self@[idx - 1].node_id == entry.node_id && self@[idx - 1].end < offset);
            assert(origin_for(self@, entry.node_id) is Some) by {
                assert(self@[idx - 1].node_id == entry.node_id);
            }
        }
        match self.get_origin_for_node(entry.node_id) {
            Some(origin) => Some((entry.node_id, origin)),
            None => None,
        }
    }
}

/// `sub` is one of the operand expressions written in an expression of
/// kind `kind` (nested bodies aside).
pub open spec fn is_operand(kind: HirExprKind, sub: HirExprId) -> bool {
    match kind {
        HirExprKind::Array { elements } => exists|i: int| 0 <= i < elements@.len()
            && (elements@[i] == HirArrayElement::Expr(sub) || elements@[i] == HirArrayElement::Spread(sub)),
        HirExprKind::Call { callee, args } => callee == sub || exists|i: int| 0 <= i < args@.len() && args@[i].value == sub,
        HirExprKind::If { condition, else_expr, .. } => condition == sub || else_expr == Some(sub),
        HirExprKind::While { condition, .. } => condition == sub,
        HirExprKind::For { iterator, .. } => iterator == sub,
        HirExprKind::Return { value } => value == Some(sub),
        HirExprKind::Assign { target, value, .. } => target == sub || value == sub,
        HirExprKind::Unary { expr, .. } => expr == sub,
        HirExprKind::Binary { lhs, rhs, .. } => lhs == sub || rhs == sub,
        HirExprKind::Field { base, .. } => base == sub,
        HirExprKind::OptionalField { base, .. } => base == sub,
        HirExprKind::NamespaceField { base, .. } => base == sub,
        HirExprKind::MethodCall { receiver, args, .. } => receiver == sub
            || exists|i: int| 0 <= i < args@.len() && args@[i].value == sub,
        HirExprKind::Index { base, index } => base == sub || index == sub,
        HirExprKind::OptionalIndex { base, index } => base == sub || index == sub,
        HirExprKind::Tuple { elements } => exists|i: int| 0 <= i < elements@.len() && elements@[i] == sub,
        HirExprKind::Struct { fields } => exists|i: int| 0 <= i < fields@.len()
            && (fields@[i] == HirStructExprField::Named { value: sub } || fields@[i] == HirStructExprField::Spread { value: sub }),
        HirExprKind::Match { subject, arms } => subject == sub || exists|i: int| 0 <= i < arms@.len() && arms@[i].expr == sub,
        HirExprKind::ForceUnwrap { expr } => expr == sub,
        HirExprKind::Cast { expr } => expr == sub,
        HirExprKind::Range { start, end } => start == Some(sub) || end == Some(sub),
        HirExprKind::Spread { expr } => expr == sub,
        HirExprKind::Try { expr } => expr == sub,
        _ => false,
    }
}

/// The walk from a list of nodes holds the walk from each of them.
proof fn lemma_list_holds_member_entries(m: HirModule, nodes: Seq<HirNodeId>, k: int, fuel: nat, e: SpanIndexEntry)
    requires
        0 <= k < nodes.len(),
        entries_of(m, nodes[k], fuel).contains(e),
    ensures
        entries_of_list(m, nodes, fuel).contains(e),
    decreases nodes.len(),
{
    let front = entries_of_list(m, nodes.drop_last(), fuel);
    let back = entries_of(m, nodes.last(), fuel);
    assert(entries_of_list(m, nodes, fuel) == front + back);
    if k == nodes.len() - 1 {
        let j = choose|j: int| 0 <= j < back.len() && back[j] == e;
        assert((front + back)[front.len() + j] == e);
    } else {
        assert(nodes.drop_last()[k] == nodes[k]);
        lemma_list_holds_member_entries(m, nodes.drop_last(), k, fuel, e);
        let j = choose|j: int| 0 <= j < front.len() && front[j] == e;
        assert((front + back)[j] == e);
    }
}

/// Every operand of an expression of kind `kind` is among its walk's children.
proof fn lemma_operand_is_child(kind: HirExprKind, sub: HirExprId) -> (k: int)
    requires
        is_operand(kind, sub),
    ensures
        0 <= k < expr_kind_children(kind).len(),
        expr_kind_children(kind)[k] == HirNodeId::Expr(sub),
{
    let c = expr_kind_children(kind);
    match kind {
        HirExprKind::Array { elements } => {
            let i = choose|i: int| 0 <= i < elements@.len()
                && (elements@[i] == HirArrayElement::Expr(sub) || elements@[i] == HirArrayElement::Spread(sub));
            i
        },
        HirExprKind::Call { callee, args } => {
            if callee == sub {
                0
            } else {
                let i = choose|i: int| 0 <= i < args@.len() && args@[i].value == sub;
                assert(c[1 + i] == HirNodeId::Expr(args@[i].value));
                1 + i
            }
        },
        HirExprKind::If { condition, else_expr, .. } => if condition == sub { 0 } else { 2 },
        HirExprKind::MethodCall { receiver, args, .. } => {
            if receiver == sub {
                0
            } else {
                let i = choose|i: int| 0 <= i < args@.len() && args@[i].value == sub;
                assert(c[1 + i] == HirNodeId::Expr(args@[i].value));
                1 + i
            }
        },
        HirExprKind::Assign { target, .. } => if target == sub { 0 } else { 1 },
        HirExprKind::Binary { lhs, .. } => if lhs == sub { 0 } else { 1 },
        HirExprKind::Index { base, .. } => if base == sub { 0 } else { 1 },
        HirExprKind::OptionalIndex { base, .. } => if base == sub { 0 } else { 1 },
        HirExprKind::Tuple { elements } => choose|i: int| 0 <= i < elements@.len() && elements@[i] == sub,
        HirExprKind::Struct { fields } => choose|i: int| 0 <= i < fields@.len()
            && (fields@[i] == HirStructExprField::Named { value: sub } || fields@[i] == HirStructExprField::Spread { value: sub }),
        HirExprKind::Match { subject, arms } => {
            if subject == sub {
                0
            } else {
                let i = choose|i: int| 0 <= i < arms@.len() && arms@[i].expr == sub;
                assert(c[1 + i] == HirNodeId::Expr(arms@[i].expr));
                1 + i
            }
        },
        HirExprKind::Range { start, .. } => if start == Some(sub) { 0 } else { opt_expr(start).len() as int },
        _ => 0,
    }
}

/// Every operand of an expression is indexed along with it: a walk that
/// reaches an expression and may descend one level further holds an entry
/// for each of its operands that the module holds, at that operand's span;
/// the index operand of `base[index]` among them.
pub proof fn law_operands_indexed(m: HirModule, e: HirExprId, sub: HirExprId, fuel: nat)
    requires
        fuel >= 2,
        m.exprs.spec_get(e) is Some,
        is_operand(m.exprs.spec_get(e).unwrap().kind, sub),
        m.exprs.spec_get(sub) is Some,
    ensures
        entries_of(m, HirNodeId::Expr(e), fuel).contains(SpanIndexEntry {
            start: m.exprs.spec_get(sub).unwrap().origin.span.start,
            end: m.exprs.spec_get(sub).unwrap().origin.span.end,
            node_id: HirNodeId::Expr(sub),
        }),
{
    let kind = m.exprs.spec_get(e).unwrap().kind;
    let sp = m.exprs.spec_get(sub).unwrap().origin.span;
    let entry = SpanIndexEntry { start: sp.start, end: sp.end, node_id: HirNodeId::Expr(sub) };
    let k = lemma_operand_is_child(kind, sub);
    let children = node_children(m, HirNodeId::Expr(e));
    assert(children == expr_kind_children(kind));
    let inner = entries_of(m, HirNodeId::Expr(sub), (fuel - 1) as nat);
    assert(inner[0] == entry);
    lemma_list_holds_member_entries(m, children, k, (fuel - 1) as nat, entry);
    let rest = entries_of_list(m, children, (fuel - 1) as nat);
    let whole = entries_of(m, HirNodeId::Expr(e), fuel);
    let j = choose|j: int| 0 <= j < rest.len() && rest[j] == entry;
    assert(whole[1 + j] == entry);
}

} // verus!
