//! The typed body table: for each body, what the earlier passes found of it
//! (expected and actual result type, local and expression types, control
//! flow) and how many issues each pass reported for it.

use crate::collections::sorted_map::{
    entries_contain, entries_list_map, entries_lookup, entries_map, entries_sorted,
};
use crate::collections::{MapKey, SortedMap};
use crate::frontend::resolver::{BodyKey, BodyKind, DeclarationOwner, LocalId, ResolvedBody, ResolvedBodyTable};
use crate::frontend::semantic::body_env::{
    copy_local_types, env_for, find_env_with_index, first_env_with_index, group_positions_by_owner, lemma_owner_positions_nonempty, owner_body_order, sort_positions_by_body_index,
    BodyEnvIssue, BodyLocalBindingInfo, BodyTypeEnvironment, BodyTypeEnvironmentTable,
};
use crate::frontend::semantic::control_flow::{first_flow_result, ControlFlowIssue, ControlFlowTable};
use crate::frontend::semantic::types::Type;
use crate::frontend::source::FileId;
use crate::midend::type_check::expr_check::{BodyExprId, ExprCheckIssue, ExpressionTypeTable};
use crate::midend::type_check::stmt_check::{StatementTypeTable, StmtCheckIssue};
use vstd::prelude::*;

verus! {

/// A body, by owner and position.
#[derive(Debug, Clone, Copy, PartialEq, Eq, Structural)]
pub struct TypedBodyId {
    pub owner: DeclarationOwner,
    pub body_index: usize,
}

/// The pass an issue count belongs to.
#[derive(Debug, Clone, Copy, PartialEq, Eq, Structural)]
pub enum TypedBodyIssueKind {
    Environment,
    Expression,
    Statement,
    ControlFlow,
}

/// How many issues a pass reported for a body.
#[derive(Debug, Clone, Copy, PartialEq, Eq, Structural)]
pub struct TypedBodyIssueMarker {
    pub kind: TypedBodyIssueKind,
    pub count: usize,
}

/// What the semantic passes found of one body.
pub struct TypedBody {
    pub id: TypedBodyId,
    pub kind: BodyKind,
    pub containing_scope_file_id: FileId,
    pub expected_return_type: Type,
    pub body_result_type: Type,
    pub control_flow_is_compatible: bool,
    pub local_types: SortedMap<LocalId, Type>,
    pub local_bindings: SortedMap<LocalId, BodyLocalBindingInfo>,
    pub expression_types: SortedMap<BodyExprId, Type>,
    pub issue_markers: Vec<TypedBodyIssueMarker>,
}

/// What is missing for a body.
#[derive(Debug, Clone, Copy, PartialEq, Eq, Structural)]
pub enum TypedBodyTableIssueKind {
    MissingBodyEnvironment,
    MissingControlFlowResult,
}

/// A body for which an earlier pass produced nothing.
#[derive(Debug, Clone, Copy, PartialEq, Eq, Structural)]
pub struct TypedBodyTableIssue {
    pub id: TypedBodyId,
    pub kind: TypedBodyTableIssueKind,
}

/// The types of the expressions of one body among the entries, later
/// entries replacing earlier ones.
pub open spec fn body_expr_types(s: Seq<(BodyExprId, Type)>, owner: DeclarationOwner, body_index: usize) -> Map<BodyExprId, Type>
    decreases s.len(),
{
    if s.len() == 0 {
        Map::empty()
    } else {
        let prev = body_expr_types(s.drop_last(), owner, body_index);
        if s.last().0.owner == owner && s.last().0.body_index == body_index {
            prev.insert(s.last().0, s.last().1)
        } else {
            prev
        }
    }
}

/// How many of the places belong to body `body_index` of `owner`.
pub open spec fn count_at(places: Seq<(DeclarationOwner, usize)>, owner: DeclarationOwner, body_index: usize) -> nat
    decreases places.len(),
{
    if places.len() == 0 {
        0
    } else {
        count_at(places.drop_last(), owner, body_index) + (if places.last() == (owner, body_index) {
            1nat
        } else {
            0nat
        })
    }
}

/// Where each environment issue was reported.
pub open spec fn env_issue_places(s: Seq<BodyEnvIssue>) -> Seq<(DeclarationOwner, usize)> {
    s.map_values(|i: BodyEnvIssue| (i.owner, i.body_index))
}

/// Where each expression issue was reported.
pub open spec fn expr_issue_places(s: Seq<ExprCheckIssue>) -> Seq<(DeclarationOwner, usize)> {
    s.map_values(|i: ExprCheckIssue| (i.owner, i.body_index))
}

/// Where each statement issue was reported.
pub open spec fn stmt_issue_places(s: Seq<StmtCheckIssue>) -> Seq<(DeclarationOwner, usize)> {
    s.map_values(|i: StmtCheckIssue| (i.owner, i.body_index))
}

/// Where each control-flow issue was reported.
pub open spec fn flow_issue_places(s: Seq<ControlFlowIssue>) -> Seq<(DeclarationOwner, usize)> {
    s.map_values(|i: ControlFlowIssue| (i.owner, i.body_index))
}

/// A marker for `count` issues of a pass, when there is any.
pub open spec fn marker_if_any(kind: TypedBodyIssueKind, count: nat) -> Seq<TypedBodyIssueMarker> {
    if count > 0 {
        seq![TypedBodyIssueMarker { kind, count: count as usize }]
    } else {
        seq![]
    }
}

/// The issue markers of a body: per pass, in pass order, the number of
/// issues reported for it, passes without any left out.
pub open spec fn issue_markers_of(
    body_envs: BodyTypeEnvironmentTable,
    expr_types: ExpressionTypeTable,
    stmt_types: StatementTypeTable,
    control_flow: ControlFlowTable,
    owner: DeclarationOwner,
    body_index: usize,
) -> Seq<TypedBodyIssueMarker> {
    marker_if_any(TypedBodyIssueKind::Environment, count_at(env_issue_places(body_envs.spec_issues()), owner, body_index))
        + marker_if_any(TypedBodyIssueKind::Expression, count_at(expr_issue_places(expr_types.spec_issues()), owner, body_index))
        + marker_if_any(TypedBodyIssueKind::Statement, count_at(stmt_issue_places(stmt_types.spec_issues()), owner, body_index))
        + marker_if_any(TypedBodyIssueKind::ControlFlow, count_at(flow_issue_places(control_flow.spec_issues()), owner, body_index))
}

/// `tb` is what the passes found of `body`: the environment's expected
/// type and bindings, the control-flow result type and verdict (error type
/// and `false` without one), the statement check's local types (else the
/// environment's), the body's expression types, and its issue markers.
pub open spec fn is_typed_body_of(
    tb: TypedBody,
    body: ResolvedBody,
    body_envs: BodyTypeEnvironmentTable,
    expr_types: ExpressionTypeTable,
    stmt_types: StatementTypeTable,
    control_flow: ControlFlowTable,
) -> bool {
    let owner = body.owner;
    let index = body.body_index;
    let env = env_for(body_envs, owner, index);
    let res = first_flow_result(control_flow.spec_entries(), owner, index);
    let key = BodyKey { owner, body_index: index };
    &&& tb.id == TypedBodyId { owner, body_index: index }
    &&& tb.kind == body.kind
    &&& tb.containing_scope_file_id == body.containing_scope_file_id
    &&& tb.expected_return_type == (match env {
        Some(e) => e.expected_return_type,
        None => Type::Error,
    })
    &&& tb.body_result_type == (match res {
        Some(r) => r.block_result_type,
        None => Type::Error,
    })
    &&& tb.control_flow_is_compatible == (res matches Some(r) && r.is_compatible)
    &&& tb.local_bindings@ == (match env {
        Some(e) => e.local_bindings@,
        None => Seq::empty(),
    })
    &&& tb.local_types@ == (if stmt_types.spec_local_types().contains_key(key) {
        stmt_types.spec_local_types()[key]@
    } else {
        match env {
            Some(e) => e.local_types@,
            None => Seq::empty(),
        }
    })
    &&& entries_map(tb.expression_types@) == body_expr_types(expr_types.spec_entries(), owner, index)
    &&& tb.issue_markers@ == issue_markers_of(body_envs, expr_types, stmt_types, control_flow, owner, index)
}

/// The issues of typing one body: a missing environment, then a missing
/// control-flow result.
pub open spec fn typed_body_issues(
    body: ResolvedBody,
    body_envs: BodyTypeEnvironmentTable,
    control_flow: ControlFlowTable,
) -> Seq<TypedBodyTableIssue> {
    let id = TypedBodyId { owner: body.owner, body_index: body.body_index };
    (if env_for(body_envs, body.owner, body.body_index) is None {
        seq![TypedBodyTableIssue { id, kind: TypedBodyTableIssueKind::MissingBodyEnvironment }]
    } else {
        seq![]
    }) + (if first_flow_result(control_flow.spec_entries(), body.owner, body.body_index) is None {
        seq![TypedBodyTableIssue { id, kind: TypedBodyTableIssueKind::MissingControlFlowResult }]
    } else {
        seq![]
    })
}

/// Issues of typing the bodies at the given positions, in order.
pub open spec fn typed_positions_issues(
    bodies: Seq<ResolvedBody>,
    ps: Seq<usize>,
    body_envs: BodyTypeEnvironmentTable,
    control_flow: ControlFlowTable,
) -> Seq<TypedBodyTableIssue>
    decreases ps.len(),
{
    if ps.len() == 0 {
        seq![]
    } else {
        typed_positions_issues(bodies, ps.drop_last(), body_envs, control_flow) + typed_body_issues(bodies[ps.last() as int], body_envs, control_flow)
    }
}

/// Issues of typing the given owners' bodies, owner by owner.
pub open spec fn typed_owners_issues(
    bodies: Seq<ResolvedBody>,
    owners: Seq<DeclarationOwner>,
    body_envs: BodyTypeEnvironmentTable,
    control_flow: ControlFlowTable,
) -> Seq<TypedBodyTableIssue>
    decreases owners.len(),
{
    if owners.len() == 0 {
        seq![]
    } else {
        typed_owners_issues(bodies, owners.drop_last(), body_envs, control_flow)
            + typed_positions_issues(bodies, owner_body_order(bodies, owners.last()), body_envs, control_flow)
    }
}

/// All typed bodies, grouped by owner, and the issues found while
/// assembling them.
pub struct TypedBodyTable {
    by_owner: SortedMap<DeclarationOwner, Vec<TypedBody>>,
    pub issues: Vec<TypedBodyTableIssue>,
}

/// The typed bodies of every entry, flattened in entry order.
pub open spec fn flatten_bodies(s: Seq<(DeclarationOwner, Vec<TypedBody>)>) -> Seq<TypedBody>
    decreases s.len(),
{
    if s.len() == 0 {
        seq![]
    } else {
        flatten_bodies(s.drop_last()) + s.last().1@
    }
}

/// Owners of a list of entries, in order.
pub open spec fn typed_entry_owners(s: Seq<(DeclarationOwner, Vec<TypedBody>)>) -> Seq<DeclarationOwner> {
    s.map_values(|e: (DeclarationOwner, Vec<TypedBody>)| e.0)
}

/// The first of `bodies` at position `body_index`.
pub open spec fn first_body_with_index(bodies: Seq<TypedBody>, body_index: usize) -> Option<TypedBody>
    decreases bodies.len(),
{
    if bodies.len() == 0 {
        None
    } else if bodies[0].id.body_index == body_index {
        Some(bodies[0])
    } else {
        first_body_with_index(bodies.drop_first(), body_index)
    }
}

/// The type of `expr_id` in the first typed body (in table order) that has one.
pub open spec fn first_expression_type(bodies: Seq<TypedBody>, expr_id: BodyExprId) -> Option<Type>
    decreases bodies.len(),
{
    if bodies.len() == 0 {
        None
    } else {
        match bodies[0].expression_types.spec_get(expr_id) {
            Some(t) => Some(t),
            None => first_expression_type(bodies.drop_first(), expr_id),
        }
    }
}

impl TypedBodyTable {
    /// Typed bodies by owner, owners ascending.
    pub closed spec fn spec_bodies(&self) -> Seq<(DeclarationOwner, Vec<TypedBody>)> {
        self.by_owner@
    }

    /// The issues found, in order.
    pub closed spec fn spec_issues(&self) -> Seq<TypedBodyTableIssue> {
        self.issues@
    }

    /// The issues found while joining the bodies, in order.
    pub fn issues(&self) -> (r: &Vec<TypedBodyTableIssue>)
        ensures
            r@ == self.spec_issues(),
    {
        &self.issues
    }

    /// The typed bodies of `owner`, in body-index order.
    pub open spec fn spec_owner_bodies(&self, owner: DeclarationOwner) -> Seq<TypedBody> {
        match entries_lookup(self.spec_bodies(), owner) {
            Some(v) => v@,
            None => Seq::empty(),
        }
    }

    /// The typed bodies of `owner`, in body-index order; empty for an owner
    /// without bodies.
    pub fn bodies_for_owner(&self, owner: &DeclarationOwner) -> (r: &[TypedBody])
        ensures
            r@ == self.spec_owner_bodies(*owner),
    {
        match self.by_owner.get(owner) {
            Some(v) => v.as_slice(),
            None => &[],
        }
    }

    /// The first typed body of `owner` at position `body_index`.
    pub fn body(&self, owner: &DeclarationOwner, body_index: usize) -> (r: Option<&TypedBody>)
        ensures
            match r {
                Some(b) => first_body_with_index(self.spec_owner_bodies(*owner), body_index) == Some(*b),
                None => first_body_with_index(self.spec_owner_bodies(*owner), body_index) is None,
            },
    {
        let bodies = self.bodies_for_owner(owner);
        let mut i: usize = 0;
        proof {
            assert(bodies@.subrange(0, bodies@.len() as int) =~= bodies@);
        }
        while i < bodies.len()
            invariant
                i <= bodies@.len(),
                bodies@ == self.spec_owner_bodies(*owner),
                first_body_with_index(bodies@, body_index) == first_body_with_index(bodies@.subrange(i as int, bodies@.len() as int), body_index),
            decreases bodies@.len() - i,
        {
            proof {
                assert(bodies@.subrange(i as int, bodies@.len() as int).drop_first() =~= bodies@.subrange(i as int + 1, bodies@.len() as int));
            }
            if bodies[i].id.body_index == body_index {
                return Some(&bodies[i]);
            }
            i = i + 1;
        }
        None
    }

    /// The type of an expression in the first typed body that records one.
    pub fn expression_type(&self, expr_id: &BodyExprId) -> (r: Option<&Type>)
        ensures
            match r {
                Some(t) => first_expression_type(flatten_bodies(self.spec_bodies()), *expr_id) == Some(*t),
                None => first_expression_type(flatten_bodies(self.spec_bodies()), *expr_id) is None,
            },
    {
        let entries = self.by_owner.entries();
        let mut j: usize = 0;
        proof {
            assert(entries@.subrange(0, 0) =~= Seq::<(DeclarationOwner, Vec<TypedBody>)>::empty());
        }
        while j < entries.len()
            invariant
                j <= entries@.len(),
                entries@ == self.spec_bodies(),
                first_expression_type(flatten_bodies(entries@.subrange(0, j as int)), *expr_id) is None,
            decreases entries@.len() - j,
        {
            let bodies = &entries[j].1;
            let ghost before = flatten_bodies(entries@.subrange(0, j as int));
            proof {
                assert(entries@.subrange(0, j as int + 1).drop_last() =~= entries@.subrange(0, j as int));
                lemma_first_expression_type_append(before, bodies@, *expr_id);
            }
            let mut k: usize = 0;
            while k < bodies.len()
                invariant
                    k <= bodies@.len(),
                    j < entries@.len(),
                    entries@ == self.spec_bodies(),
                    bodies@ == entries@[j as int].1@,
                    before == flatten_bodies(entries@.subrange(0, j as int)),
                    first_expression_type(before, *expr_id) is None,
                    first_expression_type(bodies@.subrange(0, k as int), *expr_id) is None,
                decreases bodies@.len() - k,
            {
                proof {
                    lemma_first_expression_type_append(bodies@.subrange(0, k as int), bodies@.subrange(k as int, k as int + 1), *expr_id);
                    assert(bodies@.subrange(0, k as int) + bodies@.subrange(k as int, k as int + 1) =~= bodies@.subrange(0, k as int + 1));
                    assert(bodies@.subrange(k as int, k as int + 1).drop_first() =~= Seq::<TypedBody>::empty());
                }
                match bodies[k].expression_types.get(expr_id) {
                    Some(t) => {
                        proof {
                            let tail = bodies@.subrange(k as int, bodies@.len() as int);
                            assert(tail[0] == bodies@[k as int]);
                            assert(first_expression_type(tail, *expr_id) == Some(*t));
                            lemma_first_expression_type_append(bodies@.subrange(0, k as int), tail, *expr_id);
                            assert(bodies@.subrange(0, k as int) + tail =~= bodies@);
                            let rest = flatten_bodies(entries@.subrange(j as int + 1, entries@.len() as int));
                            lemma_first_expression_type_append(before, bodies@, *expr_id);
                            lemma_first_expression_type_append(before + bodies@, rest, *expr_id);
                            lemma_flatten_prefix(entries@, j as int);
                        }
                        return Some(t);
                    },
                    None => {
                        proof {
                            let one = bodies@.subrange(k as int, k as int + 1);
                            assert(one[0] == bodies@[k as int]);
                            assert(one.drop_first() =~= Seq::<TypedBody>::empty());
                            assert(first_expression_type(one.drop_first(), *expr_id) is None);
                            assert(first_expression_type(one, *expr_id) is None);
                        }
                    },
                }
                k = k + 1;
            }
            proof {
                assert(bodies@.subrange(0, bodies@.len() as int) =~= bodies@);
            }
            j = j + 1;
        }
        proof {
            assert(entries@.subrange(0, entries@.len() as int) =~= entries@);
        }
        None
    }

    /// The type of a local of a body.
    pub fn local_type(&self, owner: &DeclarationOwner, body_index: usize, local_id: LocalId) -> (r: Option<&Type>)
        ensures
            match r {
                Some(t) => first_body_with_index(self.spec_owner_bodies(*owner), body_index) matches Some(b)
                    && b.local_types.spec_get(local_id) == Some(*t),
                None => !(first_body_with_index(self.spec_owner_bodies(*owner), body_index) matches Some(b)
                    && b.local_types.spec_get(local_id) is Some),
            },
    {
        match self.body(owner, body_index) {
            Some(b) => b.local_types.get(&local_id),
            None => None,
        }
    }

    /// The result type of a body.
    pub fn body_result_type(&self, owner: &DeclarationOwner, body_index: usize) -> (r: Option<&Type>)
        ensures
            match r {
                Some(t) => first_body_with_index(self.spec_owner_bodies(*owner), body_index) matches Some(b) && b.body_result_type == *t,
                None => first_body_with_index(self.spec_owner_bodies(*owner), body_index) is None,
            },
    {
        match self.body(owner, body_index) {
            Some(b) => Some(&b.body_result_type),
            None => None,
        }
    }

    /// Every typed body: owners ascending, each owner's bodies in order.
    pub fn iter(&self) -> (r: Vec<&TypedBody>)
        ensures
            r@.len() == flatten_bodies(self.spec_bodies()).len(),
            forall|k: int| 0 <= k < r@.len() ==> *(#[trigger] r@[k]) == flatten_bodies(self.spec_bodies())[k],
    {
        let entries = self.by_owner.entries();
        let mut out: Vec<&TypedBody> = Vec::new();
        let mut j: usize = 0;
        while j < entries.len()
            invariant
                j <= entries@.len(),
                entries@ == self.spec_bodies(),
                out@.len() == flatten_bodies(entries@.subrange(0, j as int)).len(),
                forall|k: int| 0 <= k < out@.len() ==> *(#[trigger] out@[k]) == flatten_bodies(entries@.subrange(0, j as int))[k],
            decreases entries@.len() - j,
        {
            let bodies = &entries[j].1;
            let ghost before = flatten_bodies(entries@.subrange(0, j as int));
            proof {
                assert(entries@.subrange(0, j as int + 1).drop_last() =~= entries@.subrange(0, j as int));
            }
            let mut k: usize = 0;
            while k < bodies.len()
                invariant
                    k <= bodies@.len(),
                    out@.len() == before.len() + k,
                    forall|m: int| 0 <= m < out@.len() ==> *(#[trigger] out@[m]) == (before + bodies@)[m],
                decreases bodies@.len() - k,
            {
                out.push(&bodies[k]);
                k = k + 1;
            }
            j = j + 1;
        }
        proof {
            assert(entries@.subrange(0, entries@.len() as int) =~= entries@);
        }
        out
    }

    /// Total number of typed bodies.
    pub fn len(&self) -> (n: usize)
        ensures
            n == flatten_bodies(self.spec_bodies()).len(),
    {
        self.iter().len()
    }

    /// True when there is no typed body.
    pub fn is_empty(&self) -> (b: bool)
        ensures
            b == (flatten_bodies(self.spec_bodies()).len() == 0),
    {
        self.len() == 0
    }
}

proof fn lemma_first_expression_type_append(a: Seq<TypedBody>, b: Seq<TypedBody>, expr_id: BodyExprId)
    ensures
        first_expression_type(a + b, expr_id) == (match first_expression_type(a, expr_id) {
            Some(t) => Some(t),
            None => first_expression_type(b, expr_id),
        }),
    decreases a.len(),
{
    if a.len() > 0 {
        assert((a + b).drop_first() =~= a.drop_first() + b);
        lemma_first_expression_type_append(a.drop_first(), b, expr_id);
    } else {
        assert(a + b =~= b);
    }
}

proof fn lemma_flatten_prefix(s: Seq<(DeclarationOwner, Vec<TypedBody>)>, j: int)
    requires
        0 <= j < s.len(),
    ensures
        flatten_bodies(s) == flatten_bodies(s.subrange(0, j)) + s[j].1@ + flatten_bodies(s.subrange(j + 1, s.len() as int)),
    decreases s.len(),
{
    if j == s.len() - 1 {
        assert(s.drop_last() =~= s.subrange(0, j));
        assert(s.subrange(j + 1, s.len() as int) =~= Seq::<(DeclarationOwner, Vec<TypedBody>)>::empty());
        assert(flatten_bodies(s.subrange(0, j)) + s[j].1@ + seq![] =~= flatten_bodies(s.subrange(0, j)) + s[j].1@);
    } else {
        lemma_flatten_prefix(s.drop_last(), j);
        assert(s.drop_last().subrange(0, j) =~= s.subrange(0, j));
        let tail = s.subrange(j + 1, s.len() as int);
        assert(tail.drop_last() =~= s.drop_last().subrange(j + 1, s.len() - 1));
        assert(tail.last() == s.last());
        assert(flatten_bodies(tail) == flatten_bodies(tail.drop_last()) + tail.last().1@);
    }
}

fn copy_binding_map(m: &SortedMap<LocalId, BodyLocalBindingInfo>) -> (r: SortedMap<LocalId, BodyLocalBindingInfo>)
    ensures
        r@ == m@,
{
    let entries = m.entries();
    let mut out: Vec<(LocalId, BodyLocalBindingInfo)> = Vec::new();
    let mut i: usize = 0;
    while i < entries.len()
        invariant
            i <= entries@.len(),
            out@ == entries@.subrange(0, i as int),
        decreases entries@.len() - i,
    {
        out.push(entries[i]);
        proof {
            assert(out@ =~= entries@.subrange(0, i as int + 1));
        }
        i = i + 1;
    }
    proof {
        assert(out@ =~= entries@);
    }
    SortedMap::from_sorted_entries(out)
}

proof fn lemma_count_at_bound(places: Seq<(DeclarationOwner, usize)>, owner: DeclarationOwner, body_index: usize)
    ensures
        count_at(places, owner, body_index) <= places.len(),
    decreases places.len(),
{
    if places.len() > 0 {
        lemma_count_at_bound(places.drop_last(), owner, body_index);
    }
}

fn count_env_issues(issues: &Vec<BodyEnvIssue>, owner: &DeclarationOwner, body_index: usize) -> (n: usize)
    ensures
        n == count_at(env_issue_places(issues@), *owner, body_index),
{
    let ghost places = env_issue_places(issues@);
    let mut n: usize = 0;
    let mut i: usize = 0;
    while i < issues.len()
        invariant
            i <= issues@.len(),
            places == env_issue_places(issues@),
            n == count_at(places.subrange(0, i as int), *owner, body_index),
            n <= i,
        decreases issues@.len() - i,
    {
        proof {
            assert(places.subrange(0, i as int + 1).drop_last() =~= places.subrange(0, i as int));
            lemma_count_at_bound(places.subrange(0, i as int), *owner, body_index);
        }
        if issues[i].owner == *owner && issues[i].body_index == body_index {
            n = n + 1;
        }
        i = i + 1;
    }
    proof {
        assert(places.subrange(0, issues@.len() as int) =~= places);
    }
    n
}

fn count_expr_issues(issues: &Vec<ExprCheckIssue>, owner: &DeclarationOwner, body_index: usize) -> (n: usize)
    ensures
        n == count_at(expr_issue_places(issues@), *owner, body_index),
{
    let ghost places = expr_issue_places(issues@);
    let mut n: usize = 0;
    let mut i: usize = 0;
    while i < issues.len()
        invariant
            i <= issues@.len(),
            places == expr_issue_places(issues@),
            n == count_at(places.subrange(0, i as int), *owner, body_index),
            n <= i,
        decreases issues@.len() - i,
    {
        proof {
            assert(places.subrange(0, i as int + 1).drop_last() =~= places.subrange(0, i as int));
        }
        if issues[i].owner == *owner && issues[i].body_index == body_index {
            n = n + 1;
        }
        i = i + 1;
    }
    proof {
        assert(places.subrange(0, issues@.len() as int) =~= places);
    }
    n
}

fn count_stmt_issues(issues: &Vec<StmtCheckIssue>, owner: &DeclarationOwner, body_index: usize) -> (n: usize)
    ensures
        n == count_at(stmt_issue_places(issues@), *owner, body_index),
{
    let ghost places = stmt_issue_places(issues@);
    let mut n: usize = 0;
    let mut i: usize = 0;
    while i < issues.len()
        invariant
            i <= issues@.len(),
            places == stmt_issue_places(issues@),
            n == count_at(places.subrange(0, i as int), *owner, body_index),
            n <= i,
        decreases issues@.len() - i,
    {
        proof {
            assert(places.subrange(0, i as int + 1).drop_last() =~= places.subrange(0, i as int));
        }
        if issues[i].owner == *owner && issues[i].body_index == body_index {
            n = n + 1;
        }
        i = i + 1;
    }
    proof {
        assert(places.subrange(0, issues@.len() as int) =~= places);
    }
    n
}

fn count_flow_issues(issues: &Vec<ControlFlowIssue>, owner: &DeclarationOwner, body_index: usize) -> (n: usize)
    ensures
        n == count_at(flow_issue_places(issues@), *owner, body_index),
{
    let ghost places = flow_issue_places(issues@);
    let mut n: usize = 0;
    let mut i: usize = 0;
    while i < issues.len()
        invariant
            i <= issues@.len(),
            places == flow_issue_places(issues@),
            n == count_at(places.subrange(0, i as int), *owner, body_index),
            n <= i,
        decreases issues@.len() - i,
    {
        proof {
            assert(places.subrange(0, i as int + 1).drop_last() =~= places.subrange(0, i as int));
        }
        if issues[i].owner == *owner && issues[i].body_index == body_index {
            n = n + 1;
        }
        i = i + 1;
    }
    proof {
        assert(places.subrange(0, issues@.len() as int) =~= places);
    }
    n
}

fn push_marker_if_any(markers: &mut Vec<TypedBodyIssueMarker>, kind: TypedBodyIssueKind, count: usize)
    ensures
        final(markers)@ == old(markers)@ + marker_if_any(kind, count as nat),
{
    if count > 0 {
        markers.push(TypedBodyIssueMarker { kind, count });
        proof {
            assert(markers@ =~= old(markers)@ + marker_if_any(kind, count as nat));
        }
    } else {
        proof {
            assert(markers@ =~= old(markers)@ + marker_if_any(kind, count as nat));
        }
    }
}

/// The issue markers of one body (see [`issue_markers_of`]).
fn issue_markers_for_body(
    body_envs: &BodyTypeEnvironmentTable,
    expr_types: &ExpressionTypeTable,
    stmt_types: &StatementTypeTable,
    control_flow: &ControlFlowTable,
    owner: &DeclarationOwner,
    body_index: usize,
) -> (r: Vec<TypedBodyIssueMarker>)
    ensures
        r@ == issue_markers_of(*body_envs, *expr_types, *stmt_types, *control_flow, *owner, body_index),
{
    let mut markers: Vec<TypedBodyIssueMarker> = Vec::new();
    let environment_count = count_env_issues(body_envs.issues(), owner, body_index);
    let expression_count = count_expr_issues(expr_types.issues(), owner, body_index);
    let statement_count = count_stmt_issues(stmt_types.issues(), owner, body_index);
    let control_flow_count = count_flow_issues(control_flow.issues(), owner, body_index);
    proof {
        assert(markers@ =~= Seq::<TypedBodyIssueMarker>::empty());
    }
    push_marker_if_any(&mut markers, TypedBodyIssueKind::Environment, environment_count);
    push_marker_if_any(&mut markers, TypedBodyIssueKind::Expression, expression_count);
    push_marker_if_any(&mut markers, TypedBodyIssueKind::Statement, statement_count);
    push_marker_if_any(&mut markers, TypedBodyIssueKind::ControlFlow, control_flow_count);
    proof {
        assert(markers@ =~= issue_markers_of(*body_envs, *expr_types, *stmt_types, *control_flow, *owner, body_index));
    }
    markers
}

fn collect_body_expr_types(expr_types: &ExpressionTypeTable, owner: &DeclarationOwner, body_index: usize) -> (r: SortedMap<BodyExprId, Type>)
    ensures
        entries_map(r@) == body_expr_types(expr_types.spec_entries(), *owner, body_index),
{
    let entries = expr_types.iter();
    let mut out: SortedMap<BodyExprId, Type> = SortedMap::new();
    let mut i: usize = 0;
    proof {
        assert(entries_map(out@) =~= Map::<BodyExprId, Type>::empty());
    }
    while i < entries.len()
        invariant
            i <= entries@.len(),
            entries@ == expr_types.spec_entries(),
            entries_map(out@) == body_expr_types(entries@.subrange(0, i as int), *owner, body_index),
        decreases entries@.len() - i,
    {
        proof {
            assert(entries@.subrange(0, i as int + 1).drop_last() =~= entries@.subrange(0, i as int));
        }
        let id = entries[i].0;
        if id.owner == *owner && id.body_index == body_index {
            out.insert(id, entries[i].1.clone());
        }
        i = i + 1;
    }
    proof {
        assert(entries@.subrange(0, entries@.len() as int) =~= entries@);
    }
    out
}

/// Assembles what the passes found of one body (see [`is_typed_body_of`]),
/// appending its issues.
fn build_one_typed_body(
    body: &ResolvedBody,
    body_envs: &BodyTypeEnvironmentTable,
    expr_types: &ExpressionTypeTable,
    stmt_types: &StatementTypeTable,
    control_flow: &ControlFlowTable,
    issues: &mut Vec<TypedBodyTableIssue>,
) -> (r: TypedBody)
    ensures
        is_typed_body_of(r, *body, *body_envs, *expr_types, *stmt_types, *control_flow),
        final(issues)@ == old(issues)@ + typed_body_issues(*body, *body_envs, *control_flow),
{
    let owner = body.owner;
    let index = body.body_index;
    let id = TypedBodyId { owner, body_index: index };
    let env = find_env_with_index(body_envs.envs_for_owner(&owner), index);
    let ghost start = issues@;
    if env.is_none() {
        issues.push(TypedBodyTableIssue { id, kind: TypedBodyTableIssueKind::MissingBodyEnvironment });
    }
    let control = control_flow.body_result(&owner, index);
    if control.is_none() {
        issues.push(TypedBodyTableIssue { id, kind: TypedBodyTableIssueKind::MissingControlFlowResult });
    }
    proof {
        assert(issues@ =~= start + typed_body_issues(*body, *body_envs, *control_flow));
    }
    let expected_return_type = match env {
        Some(e) => e.expected_return_type.clone(),
        None => Type::error(),
    };
    let body_result_type = match control {
        Some(c) => c.block_result_type.clone(),
        None => Type::error(),
    };
    let control_flow_is_compatible = match control {
        Some(c) => c.is_compatible,
        None => false,
    };
    let local_bindings = match env {
        Some(e) => copy_binding_map(&e.local_bindings),
        None => SortedMap::new(),
    };
    let local_types = match stmt_types.local_types_for_body(&owner, index) {
        Some(m) => copy_local_types(m),
        None => match env {
            Some(e) => copy_local_types(&e.local_types),
            None => SortedMap::new(),
        },
    };
    let expression_types = collect_body_expr_types(expr_types, &owner, index);
    let issue_markers = issue_markers_for_body(body_envs, expr_types, stmt_types, control_flow, &owner, index);
    TypedBody {
        id,
        kind: body.kind,
        containing_scope_file_id: body.containing_scope_file_id,
        expected_return_type,
        body_result_type,
        control_flow_is_compatible,
        local_types,
        local_bindings,
        expression_types,
        issue_markers,
    }
}

/// `typed` are the typed bodies of the bodies at positions `order`, in that order.
pub open spec fn typed_of_positions(
    typed: Seq<TypedBody>,
    bodies: Seq<ResolvedBody>,
    order: Seq<usize>,
    body_envs: BodyTypeEnvironmentTable,
    expr_types: ExpressionTypeTable,
    stmt_types: StatementTypeTable,
    control_flow: ControlFlowTable,
) -> bool {
    &&& typed.len() == order.len()
    &&& forall|k: int| 0 <= k < typed.len() ==> is_typed_body_of(#[trigger] typed[k], bodies[order[k] as int], body_envs, expr_types, stmt_types, control_flow)
}

fn build_owner_typed_bodies(
    bodies: &Vec<ResolvedBody>,
    positions: &Vec<usize>,
    body_envs: &BodyTypeEnvironmentTable,
    expr_types: &ExpressionTypeTable,
    stmt_types: &StatementTypeTable,
    control_flow: &ControlFlowTable,
    issues: &mut Vec<TypedBodyTableIssue>,
) -> (typed: Vec<TypedBody>)
    requires
        forall|m: int| 0 <= m < positions@.len() ==> #[trigger] positions@[m] < bodies@.len(),
    ensures
        typed_of_positions(typed@, bodies@, crate::frontend::semantic::body_env::sort_by_body_index(bodies@, positions@), *body_envs, *expr_types, *stmt_types, *control_flow),
        final(issues)@ == old(issues)@ + typed_positions_issues(bodies@, crate::frontend::semantic::body_env::sort_by_body_index(bodies@, positions@), *body_envs, *control_flow),
{
    let order = sort_positions_by_body_index(bodies, positions);
    let ghost base = issues@;
    let mut typed: Vec<TypedBody> = Vec::new();
    let mut k: usize = 0;
    proof {
        assert(order@.subrange(0, 0) =~= Seq::<usize>::empty());
        assert(issues@ =~= base + seq![]);
    }
    while k < order.len()
        invariant
            k <= order@.len(),
            forall|m: int| 0 <= m < order@.len() ==> #[trigger] order@[m] < bodies@.len(),
            typed@.len() == k,
            forall|m: int| 0 <= m < k ==> is_typed_body_of(#[trigger] typed@[m], bodies@[order@[m] as int], *body_envs, *expr_types, *stmt_types, *control_flow),
            issues@ == base + typed_positions_issues(bodies@, order@.subrange(0, k as int), *body_envs, *control_flow),
        decreases order@.len() - k,
    {
        let p = order[k];
        proof {
            assert(order@.subrange(0, k as int + 1).drop_last() =~= order@.subrange(0, k as int));
        }
        let tb = build_one_typed_body(&bodies[p], body_envs, expr_types, stmt_types, control_flow, issues);
        typed.push(tb);
        proof {
            assert(base + typed_positions_issues(bodies@, order@.subrange(0, k as int), *body_envs, *control_flow) + typed_body_issues(bodies@[p as int], *body_envs, *control_flow)
                =~= base + typed_positions_issues(bodies@, order@.subrange(0, k as int + 1), *body_envs, *control_flow));
        }
        k = k + 1;
    }
    proof {
        assert(order@.subrange(0, order@.len() as int) =~= order@);
    }
    typed
}

/// Whether `r` holds the typed bodies of `bodies` joined from the given
/// tables (see [`build_typed_body_table`]).
pub open spec fn typed_bodies_built(
    r: TypedBodyTable,
    bodies: Seq<ResolvedBody>,
    body_envs: BodyTypeEnvironmentTable,
    expr_types: ExpressionTypeTable,
    stmt_types: StatementTypeTable,
    control_flow: ControlFlowTable,
) -> bool {
    &&& entries_sorted(r.spec_bodies())
    &&& forall|o: DeclarationOwner| #[trigger] entries_contain(r.spec_bodies(), o) <==> exists|i: int|
        0 <= i < bodies.len() && (#[trigger] bodies[i]).owner == o
    &&& forall|j: int| 0 <= j < r.spec_bodies().len() ==> typed_of_positions(
        (#[trigger] r.spec_bodies()[j]).1@,
        bodies,
        owner_body_order(bodies, r.spec_bodies()[j].0),
        body_envs,
        expr_types,
        stmt_types,
        control_flow,
    )
    &&& r.spec_issues() == typed_owners_issues(bodies, typed_entry_owners(r.spec_bodies()), body_envs, control_flow)
}

/// Assembles what the passes found of every body: bodies are grouped by
/// owner, owners ascending and each owner's bodies by body index (ties in
/// resolution order); issues are reported in that order.
pub fn build_typed_body_table(
    resolved_bodies: &ResolvedBodyTable,
    body_envs: &BodyTypeEnvironmentTable,
    expr_types: &ExpressionTypeTable,
    stmt_types: &StatementTypeTable,
    control_flow: &ControlFlowTable,
) -> (r: TypedBodyTable)
    ensures
        typed_bodies_built(r, resolved_bodies.bodies@, *body_envs, *expr_types, *stmt_types, *control_flow),
{
    let bodies = resolved_bodies.iter();
    let ghost bs = bodies@;
    let grouped = group_positions_by_owner(bodies);
    let groups = grouped.entries();
    let mut issues: Vec<TypedBodyTableIssue> = Vec::new();
    let mut by_owner: Vec<(DeclarationOwner, Vec<TypedBody>)> = Vec::new();
    let mut j: usize = 0;
    while j < groups.len()
        invariant
            j <= groups@.len(),
            entries_sorted(groups@),
            bodies@ == bs,
            bs == resolved_bodies.bodies@,
            forall|o: DeclarationOwner| #[trigger] entries_contain(groups@, o) <==> crate::frontend::semantic::body_env::owner_positions(bs, o, bs.len()).len() > 0,
            forall|o: DeclarationOwner| entries_contain(groups@, o) ==> (#[trigger] entries_list_map(groups@)[o]) == crate::frontend::semantic::body_env::owner_positions(bs, o, bs.len()),
            by_owner@.len() == j,
            forall|k: int| 0 <= k < j ==> (#[trigger] by_owner@[k]).0 == groups@[k].0,
            forall|k: int| 0 <= k < j ==> typed_of_positions((#[trigger] by_owner@[k]).1@, bs, owner_body_order(bs, by_owner@[k].0), *body_envs, *expr_types, *stmt_types, *control_flow),
            issues@ == typed_owners_issues(bs, typed_entry_owners(by_owner@), *body_envs, *control_flow),
        decreases groups@.len() - j,
    {
        let owner = groups[j].0;
        let positions = &groups[j].1;
        proof {
            crate::collections::sorted_map::lemma_lookup_at(groups@, j as int);
            assert(entries_contain(groups@, owner));
            assert(entries_list_map(groups@)[owner] == groups@[j as int].1@);
            assert(positions@ == crate::frontend::semantic::body_env::owner_positions(bs, owner, bs.len()));
            lemma_owner_positions_nonempty(bs, owner, bs.len());
        }
        let ghost base = issues@;
        let typed = build_owner_typed_bodies(bodies, positions, body_envs, expr_types, stmt_types, control_flow, &mut issues);
        let ghost old_by_owner = by_owner@;
        by_owner.push((owner, typed));
        proof {
            assert(typed_entry_owners(by_owner@).drop_last() =~= typed_entry_owners(old_by_owner));
            assert(typed_entry_owners(by_owner@).last() == owner);
        }
        j = j + 1;
    }
    proof {
        assert forall|a: int, b: int| 0 <= a < b < by_owner@.len() implies #[trigger] by_owner@[a].0.key_lt(#[trigger] by_owner@[b].0) by {
            assert(groups@[a].0.key_lt(groups@[b].0));
        }
        assert forall|o: DeclarationOwner| #[trigger] entries_contain(by_owner@, o) <==> exists|i: int|
            0 <= i < bs.len() && (#[trigger] bs[i]).owner == o by {
            lemma_owner_positions_nonempty(bs, o, bs.len());
            if entries_contain(by_owner@, o) {
                let k = choose|k: int| 0 <= k < by_owner@.len() && #[trigger] by_owner@[k].0 == o;
                assert(groups@[k].0 == o);
                assert(entries_contain(groups@, o));
            }
            if entries_contain(groups@, o) {
                let k = choose|k: int| 0 <= k < groups@.len() && #[trigger] groups@[k].0 == o;
                assert(by_owner@[k].0 == o);
            }
        }
    }
    TypedBodyTable { by_owner: SortedMap::from_sorted_entries(by_owner), issues }
}

} // verus!
