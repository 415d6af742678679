//! Inference context: variable allocation, substitutions with path
//! compression, constraints, unification and literal defaulting.

use super::constraints::{InferenceConstraint, InferenceIssue, InferenceIssueKind};
use super::defaults::{default_for, InferenceDefaults, LiteralDefaultKind};
use super::ids::TypeVarId;
use super::types::{ConcreteType, InferenceType};
use crate::collections::sorted_map::{entries_contain, entries_lookup, MapKey, SortedMap};
use crate::midend::type_check::BuiltinType;
use vstd::prelude::*;

verus! {

/// The substitution held by sorted binding entries.
pub open spec fn binding_map(s: Seq<(TypeVarId, InferenceType)>) -> Map<TypeVarId, InferenceType> {
    Map::new(|v: TypeVarId| entries_contain(s, v), |v: TypeVarId| entries_lookup(s, v).unwrap())
}

/// Follows bound variables for at most `fuel` steps.
pub open spec fn resolve_steps(b: Map<TypeVarId, InferenceType>, ty: InferenceType, fuel: nat) -> InferenceType
    decreases fuel,
{
    if fuel == 0 {
        ty
    } else {
        match ty {
            InferenceType::Var(v) => if b.contains_key(v) {
                resolve_steps(b, b[v], (fuel - 1) as nat)
            } else {
                ty
            },
            _ => ty,
        }
    }
}

/// A type that resolution leaves alone: a known type, the error type, or an
/// unbound variable.
pub open spec fn is_root(b: Map<TypeVarId, InferenceType>, ty: InferenceType) -> bool {
    match ty {
        InferenceType::Var(v) => !b.contains_key(v),
        _ => true,
    }
}

/// Every bound variable was bound at a time before `clock`, and a variable
/// bound to another bound variable was bound before it; so chains end.
pub open spec fn chain_ok(b: Map<TypeVarId, InferenceType>, st: Map<TypeVarId, nat>, clock: nat) -> bool {
    &&& forall|v: TypeVarId| #[trigger] b.contains_key(v) ==> st.contains_key(v) && st[v] < clock
    &&& forall|v: TypeVarId|
        #[trigger] b.contains_key(v) ==> match b[v] {
            InferenceType::Var(w) => b.contains_key(w) ==> st[v] < st[w],
            _ => true,
        }
}

/// Number of steps resolution of `ty` may still take.
pub open spec fn measure(b: Map<TypeVarId, InferenceType>, st: Map<TypeVarId, nat>, clock: nat, ty: InferenceType) -> nat {
    match ty {
        InferenceType::Var(v) => if b.contains_key(v) {
            (clock - st[v]) as nat
        } else {
            0
        },
        _ => 0,
    }
}

/// The type resolution of `u` gives after root `v` is bound to `t`.
pub open spec fn rebound(r: InferenceType, v: TypeVarId, t: InferenceType) -> InferenceType {
    if r == InferenceType::Var(v) {
        t
    } else {
        r
    }
}

proof fn lemma_root_fixed(b: Map<TypeVarId, InferenceType>, ty: InferenceType, fuel: nat)
    requires
        is_root(b, ty),
    ensures
        resolve_steps(b, ty, fuel) == ty,
{
}

proof fn lemma_resolve_fuel(
    b: Map<TypeVarId, InferenceType>,
    st: Map<TypeVarId, nat>,
    clock: nat,
    ty: InferenceType,
    f1: nat,
    f2: nat,
)
    requires
        chain_ok(b, st, clock),
        f1 >= measure(b, st, clock, ty),
        f2 >= measure(b, st, clock, ty),
    ensures
        resolve_steps(b, ty, f1) == resolve_steps(b, ty, f2),
        is_root(b, resolve_steps(b, ty, f1)),
        measure(b, st, clock, ty) <= clock,
    decreases measure(b, st, clock, ty),
{
    if let InferenceType::Var(v) = ty {
        if b.contains_key(v) {
            let next = b[v];
            assert(measure(b, st, clock, next) < measure(b, st, clock, ty));
            lemma_resolve_fuel(b, st, clock, next, (f1 - 1) as nat, (f2 - 1) as nat);
        }
    }
}

proof fn lemma_bind(
    b: Map<TypeVarId, InferenceType>,
    st: Map<TypeVarId, nat>,
    clock: nat,
    v: TypeVarId,
    t: InferenceType,
    ty: InferenceType,
)
    requires
        chain_ok(b, st, clock),
        !b.contains_key(v),
        is_root(b, t),
        t != InferenceType::Var(v),
    ensures
        chain_ok(b.insert(v, t), st.insert(v, clock), clock + 1),
        resolve_steps(b.insert(v, t), ty, clock + 1) == rebound(resolve_steps(b, ty, clock), v, t),
    decreases measure(b, st, clock, ty),
{
    let b2 = b.insert(v, t);
    let st2 = st.insert(v, clock);
    let c2 = clock + 1;
    assert(chain_ok(b2, st2, c2)) by {
        assert forall|u: TypeVarId| #[trigger] b2.contains_key(u) implies match b2[u] {
            InferenceType::Var(w) => b2.contains_key(w) ==> st2[u] < st2[w],
            _ => true,
        } by {
            if u != v {
                if let InferenceType::Var(w) = b[u] {
                    if w == v {
                        assert(st[u] < clock);
                    }
                }
            }
        }
    }
    match ty {
        InferenceType::Var(u) => {
            if u == v {
                lemma_root_fixed(b2, t, clock);
                lemma_root_fixed(b, ty, clock);
            } else if b.contains_key(u) {
                let next = b[u];
                lemma_resolve_fuel(b, st, clock, ty, clock, clock);
                lemma_resolve_fuel(b, st, clock, next, (clock - 1) as nat, clock);
                lemma_bind(b, st, clock, v, t, next);
                if let InferenceType::Var(w) = next {
                    if w == v {
                        assert(measure(b2, st2, c2, next) == 1);
                    }
                }
                lemma_resolve_fuel(b2, st2, c2, next, clock, c2);
            } else {
                lemma_root_fixed(b2, ty, c2);
                lemma_root_fixed(b, ty, clock);
            }
        },
        _ => {
        },
    }
}

proof fn lemma_compress(
    b: Map<TypeVarId, InferenceType>,
    st: Map<TypeVarId, nat>,
    clock: nat,
    v: TypeVarId,
    ty: InferenceType,
)
    requires
        chain_ok(b, st, clock),
        b.contains_key(v),
    ensures
        chain_ok(b.insert(v, resolve_steps(b, InferenceType::Var(v), clock)), st, clock),
        resolve_steps(b.insert(v, resolve_steps(b, InferenceType::Var(v), clock)), ty, clock)
            == resolve_steps(b, ty, clock),
    decreases measure(b, st, clock, ty),
{
    let r = resolve_steps(b, InferenceType::Var(v), clock);
    let b2 = b.insert(v, r);
    lemma_resolve_fuel(b, st, clock, InferenceType::Var(v), clock, clock);
    assert(chain_ok(b2, st, clock)) by {
        assert forall|u: TypeVarId| #[trigger] b2.contains_key(u) implies match b2[u] {
            InferenceType::Var(w) => b2.contains_key(w) ==> st[u] < st[w],
            _ => true,
        } by {
            if u == v {
                if let InferenceType::Var(w) = r {
                    assert(!b.contains_key(w));
                }
            }
        }
    }
    match ty {
        InferenceType::Var(u) => {
            if b.contains_key(u) {
                if u == v {
                    lemma_root_fixed(b2, r, (clock - 1) as nat);
                } else {
                    let next = b[u];
                    lemma_compress(b, st, clock, v, next);
                    lemma_resolve_fuel(b, st, clock, next, (clock - 1) as nat, clock);
                    lemma_resolve_fuel(b2, st, clock, next, (clock - 1) as nat, clock);
                }
            }
        },
        _ => {
        },
    }
}

/// Whether the inference type is a variable.
pub open spec fn is_var(ty: InferenceType) -> bool {
    ty is Var
}

/// The variable unification binds and what it binds it to, if any.
pub open spec fn unify_binding(l: InferenceType, r: InferenceType) -> Option<(TypeVarId, InferenceType)> {
    match (l, r) {
        (InferenceType::Error, _) => None,
        (_, InferenceType::Error) => None,
        (InferenceType::Var(v), _) => if r == InferenceType::Var(v) {
            None
        } else {
            Some((v, r))
        },
        (_, InferenceType::Var(v)) => Some((v, l)),
        _ => None,
    }
}

/// What unifying two resolved types yields.
pub open spec fn unify_result(l: InferenceType, r: InferenceType) -> InferenceType {
    match (l, r) {
        (InferenceType::Error, _) => InferenceType::Error,
        (_, InferenceType::Error) => InferenceType::Error,
        (InferenceType::Var(v), _) => r,
        (_, InferenceType::Var(v)) => l,
        (InferenceType::Known(a), InferenceType::Known(b)) => if a == b {
            InferenceType::Known(a)
        } else {
            InferenceType::Error
        },
    }
}

/// The issues unifying two resolved types reports.
pub open spec fn unify_issues(l: InferenceType, r: InferenceType) -> Seq<InferenceIssue> {
    match (l, r) {
        (InferenceType::Known(a), InferenceType::Known(b)) => if a == b {
            Seq::empty()
        } else {
            seq![InferenceIssue { kind: InferenceIssueKind::TypeMismatch { lhs: a, rhs: b } }]
        },
        _ => Seq::empty(),
    }
}

/// Resolution after each hinted literal variable that is still unbound
/// (through its root) has its root bound to the default for its kind, taking
/// the hints in order.
pub open spec fn finalize_roots(
    roots: spec_fn(TypeVarId) -> InferenceType,
    hints: Seq<(TypeVarId, LiteralDefaultKind)>,
    defaults: InferenceDefaults,
) -> spec_fn(TypeVarId) -> InferenceType
    decreases hints.len(),
{
    if hints.len() == 0 {
        roots
    } else {
        let prev = finalize_roots(roots, hints.drop_last(), defaults);
        let (var, kind) = hints.last();
        match prev(var) {
            InferenceType::Var(r) => |u: TypeVarId|
                rebound(
                    prev(u),
                    r,
                    InferenceType::Known(ConcreteType::Builtin(default_for(defaults, kind))),
                ),
            _ => prev,
        }
    }
}

/// Unifying a resolved type with itself yields it, binds nothing and reports nothing.
pub proof fn lemma_unify_self_is_noop(ty: InferenceType)
    ensures
        unify_result(ty, ty) == ty,
        unify_binding(ty, ty) is None,
        unify_issues(ty, ty) == Seq::<InferenceIssue>::empty(),
{
}

/// The error type absorbs unification with anything: the result is the
/// error type, nothing is bound and nothing is reported.
pub proof fn lemma_error_absorbs(ty: InferenceType)
    ensures
        unify_result(InferenceType::Error, ty) == InferenceType::Error,
        unify_result(ty, InferenceType::Error) == InferenceType::Error,
        unify_binding(InferenceType::Error, ty) is None,
        unify_binding(ty, InferenceType::Error) is None,
        unify_issues(InferenceType::Error, ty) == Seq::<InferenceIssue>::empty(),
        unify_issues(ty, InferenceType::Error) == Seq::<InferenceIssue>::empty(),
{
}

/// Two known types unify exactly when they are equal; otherwise one type
/// mismatch naming both is reported.
pub proof fn lemma_known_unify(a: ConcreteType, b: ConcreteType)
    ensures
        unify_binding(InferenceType::Known(a), InferenceType::Known(b)) is None,
        a == b ==> unify_result(InferenceType::Known(a), InferenceType::Known(b))
            == InferenceType::Known(a),
        a != b ==> unify_result(InferenceType::Known(a), InferenceType::Known(b))
            == InferenceType::Error,
        a != b ==> unify_issues(InferenceType::Known(a), InferenceType::Known(b)) == seq![
            InferenceIssue { kind: InferenceIssueKind::TypeMismatch { lhs: a, rhs: b } },
        ],
{
}

/// Finalization never changes what a variable resolves to once that is a
/// known type or the error type: a stronger constraint beats a literal default.
pub proof fn lemma_finalize_keeps_resolved(
    roots: spec_fn(TypeVarId) -> InferenceType,
    hints: Seq<(TypeVarId, LiteralDefaultKind)>,
    defaults: InferenceDefaults,
    u: TypeVarId,
)
    requires
        !is_var(roots(u)),
    ensures
        finalize_roots(roots, hints, defaults)(u) == roots(u),
    decreases hints.len(),
{
    if hints.len() > 0 {
        lemma_finalize_keeps_resolved(roots, hints.drop_last(), defaults, u);
    }
}

/// After finalization no hinted literal variable resolves to a variable.
pub proof fn lemma_finalize_resolves_hints(
    roots: spec_fn(TypeVarId) -> InferenceType,
    hints: Seq<(TypeVarId, LiteralDefaultKind)>,
    defaults: InferenceDefaults,
    i: int,
)
    requires
        0 <= i < hints.len(),
    ensures
        !is_var(finalize_roots(roots, hints, defaults)(hints[i].0)),
    decreases hints.len(),
{
    let prev = finalize_roots(roots, hints.drop_last(), defaults);
    let (var, kind) = hints.last();
    let step = finalize_roots(roots, hints, defaults);
    if i < hints.len() - 1 {
        lemma_finalize_resolves_hints(roots, hints.drop_last(), defaults, i);
        assert(hints.drop_last()[i] == hints[i]);
        let h = hints[i].0;
        assert(!is_var(prev(h)));
        if let InferenceType::Var(r) = prev(var) {
            assert(step(h) == rebound(prev(h), r, InferenceType::Known(ConcreteType::Builtin(default_for(defaults, kind)))));
        }
    } else {
        if let InferenceType::Var(r) = prev(var) {
            assert(step(var) == rebound(prev(var), r, InferenceType::Known(ConcreteType::Builtin(default_for(defaults, kind)))));
        }
    }
}

/// Inference context/state with variable allocation, substitutions,
/// constraints, and finalization/defaulting.
pub struct InferenceContext {
    next_type_var: u32,
    bindings: SortedMap<TypeVarId, InferenceType>,
    constraints: Vec<InferenceConstraint>,
    literal_default_hints: SortedMap<TypeVarId, LiteralDefaultKind>,
    defaults: InferenceDefaults,
    pub issues: Vec<InferenceIssue>,
    stamps: Ghost<Map<TypeVarId, nat>>,
    clock: Ghost<nat>,
}

impl InferenceContext {
    /// The current substitution.
    pub closed spec fn spec_bindings(&self) -> Map<TypeVarId, InferenceType> {
        binding_map(self.bindings@)
    }

    /// The substitution is acyclic, so resolution terminates.
    pub closed spec fn wf(&self) -> bool {
        chain_ok(self.spec_bindings(), self.stamps@, self.clock@)
    }

    /// What variable `v` resolves to: a known type, the error type, or an
    /// unbound variable.
    pub closed spec fn spec_root(&self, v: TypeVarId) -> InferenceType {
        resolve_steps(self.spec_bindings(), InferenceType::Var(v), self.clock@)
    }

    /// What `ty` resolves to.
    pub open spec fn spec_resolve(&self, ty: InferenceType) -> InferenceType {
        match ty {
            InferenceType::Var(v) => self.spec_root(v),
            _ => ty,
        }
    }

    /// Whether `v` has a binding.
    pub closed spec fn spec_is_bound(&self, v: TypeVarId) -> bool {
        self.spec_bindings().contains_key(v)
    }

    /// The next variable id to hand out.
    pub closed spec fn spec_next_var(&self) -> u32 {
        self.next_type_var
    }

    /// The constraints recorded so far.
    pub closed spec fn spec_constraints(&self) -> Seq<InferenceConstraint> {
        self.constraints@
    }

    /// Literal-kind hints, by ascending variable id.
    pub closed spec fn spec_hints(&self) -> Seq<(TypeVarId, LiteralDefaultKind)> {
        self.literal_default_hints@
    }

    /// Binding time counter.
    pub closed spec fn spec_clock(&self) -> nat {
        self.clock@
    }

    /// When each bound variable was bound.
    pub closed spec fn spec_stamps(&self) -> Map<TypeVarId, nat> {
        self.stamps@
    }

    /// The issues reported so far.
    pub closed spec fn spec_issues(&self) -> Seq<InferenceIssue> {
        self.issues@
    }

    /// The defaults used by finalization.
    pub closed spec fn spec_defaults(&self) -> InferenceDefaults {
        self.defaults
    }

    /// The literal kind recorded for `v`, if any.
    pub open spec fn spec_hint(&self, v: TypeVarId) -> Option<LiteralDefaultKind> {
        entries_lookup(self.spec_hints(), v)
    }

    /// Resolution, as a function.
    pub open spec fn spec_roots(&self) -> spec_fn(TypeVarId) -> InferenceType {
        |u: TypeVarId| self.spec_root(u)
    }

    /// Every root is a root: resolving it again leaves it alone.
    pub proof fn lemma_root_is_root(&self, v: TypeVarId)
        requires
            self.wf(),
        ensures
            match self.spec_root(v) {
                InferenceType::Var(w) => !self.spec_is_bound(w) && self.spec_root(w)
                    == InferenceType::Var(w),
                _ => true,
            },
    {
        lemma_resolve_fuel(
            self.spec_bindings(),
            self.stamps@,
            self.clock@,
            InferenceType::Var(v),
            self.clock@,
            self.clock@,
        );
        if let InferenceType::Var(w) = self.spec_root(v) {
            lemma_root_fixed(self.spec_bindings(), InferenceType::Var(w), self.clock@);
        }
    }

    /// A fresh context using the default literal defaults.
    pub fn new() -> (ctx: Self)
        ensures
            ctx.wf(),
            ctx.spec_next_var() == 0,
            ctx.spec_bindings() == Map::<TypeVarId, InferenceType>::empty(),
            ctx.spec_constraints().len() == 0,
            ctx.spec_hints().len() == 0,
            ctx.spec_issues().len() == 0,
            ctx.spec_defaults().integer_default == BuiltinType::I32,
            ctx.spec_defaults().float_default == BuiltinType::F64,
            forall|v: TypeVarId| #[trigger] ctx.spec_root(v) == InferenceType::Var(v),
    {
        InferenceContext::with_defaults(InferenceDefaults::default())
    }

    /// A fresh context using `defaults`.
    pub fn with_defaults(defaults: InferenceDefaults) -> (ctx: Self)
        ensures
            ctx.wf(),
            ctx.spec_next_var() == 0,
            ctx.spec_bindings() == Map::<TypeVarId, InferenceType>::empty(),
            ctx.spec_constraints().len() == 0,
            ctx.spec_hints().len() == 0,
            ctx.spec_issues().len() == 0,
            ctx.spec_defaults() == defaults,
            forall|v: TypeVarId| #[trigger] ctx.spec_root(v) == InferenceType::Var(v),
    {
        let ctx = InferenceContext {
            next_type_var: 0,
            bindings: SortedMap::new(),
            constraints: Vec::new(),
            literal_default_hints: SortedMap::new(),
            defaults,
            issues: Vec::new(),
            stamps: Ghost(Map::empty()),
            clock: Ghost(0),
        };
        proof {
            assert(ctx.spec_bindings() =~= Map::<TypeVarId, InferenceType>::empty());
        }
        ctx
    }

    /// The defaults used by finalization.
    pub fn defaults(&self) -> (d: InferenceDefaults)
        ensures
            d == self.spec_defaults(),
    {
        self.defaults
    }

    /// A scratch copy with the same substitution, variable counter and
    /// defaults, and no constraints, hints or issues; unifying in it leaves
    /// this context untouched.
    pub fn fork(&self) -> (p: Self)
        requires
            self.wf(),
        ensures
            p.wf(),
            p.spec_bindings() == self.spec_bindings(),
            p.spec_roots() == self.spec_roots(),
            p.spec_next_var() == self.spec_next_var(),
            p.spec_defaults() == self.spec_defaults(),
            p.spec_constraints().len() == 0,
            p.spec_hints().len() == 0,
            p.spec_issues().len() == 0,
    {
        let entries = self.bindings.entries();
        let mut copied: Vec<(TypeVarId, InferenceType)> = Vec::new();
        let mut i: usize = 0;
        while i < entries.len()
            invariant
                i <= entries@.len(),
                copied@ == entries@.subrange(0, i as int),
            decreases entries@.len() - i,
        {
            let (k, v) = &entries[i];
            copied.push((*k, v.clone()));
            proof {
                assert(copied@ =~= entries@.subrange(0, i as int + 1));
            }
            i = i + 1;
        }
        proof {
            assert(copied@ =~= entries@);
        }
        let p = InferenceContext {
            next_type_var: self.next_type_var,
            bindings: SortedMap::from_sorted_entries(copied),
            constraints: Vec::new(),
            literal_default_hints: SortedMap::new(),
            defaults: self.defaults,
            issues: Vec::new(),
            stamps: Ghost(self.stamps@),
            clock: Ghost(self.clock@),
        };
        proof {
            assert(p.spec_bindings() =~= self.spec_bindings());
            assert(p.spec_roots() =~= self.spec_roots());
        }
        p
    }

    /// The issues reported so far, in order.
    pub fn issue_list(&self) -> (r: &Vec<InferenceIssue>)
        ensures
            r@ == self.spec_issues(),
    {
        &self.issues
    }

    /// Replaces the defaults used by finalization.
    pub fn set_defaults(&mut self, defaults: InferenceDefaults)
        requires
            old(self).wf(),
        ensures
            final(self).wf(),
            final(self).spec_defaults() == defaults,
            final(self).spec_bindings() == old(self).spec_bindings(),
            final(self).spec_roots() == old(self).spec_roots(),
            final(self).spec_next_var() == old(self).spec_next_var(),
            final(self).spec_constraints() == old(self).spec_constraints(),
            final(self).spec_hints() == old(self).spec_hints(),
            final(self).spec_issues() == old(self).spec_issues(),
    {
        self.defaults = defaults;
    }

    /// Hands out the next variable id; the counter saturates at `u32::MAX`.
    pub fn fresh_type_var(&mut self) -> (id: TypeVarId)
        requires
            old(self).wf(),
        ensures
            final(self).wf(),
            id.0 == old(self).spec_next_var(),
            final(self).spec_next_var() == if old(self).spec_next_var() == u32::MAX {
                u32::MAX
            } else {
                (old(self).spec_next_var() + 1) as u32
            },
            final(self).spec_bindings() == old(self).spec_bindings(),
            final(self).spec_roots() == old(self).spec_roots(),
            final(self).spec_constraints() == old(self).spec_constraints(),
            final(self).spec_hints() == old(self).spec_hints(),
            final(self).spec_defaults() == old(self).spec_defaults(),
            final(self).spec_issues() == old(self).spec_issues(),
    {
        let id = TypeVarId::new(self.next_type_var);
        self.next_type_var = self.next_type_var.saturating_add(1);
        id
    }

    /// A fresh inference variable as a type.
    pub fn fresh_type(&mut self) -> (ty: InferenceType)
        requires
            old(self).wf(),
        ensures
            final(self).wf(),
            ty == InferenceType::Var(TypeVarId(old(self).spec_next_var())),
            final(self).spec_next_var() == if old(self).spec_next_var() == u32::MAX {
                u32::MAX
            } else {
                (old(self).spec_next_var() + 1) as u32
            },
            final(self).spec_bindings() == old(self).spec_bindings(),
            final(self).spec_roots() == old(self).spec_roots(),
            final(self).spec_constraints() == old(self).spec_constraints(),
            final(self).spec_hints() == old(self).spec_hints(),
            final(self).spec_defaults() == old(self).spec_defaults(),
            final(self).spec_issues() == old(self).spec_issues(),
    {
        InferenceType::Var(self.fresh_type_var())
    }

    /// The constraints recorded so far.
    pub fn constraints(&self) -> (r: &[InferenceConstraint])
        ensures
            r@ == self.spec_constraints(),
    {
        self.constraints.as_slice()
    }

    /// Appends `constraint` to the recorded constraints.
    pub fn record_constraint(&mut self, constraint: InferenceConstraint)
        requires
            old(self).wf(),
        ensures
            final(self).wf(),
            final(self).spec_constraints() == old(self).spec_constraints().push(constraint),
            final(self).spec_bindings() == old(self).spec_bindings(),
            final(self).spec_roots() == old(self).spec_roots(),
            final(self).spec_next_var() == old(self).spec_next_var(),
            final(self).spec_hints() == old(self).spec_hints(),
            final(self).spec_defaults() == old(self).spec_defaults(),
            final(self).spec_issues() == old(self).spec_issues(),
    {
        self.constraints.push(constraint);
    }

    /// Records `kind` for `var` unless a kind is already recorded for it.
    fn mark_literal_var(&mut self, var: TypeVarId, kind: LiteralDefaultKind)
        requires
            old(self).wf(),
        ensures
            final(self).wf(),
            final(self).spec_hint(var) == Some(match old(self).spec_hint(var) {
                Some(k) => k,
                None => kind,
            }),
            forall|v: TypeVarId| v != var ==> #[trigger] final(self).spec_hint(v) == old(self).spec_hint(v),
            forall|v: TypeVarId| #[trigger] entries_contain(final(self).spec_hints(), v)
                <==> (entries_contain(old(self).spec_hints(), v) || v == var),
            entries_contain(old(self).spec_hints(), var) ==> final(self).spec_hints() == old(
                self,
            ).spec_hints(),
            (forall|i: int|
                0 <= i < old(self).spec_hints().len() ==> #[trigger] old(self).spec_hints()[i].0.0
                    < var.0) ==> final(self).spec_hints() == old(self).spec_hints().push((var, kind)),
            final(self).spec_bindings() == old(self).spec_bindings(),
            final(self).spec_roots() == old(self).spec_roots(),
            final(self).spec_next_var() == old(self).spec_next_var(),
            final(self).spec_constraints() == old(self).spec_constraints(),
            final(self).spec_defaults() == old(self).spec_defaults(),
            final(self).spec_issues() == old(self).spec_issues(),
    {
        if !self.literal_default_hints.contains_key(&var) {
            let ghost h0 = self.literal_default_hints@;
            proof {
                if forall|i: int| 0 <= i < h0.len() ==> #[trigger] h0[i].0.0 < var.0 {
                    assert forall|i: int| 0 <= i < h0.len() implies #[trigger] h0[i].0.key_lt(var) by {
                        assert(h0[i].0.0 < var.0);
                    }
                }
            }
            self.literal_default_hints.insert(var, kind);
            proof {
                assert forall|v: TypeVarId| v != var implies #[trigger] self.spec_hint(v) == old(
                    self,
                ).spec_hint(v) by {
                    assert(self.literal_default_hints.spec_get(v) == old(self).literal_default_hints.spec_get(v));
                }
            }
        } else {
            proof {
                let s = self.spec_hints();
                let j = choose|j: int| 0 <= j < s.len() && #[trigger] s[j].0 == var;
                assert(entries_lookup(s, var) is Some);
                assert(s[j].0.0 == var.0);
            }
        }
    }

    /// Marks `var` as standing for an integer literal, unless already marked.
    pub fn mark_integer_literal_var(&mut self, var: TypeVarId)
        requires
            old(self).wf(),
        ensures
            final(self).wf(),
            final(self).spec_hint(var) == Some(match old(self).spec_hint(var) {
                Some(k) => k,
                None => LiteralDefaultKind::Integer,
            }),
            forall|v: TypeVarId| v != var ==> #[trigger] final(self).spec_hint(v) == old(self).spec_hint(v),
            entries_contain(old(self).spec_hints(), var) ==> final(self).spec_hints() == old(
                self,
            ).spec_hints(),
            (forall|i: int|
                0 <= i < old(self).spec_hints().len() ==> #[trigger] old(self).spec_hints()[i].0.0
                    < var.0) ==> final(self).spec_hints() == old(self).spec_hints().push(
                (var, LiteralDefaultKind::Integer),
            ),
            final(self).spec_bindings() == old(self).spec_bindings(),
            final(self).spec_roots() == old(self).spec_roots(),
            final(self).spec_next_var() == old(self).spec_next_var(),
            final(self).spec_constraints() == old(self).spec_constraints(),
            final(self).spec_defaults() == old(self).spec_defaults(),
            final(self).spec_issues() == old(self).spec_issues(),
    {
        self.mark_literal_var(var, LiteralDefaultKind::Integer);
    }

    /// Marks `var` as standing for a float literal, unless already marked.
    pub fn mark_float_literal_var(&mut self, var: TypeVarId)
        requires
            old(self).wf(),
        ensures
            final(self).wf(),
            final(self).spec_hint(var) == Some(match old(self).spec_hint(var) {
                Some(k) => k,
                None => LiteralDefaultKind::Float,
            }),
            forall|v: TypeVarId| v != var ==> #[trigger] final(self).spec_hint(v) == old(self).spec_hint(v),
            entries_contain(old(self).spec_hints(), var) ==> final(self).spec_hints() == old(
                self,
            ).spec_hints(),
            (forall|i: int|
                0 <= i < old(self).spec_hints().len() ==> #[trigger] old(self).spec_hints()[i].0.0
                    < var.0) ==> final(self).spec_hints() == old(self).spec_hints().push(
                (var, LiteralDefaultKind::Float),
            ),
            final(self).spec_bindings() == old(self).spec_bindings(),
            final(self).spec_roots() == old(self).spec_roots(),
            final(self).spec_next_var() == old(self).spec_next_var(),
            final(self).spec_constraints() == old(self).spec_constraints(),
            final(self).spec_defaults() == old(self).spec_defaults(),
            final(self).spec_issues() == old(self).spec_issues(),
    {
        self.mark_literal_var(var, LiteralDefaultKind::Float);
    }

    /// Stores `ty` as the binding of `var`.
    fn set_binding(&mut self, var: TypeVarId, ty: InferenceType)
        ensures
            final(self).spec_bindings() == old(self).spec_bindings().insert(var, ty),
            final(self).spec_stamps() == old(self).spec_stamps(),
            final(self).spec_clock() == old(self).spec_clock(),
            final(self).spec_next_var() == old(self).spec_next_var(),
            final(self).spec_constraints() == old(self).spec_constraints(),
            final(self).spec_hints() == old(self).spec_hints(),
            final(self).spec_defaults() == old(self).spec_defaults(),
            final(self).spec_issues() == old(self).spec_issues(),
    {
        let ghost ty_copy = ty;
        self.bindings.insert(var, ty);
        proof {
            let m0 = old(self).spec_bindings().insert(var, ty_copy);
            let m1 = self.spec_bindings();
            assert forall|k: TypeVarId| #[trigger] m1.contains_key(k) <==> m0.contains_key(k) by {
                assert(entries_contain(self.bindings@, k) <==> (entries_contain(old(self).bindings@, k) || k == var));
            }
            assert forall|k: TypeVarId| m1.contains_key(k) implies #[trigger] m1[k] == m0[k] by {
                if k != var {
                    assert(self.bindings.spec_get(k) == old(self).bindings.spec_get(k));
                } else {
                    assert(self.bindings.spec_get(k) == Some(ty_copy));
                }
            }
            assert(m1 =~= m0);
        }
    }

    /// Resolves substitutions for `ty`, compressing every chain it walks.
    pub fn resolve(&mut self, ty: InferenceType) -> (r: InferenceType)
        requires
            old(self).wf(),
        ensures
            final(self).wf(),
            r == old(self).spec_resolve(ty),
            is_root(final(self).spec_bindings(), r),
            final(self).spec_roots() == old(self).spec_roots(),
            final(self).spec_bindings().dom() == old(self).spec_bindings().dom(),
            final(self).spec_clock() == old(self).spec_clock(),
            final(self).spec_stamps() == old(self).spec_stamps(),
            final(self).spec_next_var() == old(self).spec_next_var(),
            final(self).spec_constraints() == old(self).spec_constraints(),
            final(self).spec_hints() == old(self).spec_hints(),
            final(self).spec_defaults() == old(self).spec_defaults(),
            final(self).spec_issues() == old(self).spec_issues(),
        decreases measure(old(self).spec_bindings(), old(self).spec_stamps(), old(self).spec_clock(), ty),
    {
        let ghost b0 = self.spec_bindings();
        let ghost st = self.stamps@;
        let ghost clock = self.clock@;
        proof {
            lemma_resolve_fuel(b0, st, clock, ty, clock, clock);
        }
        match ty {
            InferenceType::Var(var) => {
                let bound = match self.bindings.get(&var) {
                    Some(bound) => bound.clone(),
                    None => {
                        proof {
                            lemma_root_fixed(b0, ty, clock);
                            assert(self.spec_roots() =~= old(self).spec_roots());
                        }
                        return InferenceType::Var(var);
                    },
                };
                proof {
                    assert(b0.contains_key(var));
                    assert(measure(b0, st, clock, bound) < measure(b0, st, clock, ty));
                    lemma_resolve_fuel(b0, st, clock, bound, (clock - 1) as nat, clock);
                }
                let resolved = self.resolve(bound);
                let ghost b1 = self.spec_bindings();
                proof {
                    assert(resolved == resolve_steps(b0, ty, clock)) by {
                        match bound {
                            InferenceType::Var(w) => {
                            },
                            _ => {
                                lemma_root_fixed(b0, bound, clock);
                            },
                        }
                    }
                    assert(self.spec_roots()(var) == old(self).spec_roots()(var));
                    assert(b1.contains_key(var));
                    lemma_compress(b1, st, clock, var, InferenceType::Var(var));
                }
                self.set_binding(var, resolved.clone());
                proof {
                    let b2 = self.spec_bindings();
                    assert(b2 == b1.insert(var, resolve_steps(b1, InferenceType::Var(var), clock)));
                    assert forall|u: TypeVarId| #[trigger] self.spec_roots()(u) == old(self).spec_roots()(u) by {
                        lemma_compress(b1, st, clock, var, InferenceType::Var(u));
                        assert(old(self).spec_roots()(u) == resolve_steps(b0, InferenceType::Var(u), clock));
                        assert(self.spec_roots()(u) == resolve_steps(b2, InferenceType::Var(u), clock));
                    }
                    assert(self.spec_roots() =~= old(self).spec_roots());
                    assert(b2.dom() =~= b0.dom());
                }
                resolved
            },
            other => {
                proof {
                    assert(self.spec_roots() =~= old(self).spec_roots());
                }
                other
            },
        }
    }

    /// The binding of `var` resolved, or `None` when `var` is unbound.
    pub fn binding(&mut self, var: TypeVarId) -> (r: Option<InferenceType>)
        requires
            old(self).wf(),
        ensures
            final(self).wf(),
            r is Some <==> old(self).spec_is_bound(var),
            r matches Some(t) ==> t == old(self).spec_root(var),
            final(self).spec_roots() == old(self).spec_roots(),
            final(self).spec_next_var() == old(self).spec_next_var(),
            final(self).spec_constraints() == old(self).spec_constraints(),
            final(self).spec_hints() == old(self).spec_hints(),
            final(self).spec_defaults() == old(self).spec_defaults(),
            final(self).spec_issues() == old(self).spec_issues(),
    {
        let ghost b0 = self.spec_bindings();
        let ghost st = self.stamps@;
        let ghost clock = self.clock@;
        let bound = match self.bindings.get(&var) {
            Some(bound) => bound.clone(),
            None => {
                return None;
            },
        };
        proof {
            assert(b0.contains_key(var));
            lemma_resolve_fuel(b0, st, clock, InferenceType::Var(var), clock, clock);
            lemma_resolve_fuel(b0, st, clock, bound, (clock - 1) as nat, clock);
            match bound {
                InferenceType::Var(w) => {
                },
                _ => {
                    lemma_root_fixed(b0, bound, clock);
                },
            }
        }
        Some(self.resolve(bound))
    }

    /// Marks the variable `ty` resolves to, if any, as an integer literal.
    pub fn mark_integer_literal(&mut self, ty: &InferenceType)
        requires
            old(self).wf(),
        ensures
            final(self).wf(),
            match old(self).spec_resolve(*ty) {
                InferenceType::Var(v) => {
                    &&& final(self).spec_hint(v) == Some(match old(self).spec_hint(v) {
                        Some(k) => k,
                        None => LiteralDefaultKind::Integer,
                    })
                    &&& forall|u: TypeVarId| u != v ==> #[trigger] final(self).spec_hint(u)
                        == old(self).spec_hint(u)
                },
                _ => final(self).spec_hints() == old(self).spec_hints(),
            },
            final(self).spec_roots() == old(self).spec_roots(),
            final(self).spec_next_var() == old(self).spec_next_var(),
            final(self).spec_constraints() == old(self).spec_constraints(),
            final(self).spec_defaults() == old(self).spec_defaults(),
            final(self).spec_issues() == old(self).spec_issues(),
    {
        if let InferenceType::Var(var) = self.resolve(ty.clone()) {
            self.mark_integer_literal_var(var);
        }
    }

    /// Marks the variable `ty` resolves to, if any, as a float literal.
    pub fn mark_float_literal(&mut self, ty: &InferenceType)
        requires
            old(self).wf(),
        ensures
            final(self).wf(),
            match old(self).spec_resolve(*ty) {
                InferenceType::Var(v) => {
                    &&& final(self).spec_hint(v) == Some(match old(self).spec_hint(v) {
                        Some(k) => k,
                        None => LiteralDefaultKind::Float,
                    })
                    &&& forall|u: TypeVarId| u != v ==> #[trigger] final(self).spec_hint(u)
                        == old(self).spec_hint(u)
                },
                _ => final(self).spec_hints() == old(self).spec_hints(),
            },
            final(self).spec_roots() == old(self).spec_roots(),
            final(self).spec_next_var() == old(self).spec_next_var(),
            final(self).spec_constraints() == old(self).spec_constraints(),
            final(self).spec_defaults() == old(self).spec_defaults(),
            final(self).spec_issues() == old(self).spec_issues(),
    {
        if let InferenceType::Var(var) = self.resolve(ty.clone()) {
            self.mark_float_literal_var(var);
        }
    }

    /// Whether `ty` resolves to `var`.
    fn occurs_in(&mut self, var: TypeVarId, ty: &InferenceType) -> (b: bool)
        requires
            old(self).wf(),
        ensures
            final(self).wf(),
            b == (old(self).spec_resolve(*ty) == InferenceType::Var(var)),
            final(self).spec_roots() == old(self).spec_roots(),
            final(self).spec_bindings().dom() == old(self).spec_bindings().dom(),
            final(self).spec_clock() == old(self).spec_clock(),
            final(self).spec_stamps() == old(self).spec_stamps(),
            final(self).spec_next_var() == old(self).spec_next_var(),
            final(self).spec_constraints() == old(self).spec_constraints(),
            final(self).spec_hints() == old(self).spec_hints(),
            final(self).spec_defaults() == old(self).spec_defaults(),
            final(self).spec_issues() == old(self).spec_issues(),
    {
        match self.resolve(ty.clone()) {
            InferenceType::Var(other) => other == var,
            _ => false,
        }
    }

    /// Binds the unbound variable `var` to what `ty` resolves to.
    fn bind_var(&mut self, var: TypeVarId, ty: InferenceType) -> (r: InferenceType)
        requires
            old(self).wf(),
            !old(self).spec_is_bound(var),
        ensures
            final(self).wf(),
            ({
                let t = old(self).spec_resolve(ty);
                if t == InferenceType::Var(var) {
                    &&& r == InferenceType::Var(var)
                    &&& final(self).spec_roots() == old(self).spec_roots()
                } else {
                    &&& r == t
                    &&& forall|u: TypeVarId| #[trigger] final(self).spec_root(u) == rebound(
                        old(self).spec_root(u),
                        var,
                        t,
                    )
                }
            }),
            final(self).spec_next_var() == old(self).spec_next_var(),
            final(self).spec_constraints() == old(self).spec_constraints(),
            final(self).spec_hints() == old(self).spec_hints(),
            final(self).spec_defaults() == old(self).spec_defaults(),
            final(self).spec_issues() == old(self).spec_issues(),
    {
        let ty = self.resolve(ty);
        if ty == InferenceType::Var(var) {
            return InferenceType::Var(var);
        }
        if self.occurs_in(var, &ty) {
            proof {
                lemma_root_fixed(self.spec_bindings(), ty, self.clock@);
            }
            self.issues.push(InferenceIssue {
                kind: InferenceIssueKind::OccursCheckFailed { var, ty: ty.clone() },
            });
            self.set_binding(var, InferenceType::Error);
            return InferenceType::Error;
        }
        let ghost b1 = self.spec_bindings();
        let ghost st = self.stamps@;
        let ghost clock = self.clock@;
        proof {
            assert(!b1.contains_key(var));
            assert forall|u: TypeVarId| true implies #[trigger] old(self).spec_root(u)
                == resolve_steps(b1, InferenceType::Var(u), clock) by {
                assert(old(self).spec_roots()(u) == self.spec_roots()(u));
            }
        }
        self.set_binding(var, ty.clone());
        self.stamps = Ghost(st.insert(var, clock));
        self.clock = Ghost(clock + 1);
        proof {
            lemma_bind(b1, st, clock, var, ty, InferenceType::Var(var));
            assert forall|u: TypeVarId| #[trigger] self.spec_root(u) == rebound(
                old(self).spec_root(u),
                var,
                ty,
            ) by {
                lemma_bind(b1, st, clock, var, ty, InferenceType::Var(u));
            }
        }
        ty
    }

    /// Unifies two concrete types structurally: they unify exactly when equal.
    fn unify_concrete(&mut self, lhs: ConcreteType, rhs: ConcreteType) -> (r: Option<ConcreteType>)
        ensures
            r == (if lhs == rhs {
                Some(lhs)
            } else {
                None
            }),
            *final(self) == *old(self),
        decreases lhs,
    {
        match (lhs, rhs) {
            (ConcreteType::Builtin(a), ConcreteType::Builtin(b)) => {
                if a == b {
                    Some(ConcreteType::Builtin(a))
                } else {
                    None
                }
            },
            (
                ConcreteType::Nominal { item_id: a_item, kind: a_kind },
                ConcreteType::Nominal { item_id: b_item, kind: b_kind },
            ) => {
                if a_item == b_item && a_kind == b_kind {
                    Some(ConcreteType::Nominal { item_id: a_item, kind: a_kind })
                } else {
                    None
                }
            },
            (
                ConcreteType::Pointer { pointee: a_pointee, mutability: a_mutability },
                ConcreteType::Pointer { pointee: b_pointee, mutability: b_mutability },
            ) => {
                if a_mutability == b_mutability {
                    let pointee = self.unify_concrete(*a_pointee, *b_pointee)?;
                    Some(ConcreteType::Pointer { pointee: Box::new(pointee), mutability: a_mutability })
                } else {
                    None
                }
            },
            (ConcreteType::Optional(a), ConcreteType::Optional(b)) => {
                let inner = self.unify_concrete(*a, *b)?;
                Some(ConcreteType::Optional(Box::new(inner)))
            },
            (ConcreteType::Result { ok: a_ok, err: a_err }, ConcreteType::Result { ok: b_ok, err: b_err }) => {
                let ok = self.unify_concrete(*a_ok, *b_ok)?;
                let err = self.unify_concrete(*a_err, *b_err)?;
                Some(ConcreteType::Result { ok: Box::new(ok), err: Box::new(err) })
            },
            _ => None,
        }
    }

    /// Unifies two types: resolves both, then binds a variable side to the
    /// other side, or compares known types structurally (reporting a type
    /// mismatch and giving the error type when they differ); the error type
    /// absorbs everything without a report.
    pub fn unify(&mut self, lhs: InferenceType, rhs: InferenceType) -> (r: InferenceType)
        requires
            old(self).wf(),
        ensures
            final(self).wf(),
            r == unify_result(old(self).spec_resolve(lhs), old(self).spec_resolve(rhs)),
            final(self).spec_issues() == old(self).spec_issues() + unify_issues(
                old(self).spec_resolve(lhs),
                old(self).spec_resolve(rhs),
            ),
            match unify_binding(old(self).spec_resolve(lhs), old(self).spec_resolve(rhs)) {
                Some((v, t)) => forall|u: TypeVarId| #[trigger] final(self).spec_root(u) == rebound(
                    old(self).spec_root(u),
                    v,
                    t,
                ),
                None => final(self).spec_roots() == old(self).spec_roots(),
            },
            final(self).spec_next_var() == old(self).spec_next_var(),
            final(self).spec_constraints() == old(self).spec_constraints(),
            final(self).spec_hints() == old(self).spec_hints(),
            final(self).spec_defaults() == old(self).spec_defaults(),
    {
        let ghost lhs0 = lhs;
        let ghost rhs0 = rhs;
        let lhs = self.resolve(lhs);
        let ghost mid = *self;
        let rhs = self.resolve(rhs);
        proof {
            assert(mid.spec_roots()(match rhs0 {
                InferenceType::Var(v) => v,
                _ => TypeVarId(0),
            }) == old(self).spec_roots()(match rhs0 {
                InferenceType::Var(v) => v,
                _ => TypeVarId(0),
            }));
            assert(rhs == old(self).spec_resolve(rhs0));
            assert(lhs == old(self).spec_resolve(lhs0));
            self.lemma_root_is_root_ty(lhs);
            self.lemma_root_is_root_ty(rhs);
            assert(self.spec_roots() =~= old(self).spec_roots());
            assert forall|u: TypeVarId| #[trigger] self.spec_root(u) == old(self).spec_root(u) by {
                assert(self.spec_roots()(u) == old(self).spec_roots()(u));
            }
        }
        match (lhs, rhs) {
            (InferenceType::Error, _) => InferenceType::Error,
            (_, InferenceType::Error) => InferenceType::Error,
            (InferenceType::Var(var), ty) => {
                let ghost t = ty;
                let r = self.bind_var(var, ty);
                proof {
                    if t == InferenceType::Var(var) {
                        assert(self.spec_roots() =~= old(self).spec_roots());
                    }
                }
                r
            },
            (ty, InferenceType::Var(var)) => self.bind_var(var, ty),
            (InferenceType::Known(l), InferenceType::Known(r)) => {
                let ghost lg = l;
                let ghost rg = r;
                match self.unify_concrete(l.clone(), r.clone()) {
                    Some(known) => {
                        proof {
                            assert(lg == rg);
                            assert(unify_issues(InferenceType::Known(lg), InferenceType::Known(rg)) =~= Seq::<InferenceIssue>::empty());
                            assert(self.spec_issues() =~= old(self).spec_issues() + Seq::<InferenceIssue>::empty());
                        }
                        InferenceType::Known(known)
                    },
                    None => {
                        self.issues.push(
                            InferenceIssue { kind: InferenceIssueKind::TypeMismatch { lhs: l, rhs: r } },
                        );
                        proof {
                            assert(self.spec_issues() =~= old(self).spec_issues() + unify_issues(InferenceType::Known(lg), InferenceType::Known(rg)));
                        }
                        InferenceType::Error
                    },
                }
            },
        }
    }

    /// A resolved type resolves to itself.
    proof fn lemma_root_is_root_ty(&self, ty: InferenceType)
        requires
            self.wf(),
            is_root(self.spec_bindings(), ty),
        ensures
            self.spec_resolve(ty) == ty,
    {
        lemma_root_fixed(self.spec_bindings(), ty, self.clock@);
    }

    /// Records the equality constraint, then unifies its sides.
    pub fn constrain_equal(&mut self, lhs: InferenceType, rhs: InferenceType) -> (r: InferenceType)
        requires
            old(self).wf(),
        ensures
            final(self).wf(),
            final(self).spec_constraints() == old(self).spec_constraints().push(
                InferenceConstraint::Equal(lhs, rhs),
            ),
            r == unify_result(old(self).spec_resolve(lhs), old(self).spec_resolve(rhs)),
            final(self).spec_issues() == old(self).spec_issues() + unify_issues(
                old(self).spec_resolve(lhs),
                old(self).spec_resolve(rhs),
            ),
            match unify_binding(old(self).spec_resolve(lhs), old(self).spec_resolve(rhs)) {
                Some((v, t)) => forall|u: TypeVarId| #[trigger] final(self).spec_root(u) == rebound(
                    old(self).spec_root(u),
                    v,
                    t,
                ),
                None => final(self).spec_roots() == old(self).spec_roots(),
            },
            final(self).spec_next_var() == old(self).spec_next_var(),
            final(self).spec_hints() == old(self).spec_hints(),
            final(self).spec_defaults() == old(self).spec_defaults(),
    {
        self.record_constraint(InferenceConstraint::Equal(lhs.clone(), rhs.clone()));
        proof {
            assert forall|u: TypeVarId| #[trigger] self.spec_root(u) == old(self).spec_root(u) by {
                assert(self.spec_roots()(u) == old(self).spec_roots()(u));
            }
            assert(self.spec_resolve(lhs) == old(self).spec_resolve(lhs));
            assert(self.spec_resolve(rhs) == old(self).spec_resolve(rhs));
        }
        let ghost mid = *self;
        let r = self.unify(lhs, rhs);
        proof {
            if unify_binding(old(self).spec_resolve(lhs), old(self).spec_resolve(rhs)) is None {
                assert(self.spec_roots() == mid.spec_roots());
                assert(self.spec_roots() =~= old(self).spec_roots());
            }
        }
        r
    }

    /// A copy of the literal hints, in ascending variable order.
    fn hint_list(&self) -> (r: Vec<(TypeVarId, LiteralDefaultKind)>)
        ensures
            r@ == self.spec_hints(),
    {
        let entries = self.literal_default_hints.entries();
        let mut out: Vec<(TypeVarId, LiteralDefaultKind)> = Vec::new();
        let mut i: usize = 0;
        while i < entries.len()
            invariant
                i <= entries@.len(),
                out@ == entries@.subrange(0, i as int),
            decreases entries@.len() - i,
        {
            out.push(entries[i]);
            proof {
                assert(out@ =~= entries@.subrange(0, i as int + 1));
            }
            i = i + 1;
        }
        proof {
            assert(out@ =~= entries@);
        }
        out
    }

    /// Binds every hinted literal variable that is still unbound (through
    /// its root) to the default builtin type for its literal kind.
    pub fn finalize(&mut self)
        requires
            old(self).wf(),
        ensures
            final(self).wf(),
            forall|u: TypeVarId| #[trigger] final(self).spec_root(u) == (finalize_roots(
                old(self).spec_roots(),
                old(self).spec_hints(),
                old(self).spec_defaults(),
            ))(u),
            final(self).spec_next_var() == old(self).spec_next_var(),
            final(self).spec_constraints() == old(self).spec_constraints(),
            final(self).spec_hints() == old(self).spec_hints(),
            final(self).spec_defaults() == old(self).spec_defaults(),
            final(self).spec_issues() == old(self).spec_issues(),
    {
        let hints = self.hint_list();
        let ghost roots0 = self.spec_roots();
        let mut i: usize = 0;
        while i < hints.len()
            invariant
                self.wf(),
                i <= hints@.len(),
                hints@ == old(self).spec_hints(),
                roots0 == old(self).spec_roots(),
                forall|u: TypeVarId| #[trigger] self.spec_root(u) == (finalize_roots(
                    roots0,
                    hints@.subrange(0, i as int),
                    old(self).spec_defaults(),
                ))(u),
                self.spec_next_var() == old(self).spec_next_var(),
                self.spec_constraints() == old(self).spec_constraints(),
                self.spec_hints() == old(self).spec_hints(),
                self.spec_defaults() == old(self).spec_defaults(),
                self.spec_issues() == old(self).spec_issues(),
            decreases hints@.len() - i,
        {
            let (var, hint) = hints[i];
            let ghost d = old(self).spec_defaults();
            let ghost prev = finalize_roots(roots0, hints@.subrange(0, i as int), d);
            let ghost next = finalize_roots(roots0, hints@.subrange(0, i as int + 1), d);
            proof {
                assert(hints@.subrange(0, i as int + 1).drop_last() =~= hints@.subrange(0, i as int));
                assert(hints@.subrange(0, i as int + 1).last() == hints@[i as int]);
            }
            let ghost s0 = *self;
            let resolved = self.resolve(InferenceType::Var(var));
            let ghost s1 = *self;
            proof {
                assert forall|u: TypeVarId| #[trigger] s1.spec_root(u) == prev(u) by {
                    assert(s1.spec_roots()(u) == s0.spec_roots()(u));
                    assert(s0.spec_root(u) == prev(u));
                }
            }
            if let InferenceType::Var(root_var) = resolved {
                proof {
                    assert(prev(var) == resolved);
                    s1.lemma_root_is_root(var);
                }
                let default_builtin = match hint {
                    LiteralDefaultKind::Integer => self.defaults.integer_default,
                    LiteralDefaultKind::Float => self.defaults.float_default,
                };
                let ghost t = InferenceType::Known(ConcreteType::Builtin(default_builtin));
                let _ = self.bind_var(root_var, InferenceType::Known(ConcreteType::Builtin(default_builtin)));
                proof {
                    assert(default_builtin == default_for(d, hint));
                    assert forall|u: TypeVarId| #[trigger] self.spec_root(u) == next(u) by {
                        assert(self.spec_root(u) == rebound(s1.spec_root(u), root_var, t));
                    }
                }
            } else {
                proof {
                    assert(prev(var) == resolved);
                    assert(next == prev);
                    assert forall|u: TypeVarId| #[trigger] self.spec_root(u) == next(u) by {
                        assert(self.spec_roots()(u) == s1.spec_roots()(u));
                    }
                }
            }
            i = i + 1;
        }
        proof {
            assert(hints@.subrange(0, hints@.len() as int) =~= hints@);
        }
    }

    /// Like [`Self::finalize`], but hints are taken in ascending variable
    /// order, and for each hinted variable whose root is then still a
    /// variable `r`, `hook(r, kind)` is called once and `r` is bound to what
    /// it returns, or to the kind's default when it returns `None`. The
    /// results of these calls are `choices` (see [`hooked_roots`] and
    /// [`hook_choices_valid`]).
    pub fn finalize_with_hook<F>(&mut self, hook: F)
        where
            F: Fn(TypeVarId, LiteralDefaultKind) -> Option<InferenceType>,
        requires
            old(self).wf(),
            forall|v: TypeVarId, k: LiteralDefaultKind| #[trigger] call_requires(hook, (v, k)),
        ensures
            final(self).wf(),
            exists|choices: Seq<Option<InferenceType>>| {
                &&& #[trigger] hook_choices_valid(
                    hook,
                    old(self).spec_roots(),
                    old(self).spec_hints(),
                    old(self).spec_defaults(),
                    choices,
                )
                &&& forall|u: TypeVarId| #[trigger] final(self).spec_root(u) == (hooked_roots(
                    old(self).spec_roots(),
                    old(self).spec_hints(),
                    old(self).spec_defaults(),
                    choices,
                ))(u)
            },
            forall|u: TypeVarId|
                !is_var(old(self).spec_root(u)) ==> #[trigger] final(self).spec_root(u) == old(
                    self,
                ).spec_root(u),
            final(self).spec_next_var() == old(self).spec_next_var(),
            final(self).spec_constraints() == old(self).spec_constraints(),
            final(self).spec_hints() == old(self).spec_hints(),
            final(self).spec_defaults() == old(self).spec_defaults(),
            final(self).spec_issues() == old(self).spec_issues(),
    {
        let hints = self.hint_list();
        let ghost roots0 = self.spec_roots();
        let ghost d = self.spec_defaults();
        let ghost mut choices: Seq<Option<InferenceType>> = Seq::empty();
        let mut i: usize = 0;
        proof {
            assert(hints@.subrange(0, 0) =~= Seq::<(TypeVarId, LiteralDefaultKind)>::empty());
        }
        while i < hints.len()
            invariant
                self.wf(),
                i <= hints@.len(),
                hints@ == old(self).spec_hints(),
                roots0 == old(self).spec_roots(),
                d == old(self).spec_defaults(),
                choices.len() == i,
                hook_choices_valid(hook, roots0, hints@.subrange(0, i as int), d, choices),
                forall|u: TypeVarId| #[trigger] self.spec_root(u) == (hooked_roots(
                    roots0,
                    hints@.subrange(0, i as int),
                    d,
                    choices,
                ))(u),
                forall|v: TypeVarId, k: LiteralDefaultKind| #[trigger] call_requires(hook, (v, k)),
                forall|u: TypeVarId|
                    !is_var(old(self).spec_root(u)) ==> #[trigger] self.spec_root(u) == old(
                        self,
                    ).spec_root(u),
                self.spec_next_var() == old(self).spec_next_var(),
                self.spec_constraints() == old(self).spec_constraints(),
                self.spec_hints() == old(self).spec_hints(),
                self.spec_defaults() == old(self).spec_defaults(),
                self.spec_issues() == old(self).spec_issues(),
            decreases hints@.len() - i,
        {
            let (var, hint) = hints[i];
            let ghost prev = hooked_roots(roots0, hints@.subrange(0, i as int), d, choices);
            let ghost hs = hints@.subrange(0, i as int + 1);
            proof {
                assert(hs.drop_last() =~= hints@.subrange(0, i as int));
                assert(hs.last() == hints@[i as int]);
            }
            let ghost s0 = *self;
            let resolved = self.resolve(InferenceType::Var(var));
            let ghost s1 = *self;
            proof {
                assert forall|u: TypeVarId| #[trigger] s1.spec_root(u) == prev(u) by {
                    assert(s1.spec_roots()(u) == s0.spec_roots()(u));
                    assert(s0.spec_root(u) == prev(u));
                }
                assert(prev(var) == resolved);
            }
            if let InferenceType::Var(root_var) = resolved {
                proof {
                    s1.lemma_root_is_root(var);
                }
                let out = hook(root_var, hint);
                let ghost g = out;
                let chosen = match out {
                    Some(ty) => ty,
                    None => {
                        let default_builtin = match hint {
                            LiteralDefaultKind::Integer => self.defaults.integer_default,
                            LiteralDefaultKind::Float => self.defaults.float_default,
                        };
                        InferenceType::Known(ConcreteType::Builtin(default_builtin))
                    },
                };
                let ghost t = s1.spec_resolve(chosen);
                let _ = self.bind_var(root_var, chosen);
                proof {
                    let cs = choices.push(g);
                    assert(cs.drop_last() =~= choices);
                    assert(cs.last() == g);
                    assert(g is None ==> chosen == InferenceType::Known(ConcreteType::Builtin(default_for(d, hint))));
                    let next = hooked_roots(roots0, hs, d, cs);
                    assert forall|u: TypeVarId| #[trigger] self.spec_root(u) == next(u) by {
                        if t != InferenceType::Var(root_var) {
                            assert(self.spec_root(u) == rebound(s1.spec_root(u), root_var, t));
                        } else {
                            assert(self.spec_roots()(u) == s1.spec_roots()(u));
                        }
                    }
                    assert forall|u: TypeVarId|
                        !is_var(old(self).spec_root(u)) implies #[trigger] self.spec_root(u) == old(
                        self,
                    ).spec_root(u) by {
                        assert(self.spec_roots()(u) == self.spec_root(u));
                        assert(s1.spec_roots()(u) == s1.spec_root(u));
                        if t != InferenceType::Var(root_var) {
                            assert(self.spec_root(u) == rebound(s1.spec_root(u), root_var, t));
                        }
                    }
                    assert(hook_choices_valid(hook, roots0, hs, d, cs));
                    choices = cs;
                }
            } else {
                proof {
                    let cs = choices.push(None);
                    assert(cs.drop_last() =~= choices);
                    let next = hooked_roots(roots0, hs, d, cs);
                    assert(next == prev);
                    assert forall|u: TypeVarId| #[trigger] self.spec_root(u) == next(u) by {
                        assert(self.spec_roots()(u) == s1.spec_roots()(u));
                    }
                    assert forall|u: TypeVarId|
                        !is_var(old(self).spec_root(u)) implies #[trigger] self.spec_root(u) == old(
                        self,
                    ).spec_root(u) by {
                        assert(self.spec_roots()(u) == self.spec_root(u));
                    }
                    assert(hook_choices_valid(hook, roots0, hs, d, cs));
                    choices = cs;
                }
            }
            i = i + 1;
        }
        proof {
            assert(hints@.subrange(0, hints@.len() as int) =~= hints@);
            assert(hook_choices_valid(hook, roots0, hints@, d, choices));
        }
    }
}

/// The roots after taking `hints` in order, where the `i`-th hint whose
/// variable's root `r` is then still a variable binds `r` to the resolved
/// `choices[i]`, or to the kind's default when that is `None` (nothing
/// changes when the choice resolves to `r` itself).
pub open spec fn hooked_roots(
    roots: spec_fn(TypeVarId) -> InferenceType,
    hints: Seq<(TypeVarId, LiteralDefaultKind)>,
    defaults: InferenceDefaults,
    choices: Seq<Option<InferenceType>>,
) -> spec_fn(TypeVarId) -> InferenceType
    decreases hints.len(),
{
    if hints.len() == 0 {
        roots
    } else {
        let prev = hooked_roots(roots, hints.drop_last(), defaults, choices.drop_last());
        let (var, kind) = hints.last();
        match prev(var) {
            InferenceType::Var(r) => {
                let t = match choices.last() {
                    Some(ty) => match ty {
                        InferenceType::Var(v) => prev(v),
                        _ => ty,
                    },
                    None => InferenceType::Known(ConcreteType::Builtin(default_for(defaults, kind))),
                };
                if t == InferenceType::Var(r) {
                    prev
                } else {
                    |u: TypeVarId| rebound(prev(u), r, t)
                }
            },
            _ => prev,
        }
    }
}

/// `choices` holds one entry per hint, and each hint whose variable's root
/// `r` was still a variable when it was taken has as its entry a result
/// `hook` may give for `(r, kind)`.
pub open spec fn hook_choices_valid<F: Fn(TypeVarId, LiteralDefaultKind) -> Option<InferenceType>>(
    hook: F,
    roots: spec_fn(TypeVarId) -> InferenceType,
    hints: Seq<(TypeVarId, LiteralDefaultKind)>,
    defaults: InferenceDefaults,
    choices: Seq<Option<InferenceType>>,
) -> bool
    decreases hints.len(),
{
    if hints.len() == 0 {
        choices.len() == 0
    } else {
        &&& choices.len() == hints.len()
        &&& hook_choices_valid(hook, roots, hints.drop_last(), defaults, choices.drop_last())
        &&& (hooked_roots(roots, hints.drop_last(), defaults, choices.drop_last())(hints.last().0) matches InferenceType::Var(
            r,
        ) ==> call_ensures(hook, (r, hints.last().1), choices.last()))
    }
}

} // verus!
