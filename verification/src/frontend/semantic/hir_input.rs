//! The HIR side tables that the semantic passes read: lowered modules by
//! file, path resolutions, local bindings, the global item of each HIR item,
//! and the HIR body of each declaration body.

use crate::collections::sorted_map::{entries_contain, entries_list_map, entries_lookup};
use crate::collections::{MapKey, SortedMap};
use crate::collections::text_map::{string_texts, TextKey};
use crate::frontend::hir::{HirBodyId, HirFile, HirFunctionDecl, HirItemId, HirItemKind, HirModule, HirProtocolFunction};
use crate::frontend::resolver::{
    first_binding, first_with_path, DeclarationOwner, GlobalItem, GlobalItemTable, HirImportTables, HirItemRef, HirLocalBinding,
    HirLocalBindingTable, HirPathResolutionTable, ItemId, LocalId, ResolvedBody, ResolvedLocal,
};
use crate::frontend::source::FileId;
use crate::frontend::text::str_eq;
use crate::frontend::ast::Span;
use crate::collections::sorted_map::entries_map;
use vstd::prelude::*;

verus! {

/// A HIR body: the file it lives in and its id there.
#[derive(Debug, Clone, Copy, PartialEq, Eq, Structural)]
pub struct SemanticBodyRef {
    pub file_id: FileId,
    pub body_id: HirBodyId,
}

impl MapKey for SemanticBodyRef {
    /// By file, then body.
    open spec fn key_lt(self, other: Self) -> bool {
        self.file_id.0 < other.file_id.0 || (self.file_id.0 == other.file_id.0 && self.body_id.0 < other.body_id.0)
    }

    proof fn lemma_key_lt_irreflexive(a: Self) {
    }

    proof fn lemma_key_lt_transitive(a: Self, b: Self, c: Self) {
    }

    proof fn lemma_key_lt_total(a: Self, b: Self) {
    }

    fn less_than(&self, other: &Self) -> (r: bool) {
        self.file_id.0 < other.file_id.0 || (self.file_id.0 == other.file_id.0 && self.body_id.0 < other.body_id.0)
    }

    fn same_key(&self, other: &Self) -> (r: bool) {
        self.file_id.0 == other.file_id.0 && self.body_id.0 == other.body_id.0
    }

    fn copy_key(&self) -> (r: Self) {
        *self
    }
}

/// HIR-backed resolver side tables consumed by the semantic passes.
pub struct SemanticHirInput {
    pub hir_files: Vec<HirFile>,
    pub hir_modules: SortedMap<FileId, HirModule>,
    pub hir_local_bindings: HirLocalBindingTable,
    pub hir_imports: HirImportTables,
    pub hir_path_table: HirPathResolutionTable,
    pub item_id_by_hir_item_ref: SortedMap<HirItemRef, ItemId>,
    pub body_refs_by_owner: SortedMap<DeclarationOwner, Vec<SemanticBodyRef>>,
    pub local_binding_ids_by_body: SortedMap<SemanticBodyRef, Vec<LocalId>>,
}

/// The bodies of `owner` among the given (owner, body) pairs, in order.
pub open spec fn owner_body_refs(refs: Seq<(DeclarationOwner, SemanticBodyRef)>, owner: DeclarationOwner) -> Seq<SemanticBodyRef>
    decreases refs.len(),
{
    if refs.len() == 0 {
        seq![]
    } else {
        let prev = owner_body_refs(refs.drop_last(), owner);
        if refs.last().0 == owner {
            prev.push(refs.last().1)
        } else {
            prev
        }
    }
}

/// The ids of the bindings introduced in `body`, in introduction order.
pub open spec fn body_binding_ids(bindings: Seq<HirLocalBinding>, body: SemanticBodyRef) -> Seq<LocalId>
    decreases bindings.len(),
{
    if bindings.len() == 0 {
        seq![]
    } else {
        let prev = body_binding_ids(bindings.drop_last(), body);
        let b = bindings.last();
        if b.file_id == body.file_id && b.body_id == body.body_id {
            prev.push(b.id)
        } else {
            prev
        }
    }
}

/// Whether resolved local `local` can stand for HIR binding `b`: same name,
/// kind and mutability, and, when the binding's pattern has a span, the
/// same declaration span.
pub open spec fn local_matches(local: ResolvedLocal, b: HirLocalBinding, span: Option<Span>) -> bool {
    &&& local.name@ == b.name@
    &&& local.kind == b.kind
    &&& local.mutability == b.mutability
    &&& (span matches Some(sp) ==> local.declared_span == sp)
}

/// The first of the first `n` locals not yet consumed that can stand for `b`.
pub open spec fn first_free_match(locals: Seq<ResolvedLocal>, consumed: Seq<bool>, b: HirLocalBinding, span: Option<Span>, n: nat) -> Option<int>
    decreases n,
{
    if n == 0 {
        None
    } else {
        match first_free_match(locals, consumed, b, span, (n - 1) as nat) {
            Some(i) => Some(i),
            None => if !consumed[n - 1] && local_matches(locals[n - 1], b, span) {
                Some(n - 1)
            } else {
                None
            },
        }
    }
}

/// The local chosen for binding `b`: the first free local matching with the
/// pattern's span when it has one, else the first free local matching
/// without it.
pub open spec fn chosen_local(locals: Seq<ResolvedLocal>, consumed: Seq<bool>, b: HirLocalBinding, span: Option<Span>) -> Option<int> {
    let with_span = if span is Some {
        first_free_match(locals, consumed, b, span, locals.len())
    } else {
        None
    };
    if with_span is Some {
        with_span
    } else {
        first_free_match(locals, consumed, b, None, locals.len())
    }
}

/// The span of the pattern declaring `b` in `module`, if any.
pub open spec fn binding_pat_span(module: HirModule, b: HirLocalBinding) -> Option<Span> {
    match b.declared_pat {
        Some(p) => match module.patterns.spec_get(p) {
            Some(pat) => Some(pat.origin.span),
            None => None,
        },
        None => None,
    }
}

/// Matching the HIR bindings `ids` in order to resolved locals, each local
/// used at most once: which locals are used, and the resolved local of each
/// matched HIR binding.
pub open spec fn local_mapping(
    module: HirModule,
    bindings: Seq<HirLocalBinding>,
    locals: Seq<ResolvedLocal>,
    ids: Seq<LocalId>,
) -> (Seq<bool>, Map<LocalId, LocalId>)
    decreases ids.len(),
{
    if ids.len() == 0 {
        (Seq::new(locals.len(), |i: int| false), Map::empty())
    } else {
        let prev = local_mapping(module, bindings, locals, ids.drop_last());
        match first_binding(bindings, ids.last()) {
            None => prev,
            Some(b) => match chosen_local(locals, prev.0, b, binding_pat_span(module, b)) {
                Some(i) => (prev.0.update(i, true), prev.1.insert(ids.last(), locals[i].id)),
                None => prev,
            },
        }
    }
}

impl SemanticHirInput {
    /// The HIR bodies of each owner, in declaration order.
    pub open spec fn spec_body_refs(&self) -> Map<DeclarationOwner, Seq<SemanticBodyRef>> {
        entries_list_map(self.body_refs_by_owner@)
    }

    /// The ids of the local bindings of each HIR body, in introduction order.
    pub open spec fn spec_binding_ids(&self) -> Map<SemanticBodyRef, Seq<LocalId>> {
        entries_list_map(self.local_binding_ids_by_body@)
    }

    /// The HIR bodies of `owner` (empty when it has none).
    pub open spec fn spec_owner_refs(&self, owner: DeclarationOwner) -> Seq<SemanticBodyRef> {
        if self.spec_body_refs().contains_key(owner) {
            self.spec_body_refs()[owner]
        } else {
            seq![]
        }
    }

    /// Assembles the side tables: the HIR bodies of each owner are those of
    /// `body_refs` in order, and the binding ids of each HIR body are those
    /// of the bindings introduced in it, in order.
    pub fn build(
        hir_files: Vec<HirFile>,
        hir_modules: SortedMap<FileId, HirModule>,
        hir_local_bindings: HirLocalBindingTable,
        hir_imports: HirImportTables,
        hir_path_table: HirPathResolutionTable,
        item_id_by_hir_item_ref: SortedMap<HirItemRef, ItemId>,
        body_refs: Vec<(DeclarationOwner, SemanticBodyRef)>,
    ) -> (r: Self)
        ensures
            r.hir_files@ == hir_files@,
            r.hir_modules@ == hir_modules@,
            r.hir_local_bindings.bindings@ == hir_local_bindings.bindings@,
            r.hir_imports == hir_imports,
            r.hir_path_table.by_expr_ref@ == hir_path_table.by_expr_ref@,
            r.item_id_by_hir_item_ref@ == item_id_by_hir_item_ref@,
            forall|o: DeclarationOwner| #[trigger] r.spec_owner_refs(o) == owner_body_refs(body_refs@, o),
            forall|b: SemanticBodyRef| #[trigger] r.spec_binding_ids().contains_key(b) ==> r.spec_binding_ids()[b] == body_binding_ids(hir_local_bindings.bindings@, b),
            forall|b: SemanticBodyRef| !r.spec_binding_ids().contains_key(b) ==> #[trigger] body_binding_ids(hir_local_bindings.bindings@, b).len() == 0,
    {
        let mut body_refs_by_owner: SortedMap<DeclarationOwner, Vec<SemanticBodyRef>> = SortedMap::new();
        let mut i: usize = 0;
        while i < body_refs.len()
            invariant
                i <= body_refs@.len(),
                forall|o: DeclarationOwner| #[trigger] entries_list_map(body_refs_by_owner@).contains_key(o) ==>
                    entries_list_map(body_refs_by_owner@)[o] == owner_body_refs(body_refs@.subrange(0, i as int), o),
                forall|o: DeclarationOwner| !entries_list_map(body_refs_by_owner@).contains_key(o) ==>
                    #[trigger] owner_body_refs(body_refs@.subrange(0, i as int), o).len() == 0,
            decreases body_refs@.len() - i,
        {
            let ghost m0 = entries_list_map(body_refs_by_owner@);
            let (owner, body_ref) = body_refs[i];
            body_refs_by_owner.push_value(owner, body_ref);
            proof {
                let pre = body_refs@.subrange(0, i as int);
                let post = body_refs@.subrange(0, i as int + 1);
                assert(post.drop_last() =~= pre);
                assert forall|o: DeclarationOwner| #[trigger] entries_list_map(body_refs_by_owner@).contains_key(o) implies
                    entries_list_map(body_refs_by_owner@)[o] == owner_body_refs(post, o) by {
                    if o == owner && !m0.contains_key(o) {
                        assert(owner_body_refs(pre, o) =~= Seq::<SemanticBodyRef>::empty());
                    }
                }
                assert forall|o: DeclarationOwner| !entries_list_map(body_refs_by_owner@).contains_key(o) implies
                    #[trigger] owner_body_refs(post, o).len() == 0 by {
                    assert(entries_contain(body_refs_by_owner@, owner));
                    assert(o != owner);
                    assert(!m0.contains_key(o));
                    assert(post.last() == body_refs@[i as int]);
                    assert(owner_body_refs(post, o) == owner_body_refs(pre, o));
                }
            }
            i = i + 1;
        }
        let mut local_binding_ids_by_body: SortedMap<SemanticBodyRef, Vec<LocalId>> = SortedMap::new();
        let bindings = hir_local_bindings.iter_bindings();
        let mut j: usize = 0;
        while j < bindings.len()
            invariant
                j <= bindings@.len(),
                bindings@ == hir_local_bindings.bindings@,
                forall|b: SemanticBodyRef| #[trigger] entries_list_map(local_binding_ids_by_body@).contains_key(b) ==>
                    entries_list_map(local_binding_ids_by_body@)[b] == body_binding_ids(bindings@.subrange(0, j as int), b),
                forall|b: SemanticBodyRef| !entries_list_map(local_binding_ids_by_body@).contains_key(b) ==>
                    #[trigger] body_binding_ids(bindings@.subrange(0, j as int), b).len() == 0,
            decreases bindings@.len() - j,
        {
            let ghost m0 = entries_list_map(local_binding_ids_by_body@);
            let key = SemanticBodyRef { file_id: bindings[j].file_id, body_id: bindings[j].body_id };
            local_binding_ids_by_body.push_value(key, bindings[j].id);
            proof {
                let pre = bindings@.subrange(0, j as int);
                let post = bindings@.subrange(0, j as int + 1);
                assert(post.drop_last() =~= pre);
                assert forall|b: SemanticBodyRef| #[trigger] entries_list_map(local_binding_ids_by_body@).contains_key(b) implies
                    entries_list_map(local_binding_ids_by_body@)[b] == body_binding_ids(post, b) by {
                    if b == key && !m0.contains_key(b) {
                        assert(body_binding_ids(pre, b) =~= Seq::<LocalId>::empty());
                    }
                }
                assert forall|b: SemanticBodyRef| !entries_list_map(local_binding_ids_by_body@).contains_key(b) implies
                    #[trigger] body_binding_ids(post, b).len() == 0 by {
                    assert(entries_contain(local_binding_ids_by_body@, key));
                    assert(b != key);
                    assert(!m0.contains_key(b));
                    assert(post.last() == bindings@[j as int]);
                    assert(body_binding_ids(post, b) == body_binding_ids(pre, b));
                }
            }
            j = j + 1;
        }
        proof {
            assert(body_refs@.subrange(0, body_refs@.len() as int) =~= body_refs@);
            assert(bindings@.subrange(0, bindings@.len() as int) =~= bindings@);
        }
        SemanticHirInput {
            hir_files,
            hir_modules,
            hir_local_bindings,
            hir_imports,
            hir_path_table,
            item_id_by_hir_item_ref,
            body_refs_by_owner,
            local_binding_ids_by_body,
        }
    }

    /// The HIR bodies of `owner`, in declaration order; empty when it has none.
    pub fn body_refs_for_owner(&self, owner: &DeclarationOwner) -> (r: &[SemanticBodyRef])
        ensures
            r@ == self.spec_owner_refs(*owner),
    {
        match self.body_refs_by_owner.get(owner) {
            Some(v) => v.as_slice(),
            None => &[],
        }
    }

    /// The `body_index`-th HIR body of `owner`, if it has that many.
    pub fn body_ref(&self, owner: &DeclarationOwner, body_index: usize) -> (r: Option<SemanticBodyRef>)
        ensures
            match r {
                Some(b) => body_index < self.spec_owner_refs(*owner).len() && b == self.spec_owner_refs(*owner)[body_index as int],
                None => body_index >= self.spec_owner_refs(*owner).len(),
            },
    {
        let refs = self.body_refs_for_owner(owner);
        if body_index < refs.len() {
            Some(refs[body_index])
        } else {
            None
        }
    }

    /// The ids of the local bindings introduced in a HIR body, in order.
    pub fn local_binding_ids_for_body(&self, body_ref: SemanticBodyRef) -> (r: &[LocalId])
        ensures
            r@ == (if self.spec_binding_ids().contains_key(body_ref) {
                self.spec_binding_ids()[body_ref]
            } else {
                Seq::<LocalId>::empty()
            }),
    {
        match self.local_binding_ids_by_body.get(&body_ref) {
            Some(v) => v.as_slice(),
            None => &[],
        }
    }

    /// Matches the HIR local bindings of a body to the body's resolved
    /// locals (see [`local_mapping`]): the resolved local of each matched
    /// HIR binding.
    pub fn map_hir_local_ids_to_resolved(&self, module: &HirModule, body: &ResolvedBody, body_ref: SemanticBodyRef) -> (r: SortedMap<LocalId, LocalId>)
        ensures
            entries_map(r@) == local_mapping(
                *module,
                self.hir_local_bindings.bindings@,
                body.locals@,
                (if self.spec_binding_ids().contains_key(body_ref) {
                    self.spec_binding_ids()[body_ref]
                } else {
                    Seq::<LocalId>::empty()
                }),
            ).1,
    {
        let ids = self.local_binding_ids_for_body(body_ref);
        let ghost bs = self.hir_local_bindings.bindings@;
        let ghost ls = body.locals@;
        let mut mapping: SortedMap<LocalId, LocalId> = SortedMap::new();
        let mut consumed: Vec<bool> = Vec::new();
        let mut k: usize = 0;
        while k < body.locals.len()
            invariant
                k <= ls.len(),
                ls == body.locals@,
                consumed@.len() == k,
                forall|i: int| 0 <= i < k ==> !(#[trigger] consumed@[i]),
            decreases ls.len() - k,
        {
            consumed.push(false);
            k = k + 1;
        }
        proof {
            assert(consumed@ =~= Seq::new(ls.len(), |i: int| false));
            assert(entries_map(mapping@) =~= Map::<LocalId, LocalId>::empty());
            assert(ids@.subrange(0, 0) =~= Seq::<LocalId>::empty());
        }
        let mut n: usize = 0;
        while n < ids.len()
            invariant
                n <= ids@.len(),
                ls == body.locals@,
                bs == self.hir_local_bindings.bindings@,
                ({
                    let st = local_mapping(*module, bs, ls, ids@.subrange(0, n as int));
                    &&& consumed@ == st.0
                    &&& entries_map(mapping@) == st.1
                }),
                consumed@.len() == ls.len(),
            decreases ids@.len() - n,
        {
            let hir_local_id = ids[n];
            proof {
                assert(ids@.subrange(0, n as int + 1).drop_last() =~= ids@.subrange(0, n as int));
                lemma_mapping_len(*module, bs, ls, ids@.subrange(0, n as int));
            }
            let binding = match self.hir_local_bindings.binding(hir_local_id) {
                Some(b) => b,
                None => {
                    n = n + 1;
                    continue;
                },
            };
            let declared_span = pattern_span(module, binding);
            let matched = choose_local(&body.locals, &consumed, binding, declared_span);
            match matched {
                Some(index) => {
                    consumed.set(index, true);
                    mapping.insert(hir_local_id, body.locals[index].id);
                },
                None => {},
            }
            n = n + 1;
        }
        proof {
            assert(ids@.subrange(0, ids@.len() as int) =~= ids@);
        }
        mapping
    }
}

proof fn lemma_mapping_len(module: HirModule, bindings: Seq<HirLocalBinding>, locals: Seq<ResolvedLocal>, ids: Seq<LocalId>)
    ensures
        local_mapping(module, bindings, locals, ids).0.len() == locals.len(),
    decreases ids.len(),
{
    if ids.len() > 0 {
        lemma_mapping_len(module, bindings, locals, ids.drop_last());
        let prev = local_mapping(module, bindings, locals, ids.drop_last());
        if let Some(b) = first_binding(bindings, ids.last()) {
            let span = binding_pat_span(module, b);
            lemma_first_free_match_bound(locals, prev.0, b, span, locals.len());
            lemma_first_free_match_bound(locals, prev.0, b, None, locals.len());
        }
    }
}

proof fn lemma_first_free_match_bound(locals: Seq<ResolvedLocal>, consumed: Seq<bool>, b: HirLocalBinding, span: Option<Span>, n: nat)
    ensures
        first_free_match(locals, consumed, b, span, n) matches Some(i) ==> 0 <= i < n,
    decreases n,
{
    if n > 0 {
        lemma_first_free_match_bound(locals, consumed, b, span, (n - 1) as nat);
    }
}

fn pattern_span(module: &HirModule, b: &HirLocalBinding) -> (r: Option<Span>)
    ensures
        r == binding_pat_span(*module, *b),
{
    match b.declared_pat {
        Some(pat_id) => match module.patterns.get(&pat_id) {
            Some(pat) => Some(pat.origin.span),
            None => None,
        },
        None => None,
    }
}

fn choose_local(locals: &Vec<ResolvedLocal>, consumed: &Vec<bool>, b: &HirLocalBinding, span: Option<Span>) -> (r: Option<usize>)
    requires
        consumed@.len() == locals@.len(),
    ensures
        r matches Some(i) ==> i < locals@.len(),
        match r {
            Some(i) => chosen_local(locals@, consumed@, *b, span) == Some(i as int),
            None => chosen_local(locals@, consumed@, *b, span) is None,
        },
{
    let mut matched: Option<usize> = None;
    if span.is_some() {
        matched = find_free_local(locals, consumed, b, span);
    }
    if matched.is_none() {
        matched = find_free_local(locals, consumed, b, None);
    }
    matched
}

/// The first local not yet consumed that can stand for `b`.
fn find_free_local(locals: &Vec<ResolvedLocal>, consumed: &Vec<bool>, b: &HirLocalBinding, span: Option<Span>) -> (r: Option<usize>)
    requires
        consumed@.len() == locals@.len(),
    ensures
        r matches Some(i) ==> i < locals@.len(),
        match r {
            Some(i) => first_free_match(locals@, consumed@, *b, span, locals@.len()) == Some(i as int),
            None => first_free_match(locals@, consumed@, *b, span, locals@.len()) is None,
        },
{
    let mut i: usize = 0;
    while i < locals.len()
        invariant
            i <= locals@.len(),
            consumed@.len() == locals@.len(),
            first_free_match(locals@, consumed@, *b, span, i as nat) is None,
        decreases locals@.len() - i,
    {
        let local = &locals[i];
        let span_ok = match span {
            Some(sp) => local.declared_span == sp,
            None => true,
        };
        if !consumed[i] && str_eq(local.name.as_str(), b.name.as_str()) && local.kind == b.kind && local.mutability == b.mutability && span_ok {
            proof {
                lemma_first_free_match_after(locals@, consumed@, *b, span, (i + 1) as nat, locals@.len());
            }
            return Some(i);
        }
        i = i + 1;
    }
    None
}

proof fn lemma_first_free_match_after(locals: Seq<ResolvedLocal>, consumed: Seq<bool>, b: HirLocalBinding, span: Option<Span>, m: nat, n: nat)
    requires
        m <= n,
        first_free_match(locals, consumed, b, span, m) is Some,
    ensures
        first_free_match(locals, consumed, b, span, n) == first_free_match(locals, consumed, b, span, m),
    decreases n - m,
{
    if m < n {
        lemma_first_free_match_after(locals, consumed, b, span, m, (n - 1) as nat);
    }
}

/* Bodies of declarations */

/// The global item of each project item path that the item table knows,
/// paired with the HIR item at that path, in path order.
pub open spec fn item_ref_pairs(items: Seq<GlobalItem>, paths: Seq<(Vec<String>, HirItemRef)>) -> Seq<(HirItemRef, ItemId)>
    decreases paths.len(),
{
    if paths.len() == 0 {
        seq![]
    } else {
        let prev = item_ref_pairs(items, paths.drop_last());
        match first_with_path(items, string_texts(paths.last().0@)) {
            Some(i) => prev.push((paths.last().1, items[i].id)),
            None => prev,
        }
    }
}

/// The map that inserting `pairs` in order into `m` gives.
pub open spec fn insert_all<K, V>(m: Map<K, V>, pairs: Seq<(K, V)>) -> Map<K, V>
    decreases pairs.len(),
{
    if pairs.len() == 0 {
        m
    } else {
        insert_all(m, pairs.drop_last()).insert(pairs.last().0, pairs.last().1)
    }
}

/// The global item of each HIR item of the project, found by the item's
/// full path among the project's item paths.
pub fn item_ids_by_hir_item_ref(hir_imports: &HirImportTables, global_items: &GlobalItemTable) -> (r: SortedMap<HirItemRef, ItemId>)
    ensures
        entries_map(r@) == insert_all(Map::empty(), item_ref_pairs(global_items@, hir_imports.local_item_paths.spec_entries())),
{
    let mut out: SortedMap<HirItemRef, ItemId> = SortedMap::new();
    let paths = match hir_imports.item_paths_for_root(None) {
        Some(p) => p,
        None => {
            proof {
                assert(false);
            }
            return out;
        },
    };
    let entries = paths.entries();
    let ghost es = entries@;
    proof {
        assert(entries_map(out@) =~= Map::<HirItemRef, ItemId>::empty());
    }
    let mut i: usize = 0;
    while i < entries.len()
        invariant
            i <= es.len(),
            es == entries@,
            es == hir_imports.local_item_paths.spec_entries(),
            entries_map(out@) == insert_all(Map::empty(), item_ref_pairs(global_items@, es.take(i as int))),
        decreases es.len() - i,
    {
        proof {
            let t = es.take(i + 1);
            assert(t.drop_last() =~= es.take(i as int));
            assert(t.last() == es[i as int]);
        }
        let ghost prev_pairs = item_ref_pairs(global_items@, es.take(i as int));
        if let Some(item_id) = global_items.item_id_by_full_path(&entries[i].0) {
            out.insert(entries[i].1, item_id);
            proof {
                let next = item_ref_pairs(global_items@, es.take(i + 1));
                assert(next == prev_pairs.push((entries[i as int].1, item_id)));
                assert(next.drop_last() =~= prev_pairs);
                assert(next.last() == (entries[i as int].1, item_id));
            }
        } else {
            proof {
                assert(item_ref_pairs(global_items@, es.take(i + 1)) == prev_pairs);
            }
        }
        i = i + 1;
    }
    proof {
        assert(es.take(es.len() as int) =~= es);
    }
    out
}

/// The name an item declares; impls, externs and uses declare none.
pub open spec fn hir_item_name(kind: HirItemKind) -> Option<Seq<char>> {
    match kind {
        HirItemKind::Function { name, .. } => Some(name@),
        HirItemKind::Struct { name, .. } => Some(name@),
        HirItemKind::Enum { name, .. } => Some(name@),
        HirItemKind::Protocol { name, .. } => Some(name@),
        _ => None,
    }
}

/// The global item an HIR item of file `file_id` declares: the one recorded
/// for its reference; else the first item with the file's scope path and
/// the item's name, when that item belongs to the file's scope.
pub open spec fn owner_item_of(
    imports: HirImportTables,
    items: Seq<GlobalItem>,
    file_id: FileId,
    kind: HirItemKind,
    item_ref: HirItemRef,
    ids: Seq<(HirItemRef, ItemId)>,
) -> Option<ItemId> {
    match entries_lookup(ids, item_ref) {
        Some(id) => Some(id),
        None => match hir_item_name(kind) {
            Some(name) => match imports.scope_paths.spec_get(file_id) {
                Some(path) => match first_with_path(items, string_texts(path@).push(name)) {
                    Some(i) => if items[i].containing_scope_file_id == file_id {
                        Some(items[i].id)
                    } else {
                        None
                    },
                    None => None,
                },
                None => None,
            },
            None => None,
        },
    }
}

/// The default bodies among protocol requirements, in order.
pub open spec fn default_bodies(fs: Seq<HirProtocolFunction>) -> Seq<HirBodyId>
    decreases fs.len(),
{
    if fs.len() == 0 {
        seq![]
    } else {
        match fs.last().default_body {
            Some(b) => default_bodies(fs.drop_last()).push(b),
            None => default_bodies(fs.drop_last()),
        }
    }
}

/// The (owner, body) pairs of the function bodies an item of file `file_id`
/// declares: those of a function, struct, enum or protocol (default bodies)
/// when it has an owner item; those of the `impl_index`-th impl of the file.
pub open spec fn item_body_refs(file_id: FileId, kind: HirItemKind, owner: Option<ItemId>, impl_index: usize) -> Seq<(DeclarationOwner, SemanticBodyRef)> {
    match kind {
        HirItemKind::Function { body, .. } => match owner {
            Some(id) => seq![(DeclarationOwner::Item(id), SemanticBodyRef { file_id, body_id: body })],
            None => seq![],
        },
        HirItemKind::Struct { functions, .. } => match owner {
            Some(id) => functions@.map_values(|f: HirFunctionDecl| (DeclarationOwner::Item(id), SemanticBodyRef { file_id, body_id: f.body })),
            None => seq![],
        },
        HirItemKind::Enum { functions, .. } => match owner {
            Some(id) => functions@.map_values(|f: HirFunctionDecl| (DeclarationOwner::Item(id), SemanticBodyRef { file_id, body_id: f.body })),
            None => seq![],
        },
        HirItemKind::Protocol { functions, .. } => match owner {
            Some(id) => default_bodies(functions@).map_values(|b: HirBodyId| (DeclarationOwner::Item(id), SemanticBodyRef { file_id, body_id: b })),
            None => seq![],
        },
        HirItemKind::Impl { functions, .. } => functions@.map_values(
            |f: HirFunctionDecl| (DeclarationOwner::Impl { scope_file_id: file_id, impl_index }, SemanticBodyRef { file_id, body_id: f.body }),
        ),
        _ => seq![],
    }
}

/// The (owner, body) pairs of the root items `roots` of file `file_id`, in
/// order, with the number of impls among them (impls are numbered in order).
pub open spec fn file_body_refs(
    imports: HirImportTables,
    items: Seq<GlobalItem>,
    ids: Seq<(HirItemRef, ItemId)>,
    module: HirModule,
    file_id: FileId,
    roots: Seq<HirItemId>,
) -> (Seq<(DeclarationOwner, SemanticBodyRef)>, nat)
    decreases roots.len(),
{
    if roots.len() == 0 {
        (seq![], 0)
    } else {
        let (prev, impls) = file_body_refs(imports, items, ids, module, file_id, roots.drop_last());
        match module.items.spec_get(roots.last()) {
            Some(item) => match item.kind {
                HirItemKind::Impl { .. } => (prev + item_body_refs(file_id, item.kind, None, impls as usize), impls + 1),
                _ => (
                    prev + item_body_refs(
                        file_id,
                        item.kind,
                        owner_item_of(imports, items, file_id, item.kind, HirItemRef { file_id, item_id: roots.last() }, ids),
                        0,
                    ),
                    impls,
                ),
            },
            None => (prev, impls),
        }
    }
}

/// The (owner, body) pairs of every file of `files` that has a module, in order.
pub open spec fn all_body_refs(
    imports: HirImportTables,
    items: Seq<GlobalItem>,
    ids: Seq<(HirItemRef, ItemId)>,
    modules: SortedMap<FileId, HirModule>,
    files: Seq<HirFile>,
) -> Seq<(DeclarationOwner, SemanticBodyRef)>
    decreases files.len(),
{
    if files.len() == 0 {
        seq![]
    } else {
        all_body_refs(imports, items, ids, modules, files.drop_last()) + match modules.spec_get(files.last().file_id) {
            Some(m) => file_body_refs(imports, items, ids, m, files.last().file_id, files.last().root_items@).0,
            None => seq![],
        }
    }
}

/// The global item an HIR item declares (see [`owner_item_of`]).
pub fn owner_item_id_for_hir_item(
    hir_imports: &HirImportTables,
    global_items: &GlobalItemTable,
    file_id: FileId,
    item_kind: &HirItemKind,
    item_ref: &HirItemRef,
    item_id_by_hir_item_ref: &SortedMap<HirItemRef, ItemId>,
) -> (r: Option<ItemId>)
    ensures
        r == owner_item_of(*hir_imports, global_items@, file_id, *item_kind, *item_ref, item_id_by_hir_item_ref@),
{
    if let Some(item_id) = item_id_by_hir_item_ref.get(item_ref) {
        return Some(*item_id);
    }
    let name = match item_kind {
        HirItemKind::Function { name, .. } => name,
        HirItemKind::Struct { name, .. } => name,
        HirItemKind::Enum { name, .. } => name,
        HirItemKind::Protocol { name, .. } => name,
        _ => return None,
    };
    let scope_path = match hir_imports.scope_path_for_file(file_id) {
        Some(p) => p,
        None => return None,
    };
    let mut full_path = scope_path.clone_text();
    let ghost before = full_path@;
    full_path.push(name.clone());
    proof {
        assert(string_texts(full_path@) =~= string_texts(scope_path@).push(name@));
    }
    match global_items.get_by_full_path(&full_path) {
        Some(item) => if item.containing_scope_file_id == file_id {
            Some(item.id)
        } else {
            None
        },
        None => None,
    }
}

/// Appends the (owner, body) pairs of the functions of an item owned by `owner`.
fn push_function_bodies(
    out: &mut Vec<(DeclarationOwner, SemanticBodyRef)>,
    owner: DeclarationOwner,
    file_id: FileId,
    functions: &Vec<HirFunctionDecl>,
)
    ensures
        final(out)@ == old(out)@ + functions@.map_values(|f: HirFunctionDecl| (owner, SemanticBodyRef { file_id, body_id: f.body })),
{
    let ghost tail = functions@.map_values(|f: HirFunctionDecl| (owner, SemanticBodyRef { file_id, body_id: f.body }));
    let mut i: usize = 0;
    while i < functions.len()
        invariant
            i <= functions@.len(),
            tail == functions@.map_values(|f: HirFunctionDecl| (owner, SemanticBodyRef { file_id, body_id: f.body })),
            out@ == old(out)@ + tail.take(i as int),
        decreases functions@.len() - i,
    {
        out.push((owner, SemanticBodyRef { file_id, body_id: functions[i].body }));
        proof {
            assert(tail.take(i + 1) =~= tail.take(i as int).push(tail[i as int]));
        }
        i = i + 1;
    }
    proof {
        assert(tail.take(functions@.len() as int) =~= tail);
    }
}

/// Appends the (owner, body) pairs of the default bodies of protocol requirements.
fn push_default_bodies(
    out: &mut Vec<(DeclarationOwner, SemanticBodyRef)>,
    owner: DeclarationOwner,
    file_id: FileId,
    functions: &Vec<HirProtocolFunction>,
)
    ensures
        final(out)@ == old(out)@ + default_bodies(functions@).map_values(|b: HirBodyId| (owner, SemanticBodyRef { file_id, body_id: b })),
{
    let mut i: usize = 0;
    while i < functions.len()
        invariant
            i <= functions@.len(),
            out@ == old(out)@ + default_bodies(functions@.take(i as int)).map_values(|b: HirBodyId| (owner, SemanticBodyRef { file_id, body_id: b })),
        decreases functions@.len() - i,
    {
        proof {
            let t = functions@.take(i + 1);
            assert(t.drop_last() =~= functions@.take(i as int));
            assert(t.last() == functions@[i as int]);
        }
        if let Some(b) = functions[i].default_body {
            let ghost before = out@;
            out.push((owner, SemanticBodyRef { file_id, body_id: b }));
            proof {
                let t = functions@.take(i + 1);
                assert(default_bodies(t) == default_bodies(functions@.take(i as int)).push(b));
                assert(out@ =~= old(out)@ + default_bodies(t).map_values(|b: HirBodyId| (owner, SemanticBodyRef { file_id, body_id: b })));
            }
        }
        i = i + 1;
    }
    proof {
        assert(functions@.take(functions@.len() as int) =~= functions@);
    }
}

/// The (owner, body) pairs of the function bodies of every declaration of
/// the files that have a module (see [`all_body_refs`]).
pub fn collect_body_refs_by_owner(
    hir_imports: &HirImportTables,
    global_items: &GlobalItemTable,
    hir_files: &Vec<HirFile>,
    hir_modules: &SortedMap<FileId, HirModule>,
    item_id_by_hir_item_ref: &SortedMap<HirItemRef, ItemId>,
) -> (r: Vec<(DeclarationOwner, SemanticBodyRef)>)
    ensures
        r@ == all_body_refs(*hir_imports, global_items@, item_id_by_hir_item_ref@, *hir_modules, hir_files@),
{
    let ghost imports = *hir_imports;
    let ghost items = global_items@;
    let ghost ids = item_id_by_hir_item_ref@;
    let mut out: Vec<(DeclarationOwner, SemanticBodyRef)> = Vec::new();
    let mut fi: usize = 0;
    while fi < hir_files.len()
        invariant
            fi <= hir_files@.len(),
            imports == *hir_imports,
            items == global_items@,
            ids == item_id_by_hir_item_ref@,
            out@ == all_body_refs(imports, items, ids, *hir_modules, hir_files@.take(fi as int)),
        decreases hir_files@.len() - fi,
    {
        let hir_file = &hir_files[fi];
        let file_id = hir_file.file_id;
        proof {
            let t = hir_files@.take(fi + 1);
            assert(t.drop_last() =~= hir_files@.take(fi as int));
            assert(t.last() == *hir_file);
        }
        let ghost start = out@;
        match hir_modules.get(&file_id) {
            None => {
                proof {
                    assert(out@ =~= all_body_refs(imports, items, ids, *hir_modules, hir_files@.take(fi + 1)));
                }
            },
            Some(module) => {
                let roots = &hir_file.root_items;
                let mut impl_index: usize = 0;
                let mut ri: usize = 0;
                while ri < roots.len()
                    invariant
                        ri <= roots@.len(),
                        roots@ == hir_file.root_items@,
                        file_id == hir_file.file_id,
                        hir_modules.spec_get(file_id) == Some(*module),
                        imports == *hir_imports,
                        items == global_items@,
                        ids == item_id_by_hir_item_ref@,
                        impl_index as nat == file_body_refs(imports, items, ids, *module, file_id, roots@.take(ri as int)).1,
                        impl_index <= ri,
                        out@ == start + file_body_refs(imports, items, ids, *module, file_id, roots@.take(ri as int)).0,
                    decreases roots@.len() - ri,
                {
                    let item_id = roots[ri];
                    let ghost pre = roots@.take(ri as int);
                    proof {
                        let t = roots@.take(ri + 1);
                        assert(t.drop_last() =~= pre);
                        assert(t.last() == item_id);
                    }
                    let item_ref = HirItemRef::new(file_id, item_id);
                    if let Some(item) = module.items.get(&item_id) {
                        let ghost prev = out@;
                        match &item.kind {
                            HirItemKind::Impl { functions, .. } => {
                                let owner = DeclarationOwner::Impl { scope_file_id: file_id, impl_index };
                                push_function_bodies(&mut out, owner, file_id, functions);
                                impl_index = impl_index + 1;
                            },
                            HirItemKind::Extern => {},
                            HirItemKind::Use => {},
                            kind => {
                                let owner = owner_item_id_for_hir_item(hir_imports, global_items, file_id, kind, &item_ref, item_id_by_hir_item_ref);
                                if let Some(owner_id) = owner {
                                    let o = DeclarationOwner::Item(owner_id);
                                    match kind {
                                        HirItemKind::Function { body, .. } => {
                                            out.push((o, SemanticBodyRef { file_id, body_id: *body }));
                                        },
                                        HirItemKind::Struct { functions, .. } => push_function_bodies(&mut out, o, file_id, functions),
                                        HirItemKind::Enum { functions, .. } => push_function_bodies(&mut out, o, file_id, functions),
                                        HirItemKind::Protocol { functions, .. } => push_default_bodies(&mut out, o, file_id, functions),
                                        _ => {},
                                    }
                                }
                            },
                        }
                        proof {
                            assert(out@ =~= start + file_body_refs(imports, items, ids, *module, file_id, roots@.take(ri + 1)).0);
                        }
                    }
                    ri = ri + 1;
                }
                proof {
                    assert(roots@.take(roots@.len() as int) =~= roots@);
                    assert(out@ =~= all_body_refs(imports, items, ids, *hir_modules, hir_files@.take(fi + 1)));
                }
            },
        }
        fi = fi + 1;
    }
    proof {
        assert(hir_files@.take(hir_files@.len() as int) =~= hir_files@);
    }
    out
}

impl SemanticHirInput {
    /// Assembles the side tables from lowered files and their resolution
    /// tables: each HIR item's global item is found by its path (see
    /// [`item_ids_by_hir_item_ref`]) and the bodies of each declaration are
    /// collected from the files' items (see [`collect_body_refs_by_owner`]).
    pub fn from_hir(
        hir_files: Vec<HirFile>,
        hir_modules: SortedMap<FileId, HirModule>,
        hir_local_bindings: HirLocalBindingTable,
        hir_imports: HirImportTables,
        hir_path_table: HirPathResolutionTable,
        global_items: &GlobalItemTable,
    ) -> (r: Self)
        ensures
            r.hir_files@ == hir_files@,
            r.hir_modules@ == hir_modules@,
            r.hir_imports == hir_imports,
            entries_map(r.item_id_by_hir_item_ref@) == insert_all(
                Map::empty(),
                item_ref_pairs(global_items@, hir_imports.local_item_paths.spec_entries()),
            ),
            forall|o: DeclarationOwner| #[trigger] r.spec_owner_refs(o) == owner_body_refs(
                all_body_refs(hir_imports, global_items@, r.item_id_by_hir_item_ref@, hir_modules, hir_files@),
                o,
            ),
    {
        let ids = item_ids_by_hir_item_ref(&hir_imports, global_items);
        let refs = collect_body_refs_by_owner(&hir_imports, global_items, &hir_files, &hir_modules, &ids);
        let ghost ids_g = ids;
        let r = SemanticHirInput::build(hir_files, hir_modules, hir_local_bindings, hir_imports, hir_path_table, ids, refs);
        proof {
            assert(r.item_id_by_hir_item_ref@ == ids_g@);
        }
        r
    }
}

} // verus!
