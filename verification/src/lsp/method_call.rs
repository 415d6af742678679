//! Finding the method call under the cursor in a HIR body: the innermost
//! method call expression whose span holds the offset, optionally only one
//! that calls a method of a given name.

use crate::frontend::hir::{walk_fuel, HirBodyId, HirExprId, HirExprKind, HirModule};
use crate::frontend::semantic::types::Type;
use crate::frontend::resolver::ItemId;
use crate::frontend::text::str_eq;
use crate::midend::completion::span_index::{node_children, node_info, node_span, HirNodeId};
use vstd::prelude::*;

verus! {

/// A method call found under the cursor.
#[derive(Debug)]
pub struct MethodCallMatch {
    pub receiver_expr_id: HirExprId,
    pub method_name: String,
    pub span_len: usize,
}

/// A method call match as plain values.
pub struct MethodCallView {
    pub receiver: HirExprId,
    pub name: Seq<char>,
    pub span_len: int,
}

impl View for MethodCallMatch {
    type V = MethodCallView;

    open spec fn view(&self) -> MethodCallView {
        MethodCallView { receiver: self.receiver_expr_id, name: self.method_name@, span_len: self.span_len as int }
    }
}

/// The view of an optional match.
pub open spec fn opt_call_view(o: Option<MethodCallMatch>) -> Option<MethodCallView> {
    match o {
        Some(c) => Some(c@),
        None => None,
    }
}

/// The characters of an optional word.
pub open spec fn word_view(w: Option<&str>) -> Option<Seq<char>> {
    match w {
        Some(s) => Some(s@),
        None => None,
    }
}

/// A call of method `name` is wanted: any name when no word is given.
pub open spec fn word_admits(word: Option<Seq<char>>, name: Seq<char>) -> bool {
    match word {
        Some(w) => w == name,
        None => true,
    }
}

/// The match contributed by `node` itself: a method call expression whose
/// span (end included) holds `offset` and whose name the word admits.
pub open spec fn own_call(m: HirModule, node: HirNodeId, offset: usize, word: Option<Seq<char>>) -> Seq<MethodCallView> {
    match node {
        HirNodeId::Expr(id) => match m.exprs.spec_get(id) {
            Some(e) => match e.kind {
                HirExprKind::MethodCall { receiver, name, .. } => {
                    let sp = e.origin.span;
                    if sp.start <= offset && offset <= sp.end && word_admits(word, name@) {
                        seq![MethodCallView {
                            receiver,
                            name: name@,
                            span_len: if sp.end >= sp.start { sp.end - sp.start } else { 0 },
                        }]
                    } else {
                        seq![]
                    }
                },
                _ => seq![],
            },
            None => seq![],
        },
        _ => seq![],
    }
}

/// The matches met by a walk from `node`, pre-order, descending at most `fuel` levels.
pub open spec fn calls_at(m: HirModule, node: HirNodeId, offset: usize, word: Option<Seq<char>>, fuel: nat) -> Seq<MethodCallView>
    decreases fuel, 0nat,
{
    if fuel == 0 {
        seq![]
    } else {
        match node_span(m, node) {
            Some(_) => own_call(m, node, offset, word) + calls_at_list(m, node_children(m, node), offset, word, (fuel - 1) as nat),
            None => seq![],
        }
    }
}

/// The matches met by walks from each of `nodes`, in order.
pub open spec fn calls_at_list(m: HirModule, nodes: Seq<HirNodeId>, offset: usize, word: Option<Seq<char>>, fuel: nat) -> Seq<MethodCallView>
    decreases fuel, nodes.len() + 1,
{
    if nodes.len() == 0 {
        seq![]
    } else {
        calls_at_list(m, nodes.drop_last(), offset, word, fuel) + calls_at(m, nodes.last(), offset, word, fuel)
    }
}

/// `c` replaces the best match so far unless that one is strictly shorter.
pub open spec fn prefer(best: Option<MethodCallView>, c: MethodCallView) -> Option<MethodCallView> {
    match best {
        Some(b) => if c.span_len <= b.span_len { Some(c) } else { best },
        None => Some(c),
    }
}

/// The best match after offering each of `cs` in turn.
pub open spec fn prefer_all(best: Option<MethodCallView>, cs: Seq<MethodCallView>) -> Option<MethodCallView>
    decreases cs.len(),
{
    if cs.len() == 0 {
        best
    } else {
        prefer(prefer_all(best, cs.drop_last()), cs.last())
    }
}

/// The best match after offering a body's own best match, when it has one.
pub open spec fn merge(best: Option<MethodCallView>, r: Option<MethodCallView>) -> Option<MethodCallView> {
    match r {
        Some(c) => prefer(best, c),
        None => best,
    }
}

proof fn lemma_prefer_all_concat(b: Option<MethodCallView>, xs: Seq<MethodCallView>, ys: Seq<MethodCallView>)
    ensures
        prefer_all(b, xs + ys) == prefer_all(prefer_all(b, xs), ys),
    decreases ys.len(),
{
    if ys.len() == 0 {
        assert(xs + ys =~= xs);
    } else {
        assert((xs + ys).drop_last() =~= xs + ys.drop_last());
        assert((xs + ys).last() == ys.last());
        lemma_prefer_all_concat(b, xs, ys.drop_last());
    }
}

proof fn lemma_prefer_all_merge(b: Option<MethodCallView>, cs: Seq<MethodCallView>)
    ensures
        prefer_all(b, cs) == merge(b, prefer_all(None, cs)),
    decreases cs.len(),
{
    if cs.len() > 0 {
        lemma_prefer_all_merge(b, cs.drop_last());
    }
}

/// Of the offered matches, the one kept is the last among the shortest: it
/// was offered, none offered is shorter, and every later one is longer. No
/// match is kept only when none was offered.
pub proof fn lemma_best_call_is_innermost(cs: Seq<MethodCallView>)
    ensures
        prefer_all(None, cs) is None <==> cs.len() == 0,
        prefer_all(None, cs) matches Some(c) ==> exists|k: int|
            0 <= k < cs.len() && #[trigger] cs[k] == c
                && (forall|i: int| 0 <= i < cs.len() ==> c.span_len <= #[trigger] cs[i].span_len)
                && (forall|j: int| k < j < cs.len() ==> #[trigger] cs[j].span_len > c.span_len),
    decreases cs.len(),
{
    if cs.len() > 0 {
        let rest = cs.drop_last();
        lemma_best_call_is_innermost(rest);
        let x = cs.last();
        let n = cs.len() - 1;
        match prefer_all(None, rest) {
            None => {
                assert(cs[n] == x);
            },
            Some(b) => {
                let k0 = choose|k: int|
                    0 <= k < rest.len() && #[trigger] rest[k] == b
                        && (forall|i: int| 0 <= i < rest.len() ==> b.span_len <= #[trigger] rest[i].span_len)
                        && (forall|j: int| k < j < rest.len() ==> #[trigger] rest[j].span_len > b.span_len);
                if x.span_len <= b.span_len {
                    assert(cs[n] == x);
                    assert forall|i: int| 0 <= i < cs.len() implies x.span_len <= #[trigger] cs[i].span_len by {
                        if i < n {
                            assert(cs[i] == rest[i]);
                        }
                    }
                } else {
                    assert(cs[k0] == b);
                    assert forall|i: int| 0 <= i < cs.len() implies b.span_len <= #[trigger] cs[i].span_len by {
                        if i < n {
                            assert(cs[i] == rest[i]);
                        }
                    }
                    assert forall|j: int| k0 < j < cs.len() implies #[trigger] cs[j].span_len > b.span_len by {
                        if j < n {
                            assert(cs[j] == rest[j]);
                        }
                    }
                }
            },
        }
    }
}

/// The own match of `node`, offered to `best`.
fn offer_own_call(m: &HirModule, node: HirNodeId, offset: usize, word: Option<&str>, best: &mut Option<MethodCallMatch>)
    ensures
        opt_call_view(*final(best)) == prefer_all(opt_call_view(*old(best)), own_call(*m, node, offset, word_view(word))),
{
    let ghost own = own_call(*m, node, offset, word_view(word));
    if let HirNodeId::Expr(id) = node {
        if let Some(e) = m.exprs.get(&id) {
            if let HirExprKind::MethodCall { receiver, name, .. } = &e.kind {
                let sp = e.origin.span;
                let admitted = match word {
                    Some(w) => str_eq(w, name.as_str()),
                    None => true,
                };
                if sp.start <= offset && offset <= sp.end && admitted {
                    let candidate = MethodCallMatch {
                        receiver_expr_id: *receiver,
                        method_name: name.clone(),
                        span_len: sp.end.saturating_sub(sp.start),
                    };
                    let ghost cv = candidate@;
                    proof {
                        assert(word_admits(word_view(word), name@));
                        assert(own =~= seq![cv]);
                    }
                    let replace = match best {
                        Some(existing) => candidate.span_len <= existing.span_len,
                        None => true,
                    };
                    if replace {
                        *best = Some(candidate);
                    }
                    proof {
                        assert(own.drop_last() =~= Seq::<MethodCallView>::empty());
                        assert(prefer_all(opt_call_view(*old(best)), own.drop_last()) == opt_call_view(*old(best)));
                        assert(own.last() == cv);
                        assert(prefer_all(opt_call_view(*old(best)), own) == prefer(opt_call_view(*old(best)), cv));
                    }
                    return;
                }
            }
        }
    }
}

/// Offers the matches of a walk from `node` to `best`. A body is searched on
/// its own and its best match then offered.
fn search_node(m: &HirModule, node: HirNodeId, offset: usize, word: Option<&str>, best: &mut Option<MethodCallMatch>, fuel: usize)
    ensures
        opt_call_view(*final(best)) == prefer_all(opt_call_view(*old(best)), calls_at(*m, node, offset, word_view(word), fuel as nat)),
    decreases fuel, 0nat,
{
    if fuel == 0 {
        return;
    }
    match node_info(m, node) {
        None => {},
        Some((_sp, children)) => {
            offer_own_call(m, node, offset, word, best);
            let ghost own = own_call(*m, node, offset, word_view(word));
            let ghost rest = calls_at_list(*m, children@, offset, word_view(word), (fuel - 1) as nat);
            match node {
                HirNodeId::Body(_) => {
                    let mut inner: Option<MethodCallMatch> = None;
                    search_nodes(m, &children, offset, word, &mut inner, fuel - 1);
                    let replace = match (&inner, &*best) {
                        (Some(c), Some(existing)) => c.span_len <= existing.span_len,
                        (Some(_), None) => true,
                        (None, _) => false,
                    };
                    if replace {
                        *best = inner;
                    }
                    proof {
                        lemma_prefer_all_merge(opt_call_view(*old(best)), own + rest);
                        lemma_prefer_all_merge(opt_call_view(*old(best)), own);
                        lemma_prefer_all_concat(opt_call_view(*old(best)), own, rest);
                        lemma_prefer_all_merge(prefer_all(opt_call_view(*old(best)), own), rest);
                    }
                },
                _ => {
                    search_nodes(m, &children, offset, word, best, fuel - 1);
                    proof {
                        lemma_prefer_all_concat(opt_call_view(*old(best)), own, rest);
                    }
                },
            }
        },
    }
}

/// Offers the matches of walks from each of `nodes`, in order.
fn search_nodes(m: &HirModule, nodes: &Vec<HirNodeId>, offset: usize, word: Option<&str>, best: &mut Option<MethodCallMatch>, fuel: usize)
    ensures
        opt_call_view(*final(best)) == prefer_all(opt_call_view(*old(best)), calls_at_list(*m, nodes@, offset, word_view(word), fuel as nat)),
    decreases fuel, nodes@.len() + 1,
{
    let ghost w = word_view(word);
    let mut i: usize = 0;
    while i < nodes.len()
        invariant
            i <= nodes@.len(),
            opt_call_view(*best) == prefer_all(opt_call_view(*old(best)), calls_at_list(*m, nodes@.subrange(0, i as int), offset, w, fuel as nat)),
            w == word_view(word),
        decreases nodes@.len() - i,
    {
        let ghost before = opt_call_view(*best);
        search_node(m, nodes[i], offset, word, best, fuel);
        proof {
            let pre = nodes@.subrange(0, i as int + 1);
            assert(pre.drop_last() =~= nodes@.subrange(0, i as int));
            assert(pre.last() == nodes@[i as int]);
            lemma_prefer_all_concat(
                opt_call_view(*old(best)),
                calls_at_list(*m, nodes@.subrange(0, i as int), offset, w, fuel as nat),
                calls_at(*m, nodes@[i as int], offset, w, fuel as nat),
            );
        }
        i = i + 1;
    }
    proof {
        assert(nodes@.subrange(0, nodes@.len() as int) =~= nodes@);
    }
}

/// The method call under `offset` in body `body_id`: of the method call
/// expressions whose span holds the offset (and, when `fallback_word` is
/// given, that call a method of that name), met in a pre-order walk of the
/// body, the last among those with the shortest span (see
/// [`lemma_best_call_is_innermost`]). The walk descends at most as many
/// levels as the module has nodes.
pub fn find_method_call_at_offset(module: &HirModule, body_id: HirBodyId, offset: usize, fallback_word: Option<&str>) -> (r: Option<MethodCallMatch>)
    ensures
        opt_call_view(r) == prefer_all(None, calls_at(*module, HirNodeId::Body(body_id), offset, word_view(fallback_word), walk_fuel(*module))),
{
    let mut best: Option<MethodCallMatch> = None;
    search_node(module, HirNodeId::Body(body_id), offset, fallback_word, &mut best, module.walk_fuel());
    best
}

/// The item a type names, looking through pointers.
pub open spec fn named_item_of(t: Type) -> Option<ItemId>
    decreases t,
{
    match t {
        Type::Named { item_id, .. } => Some(item_id),
        Type::Pointer { pointee, .. } => named_item_of(*pointee),
        _ => None,
    }
}

/// The item a type names, looking through pointers (see [`named_item_of`]).
pub fn named_item_id_from_type(ty: &Type) -> (r: Option<ItemId>)
    ensures
        r == named_item_of(*ty),
    decreases ty,
{
    match ty {
        Type::Named { item_id, .. } => Some(*item_id),
        Type::Pointer { pointee, .. } => named_item_id_from_type(&**pointee),
        Type::Builtin(_) => None,
        Type::Error => None,
    }
}

} // verus!
