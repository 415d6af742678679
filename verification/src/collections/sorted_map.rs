use vstd::prelude::*;

verus! {

/// Keys of a [`SortedMap`]: a strict total order with executable
/// comparison, equality and copying.
pub trait MapKey: Sized {
    spec fn key_lt(self, other: Self) -> bool;

    proof fn lemma_key_lt_irreflexive(a: Self)
        ensures
            !a.key_lt(a),
    ;

    proof fn lemma_key_lt_transitive(a: Self, b: Self, c: Self)
        requires
            a.key_lt(b),
            b.key_lt(c),
        ensures
            a.key_lt(c),
    ;

    proof fn lemma_key_lt_total(a: Self, b: Self)
        ensures
            a.key_lt(b) || a == b || b.key_lt(a),
    ;

    fn less_than(&self, other: &Self) -> (r: bool)
        ensures
            r == self.key_lt(*other),
    ;

    fn same_key(&self, other: &Self) -> (r: bool)
        ensures
            r == (*self == *other),
    ;

    fn copy_key(&self) -> (r: Self)
        ensures
            r == *self,
    ;
}

/// Entries strictly ascending by key.
pub open spec fn entries_sorted<K: MapKey, V>(s: Seq<(K, V)>) -> bool {
    forall|i: int, j: int| 0 <= i < j < s.len() ==> #[trigger] s[i].0.key_lt(#[trigger] s[j].0)
}

/// Whether some entry has key `k`.
pub open spec fn entries_contain<K, V>(s: Seq<(K, V)>, k: K) -> bool {
    exists|i: int| 0 <= i < s.len() && #[trigger] s[i].0 == k
}

/// The value stored under `k`, if any.
pub open spec fn entries_lookup<K, V>(s: Seq<(K, V)>, k: K) -> Option<V> {
    if entries_contain(s, k) {
        Some(s[choose|i: int| 0 <= i < s.len() && #[trigger] s[i].0 == k].1)
    } else {
        None
    }
}

/// The map sorted entries stand for.
pub open spec fn entries_map<K, V>(s: Seq<(K, V)>) -> Map<K, V> {
    Map::new(|k: K| entries_contain(s, k), |k: K| entries_lookup(s, k).unwrap())
}

/// The map of lists sorted entries stand for, each list by its contents.
pub open spec fn entries_list_map<K, T>(s: Seq<(K, Vec<T>)>) -> Map<K, Seq<T>> {
    Map::new(|k: K| entries_contain(s, k), |k: K| entries_lookup(s, k).unwrap()@)
}

/// In sorted entries, the entry at a position holding key `k` is the one `entries_lookup` finds.
pub proof fn lemma_lookup_at<K: MapKey, V>(s: Seq<(K, V)>, i: int)
    requires
        entries_sorted(s),
        0 <= i < s.len(),
    ensures
        entries_lookup(s, s[i].0) == Some(s[i].1),
{
    let k = s[i].0;
    assert(entries_contain(s, k));
    let j = choose|j: int| 0 <= j < s.len() && #[trigger] s[j].0 == k;
    if j != i {
        K::lemma_key_lt_irreflexive(k);
        if j < i {
            assert(s[j].0.key_lt(s[i].0));
        } else {
            assert(s[i].0.key_lt(s[j].0));
        }
    }
}

/// Sorted entries whose prefix grows by one entry stand for the prefix's
/// map with that entry inserted.
pub proof fn lemma_entries_map_step<K: MapKey, V>(s: Seq<(K, V)>, i: int)
    requires
        entries_sorted(s),
        0 <= i < s.len(),
    ensures
        entries_map(s.subrange(0, i + 1)) == entries_map(s.subrange(0, i)).insert(s[i].0, s[i].1),
{
    let a = s.subrange(0, i);
    let b = s.subrange(0, i + 1);
    assert(entries_sorted(a));
    assert(entries_sorted(b));
    assert forall|k: K| #[trigger] entries_contain(b, k) <==> (entries_contain(a, k) || k == s[i].0) by {
        if entries_contain(b, k) {
            let w = choose|w: int| 0 <= w < b.len() && #[trigger] b[w].0 == k;
            if w < i {
                assert(a[w].0 == k);
            }
        }
        if entries_contain(a, k) {
            let w = choose|w: int| 0 <= w < a.len() && #[trigger] a[w].0 == k;
            assert(b[w].0 == k);
        }
        if k == s[i].0 {
            assert(b[i].0 == k);
        }
    }
    assert forall|k: K| entries_contain(b, k) implies #[trigger] entries_lookup(b, k) == (if k == s[i].0 {
        Some(s[i].1)
    } else {
        entries_lookup(a, k)
    }) by {
        let w = choose|w: int| 0 <= w < b.len() && #[trigger] b[w].0 == k;
        lemma_lookup_at(b, w);
        if w < i {
            lemma_lookup_at(a, w);
            assert(a[w] == b[w]);
            K::lemma_key_lt_irreflexive(k);
            assert(b[w].0.key_lt(b[i].0));
        }
    }
    assert(entries_map(b) =~= entries_map(a).insert(s[i].0, s[i].1));
}

/// Replacing the value at one position keeps the order and changes only that key's value.
pub proof fn lemma_update_value<K: MapKey, V>(s0: Seq<(K, V)>, p: int, v: V)
    requires
        entries_sorted(s0),
        0 <= p < s0.len(),
    ensures
        ({
            let s1 = s0.update(p, (s0[p].0, v));
            &&& entries_sorted(s1)
            &&& entries_lookup(s1, s0[p].0) == Some(v)
            &&& forall|k2: K|
                k2 != s0[p].0 ==> #[trigger] entries_lookup(s1, k2) == entries_lookup(s0, k2)
            &&& forall|k2: K| #[trigger] entries_contain(s1, k2) <==> entries_contain(s0, k2)
        }),
{
    let s1 = s0.update(p, (s0[p].0, v));
    assert(entries_sorted(s1)) by {
        assert forall|i: int, j: int| 0 <= i < j < s1.len() implies #[trigger] s1[i].0.key_lt(
            #[trigger] s1[j].0,
        ) by {
            assert(s0[i].0.key_lt(s0[j].0));
        }
    }
    lemma_lookup_at(s1, p);
    assert forall|k2: K| k2 != s0[p].0 implies #[trigger] entries_lookup(s1, k2) == entries_lookup(
        s0,
        k2,
    ) by {
        if entries_contain(s0, k2) {
            let j = choose|j: int| 0 <= j < s0.len() && #[trigger] s0[j].0 == k2;
            lemma_lookup_at(s0, j);
            lemma_lookup_at(s1, j);
        }
        if entries_contain(s1, k2) {
            let j = choose|j: int| 0 <= j < s1.len() && #[trigger] s1[j].0 == k2;
            assert(s0[j].0 == k2);
        }
    }
    assert forall|k2: K| #[trigger] entries_contain(s1, k2) <==> entries_contain(s0, k2) by {
        if entries_contain(s0, k2) {
            let j = choose|j: int| 0 <= j < s0.len() && #[trigger] s0[j].0 == k2;
            assert(s1[j].0 == k2);
        }
        if entries_contain(s1, k2) {
            let j = choose|j: int| 0 <= j < s1.len() && #[trigger] s1[j].0 == k2;
            assert(s0[j].0 == k2);
        }
    }
}

/// A finite map whose entries are kept in ascending key order, so that
/// walking it visits keys from smallest to largest.
pub struct SortedMap<K: MapKey, V> {
    entries: Vec<(K, V)>,
}

impl<K: MapKey, V> View for SortedMap<K, V> {
    type V = Seq<(K, V)>;

    closed spec fn view(&self) -> Seq<(K, V)> {
        self.entries@
    }
}

impl<K: MapKey, V> SortedMap<K, V> {
    #[verifier::type_invariant]
    closed spec fn inv(self) -> bool {
        entries_sorted(self.entries@)
    }

    /// The value stored under `k`, if any.
    pub open spec fn spec_get(&self, k: K) -> Option<V> {
        entries_lookup(self@, k)
    }

    /// Creates an empty map.
    pub fn new() -> (m: Self)
        ensures
            m@ == Seq::<(K, V)>::empty(),
    {
        SortedMap { entries: Vec::new() }
    }

    /// A map whose entries are exactly `entries`, which must already be in
    /// ascending key order.
    pub fn from_sorted_entries(entries: Vec<(K, V)>) -> (m: Self)
        requires
            entries_sorted(entries@),
        ensures
            m@ == entries@,
    {
        SortedMap { entries }
    }

    /// Number of entries.
    pub fn len(&self) -> (n: usize)
        ensures
            n == self@.len(),
    {
        self.entries.len()
    }

    /// True when the map has no entry.
    pub fn is_empty(&self) -> (b: bool)
        ensures
            b == (self@.len() == 0),
    {
        self.entries.len() == 0
    }

    /// All entries in ascending key order.
    pub fn entries(&self) -> (r: &Vec<(K, V)>)
        ensures
            r@ == self@,
            entries_sorted(self@),
    {
        proof {
            use_type_invariant(self);
        }
        &self.entries
    }

    /// First position whose key is not below `k`.
    fn lower_bound(&self, k: &K) -> (p: usize)
        ensures
            p <= self@.len(),
            forall|i: int| 0 <= i < p ==> #[trigger] self@[i].0.key_lt(*k),
            forall|i: int| p <= i < self@.len() ==> !(#[trigger] self@[i].0.key_lt(*k)),
    {
        proof {
            use_type_invariant(self);
        }
        let mut lo: usize = 0;
        let mut hi: usize = self.entries.len();
        while lo < hi
            invariant
                lo <= hi <= self.entries@.len(),
                entries_sorted(self.entries@),
                forall|i: int| 0 <= i < lo ==> #[trigger] self.entries@[i].0.key_lt(*k),
                forall|i: int|
                    hi <= i < self.entries@.len() ==> !(#[trigger] self.entries@[i].0.key_lt(*k)),
            decreases hi - lo,
        {
            let mid = lo + (hi - lo) / 2;
            if self.entries[mid].0.less_than(k) {
                proof {
                    assert forall|i: int| 0 <= i < mid + 1 implies #[trigger] self.entries@[i].0.key_lt(
                        *k,
                    ) by {
                        if i < mid {
                            K::lemma_key_lt_transitive(
                                self.entries@[i].0,
                                self.entries@[mid as int].0,
                                *k,
                            );
                        }
                    }
                }
                lo = mid + 1;
            } else {
                proof {
                    assert forall|i: int|
                        mid <= i < self.entries@.len() implies !(#[trigger] self.entries@[i].0.key_lt(
                        *k,
                    )) by {
                        if i > mid && self.entries@[i].0.key_lt(*k) {
                            K::lemma_key_lt_total(self.entries@[mid as int].0, *k);
                            if self.entries@[mid as int].0 == *k {
                                K::lemma_key_lt_transitive(*k, self.entries@[i].0, *k);
                                K::lemma_key_lt_irreflexive(*k);
                            } else {
                                K::lemma_key_lt_transitive(
                                    *k,
                                    self.entries@[mid as int].0,
                                    self.entries@[i].0,
                                );
                                K::lemma_key_lt_transitive(*k, self.entries@[i].0, *k);
                                K::lemma_key_lt_irreflexive(*k);
                            }
                        }
                    }
                }
                hi = mid;
            }
        }
        lo
    }

    /// Position of key `k`, if present.
    pub fn find(&self, k: &K) -> (r: Option<usize>)
        ensures
            match r {
                Some(p) => p < self@.len() && self@[p as int].0 == *k,
                None => !entries_contain(self@, *k),
            },
    {
        proof {
            use_type_invariant(self);
        }
        let p = self.lower_bound(k);
        if p < self.entries.len() && self.entries[p].0.same_key(k) {
            Some(p)
        } else {
            proof {
                if entries_contain(self@, *k) {
                    let j = choose|j: int| 0 <= j < self@.len() && #[trigger] self@[j].0 == *k;
                    K::lemma_key_lt_irreflexive(*k);
                    if j > p {
                        K::lemma_key_lt_total(self@[p as int].0, *k);
                        assert(self@[p as int].0.key_lt(self@[j].0));
                    }
                }
            }
            None
        }
    }

    /// True when `k` has an entry.
    pub fn contains_key(&self, k: &K) -> (b: bool)
        ensures
            b == entries_contain(self@, *k),
    {
        self.find(k).is_some()
    }

    /// The value stored under `k`, if any.
    pub fn get(&self, k: &K) -> (r: Option<&V>)
        ensures
            match r {
                Some(v) => self.spec_get(*k) == Some(*v),
                None => self.spec_get(*k) is None,
            },
    {
        proof {
            use_type_invariant(self);
        }
        match self.find(k) {
            Some(p) => {
                proof {
                    lemma_lookup_at(self@, p as int);
                }
                Some(&self.entries[p].1)
            },
            None => None,
        }
    }

    /// Stores `v` under `k`, returning the value that was stored there before.
    fn insert_entry(&mut self, k: K, v: V) -> (old_value: Option<V>)
        ensures
            old_value == old(self).spec_get(k),
            entries_sorted(final(self)@),
            final(self).spec_get(k) == Some(v),
            forall|k2: K| k2 != k ==> #[trigger] final(self).spec_get(k2) == old(self).spec_get(k2),
            forall|k2: K|
                #[trigger] entries_contain(final(self)@, k2) <==> (entries_contain(old(self)@, k2)
                    || k2 == k),
            final(self)@.len() == old(self)@.len() + (if entries_contain(old(self)@, k) {
                0int
            } else {
                1int
            }),
            (forall|i: int| 0 <= i < old(self)@.len() ==> #[trigger] old(self)@[i].0.key_lt(k))
                ==> final(self)@ == old(self)@.push((k, v)),
    {
        proof {
            use_type_invariant(&*self);
        }
        let ghost s0 = self.entries@;
        let p = self.lower_bound(&k);
        let mut entries: Vec<(K, V)> = Vec::new();
        std::mem::swap(&mut entries, &mut self.entries);
        if p < entries.len() && entries[p].0.same_key(&k) {
            let (_, old_v) = entries.remove(p);
            entries.insert(p, (k, v));
            proof {
                let s1 = entries@;
                assert(s1 =~= s0.update(p as int, (k, v)));
                assert(entries_sorted(s1)) by {
                    assert forall|i: int, j: int| 0 <= i < j < s1.len() implies #[trigger] s1[i].0.key_lt(
                        #[trigger] s1[j].0,
                    ) by {
                        assert(s0[i].0.key_lt(s0[j].0));
                    }
                }
                lemma_lookup_at(s0, p as int);
                lemma_lookup_at(s1, p as int);
                assert forall|k2: K| k2 != k implies #[trigger] entries_lookup(s1, k2)
                    == entries_lookup(s0, k2) by {
                    if entries_contain(s0, k2) {
                        let j = choose|j: int| 0 <= j < s0.len() && #[trigger] s0[j].0 == k2;
                        lemma_lookup_at(s0, j);
                        lemma_lookup_at(s1, j);
                    }
                    if entries_contain(s1, k2) {
                        let j = choose|j: int| 0 <= j < s1.len() && #[trigger] s1[j].0 == k2;
                        assert(s0[j].0 == k2);
                    }
                }
                assert forall|k2: K| #[trigger] entries_contain(s1, k2) <==> (entries_contain(s0, k2)
                    || k2 == k) by {
                    if entries_contain(s0, k2) {
                        let j = choose|j: int| 0 <= j < s0.len() && #[trigger] s0[j].0 == k2;
                        assert(s1[j].0 == k2);
                    }
                    if entries_contain(s1, k2) {
                        let j = choose|j: int| 0 <= j < s1.len() && #[trigger] s1[j].0 == k2;
                        assert(s0[j].0 == k2);
                    }
                    if k2 == k {
                        assert(s1[p as int].0 == k2);
                    }
                }
                assert(s0[p as int].0 == k);
                K::lemma_key_lt_irreflexive(k);
            }
            self.entries = entries;
            Some(old_v)
        } else {
            proof {
                assert(!entries_contain(s0, k)) by {
                    if entries_contain(s0, k) {
                        let j = choose|j: int| 0 <= j < s0.len() && #[trigger] s0[j].0 == k;
                        K::lemma_key_lt_irreflexive(k);
                        if j > p {
                            K::lemma_key_lt_total(s0[p as int].0, k);
                            assert(s0[p as int].0.key_lt(s0[j].0));
                        }
                    }
                }
            }
            entries.insert(p, (k, v));
            proof {
                let s1 = entries@;
                if forall|i: int| 0 <= i < s0.len() ==> #[trigger] s0[i].0.key_lt(k) {
                    if p < s0.len() {
                        assert(s0[p as int].0.key_lt(k));
                    }
                    assert(p == s0.len());
                    assert(s1 =~= s0.push((k, v)));
                }
                assert(entries_sorted(s1)) by {
                    assert forall|i: int, j: int| 0 <= i < j < s1.len() implies #[trigger] s1[i].0.key_lt(
                        #[trigger] s1[j].0,
                    ) by {
                        if j < p {
                            assert(s0[i].0.key_lt(s0[j].0));
                        } else if j == p {
                            assert(s0[i].0.key_lt(k));
                        } else if i < p {
                            assert(s0[i].0.key_lt(k));
                            K::lemma_key_lt_total(s0[j - 1].0, k);
                            if j - 1 > p {
                                assert(s0[p as int].0.key_lt(s0[j - 1].0));
                            }
                            K::lemma_key_lt_transitive(s0[i].0, k, s0[j - 1].0);
                        } else if i == p {
                            K::lemma_key_lt_total(s0[j - 1].0, k);
                            if j - 1 > p {
                                assert(s0[p as int].0.key_lt(s0[j - 1].0));
                                if s0[j - 1].0.key_lt(k) {
                                    K::lemma_key_lt_transitive(s0[p as int].0, s0[j - 1].0, k);
                                }
                            }
                        } else {
                            assert(s0[i - 1].0.key_lt(s0[j - 1].0));
                        }
                    }
                }
                lemma_lookup_at(s1, p as int);
                assert forall|k2: K| k2 != k implies #[trigger] entries_lookup(s1, k2)
                    == entries_lookup(s0, k2) by {
                    if entries_contain(s0, k2) {
                        let j = choose|j: int| 0 <= j < s0.len() && #[trigger] s0[j].0 == k2;
                        lemma_lookup_at(s0, j);
                        if j < p {
                            lemma_lookup_at(s1, j);
                        } else {
                            assert(s1[j + 1] == s0[j]);
                            lemma_lookup_at(s1, j + 1);
                        }
                    }
                    if entries_contain(s1, k2) {
                        let j = choose|j: int| 0 <= j < s1.len() && #[trigger] s1[j].0 == k2;
                        if j < p {
                            assert(s0[j].0 == k2);
                        } else if j > p {
                            assert(s0[j - 1].0 == k2);
                        }
                    }
                }
                assert forall|k2: K| #[trigger] entries_contain(s1, k2) <==> (entries_contain(s0, k2)
                    || k2 == k) by {
                    if entries_contain(s0, k2) {
                        let j = choose|j: int| 0 <= j < s0.len() && #[trigger] s0[j].0 == k2;
                        if j < p {
                            assert(s1[j].0 == k2);
                        } else {
                            assert(s1[j + 1].0 == k2);
                        }
                    }
                    if entries_contain(s1, k2) {
                        let j = choose|j: int| 0 <= j < s1.len() && #[trigger] s1[j].0 == k2;
                        if j < p {
                            assert(s0[j].0 == k2);
                        } else if j > p {
                            assert(s0[j - 1].0 == k2);
                        }
                    }
                    if k2 == k {
                        assert(s1[p as int].0 == k2);
                    }
                }
            }
            self.entries = entries;
            None
        }
    }

    /// Stores `v` under `k`, returning the value that was stored there before.
    pub fn insert(&mut self, k: K, v: V) -> (old_value: Option<V>)
        ensures
            old_value == old(self).spec_get(k),
            entries_sorted(final(self)@),
            final(self).spec_get(k) == Some(v),
            forall|k2: K| k2 != k ==> #[trigger] final(self).spec_get(k2) == old(self).spec_get(k2),
            forall|k2: K|
                #[trigger] entries_contain(final(self)@, k2) <==> (entries_contain(old(self)@, k2)
                    || k2 == k),
            final(self)@.len() == old(self)@.len() + (if entries_contain(old(self)@, k) {
                0int
            } else {
                1int
            }),
            entries_map(final(self)@) == entries_map(old(self)@).insert(k, v),
            (forall|i: int| 0 <= i < old(self)@.len() ==> #[trigger] old(self)@[i].0.key_lt(k))
                ==> final(self)@ == old(self)@.push((k, v)),
    {
        let ghost vg = v;
        let r = self.insert_entry(k, v);
        proof {
            let m0 = entries_map(old(self)@).insert(k, vg);
            let m1 = entries_map(self@);
            assert forall|k2: K| #[trigger] m1.contains_key(k2) <==> m0.contains_key(k2) by {
                assert(entries_contain(self@, k2) <==> (entries_contain(old(self)@, k2) || k2 == k));
            }
            assert forall|k2: K| m1.contains_key(k2) implies #[trigger] m1[k2] == m0[k2] by {
                if k2 != k {
                    assert(self.spec_get(k2) == old(self).spec_get(k2));
                }
            }
            assert(m1 =~= m0);
        }
        r
    }

    /// Replaces the value at position `p`, returning the previous one.
    fn set_value_at(&mut self, p: usize, v: V) -> (old_v: V)
        requires
            p < old(self)@.len(),
        ensures
            final(self)@ == old(self)@.update(p as int, (old(self)@[p as int].0, v)),
            old_v == old(self)@[p as int].1,
    {
        proof {
            use_type_invariant(&*self);
            lemma_update_value(self@, p as int, v);
        }
        let mut entries: Vec<(K, V)> = Vec::new();
        std::mem::swap(&mut entries, &mut self.entries);
        let (key, old_v) = entries.remove(p);
        entries.insert(p, (key, v));
        proof {
            assert(entries@ =~= old(self)@.update(p as int, (old(self)@[p as int].0, v)));
        }
        self.entries = entries;
        old_v
    }
}

impl<K: MapKey, T> SortedMap<K, Vec<T>> {
    /// Appends `item` to the list stored under `k`, starting an empty list when `k` is absent.
    pub fn push_value(&mut self, k: K, item: T)
        ensures
            entries_sorted(final(self)@),
            final(self).spec_get(k) matches Some(v) && v@ == (match old(self).spec_get(k) {
                Some(w) => w@,
                None => Seq::<T>::empty(),
            }).push(item),
            forall|k2: K| k2 != k ==> #[trigger] final(self).spec_get(k2) == old(self).spec_get(k2),
            forall|k2: K|
                #[trigger] entries_contain(final(self)@, k2) <==> (entries_contain(old(self)@, k2)
                    || k2 == k),
            entries_list_map(final(self)@) == entries_list_map(old(self)@).insert(
                k,
                (if entries_list_map(old(self)@).contains_key(k) {
                    entries_list_map(old(self)@)[k]
                } else {
                    Seq::<T>::empty()
                }).push(item),
            ),
    {
        let ghost ig = item;
        self.push_value_inner(k, item);
        proof {
            let m_old = entries_list_map(old(self)@);
            let m0 = m_old.insert(k, (if m_old.contains_key(k) { m_old[k] } else { Seq::<T>::empty() }).push(ig));
            let m1 = entries_list_map(self@);
            assert forall|k2: K| #[trigger] m1.contains_key(k2) <==> m0.contains_key(k2) by {
                assert(entries_contain(self@, k2) <==> (entries_contain(old(self)@, k2) || k2 == k));
            }
            assert forall|k2: K| m1.contains_key(k2) implies #[trigger] m1[k2] == m0[k2] by {
                if k2 != k {
                    assert(self.spec_get(k2) == old(self).spec_get(k2));
                }
            }
            assert(m1 =~= m0);
        }
    }

    fn push_value_inner(&mut self, k: K, item: T)
        ensures
            entries_sorted(final(self)@),
            final(self).spec_get(k) matches Some(v) && v@ == (match old(self).spec_get(k) {
                Some(w) => w@,
                None => Seq::<T>::empty(),
            }).push(item),
            forall|k2: K| k2 != k ==> #[trigger] final(self).spec_get(k2) == old(self).spec_get(k2),
            forall|k2: K|
                #[trigger] entries_contain(final(self)@, k2) <==> (entries_contain(old(self)@, k2)
                    || k2 == k),
    {
        proof {
            use_type_invariant(&*self);
        }
        match self.find(&k) {
            Some(p) => {
                proof {
                    lemma_lookup_at(self@, p as int);
                }
                let ghost s0 = self@;
                let mut list = self.set_value_at(p, Vec::new());
                list.push(item);
                let ghost s1 = self@;
                self.set_value_at(p, list);
                proof {
                    assert(self@ =~= s0.update(p as int, (s0[p as int].0, list)));
                    lemma_update_value(s0, p as int, list);
                }
            },
            None => {
                let mut list = Vec::new();
                list.push(item);
                self.insert(k, list);
                proof {
                    use_type_invariant(&*self);
                }
            },
        }
    }
}

} // verus!
