//! Maps keyed by text (a string, or a path of strings), kept in the order
//! that strings compare in: character by character, a proper prefix first.

use vstd::prelude::*;

verus! {

/// `a` comes before `b`: at the first position where they differ the
/// character of `a` is smaller, or `a` is a proper prefix of `b`.
pub open spec fn chars_lt(a: Seq<char>, b: Seq<char>) -> bool
    decreases a.len(),
{
    if a.len() == 0 {
        b.len() > 0
    } else if b.len() == 0 {
        false
    } else if a[0] != b[0] {
        (a[0] as u32) < (b[0] as u32)
    } else {
        chars_lt(a.drop_first(), b.drop_first())
    }
}

/// `a` comes before `b`: at the first position where they differ the text
/// of `a` comes first, or `a` is a proper prefix of `b`.
pub open spec fn texts_lt(a: Seq<Seq<char>>, b: Seq<Seq<char>>) -> bool
    decreases a.len(),
{
    if a.len() == 0 {
        b.len() > 0
    } else if b.len() == 0 {
        false
    } else if a[0] != b[0] {
        chars_lt(a[0], b[0])
    } else {
        texts_lt(a.drop_first(), b.drop_first())
    }
}

proof fn lemma_char_eq(a: char, b: char)
    ensures
        (a as u32) == (b as u32) ==> a == b,
{
}

pub proof fn lemma_chars_lt_irreflexive(a: Seq<char>)
    ensures
        !chars_lt(a, a),
    decreases a.len(),
{
    if a.len() > 0 {
        lemma_chars_lt_irreflexive(a.drop_first());
    }
}

pub proof fn lemma_chars_lt_transitive(a: Seq<char>, b: Seq<char>, c: Seq<char>)
    requires
        chars_lt(a, b),
        chars_lt(b, c),
    ensures
        chars_lt(a, c),
    decreases a.len(),
{
    if a.len() > 0 && b.len() > 0 && c.len() > 0 {
        if a[0] == b[0] && b[0] == c[0] {
            lemma_chars_lt_transitive(a.drop_first(), b.drop_first(), c.drop_first());
        } else if a[0] == c[0] {
            lemma_char_eq(a[0], c[0]);
            if a[0] == b[0] {
            } else if b[0] == c[0] {
            } else {
                assert((a[0] as u32) < (b[0] as u32));
                assert((b[0] as u32) < (c[0] as u32));
            }
        } else {
            if a[0] != b[0] && b[0] != c[0] {
                assert((a[0] as u32) < (c[0] as u32));
            }
        }
    }
}

pub proof fn lemma_chars_lt_total(a: Seq<char>, b: Seq<char>)
    ensures
        chars_lt(a, b) || a == b || chars_lt(b, a),
    decreases a.len(),
{
    if a.len() == 0 && b.len() == 0 {
        assert(a =~= b);
    } else if a.len() > 0 && b.len() > 0 {
        if a[0] == b[0] {
            lemma_chars_lt_total(a.drop_first(), b.drop_first());
            if a.drop_first() == b.drop_first() {
                assert(a =~= seq![a[0]] + a.drop_first());
                assert(b =~= seq![b[0]] + b.drop_first());
            }
        } else {
            if (a[0] as u32) == (b[0] as u32) {
                lemma_char_eq(a[0], b[0]);
            }
        }
    }
}

pub proof fn lemma_texts_lt_irreflexive(a: Seq<Seq<char>>)
    ensures
        !texts_lt(a, a),
    decreases a.len(),
{
    if a.len() > 0 {
        lemma_texts_lt_irreflexive(a.drop_first());
    }
}

pub proof fn lemma_texts_lt_transitive(a: Seq<Seq<char>>, b: Seq<Seq<char>>, c: Seq<Seq<char>>)
    requires
        texts_lt(a, b),
        texts_lt(b, c),
    ensures
        texts_lt(a, c),
    decreases a.len(),
{
    if a.len() > 0 && b.len() > 0 && c.len() > 0 {
        if a[0] == b[0] && b[0] == c[0] {
            lemma_texts_lt_transitive(a.drop_first(), b.drop_first(), c.drop_first());
        } else if a[0] == b[0] {
        } else if b[0] == c[0] {
        } else {
            lemma_chars_lt_transitive(a[0], b[0], c[0]);
            if a[0] == c[0] {
                lemma_chars_lt_irreflexive(a[0]);
            }
        }
    }
}

pub proof fn lemma_texts_lt_total(a: Seq<Seq<char>>, b: Seq<Seq<char>>)
    ensures
        texts_lt(a, b) || a == b || texts_lt(b, a),
    decreases a.len(),
{
    if a.len() == 0 && b.len() == 0 {
        assert(a =~= b);
    } else if a.len() > 0 && b.len() > 0 {
        if a[0] == b[0] {
            lemma_texts_lt_total(a.drop_first(), b.drop_first());
            if a.drop_first() == b.drop_first() {
                assert(a =~= seq![a[0]] + a.drop_first());
                assert(b =~= seq![b[0]] + b.drop_first());
            }
        } else {
            lemma_chars_lt_total(a[0], b[0]);
        }
    }
}

/// The characters of a string, in order.
pub fn chars_of(s: &str) -> (r: Vec<char>)
    ensures
        r@ == s@,
{
    let mut out: Vec<char> = Vec::new();
    let ghost all = s@;
    for c in iter: s.chars()
        invariant
            all == s@,
            out@.len() == iter.index(),
            iter.seq() == all,
            forall|k: int| 0 <= k < out@.len() ==> out@[k] == iter.seq()[k],
    {
        out.push(c);
    }
    proof {
        assert(out@ =~= all);
    }
    out
}

/// Compares two character sequences: negative when `a` comes first, zero
/// when they are equal, positive when `b` comes first.
fn compare_chars(a: &Vec<char>, b: &Vec<char>) -> (r: i8)
    ensures
        (r < 0) == chars_lt(a@, b@),
        (r == 0) == (a@ == b@),
        (r > 0) == chars_lt(b@, a@),
{
    let mut i: usize = 0;
    while i < a.len() && i < b.len() && a[i] == b[i]
        invariant
            i <= a@.len(),
            i <= b@.len(),
            forall|k: int| 0 <= k < i ==> a@[k] == b@[k],
        decreases a@.len() - i,
    {
        i = i + 1;
    }
    proof {
        lemma_chars_lt_from(a@, b@, i as int);
        lemma_chars_lt_from(b@, a@, i as int);
        lemma_chars_lt_irreflexive(a@);
    }
    if i < a.len() && i < b.len() {
        let ca = a[i] as u32;
        let cb = b[i] as u32;
        proof {
            if ca == cb {
                lemma_char_eq(a@[i as int], b@[i as int]);
            }
        }
        if ca < cb {
            -1
        } else {
            1
        }
    } else if i < b.len() {
        -1
    } else if i < a.len() {
        1
    } else {
        proof {
            assert(a@ =~= b@);
        }
        0
    }
}

/// Comparing from a common prefix of length `i` is comparing the rests.
proof fn lemma_chars_lt_from(a: Seq<char>, b: Seq<char>, i: int)
    requires
        0 <= i <= a.len(),
        i <= b.len(),
        forall|k: int| 0 <= k < i ==> a[k] == b[k],
    ensures
        chars_lt(a, b) == chars_lt(a.subrange(i, a.len() as int), b.subrange(i, b.len() as int)),
    decreases i,
{
    if i == 0 {
        assert(a.subrange(0, a.len() as int) =~= a);
        assert(b.subrange(0, b.len() as int) =~= b);
    } else {
        lemma_chars_lt_from(a.drop_first(), b.drop_first(), i - 1);
        assert(a.drop_first().subrange(i - 1, a.len() - 1) =~= a.subrange(i, a.len() as int));
        assert(b.drop_first().subrange(i - 1, b.len() - 1) =~= b.subrange(i, b.len() as int));
    }
}

/// Comparing texts from a common prefix of length `i` is comparing the rests.
proof fn lemma_texts_lt_from(a: Seq<Seq<char>>, b: Seq<Seq<char>>, i: int)
    requires
        0 <= i <= a.len(),
        i <= b.len(),
        forall|k: int| 0 <= k < i ==> a[k] == b[k],
    ensures
        texts_lt(a, b) == texts_lt(a.subrange(i, a.len() as int), b.subrange(i, b.len() as int)),
    decreases i,
{
    if i == 0 {
        assert(a.subrange(0, a.len() as int) =~= a);
        assert(b.subrange(0, b.len() as int) =~= b);
    } else {
        lemma_texts_lt_from(a.drop_first(), b.drop_first(), i - 1);
        assert(a.drop_first().subrange(i - 1, a.len() - 1) =~= a.subrange(i, a.len() as int));
        assert(b.drop_first().subrange(i - 1, b.len() - 1) =~= b.subrange(i, b.len() as int));
    }
}

/// Keys ordered by their text.
pub trait TextKey: Sized {
    /// The key as a path of texts (a plain string is a path of one).
    spec fn text(&self) -> Seq<Seq<char>>;

    /// Compares the texts of two keys: negative when `self` comes first,
    /// zero when equal, positive when `other` comes first.
    fn compare_text(&self, other: &Self) -> (r: i8)
        ensures
            (r < 0) == texts_lt(self.text(), other.text()),
            (r == 0) == (self.text() == other.text()),
            (r > 0) == texts_lt(other.text(), self.text()),
    ;

    /// A copy of the key with the same text.
    fn clone_text(&self) -> (r: Self)
        ensures
            r.text() == self.text(),
    ;
}

impl TextKey for String {
    open spec fn text(&self) -> Seq<Seq<char>> {
        seq![self@]
    }

    fn compare_text(&self, other: &Self) -> (r: i8) {
        let a = chars_of(self.as_str());
        let b = chars_of(other.as_str());
        let r = compare_chars(&a, &b);
        proof {
            let x = seq![self@];
            let y = seq![other@];
            assert(x.drop_first() =~= Seq::<Seq<char>>::empty());
            assert(y.drop_first() =~= Seq::<Seq<char>>::empty());
            if self@ == other@ {
                assert(x =~= y);
            }
            if x == y {
                assert(x[0] == y[0]);
            }
            lemma_chars_lt_irreflexive(self@);
            assert(!texts_lt(x.drop_first(), y.drop_first()));
            assert(!texts_lt(y.drop_first(), x.drop_first()));
            assert(x[0] == self@);
            assert(y[0] == other@);
        }
        r
    }

    fn clone_text(&self) -> (r: Self) {
        self.clone()
    }
}

/// The texts of a list of strings.
pub open spec fn string_texts(v: Seq<String>) -> Seq<Seq<char>> {
    v.map_values(|s: String| s@)
}

impl TextKey for Vec<String> {
    open spec fn text(&self) -> Seq<Seq<char>> {
        string_texts(self@)
    }

    fn compare_text(&self, other: &Self) -> (r: i8) {
        let ghost a = string_texts(self@);
        let ghost b = string_texts(other@);
        let mut i: usize = 0;
        while i < self.len() && i < other.len()
            invariant
                i <= self@.len(),
                i <= other@.len(),
                a == string_texts(self@),
                b == string_texts(other@),
                forall|k: int| 0 <= k < i ==> a[k] == b[k],
            decreases self@.len() - i,
        {
            let x = chars_of(self[i].as_str());
            let y = chars_of(other[i].as_str());
            let c = compare_chars(&x, &y);
            if c != 0 {
                proof {
                    lemma_texts_lt_from(a, b, i as int);
                    lemma_texts_lt_from(b, a, i as int);
                    let ra = a.subrange(i as int, a.len() as int);
                    let rb = b.subrange(i as int, b.len() as int);
                    assert(ra[0] == a[i as int]);
                    assert(rb[0] == b[i as int]);
                    if a == b {
                        assert(a[i as int] == b[i as int]);
                    }
                }
                return c;
            }
            i = i + 1;
        }
        proof {
            lemma_texts_lt_from(a, b, i as int);
            lemma_texts_lt_from(b, a, i as int);
            lemma_texts_lt_irreflexive(a);
        }
        if i < other.len() {
            -1
        } else if i < self.len() {
            1
        } else {
            proof {
                assert(a =~= b);
            }
            0
        }
    }

    fn clone_text(&self) -> (r: Self) {
        let mut out: Vec<String> = Vec::new();
        let mut i: usize = 0;
        while i < self.len()
            invariant
                i <= self@.len(),
                out@.len() == i,
                forall|k: int| 0 <= k < i ==> out@[k] == self@[k],
            decreases self@.len() - i,
        {
            out.push(self[i].clone());
            i = i + 1;
        }
        proof {
            assert(out@ =~= self@);
        }
        out
    }
}

/// Entries strictly ascending by key text.
pub open spec fn text_entries_sorted<K: TextKey, V>(s: Seq<(K, V)>) -> bool {
    forall|i: int, j: int| 0 <= i < j < s.len() ==> texts_lt(#[trigger] s[i].0.text(), #[trigger] s[j].0.text())
}

/// Whether some entry has a key with text `t`.
pub open spec fn text_entries_contain<K: TextKey, V>(s: Seq<(K, V)>, t: Seq<Seq<char>>) -> bool {
    exists|i: int| 0 <= i < s.len() && #[trigger] s[i].0.text() == t
}

/// The value stored under text `t`, if any.
pub open spec fn text_entries_lookup<K: TextKey, V>(s: Seq<(K, V)>, t: Seq<Seq<char>>) -> Option<V> {
    if text_entries_contain(s, t) {
        Some(s[choose|i: int| 0 <= i < s.len() && #[trigger] s[i].0.text() == t].1)
    } else {
        None
    }
}

/// In sorted entries, the entry at position `i` is the one found by its text.
pub proof fn lemma_text_lookup_at<K: TextKey, V>(s: Seq<(K, V)>, i: int)
    requires
        text_entries_sorted(s),
        0 <= i < s.len(),
    ensures
        text_entries_lookup(s, s[i].0.text()) == Some(s[i].1),
{
    let t = s[i].0.text();
    assert(text_entries_contain(s, t));
    let j = choose|j: int| 0 <= j < s.len() && #[trigger] s[j].0.text() == t;
    assert(0 <= j < s.len() && s[j].0.text() == t);
    lemma_texts_lt_irreflexive(t);
    if j < i {
        assert(texts_lt(s[j].0.text(), s[i].0.text()));
        assert(false);
    } else if j > i {
        assert(texts_lt(s[i].0.text(), s[j].0.text()));
        assert(false);
    }
    assert(j == i);
}

/// A finite map keyed by text, walked in ascending text order.
pub struct TextMap<K: TextKey, V> {
    entries: Vec<(K, V)>,
}

impl<K: TextKey, V> TextMap<K, V> {
    #[verifier::type_invariant]
    closed spec fn inv(self) -> bool {
        text_entries_sorted(self.entries@)
    }

    /// The entries, ascending by key text.
    pub closed spec fn spec_entries(&self) -> Seq<(K, V)> {
        self.entries@
    }

    /// The value stored under text `t`, if any.
    pub open spec fn spec_get(&self, t: Seq<Seq<char>>) -> Option<V> {
        text_entries_lookup(self.spec_entries(), t)
    }

    /// An empty map.
    pub fn new() -> (m: Self)
        ensures
            m.spec_entries().len() == 0,
            forall|t: Seq<Seq<char>>| #[trigger] m.spec_get(t) is None,
    {
        TextMap { entries: Vec::new() }
    }

    /// All entries, ascending by key text.
    pub fn entries(&self) -> (r: &Vec<(K, V)>)
        ensures
            r@ == self.spec_entries(),
            text_entries_sorted(r@),
    {
        proof {
            use_type_invariant(self);
        }
        &self.entries
    }

    /// First position whose key text is not below that of `k`.
    fn lower_bound(&self, k: &K) -> (p: usize)
        ensures
            p <= self.spec_entries().len(),
            forall|i: int| 0 <= i < p ==> texts_lt(#[trigger] self.spec_entries()[i].0.text(), k.text()),
            forall|i: int| p <= i < self.spec_entries().len() ==> !texts_lt(#[trigger] self.spec_entries()[i].0.text(), k.text()),
    {
        proof {
            use_type_invariant(self);
        }
        let mut lo: usize = 0;
        let mut hi: usize = self.entries.len();
        while lo < hi
            invariant
                lo <= hi <= self.entries@.len(),
                text_entries_sorted(self.entries@),
                forall|i: int| 0 <= i < lo ==> texts_lt(#[trigger] self.entries@[i].0.text(), k.text()),
                forall|i: int| hi <= i < self.entries@.len() ==> !texts_lt(#[trigger] self.entries@[i].0.text(), k.text()),
            decreases hi - lo,
        {
            let mid = lo + (hi - lo) / 2;
            let c = self.entries[mid].0.compare_text(k);
            if c < 0 {
                proof {
                    assert forall|i: int| 0 <= i < mid + 1 implies texts_lt(#[trigger] self.entries@[i].0.text(), k.text()) by {
                        if i < mid {
                            lemma_texts_lt_transitive(self.entries@[i].0.text(), self.entries@[mid as int].0.text(), k.text());
                        }
                    }
                }
                lo = mid + 1;
            } else {
                proof {
                    assert forall|i: int| mid <= i < self.entries@.len() implies !texts_lt(#[trigger] self.entries@[i].0.text(), k.text()) by {
                        if i > mid && texts_lt(self.entries@[i].0.text(), k.text()) {
                            let m = self.entries@[mid as int].0.text();
                            assert(texts_lt(m, self.entries@[i].0.text()));
                            lemma_texts_lt_transitive(m, self.entries@[i].0.text(), k.text());
                        }
                    }
                }
                hi = mid;
            }
        }
        lo
    }

    /// Position of the entry with the text of `k`, if any.
    pub fn find(&self, k: &K) -> (r: Option<usize>)
        ensures
            match r {
                Some(p) => p < self.spec_entries().len() && self.spec_entries()[p as int].0.text() == k.text(),
                None => !text_entries_contain(self.spec_entries(), k.text()),
            },
    {
        proof {
            use_type_invariant(self);
        }
        let p = self.lower_bound(k);
        if p < self.entries.len() && self.entries[p].0.compare_text(k) == 0 {
            Some(p)
        } else {
            proof {
                if text_entries_contain(self.spec_entries(), k.text()) {
                    let j = choose|j: int| 0 <= j < self.spec_entries().len() && #[trigger] self.spec_entries()[j].0.text() == k.text();
                    lemma_texts_lt_irreflexive(k.text());
                    if j > p {
                        lemma_texts_lt_total(self.spec_entries()[p as int].0.text(), k.text());
                        assert(texts_lt(self.spec_entries()[p as int].0.text(), self.spec_entries()[j].0.text()));
                    }
                }
            }
            None
        }
    }

    /// The value stored under the text of `k`, if any.
    pub fn get(&self, k: &K) -> (r: Option<&V>)
        ensures
            match r {
                Some(v) => self.spec_get(k.text()) == Some(*v),
                None => self.spec_get(k.text()) is None,
            },
    {
        proof {
            use_type_invariant(self);
        }
        match self.find(k) {
            Some(p) => {
                proof {
                    lemma_text_lookup_at(self.spec_entries(), p as int);
                }
                Some(&self.entries[p].1)
            },
            None => None,
        }
    }

    /// True when some key has the text of `k`.
    pub fn contains_key(&self, k: &K) -> (b: bool)
        ensures
            b == (self.spec_get(k.text()) is Some),
    {
        self.find(k).is_some()
    }

    /// Removes the entry with the text of `k`, returning its value.
    pub fn remove(&mut self, k: &K) -> (r: Option<V>)
        ensures
            r == old(self).spec_get(k.text()),
            final(self).spec_get(k.text()) is None,
            forall|t: Seq<Seq<char>>| t != k.text() ==> #[trigger] final(self).spec_get(t) == old(self).spec_get(t),
    {
        proof {
            use_type_invariant(&*self);
        }
        match self.find(k) {
            Some(p) => {
                proof {
                    lemma_text_lookup_at(self.spec_entries(), p as int);
                }
                let ghost s0 = self.entries@;
                let mut entries: Vec<(K, V)> = Vec::new();
                std::mem::swap(&mut entries, &mut self.entries);
                let (_, v) = entries.remove(p);
                proof {
                    let s1 = entries@;
                    assert(s1 =~= s0.remove(p as int));
                    assert(text_entries_sorted(s1)) by {
                        assert forall|i: int, j: int| 0 <= i < j < s1.len() implies texts_lt(#[trigger] s1[i].0.text(), #[trigger] s1[j].0.text()) by {
                            if i < p && j >= p {
                                assert(texts_lt(s0[i].0.text(), s0[j + 1].0.text()));
                            } else if i >= p {
                                assert(texts_lt(s0[i + 1].0.text(), s0[j + 1].0.text()));
                            } else {
                                assert(texts_lt(s0[i].0.text(), s0[j].0.text()));
                            }
                        }
                    }
                    assert(!text_entries_contain(s1, k.text())) by {
                        if text_entries_contain(s1, k.text()) {
                            let j = choose|j: int| 0 <= j < s1.len() && #[trigger] s1[j].0.text() == k.text();
                            lemma_texts_lt_irreflexive(k.text());
                            if j < p {
                                assert(texts_lt(s0[j].0.text(), s0[p as int].0.text()));
                            } else {
                                assert(texts_lt(s0[p as int].0.text(), s0[j + 1].0.text()));
                            }
                        }
                    }
                    assert forall|t: Seq<Seq<char>>| t != k.text() implies #[trigger] text_entries_lookup(s1, t) == text_entries_lookup(s0, t) by {
                        if text_entries_contain(s0, t) {
                            let j = choose|j: int| 0 <= j < s0.len() && #[trigger] s0[j].0.text() == t;
                            assert(j != p);
                            lemma_text_lookup_at(s0, j);
                            let j1 = if j < p { j } else { j - 1 };
                            assert(s1[j1] == s0[j]);
                            lemma_text_lookup_at(s1, j1);
                        }
                        if text_entries_contain(s1, t) {
                            let j = choose|j: int| 0 <= j < s1.len() && #[trigger] s1[j].0.text() == t;
                            let j0 = if j < p { j } else { j + 1 };
                            assert(s0[j0] == s1[j]);
                        }
                    }
                }
                self.entries = entries;
                Some(v)
            },
            None => None,
        }
    }

    /// Stores `v` under `k`, replacing the value stored under its text.
    pub fn insert(&mut self, k: K, v: V)
        ensures
            final(self).spec_get(k.text()) == Some(v),
            forall|t: Seq<Seq<char>>| t != k.text() ==> #[trigger] final(self).spec_get(t) == old(self).spec_get(t),
    {
        let _ = self.remove(&k);
        let ghost mid: TextMap<K, V> = *self;
        proof {
            use_type_invariant(&*self);
        }
        let p = self.lower_bound(&k);
        let ghost s0 = self.entries@;
        let ghost kt = k.text();
        let ghost vv = v;
        let mut entries: Vec<(K, V)> = Vec::new();
        std::mem::swap(&mut entries, &mut self.entries);
        entries.insert(p, (k, v));
        proof {
            let s1 = entries@;
            assert(s1 =~= s0.insert(p as int, s1[p as int]));
            assert(!text_entries_contain(s0, kt));
            assert(text_entries_sorted(s1)) by {
                assert forall|i: int, j: int| 0 <= i < j < s1.len() implies texts_lt(#[trigger] s1[i].0.text(), #[trigger] s1[j].0.text()) by {
                    if j < p {
                        assert(texts_lt(s0[i].0.text(), s0[j].0.text()));
                    } else if j == p {
                    } else if i == p {
                        lemma_texts_lt_total(s0[j - 1].0.text(), kt);
                    } else if i < p {
                        assert(texts_lt(s0[i].0.text(), s0[j - 1].0.text()));
                    } else {
                        assert(texts_lt(s0[i - 1].0.text(), s0[j - 1].0.text()));
                    }
                }
            }
            lemma_text_lookup_at(s1, p as int);
            assert forall|t: Seq<Seq<char>>| t != kt implies #[trigger] text_entries_lookup(s1, t) == text_entries_lookup(s0, t) by {
                if text_entries_contain(s0, t) {
                    let j = choose|j: int| 0 <= j < s0.len() && #[trigger] s0[j].0.text() == t;
                    lemma_text_lookup_at(s0, j);
                    let j1 = if j < p { j } else { j + 1 };
                    assert(s1[j1] == s0[j]);
                    lemma_text_lookup_at(s1, j1);
                }
                if text_entries_contain(s1, t) {
                    let j = choose|j: int| 0 <= j < s1.len() && #[trigger] s1[j].0.text() == t;
                    assert(j != p);
                    let j0 = if j < p { j } else { j - 1 };
                    assert(s0[j0] == s1[j]);
                }
            }
        }
        self.entries = entries;
        proof {
            assert forall|t: Seq<Seq<char>>| t != kt implies #[trigger] self.spec_get(t) == old(self).spec_get(t) by {
                assert(mid.spec_get(t) == old(self).spec_get(t));
            }
        }
    }
}

} // verus!
