//! `Fields`: a map from byte-string names to byte-string values that keeps the
//! order in which names were first added. Request headers, query parameters,
//! form data, response headers and CGI variables are all held in it.
use vstd::prelude::*;

verus! {

/// Whether some entry of `s` has the name `k`.
pub open spec fn has_key(s: Seq<(Seq<u8>, Seq<u8>)>, k: Seq<u8>) -> bool {
    exists|i: int| 0 <= i < s.len() && #[trigger] s[i].0 == k
}

/// The value of some entry named `k` (the only one, where names are distinct).
pub open spec fn value_for(s: Seq<(Seq<u8>, Seq<u8>)>, k: Seq<u8>) -> Seq<u8> {
    s[choose|i: int| 0 <= i < s.len() && #[trigger] s[i].0 == k].1
}

/// The map that a sequence of distinct-named entries stands for.
pub open spec fn as_map(s: Seq<(Seq<u8>, Seq<u8>)>) -> Map<Seq<u8>, Seq<u8>> {
    Map::new(|k: Seq<u8>| has_key(s, k), |k: Seq<u8>| value_for(s, k))
}

/// No two entries share a name.
pub open spec fn distinct_keys(s: Seq<(Seq<u8>, Seq<u8>)>) -> bool {
    forall|i: int, j: int| 0 <= i < s.len() && 0 <= j < s.len() && i != j ==> s[i].0 != s[j].0
}

/// Position of the entry named `k`, or `s.len()` when there is none.
pub open spec fn key_index(s: Seq<(Seq<u8>, Seq<u8>)>, k: Seq<u8>, from: int) -> int
    decreases s.len() - from,
{
    if from >= s.len() {
        s.len() as int
    } else if s[from].0 == k {
        from
    } else {
        key_index(s, k, from + 1)
    }
}

/// The entries after `k` is set to `v`: the entry named `k` changes in place, or a new
/// entry goes last.
pub open spec fn set_entry(s: Seq<(Seq<u8>, Seq<u8>)>, k: Seq<u8>, v: Seq<u8>) -> Seq<
    (Seq<u8>, Seq<u8>),
> {
    let i = key_index(s, k, 0);
    if i < s.len() {
        s.update(i, (k, v))
    } else {
        s.push((k, v))
    }
}

/// The entries after the one named `k`, if any, is taken out.
pub open spec fn drop_entry(s: Seq<(Seq<u8>, Seq<u8>)>, k: Seq<u8>) -> Seq<(Seq<u8>, Seq<u8>)> {
    let i = key_index(s, k, 0);
    if i < s.len() {
        s.remove(i)
    } else {
        s
    }
}

/// The map that results from setting each pair in turn, later pairs winning.
pub open spec fn fold_pairs(pairs: Seq<(Seq<u8>, Seq<u8>)>) -> Map<Seq<u8>, Seq<u8>>
    decreases pairs.len(),
{
    if pairs.len() == 0 {
        Map::empty()
    } else {
        fold_pairs(pairs.drop_last()).insert(pairs.last().0, pairs.last().1)
    }
}

pub proof fn lemma_key_index(s: Seq<(Seq<u8>, Seq<u8>)>, k: Seq<u8>, from: int)
    requires
        0 <= from <= s.len(),
    ensures
        from <= key_index(s, k, from) <= s.len(),
        key_index(s, k, from) < s.len() ==> s[key_index(s, k, from)].0 == k,
        forall|j: int| from <= j < key_index(s, k, from) ==> s[j].0 != k,
    decreases s.len() - from,
{
    if from < s.len() && s[from].0 != k {
        lemma_key_index(s, k, from + 1);
    }
}

pub proof fn lemma_has_key_index(s: Seq<(Seq<u8>, Seq<u8>)>, k: Seq<u8>)
    ensures
        has_key(s, k) <==> key_index(s, k, 0) < s.len(),
{
    lemma_key_index(s, k, 0);
    if has_key(s, k) {
        let i = choose|i: int| 0 <= i < s.len() && #[trigger] s[i].0 == k;
        assert(s[i].0 == k);
    } else if key_index(s, k, 0) < s.len() {
        assert(s[key_index(s, k, 0)].0 == k);
    }
}

pub proof fn lemma_value_at(s: Seq<(Seq<u8>, Seq<u8>)>, i: int)
    requires
        distinct_keys(s),
        0 <= i < s.len(),
    ensures
        has_key(s, s[i].0),
        as_map(s).contains_key(s[i].0),
        as_map(s)[s[i].0] == s[i].1,
{
    let k = s[i].0;
    assert(s[i].0 == k);
    let j = choose|j: int| 0 <= j < s.len() && #[trigger] s[j].0 == k;
    assert(j == i);
}

pub proof fn lemma_set_entry(s: Seq<(Seq<u8>, Seq<u8>)>, k: Seq<u8>, v: Seq<u8>)
    requires
        distinct_keys(s),
    ensures
        distinct_keys(set_entry(s, k, v)),
        as_map(set_entry(s, k, v)) == as_map(s).insert(k, v),
{
    lemma_key_index(s, k, 0);
    lemma_has_key_index(s, k);
    let t = set_entry(s, k, v);
    let i = key_index(s, k, 0);
    assert(distinct_keys(t));
    assert forall|q: Seq<u8>| #[trigger] has_key(t, q) == (q == k || has_key(s, q)) by {
        if q == k {
            if i < s.len() {
                assert(t[i].0 == k);
            } else {
                assert(t[s.len() as int].0 == k);
            }
        }
        if has_key(s, q) {
            let j = choose|j: int| 0 <= j < s.len() && #[trigger] s[j].0 == q;
            if q != k {
                assert(t[j].0 == q);
            }
        }
        if has_key(t, q) && q != k {
            let j = choose|j: int| 0 <= j < t.len() && #[trigger] t[j].0 == q;
            assert(s[j].0 == q);
        }
    }
    assert forall|q: Seq<u8>| has_key(t, q) implies #[trigger] value_for(t, q) == as_map(s).insert(
        k,
        v,
    )[q] by {
        let j = choose|j: int| 0 <= j < t.len() && #[trigger] t[j].0 == q;
        lemma_value_at(t, j);
        if q != k {
            assert(s[j].0 == q);
            lemma_value_at(s, j);
        } else {
            if i < s.len() {
                assert(t[i].0 == k);
                assert(j == i);
            } else {
                assert(t[s.len() as int].0 == k);
                assert(j == s.len());
            }
        }
    }
    assert(as_map(t) =~= as_map(s).insert(k, v));
}

pub proof fn lemma_drop_entry(s: Seq<(Seq<u8>, Seq<u8>)>, k: Seq<u8>)
    requires
        distinct_keys(s),
    ensures
        distinct_keys(drop_entry(s, k)),
        as_map(drop_entry(s, k)) == as_map(s).remove(k),
{
    lemma_key_index(s, k, 0);
    lemma_has_key_index(s, k);
    let t = drop_entry(s, k);
    let i = key_index(s, k, 0);
    if i < s.len() {
        assert forall|a: int, b: int|
            0 <= a < t.len() && 0 <= b < t.len() && a != b implies t[a].0 != t[b].0 by {
            let sa = if a < i {
                a
            } else {
                a + 1
            };
            let sb = if b < i {
                b
            } else {
                b + 1
            };
            assert(t[a] == s[sa]);
            assert(t[b] == s[sb]);
        }
        assert forall|q: Seq<u8>| #[trigger] has_key(t, q) == (q != k && has_key(s, q)) by {
            if has_key(s, q) && q != k {
                let j = choose|j: int| 0 <= j < s.len() && #[trigger] s[j].0 == q;
                assert(j != i);
                if j < i {
                    assert(t[j].0 == q);
                } else {
                    assert(t[j - 1].0 == q);
                }
            }
            if has_key(t, q) {
                let j = choose|j: int| 0 <= j < t.len() && #[trigger] t[j].0 == q;
                let sj = if j < i {
                    j
                } else {
                    j + 1
                };
                assert(t[j] == s[sj]);
                assert(s[sj].0 == q);
                assert(sj != i);
            }
        }
        assert forall|q: Seq<u8>| has_key(t, q) implies #[trigger] value_for(t, q) == as_map(
            s,
        )[q] by {
            let j = choose|j: int| 0 <= j < t.len() && #[trigger] t[j].0 == q;
            lemma_value_at(t, j);
            let sj = if j < i {
                j
            } else {
                j + 1
            };
            assert(t[j] == s[sj]);
            lemma_value_at(s, sj);
        }
        assert(as_map(t) =~= as_map(s).remove(k));
    } else {
        assert(!has_key(s, k));
        assert(as_map(t) =~= as_map(s).remove(k));
    }
}

/// The entries of `other` whose names `base` does not have, in their order.
pub open spec fn missing_from(base: Seq<(Seq<u8>, Seq<u8>)>, other: Seq<(Seq<u8>, Seq<u8>)>) -> Seq<
    (Seq<u8>, Seq<u8>),
>
    decreases other.len(),
{
    if other.len() == 0 {
        Seq::empty()
    } else {
        let r = missing_from(base, other.drop_last());
        if has_key(base, other.last().0) {
            r
        } else {
            r.push(other.last())
        }
    }
}

proof fn lemma_missing_keys(base: Seq<(Seq<u8>, Seq<u8>)>, other: Seq<(Seq<u8>, Seq<u8>)>)
    ensures
        forall|j: int|
            0 <= j < missing_from(base, other).len() ==> !has_key(base, #[trigger] missing_from(
                base,
                other,
            )[j].0) && has_key(other, missing_from(base, other)[j].0),
    decreases other.len(),
{
    if other.len() > 0 {
        let o = other.drop_last();
        lemma_missing_keys(base, o);
        let r = missing_from(base, o);
        assert forall|j: int| 0 <= j < r.len() implies has_key(other, #[trigger] r[j].0) by {
            assert(has_key(o, r[j].0));
            let i = choose|i: int| 0 <= i < o.len() && #[trigger] o[i].0 == r[j].0;
            assert(other[i].0 == r[j].0);
        }
        assert(other[other.len() - 1].0 == other.last().0);
    }
}

/// The views of a vector of name/value vectors.
pub open spec fn pairs_view(v: Seq<(Vec<u8>, Vec<u8>)>) -> Seq<(Seq<u8>, Seq<u8>)> {
    v.map_values(|p: (Vec<u8>, Vec<u8>)| (p.0@, p.1@))
}

proof fn lemma_pairs_view_push(v: Seq<(Vec<u8>, Vec<u8>)>, x: (Vec<u8>, Vec<u8>))
    ensures
        pairs_view(v.push(x)) == pairs_view(v).push((x.0@, x.1@)),
{
    assert(pairs_view(v.push(x)) =~= pairs_view(v).push((x.0@, x.1@)));
}

proof fn lemma_missing_contains(base: Seq<(Seq<u8>, Seq<u8>)>, other: Seq<(Seq<u8>, Seq<u8>)>, t: int)
    requires
        0 <= t < other.len(),
        !has_key(base, other[t].0),
    ensures
        exists|j: int| 0 <= j < missing_from(base, other).len() && #[trigger] missing_from(base, other)[j] == other[t],
    decreases other.len(),
{
    let o = other.drop_last();
    if t < other.len() - 1 {
        assert(o[t] == other[t]);
        lemma_missing_contains(base, o, t);
        let j = choose|j: int| 0 <= j < missing_from(base, o).len() && #[trigger] missing_from(base, o)[j] == o[t];
        assert(missing_from(base, other)[j] == other[t]);
    } else {
        let m = missing_from(base, other);
        assert(m[m.len() - 1] == other[t]);
    }
}

proof fn lemma_missing_members(base: Seq<(Seq<u8>, Seq<u8>)>, other: Seq<(Seq<u8>, Seq<u8>)>, j: int)
    requires
        0 <= j < missing_from(base, other).len(),
    ensures
        exists|t: int| 0 <= t < other.len() && #[trigger] other[t] == missing_from(base, other)[j],
    decreases other.len(),
{
    let o = other.drop_last();
    let r = missing_from(base, o);
    if j < r.len() {
        lemma_missing_members(base, o, j);
        let t = choose|t: int| 0 <= t < o.len() && #[trigger] o[t] == r[j];
        assert(other[t] == o[t]);
    } else {
        assert(other[other.len() - 1] == missing_from(base, other)[j]);
    }
}

proof fn lemma_missing_distinct(base: Seq<(Seq<u8>, Seq<u8>)>, other: Seq<(Seq<u8>, Seq<u8>)>)
    requires
        distinct_keys(other),
    ensures
        distinct_keys(missing_from(base, other)),
    decreases other.len(),
{
    if other.len() > 0 {
        let o = other.drop_last();
        assert(distinct_keys(o)) by {
            assert forall|i: int, j: int|
                0 <= i < o.len() && 0 <= j < o.len() && i != j implies o[i].0 != o[j].0 by {
                assert(o[i] == other[i]);
                assert(o[j] == other[j]);
            }
        }
        lemma_missing_distinct(base, o);
        lemma_missing_keys(base, o);
        let r = missing_from(base, o);
        if !has_key(base, other.last().0) {
            let m = r.push(other.last());
            assert forall|i: int, j: int|
                0 <= i < m.len() && 0 <= j < m.len() && i != j implies m[i].0 != m[j].0 by {
                if i == r.len() && j < r.len() {
                    assert(has_key(o, r[j].0));
                    let t = choose|t: int| 0 <= t < o.len() && #[trigger] o[t].0 == r[j].0;
                    assert(other[t].0 == o[t].0);
                    assert(other[other.len() - 1].0 == other.last().0);
                } else if j == r.len() && i < r.len() {
                    assert(has_key(o, r[i].0));
                    let t = choose|t: int| 0 <= t < o.len() && #[trigger] o[t].0 == r[i].0;
                    assert(other[t].0 == o[t].0);
                    assert(other[other.len() - 1].0 == other.last().0);
                } else {
                    assert(m[i] == r[i]);
                    assert(m[j] == r[j]);
                }
            }
        }
    }
}

/// Adding the entries of `other` whose names `base` lacks keeps the names distinct and
/// gives the map of `other` overridden by that of `base`.
pub proof fn lemma_merge(base: Seq<(Seq<u8>, Seq<u8>)>, other: Seq<(Seq<u8>, Seq<u8>)>)
    requires
        distinct_keys(base),
        distinct_keys(other),
    ensures
        distinct_keys(base + missing_from(base, other)),
        as_map(base + missing_from(base, other)) == as_map(other).union_prefer_right(as_map(base)),
{
    let m = missing_from(base, other);
    let t = base + m;
    lemma_missing_keys(base, other);
    lemma_missing_distinct(base, other);
    assert forall|i: int, j: int|
        0 <= i < t.len() && 0 <= j < t.len() && i != j implies t[i].0 != t[j].0 by {
        if i < base.len() && j < base.len() {
        } else if i < base.len() {
            assert(t[j] == m[j - base.len()]);
            assert(!has_key(base, m[j - base.len()].0));
            assert(base[i].0 == t[i].0);
        } else if j < base.len() {
            assert(t[i] == m[i - base.len()]);
            assert(!has_key(base, m[i - base.len()].0));
            assert(base[j].0 == t[j].0);
        } else {
            assert(t[i] == m[i - base.len()]);
            assert(t[j] == m[j - base.len()]);
        }
    }
    assert forall|q: Seq<u8>| #[trigger] has_key(t, q) == (has_key(base, q) || has_key(other, q)) by {
        if has_key(base, q) {
            let j = choose|j: int| 0 <= j < base.len() && #[trigger] base[j].0 == q;
            assert(t[j].0 == q);
        }
        if has_key(other, q) && !has_key(base, q) {
            let k = choose|k: int| 0 <= k < other.len() && #[trigger] other[k].0 == q;
            lemma_missing_contains(base, other, k);
            let j = choose|j: int| 0 <= j < m.len() && #[trigger] m[j] == other[k];
            assert(t[base.len() + j].0 == q);
        }
        if has_key(t, q) {
            let j = choose|j: int| 0 <= j < t.len() && #[trigger] t[j].0 == q;
            if j < base.len() {
                assert(base[j].0 == q);
            } else {
                assert(m[j - base.len()].0 == q);
            }
        }
    }
    assert forall|q: Seq<u8>| has_key(t, q) implies #[trigger] value_for(t, q) == as_map(
        other,
    ).union_prefer_right(as_map(base))[q] by {
        let j = choose|j: int| 0 <= j < t.len() && #[trigger] t[j].0 == q;
        lemma_value_at(t, j);
        if j < base.len() {
            assert(base[j] == t[j]);
            lemma_value_at(base, j);
        } else {
            let e = m[j - base.len()];
            assert(e == t[j]);
            lemma_missing_members(base, other, j - base.len());
            let k = choose|k: int| 0 <= k < other.len() && #[trigger] other[k] == e;
            lemma_value_at(other, k);
            assert(!has_key(base, e.0));
        }
    }
    assert(as_map(t) =~= as_map(other).union_prefer_right(as_map(base)));
}

/// Names mapped to values, in the order in which names were first added.
pub struct Fields {
    entries: Vec<(Vec<u8>, Vec<u8>)>,
}

impl View for Fields {
    type V = Seq<(Seq<u8>, Seq<u8>)>;

    closed spec fn view(&self) -> Seq<(Seq<u8>, Seq<u8>)> {
        pairs_view(self.entries@)
    }
}

impl Fields {
    #[verifier::type_invariant]
    spec fn inv(&self) -> bool {
        distinct_keys(self@)
    }

    /// The map the entries stand for.
    pub open spec fn map(&self) -> Map<Seq<u8>, Seq<u8>> {
        as_map(self@)
    }

    /// An empty collection.
    pub fn new() -> (r: Self)
        ensures
            r@ == Seq::<(Seq<u8>, Seq<u8>)>::empty(),
    {
        let r = Fields { entries: Vec::new() };
        assert(r@ =~= Seq::<(Seq<u8>, Seq<u8>)>::empty());
        r
    }

    pub fn len(&self) -> (r: usize)
        ensures
            r == self@.len(),
    {
        self.entries.len()
    }

    pub fn is_empty(&self) -> (r: bool)
        ensures
            r == (self@.len() == 0),
    {
        self.entries.len() == 0
    }

    /// The name of entry `i`.
    pub fn key_at(&self, i: usize) -> (r: &Vec<u8>)
        requires
            i < self@.len(),
        ensures
            r@ == self@[i as int].0,
    {
        &self.entries[i].0
    }

    /// The value of entry `i`.
    pub fn value_at(&self, i: usize) -> (r: &Vec<u8>)
        requires
            i < self@.len(),
        ensures
            r@ == self@[i as int].1,
    {
        &self.entries[i].1
    }

    /// Position of the entry named `k`, or the number of entries.
    pub fn position(&self, k: &[u8]) -> (r: usize)
        ensures
            r == key_index(self@, k@, 0),
    {
        let mut i: usize = 0;
        while i < self.entries.len()
            invariant
                i <= self@.len(),
                self@.len() == self.entries@.len(),
                key_index(self@, k@, i as int) == key_index(self@, k@, 0),
            decreases self.entries.len() - i,
        {
            if crate::text::bytes_eq(self.entries[i].0.as_slice(), k) {
                assert(self@[i as int].0 == self.entries@[i as int].0@);
                return i;
            }
            assert(self@[i as int].0 == self.entries@[i as int].0@);
            i += 1;
        }
        i
    }

    /// The value of `k`, if it has one.
    pub fn get(&self, k: &[u8]) -> (r: Option<&Vec<u8>>)
        ensures
            match r {
                Some(v) => self.map().contains_key(k@) && self.map()[k@] == v@,
                None => !self.map().contains_key(k@),
            },
    {
        proof {
            use_type_invariant(self);
        }
        let i = self.position(k);
        proof {
            lemma_key_index(self@, k@, 0);
            lemma_has_key_index(self@, k@);
        }
        if i < self.entries.len() {
            proof {
                lemma_value_at(self@, i as int);
            }
            Some(&self.entries[i].1)
        } else {
            None
        }
    }

    pub fn contains_key(&self, k: &[u8]) -> (r: bool)
        ensures
            r == self.map().contains_key(k@),
    {
        proof {
            lemma_has_key_index(self@, k@);
        }
        self.position(k) < self.entries.len()
    }

    /// Sets `k` to `v`, giving back the value it had.
    pub fn insert(&mut self, k: Vec<u8>, v: Vec<u8>) -> (r: Option<Vec<u8>>)
        ensures
            final(self)@ == set_entry(old(self)@, k@, v@),
            final(self).map() == old(self).map().insert(k@, v@),
            match r {
                Some(o) => old(self).map().contains_key(k@) && old(self).map()[k@] == o@,
                None => !old(self).map().contains_key(k@),
            },
    {
        proof {
            use_type_invariant(&*self);
            lemma_key_index(self@, k@, 0);
            lemma_has_key_index(self@, k@);
            lemma_set_entry(self@, k@, v@);
        }
        let i = self.position(k.as_slice());
        let ghost target = set_entry(self@, k@, v@);
        if i < self.entries.len() {
            proof {
                lemma_value_at(self@, i as int);
            }
            let mut entries: Vec<(Vec<u8>, Vec<u8>)> = Vec::new();
            std::mem::swap(&mut entries, &mut self.entries);
            let ghost before = entries@;
            let old_pair = entries.remove(i);
            entries.insert(i, (k, v));
            assert(pairs_view(entries@) =~= target);
            self.entries = entries;
            Some(old_pair.1)
        } else {
            let mut entries: Vec<(Vec<u8>, Vec<u8>)> = Vec::new();
            std::mem::swap(&mut entries, &mut self.entries);
            entries.push((k, v));
            assert(pairs_view(entries@) =~= target);
            self.entries = entries;
            None
        }
    }

    /// A copy of the entries.
    pub fn duplicate(&self) -> (r: Fields)
        ensures
            r@ == self@,
    {
        proof {
            use_type_invariant(self);
        }
        let mut entries: Vec<(Vec<u8>, Vec<u8>)> = Vec::new();
        let mut i: usize = 0;
        while i < self.entries.len()
            invariant
                i <= self.entries@.len(),
                pairs_view(entries@) == self@.subrange(0, i as int),
            decreases self.entries.len() - i,
        {
            let k = crate::text::copy_range(self.entries[i].0.as_slice(), 0, self.entries[i].0.len());
            let v = crate::text::copy_range(self.entries[i].1.as_slice(), 0, self.entries[i].1.len());
            assert(k@ == self.entries[i as int].0@);
            assert(v@ == self.entries[i as int].1@);
            assert(self@[i as int] == (k@, v@));
            proof {
                lemma_pairs_view_push(entries@, (k, v));
            }
            entries.push((k, v));
            assert(self@.subrange(0, i + 1) == self@.subrange(0, i as int).push(self@[i as int]));
            i += 1;
        }
        assert(self@.subrange(0, i as int) =~= self@);
        Fields { entries }
    }

    /// Adds, in order, the entries of `other` whose names are not here yet.
    pub fn extend_missing(&mut self, other: &Fields)
        ensures
            final(self)@ == old(self)@ + missing_from(old(self)@, other@),
            final(self).map() == other.map().union_prefer_right(old(self).map()),
    {
        proof {
            use_type_invariant(other);
            use_type_invariant(&*self);
        }
        let ghost base = self@;
        let mut i: usize = 0;
        while i < other.entries.len()
            invariant
                i <= other@.len(),
                other@.len() == other.entries@.len(),
                distinct_keys(other@),
                distinct_keys(base),
                distinct_keys(self@),
                self@ == base + missing_from(base, other@.subrange(0, i as int)),
            decreases other.entries.len() - i,
        {
            let ghost pre = other@.subrange(0, i as int);
            let ghost next = other@.subrange(0, i + 1);
            assert(next.drop_last() == pre);
            assert(next.last() == other@[i as int]);
            let ghost k = other@[i as int].0;
            proof {
                lemma_missing_keys(base, pre);
                lemma_has_key_index(self@, k);
                lemma_key_index(self@, k, 0);
            }
            assert(other@[i as int].0 == other.entries@[i as int].0@);
            assert(other@[i as int].1 == other.entries@[i as int].1@);
            let here = self.contains_key(other.entries[i].0.as_slice());
            if !here {
                assert(!has_key(base, k)) by {
                    if has_key(base, k) {
                        let j = choose|j: int| 0 <= j < base.len() && #[trigger] base[j].0 == k;
                        assert(self@[j].0 == k);
                    }
                }
                let kk = crate::text::copy_range(other.entries[i].0.as_slice(), 0, other.entries[i].0.len());
                let vv = crate::text::copy_range(other.entries[i].1.as_slice(), 0, other.entries[i].1.len());
                proof {
                    lemma_set_entry(self@, kk@, vv@);
                }
                let ghost cur = self@;
                assert((kk@, vv@) == other@[i as int]);
                self.insert(kk, vv);
                assert(self@ == cur.push(other@[i as int]));
                assert(missing_from(base, next) == missing_from(base, pre).push(other@[i as int]));
                assert(self@ == base + missing_from(base, next));
            } else {
                assert(has_key(base, k)) by {
                    let j = choose|j: int| 0 <= j < self@.len() && #[trigger] self@[j].0 == k;
                    if j >= base.len() {
                        let m = missing_from(base, pre);
                        assert(m[j - base.len()].0 == k);
                        assert(has_key(pre, k));
                        let t = choose|t: int| 0 <= t < pre.len() && #[trigger] pre[t].0 == k;
                        assert(other@[t].0 == other@[i as int].0);
                    }
                }
                assert(self@ == base + missing_from(base, next));
            }
            i += 1;
        }
        assert(other@.subrange(0, i as int) == other@);
        proof {
            lemma_merge(base, other@);
        }
    }

    /// Removes `k`, giving back the value it had.
    pub fn remove(&mut self, k: &[u8]) -> (r: Option<Vec<u8>>)
        ensures
            final(self)@ == drop_entry(old(self)@, k@),
            final(self).map() == old(self).map().remove(k@),
            match r {
                Some(o) => old(self).map().contains_key(k@) && old(self).map()[k@] == o@,
                None => !old(self).map().contains_key(k@),
            },
    {
        proof {
            use_type_invariant(&*self);
            lemma_key_index(self@, k@, 0);
            lemma_has_key_index(self@, k@);
            lemma_drop_entry(self@, k@);
        }
        let i = self.position(k);
        let ghost target = drop_entry(self@, k@);
        if i < self.entries.len() {
            proof {
                lemma_value_at(self@, i as int);
            }
            let mut entries: Vec<(Vec<u8>, Vec<u8>)> = Vec::new();
            std::mem::swap(&mut entries, &mut self.entries);
            let old_pair = entries.remove(i);
            assert(pairs_view(entries@) =~= target);
            self.entries = entries;
            Some(old_pair.1)
        } else {
            None
        }
    }
}

} // verus!
