//! A table keyed by text, kept in the order of its keys.
//!
//! It stands where an ordered map keyed by strings is wanted: a key occurs
//! once, and the entries are walked from the smallest key up.

use crate::text::text_eq;
use crate::text::text_lt;
use crate::text::text_lt_exec;
use vstd::prelude::*;

verus! {

/// The first index at or after `i` whose key is not below `k`, or the length.
pub open spec fn lower_bound<W>(m: Seq<(Seq<char>, W)>, k: Seq<char>, i: int) -> int
    decreases m.len() - i,
{
    if 0 <= i < m.len() && text_lt(m[i].0, k) {
        lower_bound(m, k, i + 1)
    } else {
        i
    }
}

/// Where `k` stands in the table, if it is a key of it.
pub open spec fn position<W>(m: Seq<(Seq<char>, W)>, k: Seq<char>) -> Option<int> {
    let p = lower_bound(m, k, 0);
    if 0 <= p < m.len() && m[p].0 == k {
        Some(p)
    } else {
        None
    }
}

/// What the table holds under `k`.
pub open spec fn lookup<W>(m: Seq<(Seq<char>, W)>, k: Seq<char>) -> Option<W> {
    match position(m, k) {
        Some(p) => Some(m[p].1),
        None => None,
    }
}

/// The table with `w` under `k`: in place of what was there, or as a new
/// entry before the first greater key.
pub open spec fn upsert<W>(m: Seq<(Seq<char>, W)>, k: Seq<char>, w: W) -> Seq<(Seq<char>, W)> {
    let p = lower_bound(m, k, 0);
    if 0 <= p < m.len() && m[p].0 == k {
        m.update(p, (k, w))
    } else if 0 <= p <= m.len() {
        m.insert(p, (k, w))
    } else {
        m
    }
}

/// Whether the keys stand in strictly ascending order.
pub open spec fn ascending<W>(m: Seq<(Seq<char>, W)>) -> bool {
    forall|i: int, j: int| 0 <= i < j < m.len() ==> text_lt(#[trigger] m[i].0, #[trigger] m[j].0)
}

pub proof fn lemma_lower_bound<W>(m: Seq<(Seq<char>, W)>, k: Seq<char>, i: int)
    requires
        0 <= i <= m.len(),
    ensures
        i <= lower_bound(m, k, i) <= m.len(),
        lower_bound(m, k, i) < m.len() ==> !text_lt(m[lower_bound(m, k, i)].0, k),
        forall|j: int| i <= j < lower_bound(m, k, i) ==> text_lt(#[trigger] m[j].0, k),
    decreases m.len() - i,
{
    if i < m.len() && text_lt(m[i].0, k) {
        lemma_lower_bound(m, k, i + 1);
    }
}

pub proof fn lemma_text_lt_irreflexive(a: Seq<char>)
    ensures
        !text_lt(a, a),
    decreases a.len(),
{
    if a.len() > 0 {
        lemma_text_lt_irreflexive(a.subrange(1, a.len() as int));
    }
}

pub proof fn lemma_text_lt_transitive(a: Seq<char>, b: Seq<char>, c: Seq<char>)
    requires
        text_lt(a, b),
        text_lt(b, c),
    ensures
        text_lt(a, c),
    decreases a.len(),
{
    if a.len() > 0 && b.len() > 0 && c.len() > 0 && a[0] == b[0] && b[0] == c[0] {
        lemma_text_lt_transitive(
            a.subrange(1, a.len() as int),
            b.subrange(1, b.len() as int),
            c.subrange(1, c.len() as int),
        );
    }
}

pub proof fn lemma_text_lt_total(a: Seq<char>, b: Seq<char>)
    ensures
        text_lt(a, b) || a == b || text_lt(b, a),
    decreases a.len(),
{
    if a.len() > 0 && b.len() > 0 && a[0] == b[0] {
        let ra = a.subrange(1, a.len() as int);
        let rb = b.subrange(1, b.len() as int);
        lemma_text_lt_total(ra, rb);
        if ra == rb {
            assert(a =~= seq![a[0]] + ra);
            assert(b =~= seq![b[0]] + rb);
        }
    } else if a.len() == 0 && b.len() == 0 {
        assert(a =~= b);
    }
}

/// An ordered table keeps its order, and its keys stay apart, when an entry
/// is put into it.
pub proof fn lemma_upsert_ascending<W>(m: Seq<(Seq<char>, W)>, k: Seq<char>, w: W)
    requires
        ascending(m),
    ensures
        ascending(upsert(m, k, w)),
        lookup(upsert(m, k, w), k) == Some(w),
{
    lemma_lower_bound(m, k, 0);
    let p = lower_bound(m, k, 0);
    let r = upsert(m, k, w);
    if p < m.len() && m[p].0 == k {
        assert(forall|i: int| 0 <= i < r.len() ==> (#[trigger] r[i]).0 == m[i].0);
        assert(lower_bound(r, k, 0) == p) by {
            lemma_lower_bound(r, k, 0);
            lemma_text_lt_irreflexive(k);
            let q = lower_bound(r, k, 0);
            if q < p {
                assert(r[q].0 == m[q].0);
                assert(text_lt(m[q].0, k));
            }
            if q > p {
                assert(r[p].0 == k);
                assert(text_lt(r[p].0, k));
            }
        }
    } else {
        assert forall|i: int, j: int| 0 <= i < j < r.len() implies text_lt(
            #[trigger] r[i].0,
            #[trigger] r[j].0,
        ) by {
            if j < p {
                assert(r[i] == m[i] && r[j] == m[j]);
            } else if j == p {
                assert(r[i] == m[i]);
            } else if i == p {
                assert(r[j] == m[j - 1]);
                lemma_text_lt_total(m[p].0, k);
                if j - 1 > p {
                    assert(text_lt(m[p].0, m[j - 1].0));
                    lemma_text_lt_transitive(k, m[p].0, m[j - 1].0);
                }
            } else if i < p {
                assert(r[i] == m[i] && r[j] == m[j - 1]);
            } else {
                assert(r[i] == m[i - 1] && r[j] == m[j - 1]);
            }
        }
        assert(lower_bound(r, k, 0) == p) by {
            lemma_lower_bound(r, k, 0);
            lemma_text_lt_irreflexive(k);
            let q = lower_bound(r, k, 0);
            if q < p {
                assert(r[q] == m[q]);
                assert(text_lt(m[q].0, k));
            }
            if q > p {
                assert(r[p].0 == k);
                assert(text_lt(r[p].0, k));
            }
        }
    }
}

/// The table without the entry of `k`.
pub open spec fn without_key<W>(m: Seq<(Seq<char>, W)>, k: Seq<char>) -> Seq<(Seq<char>, W)> {
    match position(m, k) {
        Some(p) => m.remove(p),
        None => m,
    }
}

/// An entry that comes after all entries of an ordered table goes to its
/// end.
pub proof fn lemma_upsert_at_end<W>(m: Seq<(Seq<char>, W)>, k: Seq<char>, w: W)
    requires
        forall|j: int| 0 <= j < m.len() ==> text_lt(#[trigger] m[j].0, k),
    ensures
        upsert(m, k, w) == m.push((k, w)),
{
    lemma_lower_bound(m, k, 0);
    let p = lower_bound(m, k, 0);
    if p < m.len() {
        assert(text_lt(m[p].0, k));
    }
    assert(m.insert(m.len() as int, (k, w)) =~= m.push((k, w)));
}

/// Where the first key that is not below `k` stands, by what stands before
/// and there.
pub proof fn lemma_lower_bound_is<W>(m: Seq<(Seq<char>, W)>, k: Seq<char>, i: int, n: int)
    requires
        0 <= i <= n <= m.len(),
        forall|j: int| i <= j < n ==> text_lt(#[trigger] m[j].0, k),
        n < m.len() ==> !text_lt(m[n].0, k),
    ensures
        lower_bound(m, k, i) == n,
    decreases n - i,
{
    if i < n {
        lemma_lower_bound_is(m, k, i + 1, n);
    }
}

/// An ordered table stays ordered when an entry is taken out of it.
pub proof fn lemma_remove_ascending<W>(m: Seq<(Seq<char>, W)>, p: int)
    requires
        ascending(m),
        0 <= p < m.len(),
    ensures
        ascending(m.remove(p)),
{
    let r = m.remove(p);
    assert forall|i: int, j: int| 0 <= i < j < r.len() implies text_lt(
        #[trigger] r[i].0,
        #[trigger] r[j].0,
    ) by {
        let a = if i < p {
            i
        } else {
            i + 1
        };
        let b = if j < p {
            j
        } else {
            j + 1
        };
        assert(r[i] == m[a] && r[j] == m[b]);
    }
}

/// A table from text to `V`, walked in the order of its keys. The keys stand
/// in ascending order, so a key is found by halving.
#[derive(Debug)]
pub struct TextMap<V: View> {
    items: Vec<(Vec<char>, V)>,
}

impl<V: View> View for TextMap<V> {
    type V = Seq<(Seq<char>, V::V)>;

    closed spec fn view(&self) -> Seq<(Seq<char>, V::V)> {
        entries(self.items@)
    }
}

/// The views of the entries of a table.
spec fn entries<V: View>(items: Seq<(Vec<char>, V)>) -> Seq<(Seq<char>, V::V)> {
    items.map_values(|e: (Vec<char>, V)| (e.0@, e.1@))
}

/// Puts `value` in place of what stands at index `i`, under the same key.
fn replace_at<V: View>(items: &mut Vec<(Vec<char>, V)>, i: usize, value: V)
    requires
        i < old(items)@.len(),
    ensures
        entries(final(items)@) == entries(old(items)@).update(
            i as int,
            (old(items)@[i as int].0@, value@),
        ),
{
    let last: usize = items.len() - 1;
    if i == last {
        let gone = items.pop();
        match gone {
            Some((key, _)) => items.push((key, value)),
            None => {},
        }
    } else {
        let (key, _) = items.swap_remove(i);
        items.push((key, value));
        let moved = items.swap_remove(i);
        items.push(moved);
    }
    assert(entries(items@) =~= entries(old(items)@).update(
        i as int,
        (old(items)@[i as int].0@, value@),
    ));
}

impl<V: View> TextMap<V> {
    #[verifier::type_invariant]
    closed spec fn inv(self) -> bool {
        ascending(self@)
    }

    /// Recalls that the keys of the table stand in ascending order.
    pub fn ordered(&self)
        ensures
            ascending(self@),
    {
        proof {
            use_type_invariant(self);
        }
    }

    pub fn new() -> (r: Self)
        ensures
            r@ == Seq::<(Seq<char>, V::V)>::empty(),
    {
        let items: Vec<(Vec<char>, V)> = Vec::new();
        assert(entries(items@) =~= Seq::<(Seq<char>, V::V)>::empty());
        TextMap { items }
    }

    pub fn len(&self) -> (r: usize)
        ensures
            r == self@.len(),
    {
        self.items.len()
    }

    pub fn is_empty(&self) -> (r: bool)
        ensures
            r == (self@.len() == 0),
    {
        self.items.len() == 0
    }

    /// The first index whose key is not below `key`, found by halving.
    pub fn lower_bound(&self, key: &[char]) -> (r: usize)
        ensures
            r == lower_bound(self@, key@, 0),
            r <= self@.len(),
    {
        proof {
            use_type_invariant(self);
        }
        let mut lo: usize = 0;
        let mut hi: usize = self.items.len();
        while lo < hi
            invariant
                lo <= hi <= self@.len(),
                ascending(self@),
                forall|j: int| 0 <= j < lo ==> text_lt(#[trigger] self@[j].0, key@),
                forall|j: int| hi <= j < self@.len() ==> !text_lt(#[trigger] self@[j].0, key@),
            decreases hi - lo,
        {
            let mid: usize = lo + (hi - lo) / 2;
            if text_lt_exec(self.items[mid].0.as_slice(), key) {
                assert forall|j: int| 0 <= j < mid + 1 implies text_lt(
                    #[trigger] self@[j].0,
                    key@,
                ) by {
                    if j < mid {
                        assert(text_lt(self@[j].0, self@[mid as int].0));
                        lemma_text_lt_transitive(self@[j].0, self@[mid as int].0, key@);
                    }
                }
                lo = mid + 1;
            } else {
                assert forall|j: int| mid <= j < self@.len() implies !text_lt(
                    #[trigger] self@[j].0,
                    key@,
                ) by {
                    if j > mid && text_lt(self@[j].0, key@) {
                        assert(text_lt(self@[mid as int].0, self@[j].0));
                        lemma_text_lt_transitive(self@[mid as int].0, self@[j].0, key@);
                    }
                }
                hi = mid;
            }
        }
        proof {
            lemma_lower_bound_is(self@, key@, 0, lo as int);
        }
        lo
    }

    /// Where `key` stands, if it is a key of the table.
    pub fn index_of(&self, key: &[char]) -> (r: Option<usize>)
        ensures
            match r {
                Some(p) => position(self@, key@) == Some(p as int) && p < self@.len(),
                None => position(self@, key@) is None,
            },
    {
        let p = self.lower_bound(key);
        if p < self.items.len() && text_eq(self.items[p].0.as_slice(), key) {
            Some(p)
        } else {
            None
        }
    }

    pub fn contains_key(&self, key: &[char]) -> (r: bool)
        ensures
            r == lookup(self@, key@) is Some,
    {
        self.index_of(key).is_some()
    }

    /// What the table holds under `key`.
    pub fn get(&self, key: &[char]) -> (r: Option<&V>)
        ensures
            match r {
                Some(v) => lookup(self@, key@) == Some(v@),
                None => lookup(self@, key@) is None,
            },
    {
        match self.index_of(key) {
            Some(p) => Some(&self.items[p].1),
            None => None,
        }
    }

    pub fn key_at(&self, i: usize) -> (r: &Vec<char>)
        requires
            i < self@.len(),
        ensures
            r@ == self@[i as int].0,
    {
        &self.items[i].0
    }

    pub fn value_at(&self, i: usize) -> (r: &V)
        requires
            i < self@.len(),
        ensures
            r@ == self@[i as int].1,
    {
        &self.items[i].1
    }

    /// Puts `value` under `key`: in place of what was there, or as a new
    /// entry.
    pub fn insert(&mut self, key: Vec<char>, value: V)
        ensures
            final(self)@ == upsert(old(self)@, key@, value@),
    {
        proof {
            use_type_invariant(&*self);
            lemma_upsert_ascending(self@, key@, value@);
        }
        let p = self.lower_bound(key.as_slice());
        let found = p < self.items.len() && text_eq(
            self.items[p].0.as_slice(),
            key.as_slice(),
        );
        let mut items: Vec<(Vec<char>, V)> = Vec::new();
        assert(entries(items@) =~= Seq::<(Seq<char>, V::V)>::empty());
        std::mem::swap(&mut self.items, &mut items);
        if found {
            replace_at(&mut items, p, value);
        } else {
            items.insert(p, (key, value));
            assert(entries(items@) =~= old(self)@.insert(p as int, (key@, value@)));
        }
        std::mem::swap(&mut self.items, &mut items);
    }

    /// Takes the entry with the smallest key out of the table.
    pub fn pop_first(&mut self) -> (r: Option<(Vec<char>, V)>)
        ensures
            match r {
                Some(e) => old(self)@.len() > 0 && (e.0@, e.1@) == old(self)@[0] && final(self)@
                    == old(self)@.drop_first(),
                None => old(self)@.len() == 0 && final(self)@ == old(self)@,
            },
    {
        if self.items.len() == 0 {
            return None;
        }
        proof {
            use_type_invariant(&*self);
            lemma_remove_ascending(self@, 0);
            assert(self@.remove(0) =~= self@.drop_first());
        }
        let mut items: Vec<(Vec<char>, V)> = Vec::new();
        assert(entries(items@) =~= Seq::<(Seq<char>, V::V)>::empty());
        std::mem::swap(&mut self.items, &mut items);
        let e = items.remove(0);
        assert(entries(items@) =~= old(self)@.drop_first());
        std::mem::swap(&mut self.items, &mut items);
        Some(e)
    }

    /// Takes the entry of `key` out of the table.
    pub fn remove(&mut self, key: &[char]) -> (r: Option<V>)
        ensures
            final(self)@ == without_key(old(self)@, key@),
            match r {
                Some(v) => lookup(old(self)@, key@) == Some(v@),
                None => lookup(old(self)@, key@) is None,
            },
    {
        match self.index_of(key) {
            Some(p) => {
                proof {
                    use_type_invariant(&*self);
                    lemma_remove_ascending(self@, p as int);
                }
                let mut items: Vec<(Vec<char>, V)> = Vec::new();
                assert(entries(items@) =~= Seq::<(Seq<char>, V::V)>::empty());
                std::mem::swap(&mut self.items, &mut items);
                let (_, v) = items.remove(p);
                assert(entries(items@) =~= old(self)@.remove(p as int));
                std::mem::swap(&mut self.items, &mut items);
                Some(v)
            },
            None => None,
        }
    }
}

/// Every key of a table after an entry is put into it is the key of that
/// entry or a key that the table had.
pub proof fn lemma_upsert_keys<W>(m: Seq<(Seq<char>, W)>, k: Seq<char>, w: W, i: int)
    requires
        0 <= i < upsert(m, k, w).len(),
    ensures
        upsert(m, k, w)[i].0 == k || exists|j: int|
            0 <= j < m.len() && (#[trigger] m[j]).0 == upsert(m, k, w)[i].0,
{
    lemma_lower_bound(m, k, 0);
    let p = lower_bound(m, k, 0);
    let r = upsert(m, k, w);
    if p < m.len() && m[p].0 == k {
        if i != p {
            assert(m[i].0 == r[i].0);
        }
    } else {
        if i < p {
            assert(m[i].0 == r[i].0);
        } else if i > p {
            assert(m[i - 1].0 == r[i].0);
        }
    }
}

} // verus!
