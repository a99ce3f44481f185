//! A small map that remembers the order of insertion.
//!
//! Its model is the sequence of its entries. Keys are unique, so the first
//! entry for a key is the only one.
use crate::text::Dup;
use vstd::prelude::*;

verus! {

/// The position of the first entry for `k` at or after `i`, or the length.
pub open spec fn position<K, V>(s: Seq<(K, V)>, k: K, i: int) -> int
    decreases s.len() - i,
{
    if i < 0 || i >= s.len() {
        s.len() as int
    } else if s[i].0 == k {
        i
    } else {
        position(s, k, i + 1)
    }
}

/// The value stored for `k`.
pub open spec fn find<K, V>(s: Seq<(K, V)>, k: K) -> Option<V> {
    let i = position(s, k, 0);
    if i < s.len() {
        Some(s[i].1)
    } else {
        None
    }
}

/// Whether there is an entry for `k`.
pub open spec fn holds<K, V>(s: Seq<(K, V)>, k: K) -> bool {
    find(s, k) is Some
}

/// The entries after storing `v` for `k`: the value of an existing entry is
/// replaced where it stands, a new entry goes to the end.
pub open spec fn put<K, V>(s: Seq<(K, V)>, k: K, v: V) -> Seq<(K, V)> {
    let i = position(s, k, 0);
    if i < s.len() {
        s.update(i, (k, v))
    } else {
        s.push((k, v))
    }
}

/// No two entries have the same key.
pub open spec fn distinct<K, V>(s: Seq<(K, V)>) -> bool {
    forall|i: int, j: int| 0 <= i < j < s.len() ==> (#[trigger] s[i]).0 != (#[trigger] s[j]).0
}

pub proof fn lemma_position<K, V>(s: Seq<(K, V)>, k: K, i: int)
    requires
        0 <= i <= s.len(),
    ensures
        i <= position(s, k, i) <= s.len(),
        position(s, k, i) < s.len() ==> s[position(s, k, i)].0 == k,
        forall|j: int| i <= j < position(s, k, i) ==> (#[trigger] s[j]).0 != k,
    decreases s.len() - i,
{
    if i < s.len() && s[i].0 != k {
        lemma_position(s, k, i + 1);
    }
}

/// The position is the first index whose key is `k`.
pub proof fn lemma_position_is<K, V>(s: Seq<(K, V)>, k: K, p: int)
    requires
        0 <= p <= s.len(),
        p < s.len() ==> s[p].0 == k,
        forall|j: int| 0 <= j < p ==> (#[trigger] s[j]).0 != k,
    ensures
        position(s, k, 0) == p,
{
    lemma_position(s, k, 0);
    let q = position(s, k, 0);
    if q < p {
        assert(s[q].0 != k);
    }
    if p < q {
        assert(s[p].0 != k);
    }
}

/// What is stored under a key is found under it.
pub proof fn law_find_after_put<K, V>(s: Seq<(K, V)>, k: K, v: V)
    ensures
        find(put(s, k, v), k) == Some(v),
{
    lemma_position(s, k, 0);
    let i = position(s, k, 0);
    let t = put(s, k, v);
    assert(t[i] == (k, v));
    assert forall|j: int| 0 <= j < i implies (#[trigger] t[j]).0 != k by {
        assert(t[j] == s[j]);
    }
    lemma_position_is(t, k, i);
}

/// Storing under one key leaves every other key as it was.
pub proof fn law_put_keeps_others<K, V>(s: Seq<(K, V)>, k: K, v: V, other: K)
    requires
        other != k,
    ensures
        find(put(s, k, v), other) == find(s, other),
{
    lemma_position(s, k, 0);
    lemma_position(s, other, 0);
    let i = position(s, k, 0);
    let t = put(s, k, v);
    let p = position(s, other, 0);
    assert forall|j: int| 0 <= j < p implies (#[trigger] t[j]).0 != other by {
        if j != i {
            assert(t[j] == s[j]);
        }
    }
    if p < s.len() {
        assert(p != i);
        assert(t[p] == s[p]);
        lemma_position_is(t, other, p);
    } else {
        assert forall|j: int| 0 <= j < t.len() implies (#[trigger] t[j]).0 != other by {
            if j != i {
                assert(t[j] == s[j]);
            }
        }
        lemma_position_is(t, other, t.len() as int);
    }
}

/// Storing never makes two entries for one key.
pub proof fn law_put_keeps_distinct<K, V>(s: Seq<(K, V)>, k: K, v: V)
    requires
        distinct(s),
    ensures
        distinct(put(s, k, v)),
{
    lemma_position(s, k, 0);
    let i = position(s, k, 0);
    let t = put(s, k, v);
    assert forall|a: int, b: int| 0 <= a < b < t.len() implies (#[trigger] t[a]).0 != (
    #[trigger] t[b]).0 by {
        if i < s.len() {
            assert(t[a].0 == s[a].0);
            assert(t[b].0 == s[b].0);
        } else {
            assert(t[a] == s[a]);
            if b < s.len() {
                assert(t[b] == s[b]);
            }
        }
    }
}

/// Values that can be compared for equality of what they hold.
pub trait Key: DeepView + Sized {
    fn same(&self, other: &Self) -> (r: bool)
        ensures
            r == (self.deep_view() == other.deep_view()),
    ;
}

impl Key for String {
    fn same(&self, other: &Self) -> (r: bool) {
        *self == *other
    }
}

impl Key for usize {
    fn same(&self, other: &Self) -> (r: bool) {
        *self == *other
    }
}

impl<A: Key, B: Key> Key for (A, B) {
    fn same(&self, other: &Self) -> (r: bool) {
        self.0.same(&other.0) && self.1.same(&other.1)
    }
}

/// A map from keys to values, in order of insertion.
#[derive(Debug)]
pub struct Table<K, V> {
    pub entries: Vec<(K, V)>,
}

impl<K: DeepView, V: DeepView> View for Table<K, V> {
    type V = Seq<(K::V, V::V)>;

    open spec fn view(&self) -> Seq<(K::V, V::V)> {
        self.entries.deep_view()
    }
}

impl<K: DeepView, V: DeepView> DeepView for Table<K, V> {
    type V = Seq<(K::V, V::V)>;

    open spec fn deep_view(&self) -> Seq<(K::V, V::V)> {
        self.entries.deep_view()
    }
}

impl<K: Key, V: DeepView> Table<K, V> {
    pub fn new() -> (r: Self)
        ensures
            r@ == Seq::<(K::V, V::V)>::empty(),
    {
        let r = Table { entries: Vec::new() };
        assert(r@ =~= Seq::<(K::V, V::V)>::empty());
        r
    }

    /// The position of the entry for `k`, or the number of entries.
    pub fn position(&self, k: &K) -> (r: usize)
        ensures
            r as int == position(self@, k.deep_view(), 0),
            r <= self.entries.len(),
            self@.len() == self.entries.len(),
    {
        let mut i: usize = 0;
        while i < self.entries.len()
            invariant
                i <= self.entries.len(),
                position(self@, k.deep_view(), 0) == position(self@, k.deep_view(), i as int),
            decreases self.entries.len() - i,
        {
            if self.entries[i].0.same(k) {
                return i;
            }
            i += 1;
        }
        i
    }

    pub fn get(&self, k: &K) -> (r: Option<&V>)
        ensures
            r.deep_view() == find(self@, k.deep_view()),
    {
        let i: usize = self.position(k);
        if i < self.entries.len() {
            Some(&self.entries[i].1)
        } else {
            None
        }
    }

    pub fn has(&self, k: &K) -> (r: bool)
        ensures
            r == holds(self@, k.deep_view()),
    {
        self.position(k) < self.entries.len()
    }

    pub fn put(&mut self, k: K, v: V)
        ensures
            final(self)@ == put(old(self)@, k.deep_view(), v.deep_view()),
    {
        let i: usize = self.position(&k);
        if i < self.entries.len() {
            self.entries.set(i, (k, v));
        } else {
            self.entries.push((k, v));
        }
        assert(self@ =~= put(old(self)@, k.deep_view(), v.deep_view()));
    }

    pub fn len(&self) -> (r: usize)
        ensures
            r == self@.len(),
    {
        self.entries.len()
    }
}

/// The table stored for `k`, or an empty one.
pub open spec fn inner<K, J, V>(s: Seq<(K, Seq<(J, V)>)>, k: K) -> Seq<(J, V)> {
    match find(s, k) {
        Some(t) => t,
        None => Seq::empty(),
    }
}

/// The entries after storing `v` for `j` in the table stored for `k`.
pub open spec fn put_inner<K, J, V>(s: Seq<(K, Seq<(J, V)>)>, k: K, j: J, v: V) -> Seq<
    (K, Seq<(J, V)>),
> {
    put(s, k, put(inner(s, k), j, v))
}

/// A value for a new key goes to the end.
pub proof fn lemma_put_new<K, V>(s: Seq<(K, V)>, k: K, v: V)
    requires
        !holds(s, k),
    ensures
        put(s, k, v) == s.push((k, v)),
{
    lemma_position(s, k, 0);
}

/// What is found under a key stands in some entry.
pub proof fn lemma_found<K, V>(s: Seq<(K, V)>, k: K) -> (i: int)
    requires
        holds(s, k),
    ensures
        0 <= i < s.len(),
        s[i] == (k, find(s, k)->0),
{
    lemma_position(s, k, 0);
    position(s, k, 0)
}

/// A key that an entry has is found.
pub proof fn lemma_holds<K, V>(s: Seq<(K, V)>, i: int)
    requires
        0 <= i < s.len(),
    ensures
        holds(s, s[i].0),
{
    lemma_position(s, s[i].0, 0);
    if position(s, s[i].0, 0) >= s.len() {
        assert(s[i].0 != s[i].0);
    }
}

/// With distinct keys, an entry is what is found under its key.
pub proof fn lemma_distinct_found<K, V>(s: Seq<(K, V)>, i: int)
    requires
        distinct(s),
        0 <= i < s.len(),
    ensures
        find(s, s[i].0) == Some(s[i].1),
{
    assert forall|j: int| 0 <= j < i implies (#[trigger] s[j]).0 != s[i].0 by {}
    lemma_position_is(s, s[i].0, i);
}

/// The keys of a table, in order.
pub open spec fn keys<K, V>(s: Seq<(K, V)>) -> Seq<K> {
    Seq::new(s.len(), |i: int| s[i].0)
}

pub proof fn lemma_keys_hold<K, V>(s: Seq<(K, V)>, k: K)
    ensures
        keys(s).contains(k) <==> holds(s, k),
{
    if holds(s, k) {
        let i = lemma_found(s, k);
        assert(keys(s)[i] == k);
    }
    if keys(s).contains(k) {
        let i = choose|i: int| 0 <= i < keys(s).len() && keys(s)[i] == k;
        lemma_holds(s, i);
    }
}

/// Different names from a pool are no more than the pool.
pub proof fn lemma_pigeonhole<T>(names: Seq<T>, pool: Seq<T>)
    requires
        names.no_duplicates(),
        forall|i: int| 0 <= i < names.len() ==> pool.contains(#[trigger] names[i]),
    ensures
        names.len() <= pool.len(),
{
    names.unique_seq_to_set();
    pool.lemma_cardinality_of_set();
    assert forall|x: T| #[trigger] names.to_set().contains(x) implies pool.to_set().contains(x) by {
        let i = choose|i: int| 0 <= i < names.len() && names[i] == x;
        assert(pool.contains(names[i]));
    }
    vstd::seq_lib::seq_to_set_is_finite(pool);
    vstd::set_lib::lemma_len_subset(names.to_set(), pool.to_set());
}

/// Storing under a key that the inner table does not have yet appends to the
/// inner table, or makes one.
pub proof fn lemma_put_inner_new<K, J, V>(s: Seq<(K, Seq<(J, V)>)>, k: K, j: J, v: V) -> (p: int)
    requires
        !holds(inner(s, k), j),
    ensures
        0 <= p <= s.len(),
        p < s.len() ==> s[p].0 == k && put_inner(s, k, j, v) == s.update(
            p,
            (k, s[p].1.push((j, v))),
        ),
        p == s.len() ==> put_inner(s, k, j, v) == s.push((k, seq![(j, v)])),
{
    lemma_position(s, k, 0);
    lemma_put_new(inner(s, k), j, v);
    let p = position(s, k, 0);
    if p == s.len() {
        assert(Seq::<(J, V)>::empty().push((j, v)) =~= seq![(j, v)]);
    }
    p
}

/// No key twice, neither outside nor inside.
pub open spec fn tables_distinct<K, J, V>(s: Seq<(K, Seq<(J, V)>)>) -> bool {
    distinct(s) && forall|i: int| 0 <= i < s.len() ==> distinct((#[trigger] s[i]).1)
}

/// Storing in an inner table never makes two entries for one key.
pub proof fn law_put_inner_keeps_distinct<K, J, V>(s: Seq<(K, Seq<(J, V)>)>, k: K, j: J, v: V)
    requires
        tables_distinct(s),
    ensures
        tables_distinct(put_inner(s, k, j, v)),
{
    lemma_position(s, k, 0);
    let t = put(inner(s, k), j, v);
    law_put_keeps_distinct(inner(s, k), j, v);
    law_put_keeps_distinct(s, k, t);
    let r = put_inner(s, k, j, v);
    assert forall|i: int| 0 <= i < r.len() implies distinct((#[trigger] r[i]).1) by {
        if r[i] != (k, t) {
            assert(r[i] == s[i]);
        }
    }
}

/// What is found under two keys.
pub open spec fn find_inner<K, J, V>(s: Seq<(K, Seq<(J, V)>)>, k: K, j: J) -> Option<V> {
    find(inner(s, k), j)
}

/// What was stored under two keys is found under them.
pub proof fn law_find_after_put_inner<K, J, V>(s: Seq<(K, Seq<(J, V)>)>, k: K, j: J, v: V)
    ensures
        find_inner(put_inner(s, k, j, v), k, j) == Some(v),
{
    law_find_after_put(inner(s, k), j, v);
    law_find_after_put(s, k, put(inner(s, k), j, v));
}

/// Storing under two keys changes nothing else.
pub proof fn law_put_inner_keeps_others<K, J, V>(
    s: Seq<(K, Seq<(J, V)>)>,
    k: K,
    j: J,
    v: V,
    other: (K, J),
)
    requires
        other != (k, j),
    ensures
        find_inner(put_inner(s, k, j, v), other.0, other.1) == find_inner(s, other.0, other.1),
{
    let t = put(inner(s, k), j, v);
    if other.0 == k {
        law_put_keeps_others(inner(s, k), j, v, other.1);
        law_find_after_put(s, k, t);
    } else {
        law_put_keeps_others(s, k, t, other.0);
    }
}

/// With distinct keys, the last entry is found under its key, and the others
/// as if it were not there.
pub proof fn lemma_find_take<K, V>(s: Seq<(K, V)>, n: int, k: K)
    requires
        distinct(s),
        0 < n <= s.len(),
    ensures
        find(s.take(n), k) == if s[n - 1].0 == k {
            Some(s[n - 1].1)
        } else {
            find(s.take(n - 1), k)
        },
{
    let a = s.take(n - 1);
    let b = s.take(n);
    assert(distinct(a));
    assert(distinct(b));
    assert(b =~= a.push(s[n - 1]));
    if s[n - 1].0 == k {
        lemma_distinct_found(b, n - 1);
    } else if holds(a, k) {
        let i = lemma_found(a, k);
        assert(b[i] == a[i]);
        lemma_distinct_found(b, i);
    } else if holds(b, k) {
        let i = lemma_found(b, k);
        assert(a[i] == b[i]);
        lemma_holds(a, i);
    }
}

impl<K: Key, J: Key, V: DeepView> Table<K, Table<J, V>> {
    /// Stores `v` for `j` in the table stored for `k`, which is made if there
    /// is none.
    pub fn put_inner(&mut self, k: K, j: J, v: V)
        ensures
            final(self)@ == put_inner(old(self)@, k.deep_view(), j.deep_view(), v.deep_view()),
    {
        let i: usize = self.position(&k);
        if i < self.entries.len() {
            let ghost before = self@;
            assert(before[i as int] == self.entries[i as int].deep_view());
            self.entries[i].1.put(j, v);
            proof {
                lemma_position(before, k.deep_view(), 0);
            }
            assert(self@ =~= put_inner(old(self)@, k.deep_view(), j.deep_view(), v.deep_view()));
        } else {
            let mut t: Table<J, V> = Table::new();
            t.put(j, v);
            self.put(k, t);
        }
    }
}

impl<K: Dup, V: Dup> Dup for Table<K, V> {
    fn dup(&self) -> (r: Self) {
        Table { entries: self.entries.dup() }
    }
}

} // verus!
