//! A keyed table: rows of a key and a value, no key twice, kept in the order
//! in which their keys first arrived. It stands for the hash maps of the
//! store; its rows give the order in which a scan meets the values.
use vstd::prelude::*;

verus! {

/// Keys that can be compared in executable code.
pub trait KeyEq: Copy + Sized {
    fn key_eq(&self, other: &Self) -> (b: bool)
        ensures
            b == (*self == *other),
    ;
}

/// Some row holds the key.
pub open spec fn has_key<K, V>(rows: Seq<(K, V)>, k: K) -> bool {
    exists|i: int| 0 <= i < rows.len() && #[trigger] rows[i].0 == k
}

/// No key stands in two rows.
pub open spec fn unique_keys<K, V>(rows: Seq<(K, V)>) -> bool {
    forall|i: int, j: int|
        0 <= i < rows.len() && 0 <= j < rows.len() && i != j ==> #[trigger] rows[i].0 != #[trigger] rows[j].0
}

/// The row that holds the key, where one does.
pub open spec fn key_index<K, V>(rows: Seq<(K, V)>, k: K) -> int {
    choose|i: int| 0 <= i < rows.len() && #[trigger] rows[i].0 == k
}

/// The value stored under a key.
pub open spec fn lookup<K, V>(rows: Seq<(K, V)>, k: K) -> Option<V> {
    if has_key(rows, k) {
        Some(rows[key_index(rows, k)].1)
    } else {
        None
    }
}

/// The rows after storing a value under a key: the row of the key takes the
/// new value where there is one, else a new row comes last.
pub open spec fn upsert<K, V>(rows: Seq<(K, V)>, k: K, v: V) -> Seq<(K, V)> {
    if has_key(rows, k) {
        rows.update(key_index(rows, k), (k, v))
    } else {
        rows.push((k, v))
    }
}

/// The values of the rows, in row order.
pub open spec fn values<K, V>(rows: Seq<(K, V)>) -> Seq<V> {
    rows.map_values(|r: (K, V)| r.1)
}

/// In rows with unique keys, the row that holds a key is the one `key_index` names.
pub proof fn lemma_key_index<K, V>(rows: Seq<(K, V)>, i: int)
    requires
        unique_keys(rows),
        0 <= i < rows.len(),
    ensures
        has_key(rows, rows[i].0),
        key_index(rows, rows[i].0) == i,
        lookup(rows, rows[i].0) == Some(rows[i].1),
{
    let k = rows[i].0;
    assert(rows[i].0 == k);
    let j = key_index(rows, k);
    assert(0 <= j < rows.len() && rows[j].0 == k);
}

/// Storing a value keeps the keys unique.
pub proof fn lemma_upsert_unique<K, V>(rows: Seq<(K, V)>, k: K, v: V)
    requires
        unique_keys(rows),
    ensures
        unique_keys(upsert(rows, k, v)),
        has_key(upsert(rows, k, v), k),
{
    let r = upsert(rows, k, v);
    if has_key(rows, k) {
        let idx = key_index(rows, k);
        assert(0 <= idx < rows.len() && rows[idx].0 == k);
        assert forall|i: int, j: int|
            0 <= i < r.len() && 0 <= j < r.len() && i != j implies #[trigger] r[i].0 != #[trigger] r[j].0 by {
            if i == idx {
                assert(rows[j].0 != rows[idx].0);
            } else if j == idx {
                assert(rows[i].0 != rows[idx].0);
            } else {
                assert(rows[i].0 != rows[j].0);
            }
        }
        assert(r[idx].0 == k);
    } else {
        assert forall|i: int, j: int|
            0 <= i < r.len() && 0 <= j < r.len() && i != j implies #[trigger] r[i].0 != #[trigger] r[j].0 by {
            if i == rows.len() {
                assert(!(rows[j].0 == k));
            } else if j == rows.len() {
                assert(!(rows[i].0 == k));
            } else {
                assert(rows[i].0 != rows[j].0);
            }
        }
        assert(r[rows.len() as int].0 == k);
    }
}

/// A read gives back what the last write under the same key stored.
pub proof fn lemma_lookup_upsert_same<K, V>(rows: Seq<(K, V)>, k: K, v: V)
    requires
        unique_keys(rows),
    ensures
        lookup(upsert(rows, k, v), k) == Some(v),
{
    lemma_upsert_unique(rows, k, v);
    let r = upsert(rows, k, v);
    if has_key(rows, k) {
        let idx = key_index(rows, k);
        assert(0 <= idx < rows.len() && rows[idx].0 == k);
        lemma_key_index(r, idx);
    } else {
        lemma_key_index(r, rows.len() as int);
    }
}

/// A write under one key leaves what is stored under every other key.
pub proof fn lemma_lookup_upsert_other<K, V>(rows: Seq<(K, V)>, k: K, v: V, other: K)
    requires
        unique_keys(rows),
        other != k,
    ensures
        lookup(upsert(rows, k, v), other) == lookup(rows, other),
        has_key(upsert(rows, k, v), other) == has_key(rows, other),
{
    lemma_upsert_unique(rows, k, v);
    let r = upsert(rows, k, v);
    if has_key(rows, other) {
        let idx = key_index(rows, other);
        assert(0 <= idx < rows.len() && rows[idx].0 == other);
        lemma_key_index(rows, idx);
        if has_key(rows, k) {
            let ki = key_index(rows, k);
            assert(0 <= ki < rows.len() && rows[ki].0 == k);
            assert(ki != idx);
            assert(r[idx] == rows[idx]);
        } else {
            assert(r[idx] == rows[idx]);
        }
        lemma_key_index(r, idx);
    } else {
        assert forall|i: int| 0 <= i < r.len() implies #[trigger] r[i].0 != other by {
            if has_key(rows, k) {
                let ki = key_index(rows, k);
                assert(0 <= ki < rows.len() && rows[ki].0 == k);
                if i != ki {
                    assert(r[i] == rows[i]);
                }
            } else if i < rows.len() {
                assert(r[i] == rows[i]);
            }
        }
    }
}


/// The rows with each value seen through a function.
pub open spec fn map_rows<K, V, W>(rows: Seq<(K, V)>, f: spec_fn(V) -> W) -> Seq<(K, W)> {
    rows.map_values(|r: (K, V)| (r.0, f(r.1)))
}

/// Seeing the values through a function changes no key.
pub proof fn lemma_map_rows_keys<K, V, W>(rows: Seq<(K, V)>, f: spec_fn(V) -> W, k: K)
    ensures
        has_key(map_rows(rows, f), k) == has_key(rows, k),
        unique_keys(map_rows(rows, f)) == unique_keys(rows),
        has_key(rows, k) ==> key_index(map_rows(rows, f), k) == key_index(rows, k) || !unique_keys(rows),
{
    let m = map_rows(rows, f);
    assert(m.len() == rows.len());
    assert forall|i: int| 0 <= i < rows.len() implies #[trigger] m[i].0 == rows[i].0 by {}
    if has_key(rows, k) {
        let i = key_index(rows, k);
        assert(m[i].0 == k);
    }
    if has_key(m, k) {
        let i = key_index(m, k);
        assert(rows[i].0 == k);
    }
    if unique_keys(rows) {
        assert forall|i: int, j: int|
            0 <= i < m.len() && 0 <= j < m.len() && i != j implies #[trigger] m[i].0 != #[trigger] m[j].0 by {
            assert(rows[i].0 != rows[j].0);
        }
        if has_key(rows, k) {
            let i = key_index(rows, k);
            let j = key_index(m, k);
            assert(m[j].0 == k && rows[j].0 == k);
            assert(rows[i].0 == k);
        }
    }
    if unique_keys(m) {
        assert forall|i: int, j: int|
            0 <= i < rows.len() && 0 <= j < rows.len() && i != j implies #[trigger] rows[i].0 != #[trigger] rows[j].0 by {
            assert(m[i].0 != m[j].0);
        }
    }
}

/// Storing a value and then seeing the values through a function is storing
/// the seen value.
pub proof fn lemma_map_rows_upsert<K, V, W>(rows: Seq<(K, V)>, f: spec_fn(V) -> W, k: K, v: V)
    requires
        unique_keys(rows),
    ensures
        map_rows(upsert(rows, k, v), f) == upsert(map_rows(rows, f), k, f(v)),
{
    lemma_map_rows_keys(rows, f, k);
    let m = map_rows(rows, f);
    if has_key(rows, k) {
        let i = key_index(rows, k);
        assert(0 <= i < rows.len() && rows[i].0 == k);
        lemma_key_index(rows, i);
        assert(m[i].0 == k);
        lemma_key_index(m, i);
        assert(map_rows(upsert(rows, k, v), f) =~= upsert(m, k, f(v)));
    } else {
        assert(map_rows(upsert(rows, k, v), f) =~= upsert(m, k, f(v)));
    }
}

/// Every row of the table after a store satisfies what every row before it
/// and the stored row satisfy.
pub proof fn lemma_upsert_forall<K, V>(rows: Seq<(K, V)>, k: K, v: V, p: spec_fn((K, V)) -> bool)
    requires
        forall|i: int| 0 <= i < rows.len() ==> #[trigger] p(rows[i]),
        p((k, v)),
    ensures
        forall|i: int| 0 <= i < upsert(rows, k, v).len() ==> #[trigger] p(upsert(rows, k, v)[i]),
{
    let r = upsert(rows, k, v);
    if has_key(rows, k) {
        let idx = key_index(rows, k);
        assert(0 <= idx < rows.len() && rows[idx].0 == k);
        assert forall|i: int| 0 <= i < r.len() implies #[trigger] p(r[i]) by {
            if i != idx {
                assert(r[i] == rows[i]);
            }
        }
    } else {
        assert forall|i: int| 0 <= i < r.len() implies #[trigger] p(r[i]) by {
            if i < rows.len() {
                assert(r[i] == rows[i]);
            }
        }
    }
}


/// A stored record that carries its own identifier and can be copied.
pub trait Record: Sized {
    type Id: KeyEq;

    spec fn spec_id(&self) -> Self::Id;

    fn id_of(&self) -> (r: Self::Id)
        ensures
            r == self.spec_id(),
    ;

    fn copy_of(&self) -> (r: Self)
        ensures
            r == *self,
    ;
}

/// The identifiers of an optional list, seen as a sequence.
pub open spec fn opt_seq<I>(ids: Option<Vec<I>>) -> Option<Seq<I>> {
    match ids {
        Some(v) => Some(v@),
        None => None,
    }
}

/// The values of the rows whose own identifier is among the given ones, in
/// row order; all values where no identifiers are given.
pub open spec fn select_rows<K, V: Record>(rows: Seq<(K, V)>, ids: Option<Seq<V::Id>>) -> Seq<V> {
    match ids {
        None => values(rows),
        Some(ids) => values(rows).filter(|v: V| ids.contains(v.spec_id())),
    }
}

/// Every row is stored under its value's own identifier.
pub open spec fn keyed_by_id<V: Record>(rows: Seq<(V::Id, V)>) -> bool {
    forall|i: int| 0 <= i < rows.len() ==> #[trigger] rows[i].0 == rows[i].1.spec_id()
}

/// A read gives back what the last write stored: in rows keyed by their
/// values' identifiers, after a value is stored under its own identifier,
/// selecting that identifier gives back just that value.
pub proof fn lemma_select_after_upsert<V: Record>(rows: Seq<(V::Id, V)>, v: V)
    requires
        unique_keys(rows),
        keyed_by_id(rows),
    ensures
        select_rows(upsert(rows, v.spec_id(), v), Some(seq![v.spec_id()])) == seq![v],
        unique_keys(upsert(rows, v.spec_id(), v)),
        keyed_by_id(upsert(rows, v.spec_id(), v)),
{
    let k = v.spec_id();
    let r = upsert(rows, k, v);
    let ids = seq![k];
    let p = |x: V| ids.contains(x.spec_id());
    lemma_upsert_unique(rows, k, v);
    let vals = values(r);
    assert forall|i: int| 0 <= i < r.len() implies #[trigger] r[i].0 == r[i].1.spec_id() by {
        if has_key(rows, k) {
            if i != key_index(rows, k) {
                assert(r[i] == rows[i]);
            }
        } else if i < rows.len() {
            assert(r[i] == rows[i]);
        }
    }
    let at = if has_key(rows, k) { key_index(rows, k) } else { rows.len() as int };
    assert(0 <= at < r.len() && r[at] == (k, v));
    assert forall|i: int| 0 <= i < r.len() && i != at implies #[trigger] r[i].1.spec_id() != k by {
        assert(r[i].0 != r[at].0);
    }
    assert(ids.contains(k)) by {
        assert(ids[0] == k);
    }
    assert(vals[at] == v);
    assert forall|i: int| 0 <= i < vals.len() && i != at implies !p(#[trigger] vals[i]) by {
        assert(vals[i] == r[i].1);
        if ids.contains(vals[i].spec_id()) {
            assert(ids[0] == vals[i].spec_id());
        }
    }
    lemma_filter_single(vals, p, at);
}

/// A read gives back what the last write stored: after a value is stored
/// under a key, the rows with that key are just the new row.
pub proof fn lemma_rows_with_key_after_upsert<K, V>(rows: Seq<(K, V)>, k: K, v: V)
    requires
        unique_keys(rows),
    ensures
        rows_with_keys(upsert(rows, k, v), Some(seq![k])) == seq![(k, v)],
{
    let r = upsert(rows, k, v);
    let p = |x: (K, V)| wanted(Some(seq![k]), x.0);
    lemma_upsert_unique(rows, k, v);
    let at = if has_key(rows, k) { key_index(rows, k) } else { rows.len() as int };
    assert(0 <= at < r.len() && r[at] == (k, v));
    assert(seq![k][0] == k);
    assert forall|i: int| 0 <= i < r.len() && i != at implies !p(#[trigger] r[i]) by {
        assert(r[i].0 != r[at].0);
        if seq![k].contains(r[i].0) {
            assert(seq![k][0] == r[i].0);
        }
    }
    lemma_filter_single(r, p, at);
}

/// Storing under a key the value it already holds changes nothing.
pub proof fn lemma_upsert_same_value<K, V>(rows: Seq<(K, V)>, k: K, v: V)
    requires
        unique_keys(rows),
        lookup(rows, k) == Some(v),
    ensures
        upsert(rows, k, v) == rows,
{
    let i = key_index(rows, k);
    assert(0 <= i < rows.len() && rows[i].0 == k);
    assert(upsert(rows, k, v) =~= rows);
}

/// Filtering a sequence in which just one item passes gives that item alone.
pub proof fn lemma_filter_single<A>(s: Seq<A>, p: spec_fn(A) -> bool, at: int)
    requires
        0 <= at < s.len(),
        p(s[at]),
        forall|i: int| 0 <= i < s.len() && i != at ==> !p(#[trigger] s[i]),
    ensures
        s.filter(p) == seq![s[at]],
    decreases s.len(),
{
    reveal(Seq::filter);
    let d = s.drop_last();
    if at == s.len() - 1 {
        assert(d.all(|x: A| !p(x))) by {
            assert forall|i: int| 0 <= i < d.len() implies !p(#[trigger] d[i]) by {
                assert(d[i] == s[i]);
            }
        }
        d.lemma_all_neg_filter_empty(p);
        assert(d.filter(p) =~= Seq::<A>::empty());
        assert(s.filter(p) == d.filter(p).push(s.last()));
        assert(seq![s[at]] =~= Seq::<A>::empty().push(s.last()));
    } else {
        assert forall|i: int| 0 <= i < d.len() && i != at implies !p(#[trigger] d[i]) by {
            assert(d[i] == s[i]);
        }
        assert(d[at] == s[at]);
        lemma_filter_single(d, p, at);
        assert(!p(s[s.len() - 1]));
        assert(s.filter(p) == d.filter(p));
    }
}

/// Whether a key is among the given ones.
pub fn contains_key_in<K: KeyEq>(ids: &Vec<K>, k: &K) -> (b: bool)
    ensures
        b == ids@.contains(*k),
{
    let mut i: usize = 0;
    while i < ids.len()
        invariant
            i <= ids@.len(),
            forall|j: int| 0 <= j < i ==> #[trigger] ids@[j] != *k,
        decreases ids@.len() - i,
    {
        if ids[i].key_eq(k) {
            assert(ids@[i as int] == *k);
            return true;
        }
        i = i + 1;
    }
    false
}

/// The values of a table, in row order.
pub fn all_values<K: KeyEq, V: Record>(t: &Table<K, V>) -> (r: Vec<V>)
    ensures
        r@ == values(t.rows()),
{
    let ghost rows = t.rows();
    let mut res: Vec<V> = Vec::new();
    let mut i: usize = 0;
    while i < t.len()
        invariant
            rows == t.rows(),
            i <= rows.len(),
            res@ == values(rows).take(i as int),
        decreases rows.len() - i,
    {
        res.push(t.value_at(i).copy_of());
        i = i + 1;
        assert(res@ =~= values(rows).take(i as int));
    }
    assert(values(rows).take(rows.len() as int) =~= values(rows));
    res
}

/// The values of a table whose own identifier is among the given ones, in
/// row order.
pub fn values_with_ids<K: KeyEq, V: Record>(t: &Table<K, V>, ids: &Vec<V::Id>) -> (r: Vec<V>)
    ensures
        r@ == values(t.rows()).filter(|v: V| ids@.contains(v.spec_id())),
{
    let ghost rows = t.rows();
    let ghost pred = |v: V| ids@.contains(v.spec_id());
    let mut res: Vec<V> = Vec::new();
    let mut i: usize = 0;
    while i < t.len()
        invariant
            rows == t.rows(),
            i <= rows.len(),
            pred == (|v: V| ids@.contains(v.spec_id())),
            res@ == values(rows).take(i as int).filter(pred),
        decreases rows.len() - i,
    {
        let v = t.value_at(i);
        proof {
            assert(values(rows).take(i + 1) =~= values(rows).take(i as int).push(*v));
            values(rows).take(i as int).lemma_filter_push(*v, pred);
        }
        if contains_key_in(ids, &v.id_of()) {
            res.push(v.copy_of());
        }
        i = i + 1;
    }
    assert(values(rows).take(rows.len() as int) =~= values(rows));
    res
}

/// The values of a table whose own identifier is among the given ones, in
/// row order; all values where no identifiers are given.
pub fn select<K: KeyEq, V: Record>(t: &Table<K, V>, ids: &Option<Vec<V::Id>>) -> (r: Vec<V>)
    ensures
        r@ == select_rows(t.rows(), opt_seq(*ids)),
{
    match ids {
        Some(list) => values_with_ids(t, list),
        None => all_values(t),
    }
}


/// The identifiers of an optional borrowed list, seen as a sequence.
pub open spec fn opt_ref_seq<I>(ids: Option<&Vec<I>>) -> Option<Seq<I>> {
    match ids {
        Some(v) => Some(v@),
        None => None,
    }
}

/// A key is wanted: it is among the given ones, or none are given.
pub open spec fn wanted<K>(ids: Option<Seq<K>>, k: K) -> bool {
    match ids {
        Some(s) => s.contains(k),
        None => true,
    }
}

/// The rows whose key is wanted, in row order.
pub open spec fn rows_with_keys<K, V>(rows: Seq<(K, V)>, ids: Option<Seq<K>>) -> Seq<(K, V)> {
    rows.filter(|r: (K, V)| wanted(ids, r.0))
}

/// The lists of the rows joined, in row order.
pub open spec fn flatten_values<K, T>(rows: Seq<(K, Seq<T>)>) -> Seq<T>
    decreases rows.len(),
{
    if rows.len() == 0 {
        Seq::empty()
    } else {
        flatten_values(rows.drop_last()) + rows.last().1
    }
}

/// A copy of a list.
pub fn copy_vec<T: Copy>(v: &Vec<T>) -> (r: Vec<T>)
    ensures
        r@ == v@,
{
    let mut r: Vec<T> = Vec::new();
    let mut i: usize = 0;
    while i < v.len()
        invariant
            i <= v@.len(),
            r@ == v@.take(i as int),
        decreases v@.len() - i,
    {
        r.push(v[i]);
        i = i + 1;
        assert(r@ =~= v@.take(i as int));
    }
    assert(v@.take(v@.len() as int) =~= v@);
    r
}

/// Whether a key is wanted.
pub fn is_wanted<K: KeyEq>(ids: Option<&Vec<K>>, k: &K) -> (b: bool)
    ensures
        b == wanted(opt_ref_seq(ids), *k),
{
    match ids {
        Some(list) => contains_key_in(list, k),
        None => true,
    }
}

/// Replacing the value of the row at an index, seen through a function, is
/// storing the seen value under the row's key; the keys stay unique.
pub proof fn lemma_map_rows_set_at<K, V, W>(rows: Seq<(K, V)>, f: spec_fn(V) -> W, i: int, v: V)
    requires
        unique_keys(rows),
        0 <= i < rows.len(),
    ensures
        unique_keys(rows.update(i, (rows[i].0, v))),
        map_rows(rows.update(i, (rows[i].0, v)), f) == upsert(map_rows(rows, f), rows[i].0, f(v)),
{
    let k = rows[i].0;
    let r1 = rows.update(i, (k, v));
    assert forall|a: int, b: int|
        0 <= a < r1.len() && 0 <= b < r1.len() && a != b implies #[trigger] r1[a].0 != #[trigger] r1[b].0 by {
        assert(r1[a].0 == rows[a].0);
        assert(r1[b].0 == rows[b].0);
    }
    lemma_map_rows_keys(rows, f, k);
    let m = map_rows(rows, f);
    assert(m[i].0 == k);
    lemma_key_index(m, i);
    assert(map_rows(r1, f) =~= upsert(m, k, f(v)));
}

/// Rows of a key and a value, no key twice.
pub struct Table<K, V> {
    entries: Vec<(K, V)>,
}

impl<K: KeyEq, V> Table<K, V> {
    /// The rows, in the order of their keys' first arrival.
    pub closed spec fn rows(&self) -> Seq<(K, V)> {
        self.entries@
    }

    /// No key stands in two rows.
    pub open spec fn wf(&self) -> bool {
        unique_keys(self.rows())
    }

    /// An empty table.
    pub fn new() -> (t: Self)
        ensures
            t.rows() == Seq::<(K, V)>::empty(),
            t.wf(),
    {
        Table { entries: Vec::new() }
    }

    /// The number of rows.
    pub fn len(&self) -> (n: usize)
        ensures
            n == self.rows().len(),
    {
        self.entries.len()
    }

    /// The key of a row.
    pub fn key_at(&self, i: usize) -> (k: K)
        requires
            i < self.rows().len(),
        ensures
            k == self.rows()[i as int].0,
    {
        self.entries[i].0
    }

    /// The value of a row.
    pub fn value_at(&self, i: usize) -> (v: &V)
        requires
            i < self.rows().len(),
        ensures
            *v == self.rows()[i as int].1,
    {
        &self.entries[i].1
    }

    /// The row that holds a key.
    pub fn find(&self, k: &K) -> (r: Option<usize>)
        ensures
            match r {
                Some(i) => i < self.rows().len() && self.rows()[i as int].0 == *k,
                None => !has_key(self.rows(), *k),
            },
    {
        let mut i: usize = 0;
        while i < self.entries.len()
            invariant
                i <= self.entries@.len(),
                forall|j: int| 0 <= j < i ==> #[trigger] self.entries@[j].0 != *k,
            decreases self.entries@.len() - i,
        {
            if self.entries[i].0.key_eq(k) {
                return Some(i);
            }
            i = i + 1;
        }
        None
    }

    /// Whether some row holds the key.
    pub fn contains_key(&self, k: &K) -> (b: bool)
        ensures
            b == has_key(self.rows(), *k),
    {
        self.find(k).is_some()
    }

    /// The value stored under a key.
    pub fn get(&self, k: &K) -> (r: Option<&V>)
        requires
            self.wf(),
        ensures
            match r {
                Some(v) => lookup(self.rows(), *k) == Some(*v),
                None => lookup(self.rows(), *k) == None::<V>,
            },
    {
        match self.find(k) {
            Some(i) => {
                proof {
                    lemma_key_index(self.rows(), i as int);
                }
                Some(&self.entries[i].1)
            },
            None => None,
        }
    }

    /// Stores a value under a key, in place of the one stored there before.
    pub fn insert(&mut self, k: K, v: V)
        requires
            old(self).wf(),
        ensures
            final(self).rows() == upsert(old(self).rows(), k, v),
            final(self).wf(),
    {
        proof {
            lemma_upsert_unique(self.rows(), k, v);
        }
        match self.find(&k) {
            Some(i) => {
                proof {
                    lemma_key_index(self.rows(), i as int);
                }
                self.entries.set(i, (k, v));
            },
            None => {
                self.entries.push((k, v));
            },
        }
    }

    /// Replaces the value of a row, keeping its key.
    pub fn set_value_at(&mut self, i: usize, v: V)
        requires
            i < old(self).rows().len(),
        ensures
            final(self).rows() == old(self).rows().update(i as int, (old(self).rows()[i as int].0, v)),
            old(self).wf() ==> final(self).wf(),
    {
        proof {
            let rows = self.rows();
            let r1 = rows.update(i as int, (rows[i as int].0, v));
            if unique_keys(rows) {
                assert forall|a: int, b: int|
                    0 <= a < r1.len() && 0 <= b < r1.len() && a != b implies #[trigger] r1[a].0 != #[trigger] r1[b].0 by {
                    assert(r1[a].0 == rows[a].0);
                    assert(r1[b].0 == rows[b].0);
                }
            }
        }
        let k = self.entries[i].0;
        self.entries.set(i, (k, v));
    }
}

} // verus!
