//! An in-memory table of rows kept in ascending order of their `u64`
//! primary key, with at most one row per key; adding a row whose key is
//! taken keeps the row there.
//!
//! The database is stored with light-magic, whose `Table` behaves so. Its
//! methods ask the row type for serde's `Serialize` and `Deserialize`,
//! which the types of this library do not have (serde derives are not
//! available to verified code, and another crate cannot give them to these
//! types); rustc refuses `Table::<Birthday>::add` here for that reason. The
//! tables of the library are therefore its own, and the program's storage
//! layer converts them to light-magic's tables and back.

use vstd::prelude::*;

verus! {

/// A row of a [`Table`]: it has a `u64` primary key, read from its view.
pub trait Row: View + Sized {
    /// The primary key of a row's view.
    spec fn key_of(v: Self::V) -> u64;

    /// The primary key of this row.
    fn key(&self) -> (k: u64)
        ensures
            k == Self::key_of(self@),
    ;
}

/// The keys of `s` strictly increase.
pub open spec fn sorted<V: Row>(s: Seq<V::V>) -> bool {
    forall|i: int, j: int| 0 <= i < j < s.len() ==> V::key_of(s[i]) < V::key_of(s[j])
}

/// Some row of `s` has key `k`.
pub open spec fn has_key<V: Row>(s: Seq<V::V>, k: u64) -> bool {
    exists|i: int| 0 <= i < s.len() && V::key_of(s[i]) == k
}

/// Index of the row with key `k` in `s`, or -1.
pub open spec fn row_index<V: Row>(s: Seq<V::V>, k: u64) -> int
    decreases s.len(),
{
    if s.len() == 0 {
        -1
    } else if V::key_of(s[0]) == k {
        0
    } else {
        let r = row_index::<V>(s.drop_first(), k);
        if r < 0 {
            -1
        } else {
            r + 1
        }
    }
}

/// The row with key `k`, if there is one.
pub open spec fn lookup<V: Row>(s: Seq<V::V>, k: u64) -> Option<V::V> {
    let i = row_index::<V>(s, k);
    if i < 0 {
        None
    } else {
        Some(s[i])
    }
}

/// `s` with `v` inserted before the first row of greater key.
pub open spec fn sorted_insert<V: Row>(s: Seq<V::V>, v: V::V) -> Seq<V::V>
    decreases s.len(),
{
    if s.len() == 0 {
        seq![v]
    } else if V::key_of(v) < V::key_of(s[0]) {
        seq![v] + s
    } else {
        seq![s[0]] + sorted_insert::<V>(s.drop_first(), v)
    }
}

/// `s` without its rows of key `k`.
pub open spec fn remove_key<V: Row>(s: Seq<V::V>, k: u64) -> Seq<V::V>
    decreases s.len(),
{
    if s.len() == 0 {
        s
    } else if V::key_of(s[0]) == k {
        remove_key::<V>(s.drop_first(), k)
    } else {
        seq![s[0]] + remove_key::<V>(s.drop_first(), k)
    }
}

/// `s` after adding `v` as a table does: unchanged if its key is taken.
pub open spec fn add_row<V: Row>(s: Seq<V::V>, v: V::V) -> Seq<V::V> {
    if has_key::<V>(s, V::key_of(v)) {
        s
    } else {
        sorted_insert::<V>(s, v)
    }
}

/// `row_index` finds the row of key `k`.
pub proof fn lemma_row_index<V: Row>(s: Seq<V::V>, k: u64)
    ensures
        -1 <= row_index::<V>(s, k) < s.len(),
        row_index::<V>(s, k) == -1 <==> !has_key::<V>(s, k),
        row_index::<V>(s, k) >= 0 ==> V::key_of(s[row_index::<V>(s, k)]) == k,
    decreases s.len(),
{
    if s.len() > 0 {
        lemma_row_index::<V>(s.drop_first(), k);
        if V::key_of(s[0]) != k {
            if has_key::<V>(s, k) {
                let i = choose|i: int| 0 <= i < s.len() && V::key_of(s[i]) == k;
                assert(V::key_of(s.drop_first()[i - 1]) == k);
            }
            if has_key::<V>(s.drop_first(), k) {
                let i = choose|i: int|
                    0 <= i < s.drop_first().len() && V::key_of(s.drop_first()[i]) == k;
                assert(V::key_of(s[i + 1]) == k);
            }
        } else {
            assert(V::key_of(s[0]) == k);
        }
    }
}

/// In a sorted table, the row of key `k` is the only one with that key.
pub proof fn lemma_row_index_unique<V: Row>(s: Seq<V::V>, k: u64, i: int)
    requires
        sorted::<V>(s),
        0 <= i < s.len(),
        V::key_of(s[i]) == k,
    ensures
        row_index::<V>(s, k) == i,
{
    lemma_row_index::<V>(s, k);
}

/// Removing a key present once in a sorted table removes its index.
pub proof fn lemma_remove_key_at<V: Row>(s: Seq<V::V>, k: u64, i: int)
    requires
        sorted::<V>(s),
        0 <= i < s.len(),
        V::key_of(s[i]) == k,
    ensures
        remove_key::<V>(s, k) == s.remove(i),
    decreases s.len(),
{
    if i == 0 {
        lemma_remove_key_absent::<V>(s.drop_first(), k);
        assert(s.drop_first() == s.remove(0));
    } else {
        assert(V::key_of(s[0]) < V::key_of(s[i]));
        lemma_remove_key_at::<V>(s.drop_first(), k, i - 1);
        assert(seq![s[0]] + s.drop_first().remove(i - 1) == s.remove(i));
    }
}

/// Removing a key that no row has changes nothing.
pub proof fn lemma_remove_key_absent<V: Row>(s: Seq<V::V>, k: u64)
    requires
        forall|j: int| 0 <= j < s.len() ==> V::key_of(s[j]) != k,
    ensures
        remove_key::<V>(s, k) == s,
    decreases s.len(),
{
    if s.len() > 0 {
        lemma_remove_key_absent::<V>(s.drop_first(), k);
        assert(seq![s[0]] + s.drop_first() == s);
    }
}

/// Inserting at the first position of greater key is `sorted_insert`.
pub proof fn lemma_sorted_insert_at<V: Row>(s: Seq<V::V>, v: V::V, p: int)
    requires
        0 <= p <= s.len(),
        forall|j: int| 0 <= j < p ==> V::key_of(s[j]) < V::key_of(v),
        forall|j: int| p <= j < s.len() ==> V::key_of(v) < V::key_of(s[j]),
    ensures
        sorted_insert::<V>(s, v) == s.insert(p, v),
    decreases s.len(),
{
    if s.len() == 0 {
        assert(s.insert(0, v) == seq![v]);
    } else if p == 0 {
        assert(s.insert(0, v) == seq![v] + s);
    } else {
        lemma_sorted_insert_at::<V>(s.drop_first(), v, p - 1);
        assert(seq![s[0]] + s.drop_first().insert(p - 1, v) == s.insert(p, v));
    }
}

/// Every row after an insertion was inserted or was there before.
pub proof fn lemma_sorted_insert_items<V: Row>(s: Seq<V::V>, v: V::V, i: int)
    requires
        0 <= i < sorted_insert::<V>(s, v).len(),
    ensures
        sorted_insert::<V>(s, v).len() == s.len() + 1,
        sorted_insert::<V>(s, v)[i] == v || s.contains(sorted_insert::<V>(s, v)[i]),
    decreases s.len(),
{
    if s.len() == 0 {
    } else if V::key_of(v) < V::key_of(s[0]) {
        if i > 0 {
            assert(sorted_insert::<V>(s, v)[i] == s[i - 1]);
        }
    } else {
        let t = sorted_insert::<V>(s.drop_first(), v);
        if i > 0 {
            lemma_sorted_insert_items::<V>(s.drop_first(), v, i - 1);
            assert(sorted_insert::<V>(s, v)[i] == t[i - 1]);
            if t[i - 1] != v {
                let j = choose|j: int| 0 <= j < s.drop_first().len() && s.drop_first()[j] == t[i - 1];
                assert(s[j + 1] == t[i - 1]);
            }
        } else {
            lemma_sorted_insert_items::<V>(s.drop_first(), v, 0);
            assert(sorted_insert::<V>(s, v)[0] == s[0]);
        }
    }
}

/// Every row after adding was added or was there before.
pub proof fn lemma_add_row_items<V: Row>(s: Seq<V::V>, v: V::V, i: int)
    requires
        0 <= i < add_row::<V>(s, v).len(),
    ensures
        add_row::<V>(s, v)[i] == v || s.contains(add_row::<V>(s, v)[i]),
{
    if !has_key::<V>(s, V::key_of(v)) {
        lemma_sorted_insert_items::<V>(s, v, i);
    } else {
        assert(s[i] == add_row::<V>(s, v)[i]);
    }
}

/// Every row left after removing a key was there before.
pub proof fn lemma_remove_key_items<V: Row>(s: Seq<V::V>, k: u64, i: int)
    requires
        0 <= i < remove_key::<V>(s, k).len(),
    ensures
        s.contains(remove_key::<V>(s, k)[i]),
    decreases s.len(),
{
    if s.len() > 0 {
        let t = remove_key::<V>(s.drop_first(), k);
        if V::key_of(s[0]) == k {
            lemma_remove_key_items::<V>(s.drop_first(), k, i);
            let j = choose|j: int| 0 <= j < s.drop_first().len() && s.drop_first()[j] == t[i];
            assert(s[j + 1] == t[i]);
        } else if i > 0 {
            lemma_remove_key_items::<V>(s.drop_first(), k, i - 1);
            let j = choose|j: int| 0 <= j < s.drop_first().len() && s.drop_first()[j] == t[i - 1];
            assert(s[j + 1] == t[i - 1]);
        } else {
            assert(remove_key::<V>(s, k)[0] == s[0]);
        }
    }
}

/// An inserted row is in the table after the insertion.
pub proof fn lemma_sorted_insert_contains<V: Row>(s: Seq<V::V>, v: V::V)
    ensures
        sorted_insert::<V>(s, v).contains(v),
    decreases s.len(),
{
    if s.len() == 0 {
        assert(seq![v][0] == v);
    } else if V::key_of(v) < V::key_of(s[0]) {
        assert((seq![v] + s)[0] == v);
    } else {
        lemma_sorted_insert_contains::<V>(s.drop_first(), v);
        let t = sorted_insert::<V>(s.drop_first(), v);
        let j = choose|j: int| 0 <= j < t.len() && t[j] == v;
        assert((seq![s[0]] + t)[j + 1] == v);
    }
}

/// In a sorted table, the row found for a key is the one holding it.
pub proof fn lemma_lookup_member<V: Row>(s: Seq<V::V>, v: V::V)
    requires
        sorted::<V>(s),
        s.contains(v),
    ensures
        lookup::<V>(s, V::key_of(v)) == Some(v),
{
    let i = choose|i: int| 0 <= i < s.len() && s[i] == v;
    lemma_row_index_unique::<V>(s, V::key_of(v), i);
}

/// Reading a key after adding a row: the added row if the key was free,
/// the row that was there otherwise.
pub proof fn lemma_add_row_lookup<V: Row>(s: Seq<V::V>, v: V::V)
    requires
        sorted::<V>(s),
        sorted::<V>(add_row::<V>(s, v)),
    ensures
        lookup::<V>(add_row::<V>(s, v), V::key_of(v)) == if has_key::<V>(s, V::key_of(v)) {
            lookup::<V>(s, V::key_of(v))
        } else {
            Some(v)
        },
{
    if !has_key::<V>(s, V::key_of(v)) {
        lemma_sorted_insert_contains::<V>(s, v);
        lemma_lookup_member::<V>(add_row::<V>(s, v), v);
    }
}

/// After removing a key, no row has it.
pub proof fn lemma_remove_key_lookup<V: Row>(s: Seq<V::V>, k: u64)
    ensures
        lookup::<V>(remove_key::<V>(s, k), k) is None,
        !has_key::<V>(remove_key::<V>(s, k), k),
    decreases s.len(),
{
    if s.len() > 0 {
        lemma_remove_key_lookup::<V>(s.drop_first(), k);
        let t = remove_key::<V>(s.drop_first(), k);
        if V::key_of(s[0]) != k {
            let r = seq![s[0]] + t;
            if has_key::<V>(r, k) {
                let i = choose|i: int| 0 <= i < r.len() && V::key_of(r[i]) == k;
                assert(V::key_of(t[i - 1]) == k);
            }
        }
    }
    lemma_row_index::<V>(remove_key::<V>(s, k), k);
}

/// A replaced row is found by its key.
pub proof fn lemma_update_lookup<V: Row>(s: Seq<V::V>, i: int, v: V::V)
    requires
        sorted::<V>(s.update(i, v)),
        0 <= i < s.len(),
    ensures
        lookup::<V>(s.update(i, v), V::key_of(v)) == Some(v),
{
    lemma_row_index_unique::<V>(s.update(i, v), V::key_of(v), i);
}

/// A table of rows, in ascending order of key, one row per key.
#[derive(Debug)]
pub struct Table<V> {
    rows: Vec<V>,
}

impl<V: Row> View for Table<V> {
    type V = Seq<V::V>;

    closed spec fn view(&self) -> Seq<V::V> {
        self.rows@.map_values(|r: V| r@)
    }
}

impl<V: Row> Table<V> {
    /// The table's rows are in strictly ascending order of key.
    pub open spec fn wf(&self) -> bool {
        sorted::<V>(self@)
    }

    /// An empty table.
    pub fn new() -> (t: Self)
        ensures
            t@ == Seq::<V::V>::empty(),
            t.wf(),
    {
        let t = Table { rows: Vec::new() };
        assert(t@ =~= Seq::<V::V>::empty());
        t
    }

    /// Number of rows.
    pub fn len(&self) -> (n: usize)
        ensures
            n == self@.len(),
    {
        self.rows.len()
    }

    /// The rows, in ascending order of key.
    pub fn values(&self) -> (r: &Vec<V>)
        ensures
            r@.map_values(|x: V| x@) == self@,
    {
        &self.rows
    }

    /// The row at position `i` (in key order).
    pub fn at(&self, i: usize) -> (r: &V)
        requires
            i < self@.len(),
        ensures
            r@ == self@[i as int],
    {
        &self.rows[i]
    }

    /// Position of the row of key `k`, if there is one.
    pub fn position(&self, k: u64) -> (r: Option<usize>)
        requires
            self.wf(),
        ensures
            match r {
                Some(i) => i < self@.len() && row_index::<V>(self@, k) == i,
                None => row_index::<V>(self@, k) == -1,
            },
    {
        let mut i: usize = 0;
        while i < self.rows.len()
            invariant
                i <= self.rows@.len(),
                self@ == self.rows@.map_values(|r: V| r@),
                self.wf(),
                forall|j: int| 0 <= j < i ==> V::key_of(self@[j]) != k,
            decreases self.rows@.len() - i,
        {
            assert(self@[i as int] == self.rows@[i as int]@);
            if self.rows[i].key() == k {
                proof {
                    lemma_row_index_unique::<V>(self@, k, i as int);
                }
                return Some(i);
            }
            i = i + 1;
        }
        proof {
            lemma_row_index::<V>(self@, k);
        }
        None
    }

    /// The row of key `k`, if there is one.
    pub fn get(&self, k: u64) -> (r: Option<&V>)
        requires
            self.wf(),
        ensures
            match r {
                Some(v) => lookup::<V>(self@, k) == Some(v@),
                None => lookup::<V>(self@, k) is None,
            },
    {
        match self.position(k) {
            Some(i) => Some(&self.rows[i]),
            None => None,
        }
    }

    /// Adds `v` unless a row with its key exists; says whether it did.
    pub fn add(&mut self, v: V) -> (added: bool)
        requires
            old(self).wf(),
        ensures
            final(self).wf(),
            added == !has_key::<V>(old(self)@, V::key_of(v@)),
            final(self)@ == add_row::<V>(old(self)@, v@),
    {
        let k = v.key();
        let mut p: usize = 0;
        while p < self.rows.len() && self.rows[p].key() < k
            invariant
                p <= self.rows@.len(),
                self@ == self.rows@.map_values(|r: V| r@),
                self.wf(),
                k == V::key_of(v@),
                forall|j: int| 0 <= j < p ==> V::key_of(self@[j]) < k,
            decreases self.rows@.len() - p,
        {
            assert(self@[p as int] == self.rows@[p as int]@);
            p = p + 1;
        }
        if p < self.rows.len() {
            assert(self@[p as int] == self.rows@[p as int]@);
            if self.rows[p].key() == k {
                assert(has_key::<V>(self@, k));
                return false;
            }
        }
        let ghost before = self@;
        assert(forall|j: int| p <= j < before.len() ==> k < V::key_of(before[j]));
        assert(!has_key::<V>(before, k));
        self.rows.insert(p, v);
        proof {
            lemma_sorted_insert_at::<V>(before, v@, p as int);
            assert(self@ == before.insert(p as int, v@));
        }
        true
    }

    /// Removes and returns the row of key `k`, if there is one.
    pub fn delete(&mut self, k: u64) -> (r: Option<V>)
        requires
            old(self).wf(),
        ensures
            final(self).wf(),
            final(self)@ == remove_key::<V>(old(self)@, k),
            match r {
                Some(v) => lookup::<V>(old(self)@, k) == Some(v@),
                None => lookup::<V>(old(self)@, k) is None,
            },
    {
        match self.position(k) {
            Some(i) => {
                let ghost before = self@;
                proof {
                    lemma_row_index::<V>(before, k);
                    lemma_remove_key_at::<V>(before, k, i as int);
                }
                let v = self.rows.remove(i);
                assert(self@ == before.remove(i as int));
                Some(v)
            },
            None => {
                proof {
                    lemma_row_index::<V>(self@, k);
                    lemma_remove_key_absent::<V>(self@, k);
                }
                None
            },
        }
    }

    /// Takes out the row at position `i`; [`Table::put_at`] puts a row
    /// with the same key back.
    pub fn take_at(&mut self, i: usize) -> (r: V)
        requires
            old(self).wf(),
            i < old(self)@.len(),
        ensures
            r@ == old(self)@[i as int],
            final(self)@ == old(self)@.remove(i as int),
            final(self).wf(),
    {
        let ghost before = self@;
        let r = self.rows.remove(i);
        assert(self@ =~= before.remove(i as int));
        r
    }

    /// Puts `v` at position `i`, where its key keeps the table in order.
    pub fn put_at(&mut self, i: usize, v: V)
        requires
            old(self).wf(),
            i <= old(self)@.len(),
            i > 0 ==> V::key_of(old(self)@[i - 1]) < V::key_of(v@),
            i < old(self)@.len() ==> V::key_of(v@) < V::key_of(old(self)@[i as int]),
        ensures
            final(self)@ == old(self)@.insert(i as int, v@),
            final(self).wf(),
    {
        let ghost before = self@;
        let ghost vv = v@;
        self.rows.insert(i, v);
        assert(self@ =~= before.insert(i as int, vv));
        assert forall|a: int, b: int| 0 <= a < b < self@.len() implies V::key_of(self@[a])
            < V::key_of(self@[b]) by {
            if a < i && b > i {
                assert(V::key_of(before[a]) <= V::key_of(before[i - 1]));
            }
            if a == i as int && b > i + 1 {
                assert(V::key_of(before[i as int]) < V::key_of(before[b - 1]));
            }
        }
    }
}

} // verus!
