//! A small keyed table: at most one value per key, in the order of first insertion.

use vstd::prelude::*;
use crate::text::same_text;

verus! {

/// What can key a [`Table`]: two keys name the same row exactly when their
/// models are equal.
pub trait Key: Sized {
    type Model;

    spec fn model(&self) -> Self::Model;

    fn same_key(&self, other: &Self) -> (r: bool)
        ensures
            r == (self.model() == other.model()),
    ;
}

/// A value that can be copied exactly.
pub trait Dup: Sized {
    fn dup(&self) -> (r: Self)
        ensures
            r == *self,
    ;
}

impl Key for u64 {
    type Model = u64;

    open spec fn model(&self) -> u64 {
        *self
    }

    fn same_key(&self, other: &Self) -> (r: bool) {
        *self == *other
    }
}

impl Dup for u64 {
    fn dup(&self) -> (r: Self) {
        *self
    }
}

impl Key for String {
    type Model = Seq<char>;

    open spec fn model(&self) -> Seq<char> {
        self@
    }

    fn same_key(&self, other: &Self) -> (r: bool) {
        same_text(self.as_str(), other.as_str())
    }
}

impl Dup for String {
    fn dup(&self) -> (r: Self) {
        self.clone()
    }
}

pub struct Table<K: Key, V> {
    pub rows: Vec<(K, V)>,
}

/// No two rows share a key.
pub open spec fn distinct_keys<K: Key, V>(rows: Seq<(K, V)>) -> bool {
    forall|i: int, j: int|
        0 <= i < rows.len() && 0 <= j < rows.len() && i != j ==> (#[trigger] rows[i]).0.model()
            != (#[trigger] rows[j]).0.model()
}

pub open spec fn has_row<K: Key, V>(rows: Seq<(K, V)>, k: K::Model) -> bool {
    exists|i: int| 0 <= i < rows.len() && (#[trigger] rows[i]).0.model() == k
}

pub open spec fn row_index<K: Key, V>(rows: Seq<(K, V)>, k: K::Model) -> int {
    choose|i: int| 0 <= i < rows.len() && (#[trigger] rows[i]).0.model() == k
}

pub open spec fn rows_map<K: Key, V>(rows: Seq<(K, V)>) -> Map<K::Model, V> {
    Map::new(|k: K::Model| has_row(rows, k), |k: K::Model| rows[row_index(rows, k)].1)
}

impl<K: Key, V> View for Table<K, V> {
    type V = Map<K::Model, V>;

    open spec fn view(&self) -> Map<K::Model, V> {
        rows_map(self.rows@)
    }
}

/// Each row of a table without repeated keys is what the map holds under its key.
pub proof fn lemma_row_in_map<K: Key, V>(rows: Seq<(K, V)>, i: int)
    requires
        distinct_keys(rows),
        0 <= i < rows.len(),
    ensures
        rows_map(rows).contains_key(rows[i].0.model()),
        rows_map(rows)[rows[i].0.model()] == rows[i].1,
        row_index(rows, rows[i].0.model()) == i,
{
    let k = rows[i].0.model();
    assert(has_row(rows, k));
    let j = row_index(rows, k);
    assert(0 <= j < rows.len() && rows[j].0.model() == k);
    if i != j {
        assert(rows[i].0.model() != rows[j].0.model());
    }
}

/// Every key of the map comes from a row.
pub proof fn lemma_map_has_row<K: Key, V>(rows: Seq<(K, V)>, k: K::Model)
    requires
        rows_map(rows).contains_key(k),
    ensures
        0 <= row_index(rows, k) < rows.len(),
        rows[row_index(rows, k)].0.model() == k,
        rows[row_index(rows, k)].1 == rows_map(rows)[k],
{
    assert(has_row(rows, k));
}

impl<K: Key, V> Table<K, V> {
    pub open spec fn wf(&self) -> bool {
        distinct_keys(self.rows@)
    }

    pub fn new() -> (t: Self)
        ensures
            t.wf(),
            t@ == Map::<K::Model, V>::empty(),
            t.rows@.len() == 0,
    {
        let t = Table { rows: Vec::new() };
        assert(t@ =~= Map::<K::Model, V>::empty());
        t
    }

    /// The row number of `key`, if it has a row.
    pub fn find(&self, key: &K) -> (r: Option<usize>)
        requires
            self.wf(),
        ensures
            match r {
                Some(i) => i < self.rows@.len() && self.rows@[i as int].0.model() == key.model()
                    && self@.contains_key(key.model()) && self@[key.model()]
                    == self.rows@[i as int].1,
                None => !self@.contains_key(key.model()),
            },
    {
        let mut i: usize = 0;
        while i < self.rows.len()
            invariant
                0 <= i <= self.rows@.len(),
                self.wf(),
                forall|j: int| 0 <= j < i ==> (#[trigger] self.rows@[j]).0.model() != key.model(),
            decreases self.rows@.len() - i,
        {
            if self.rows[i].0.same_key(key) {
                proof {
                    lemma_row_in_map(self.rows@, i as int);
                }
                return Some(i);
            }
            i = i + 1;
        }
        proof {
            if self@.contains_key(key.model()) {
                lemma_map_has_row(self.rows@, key.model());
            }
        }
        None
    }

    pub fn contains(&self, key: &K) -> (r: bool)
        requires
            self.wf(),
        ensures
            r == self@.contains_key(key.model()),
    {
        self.find(key).is_some()
    }

    pub fn get(&self, key: &K) -> (r: Option<&V>)
        requires
            self.wf(),
        ensures
            match r {
                Some(v) => self@.contains_key(key.model()) && self@[key.model()] == *v,
                None => !self@.contains_key(key.model()),
            },
    {
        match self.find(key) {
            Some(i) => Some(&self.rows[i].1),
            None => None,
        }
    }

    /// Sets the value under `key`, replacing what was there.
    pub fn put(&mut self, key: K, value: V)
        requires
            old(self).wf(),
        ensures
            final(self).wf(),
            final(self)@ == old(self)@.insert(key.model(), value),
    {
        let found = self.find(&key);
        let ghost before = self.rows@;
        let ghost k = key.model();
        match found {
            Some(i) => {
                self.rows.set(i, (key, value));
                proof {
                    let after = self.rows@;
                    assert forall|a: int, b: int|
                        0 <= a < after.len() && 0 <= b < after.len() && a != b implies (
                    #[trigger] after[a]).0.model() != (#[trigger] after[b]).0.model() by {
                        assert(before[a].0.model() != before[b].0.model());
                    }
                    assert forall|q: K::Model| rows_map(after).contains_key(q) <==> rows_map(
                        before,
                    ).insert(k, value).contains_key(q) by {
                        if has_row(after, q) {
                            let j = row_index(after, q);
                            assert(before[j].0.model() == q);
                        }
                        if has_row(before, q) {
                            let j = row_index(before, q);
                            assert(after[j].0.model() == q);
                        }
                        assert(after[i as int].0.model() == k);
                    }
                    assert forall|q: K::Model| rows_map(after).contains_key(q) implies rows_map(
                        after,
                    )[q] == rows_map(before).insert(k, value)[q] by {
                        let j = row_index(after, q);
                        assert(after[j].0.model() == q);
                        if q != k {
                            lemma_row_in_map(before, j);
                        } else {
                            lemma_row_in_map(after, i as int);
                        }
                    }
                    assert(rows_map(after) =~= rows_map(before).insert(k, value));
                }
            },
            None => {
                self.rows.push((key, value));
                proof {
                    lemma_push_row(before, (key, value));
                }
            },
        }
    }

    /// Drops the row with the number `i`.
    pub fn remove_at(&mut self, i: usize)
        requires
            old(self).wf(),
            i < old(self).rows@.len(),
        ensures
            final(self).wf(),
            final(self).rows@ == old(self).rows@.remove(i as int),
            final(self)@ == old(self)@.remove(old(self).rows@[i as int].0.model()),
            old(self)@.contains_key(old(self).rows@[i as int].0.model()),
            old(self)@[old(self).rows@[i as int].0.model()] == old(self).rows@[i as int].1,
    {
        proof {
            lemma_remove_row(self.rows@, i as int);
            lemma_row_in_map(self.rows@, i as int);
        }
        let _ = self.rows.remove(i);
    }

    /// Drops the row of `key`, if there is one, and hands its value back.
    pub fn remove(&mut self, key: &K) -> (r: Option<V>)
        requires
            old(self).wf(),
        ensures
            final(self).wf(),
            final(self)@ == old(self)@.remove(key.model()),
            match r {
                Some(v) => old(self)@.contains_key(key.model()) && old(self)@[key.model()] == v,
                None => !old(self)@.contains_key(key.model()),
            },
    {
        let found = self.find(key);
        match found {
            Some(i) => {
                let ghost before = self.rows@;
                let (_, v) = self.rows.remove(i);
                proof {
                    lemma_remove_row(before, i as int);
                }
                Some(v)
            },
            None => {
                assert(self@.remove(key.model()) =~= self@);
                None
            },
        }
    }
}

proof fn lemma_push_row<K: Key, V>(before: Seq<(K, V)>, row: (K, V))
    requires
        distinct_keys(before),
        !rows_map(before).contains_key(row.0.model()),
    ensures
        distinct_keys(before.push(row)),
        rows_map(before.push(row)) == rows_map(before).insert(row.0.model(), row.1),
{
    let after = before.push(row);
    let k = row.0.model();
    assert forall|a: int, b: int|
        0 <= a < after.len() && 0 <= b < after.len() && a != b implies (
    #[trigger] after[a]).0.model() != (#[trigger] after[b]).0.model() by {
        if a < before.len() && b < before.len() {
            assert(before[a].0.model() != before[b].0.model());
        } else if a < before.len() {
            lemma_row_in_map(before, a);
        } else {
            lemma_row_in_map(before, b);
        }
    }
    assert forall|q: K::Model| rows_map(after).contains_key(q) <==> rows_map(before).insert(
        k,
        row.1,
    ).contains_key(q) by {
        if has_row(after, q) {
            let j = row_index(after, q);
            if j < before.len() {
                assert(before[j].0.model() == q);
            }
        }
        if has_row(before, q) {
            let j = row_index(before, q);
            assert(after[j].0.model() == q);
        }
        assert(after[before.len() as int].0.model() == k);
    }
    assert forall|q: K::Model| rows_map(after).contains_key(q) implies rows_map(after)[q]
        == rows_map(before).insert(k, row.1)[q] by {
        let j = row_index(after, q);
        assert(after[j].0.model() == q);
        lemma_row_in_map(after, j);
        if j < before.len() {
            lemma_row_in_map(before, j);
        }
    }
    assert(rows_map(after) =~= rows_map(before).insert(k, row.1));
}

pub proof fn lemma_remove_row<K: Key, V>(before: Seq<(K, V)>, i: int)
    requires
        distinct_keys(before),
        0 <= i < before.len(),
    ensures
        distinct_keys(before.remove(i)),
        rows_map(before.remove(i)) == rows_map(before).remove(before[i].0.model()),
{
    let after = before.remove(i);
    let k = before[i].0.model();
    assert forall|a: int, b: int|
        0 <= a < after.len() && 0 <= b < after.len() && a != b implies (
    #[trigger] after[a]).0.model() != (#[trigger] after[b]).0.model() by {
        let a2 = if a < i { a } else { a + 1 };
        let b2 = if b < i { b } else { b + 1 };
        assert(after[a] == before[a2] && after[b] == before[b2]);
        assert(before[a2].0.model() != before[b2].0.model());
    }
    assert forall|q: K::Model| rows_map(after).contains_key(q) <==> rows_map(before).remove(
        k,
    ).contains_key(q) by {
        if has_row(after, q) {
            let j = row_index(after, q);
            let j2 = if j < i { j } else { j + 1 };
            assert(after[j] == before[j2]);
            assert(before[j2].0.model() == q);
            assert(before[j2].0.model() != before[i].0.model());
        }
        if has_row(before, q) && q != k {
            let j = row_index(before, q);
            let j2 = if j < i { j } else { j - 1 };
            assert(after[j2] == before[j]);
            assert(after[j2].0.model() == q);
        }
    }
    assert forall|q: K::Model| rows_map(after).contains_key(q) implies rows_map(after)[q]
        == rows_map(before).remove(k)[q] by {
        let j = row_index(after, q);
        assert(after[j].0.model() == q);
        let j2 = if j < i { j } else { j + 1 };
        assert(after[j] == before[j2]);
        lemma_row_in_map(before, j2);
    }
    assert(rows_map(after) =~= rows_map(before).remove(k));
}

/// A table without repeated keys has as many keys as rows.
pub proof fn lemma_row_count<K: Key, V>(rows: Seq<(K, V)>)
    requires
        distinct_keys(rows),
    ensures
        rows_map(rows).dom().finite(),
        rows_map(rows).dom().len() == rows.len(),
    decreases rows.len(),
{
    if rows.len() == 0 {
        assert(rows_map(rows).dom() =~= Set::<K::Model>::empty());
    } else {
        let init = rows.drop_last();
        let last = rows.last();
        assert(distinct_keys(init)) by {
            assert forall|i: int, j: int|
                0 <= i < init.len() && 0 <= j < init.len() && i != j implies (
            #[trigger] init[i]).0.model() != (#[trigger] init[j]).0.model() by {
                assert(rows[i].0.model() != rows[j].0.model());
            }
        }
        lemma_row_count(init);
        if rows_map(init).contains_key(last.0.model()) {
            lemma_map_has_row(init, last.0.model());
            let j = row_index(init, last.0.model());
            assert(rows[j].0.model() != rows[rows.len() - 1].0.model());
        }
        lemma_push_row(init, last);
        assert(init.push(last) =~= rows);
        assert(rows_map(rows).dom() =~= rows_map(init).dom().insert(last.0.model()));
    }
}

impl<K: Key + Dup, V: Dup> Table<K, V> {
    /// A copy with the same rows.
    pub fn copy(&self) -> (r: Self)
        ensures
            r.rows@ == self.rows@,
            r@ == self@,
    {
        let mut rows: Vec<(K, V)> = Vec::new();
        let mut i: usize = 0;
        while i < self.rows.len()
            invariant
                0 <= i <= self.rows@.len(),
                rows@ =~= self.rows@.subrange(0, i as int),
            decreases self.rows@.len() - i,
        {
            let row: (K, V) = (self.rows[i].0.dup(), self.rows[i].1.dup());
            rows.push(row);
            i = i + 1;
        }
        assert(rows@ =~= self.rows@);
        Table { rows }
    }
}

} // verus!
