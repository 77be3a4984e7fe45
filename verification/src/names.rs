//! A map from names to values that keeps its rows in dictionary order.

use vstd::prelude::*;
use crate::table::{
    distinct_keys, has_row, lemma_map_has_row, lemma_row_in_map, row_index, rows_map, Dup, Key,
};
use crate::text::{
    lemma_text_lt_irreflexive, lemma_text_lt_total, lemma_text_lt_trans, same_text, text_before,
    text_lt,
};

verus! {

pub struct NameMap<V> {
    pub rows: Vec<(String, V)>,
}

/// Every row comes strictly before the next ones.
pub open spec fn in_order<V>(rows: Seq<(String, V)>) -> bool {
    forall|i: int, j: int|
        0 <= i < j < rows.len() ==> text_lt((#[trigger] rows[i]).0@, (#[trigger] rows[j]).0@)
}

impl<V> View for NameMap<V> {
    type V = Map<Seq<char>, V>;

    open spec fn view(&self) -> Map<Seq<char>, V> {
        rows_map(self.rows@)
    }
}

pub proof fn lemma_in_order_distinct<V>(rows: Seq<(String, V)>)
    requires
        in_order(rows),
    ensures
        distinct_keys(rows),
{
    assert forall|i: int, j: int|
        0 <= i < rows.len() && 0 <= j < rows.len() && i != j implies (
    #[trigger] rows[i]).0.model() != (#[trigger] rows[j]).0.model() by {
        if i < j {
            assert(text_lt(rows[i].0@, rows[j].0@));
        } else {
            assert(text_lt(rows[j].0@, rows[i].0@));
        }
        lemma_text_lt_irreflexive(rows[i].0@);
    }
}

/// A listing is determined by what it says: two lists in the order of names with
/// the same values under the same names agree row by row.
pub proof fn law_listing_is_determined<V>(a: Seq<(String, V)>, b: Seq<(String, V)>)
    requires
        in_order(a),
        in_order(b),
        rows_map(a) == rows_map(b),
    ensures
        a.len() == b.len(),
        forall|i: int|
            0 <= i < a.len() ==> (#[trigger] a[i]).0@ == b[i].0@ && a[i].1 == b[i].1,
{
    lemma_in_order_distinct(a);
    lemma_in_order_distinct(b);
    crate::table::lemma_row_count(a);
    crate::table::lemma_row_count(b);
    assert forall|i: int| 0 <= i < a.len() implies (#[trigger] a[i]).0@ == b[i].0@ && a[i].1
        == b[i].1 by {
        lemma_same_at(a, b, i);
    }
}

proof fn lemma_same_at<V>(a: Seq<(String, V)>, b: Seq<(String, V)>, i: int)
    requires
        in_order(a),
        in_order(b),
        distinct_keys(a),
        distinct_keys(b),
        a.len() == b.len(),
        rows_map(a) == rows_map(b),
        0 <= i < a.len(),
    ensures
        a[i].0@ == b[i].0@,
        a[i].1 == b[i].1,
    decreases i,
{
    assert forall|k: int| 0 <= k < i implies (#[trigger] a[k]).0@ == b[k].0@ by {
        lemma_same_at(a, b, k);
    }
    lemma_row_in_map(a, i);
    lemma_row_in_map(b, i);
    lemma_map_has_row(b, a[i].0@);
    lemma_map_has_row(a, b[i].0@);
    let j = row_index(b, a[i].0@);
    let k = row_index(a, b[i].0@);
    if j < i {
        assert(a[j].0@ == b[j].0@);
        assert(a[j].0.model() != a[i].0.model());
    }
    if k < i {
        assert(a[k].0@ == b[k].0@);
        assert(b[k].0.model() != b[i].0.model());
    }
    if j > i && k > i {
        assert(text_lt(b[i].0@, b[j].0@));
        assert(text_lt(a[i].0@, a[k].0@));
        lemma_text_lt_trans(a[i].0@, b[i].0@, a[i].0@);
        lemma_text_lt_irreflexive(a[i].0@);
    } else if j > i {
        assert(k == i);
    }
    lemma_row_in_map(b, j);
}

proof fn lemma_insert_row<V>(before: Seq<(String, V)>, i: int, row: (String, V))
    requires
        in_order(before),
        0 <= i <= before.len(),
        forall|k: int| 0 <= k < i ==> text_lt((#[trigger] before[k]).0@, row.0@),
        forall|k: int| i <= k < before.len() ==> text_lt(row.0@, (#[trigger] before[k]).0@),
    ensures
        in_order(before.insert(i, row)),
        rows_map(before.insert(i, row)) == rows_map(before).insert(row.0@, row.1),
{
    let after = before.insert(i, row);
    assert forall|a: int, b: int| 0 <= a < b < after.len() implies text_lt(
        (#[trigger] after[a]).0@,
        (#[trigger] after[b]).0@,
    ) by {
        let a2 = if a < i { a } else { a - 1 };
        let b2 = if b < i { b } else { b - 1 };
        if a == i {
            assert(after[b] == before[b2]);
        } else if b == i {
            assert(after[a] == before[a2]);
        } else {
            assert(after[a] == before[a2] && after[b] == before[b2]);
        }
    }
    lemma_in_order_distinct(before);
    lemma_in_order_distinct(after);
    let m = rows_map(before).insert(row.0@, row.1);
    assert forall|q: Seq<char>| rows_map(after).contains_key(q) <==> m.contains_key(q) by {
        if has_row(after, q) {
            let j = row_index(after, q);
            if j != i {
                let j2 = if j < i { j } else { j - 1 };
                assert(after[j] == before[j2]);
                assert(before[j2].0.model() == q);
            }
        }
        if has_row(before, q) {
            let j = row_index(before, q);
            let j2 = if j < i { j } else { j + 1 };
            assert(after[j2] == before[j]);
            assert(after[j2].0.model() == q);
        }
        assert(after[i].0.model() == row.0@);
    }
    assert forall|q: Seq<char>| rows_map(after).contains_key(q) implies rows_map(after)[q]
        == m[q] by {
        let j = row_index(after, q);
        lemma_map_has_row(after, q);
        lemma_row_in_map(after, i);
        if j != i {
            let j2 = if j < i { j } else { j - 1 };
            assert(after[j] == before[j2]);
            lemma_row_in_map(before, j2);
        }
    }
    assert(rows_map(after) =~= m);
}

proof fn lemma_update_row<V>(before: Seq<(String, V)>, i: int, row: (String, V))
    requires
        in_order(before),
        0 <= i < before.len(),
        before[i].0@ == row.0@,
    ensures
        in_order(before.update(i, row)),
        rows_map(before.update(i, row)) == rows_map(before).insert(row.0@, row.1),
{
    let after = before.update(i, row);
    assert forall|a: int, b: int| 0 <= a < b < after.len() implies text_lt(
        (#[trigger] after[a]).0@,
        (#[trigger] after[b]).0@,
    ) by {
        assert(text_lt(before[a].0@, before[b].0@));
    }
    lemma_in_order_distinct(before);
    lemma_in_order_distinct(after);
    let m = rows_map(before).insert(row.0@, row.1);
    assert forall|q: Seq<char>| rows_map(after).contains_key(q) <==> m.contains_key(q) by {
        if has_row(after, q) {
            let j = row_index(after, q);
            assert(before[j].0.model() == q);
        }
        if has_row(before, q) {
            let j = row_index(before, q);
            assert(after[j].0.model() == q);
        }
        assert(after[i].0.model() == row.0@);
    }
    assert forall|q: Seq<char>| rows_map(after).contains_key(q) implies rows_map(after)[q]
        == m[q] by {
        let j = row_index(after, q);
        lemma_map_has_row(after, q);
        lemma_row_in_map(after, i);
        if j != i {
            lemma_row_in_map(before, j);
        }
    }
    assert(rows_map(after) =~= m);
}

proof fn lemma_drop_row<V>(before: Seq<(String, V)>, i: int)
    requires
        in_order(before),
        0 <= i < before.len(),
    ensures
        in_order(before.remove(i)),
        rows_map(before.remove(i)) == rows_map(before).remove(before[i].0@),
{
    let after = before.remove(i);
    assert forall|a: int, b: int| 0 <= a < b < after.len() implies text_lt(
        (#[trigger] after[a]).0@,
        (#[trigger] after[b]).0@,
    ) by {
        let a2 = if a < i { a } else { a + 1 };
        let b2 = if b < i { b } else { b + 1 };
        assert(after[a] == before[a2] && after[b] == before[b2]);
    }
    lemma_in_order_distinct(before);
    crate::table::lemma_remove_row(before, i);
}

impl<V> NameMap<V> {
    pub open spec fn wf(&self) -> bool {
        in_order(self.rows@)
    }

    pub fn new() -> (r: Self)
        ensures
            r.wf(),
            r@ == Map::<Seq<char>, V>::empty(),
            r.rows@.len() == 0,
    {
        let r = NameMap { rows: Vec::new() };
        assert(r@ =~= Map::<Seq<char>, V>::empty());
        r
    }

    pub fn len(&self) -> (r: usize)
        ensures
            r == self.rows@.len(),
    {
        self.rows.len()
    }

    /// How many rows come before `name`.
    fn place(&self, name: &str) -> (r: usize)
        requires
            self.wf(),
        ensures
            r <= self.rows@.len(),
            forall|k: int| 0 <= k < r ==> text_lt((#[trigger] self.rows@[k]).0@, name@),
            forall|k: int| r <= k < self.rows@.len() ==> !text_lt((#[trigger] self.rows@[k]).0@, name@),
    {
        let mut i: usize = 0;
        while i < self.rows.len() && text_before(self.rows[i].0.as_str(), name)
            invariant
                0 <= i <= self.rows@.len(),
                forall|k: int| 0 <= k < i ==> text_lt((#[trigger] self.rows@[k]).0@, name@),
            decreases self.rows@.len() - i,
        {
            i = i + 1;
        }
        proof {
            assert forall|k: int| i <= k < self.rows@.len() implies !text_lt(
                (#[trigger] self.rows@[k]).0@,
                name@,
            ) by {
                if k > i && text_lt(self.rows@[k].0@, name@) {
                    assert(text_lt(self.rows@[i as int].0@, self.rows@[k].0@));
                    lemma_text_lt_trans(self.rows@[i as int].0@, self.rows@[k].0@, name@);
                }
            }
        }
        i
    }

    /// What stands under `name`.
    pub fn get(&self, name: &str) -> (r: Option<&V>)
        requires
            self.wf(),
        ensures
            match r {
                Some(v) => self@.contains_key(name@) && *v == self@[name@],
                None => !self@.contains_key(name@),
            },
    {
        let i: usize = self.place(name);
        proof {
            lemma_in_order_distinct(self.rows@);
        }
        if i < self.rows.len() && same_text(self.rows[i].0.as_str(), name) {
            proof {
                lemma_row_in_map(self.rows@, i as int);
            }
            Some(&self.rows[i].1)
        } else {
            proof {
                if self@.contains_key(name@) {
                    lemma_map_has_row(self.rows@, name@);
                    let j = row_index(self.rows@, name@);
                    lemma_text_lt_irreflexive(name@);
                    if j > i {
                        assert(text_lt(self.rows@[i as int].0@, self.rows@[j].0@));
                    }
                }
            }
            None
        }
    }

    /// Puts `value` under `name`, in place of what stood there.
    pub fn insert(&mut self, name: String, value: V)
        requires
            old(self).wf(),
        ensures
            final(self).wf(),
            final(self)@ == old(self)@.insert(name@, value),
    {
        let i: usize = self.place(name.as_str());
        let ghost before = self.rows@;
        if i < self.rows.len() && same_text(self.rows[i].0.as_str(), name.as_str()) {
            proof {
                lemma_update_row(before, i as int, (name, value));
            }
            self.rows.set(i, (name, value));
        } else {
            proof {
                assert forall|k: int| i <= k < before.len() implies text_lt(
                    name@,
                    (#[trigger] before[k]).0@,
                ) by {
                    lemma_text_lt_total(name@, before[k].0@);
                    if k > i && before[k].0@ == name@ {
                        assert(text_lt(before[i as int].0@, before[k].0@));
                    }
                }
                lemma_insert_row(before, i as int, (name, value));
            }
            self.rows.insert(i, (name, value));
        }
    }

    /// Drops what stands under `name`.
    pub fn remove(&mut self, name: &str)
        requires
            old(self).wf(),
        ensures
            final(self).wf(),
            final(self)@ == old(self)@.remove(name@),
    {
        let i: usize = self.place(name);
        let ghost before = self.rows@;
        if i < self.rows.len() && same_text(self.rows[i].0.as_str(), name) {
            proof {
                lemma_drop_row(before, i as int);
            }
            let _ = self.rows.remove(i);
        } else {
            proof {
                if self@.contains_key(name@) {
                    lemma_map_has_row(before, name@);
                    let j = row_index(before, name@);
                    lemma_text_lt_irreflexive(name@);
                    if j > i {
                        assert(text_lt(before[i as int].0@, before[j].0@));
                    }
                }
                assert(self@.remove(name@) =~= self@);
            }
        }
    }
}

impl<V: Dup> NameMap<V> {
    /// A copy with the same rows.
    pub fn copy(&self) -> (r: Self)
        ensures
            r.rows@ == self.rows@,
    {
        self.slice(0, self.rows.len())
    }

    /// The rows from `from` up to `to`.
    pub fn slice(&self, from: usize, to: usize) -> (r: Self)
        requires
            from <= to <= self.rows@.len(),
        ensures
            r.rows@ == self.rows@.subrange(from as int, to as int),
    {
        let mut rows: Vec<(String, V)> = Vec::new();
        let mut i: usize = from;
        while i < to
            invariant
                from <= i <= to <= self.rows@.len(),
                rows@ =~= self.rows@.subrange(from as int, i as int),
            decreases to - i,
        {
            let row: (String, V) = (self.rows[i].0.clone(), self.rows[i].1.dup());
            rows.push(row);
            i = i + 1;
        }
        NameMap { rows }
    }
}

} // verus!
