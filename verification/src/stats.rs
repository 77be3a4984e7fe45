//! Reference counts of objects.

use vstd::prelude::*;
use crate::errors::MetaError;
use crate::records::{ObjId, ObjStat};
use crate::table::{lemma_map_has_row, lemma_row_in_map, rows_map, Dup, Key};
use crate::tables::{MetaTables, TablesView};

verus! {

/// How many references to an object are counted.
pub open spec fn count_of(v: TablesView, k: (Seq<char>, Seq<char>)) -> int {
    if v.stats.contains_key(k) {
        v.stats[k].ref_count as int
    } else {
        0
    }
}

/// Counts the references to an object up or down.
pub open spec fn stat_bump_after(v: TablesView, obj_id: ObjId, delta: i64, now: u64) -> Result<
    (TablesView, u64),
    MetaError,
> {
    let k = obj_id.model();
    let known = v.stats.contains_key(k);
    let count: int = if known {
        v.stats[k].ref_count + delta
    } else {
        delta as int
    };
    if delta > 0 {
        if count > i64::MAX {
            Err(MetaError::CounterOverflow)
        } else {
            let s = ObjStat {
                obj_id: if known {
                    v.stats[k].obj_id
                } else {
                    obj_id
                },
                ref_count: count as u64,
                zero_since: None,
                updated_at: now,
            };
            Ok((TablesView { stats: v.stats.insert(k, s), ..v }, count as u64))
        }
    } else if !known || count < 0 {
        Err(MetaError::RefCountNegative)
    } else {
        let s = ObjStat {
            obj_id: v.stats[k].obj_id,
            ref_count: count as u64,
            zero_since: if count == 0 {
                Some(
                    match v.stats[k].zero_since {
                        Some(t) => t,
                        None => now,
                    },
                )
            } else {
                None
            },
            updated_at: now,
        };
        Ok((TablesView { stats: v.stats.insert(k, s), ..v }, count as u64))
    }
}

/// The object has had no reference since `older_than` or before.
pub open spec fn idle_since(s: ObjStat, older_than: u64) -> bool {
    &&& s.ref_count == 0
    &&& s.zero_since matches Some(t) && (t as i64) <= (older_than as i64)
}

/// The time since which an object is idle, as stored.
pub open spec fn idle_time(s: ObjStat) -> i64 {
    match s.zero_since {
        Some(t) => t as i64,
        None => 0,
    }
}

/// `out` lists idle objects, longest idle first and each once, and leaves none
/// out that is idle for longer than one it lists, nor any while there is room.
pub open spec fn is_idle_list(v: TablesView, older_than: u64, limit: nat, out: Seq<ObjId>) -> bool {
    &&& out.len() <= limit
    &&& forall|i: int|
        0 <= i < out.len() ==> v.stats.contains_key((#[trigger] out[i]).model()) && idle_since(
            v.stats[out[i].model()],
            older_than,
        )
    &&& forall|i: int, j: int|
        0 <= i < j < out.len() ==> (#[trigger] out[i]).model() != (#[trigger] out[j]).model()
            && idle_time(v.stats[out[i].model()]) <= idle_time(v.stats[out[j].model()])
    &&& forall|k: (Seq<char>, Seq<char>)| #[trigger]
        v.stats.contains_key(k) && idle_since(v.stats[k], older_than) && !listed(out, k)
            ==> out.len() == limit && forall|i: int|
            0 <= i < out.len() ==> idle_time(v.stats[(#[trigger] out[i]).model()]) <= idle_time(
                v.stats[k],
            )
}

pub open spec fn listed(out: Seq<ObjId>, k: (Seq<char>, Seq<char>)) -> bool {
    exists|i: int| 0 <= i < out.len() && (#[trigger] out[i]).model() == k
}

/// An object is marked idle exactly while nothing refers to it.
pub open spec fn idle_marks_agree(v: TablesView) -> bool {
    forall|k: (Seq<char>, Seq<char>)| #[trigger]
        v.stats.contains_key(k) ==> (v.stats[k].zero_since is Some <==> v.stats[k].ref_count == 0)
}

/// Counting up and down keeps the idle marks right.
pub proof fn law_bump_keeps_idle_marks(v: TablesView, obj_id: ObjId, delta: i64, now: u64)
    requires
        idle_marks_agree(v),
    ensures
        stat_bump_after(v, obj_id, delta, now) matches Ok((w, _)) ==> idle_marks_agree(w),
{
}

/// What is counted up can be counted down again, to the number there was before.
pub proof fn law_bump_and_back(v: TablesView, obj_id: ObjId, delta: i64, now: u64, later: u64)
    requires
        delta > 0,
        stat_bump_after(v, obj_id, delta, now) is Ok,
    ensures
        ({
            let (w, n) = stat_bump_after(v, obj_id, delta, now)->Ok_0;
            let back = stat_bump_after(w, obj_id, (0 - delta) as i64, later);
            &&& back is Ok
            &&& back->Ok_0.1 == n - delta
            &&& v.stats.contains_key(obj_id.model()) ==> back->Ok_0.1
                == v.stats[obj_id.model()].ref_count
        }),
{
}

/// A count stays within what was granted: never below zero, and changed by exactly `delta`.
pub proof fn law_bump_is_exact(v: TablesView, obj_id: ObjId, delta: i64, now: u64)
    ensures
        stat_bump_after(v, obj_id, delta, now) matches Ok((w, n)) ==> n == count_of(
            v,
            obj_id.model(),
        ) + delta && count_of(w, obj_id.model()) == n,
{
}

impl MetaTables {
    /// The statistics of an object, if there are any.
    pub fn obj_stat_get(&self, obj_id: &ObjId) -> (r: Option<ObjStat>)
        requires
            self.wf(),
        ensures
            match r {
                Some(s) => self@.stats.contains_key(obj_id.model()) && s
                    == self@.stats[obj_id.model()],
                None => !self@.stats.contains_key(obj_id.model()),
            },
    {
        match self.stats.get(obj_id) {
            Some(s) => Some(s.dup()),
            None => None,
        }
    }

    fn put_stat(&mut self, key: ObjId, s: ObjStat)
        requires
            old(self).wf(),
            s.obj_id.model() == key.model(),
        ensures
            final(self).wf(),
            final(self)@ == (TablesView {
                stats: old(self)@.stats.insert(key.model(), s),
                ..old(self)@
            }),
    {
        self.stats.put(key, s);
    }

    /// Changes the reference count of an object by `delta` and returns the new count.
    pub fn obj_stat_bump(&mut self, obj_id: ObjId, delta: i64, now: u64) -> (r: Result<
        u64,
        MetaError,
    >)
        requires
            old(self).wf(),
        ensures
            final(self).wf(),
            match r {
                Ok(n) => stat_bump_after(old(self)@, obj_id, delta, now) == Ok::<
                    (TablesView, u64),
                    MetaError,
                >((final(self)@, n)),
                Err(e) => stat_bump_after(old(self)@, obj_id, delta, now) == Err::<
                    (TablesView, u64),
                    MetaError,
                >(e) && final(self)@ == old(self)@,
            },
    {
        let old_stat: Option<ObjStat> = self.obj_stat_get(&obj_id);
        if delta > 0 {
            let (key, before): (ObjId, u64) = match &old_stat {
                Some(s) => (s.obj_id.dup(), s.ref_count),
                None => (obj_id.dup(), 0),
            };
            let step: u64 = delta as u64;
            if before > i64::MAX as u64 || before + step > i64::MAX as u64 {
                return Err(MetaError::CounterOverflow);
            }
            let n: u64 = before + step;
            let s = ObjStat { obj_id: key, ref_count: n, zero_since: None, updated_at: now };
            self.put_stat(obj_id, s);
            Ok(n)
        } else {
            match old_stat {
                None => Err(MetaError::RefCountNegative),
                Some(s) => {
                    let down: u64 = if delta == i64::MIN {
                        0x8000_0000_0000_0000
                    } else {
                        (-delta) as u64
                    };
                    if s.ref_count < down {
                        return Err(MetaError::RefCountNegative);
                    }
                    let n: u64 = s.ref_count - down;
                    let zero: Option<u64> = if n == 0 {
                        match s.zero_since {
                            Some(t) => Some(t),
                            None => Some(now),
                        }
                    } else {
                        None
                    };
                    let s2 = ObjStat {
                        obj_id: s.obj_id,
                        ref_count: n,
                        zero_since: zero,
                        updated_at: now,
                    };
                    self.put_stat(obj_id, s2);
                    Ok(n)
                },
            }
        }
    }

    /// Forgets an object that nothing refers to; says whether it did.
    pub fn obj_stat_delete_if_zero(&mut self, obj_id: &ObjId) -> (r: bool)
        requires
            old(self).wf(),
        ensures
            final(self).wf(),
            r == (old(self)@.stats.contains_key(obj_id.model())
                && old(self)@.stats[obj_id.model()].ref_count == 0),
            final(self)@ == (if r {
                TablesView { stats: old(self)@.stats.remove(obj_id.model()), ..old(self)@ }
            } else {
                old(self)@
            }),
    {
        let zero: bool = match self.stats.get(obj_id) {
            Some(s) => s.ref_count == 0,
            None => false,
        };
        if zero {
            let _ = self.stats.remove(obj_id);
        }
        zero
    }

    /// Up to `limit` objects idle since `older_than_ts`, longest idle first.
    pub fn obj_stat_list_zero(&self, older_than_ts: u64, limit: u32) -> (r: Vec<ObjId>)
        requires
            self.wf(),
        ensures
            is_idle_list(self@, older_than_ts, limit as nat, r@),
    {
        let mut out: Vec<ObjId> = Vec::new();
        let mut times: Vec<i64> = Vec::new();
        let mut i: usize = 0;
        while i < self.stats.rows.len()
            invariant
                0 <= i <= self.stats.rows@.len(),
                self.wf(),
                idle_prefix(self.stats.rows@, i as int, out@, times@, older_than_ts),
            decreases self.stats.rows@.len() - i,
        {
            proof {
                lemma_row_in_map(self.stats.rows@, i as int);
            }
            let ghost before = out@;
            let ghost times_before = times@;
            let s: &ObjStat = &self.stats.rows[i].1;
            let due: Option<i64> = match s.zero_since {
                Some(t) => if s.ref_count == 0 && (t as i64) <= (older_than_ts as i64) {
                    Some(t as i64)
                } else {
                    None
                },
                None => None,
            };
            match due {
                Some(time) => {
                    let mut p: usize = 0;
                    while p < times.len() && times[p] <= time
                        invariant
                            0 <= p <= times@.len(),
                            forall|a: int| 0 <= a < p ==> times@[a] <= time,
                        decreases times@.len() - p,
                    {
                        p = p + 1;
                    }
                    let key: ObjId = self.stats.rows[i].0.dup();
                    out.insert(p, key);
                    times.insert(p, time);
                    proof {
                        lemma_idle_insert(
                            self.stats.rows@,
                            i as int,
                            before,
                            times_before,
                            p as int,
                            key,
                            time,
                            older_than_ts,
                        );
                        assert(out@ =~= before.insert(p as int, key));
                        assert(times@ =~= times_before.insert(p as int, time));
                    }
                },
                None => {
                    proof {
                        lemma_idle_skip(self.stats.rows@, i as int, out@, times@, older_than_ts);
                    }
                },
            }
            i = i + 1;
        }
        let ghost full = out@;
        proof {
            assert forall|k: (Seq<char>, Seq<char>)| #[trigger]
                self@.stats.contains_key(k) && idle_since(
                    self@.stats[k],
                    older_than_ts,
                ) implies listed(full, k) by {
                lemma_map_has_row(self.stats.rows@, k);
            }
        }
        if out.len() > limit as usize {
            out.truncate(limit as usize);
            proof {
                assert forall|k: (Seq<char>, Seq<char>)| #[trigger]
                    self@.stats.contains_key(k) && idle_since(self@.stats[k], older_than_ts)
                        && !listed(out@, k) implies forall|i: int|
                    0 <= i < out@.len() ==> idle_time(self@.stats[(#[trigger] out@[i]).model()])
                        <= idle_time(self@.stats[k]) by {
                    assert(listed(full, k));
                    let m = choose|m: int| 0 <= m < full.len() && (#[trigger] full[m]).model() == k;
                    if m < out@.len() {
                        assert(out@[m].model() == k);
                    }
                    assert forall|i: int| 0 <= i < out@.len() implies idle_time(
                        self@.stats[(#[trigger] out@[i]).model()],
                    ) <= idle_time(self@.stats[k]) by {
                        assert(out@[i] == full[i]);
                        assert(full[i].model() != full[m].model() && times@[i] <= times@[m]);
                    }
                }
            }
        }
        out
    }
}

#[verifier::spinoff_prover]
proof fn lemma_idle_insert(
    rows: Seq<(ObjId, ObjStat)>,
    n: int,
    out: Seq<ObjId>,
    times: Seq<i64>,
    p: int,
    key: ObjId,
    time: i64,
    older_than: u64,
)
    requires
        distinct_stat_rows(rows),
        0 <= n < rows.len(),
        key.model() == rows[n].0.model(),
        idle_since(rows[n].1, older_than),
        time == idle_time(rows[n].1),
        0 <= p <= out.len(),
        forall|a: int| 0 <= a < p ==> times[a] <= time,
        p < times.len() ==> times[p] > time,
        idle_prefix(rows, n, out, times, older_than),
    ensures
        idle_prefix(rows, n + 1, out.insert(p, key), times.insert(p, time), older_than),
{
    let out2 = out.insert(p, key);
    let times2 = times.insert(p, time);
    lemma_row_in_map(rows, n);
    assert forall|a: int| 0 <= a < out2.len() implies seen_before(
        rows,
        n + 1,
        (#[trigger] out2[a]).model(),
    ) by {
        if a == p {
            assert(rows[n].0.model() == out2[a].model());
        } else {
            let a0 = if a < p { a } else { a - 1 };
            assert(out2[a] == out[a0]);
            assert(seen_before(rows, n, out[a0].model()));
        }
    }
    assert forall|a: int| 0 <= a < out.len() implies (#[trigger] out[a]).model() != key.model() by {
        assert(seen_before(rows, n, out[a].model()));
        let j = choose|j: int| 0 <= j < n && (#[trigger] rows[j]).0.model() == out[a].model();
        assert(rows[j].0.model() != rows[n].0.model());
    }
    assert forall|a: int, b: int| 0 <= a < b < out2.len() implies (#[trigger] out2[a]).model() != (
    #[trigger] out2[b]).model() && times2[a] <= times2[b] by {
        let a0 = if a < p { a } else { a - 1 };
        let b0 = if b < p { b } else { b - 1 };
        if a != p && b != p {
            assert(out2[a] == out[a0] && out2[b] == out[b0]);
            assert(times2[a] == times[a0] && times2[b] == times[b0]);
            assert(out[a0].model() != out[b0].model());
        } else if a == p {
            assert(times2[b] == times[b0]);
            assert(out2[b] == out[b0]);
            if b0 > p {
                assert(out[p].model() != out[b0].model() && times[p] <= times[b0]);
            }
        } else {
            assert(out2[a] == out[a0]);
            assert(times2[a] == times[a0]);
        }
    }
    assert forall|a: int| 0 <= a < out2.len() implies rows_map(rows).contains_key(
        (#[trigger] out2[a]).model(),
    ) && idle_since(rows_map(rows)[out2[a].model()], older_than) && times2[a] == idle_time(
        rows_map(rows)[out2[a].model()],
    ) by {
        if a != p {
            let a0 = if a < p { a } else { a - 1 };
            assert(out2[a] == out[a0] && times2[a] == times[a0]);
        }
    }
    assert forall|j: int|
        0 <= j < n + 1 && idle_since((#[trigger] rows[j]).1, older_than) implies listed(
        out2,
        rows[j].0.model(),
    ) by {
        if j == n {
            assert(out2[p].model() == rows[j].0.model());
        } else {
            assert(listed(out, rows[j].0.model()));
            let m = choose|m: int|
                0 <= m < out.len() && (#[trigger] out[m]).model() == rows[j].0.model();
            let m2 = if m < p { m } else { m + 1 };
            assert(out2[m2] == out[m]);
            assert(out2[m2].model() == rows[j].0.model());
        }
    }
}

/// `out` holds the idle objects among the first `n` rows, longest idle first,
/// and `times` the time since which each is idle.
spec fn idle_prefix(
    rows: Seq<(ObjId, ObjStat)>,
    n: int,
    out: Seq<ObjId>,
    times: Seq<i64>,
    older_than: u64,
) -> bool {
    &&& out.len() == times.len()
    &&& forall|a: int|
        0 <= a < out.len() ==> rows_map(rows).contains_key((#[trigger] out[a]).model())
            && idle_since(rows_map(rows)[out[a].model()], older_than) && times[a] == idle_time(
            rows_map(rows)[out[a].model()],
        )
    &&& forall|a: int, b: int|
        0 <= a < b < out.len() ==> (#[trigger] out[a]).model() != (#[trigger] out[b]).model()
            && times[a] <= times[b]
    &&& forall|a: int| 0 <= a < out.len() ==> seen_before(rows, n, (#[trigger] out[a]).model())
    &&& forall|j: int|
        0 <= j < n && idle_since((#[trigger] rows[j]).1, older_than) ==> listed(
            out,
            rows[j].0.model(),
        )
}

proof fn lemma_idle_skip(
    rows: Seq<(ObjId, ObjStat)>,
    n: int,
    out: Seq<ObjId>,
    times: Seq<i64>,
    older_than: u64,
)
    requires
        0 <= n < rows.len(),
        idle_prefix(rows, n, out, times, older_than),
        !idle_since(rows[n].1, older_than),
    ensures
        idle_prefix(rows, n + 1, out, times, older_than),
{
    assert forall|a: int| 0 <= a < out.len() implies seen_before(
        rows,
        n + 1,
        (#[trigger] out[a]).model(),
    ) by {
        assert(seen_before(rows, n, out[a].model()));
    }
    assert forall|j: int| 0 <= j < n + 1 && idle_since(
        (#[trigger] rows[j]).1,
        older_than,
    ) implies listed(out, rows[j].0.model()) by {
        assert(j != n);
    }
    assert(forall|a: int, b: int|
        0 <= a < b < out.len() ==> (#[trigger] out[a]).model() != (#[trigger] out[b]).model()
            && times[a] <= times[b]);
    assert(forall|a: int|
        0 <= a < out.len() ==> rows_map(rows).contains_key((#[trigger] out[a]).model())
            && idle_since(rows_map(rows)[out[a].model()], older_than) && times[a] == idle_time(
            rows_map(rows)[out[a].model()],
        ));
}

/// One of the first `n` rows has the key `k`.
spec fn seen_before(rows: Seq<(ObjId, ObjStat)>, n: int, k: (Seq<char>, Seq<char>)) -> bool {
    exists|j: int| 0 <= j < n && (#[trigger] rows[j]).0.model() == k
}

spec fn distinct_stat_rows(rows: Seq<(ObjId, ObjStat)>) -> bool {
    crate::table::distinct_keys(rows)
}

} // verus!
