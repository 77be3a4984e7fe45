//! What the path cache promises as a whole.

use vstd::prelude::*;
use crate::path_cache::{
    evicted_entry, fresh_cache, invalidated, is_oldest, known_ids, lemma_invalidated_inv,
    lemma_refreshed_inv, lemma_room_inv, lemma_with_ids_inv, lemma_with_terminal_inv, lru_with,
    made_room, own_ids, terminal_of, with_ids, with_terminal, without_subtree, CacheView, Path,
    PathResolveTerminalValue,
};

verus! {

/// What was put is what is found: the ids stored for a path come back for it.
pub proof fn law_put_ids_then_get(c: CacheView, mid: CacheView, p: Path, ids: Seq<u64>)
    requires
        c.inv(),
        made_room(c, mid, p),
        ids.len() == p.len() + 1,
    ensures
        with_ids(mid, p, ids).ids_for(p) == Some(ids),
{
    assert(p.is_prefix_of(p)) by {
        assert(p =~= p.subrange(0, p.len() as int));
    }
    assert(ids.take(p.len() as int + 1) =~= ids);
}

/// A cached path answers for each of its prefixes as well, with one id per
/// component and one for the root.
pub proof fn law_put_ids_covers_prefixes(
    c: CacheView,
    mid: CacheView,
    p: Path,
    ids: Seq<u64>,
    k: int,
)
    requires
        c.inv(),
        made_room(c, mid, p),
        ids.len() == p.len() + 1,
        0 <= k <= p.len(),
    ensures
        with_ids(mid, p, ids).ids_for(p.take(k)) matches Some(found) && found.len() == k + 1,
{
    let d = with_ids(mid, p, ids);
    let q = p.take(k);
    assert(p.is_prefix_of(p)) by {
        assert(p =~= p.subrange(0, p.len() as int));
    }
    assert(q.is_prefix_of(p)) by {
        assert(q =~= p.subrange(0, q.len() as int));
    }
    assert(d.nodes.contains_key(q));
}

/// In a cache that knows nothing yet, a cached path answers for each prefix
/// with the prefix of its ids.
pub proof fn law_first_path_answers_prefixes(c: CacheView, p: Path, ids: Seq<u64>, k: int)
    requires
        c.inv(),
        forall|q: Path| #[trigger] c.nodes.contains_key(q) ==> known_ids(c.nodes[q]) is None,
        ids.len() == p.len() + 1,
        0 <= k <= p.len(),
    ensures
        with_ids(c, p, ids).ids_for(p.take(k)) == Some(ids.take(k + 1)),
{
    let q = p.take(k);
    assert(p.is_prefix_of(p)) by {
        assert(p =~= p.subrange(0, p.len() as int));
    }
    assert(q.is_prefix_of(p)) by {
        assert(q =~= p.subrange(0, q.len() as int));
    }
    if c.nodes.contains_key(q) {
        assert(known_ids(c.nodes[q]) is None);
    }
    assert(ids.take(p.len() as int + 1) =~= ids);
    if k == p.len() {
        assert(q =~= p);
    } else {
        assert(q.len() != p.len());
    }
}

/// A cached object or link stops every query that passes through it.
pub proof fn law_put_terminal_then_get(
    c: CacheView,
    mid: CacheView,
    d: CacheView,
    p: Path,
    parent_ids: Seq<u64>,
    value: PathResolveTerminalValue,
    tail: Path,
)
    requires
        c.inv(),
        made_room(c, mid, p),
        with_terminal(mid, d, p, parent_ids, value),
        p.len() > 0,
    ensures
        d.is_terminal_depth(p + tail, p.len() as int),
        terminal_of(d.nodes[p]) == Some(value),
{
    let full = p + tail;
    assert(full.take(p.len() as int) =~= p);
    assert(p.is_prefix_of(p)) by {
        assert(p =~= p.subrange(0, p.len() as int));
    }
    let t = crate::path_cache::terminal_set(mid.nodes, p, value, mid.next_entry_id);
    assert(t.dom().contains(p));
    assert(d.nodes.contains_key(p));
    assert forall|j: int| 1 <= j < p.len() implies (d.nodes.contains_key(#[trigger] full.take(j))
        ==> terminal_of(d.nodes[full.take(j)]) is None) by {
        let q = full.take(j);
        assert(q.is_prefix_of(p)) by {
            assert(q =~= p.subrange(0, q.len() as int));
        }
        assert(q.len() != p.len());
        if d.nodes.contains_key(q) {
            assert(d.nodes[q].value == t[q].value);
        }
    }
}

/// Invalidation leaves nothing at or below the path, and takes no value elsewhere.
pub proof fn law_invalidate_is_exact(c: CacheView, d: CacheView, p: Path, q: Path)
    requires
        c.inv(),
        invalidated(c, d, p),
        p.len() > 0,
    ensures
        p.is_prefix_of(q) ==> d.ids_for(q) is None && !d.nodes.contains_key(q),
        !p.is_prefix_of(q) ==> (d.nodes.contains_key(q) <==> c.nodes.contains_key(q)) && (
        c.nodes.contains_key(q) ==> d.nodes[q].value == c.nodes[q].value),
{
    if c.nodes.contains_key(p.drop_last()) {
        let w = without_subtree(c.nodes, p);
        assert(d.nodes.dom().contains(q) <==> w.dom().contains(q));
    } else if p.is_prefix_of(q) && c.nodes.contains_key(q) {
        let k = p.len() - 1;
        assert(c.nodes.contains_key(q.take(k)));
        assert(q.take(k) =~= p.drop_last());
    }
}

/// The cache never holds more values than it was made for, or one.
pub open spec fn within_bound(c: CacheView) -> bool {
    c.lru.dom().finite() && c.lru.dom().len() <= (if c.max_entries == 0 {
        1
    } else {
        c.max_entries as nat
    })
}

proof fn lemma_room_bound(c: CacheView, mid: CacheView, p: Path, id: u64)
    requires
        c.inv(),
        within_bound(c),
        made_room(c, mid, p),
        id == mid.next_entry_id,
        mid.inv(),
    ensures
        lru_with(mid.lru, p, id).dom().finite(),
        lru_with(mid.lru, p, id).dom().len() <= (if c.max_entries == 0 {
            1
        } else {
            c.max_entries as nat
        }),
{
    let kept = Set::new(|j: u64| mid.lru.contains_key(j) && !mid.lru[j].is_prefix_of(p));
    let after = lru_with(mid.lru, p, id);
    assert(after.dom() =~= kept.insert(id));
    assert(p.is_prefix_of(p)) by {
        assert(p =~= p.subrange(0, p.len() as int));
    }
    if c.is_new(p) && c.lru.dom().len() >= c.max_entries {
        if c.lru.dom().len() == 0 {
            assert(mid == c);
        } else {
            let old = choose|old: u64| #[trigger] is_oldest(c, old) && evicted_entry(c, mid, old);
            assert(mid.lru.dom() =~= c.lru.dom().remove(old));
        }
    }
    assert(mid.lru.dom().finite());
    assert(kept.subset_of(mid.lru.dom()));
    vstd::set_lib::lemma_len_subset(kept, mid.lru.dom());
    if !c.is_new(p) {
        let own = c.nodes[p].entry_id->0;
        assert(c.nodes.contains_key(p));
        assert(c.lru.contains_key(own) && c.lru[own] == p);
        assert(kept.subset_of(mid.lru.dom().remove(own)));
        vstd::set_lib::lemma_len_subset(kept, mid.lru.dom().remove(own));
    }
}

/// Putting a value keeps the number of values within the bound.
pub proof fn law_put_keeps_bound(
    c: CacheView,
    mid: CacheView,
    d: CacheView,
    p: Path,
    ids: Seq<u64>,
    value: PathResolveTerminalValue,
)
    requires
        c.inv(),
        mid.inv(),
        within_bound(c),
        made_room(c, mid, p),
        d == with_ids(mid, p, ids) || with_terminal(mid, d, p, ids, value),
    ensures
        within_bound(d),
{
    lemma_room_bound(c, mid, p, mid.next_entry_id);
}

/// Invalidation keeps the number of values within the bound.
pub proof fn law_invalidate_keeps_bound(c: CacheView, d: CacheView, p: Path)
    requires
        within_bound(c),
        invalidated(c, d, p),
    ensures
        within_bound(d),
{
    assert(d.lru.dom().subset_of(c.lru.dom()));
    vstd::set_lib::lemma_len_subset(d.lru.dom(), c.lru.dom());
}

/// A full cache gives up exactly the value used least recently; every other
/// value stays.
pub proof fn law_eviction_takes_oldest_only(c: CacheView, d: CacheView, id: u64, q: Path)
    requires
        c.inv(),
        is_oldest(c, id),
        evicted_entry(c, d, id),
        c.nodes.contains_key(q),
    ensures
        d.nodes.contains_key(q),
        q == c.lru[id] ==> d.nodes[q].value is None,
        q != c.lru[id] ==> d.nodes[q].value == c.nodes[q].value,
{
    let p = c.lru[id];
    assert(c.nodes.contains_key(p));
    let cleared = c.nodes.insert(
        p,
        crate::path_cache::CacheNodeView { value: None, entry_id: None, ..c.nodes[p] },
    );
    assert(cleared.dom().contains(q));
    assert(d.nodes.dom().contains(q));
}

/// Room is made only where a new path meets a full cache, and of two values that
/// are kept the one used later stays.
pub proof fn law_room_is_made_of_the_oldest(c: CacheView, d: CacheView, p: Path, i: u64, j: u64)
    requires
        made_room(c, d, p),
        c.lru.contains_key(i),
        c.lru.contains_key(j),
        i < j,
    ensures
        d.lru.contains_key(j) && d.lru[j] == c.lru[j],
        c.lru.dom().len() < c.max_entries ==> d == c,
        c.nodes.contains_key(p) && c.nodes[p].value is Some ==> d == c,
{
}

/// A value just used is the last to go.
pub proof fn law_use_renews(c: CacheView, p: Path)
    requires
        c.inv(),
        c.nodes.contains_key(p),
        c.nodes[p].value is Some,
        c.next_entry_id < u64::MAX,
    ensures
        ({
            let d = c.refreshed(p);
            &&& d.nodes[p].value == c.nodes[p].value
            &&& d.nodes[p].entry_id matches Some(id) && forall|j: u64| #[trigger]
                d.lru.contains_key(j) ==> j <= id
        }),
{
}

/// The paths that carry a value.
pub open spec fn valued(c: CacheView) -> Set<Path> {
    Set::new(|p: Path| c.nodes.contains_key(p) && c.nodes[p].value is Some)
}

/// The cache counts the paths that carry a value.
pub proof fn law_count_is_of_values(c: CacheView)
    requires
        c.inv(),
        c.lru.dom().finite(),
    ensures
        valued(c).finite(),
        valued(c).len() == c.lru.dom().len(),
{
    let path_of = |j: u64| c.lru[j];
    assert(vstd::relations::injective_on(path_of, c.lru.dom())) by {
        assert forall|i: u64, j: u64|
            c.lru.dom().contains(i) && c.lru.dom().contains(j) && #[trigger] path_of(i)
                == #[trigger] path_of(j) implies i == j by {
            assert(c.lru.contains_key(i) && c.lru.contains_key(j));
        }
    }
    assert(c.lru.dom().map(path_of) =~= valued(c)) by {
        assert forall|p: Path| valued(c).contains(p) implies c.lru.dom().map(path_of).contains(
            p,
        ) by {
            let j = c.nodes[p].entry_id->0;
            assert(c.nodes.contains_key(p));
            assert(c.lru.contains_key(j) && path_of(j) == p);
        }
        assert forall|p: Path| c.lru.dom().map(path_of).contains(p) implies valued(c).contains(
            p,
        ) by {
            let j = choose|j: u64| c.lru.dom().contains(j) && p == path_of(j);
            assert(c.lru.contains_key(j));
            assert(c.nodes.contains_key(c.lru[j]));
        }
    }
    vstd::set_lib::lemma_map_size(c.lru.dom(), valued(c), path_of);
}

/// One use of the cache.
pub enum CacheUse {
    PutIds { path: Path, ids: Seq<u64> },
    PutTerminal { path: Path, parent_ids: Seq<u64>, value: PathResolveTerminalValue },
    Hit { path: Path },
    Drop { path: Path },
}

/// `d` is `c` after one use.
pub open spec fn used_once(c: CacheView, u: CacheUse, d: CacheView) -> bool {
    match u {
        CacheUse::PutIds { path, ids } => if ids.len() != path.len() + 1 || c.next_entry_id
            == u64::MAX {
            d == c
        } else {
            exists|mid: CacheView| #[trigger]
                made_room(c, mid, path) && d == with_ids(mid, path, ids)
        },
        CacheUse::PutTerminal { path, parent_ids, value } => if parent_ids.len() != path.len()
            || c.next_entry_id == u64::MAX {
            d == c
        } else {
            exists|mid: CacheView| #[trigger]
                made_room(c, mid, path) && with_terminal(mid, d, path, parent_ids, value)
        },
        CacheUse::Hit { path } => d == (if c.nodes.contains_key(path) {
            c.refreshed(path)
        } else {
            c
        }),
        CacheUse::Drop { path } => invalidated(c, d, path),
    }
}

/// `d` is `c` after these uses, one after another.
pub open spec fn used_along(c: CacheView, uses: Seq<CacheUse>, d: CacheView) -> bool
    decreases uses.len(),
{
    if uses.len() == 0 {
        d == c
    } else {
        exists|mid: CacheView|
            used_along(c, uses.drop_last(), mid) && #[trigger] used_once(mid, uses.last(), d)
    }
}

/// However a cache is used, it never holds more values than it was made for, or
/// one, and it counts exactly the paths that carry a value.
pub proof fn law_bound_holds_throughout(max_entries: usize, uses: Seq<CacheUse>, d: CacheView)
    requires
        used_along(fresh_cache(max_entries), uses, d),
    ensures
        d.inv(),
        within_bound(d),
        d.max_entries == max_entries,
        valued(d).len() == d.lru.dom().len(),
    decreases uses.len(),
{
    if uses.len() == 0 {
        assert forall|q: Path, k: int|
            d.nodes.contains_key(q) && 0 <= k <= q.len() implies d.nodes.contains_key(
            #[trigger] q.take(k),
        ) by {
            assert(q.take(k) =~= q);
        }
    } else {
        let c = choose|c: CacheView|
            used_along(fresh_cache(max_entries), uses.drop_last(), c) && #[trigger] used_once(
                c,
                uses.last(),
                d,
            );
        law_bound_holds_throughout(max_entries, uses.drop_last(), c);
        lemma_use_keeps_bound(c, uses.last(), d);
    }
    law_count_is_of_values(d);
}

proof fn lemma_use_keeps_bound(c: CacheView, u: CacheUse, d: CacheView)
    requires
        c.inv(),
        within_bound(c),
        used_once(c, u, d),
    ensures
        d.inv(),
        within_bound(d),
        d.max_entries == c.max_entries,
{
    match u {
        CacheUse::PutIds { path, ids } => {
            if ids.len() == path.len() + 1 && c.next_entry_id < u64::MAX {
                let mid = choose|mid: CacheView| #[trigger]
                    made_room(c, mid, path) && d == with_ids(mid, path, ids);
                lemma_room_inv(c, mid, path);
                lemma_with_ids_inv(mid, path, ids);
                law_put_keeps_bound(c, mid, d, path, ids, arbitrary());
            }
        },
        CacheUse::PutTerminal { path, parent_ids, value } => {
            if parent_ids.len() == path.len() && c.next_entry_id < u64::MAX {
                let mid = choose|mid: CacheView| #[trigger]
                    made_room(c, mid, path) && with_terminal(mid, d, path, parent_ids, value);
                lemma_room_inv(c, mid, path);
                lemma_with_terminal_inv(mid, d, path, parent_ids, value);
                law_put_keeps_bound(c, mid, d, path, parent_ids, value);
            }
        },
        CacheUse::Hit { path } => {
            if c.nodes.contains_key(path) {
                lemma_refreshed_inv(c, path);
                if c.nodes[path].entry_id is Some && c.next_entry_id < u64::MAX {
                    let old = c.nodes[path].entry_id->0;
                    assert(c.lru.contains_key(old));
                    assert(d.lru.dom() =~= c.lru.dom().remove(old).insert(c.next_entry_id));
                    assert(!c.lru.contains_key(c.next_entry_id));
                }
            }
        },
        CacheUse::Drop { path } => {
            law_invalidate_keeps_bound(c, d, path);
            if path.len() > 0 {
                lemma_invalidated_inv(c, d, path);
            } else {
                assert forall|q: Path, k: int|
                    d.nodes.contains_key(q) && 0 <= k <= q.len() implies d.nodes.contains_key(
                    #[trigger] q.take(k),
                ) by {
                    assert(q.take(k) =~= q);
                }
            }
        },
    }
}

/// A cached object or link replaces what was cached for its path, and no path on
/// the way to it ends before it.
pub proof fn law_put_terminal_replaces(
    c: CacheView,
    mid: CacheView,
    d: CacheView,
    p: Path,
    parent_ids: Seq<u64>,
    value: PathResolveTerminalValue,
    q: Path,
    k: int,
)
    requires
        c.inv(),
        made_room(c, mid, p),
        with_terminal(mid, d, p, parent_ids, value),
        p.len() > 0,
        q.is_prefix_of(p),
        q != p,
    ensures
        own_ids(d.nodes[p]) is None,
        !d.is_terminal_depth(q, k),
{
    let t = crate::path_cache::terminal_set(mid.nodes, p, value, mid.next_entry_id);
    assert(p.is_prefix_of(p)) by {
        assert(p =~= p.subrange(0, p.len() as int));
    }
    assert(t.dom().contains(p));
    assert(d.nodes.contains_key(p));
    if d.is_terminal_depth(q, k) {
        let x = q.take(k);
        assert(x.is_prefix_of(p)) by {
            assert(x =~= p.subrange(0, x.len() as int));
        }
        assert(x.len() <= q.len());
        assert(q.len() < p.len()) by {
            if q.len() == p.len() {
                assert(q =~= p);
            }
        }
        assert(d.nodes[x].value == t[x].value);
    }
}

} // verus!
