//! What dropping an edge takes out of the path cache, and what it spares.

use vstd::prelude::*;
use crate::committed::drops_edge;
use crate::path_cache::{
    add_edges, fresh_cache, invalidated, lemma_room_inv, lemma_with_ids_inv, made_room, terminal_of,
    with_ids, with_terminal, CacheView, Path,
};
use crate::path_cache_laws::{law_invalidate_is_exact, used_along, used_once, CacheUse};

verus! {

/// The values that the cache holds at `p` or below.
pub open spec fn entries_under(c: CacheView, p: Path) -> Set<u64> {
    Set::new(|j: u64| c.lru.contains_key(j) && p.is_prefix_of(c.lru[j]))
}

/// The cache answers queries for `q` as another one does.
pub open spec fn answers_alike(c: CacheView, d: CacheView, q: Path) -> bool {
    &&& c.ids_for(q) == d.ids_for(q)
    &&& forall|k: int| #[trigger]
        c.is_terminal_depth(q, k) == d.is_terminal_depth(q, k) && (c.is_terminal_depth(q, k)
            ==> terminal_of(c.nodes[q.take(k)]) == terminal_of(d.nodes[q.take(k)]))
}

/// Among distinct parents the edge at `i` leads to the path up to it.
proof fn lemma_edge_leads(
    edges: Map<(u64, Seq<char>), Path>,
    p: Path,
    ids: Seq<u64>,
    n: nat,
    i: int,
)
    requires
        0 <= i < n <= p.len(),
        n <= ids.len(),
        ids.no_duplicates(),
    ensures
        add_edges(edges, p, ids, n).contains_key((ids[i], p[i])),
        add_edges(edges, p, ids, n)[(ids[i], p[i])] == p.take(i + 1),
    decreases n,
{
    if i < n - 1 {
        lemma_edge_leads(edges, p, ids, (n - 1) as nat, i);
        assert(ids[i] != ids[n - 1]);
    }
}

proof fn lemma_put_then_drop(
    c: CacheView,
    mid: CacheView,
    p: Path,
    ids: Seq<u64>,
    i: int,
    d: CacheView,
)
    requires
        c.inv(),
        c.next_entry_id < u64::MAX,
        made_room(c, mid, p),
        ids.len() == p.len() + 1,
        ids.no_duplicates(),
        0 <= i < p.len(),
        drops_edge(with_ids(mid, p, ids), (ids[i], p[i]), d),
    ensures
        with_ids(mid, p, ids).inv(),
        invalidated(with_ids(mid, p, ids), d, p.take(i + 1)),
        with_ids(mid, p, ids).nodes.contains_key(p.take(i)),
        p.take(i + 1).drop_last() == p.take(i),
{
    lemma_room_inv(c, mid, p);
    lemma_with_ids_inv(mid, p, ids);
    lemma_edge_leads(mid.edges, p, ids, p.len(), i);
    assert(p.take(i + 1).drop_last() =~= p.take(i));
    assert(p.take(i).is_prefix_of(p)) by {
        assert(p.take(i) =~= p.subrange(0, i));
    }
}

/// Dropping an edge of a path that was put leaves nothing at or below that edge,
/// no matter when it was put there, and the count goes down by what was there.
pub proof fn law_dropped_edge_takes_subtree(
    c: CacheView,
    mid: CacheView,
    p: Path,
    ids: Seq<u64>,
    i: int,
    d: CacheView,
    q: Path,
    k: int,
)
    requires
        c.inv(),
        c.lru.dom().finite(),
        c.next_entry_id < u64::MAX,
        made_room(c, mid, p),
        ids.len() == p.len() + 1,
        ids.no_duplicates(),
        0 <= i < p.len(),
        drops_edge(with_ids(mid, p, ids), (ids[i], p[i]), d),
    ensures
        p.take(i + 1).is_prefix_of(q) ==> d.ids_for(q) is None && !d.is_terminal_depth(q, k),
        d.lru.dom().len() + entries_under(with_ids(mid, p, ids), p.take(i + 1)).len() == with_ids(
            mid,
            p,
            ids,
        ).lru.dom().len(),
{
    let e = with_ids(mid, p, ids);
    let at = p.take(i + 1);
    lemma_put_then_drop(c, mid, p, ids, i, d);
    law_invalidate_is_exact(e, d, at, q);
    if at.is_prefix_of(q) && d.is_terminal_depth(q, k) {
        let x = q.take(k);
        law_invalidate_is_exact(e, d, at, x);
        if k > i {
            assert(at.is_prefix_of(x)) by {
                assert(at =~= x.subrange(0, at.len() as int));
            }
        } else {
            assert(x =~= p.take(k)) by {
                assert(at =~= q.subrange(0, at.len() as int));
                assert forall|j: int| 0 <= j < k implies x[j] == p[j] by {
                    assert(at[j] == q.subrange(0, at.len() as int)[j]);
                }
            }
            assert(x.is_prefix_of(p)) by {
                assert(x =~= p.subrange(0, x.len() as int));
            }
            assert(x.len() != p.len());
            assert(e.nodes[x].value is None);
        }
    }
    let gone = entries_under(e, at);
    assert(mid.lru.dom().finite()) by {
        assert(mid.lru.dom().subset_of(c.lru.dom()));
        vstd::set_lib::lemma_set_subset_finite(c.lru.dom(), mid.lru.dom());
    }
    assert(e.lru.dom().subset_of(mid.lru.dom().insert(mid.next_entry_id)));
    vstd::set_lib::lemma_set_subset_finite(mid.lru.dom().insert(mid.next_entry_id), e.lru.dom());
    assert(gone.subset_of(e.lru.dom()));
    assert(d.lru.dom().subset_of(e.lru.dom()));
    vstd::set_lib::lemma_set_subset_finite(e.lru.dom(), gone);
    vstd::set_lib::lemma_set_subset_finite(e.lru.dom(), d.lru.dom());
    assert(d.lru.dom().disjoint(gone));
    vstd::set_lib::lemma_set_disjoint_lens(d.lru.dom(), gone);
    assert(d.lru.dom() + gone =~= e.lru.dom());
}

/// Dropping an edge of a path that was put changes no answer for a path that
/// neither runs through the edge nor ends on the way to it.
pub proof fn law_dropped_edge_spares_others(
    c: CacheView,
    mid: CacheView,
    p: Path,
    ids: Seq<u64>,
    i: int,
    d: CacheView,
    q: Path,
)
    requires
        c.inv(),
        c.next_entry_id < u64::MAX,
        made_room(c, mid, p),
        ids.len() == p.len() + 1,
        ids.no_duplicates(),
        0 <= i < p.len(),
        drops_edge(with_ids(mid, p, ids), (ids[i], p[i]), d),
        !p.take(i + 1).is_prefix_of(q),
        !q.is_prefix_of(p.take(i + 1)),
    ensures
        answers_alike(with_ids(mid, p, ids), d, q),
{
    let e = with_ids(mid, p, ids);
    let at = p.take(i + 1);
    lemma_put_then_drop(c, mid, p, ids, i, d);
    law_invalidate_is_exact(e, d, at, q);
    assert(!q.is_prefix_of(p.take(i))) by {
        if q.is_prefix_of(p.take(i)) {
            assert(q =~= at.subrange(0, q.len() as int));
        }
    }
    assert forall|k: int| 0 <= k <= q.len() implies {
        &&& e.nodes.contains_key(#[trigger] q.take(k)) == d.nodes.contains_key(q.take(k))
        &&& e.nodes.contains_key(q.take(k)) ==> e.nodes[q.take(k)].value == d.nodes[q.take(
            k,
        )].value
    } by {
        let x = q.take(k);
        law_invalidate_is_exact(e, d, at, x);
        if at.is_prefix_of(x) {
            assert(at =~= q.subrange(0, at.len() as int));
        }
    }
    assert forall|k: int| #[trigger]
        e.is_terminal_depth(q, k) == d.is_terminal_depth(q, k) && (e.is_terminal_depth(q, k)
            ==> terminal_of(e.nodes[q.take(k)]) == terminal_of(d.nodes[q.take(k)])) by {
        if e.is_terminal_depth(q, k) {
            lemma_same_depth(e, d, q, k);
        }
        if d.is_terminal_depth(q, k) {
            lemma_same_depth(d, e, q, k);
        }
    }
}

proof fn lemma_same_depth(c: CacheView, d: CacheView, q: Path, k: int)
    requires
        c.is_terminal_depth(q, k),
        forall|k: int|
            0 <= k <= q.len() ==> c.nodes.contains_key(#[trigger] q.take(k))
                == d.nodes.contains_key(q.take(k)) && (c.nodes.contains_key(q.take(k))
                ==> c.nodes[q.take(k)].value == d.nodes[q.take(k)].value),
    ensures
        d.is_terminal_depth(q, k),
        terminal_of(c.nodes[q.take(k)]) == terminal_of(d.nodes[q.take(k)]),
{
    assert forall|j: int| 1 <= j < k implies d.nodes.contains_key(#[trigger] q.take(j))
        ==> terminal_of(d.nodes[q.take(j)]) is None by {
        assert(c.nodes.contains_key(q.take(j)) == d.nodes.contains_key(q.take(j)));
    }
}

/// The use puts a path that runs through `edge`.
pub open spec fn runs_through(u: CacheUse, edge: (u64, Seq<char>)) -> bool {
    match u {
        CacheUse::PutIds { path, ids } => ids.len() == path.len() + 1 && exists|i: int|
            0 <= i < path.len() && ids[i] == edge.0 && #[trigger] path[i] == edge.1,
        CacheUse::PutTerminal { path, parent_ids, .. } => parent_ids.len() == path.len()
            && exists|i: int|
            0 <= i < path.len() && parent_ids[i] == edge.0 && #[trigger] path[i] == edge.1,
        _ => false,
    }
}

proof fn lemma_added_edge(
    edges: Map<(u64, Seq<char>), Path>,
    p: Path,
    ids: Seq<u64>,
    n: nat,
    edge: (u64, Seq<char>),
)
    requires
        n <= p.len(),
        n <= ids.len(),
        add_edges(edges, p, ids, n).contains_key(edge),
        !edges.contains_key(edge),
    ensures
        exists|i: int| 0 <= i < p.len() && ids[i] == edge.0 && #[trigger] p[i] == edge.1,
    decreases n,
{
    if n > 0 {
        if add_edges(edges, p, ids, (n - 1) as nat).contains_key(edge) {
            lemma_added_edge(edges, p, ids, (n - 1) as nat, edge);
        } else {
            assert(p[n - 1] == edge.1);
        }
    }
}

/// Dropping an edge that no put ever ran through changes nothing at all.
pub proof fn law_unused_edge_drops_nothing(
    max_entries: usize,
    uses: Seq<CacheUse>,
    c: CacheView,
    edge: (u64, Seq<char>),
    d: CacheView,
)
    requires
        used_along(fresh_cache(max_entries), uses, c),
        forall|n: int| 0 <= n < uses.len() ==> !runs_through(#[trigger] uses[n], edge),
        drops_edge(c, edge, d),
    ensures
        d == c,
{
    lemma_edges_were_put(max_entries, uses, c, edge);
}

proof fn lemma_edges_were_put(
    max_entries: usize,
    uses: Seq<CacheUse>,
    d: CacheView,
    edge: (u64, Seq<char>),
)
    requires
        used_along(fresh_cache(max_entries), uses, d),
        forall|n: int| 0 <= n < uses.len() ==> !runs_through(#[trigger] uses[n], edge),
    ensures
        !d.edges.contains_key(edge),
    decreases uses.len(),
{
    if uses.len() > 0 {
        let less = uses.drop_last();
        let c = choose|c: CacheView|
            used_along(fresh_cache(max_entries), less, c) && #[trigger] used_once(
                c,
                uses.last(),
                d,
            );
        assert forall|n: int| 0 <= n < less.len() implies !runs_through(#[trigger] less[n], edge) by {
            assert(less[n] == uses[n]);
        }
        lemma_edges_were_put(max_entries, less, c, edge);
        assert(!runs_through(uses[uses.len() - 1], edge));
        if d.edges.contains_key(edge) {
            match uses.last() {
                CacheUse::PutIds { path, ids } => {
                    let mid = choose|mid: CacheView| #[trigger]
                        made_room(c, mid, path) && d == with_ids(mid, path, ids);
                    lemma_added_edge(mid.edges, path, ids, path.len(), edge);
                },
                CacheUse::PutTerminal { path, parent_ids, value } => {
                    let mid = choose|mid: CacheView| #[trigger]
                        made_room(c, mid, path) && with_terminal(mid, d, path, parent_ids, value);
                    lemma_added_edge(mid.edges, path, parent_ids, path.len(), edge);
                },
                _ => {},
            }
        }
    }
}

} // verus!
