//! Changing an entry and dropping what was resolved through it keeps the path
//! cache true.

use vstd::prelude::*;
use crate::outside::BaseStoreView;
use crate::path_cache::{
    add_edges, invalidated, own_ids, terminal_of, with_ids, with_terminal, without_subtree,
    CacheView, Path, PathResolveTerminalValue,
};
use crate::records::{kind_of, DentryTarget, NodeKind, ObjId};
use crate::resolve::{step, walk, Step};
use crate::resolve_laws::{coherent, follows, hop, node_true};
use crate::tables::{
    create_dentry_after, delete_dentry_after, replace_target_after, TablesView,
};

verus! {

/// The inode that a path leads to through entries that point to inodes.
pub open spec fn reach(v: TablesView, p: Path) -> Option<u64>
    decreases p.len(),
{
    if p.len() == 0 {
        Some(v.root)
    } else {
        match reach(v, p.drop_last()) {
            Some(dir) => hop(v, dir, p.last()),
            None => None,
        }
    }
}

/// Every edge that a cached path runs through is on record with the path it leads to.
pub open spec fn edges_complete(v: TablesView, c: CacheView) -> bool {
    forall|p: Path, j: int|
        c.nodes.contains_key(p) && 0 <= j < p.len() ==> edge_recorded(v, c, #[trigger] p.take(j), p[j])
}

pub open spec fn edge_recorded(v: TablesView, c: CacheView, dir: Path, name: Seq<char>) -> bool {
    match reach(v, dir) {
        Some(id) => c.edges.contains_key((id, name)) && c.edges[(id, name)] == dir.push(name),
        None => false,
    }
}

/// The object that shows through where the directory `id` has no entry.
pub open spec fn base_under(v: TablesView, id: u64) -> Option<ObjId> {
    match v.inode(id) {
        Some(n) => if kind_of(n.state) == NodeKind::Dir {
            n.base_obj_id
        } else {
            None
        },
        None => None,
    }
}

/// The same for the directory that a path leads to.
pub open spec fn shown_base(v: TablesView, p: Path) -> Option<ObjId> {
    match reach(v, p) {
        Some(id) => base_under(v, id),
        None => None,
    }
}

/// Every directory that a path leads to and that lies over an object still does.
pub open spec fn bases_kept(v: TablesView, w: TablesView) -> bool {
    forall|p: Path| #[trigger]
        shown_base(v, p) is Some ==> base_under(w, reach(v, p)->0) == shown_base(v, p)
}

/// As far as paths go, `w` is `v` but for the entry `name` of `parent`.
pub open spec fn only_entry_changed(
    v: TablesView,
    w: TablesView,
    parent: u64,
    name: Seq<char>,
) -> bool {
    &&& w.root == v.root
    &&& forall|d: u64, n: Seq<char>|
        (d, n) != (parent, name) ==> #[trigger] w.dentry(d, n) == v.dentry(d, n)
    &&& bases_kept(v, w)
}

/// As far as paths go, `w` is `v`.
pub open spec fn no_entry_changed(v: TablesView, w: TablesView) -> bool {
    &&& w.root == v.root
    &&& forall|d: u64, n: Seq<char>| #[trigger] w.dentry(d, n) == v.dentry(d, n)
    &&& bases_kept(v, w)
}

/// The requests on single entries change nothing else that paths depend on.
pub proof fn law_entry_requests_change_one_entry(
    v: TablesView,
    parent: u64,
    name: String,
    old_target: DentryTarget,
    target: DentryTarget,
    rev: u64,
    now: u64,
)
    requires
        v.inv(),
    ensures
        create_dentry_after(v, parent, name, target, rev, now) matches Ok(w)
            ==> only_entry_changed(v, w, parent, name@),
        delete_dentry_after(v, parent, name@, rev) matches Ok(w) ==> only_entry_changed(
            v,
            w,
            parent,
            name@,
        ),
        replace_target_after(v, parent, name@, old_target, target, rev, now) matches Ok(w)
            ==> only_entry_changed(v, w, parent, name@),
{
}

proof fn lemma_reach_follows(v: TablesView, ids: Seq<u64>, p: Path, j: int)
    requires
        follows(v, ids, p),
        0 <= j <= p.len(),
    ensures
        reach(v, p.take(j)) == Some(ids[j]),
    decreases j,
{
    if j > 0 {
        lemma_reach_follows(v, ids, p, j - 1);
        assert(p.take(j).drop_last() =~= p.take(j - 1));
        assert(p.take(j).last() == p[j - 1]);
        assert(hop(v, ids[j - 1], p[j - 1]) == Some(ids[j]));
    }
}

/// A path that avoids the changed entry is reached as before.
proof fn lemma_reach_same(
    v: TablesView,
    w: TablesView,
    parent: u64,
    name: Seq<char>,
    c: CacheView,
    q: Path,
    p: Path,
    j: int,
)
    requires
        only_entry_changed(v, w, parent, name),
        edges_complete(v, c),
        c.nodes.contains_key(p),
        0 <= j <= p.len(),
        c.edges.contains_key((parent, name)) ==> c.edges[(parent, name)] == q
            && !q.is_prefix_of(p),
    ensures
        reach(w, p.take(j)) == reach(v, p.take(j)),
    decreases j,
{
    if j > 0 {
        lemma_reach_same(v, w, parent, name, c, q, p, j - 1);
        lemma_edge_avoided(v, parent, name, c, q, p, j - 1);
        assert(p.take(j).drop_last() =~= p.take(j - 1));
        assert(p.take(j).last() == p[j - 1]);
    }
}

/// A cached path outside `q` does not run through the edge that leads to `q`.
proof fn lemma_edge_avoided(
    v: TablesView,
    parent: u64,
    name: Seq<char>,
    c: CacheView,
    q: Path,
    p: Path,
    j: int,
)
    requires
        edges_complete(v, c),
        c.nodes.contains_key(p),
        0 <= j < p.len(),
        c.edges.contains_key((parent, name)) ==> c.edges[(parent, name)] == q
            && !q.is_prefix_of(p),
    ensures
        reach(v, p.take(j)) matches Some(id) && (id, p[j]) != (parent, name),
{
    let dir = p.take(j);
    assert(edge_recorded(v, c, p.take(j), p[j]));
    let id = reach(v, dir)->0;
    if (id, p[j]) == (parent, name) {
        assert(q == dir.push(p[j]));
        assert(q =~= p.subrange(0, j + 1));
        assert(q.len() == j + 1);
        assert(q.is_prefix_of(p));
    }
}

proof fn lemma_follows_same(
    v: TablesView,
    w: TablesView,
    parent: u64,
    name: Seq<char>,
    c: CacheView,
    q: Path,
    p: Path,
    ids: Seq<u64>,
)
    requires
        only_entry_changed(v, w, parent, name),
        edges_complete(v, c),
        c.nodes.contains_key(p),
        c.edges.contains_key((parent, name)) ==> c.edges[(parent, name)] == q
            && !q.is_prefix_of(p),
        follows(v, ids, p),
    ensures
        follows(w, ids, p),
{
    assert forall|j: int| 0 <= j < p.len() implies hop(w, ids[j], #[trigger] p[j]) == Some(
        ids[j + 1],
    ) by {
        lemma_reach_follows(v, ids, p, j);
        lemma_edge_avoided(v, parent, name, c, q, p, j);
        assert(hop(v, ids[j], p[j]) == Some(ids[j + 1]));
    }
}

/// Where an entry stays, and the base shows the same, a step leads to the same.
proof fn lemma_step_same(v: TablesView, w: TablesView, base: BaseStoreView, p: Path, i: int)
    requires
        bases_kept(v, w),
        0 <= i < p.len(),
        reach(v, p.take(i)) is Some,
        w.dentry(reach(v, p.take(i))->0, p[i]) == v.dentry(reach(v, p.take(i))->0, p[i]),
        step(v, base, reach(v, p.take(i))->0, p[i]) is Target,
    ensures
        step(w, base, reach(v, p.take(i))->0, p[i]) == step(v, base, reach(v, p.take(i))->0, p[i]),
{
    let dir = reach(v, p.take(i))->0;
    if v.dentry(dir, p[i]) is None {
        assert(shown_base(v, p.take(i)) is Some);
    }
}

proof fn lemma_walk_same(
    v: TablesView,
    w: TablesView,
    base: BaseStoreView,
    parent: u64,
    name: Seq<char>,
    c: CacheView,
    q: Path,
    p: Path,
    i: int,
    ids: Seq<u64>,
)
    requires
        only_entry_changed(v, w, parent, name),
        edges_complete(v, c),
        c.nodes.contains_key(p),
        c.edges.contains_key((parent, name)) ==> c.edges[(parent, name)] == q
            && !q.is_prefix_of(p),
        0 <= i < p.len(),
        ids.len() == i + 1,
        reach(v, p.take(i)) == Some(ids.last()),
        walk(v, base, p, i, ids) is Terminal,
    ensures
        walk(w, base, p, i, ids) == walk(v, base, p, i, ids),
    decreases p.len() - i,
{
    lemma_edge_avoided(v, parent, name, c, q, p, i);
    let dir = ids.last();
    assert(w.dentry(dir, p[i]) == v.dentry(dir, p[i]));
    lemma_step_same(v, w, base, p, i);
    match step(v, base, dir, p[i]) {
        Step::End(_) => {},
        Step::Target(t) => match t {
            DentryTarget::IndexNodeId(id) => {
                if i < p.len() - 1 {
                    assert(p.take(i + 1).drop_last() =~= p.take(i));
                    assert(p.take(i + 1).last() == p[i]);
                    lemma_walk_same(v, w, base, parent, name, c, q, p, i + 1, ids.push(id));
                }
            },
            _ => {},
        },
    }
}

proof fn lemma_node_same(
    v: TablesView,
    w: TablesView,
    base: BaseStoreView,
    parent: u64,
    name: Seq<char>,
    c: CacheView,
    q: Path,
    p: Path,
)
    requires
        only_entry_changed(v, w, parent, name),
        edges_complete(v, c),
        coherent(v, base, c),
        c.inv(),
        c.nodes.contains_key(p),
        c.edges.contains_key((parent, name)) ==> c.edges[(parent, name)] == q
            && !q.is_prefix_of(p),
    ensures
        node_true(w, base, p, c.nodes[p]),
{
    let n = c.nodes[p];
    assert(node_true(v, base, p, n));
    if let Some(ids) = own_ids(n) {
        lemma_follows_same(v, w, parent, name, c, q, p, ids);
    }
    if let Some(ids) = n.deepest {
        lemma_follows_same(v, w, parent, name, c, q, p, ids);
    }
    if let Some(t) = terminal_of(n) {
        let root = seq![v.root];
        assert(p.len() > 0);
        assert(p.take(0) =~= Seq::empty());
        lemma_walk_same(v, w, base, parent, name, c, q, p, 0, root);
    }
}

/// When an entry changes and the cache drops what was resolved through it, the
/// cache is true of the new tables, and still knows every edge it needs.
pub proof fn law_change_then_invalidate(
    v: TablesView,
    w: TablesView,
    base: BaseStoreView,
    parent: u64,
    name: Seq<char>,
    c: CacheView,
    d: CacheView,
)
    requires
        c.inv(),
        coherent(v, base, c),
        edges_complete(v, c),
        only_entry_changed(v, w, parent, name),
        if c.edges.contains_key((parent, name)) {
            invalidated(c, d, c.edges[(parent, name)])
        } else {
            d == c
        },
    ensures
        coherent(w, base, d),
        edges_complete(w, d),
{
    let e = (parent, name);
    if !c.edges.contains_key(e) {
        let q = Seq::empty();
        assert forall|p: Path| #[trigger] d.nodes.contains_key(p) implies node_true(
            w,
            base,
            p,
            d.nodes[p],
        ) by {
            lemma_node_same(v, w, base, parent, name, c, q, p);
        }
        assert forall|p: Path, j: int|
            d.nodes.contains_key(p) && 0 <= j < p.len() implies edge_recorded(
            w,
            d,
            #[trigger] p.take(j),
            p[j],
        ) by {
            assert(edge_recorded(v, c, p.take(j), p[j]));
            lemma_reach_same(v, w, parent, name, c, q, p, j);
        }
    } else {
        let q = c.edges[e];
        if q.len() == 0 {
            assert forall|p: Path| #[trigger] d.nodes.contains_key(p) implies node_true(
                w,
                base,
                p,
                d.nodes[p],
            ) by {}
        } else if !c.nodes.contains_key(q.drop_last()) {
            assert forall|p: Path| #[trigger] c.nodes.contains_key(p) implies !q.is_prefix_of(
                p,
            ) by {
                if q.is_prefix_of(p) {
                    assert(c.nodes.contains_key(p.take(q.len() - 1)));
                    assert(p.take(q.len() - 1) =~= q.drop_last());
                }
            }
            assert forall|p: Path| #[trigger] d.nodes.contains_key(p) implies node_true(
                w,
                base,
                p,
                d.nodes[p],
            ) by {
                lemma_node_same(v, w, base, parent, name, c, q, p);
            }
            assert forall|p: Path, j: int|
                d.nodes.contains_key(p) && 0 <= j < p.len() implies edge_recorded(
                w,
                d,
                #[trigger] p.take(j),
                p[j],
            ) by {
                assert(edge_recorded(v, c, p.take(j), p[j]));
                lemma_reach_same(v, w, parent, name, c, q, p, j);
            }
        } else {
            let before = without_subtree(c.nodes, q);
            let up = q.drop_last();
            assert forall|p: Path| #[trigger] before.contains_key(p) implies node_true(
                w,
                base,
                p,
                before[p],
            ) by {
                lemma_node_same(v, w, base, parent, name, c, q, p);
            }
            assert forall|k: int| 0 <= k <= up.len() implies before.contains_key(
                #[trigger] up.take(k),
            ) by {
                assert(c.nodes.contains_key(up.take(k)));
            }
            crate::resolve_laws::lemma_rebased_true(w, base, before, d.nodes, up);
            assert forall|p: Path, j: int|
                d.nodes.contains_key(p) && 0 <= j < p.len() implies edge_recorded(
                w,
                d,
                #[trigger] p.take(j),
                p[j],
            ) by {
                assert(before.dom().contains(p));
                assert(c.nodes.contains_key(p));
                assert(edge_recorded(v, c, p.take(j), p[j]));
                lemma_reach_same(v, w, parent, name, c, q, p, j);
                let at = p.take(j).push(p[j]);
                if q.is_prefix_of(at) {
                    assert(q =~= p.subrange(0, q.len() as int));
                    assert(q.is_prefix_of(p));
                }
            }
        }
    }
}

/// No entry leads back to the root directory.
pub open spec fn root_free(v: TablesView) -> bool {
    forall|k: (u64, Seq<char>)| #[trigger]
        v.dentries.contains_key(k) ==> v.dentries[k].target != DentryTarget::IndexNodeId(v.root)
}

/// No inode has two entries.
pub open spec fn one_entry_each(v: TablesView) -> bool {
    forall|k: (u64, Seq<char>), l: (u64, Seq<char>)|
        #![trigger v.dentries.contains_key(k), v.dentries.contains_key(l)]
        v.dentries.contains_key(k) && v.dentries.contains_key(l) && v.dentries[k].target is IndexNodeId
            && v.dentries[k].target == v.dentries[l].target ==> k == l
}

/// Entries form a strict tree under the root.
pub open spec fn strict(v: TablesView) -> bool {
    one_entry_each(v) && root_free(v)
}

/// In a strict tree two paths never lead to the same inode.
pub proof fn law_paths_are_unique(v: TablesView, p: Path, q: Path)
    requires
        strict(v),
        reach(v, p) is Some,
        reach(v, p) == reach(v, q),
    ensures
        p == q,
    decreases p.len() + q.len(),
{
    if p.len() == 0 && q.len() == 0 {
        assert(p =~= q);
    } else if p.len() == 0 {
        let k = (reach(v, q.drop_last())->0, q.last());
        assert(v.dentries.contains_key(k));
    } else if q.len() == 0 {
        let k = (reach(v, p.drop_last())->0, p.last());
        assert(v.dentries.contains_key(k));
    } else {
        let k = (reach(v, p.drop_last())->0, p.last());
        let l = (reach(v, q.drop_last())->0, q.last());
        assert(v.dentries.contains_key(k) && v.dentries.contains_key(l));
        law_paths_are_unique(v, p.drop_last(), q.drop_last());
        assert(p =~= p.drop_last().push(p.last()));
        assert(q =~= q.drop_last().push(q.last()));
    }
}

proof fn lemma_added_edges(
    edges: Map<(u64, Seq<char>), Path>,
    p: Path,
    ids: Seq<u64>,
    n: nat,
    e: (u64, Seq<char>),
)
    requires
        n <= p.len(),
        n <= ids.len(),
    ensures
        ({
            let after = add_edges(edges, p, ids, n);
            &&& (exists|j: int| 0 <= j < n && e == (ids[j], #[trigger] p[j])) ==> after.contains_key(e)
                && exists|j: int|
                0 <= j < n && e == (ids[j], #[trigger] p[j]) && after[e] == p.take(j + 1)
            &&& !(exists|j: int| 0 <= j < n && e == (ids[j], #[trigger] p[j])) ==> (
            after.contains_key(e) <==> edges.contains_key(e)) && (edges.contains_key(e)
                ==> after[e] == edges[e])
        }),
    decreases n,
{
    if n > 0 {
        lemma_added_edges(edges, p, ids, (n - 1) as nat, e);
        let after = add_edges(edges, p, ids, n);
        let last = (ids[n - 1], p[n - 1]);
        if e == last {
            assert(after[e] == p.take(n - 1 + 1));
            assert(e == (ids[n - 1], p[n - 1]));
        } else {
            let mid = add_edges(edges, p, ids, (n - 1) as nat);
            if exists|j: int| 0 <= j < n && e == (ids[j], #[trigger] p[j]) {
                let j0 = choose|j: int| 0 <= j < n && e == (ids[j], #[trigger] p[j]);
                assert(0 <= j0 < n - 1 && e == (ids[j0], p[j0]));
                let j = choose|j: int|
                    0 <= j < n - 1 && e == (ids[j], #[trigger] p[j]) && mid[e] == p.take(j + 1);
                assert(0 <= j < n && e == (ids[j], p[j]) && after[e] == p.take(j + 1));
            }
        }
    }
}

/// In a strict tree, recording the edges along a reached path spoils no record.
proof fn lemma_edges_stay_complete(
    v: TablesView,
    c: CacheView,
    d: CacheView,
    p: Path,
    ids: Seq<u64>,
    n: nat,
)
    requires
        strict(v),
        edges_complete(v, c),
        n == p.len(),
        n <= ids.len(),
        forall|j: int| 0 <= j < n ==> reach(v, #[trigger] p.take(j)) == Some(ids[j]),
        d.edges == add_edges(c.edges, p, ids, n),
        forall|q: Path| #[trigger]
            d.nodes.contains_key(q) ==> c.nodes.contains_key(q) || q.is_prefix_of(p),
    ensures
        edges_complete(v, d),
{
    assert forall|q: Path, j: int|
        d.nodes.contains_key(q) && 0 <= j < q.len() implies edge_recorded(
        v,
        d,
        #[trigger] q.take(j),
        q[j],
    ) by {
        let dir = q.take(j);
        if q.is_prefix_of(p) {
            assert(dir =~= p.take(j));
            assert(q[j] == p[j]);
            let e = (ids[j], p[j]);
            lemma_added_edges(c.edges, p, ids, n, e);
            let m = choose|m: int|
                0 <= m < n && e == (ids[m], #[trigger] p[m]) && d.edges[e] == p.take(m + 1);
            assert(reach(v, p.take(m)) == reach(v, p.take(j)));
            law_paths_are_unique(v, p.take(m), p.take(j));
            assert(p.take(m).len() == m && p.take(j).len() == j);
            assert(p.take(j + 1) =~= dir.push(q[j]));
        } else {
            assert(c.nodes.contains_key(q));
            assert(edge_recorded(v, c, q.take(j), q[j]));
            let e = (reach(v, dir)->0, q[j]);
            lemma_added_edges(c.edges, p, ids, n, e);
            if exists|m: int| 0 <= m < n && e == (ids[m], #[trigger] p[m]) {
                let m = choose|m: int|
                    0 <= m < n && e == (ids[m], #[trigger] p[m]) && d.edges[e] == p.take(m + 1);
                law_paths_are_unique(v, p.take(m), dir);
                assert(p.take(m + 1) =~= dir.push(q[j]));
            }
        }
    }
}

/// A value put where the cache had room keeps every edge on record.
pub proof fn law_put_keeps_edges(v: TablesView, c: CacheView, p: Path, ids: Seq<u64>)
    requires
        strict(v),
        edges_complete(v, c),
        follows(v, ids, p),
    ensures
        edges_complete(v, with_ids(c, p, ids)),
{
    assert forall|j: int| 0 <= j < p.len() implies reach(v, #[trigger] p.take(j)) == Some(ids[j]) by {
        lemma_reach_follows(v, ids, p, j);
    }
    lemma_edges_stay_complete(v, c, with_ids(c, p, ids), p, ids, p.len());
}

/// The same for an object or link put where the cache had room.
pub proof fn law_put_terminal_keeps_edges(
    v: TablesView,
    c: CacheView,
    d: CacheView,
    p: Path,
    parent_ids: Seq<u64>,
    value: PathResolveTerminalValue,
)
    requires
        strict(v),
        edges_complete(v, c),
        p.len() > 0,
        parent_ids.len() == p.len(),
        follows(v, parent_ids, p.drop_last()),
        with_terminal(c, d, p, parent_ids, value),
    ensures
        edges_complete(v, d),
{
    let up = p.drop_last();
    assert forall|j: int| 0 <= j < p.len() implies reach(v, #[trigger] p.take(j)) == Some(
        parent_ids[j],
    ) by {
        lemma_reach_follows(v, parent_ids, up, j);
        assert(up.take(j) =~= p.take(j));
    }
    let t = crate::path_cache::terminal_set(c.nodes, p, value, c.next_entry_id);
    assert forall|q: Path| #[trigger] d.nodes.contains_key(q) implies c.nodes.contains_key(q)
        || q.is_prefix_of(p) by {
        assert(t.dom().contains(q));
    }
    lemma_edges_stay_complete(v, c, d, p, parent_ids, p.len());
}

proof fn lemma_walk_kept(
    v: TablesView,
    w: TablesView,
    base: BaseStoreView,
    p: Path,
    i: int,
    ids: Seq<u64>,
)
    requires
        no_entry_changed(v, w),
        0 <= i < p.len(),
        ids.len() == i + 1,
        reach(v, p.take(i)) == Some(ids.last()),
        walk(v, base, p, i, ids) is Terminal,
    ensures
        walk(w, base, p, i, ids) == walk(v, base, p, i, ids),
    decreases p.len() - i,
{
    let dir = ids.last();
    assert(w.dentry(dir, p[i]) == v.dentry(dir, p[i]));
    lemma_step_same(v, w, base, p, i);
    match step(v, base, dir, p[i]) {
        Step::End(_) => {},
        Step::Target(t) => match t {
            DentryTarget::IndexNodeId(id) => {
                if i < p.len() - 1 {
                    assert(p.take(i + 1).drop_last() =~= p.take(i));
                    assert(p.take(i + 1).last() == p[i]);
                    lemma_walk_kept(v, w, base, p, i + 1, ids.push(id));
                }
            },
            _ => {},
        },
    }
}

/// What changes no entry leaves a true cache true.
pub proof fn law_other_changes_keep_cache_true(
    v: TablesView,
    w: TablesView,
    base: BaseStoreView,
    c: CacheView,
)
    requires
        c.inv(),
        coherent(v, base, c),
        edges_complete(v, c),
        no_entry_changed(v, w),
    ensures
        coherent(w, base, c),
        edges_complete(w, c),
{
    assert forall|p: Path| #[trigger] c.nodes.contains_key(p) implies node_true(
        w,
        base,
        p,
        c.nodes[p],
    ) by {
        let n = c.nodes[p];
        assert(node_true(v, base, p, n));
        if let Some(ids) = own_ids(n) {
            assert forall|j: int| 0 <= j < p.len() implies hop(w, ids[j], #[trigger] p[j]) == Some(
                ids[j + 1],
            ) by {
                assert(hop(v, ids[j], p[j]) == Some(ids[j + 1]));
                assert(w.dentry(ids[j], p[j]) == v.dentry(ids[j], p[j]));
            }
        }
        if let Some(ids) = n.deepest {
            assert forall|j: int| 0 <= j < p.len() implies hop(w, ids[j], #[trigger] p[j]) == Some(
                ids[j + 1],
            ) by {
                assert(hop(v, ids[j], p[j]) == Some(ids[j + 1]));
                assert(w.dentry(ids[j], p[j]) == v.dentry(ids[j], p[j]));
            }
        }
        if let Some(t) = terminal_of(n) {
            assert(p.len() > 0);
            assert(p.take(0) =~= Seq::empty());
            lemma_walk_kept(v, w, base, p, 0, seq![v.root]);
        }
    }
    assert forall|p: Path, j: int|
        c.nodes.contains_key(p) && 0 <= j < p.len() implies edge_recorded(
        w,
        c,
        #[trigger] p.take(j),
        p[j],
    ) by {
        assert(edge_recorded(v, c, p.take(j), p[j]));
        lemma_reach_kept(v, w, p.take(j));
    }
}

pub proof fn lemma_reach_kept(v: TablesView, w: TablesView, p: Path)
    requires
        no_entry_changed(v, w),
    ensures
        reach(w, p) == reach(v, p),
    decreases p.len(),
{
    if p.len() > 0 {
        lemma_reach_kept(v, w, p.drop_last());
        if let Some(dir) = reach(v, p.drop_last()) {
            assert(w.dentry(dir, p.last()) == v.dentry(dir, p.last()));
        }
    }
}

} // verus!
