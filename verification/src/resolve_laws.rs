//! The cache changes nothing about what a path resolves to.

use vstd::prelude::*;
use crate::errors::Stage;
use crate::outside::BaseStoreView;
use crate::path_cache::{
    empty_node, evicted_entry, is_best, is_child, is_oldest, known_ids, made_room, own_ids, rebased,
    terminal_of, terminal_set, with_ids, with_terminal, CacheNodeView, CacheView, Path,
    PathResolveTerminalValue,
};
use crate::records::DentryTarget;
use crate::resolve::{
    at_terminal, at_walk_end, cached_walk, inode_answer, is_start, pass, resolves, step, walk,
    Answer, PassEnd, Step, WalkEnd,
};
use crate::tables::TablesView;

verus! {

/// One pass without any cache.
pub open spec fn plain_pass(v: TablesView, base: BaseStoreView, p: Path, sym_count: nat) -> PassEnd {
    if p.len() == 0 {
        PassEnd::Done(inode_answer(v, Stage::RootInode, v.root))
    } else {
        at_walk_end(p, walk(v, base, p, 0, seq![v.root]), sym_count)
    }
}

/// What a path resolves to in the tables alone.
pub open spec fn resolved(v: TablesView, base: BaseStoreView, p: Path, sym_count: nat) -> Answer
    decreases sym_count,
{
    match plain_pass(v, base, p, sym_count) {
        PassEnd::Done(a) => a,
        PassEnd::Again(q) => if sym_count > 0 {
            resolved(v, base, q, (sym_count - 1) as nat)
        } else {
            Answer::Absent
        },
    }
}

/// The inode that the entry `name` of `dir` points to, if it points to one.
pub open spec fn hop(v: TablesView, dir: u64, name: Seq<char>) -> Option<u64> {
    match v.dentry(dir, name) {
        Some(d) => match d.target {
            DentryTarget::IndexNodeId(id) => Some(id),
            _ => None,
        },
        None => None,
    }
}

/// `ids` are the inodes along `p`, from the root on (and maybe further).
pub open spec fn follows(v: TablesView, ids: Seq<u64>, p: Path) -> bool {
    &&& ids.len() >= p.len() + 1
    &&& ids[0] == v.root
    &&& forall|j: int| 0 <= j < p.len() ==> hop(v, ids[j], #[trigger] p[j]) == Some(ids[j + 1])
}

/// The walk along `p` ends at its last component with `value`.
pub open spec fn ends_at(
    v: TablesView,
    base: BaseStoreView,
    p: Path,
    value: PathResolveTerminalValue,
) -> bool {
    match walk(v, base, p, 0, seq![v.root]) {
        WalkEnd::Terminal { depth, ids, value: found } => depth == p.len() && found == value,
        _ => false,
    }
}

/// What one node of the cache knows is so in the tables.
pub open spec fn node_true(v: TablesView, base: BaseStoreView, p: Path, n: CacheNodeView) -> bool {
    &&& own_ids(n) matches Some(ids) ==> follows(v, ids, p)
    &&& n.deepest matches Some(ids) ==> follows(v, ids, p)
    &&& terminal_of(n) matches Some(t) ==> ends_at(v, base, p, t)
}

/// Everything that the cache knows is so in the tables.
pub open spec fn coherent(v: TablesView, base: BaseStoreView, c: CacheView) -> bool {
    forall|p: Path| #[trigger] c.nodes.contains_key(p) ==> node_true(v, base, p, c.nodes[p])
}

pub proof fn lemma_walk_skips(
    v: TablesView,
    base: BaseStoreView,
    p: Path,
    ids: Seq<u64>,
    i: int,
    k: int,
)
    requires
        0 <= i <= k < p.len(),
        ids.len() >= k + 1,
        forall|j: int| 0 <= j < k ==> hop(v, ids[j], #[trigger] p[j]) == Some(ids[j + 1]),
    ensures
        walk(v, base, p, i, ids.take(i + 1)) == walk(v, base, p, k, ids.take(k + 1)),
    decreases k - i,
{
    if i < k {
        assert(hop(v, ids[i], p[i]) == Some(ids[i + 1]));
        assert(ids.take(i + 1).last() == ids[i]);
        assert(ids.take(i + 1).push(ids[i + 1]) =~= ids.take(i + 2));
        lemma_walk_skips(v, base, p, ids, i + 1, k);
    }
}

proof fn lemma_walk_terminal_extends(
    v: TablesView,
    base: BaseStoreView,
    p: Path,
    k: int,
    i: int,
    ids: Seq<u64>,
)
    requires
        0 <= i < k <= p.len(),
        walk(v, base, p.take(k), i, ids) is Terminal,
    ensures
        walk(v, base, p, i, ids) == walk(v, base, p.take(k), i, ids),
    decreases k - i,
{
    let q = p.take(k);
    assert(q[i] == p[i]);
    match step(v, base, ids.last(), p[i]) {
        Step::End(_) => {},
        Step::Target(t) => match t {
            DentryTarget::IndexNodeId(id) => {
                if i < k - 1 {
                    lemma_walk_terminal_extends(v, base, p, k, i + 1, ids.push(id));
                }
            },
            _ => {},
        },
    }
}

proof fn lemma_walk_terminal_shortens(
    v: TablesView,
    base: BaseStoreView,
    p: Path,
    i: int,
    ids: Seq<u64>,
)
    requires
        0 <= i < p.len(),
        walk(v, base, p, i, ids) is Terminal,
    ensures
        ({
            let depth = walk(v, base, p, i, ids)->depth;
            &&& i < depth <= p.len()
            &&& walk(v, base, p.take(depth), i, ids) == walk(v, base, p, i, ids)
        }),
    decreases p.len() - i,
{
    match step(v, base, ids.last(), p[i]) {
        Step::End(_) => {},
        Step::Target(t) => match t {
            DentryTarget::IndexNodeId(id) => {
                if i < p.len() - 1 {
                    lemma_walk_terminal_shortens(v, base, p, i + 1, ids.push(id));
                    let depth = walk(v, base, p, i + 1, ids.push(id))->depth;
                    assert(p.take(depth)[i] == p[i]);
                }
            },
            _ => {
                assert(p.take(i + 1)[i] == p[i]);
            },
        },
    }
}

pub proof fn lemma_walk_inode_follows(
    v: TablesView,
    base: BaseStoreView,
    p: Path,
    i: int,
    ids: Seq<u64>,
)
    requires
        0 <= i < p.len(),
        ids.len() == i + 1,
        follows(v, ids, p.take(i)),
        walk(v, base, p, i, ids) is Inode,
    ensures
        follows(v, walk(v, base, p, i, ids)->Inode_ids, p),
        walk(v, base, p, i, ids)->Inode_ids.len() == p.len() + 1,
    decreases p.len() - i,
{
    match step(v, base, ids.last(), p[i]) {
        Step::End(_) => {},
        Step::Target(t) => match t {
            DentryTarget::IndexNodeId(id) => {
                let next = ids.push(id);
                assert(hop(v, ids[i], p[i]) == Some(id)) by {
                    assert(ids.last() == ids[i]);
                }
                assert forall|j: int| 0 <= j < i + 1 implies hop(v, next[j], #[trigger] p[j])
                    == Some(next[j + 1]) by {
                    if j < i {
                        assert(p.take(i)[j] == p[j]);
                    }
                }
                if i < p.len() - 1 {
                    assert forall|j: int| 0 <= j < p.take(i + 1).len() implies hop(
                        v,
                        next[j],
                        #[trigger] p.take(i + 1)[j],
                    ) == Some(next[j + 1]) by {
                        assert(p.take(i + 1)[j] == p[j]);
                    }
                    lemma_walk_inode_follows(v, base, p, i + 1, next);
                }
            },
            _ => {},
        },
    }
}

proof fn lemma_follows_prefix(v: TablesView, ids: Seq<u64>, p: Path, q: Path)
    requires
        follows(v, ids, p),
        q.is_prefix_of(p),
    ensures
        follows(v, ids, q),
{
    assert forall|j: int| 0 <= j < q.len() implies hop(v, ids[j], #[trigger] q[j]) == Some(
        ids[j + 1],
    ) by {
        assert(q[j] == p[j]);
    }
}

/// Working the longest lists out anew keeps the cache true.
proof fn lemma_rebased_coherent(
    v: TablesView,
    base: BaseStoreView,
    before: Map<Path, CacheNodeView>,
    after: Map<Path, CacheNodeView>,
    p: Path,
)
    requires
        rebased(before, after, p),
        forall|q: Path| #[trigger]
            before.contains_key(q) ==> own_and_terminal_true(v, base, q, before[q]),
        forall|q: Path| #[trigger]
            before.contains_key(q) && !q.is_prefix_of(p) ==> node_true(v, base, q, before[q]),
        forall|k: int| 0 <= k <= p.len() ==> before.contains_key(#[trigger] p.take(k)),
    ensures
        forall|q: Path| #[trigger] after.contains_key(q) ==> node_true(v, base, q, after[q]),
{
    assert forall|k: int| 0 <= k <= p.len() implies node_true(
        v,
        base,
        p.take(k),
        after[#[trigger] p.take(k)],
    ) by {
        lemma_rebased_coherent_at(v, base, before, after, p, k);
    }
    assert forall|q: Path| #[trigger] after.contains_key(q) implies node_true(
        v,
        base,
        q,
        after[q],
    ) by {
        assert(before.dom().contains(q));
        if q.is_prefix_of(p) {
            assert(p.take(q.len() as int) =~= q);
        } else {
            assert(before.contains_key(q));
        }
    }
}

/// Working the longest lists out anew in a true set of nodes keeps it true.
pub proof fn lemma_rebased_true(
    v: TablesView,
    base: BaseStoreView,
    before: Map<Path, CacheNodeView>,
    after: Map<Path, CacheNodeView>,
    p: Path,
)
    requires
        rebased(before, after, p),
        forall|q: Path| #[trigger] before.contains_key(q) ==> node_true(v, base, q, before[q]),
        forall|k: int| 0 <= k <= p.len() ==> before.contains_key(#[trigger] p.take(k)),
    ensures
        forall|q: Path| #[trigger] after.contains_key(q) ==> node_true(v, base, q, after[q]),
{
    lemma_rebased_coherent(v, base, before, after, p);
}

spec fn own_and_terminal_true(
    v: TablesView,
    base: BaseStoreView,
    p: Path,
    n: CacheNodeView,
) -> bool {
    &&& own_ids(n) matches Some(ids) ==> follows(v, ids, p)
    &&& terminal_of(n) matches Some(t) ==> ends_at(v, base, p, t)
}

proof fn lemma_rebased_coherent_at(
    v: TablesView,
    base: BaseStoreView,
    before: Map<Path, CacheNodeView>,
    after: Map<Path, CacheNodeView>,
    p: Path,
    k: int,
)
    requires
        rebased(before, after, p),
        forall|q: Path| #[trigger]
            before.contains_key(q) ==> own_and_terminal_true(v, base, q, before[q]),
        forall|q: Path| #[trigger]
            before.contains_key(q) && !q.is_prefix_of(p) ==> node_true(v, base, q, before[q]),
        forall|j: int| 0 <= j <= p.len() ==> before.contains_key(#[trigger] p.take(j)),
        0 <= k <= p.len(),
    ensures
        node_true(v, base, p.take(k), after[p.take(k)]),
    decreases p.len() - k,
{
    let q = p.take(k);
    assert(before.contains_key(q));
    assert(before.dom().contains(q) && after.dom().contains(q));
    assert(after.contains_key(q));
    assert(is_best(after, q, after[q].deepest));
    assert(own_and_terminal_true(v, base, q, before[q]));
    if let Some(x) = after[q].deepest {
        if own_ids(after[q]) != Some(x) {
            let c = choose|c: Path| #[trigger] is_child(after, c, q) && after[c].deepest == Some(x);
            assert(after.contains_key(c));
            if c.is_prefix_of(p) {
                assert(c =~= p.take(k + 1));
                lemma_rebased_coherent_at(v, base, before, after, p, k + 1);
            } else {
                assert(before.dom().contains(c));
                assert(node_true(v, base, c, before[c]));
            }
            assert(node_true(v, base, c, after[c]));
            assert(q.is_prefix_of(c)) by {
                assert(q =~= c.subrange(0, q.len() as int));
            }
            lemma_follows_prefix(v, x, c, q);
        }
    }
}

proof fn lemma_room_coherent(
    v: TablesView,
    base: BaseStoreView,
    c: CacheView,
    mid: CacheView,
    p: Path,
)
    requires
        c.inv(),
        coherent(v, base, c),
        made_room(c, mid, p),
    ensures
        coherent(v, base, mid),
{
    if c.is_new(p) && c.lru.dom().len() >= c.max_entries && c.lru.dom().len() != 0 {
        let id = choose|id: u64| #[trigger] is_oldest(c, id) && evicted_entry(c, mid, id);
        let q = c.lru[id];
        let cleared = c.nodes.insert(
            q,
            CacheNodeView { value: None, entry_id: None, ..c.nodes[q] },
        );
        assert(c.nodes.contains_key(q));
        assert forall|k: int| 0 <= k <= q.len() implies cleared.contains_key(
            #[trigger] q.take(k),
        ) by {
            assert(c.nodes.contains_key(q.take(k)));
        }
        assert forall|r: Path| #[trigger] cleared.contains_key(r) implies own_and_terminal_true(
            v,
            base,
            r,
            cleared[r],
        ) by {
            assert(c.nodes.contains_key(r));
        }
        assert forall|r: Path| #[trigger]
            cleared.contains_key(r) && !r.is_prefix_of(q) implies node_true(
            v,
            base,
            r,
            cleared[r],
        ) by {
            assert(c.nodes.contains_key(r));
            assert(r != q) by {
                assert(q =~= q.subrange(0, q.len() as int));
            }
        }
        lemma_rebased_coherent(v, base, cleared, mid.nodes, q);
    }
}

proof fn lemma_with_ids_coherent(
    v: TablesView,
    base: BaseStoreView,
    c: CacheView,
    p: Path,
    ids: Seq<u64>,
)
    requires
        coherent(v, base, c),
        follows(v, ids, p),
    ensures
        coherent(v, base, with_ids(c, p, ids)),
{
    let d = with_ids(c, p, ids);
    assert forall|q: Path| #[trigger] d.nodes.contains_key(q) implies node_true(
        v,
        base,
        q,
        d.nodes[q],
    ) by {
        if q.is_prefix_of(p) {
            lemma_follows_prefix(v, ids, p, q);
            if c.nodes.contains_key(q) {
                assert(node_true(v, base, q, c.nodes[q]));
            }
        } else {
            assert(c.nodes.contains_key(q));
        }
    }
}

proof fn lemma_with_terminal_coherent(
    v: TablesView,
    base: BaseStoreView,
    c: CacheView,
    d: CacheView,
    p: Path,
    ids: Seq<u64>,
    value: PathResolveTerminalValue,
)
    requires
        c.inv(),
        coherent(v, base, c),
        with_terminal(c, d, p, ids, value),
        ends_at(v, base, p, value),
    ensures
        coherent(v, base, d),
{
    let t = terminal_set(c.nodes, p, value, c.next_entry_id);
    assert forall|k: int| 0 <= k <= p.len() implies t.contains_key(#[trigger] p.take(k)) by {
        assert(p.take(k).is_prefix_of(p)) by {
            assert(p.take(k) =~= p.subrange(0, p.take(k).len() as int));
        }
    }
    assert forall|q: Path| #[trigger] t.contains_key(q) implies own_and_terminal_true(
        v,
        base,
        q,
        t[q],
    ) by {
        if !q.is_prefix_of(p) {
            assert(q != p) by {
                assert(p =~= p.subrange(0, p.len() as int));
            }
            assert(c.nodes.contains_key(q));
            assert(node_true(v, base, q, c.nodes[q]));
        }
    }
    assert forall|q: Path| #[trigger]
        t.contains_key(q) && !q.is_prefix_of(p) implies node_true(v, base, q, t[q]) by {
        assert(q != p) by {
            assert(p =~= p.subrange(0, p.len() as int));
        }
        assert(c.nodes.contains_key(q));
        assert(node_true(v, base, q, c.nodes[q]));
    }
    lemma_rebased_coherent(v, base, t, d.nodes, p);
}

pub proof fn lemma_start_follows(
    v: TablesView,
    base: BaseStoreView,
    c: CacheView,
    p: Path,
    ids: Seq<u64>,
)
    requires
        coherent(v, base, c),
        is_start(c, v.root, p, ids),
    ensures
        1 <= ids.len() <= p.len() + 1,
        follows(v, ids, p.take(ids.len() - 1)),
{
    if exists|k: int| c.prefix_known(p, k) {
        let k = ids.len() - 1;
        let q = p.take(k);
        assert(c.prefix_known(p, k));
        assert(node_true(v, base, q, c.nodes[q]));
        let known = known_ids(c.nodes[q])->0;
        assert(follows(v, known, q));
        assert forall|j: int| 0 <= j < q.len() implies hop(v, ids[j], #[trigger] q[j]) == Some(
            ids[j + 1],
        ) by {
            assert(hop(v, known[j], q[j]) == Some(known[j + 1]));
        }
    }
}

proof fn lemma_take_of_take(v: TablesView, ids: Seq<u64>, p: Path, k: int)
    requires
        0 <= k <= p.len(),
        follows(v, ids, p.take(k)),
    ensures
        forall|j: int| 0 <= j < k ==> hop(v, ids[j], #[trigger] p[j]) == Some(ids[j + 1]),
{
    assert forall|j: int| 0 <= j < k implies hop(v, ids[j], #[trigger] p[j]) == Some(
        ids[j + 1],
    ) by {
        assert(p.take(k)[j] == p[j]);
    }
}

/// One pass with a true cache ends as it would without, and leaves the cache true.
pub proof fn lemma_pass_is_plain(
    v: TablesView,
    base: BaseStoreView,
    c: CacheView,
    p: Path,
    n: nat,
    d: CacheView,
    end: PassEnd,
)
    requires
        c.inv(),
        coherent(v, base, c),
        pass(v, base, c, p, n, d, end),
    ensures
        end == plain_pass(v, base, p, n),
        coherent(v, base, d),
{
    reveal(pass);
    if p.len() == 0 {
    } else if exists|k: int| c.is_terminal_depth(p, k) {
        let k = choose|k: int| #[trigger]
            c.is_terminal_depth(p, k) && d == c.refreshed(p.take(k)) && end == at_terminal(
                p,
                k,
                terminal_of(c.nodes[p.take(k)])->0,
                n,
            );
        let q = p.take(k);
        assert(node_true(v, base, q, c.nodes[q]));
        lemma_walk_terminal_extends(v, base, p, k, 0, seq![v.root]);
        assert forall|r: Path| #[trigger] d.nodes.contains_key(r) implies node_true(
            v,
            base,
            r,
            d.nodes[r],
        ) by {
            assert(c.nodes.contains_key(r));
            assert(node_true(v, base, r, c.nodes[r]));
        }
    } else {
        let ids = choose|ids: Seq<u64>| #[trigger]
            is_start(c, v.root, p, ids) && if ids.len() == p.len() + 1 {
                d == c && end == PassEnd::Done(inode_answer(v, Stage::Inode, ids.last()))
            } else {
                let w = walk(v, base, p, ids.len() - 1, ids);
                cached_walk(c, d, p, w) && end == at_walk_end(p, w, n)
            };
        lemma_start_follows(v, base, c, p, ids);
        let k = ids.len() - 1;
        lemma_take_of_take(v, ids, p, k);
        assert(ids.take(1) =~= seq![v.root]);
        if ids.len() == p.len() + 1 {
            let last = p.len() - 1;
            lemma_walk_skips(v, base, p, ids, 0, last);
            assert(ids.take(last + 1).last() == ids[last]);
            assert(hop(v, ids[last], p[last]) == Some(ids[last + 1]));
            assert(ids.take(last + 1).push(ids[last + 1]) =~= ids);
        } else {
            lemma_walk_skips(v, base, p, ids, 0, k);
            assert(ids.take(k + 1) =~= ids);
            let w = walk(v, base, p, k, ids);
            match w {
                WalkEnd::Inode { ids: found, inode } if c.next_entry_id < u64::MAX => {
                    lemma_walk_inode_follows(v, base, p, k, ids);
                    let mid = choose|mid: CacheView| #[trigger]
                        made_room(c, mid, p) && d == with_ids(mid, p, found);
                    lemma_room_coherent(v, base, c, mid, p);
                    lemma_with_ids_coherent(v, base, mid, p, found);
                },
                WalkEnd::Terminal { depth, ids: found, value } if c.next_entry_id < u64::MAX => {
                    lemma_walk_terminal_shortens(v, base, p, k, ids);
                    let q = p.take(depth);
                    let mid = choose|mid: CacheView| #[trigger]
                        made_room(c, mid, q) && with_terminal(mid, d, q, found, value);
                    assert(ends_at(v, base, q, value)) by {
                        assert forall|j: int| 0 <= j < k implies hop(
                            v,
                            ids[j],
                            #[trigger] q[j],
                        ) == Some(ids[j + 1]) by {
                            assert(q[j] == p[j]);
                        }
                        lemma_walk_skips(v, base, q, ids, 0, k);
                    }
                    lemma_room_coherent(v, base, c, mid, q);
                    crate::path_cache::lemma_room_inv(c, mid, q);
                    lemma_with_terminal_coherent(v, base, mid, d, q, found, value);
                },
                _ => {},
            }
        }
    }
}

/// A path resolves to the same with a true cache as without, however the cache
/// was filled; and the cache is true afterwards.
pub proof fn law_cache_is_transparent(
    v: TablesView,
    base: BaseStoreView,
    c: CacheView,
    p: Path,
    sym_count: nat,
    d: CacheView,
    answer: Answer,
)
    requires
        c.inv(),
        coherent(v, base, c),
        resolves(v, base, c, p, sym_count, d, answer),
    ensures
        answer == resolved(v, base, p, sym_count),
        coherent(v, base, d),
        d.inv(),
    decreases sym_count,
{
    let (mid, end) = choose|mid: CacheView, end: PassEnd| #[trigger]
        pass(v, base, c, p, sym_count, mid, end) && match end {
            PassEnd::Done(a) => d == mid && a == answer,
            PassEnd::Again(q) => sym_count > 0 && resolves(
                v,
                base,
                mid,
                q,
                (sym_count - 1) as nat,
                d,
                answer,
            ),
        };
    lemma_pass_is_plain(v, base, c, p, sym_count, mid, end);
    crate::resolve::lemma_pass_inv(v, base, c, p, sym_count, mid, end);
    match end {
        PassEnd::Done(_) => {},
        PassEnd::Again(q) => {
            law_cache_is_transparent(v, base, mid, q, (sym_count - 1) as nat, d, answer);
        },
    }
}

/// An empty cache is true of any tables.
pub proof fn law_empty_cache_is_true(v: TablesView, base: BaseStoreView, c: CacheView)
    requires
        c.nodes == Map::<Path, CacheNodeView>::empty().insert(Seq::empty(), empty_node()),
    ensures
        coherent(v, base, c),
{
}

} // verus!
