//! Resolving with room in the cache keeps every edge on record.

use vstd::prelude::*;
use crate::coherence_laws::{
    edge_recorded, edges_complete, law_put_keeps_edges, law_put_terminal_keeps_edges, strict,
};
use crate::errors::Stage;
use crate::outside::BaseStoreView;
use crate::path_cache::{lru_with, made_room, terminal_of, with_ids, with_terminal, CacheView, Path};
use crate::records::DentryTarget;
use crate::resolve::{
    at_terminal, at_walk_end, cached_walk, inode_answer, is_start, pass, resolves, step, walk,
    Answer, PassEnd, Step, WalkEnd,
};
use crate::resolve_laws::{
    coherent, follows, hop, lemma_pass_is_plain, lemma_start_follows, lemma_walk_inode_follows,
    resolved,
};
use crate::tables::TablesView;

verus! {

/// The cache can take `n` values more before any has to go.
pub open spec fn has_room(c: CacheView, n: nat) -> bool {
    c.lru.dom().finite() && c.lru.dom().len() + n <= c.max_entries
}

proof fn lemma_lru_grows_by_one(lru: Map<u64, Path>, p: Path, id: u64)
    requires
        lru.dom().finite(),
    ensures
        lru_with(lru, p, id).dom().finite(),
        lru_with(lru, p, id).dom().len() <= lru.dom().len() + 1,
{
    let kept = Map::<u64, Path>::new(
        |j: u64| lru.contains_key(j) && !lru[j].is_prefix_of(p),
        |j: u64| lru[j],
    );
    assert(kept.dom().subset_of(lru.dom()));
    vstd::set_lib::lemma_len_subset(kept.dom(), lru.dom());
    assert(lru_with(lru, p, id).dom() =~= kept.dom().insert(id));
}

/// A walk that ends at an object or a link has followed the ids it returns.
proof fn lemma_walk_terminal_follows(
    v: TablesView,
    base: BaseStoreView,
    p: Path,
    i: int,
    ids: Seq<u64>,
)
    requires
        0 <= i < p.len(),
        ids.len() == i + 1,
        follows(v, ids, p.take(i)),
        walk(v, base, p, i, ids) is Terminal,
    ensures
        ({
            let w = walk(v, base, p, i, ids);
            &&& 1 <= w->depth <= p.len()
            &&& w->Terminal_ids.len() == w->depth
            &&& follows(v, w->Terminal_ids, p.take(w->depth - 1))
        }),
    decreases p.len() - i,
{
    match step(v, base, ids.last(), p[i]) {
        Step::End(_) => {},
        Step::Target(t) => match t {
            DentryTarget::IndexNodeId(id) => {
                if i < p.len() - 1 {
                    let next = ids.push(id);
                    assert(hop(v, ids[i], p[i]) == Some(id)) by {
                        assert(ids.last() == ids[i]);
                    }
                    assert forall|j: int| 0 <= j < p.take(i + 1).len() implies hop(
                        v,
                        next[j],
                        #[trigger] p.take(i + 1)[j],
                    ) == Some(next[j + 1]) by {
                        if j < i {
                            assert(p.take(i)[j] == p[j]);
                        }
                    }
                    lemma_walk_terminal_follows(v, base, p, i + 1, next);
                }
            },
            _ => {
                assert(p.take(i + 1 - 1) =~= p.take(i));
            },
        },
    }
}

proof fn lemma_pass_keeps_edges(
    v: TablesView,
    base: BaseStoreView,
    c: CacheView,
    p: Path,
    n: nat,
    d: CacheView,
    end: PassEnd,
)
    requires
        c.inv(),
        strict(v),
        coherent(v, base, c),
        edges_complete(v, c),
        has_room(c, 1),
        pass(v, base, c, p, n, d, end),
    ensures
        edges_complete(v, d),
        d.max_entries == c.max_entries,
        d.lru.dom().finite(),
        d.lru.dom().len() <= c.lru.dom().len() + 1,
{
    reveal(pass);
    if p.len() == 0 {
    } else if exists|k: int| c.is_terminal_depth(p, k) {
        let k = choose|k: int| #[trigger]
            c.is_terminal_depth(p, k) && d == c.refreshed(p.take(k)) && end == at_terminal(
                p,
                k,
                terminal_of(c.nodes[p.take(k)])->0,
                n,
            );
        assert(d.nodes.dom() =~= c.nodes.dom());
        assert forall|q: Path, j: int|
            d.nodes.contains_key(q) && 0 <= j < q.len() implies edge_recorded(
            v,
            d,
            #[trigger] q.take(j),
            q[j],
        ) by {
            assert(c.nodes.contains_key(q));
            assert(edge_recorded(v, c, q.take(j), q[j]));
        }
    } else {
        let ids = choose|ids: Seq<u64>| #[trigger]
            is_start(c, v.root, p, ids) && if ids.len() == p.len() + 1 {
                d == c && end == PassEnd::Done(inode_answer(v, Stage::Inode, ids.last()))
            } else {
                let w = walk(v, base, p, ids.len() - 1, ids);
                cached_walk(c, d, p, w) && end == at_walk_end(p, w, n)
            };
        lemma_start_follows(v, base, c, p, ids);
        if ids.len() != p.len() + 1 && c.next_entry_id < u64::MAX {
            let k = ids.len() - 1;
            let w = walk(v, base, p, k, ids);
            match w {
                WalkEnd::Inode { ids: found, inode } => {
                    lemma_walk_inode_follows(v, base, p, k, ids);
                    let mid = choose|mid: CacheView| #[trigger]
                        made_room(c, mid, p) && d == with_ids(mid, p, found);
                    assert(mid == c);
                    law_put_keeps_edges(v, c, p, found);
                    lemma_lru_grows_by_one(c.lru, p, c.next_entry_id);
                },
                WalkEnd::Terminal { depth, ids: found, value } => {
                    lemma_walk_terminal_follows(v, base, p, k, ids);
                    let q = p.take(depth);
                    let mid = choose|mid: CacheView| #[trigger]
                        made_room(c, mid, q) && with_terminal(mid, d, q, found, value);
                    assert(mid == c);
                    assert(q.drop_last() =~= p.take(depth - 1));
                    law_put_terminal_keeps_edges(v, c, d, q, found, value);
                    lemma_lru_grows_by_one(c.lru, q, c.next_entry_id);
                },
                _ => {},
            }
        }
    }
}

/// A resolution that follows at most `n` links, where the cache has room for a
/// value more than that: the cache stays true and keeps every edge on record.
pub proof fn lemma_resolves_keeps_edges(
    v: TablesView,
    base: BaseStoreView,
    c: CacheView,
    p: Path,
    n: nat,
    d: CacheView,
    answer: Answer,
)
    requires
        c.inv(),
        strict(v),
        coherent(v, base, c),
        edges_complete(v, c),
        has_room(c, n + 1),
        resolves(v, base, c, p, n, d, answer),
    ensures
        d.inv(),
        coherent(v, base, d),
        edges_complete(v, d),
        d.max_entries == c.max_entries,
        d.lru.dom().finite(),
        d.lru.dom().len() <= c.lru.dom().len() + n + 1,
    decreases n,
{
    let (mid, end) = choose|mid: CacheView, end: PassEnd| #[trigger]
        pass(v, base, c, p, n, mid, end) && match end {
            PassEnd::Done(a) => d == mid && a == answer,
            PassEnd::Again(q) => n > 0 && resolves(v, base, mid, q, (n - 1) as nat, d, answer),
        };
    lemma_pass_keeps_edges(v, base, c, p, n, mid, end);
    lemma_pass_is_plain(v, base, c, p, n, mid, end);
    crate::resolve::lemma_pass_inv(v, base, c, p, n, mid, end);
    if let PassEnd::Again(q) = end {
        lemma_resolves_keeps_edges(v, base, mid, q, (n - 1) as nat, d, answer);
    }
}

/// All that `base` knows of the store is so in `world`.
pub open spec fn knows_no_more(base: BaseStoreView, world: BaseStoreView) -> bool {
    &&& base.configured == world.configured
    &&& forall|k: ((Seq<char>, Seq<char>), Seq<char>)| #[trigger]
        base.children.contains_key(k) ==> world.children.contains_key(k) && world.children[k]
            == base.children[k]
}

/// A walk that knows less of the store goes the same way, or has to ask.
proof fn lemma_walk_asks(
    v: TablesView,
    base: BaseStoreView,
    world: BaseStoreView,
    p: Path,
    i: int,
    ids: Seq<u64>,
)
    requires
        knows_no_more(base, world),
    ensures
        walk(v, base, p, i, ids) is AskChild || walk(v, base, p, i, ids) == walk(
            v,
            world,
            p,
            i,
            ids,
        ),
    decreases p.len() - i,
{
    if 0 <= i < p.len() {
        if let Step::Target(DentryTarget::IndexNodeId(id)) = step(v, base, ids.last(), p[i]) {
            if i < p.len() - 1 {
                lemma_walk_asks(v, base, world, p, i + 1, ids.push(id));
            }
        }
    }
}

/// A pass that knows less of the store is one that knows all, or ends with a
/// question and leaves the cache as it was.
proof fn lemma_pass_asks(
    v: TablesView,
    base: BaseStoreView,
    world: BaseStoreView,
    c: CacheView,
    p: Path,
    n: nat,
    d: CacheView,
    end: PassEnd,
)
    requires
        knows_no_more(base, world),
        pass(v, base, c, p, n, d, end),
    ensures
        pass(v, world, c, p, n, d, end) || (d == c && end is Done && end->Done_0 is AskChild),
{
    reveal(pass);
    if p.len() > 0 && !(exists|k: int| c.is_terminal_depth(p, k)) {
        let ids = choose|ids: Seq<u64>| #[trigger]
            is_start(c, v.root, p, ids) && if ids.len() == p.len() + 1 {
                d == c && end == PassEnd::Done(inode_answer(v, Stage::Inode, ids.last()))
            } else {
                let w = walk(v, base, p, ids.len() - 1, ids);
                cached_walk(c, d, p, w) && end == at_walk_end(p, w, n)
            };
        lemma_walk_asks(v, base, world, p, ids.len() - 1, ids);
        assert(is_start(c, v.root, p, ids));
    }
}

/// The same of a whole resolution, as long as the cache is true of the store.
pub proof fn lemma_resolves_asks(
    v: TablesView,
    base: BaseStoreView,
    world: BaseStoreView,
    c: CacheView,
    p: Path,
    n: nat,
    d: CacheView,
    answer: Answer,
)
    requires
        knows_no_more(base, world),
        c.inv(),
        strict(v),
        coherent(v, world, c),
        edges_complete(v, c),
        resolves(v, base, c, p, n, d, answer),
    ensures
        answer is AskChild || answer == resolved(v, world, p, n),
        d.inv(),
        coherent(v, world, d),
        has_room(c, n + 1) ==> edges_complete(v, d) && d.lru.dom().finite(),
    decreases n,
{
    let (mid, end) = choose|mid: CacheView, end: PassEnd| #[trigger]
        pass(v, base, c, p, n, mid, end) && match end {
            PassEnd::Done(a) => d == mid && a == answer,
            PassEnd::Again(q) => n > 0 && resolves(v, base, mid, q, (n - 1) as nat, d, answer),
        };
    lemma_pass_asks(v, base, world, c, p, n, mid, end);
    if pass(v, world, c, p, n, mid, end) {
        lemma_pass_is_plain(v, world, c, p, n, mid, end);
        crate::resolve::lemma_pass_inv(v, world, c, p, n, mid, end);
        if has_room(c, n + 1) {
            lemma_pass_keeps_edges(v, world, c, p, n, mid, end);
        }
        if let PassEnd::Again(q) = end {
            if has_room(c, n + 1) {
                lemma_resolves_asks(v, base, world, mid, q, (n - 1) as nat, d, answer);
            } else {
                lemma_resolves_asks_alone(v, base, world, mid, q, (n - 1) as nat, d, answer);
            }
        }
    }
}

/// The same where the cache may be full.
proof fn lemma_resolves_asks_alone(
    v: TablesView,
    base: BaseStoreView,
    world: BaseStoreView,
    c: CacheView,
    p: Path,
    n: nat,
    d: CacheView,
    answer: Answer,
)
    requires
        knows_no_more(base, world),
        c.inv(),
        coherent(v, world, c),
        resolves(v, base, c, p, n, d, answer),
    ensures
        answer is AskChild || answer == resolved(v, world, p, n),
        d.inv(),
        coherent(v, world, d),
    decreases n,
{
    let (mid, end) = choose|mid: CacheView, end: PassEnd| #[trigger]
        pass(v, base, c, p, n, mid, end) && match end {
            PassEnd::Done(a) => d == mid && a == answer,
            PassEnd::Again(q) => n > 0 && resolves(v, base, mid, q, (n - 1) as nat, d, answer),
        };
    lemma_pass_asks(v, base, world, c, p, n, mid, end);
    if pass(v, world, c, p, n, mid, end) {
        lemma_pass_is_plain(v, world, c, p, n, mid, end);
        crate::resolve::lemma_pass_inv(v, world, c, p, n, mid, end);
        if let PassEnd::Again(q) = end {
            lemma_resolves_asks_alone(v, base, world, mid, q, (n - 1) as nat, d, answer);
        }
    }
}

} // verus!
