//! The committed tables with the path cache in front of them.

use vstd::prelude::*;
use crate::path_cache::{invalidated, CacheView, PathResolveCache};
use crate::records::Edge;
use crate::table::Key;
use crate::tables::{edge_models, MetaTables, TablesView};

verus! {

pub struct Committed {
    pub tables: MetaTables,
    pub cache: PathResolveCache,
}

/// The tables as others see them: nothing is pending in them.
pub open spec fn settled(v: TablesView) -> TablesView {
    TablesView { touched: Seq::empty(), ..v }
}

/// `d` is `c` without what was resolved through `edge`.
pub open spec fn drops_edge(c: CacheView, edge: (u64, Seq<char>), d: CacheView) -> bool {
    if c.edges.contains_key(edge) {
        invalidated(c, d, c.edges[edge])
    } else {
        d == c
    }
}

/// `d` is `c` after dropping what was resolved through each of `edges` in turn.
pub open spec fn drops_edges(c: CacheView, edges: Seq<(u64, Seq<char>)>, d: CacheView) -> bool
    decreases edges.len(),
{
    if edges.len() == 0 {
        d == c
    } else {
        exists|mid: CacheView|
            drops_edges(c, edges.drop_last(), mid) && #[trigger] drops_edge(mid, edges.last(), d)
    }
}

/// `d` is the cache after `v` became the committed tables.
pub open spec fn installs(c: CacheView, v: TablesView, d: CacheView) -> bool {
    drops_edges(c, v.touched, d)
}

/// Drops from the cache what was resolved through each of `edges`.
pub(crate) fn drop_edges(cache: &mut PathResolveCache, edges: &Vec<Edge>)
    requires
        old(cache).wf(),
    ensures
        final(cache).wf(),
        drops_edges(old(cache)@, edge_models(edges@), final(cache)@),
{
    let ghost c0 = cache@;
    let mut i: usize = 0;
    let ghost all = edge_models(edges@);
    assert(all.take(0) =~= Seq::empty());
    while i < edges.len()
        invariant
            0 <= i <= edges@.len(),
            all == edge_models(edges@),
            cache.wf(),
            drops_edges(c0, all.take(i as int), cache@),
        decreases edges@.len() - i,
    {
        let ghost mid = cache@;
        cache.invalidate_by_edge(edges[i].parent, edges[i].name.as_str());
        proof {
            let next = all.take(i + 1);
            assert(next.drop_last() =~= all.take(i as int));
            assert(next.last() == edges@[i as int].model());
            assert(drops_edges(c0, next.drop_last(), mid) && drops_edge(mid, next.last(), cache@));
        }
        i = i + 1;
    }
    assert(all.take(i as int) =~= all);
}

impl Committed {
    pub open spec fn wf(&self) -> bool {
        self.tables.wf() && self.cache.wf()
    }

    /// Makes `t` the committed tables.
    pub fn install(&mut self, t: MetaTables)
        requires
            old(self).wf(),
            t.wf(),
        ensures
            final(self).wf(),
            final(self).tables@ == settled(t@),
            installs(old(self).cache@, t@, final(self).cache@),
    {
        let mut t: MetaTables = t;
        let ghost v = t@;
        drop_edges(&mut self.cache, &t.touched);
        t.touched = Vec::new();
        assert(edge_models(t.touched@) =~= Seq::empty());
        assert(t@ == settled(v));
        self.tables = t;
    }
}

} // verus!
