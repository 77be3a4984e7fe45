//! A cache of resolved paths.
//!
//! The cache is a tree over path components.  A node may carry a value: the
//! inode ids along its path, or the object or link at which resolution ends.
//! Each node also remembers the longest id list known in its subtree, so that
//! a cached path answers for its prefixes too.  Values are bounded in number;
//! the one used least recently goes first.

use vstd::prelude::*;
use crate::records::{Edge, ObjId};
use crate::table::{lemma_map_has_row, lemma_row_count, lemma_row_in_map, Dup, Key, Table};
use crate::text::{clone_texts, same_text, view_all};

verus! {

/// How many values a cache holds unless told otherwise.
pub const DEFAULT_MAX_ENTRIES: usize = 10000;

pub type Path = Seq<Seq<char>>;

#[derive(Debug, Clone, Copy, PartialEq, Eq, Structural)]
pub enum PathResolveCacheItemType {
    InodePath,
    TerminalObjId,
    TerminalSymLink,
}

/// What resolution ends at short of an inode.
#[derive(Debug, Clone, PartialEq, Eq)]
pub enum PathResolveTerminalValue {
    ObjId(ObjId),
    SymLink(String),
}

impl Dup for PathResolveTerminalValue {
    fn dup(&self) -> (r: Self) {
        match self {
            PathResolveTerminalValue::ObjId(o) => PathResolveTerminalValue::ObjId(o.dup()),
            PathResolveTerminalValue::SymLink(s) => PathResolveTerminalValue::SymLink(s.clone()),
        }
    }
}

/// A terminal value and the number of components that lead to it.
#[derive(Debug, Clone, PartialEq, Eq)]
pub struct PathResolveTerminalHit {
    pub matched_len: usize,
    pub value: PathResolveTerminalValue,
}

#[derive(Debug, Clone, PartialEq, Eq)]
pub enum PathResolveCacheValue {
    InodeIds(Vec<u64>),
    Terminal(PathResolveTerminalValue),
}

pub enum CacheValueView {
    InodeIds(Seq<u64>),
    Terminal(PathResolveTerminalValue),
}

impl View for PathResolveCacheValue {
    type V = CacheValueView;

    open spec fn view(&self) -> CacheValueView {
        match *self {
            PathResolveCacheValue::InodeIds(ids) => CacheValueView::InodeIds(ids@),
            PathResolveCacheValue::Terminal(t) => CacheValueView::Terminal(t),
        }
    }
}

pub struct PathResolveCacheNode {
    pub value: Option<PathResolveCacheValue>,
    pub deepest_inode: Option<Vec<u64>>,
    pub entry_id: Option<u64>,
}

pub struct CacheNodeView {
    pub value: Option<CacheValueView>,
    pub deepest: Option<Seq<u64>>,
    pub entry_id: Option<u64>,
}

pub open spec fn opt_ids(v: Option<Vec<u64>>) -> Option<Seq<u64>> {
    match v {
        Some(ids) => Some(ids@),
        None => None,
    }
}

impl View for PathResolveCacheNode {
    type V = CacheNodeView;

    open spec fn view(&self) -> CacheNodeView {
        CacheNodeView {
            value: match self.value {
                Some(v) => Some(v@),
                None => None,
            },
            deepest: opt_ids(self.deepest_inode),
            entry_id: self.entry_id,
        }
    }
}

/// A path as a table key.
#[derive(Debug, Clone, PartialEq, Eq)]
pub struct PathKey {
    pub comps: Vec<String>,
}

impl Key for PathKey {
    type Model = Path;

    open spec fn model(&self) -> Path {
        view_all(self.comps@)
    }

    fn same_key(&self, other: &Self) -> (r: bool) {
        if self.comps.len() != other.comps.len() {
            assert(self.model().len() != other.model().len());
            return false;
        }
        let mut i: usize = 0;
        while i < self.comps.len()
            invariant
                0 <= i <= self.comps@.len(),
                self.comps@.len() == other.comps@.len(),
                forall|j: int| 0 <= j < i ==> self.comps@[j]@ == other.comps@[j]@,
            decreases self.comps@.len() - i,
        {
            if !same_text(self.comps[i].as_str(), other.comps[i].as_str()) {
                assert(self.model()[i as int] != other.model()[i as int]);
                return false;
            }
            i = i + 1;
        }
        assert(self.model() =~= other.model());
        true
    }
}

impl PathKey {
    fn dup_key(&self) -> (r: PathKey)
        ensures
            r.model() == self.model(),
    {
        PathKey { comps: clone_texts(&self.comps) }
    }

    /// The first `n` components.
    fn take(&self, n: usize) -> (r: PathKey)
        requires
            n <= self.comps@.len(),
        ensures
            r.model() == self.model().take(n as int),
            r.comps@.len() == n,
    {
        let mut comps: Vec<String> = Vec::new();
        let mut i: usize = 0;
        while i < n
            invariant
                0 <= i <= n <= self.comps@.len(),
                comps@ =~= self.comps@.take(i as int),
            decreases n - i,
        {
            comps.push(self.comps[i].clone());
            i = i + 1;
        }
        let r = PathKey { comps };
        assert(r.model() =~= self.model().take(n as int));
        r
    }

    /// Whether this path begins with `prefix`.
    fn begins_with(&self, prefix: &PathKey) -> (r: bool)
        ensures
            r == prefix.model().is_prefix_of(self.model()),
    {
        if prefix.comps.len() > self.comps.len() {
            return false;
        }
        let mut i: usize = 0;
        while i < prefix.comps.len()
            invariant
                0 <= i <= prefix.comps@.len() <= self.comps@.len(),
                forall|j: int| 0 <= j < i ==> self.comps@[j]@ == prefix.comps@[j]@,
            decreases prefix.comps@.len() - i,
        {
            if !same_text(self.comps[i].as_str(), prefix.comps[i].as_str()) {
                proof {
                    let p = prefix.model();
                    assert(p[i as int] == prefix.comps@[i as int]@);
                    assert(self.model().subrange(0, p.len() as int)[i as int]
                        == self.comps@[i as int]@);
                }
                return false;
            }
            i = i + 1;
        }
        assert(prefix.model() =~= self.model().subrange(0, prefix.model().len() as int));
        true
    }
}

pub open spec fn str_views(s: Seq<&str>) -> Path {
    s.map_values(|c: &str| c@)
}

fn key_of(components: &[&str]) -> (r: PathKey)
    ensures
        r.model() == str_views(components@),
        r.comps@.len() == components@.len(),
{
    let mut comps: Vec<String> = Vec::new();
    let mut i: usize = 0;
    while i < components.len()
        invariant
            0 <= i <= components@.len(),
            comps@.len() == i,
            forall|j: int| 0 <= j < i ==> comps@[j]@ == components@[j]@,
        decreases components@.len() - i,
    {
        comps.push(components[i].to_owned());
        i = i + 1;
    }
    let r = PathKey { comps };
    assert(r.model() =~= str_views(components@));
    r
}

fn clone_ids(v: &Vec<u64>, n: usize) -> (r: Vec<u64>)
    requires
        n <= v@.len(),
    ensures
        r@ == v@.take(n as int),
{
    let mut out: Vec<u64> = Vec::new();
    let mut i: usize = 0;
    while i < n
        invariant
            0 <= i <= n <= v@.len(),
            out@ =~= v@.take(i as int),
        decreases n - i,
    {
        out.push(v[i]);
        i = i + 1;
    }
    out
}

fn all_ids(v: &Vec<u64>) -> (r: Vec<u64>)
    ensures
        r@ == v@,
{
    let r: Vec<u64> = clone_ids(v, v.len());
    assert(r@ =~= v@);
    r
}

/// What the cache holds.
#[verifier::ext_equal]
pub struct CacheView {
    pub nodes: Map<Path, CacheNodeView>,
    pub edges: Map<(u64, Seq<char>), Path>,
    pub lru: Map<u64, Path>,
    pub max_entries: usize,
    pub next_entry_id: u64,
}

pub open spec fn empty_node() -> CacheNodeView {
    CacheNodeView { value: None, deepest: None, entry_id: None }
}

/// A cache that knows nothing and may hold `max_entries` entries.
pub open spec fn fresh_cache(max_entries: usize) -> CacheView {
    CacheView {
        nodes: Map::empty().insert(Seq::empty(), empty_node()),
        edges: Map::empty(),
        lru: Map::empty(),
        max_entries,
        next_entry_id: 0,
    }
}

/// The ids stored at a node itself.
pub open spec fn own_ids(n: CacheNodeView) -> Option<Seq<u64>> {
    match n.value {
        Some(CacheValueView::InodeIds(ids)) => Some(ids),
        _ => None,
    }
}

/// The ids that a node can answer with: its own, or the longest known below it.
pub open spec fn known_ids(n: CacheNodeView) -> Option<Seq<u64>> {
    match own_ids(n) {
        Some(ids) => Some(ids),
        None => n.deepest,
    }
}

pub open spec fn terminal_of(n: CacheNodeView) -> Option<PathResolveTerminalValue> {
    match n.value {
        Some(CacheValueView::Terminal(t)) => Some(t),
        _ => None,
    }
}

pub open spec fn is_child(m: Map<Path, CacheNodeView>, c: Path, p: Path) -> bool {
    m.contains_key(c) && c.len() == p.len() + 1 && c.take(p.len() as int) == p
}

/// `best` is the longest id list among a node's own and those of its children,
/// its own before a child's of the same length.
pub open spec fn is_best(m: Map<Path, CacheNodeView>, p: Path, best: Option<Seq<u64>>) -> bool {
    let own = own_ids(m[p]);
    match best {
        None => own is None && forall|c: Path| #[trigger] is_child(m, c, p) ==> m[c].deepest is None,
        Some(x) => {
            &&& own is Some ==> x.len() >= own->0.len()
            &&& forall|c: Path| #[trigger]
                is_child(m, c, p) && m[c].deepest is Some ==> x.len() >= m[c].deepest->0.len()
            &&& own == Some(x) || ((own is Some ==> own->0.len() < x.len()) && exists|c: Path|
                #[trigger] is_child(m, c, p) && m[c].deepest == Some(x))
        },
    }
}

/// `after` is `before` with the longest known lists worked out anew along `p`.
pub open spec fn rebased(
    before: Map<Path, CacheNodeView>,
    after: Map<Path, CacheNodeView>,
    p: Path,
) -> bool {
    &&& after.dom() == before.dom()
    &&& forall|q: Path| #[trigger]
        after.contains_key(q) ==> after[q].value == before[q].value && after[q].entry_id
            == before[q].entry_id
    &&& forall|q: Path| #[trigger]
        after.contains_key(q) && !q.is_prefix_of(p) ==> after[q] == before[q]
    &&& forall|k: int|
        0 <= k <= p.len() ==> is_best(after, #[trigger] p.take(k), after[p.take(k)].deepest)
}

impl CacheView {
    /// Nodes form a tree with a root, values and usage records match, and a
    /// stored id list has one id more than its path has components.
    pub open spec fn inv(self) -> bool {
        &&& self.nodes.contains_key(Seq::empty())
        &&& forall|p: Path, k: int|
            self.nodes.contains_key(p) && 0 <= k <= p.len() ==> self.nodes.contains_key(
                #[trigger] p.take(k),
            )
        &&& forall|p: Path| #[trigger]
            self.nodes.contains_key(p) ==> (self.nodes[p].value is Some
                <==> self.nodes[p].entry_id is Some)
        &&& forall|p: Path| #[trigger]
            self.nodes.contains_key(p) && self.nodes[p].entry_id is Some ==> self.lru.contains_key(
                self.nodes[p].entry_id->0,
            ) && self.lru[self.nodes[p].entry_id->0] == p
        &&& forall|id: u64| #[trigger]
            self.lru.contains_key(id) ==> id < self.next_entry_id && self.nodes.contains_key(
                self.lru[id],
            ) && self.nodes[self.lru[id]].entry_id == Some(id)
        &&& forall|p: Path| #[trigger]
            self.nodes.contains_key(p) && own_ids(self.nodes[p]) is Some ==> own_ids(
                self.nodes[p],
            )->0.len() == p.len() + 1
    }

    /// What a query for the ids along `p` answers.
    pub open spec fn ids_for(self, p: Path) -> Option<Seq<u64>> {
        if self.nodes.contains_key(p) {
            match known_ids(self.nodes[p]) {
                Some(ids) => if ids.len() >= p.len() + 1 {
                    Some(ids.take(p.len() as int + 1))
                } else {
                    None
                },
                None => None,
            }
        } else {
            None
        }
    }

    /// The shortest non-empty prefix of `p` that carries a terminal value, as its length.
    pub open spec fn is_terminal_depth(self, p: Path, k: int) -> bool {
        &&& 1 <= k <= p.len()
        &&& self.nodes.contains_key(p.take(k))
        &&& terminal_of(self.nodes[p.take(k)]) is Some
        &&& forall|j: int|
            1 <= j < k ==> self.nodes.contains_key(#[trigger] p.take(j)) ==> terminal_of(
                self.nodes[p.take(j)],
            ) is None
    }

    /// A prefix of length `k` is known together with ids that reach it.
    pub open spec fn prefix_known(self, p: Path, k: int) -> bool {
        &&& 0 <= k <= p.len()
        &&& self.nodes.contains_key(p.take(k))
        &&& known_ids(self.nodes[p.take(k)]) matches Some(ids) && ids.len() >= k + 1
    }

    /// A value just used moves to the end of the queue, as long as uses can be numbered.
    pub open spec fn refreshed(self, p: Path) -> CacheView {
        if self.nodes[p].entry_id is Some && self.next_entry_id < u64::MAX {
            let old_id = self.nodes[p].entry_id->0;
            CacheView {
                nodes: self.nodes.insert(
                    p,
                    CacheNodeView { entry_id: Some(self.next_entry_id), ..self.nodes[p] },
                ),
                lru: self.lru.remove(old_id).insert(self.next_entry_id, p),
                next_entry_id: (self.next_entry_id + 1) as u64,
                ..self
            }
        } else {
            self
        }
    }

    pub open spec fn is_new(self, p: Path) -> bool {
        !self.nodes.contains_key(p) || self.nodes[p].value is None
    }
}

/// `id` is the entry used least recently.
pub open spec fn is_oldest(c: CacheView, id: u64) -> bool {
    c.lru.contains_key(id) && forall|j: u64| #[trigger] c.lru.contains_key(j) ==> id <= j
}

/// `d` is `c` without the value that was used least recently.
pub open spec fn evicted(c: CacheView, d: CacheView) -> bool {
    if c.lru.dom().len() == 0 {
        d == c
    } else {
        exists|id: u64| #[trigger] is_oldest(c, id) && evicted_entry(c, d, id)
    }
}

pub open spec fn evicted_entry(c: CacheView, d: CacheView, id: u64) -> bool {
    let p = c.lru[id];
    let cleared = c.nodes.insert(
        p,
        CacheNodeView { value: None, entry_id: None, ..c.nodes[p] },
    );
    &&& d.lru == c.lru.remove(id)
    &&& d.edges == (if p.len() == 0 {
        c.edges
    } else {
        drop_edges_at(c.edges, p)
    })
    &&& rebased(cleared, d.nodes, p)
    &&& d.max_entries == c.max_entries
    &&& d.next_entry_id == c.next_entry_id
}

/// Edges but those that lead to `p` itself.
pub open spec fn drop_edges_at(edges: Map<(u64, Seq<char>), Path>, p: Path) -> Map<
    (u64, Seq<char>),
    Path,
> {
    Map::new(
        |e: (u64, Seq<char>)| edges.contains_key(e) && edges[e] != p,
        |e: (u64, Seq<char>)| edges[e],
    )
}

/// Edges but those that lead to `p` or below.
pub open spec fn drop_edges_under(edges: Map<(u64, Seq<char>), Path>, p: Path) -> Map<
    (u64, Seq<char>),
    Path,
> {
    Map::new(
        |e: (u64, Seq<char>)| edges.contains_key(e) && !p.is_prefix_of(edges[e]),
        |e: (u64, Seq<char>)| edges[e],
    )
}

/// Adds the first `n` edges along `p`, whose parents are `ids`.
pub open spec fn add_edges(
    edges: Map<(u64, Seq<char>), Path>,
    p: Path,
    ids: Seq<u64>,
    n: nat,
) -> Map<(u64, Seq<char>), Path>
    decreases n,
{
    if n == 0 {
        edges
    } else {
        add_edges(edges, p, ids, (n - 1) as nat).insert(
            (ids[n - 1], p[n - 1]),
            p.take(n as int),
        )
    }
}

pub open spec fn node_or_empty(m: Map<Path, CacheNodeView>, p: Path) -> CacheNodeView {
    if m.contains_key(p) {
        m[p]
    } else {
        empty_node()
    }
}

/// The usage records once a value at `p` has replaced those on the way to it.
pub open spec fn lru_with(lru: Map<u64, Path>, p: Path, id: u64) -> Map<u64, Path> {
    Map::new(
        |j: u64| lru.contains_key(j) && !lru[j].is_prefix_of(p),
        |j: u64| lru[j],
    ).insert(id, p)
}

/// The longer of what is known and `ids`, what is known on a tie.
pub open spec fn raised(known: Option<Seq<u64>>, ids: Seq<u64>) -> Option<Seq<u64>> {
    match known {
        Some(cur) => if ids.len() > cur.len() {
            Some(ids)
        } else {
            Some(cur)
        },
        None => Some(ids),
    }
}

/// A list of ids stored at `p`: it covers every value on the way to `p`.
pub open spec fn with_ids(c: CacheView, p: Path, ids: Seq<u64>) -> CacheView {
    CacheView {
        nodes: Map::new(
            |q: Path| c.nodes.contains_key(q) || q.is_prefix_of(p),
            |q: Path|
                if q == p {
                    CacheNodeView {
                        value: Some(CacheValueView::InodeIds(ids)),
                        deepest: Some(ids),
                        entry_id: Some(c.next_entry_id),
                    }
                } else if q.is_prefix_of(p) {
                    CacheNodeView {
                        value: None,
                        deepest: raised(node_or_empty(c.nodes, q).deepest, ids),
                        entry_id: None,
                    }
                } else {
                    c.nodes[q]
                },
        ),
        edges: add_edges(c.edges, p, ids, p.len()),
        lru: lru_with(c.lru, p, c.next_entry_id),
        max_entries: c.max_entries,
        next_entry_id: (c.next_entry_id + 1) as u64,
    }
}

/// The nodes with a terminal value set at `p` and the way to `p` cleared.
pub open spec fn terminal_set(
    nodes: Map<Path, CacheNodeView>,
    p: Path,
    value: PathResolveTerminalValue,
    id: u64,
) -> Map<Path, CacheNodeView> {
    Map::new(
        |q: Path| nodes.contains_key(q) || q.is_prefix_of(p),
        |q: Path|
            if q == p {
                CacheNodeView {
                    value: Some(CacheValueView::Terminal(value)),
                    deepest: node_or_empty(nodes, q).deepest,
                    entry_id: Some(id),
                }
            } else if q.is_prefix_of(p) {
                CacheNodeView {
                    value: None,
                    deepest: node_or_empty(nodes, q).deepest,
                    entry_id: None,
                }
            } else {
                nodes[q]
            },
    )
}

/// `d` is `c` with a terminal value at `p`.
pub open spec fn with_terminal(
    c: CacheView,
    d: CacheView,
    p: Path,
    parent_ids: Seq<u64>,
    value: PathResolveTerminalValue,
) -> bool {
    &&& rebased(terminal_set(c.nodes, p, value, c.next_entry_id), d.nodes, p)
    &&& d.edges == add_edges(c.edges, p, parent_ids, p.len())
    &&& d.lru == lru_with(c.lru, p, c.next_entry_id)
    &&& d.max_entries == c.max_entries
    &&& d.next_entry_id == c.next_entry_id + 1
}

/// `d` is `c` with room for a value at `p`: where the cache is full and `p` has
/// none yet, the oldest has gone.
pub open spec fn made_room(c: CacheView, d: CacheView, p: Path) -> bool {
    if c.is_new(p) && c.lru.dom().len() >= c.max_entries {
        evicted(c, d)
    } else {
        d == c
    }
}

/// `d` is `c` without anything at or below `p`.
pub open spec fn invalidated(c: CacheView, d: CacheView, p: Path) -> bool {
    if p.len() == 0 {
        d == (CacheView {
            nodes: Map::empty().insert(Seq::empty(), empty_node()),
            edges: Map::empty(),
            lru: Map::empty(),
            ..c
        })
    } else if !c.nodes.contains_key(p.drop_last()) {
        d == c
    } else {
        &&& rebased(without_subtree(c.nodes, p), d.nodes, p.drop_last())
        &&& d.edges == drop_edges_under(c.edges, p)
        &&& d.lru == Map::new(
            |j: u64| c.lru.contains_key(j) && !p.is_prefix_of(c.lru[j]),
            |j: u64| c.lru[j],
        )
        &&& d.max_entries == c.max_entries
        &&& d.next_entry_id == c.next_entry_id
    }
}

pub open spec fn without_subtree(nodes: Map<Path, CacheNodeView>, p: Path) -> Map<
    Path,
    CacheNodeView,
> {
    Map::new(
        |q: Path| nodes.contains_key(q) && !p.is_prefix_of(q),
        |q: Path| nodes[q],
    )
}

pub struct PathResolveCache {
    pub nodes: Table<PathKey, PathResolveCacheNode>,
    pub edges: Table<Edge, PathKey>,
    pub lru: Table<u64, PathKey>,
    pub max_entries: usize,
    pub next_entry_id: u64,
}

impl View for PathResolveCache {
    type V = CacheView;

    open spec fn view(&self) -> CacheView {
        CacheView {
            nodes: self.nodes@.map_values(|n: PathResolveCacheNode| n@),
            edges: self.edges@.map_values(|k: PathKey| k.model()),
            lru: self.lru@.map_values(|k: PathKey| k.model()),
            max_entries: self.max_entries,
            next_entry_id: self.next_entry_id,
        }
    }
}

impl Default for PathResolveCache {
    /// An empty cache of the usual size.
    fn default() -> (r: Self)
        ensures
            r.wf(),
            r@ == fresh_cache(DEFAULT_MAX_ENTRIES),
    {
        PathResolveCache::new(DEFAULT_MAX_ENTRIES)
    }
}

impl PathResolveCache {
    pub open spec fn tables_wf(&self) -> bool {
        &&& self.nodes.wf()
        &&& self.edges.wf()
        &&& self.lru.wf()
    }

    pub open spec fn wf(&self) -> bool {
        &&& self.tables_wf()
        &&& self@.inv()
    }

    /// An empty cache for at most `max_entries` values (but always one).
    pub fn new(max_entries: usize) -> (r: Self)
        ensures
            r.wf(),
            r@ == fresh_cache(max_entries),
    {
        let mut nodes: Table<PathKey, PathResolveCacheNode> = Table::new();
        let root = PathKey { comps: Vec::new() };
        assert(root.model() =~= Seq::<Seq<char>>::empty());
        nodes.put(
            root,
            PathResolveCacheNode { value: None, deepest_inode: None, entry_id: None },
        );
        let r = PathResolveCache {
            nodes,
            edges: Table::new(),
            lru: Table::new(),
            max_entries,
            next_entry_id: 0,
        };
        proof {
            assert(r@.nodes =~= Map::empty().insert(Seq::empty(), empty_node()));
            assert(r@.edges =~= Map::empty());
            assert(r@.lru =~= Map::empty());
            assert forall|p: Path, k: int|
                r@.nodes.contains_key(p) && 0 <= k <= p.len() implies r@.nodes.contains_key(
                #[trigger] p.take(k),
            ) by {
                assert(p.take(k) =~= Seq::empty());
            }
        }
        r
    }

    /// The number of values in the cache.
    pub fn len(&self) -> (r: usize)
        requires
            self.tables_wf(),
        ensures
            r == self@.lru.dom().len(),
    {
        proof {
            lemma_row_count(self.lru.rows@);
            assert(self@.lru.dom() =~= self.lru@.dom());
        }
        self.lru.rows.len()
    }

    fn node(&self, key: &PathKey) -> (r: Option<&PathResolveCacheNode>)
        requires
            self.tables_wf(),
        ensures
            match r {
                Some(n) => self@.nodes.contains_key(key.model()) && n@
                    == self@.nodes[key.model()],
                None => !self@.nodes.contains_key(key.model()),
            },
    {
        self.nodes.get(key)
    }

    fn put_node(&mut self, key: PathKey, node: PathResolveCacheNode)
        requires
            old(self).tables_wf(),
        ensures
            final(self).tables_wf(),
            final(self)@ == (CacheView {
                nodes: old(self)@.nodes.insert(key.model(), node@),
                ..old(self)@
            }),
    {
        self.nodes.put(key, node);
        assert(self@.nodes =~= old(self)@.nodes.insert(key.model(), node@));
    }

    fn put_lru(&mut self, id: u64, key: PathKey)
        requires
            old(self).tables_wf(),
        ensures
            final(self).tables_wf(),
            final(self)@ == (CacheView {
                lru: old(self)@.lru.insert(id, key.model()),
                ..old(self)@
            }),
    {
        self.lru.put(id, key);
        assert(self@.lru =~= old(self)@.lru.insert(id, key.model()));
    }

    fn drop_lru(&mut self, id: u64)
        requires
            old(self).tables_wf(),
        ensures
            final(self).tables_wf(),
            final(self)@ == (CacheView { lru: old(self)@.lru.remove(id), ..old(self)@ }),
    {
        let _ = self.lru.remove(&id);
        assert(self@.lru =~= old(self)@.lru.remove(id));
    }

    /// The kind of value stored at exactly this path.
    pub fn get_item_type_for_path(&self, components: &[&str]) -> (r: Option<
        PathResolveCacheItemType,
    >)
        requires
            self.wf(),
        ensures
            ({
                let p = str_views(components@);
                match r {
                    None => !self@.nodes.contains_key(p) || self@.nodes[p].value is None,
                    Some(t) => self@.nodes.contains_key(p) && match self@.nodes[p].value {
                        None => false,
                        Some(CacheValueView::InodeIds(_)) => t
                            == PathResolveCacheItemType::InodePath,
                        Some(CacheValueView::Terminal(PathResolveTerminalValue::ObjId(_))) => t
                            == PathResolveCacheItemType::TerminalObjId,
                        Some(CacheValueView::Terminal(PathResolveTerminalValue::SymLink(_))) => t
                            == PathResolveCacheItemType::TerminalSymLink,
                    },
                }
            }),
    {
        let key: PathKey = key_of(components);
        match self.node(&key) {
            None => None,
            Some(n) => match &n.value {
                None => None,
                Some(PathResolveCacheValue::InodeIds(_)) => Some(
                    PathResolveCacheItemType::InodePath,
                ),
                Some(
                    PathResolveCacheValue::Terminal(PathResolveTerminalValue::ObjId(_)),
                ) => Some(PathResolveCacheItemType::TerminalObjId),
                Some(
                    PathResolveCacheValue::Terminal(PathResolveTerminalValue::SymLink(_)),
                ) => Some(PathResolveCacheItemType::TerminalSymLink),
            },
        }
    }

    fn copy_node(n: &PathResolveCacheNode) -> (r: PathResolveCacheNode)
        ensures
            r@ == n@,
    {
        PathResolveCacheNode {
            value: match &n.value {
                None => None,
                Some(PathResolveCacheValue::InodeIds(ids)) => Some(
                    PathResolveCacheValue::InodeIds(all_ids(ids)),
                ),
                Some(PathResolveCacheValue::Terminal(t)) => Some(
                    PathResolveCacheValue::Terminal(t.dup()),
                ),
            },
            deepest_inode: match &n.deepest_inode {
                None => None,
                Some(ids) => Some(all_ids(ids)),
            },
            entry_id: n.entry_id,
        }
    }

    fn refresh_lru_for_path(&mut self, key: &PathKey)
        requires
            old(self).wf(),
            old(self)@.nodes.contains_key(key.model()),
        ensures
            final(self).wf(),
            final(self)@ == old(self)@.refreshed(key.model()),
    {
        let ghost p = key.model();
        let mut node: PathResolveCacheNode = match self.node(key) {
            Some(n) => Self::copy_node(n),
            None => {
                return;
            },
        };
        if self.next_entry_id == u64::MAX {
            return;
        }
        if let Some(old_id) = node.entry_id {
            let id: u64 = self.next_entry_id;
            self.drop_lru(old_id);
            self.put_lru(id, key.dup_key());
            node.entry_id = Some(id);
            self.put_node(key.dup_key(), node);
            self.next_entry_id = id + 1;
            proof {
                assert(self@ =~= old(self)@.refreshed(p));
                lemma_refreshed_inv(old(self)@, p);
            }
        }
    }

    fn known_at(&self, key: &PathKey) -> (r: Option<&Vec<u64>>)
        requires
            self.tables_wf(),
        ensures
            match r {
                Some(ids) => self@.nodes.contains_key(key.model()) && known_ids(
                    self@.nodes[key.model()],
                ) == Some(ids@),
                None => self@.nodes.contains_key(key.model()) ==> known_ids(
                    self@.nodes[key.model()],
                ) is None,
            },
    {
        match self.node(key) {
            None => None,
            Some(n) => {
                if let Some(PathResolveCacheValue::InodeIds(ids)) = &n.value {
                    return Some(ids);
                }
                match &n.deepest_inode {
                    Some(ids) => Some(ids),
                    None => None,
                }
            },
        }
    }

    /// The inode ids along a path, from the root to its end.
    pub fn get_ids_for_path(&mut self, components: &[&str]) -> (r: Option<Vec<u64>>)
        requires
            old(self).wf(),
        ensures
            final(self).wf(),
            opt_ids(r) == old(self)@.ids_for(str_views(components@)),
            final(self)@ == (if r is Some {
                old(self)@.refreshed(str_views(components@))
            } else {
                old(self)@
            }),
    {
        let key: PathKey = key_of(components);
        let ids: Vec<u64> = match self.known_at(&key) {
            None => {
                return None;
            },
            Some(ids) => {
                if ids.len() <= components.len() {
                    return None;
                }
                clone_ids(ids, components.len() + 1)
            },
        };
        self.refresh_lru_for_path(&key);
        Some(ids)
    }

    /// The first object or link met on the way along a path.
    pub fn get_terminal_for_path(&mut self, components: &[&str]) -> (r: Option<
        PathResolveTerminalHit,
    >)
        requires
            old(self).wf(),
        ensures
            final(self).wf(),
            match r {
                Some(hit) => {
                    let p = str_views(components@);
                    &&& old(self)@.is_terminal_depth(p, hit.matched_len as int)
                    &&& terminal_of(old(self)@.nodes[p.take(hit.matched_len as int)]) == Some(
                        hit.value,
                    )
                    &&& final(self)@ == old(self)@.refreshed(p.take(hit.matched_len as int))
                },
                None => {
                    &&& forall|k: int| !old(self)@.is_terminal_depth(str_views(components@), k)
                    &&& final(self)@ == old(self)@
                },
            },
    {
        let key: PathKey = key_of(components);
        let ghost p = key.model();
        let mut i: usize = 0;
        while i < components.len()
            invariant
                0 <= i <= components@.len(),
                key.model() == p,
                p == str_views(components@),
                p.len() == components@.len(),
                key.comps@.len() == components@.len(),
                self.wf(),
                self@ == old(self)@,
                forall|j: int|
                    1 <= j <= i ==> self@.nodes.contains_key(#[trigger] p.take(j)) && terminal_of(
                        self@.nodes[p.take(j)],
                    ) is None,
            decreases components@.len() - i,
        {
            let at: PathKey = key.take(i + 1);
            let value: Option<PathResolveTerminalValue> = match self.node(&at) {
                None => {
                    proof {
                        assert forall|k: int| !self@.is_terminal_depth(p, k) by {
                            if self@.is_terminal_depth(p, k) && k > i {
                                assert(p.take(k).take(i + 1) =~= p.take(i + 1));
                                assert(self@.nodes.contains_key(p.take(k).take(i + 1)));
                            }
                        }
                    }
                    return None;
                },
                Some(n) => match &n.value {
                    Some(PathResolveCacheValue::Terminal(t)) => Some(t.dup()),
                    _ => None,
                },
            };
            match value {
                Some(value) => {
                    assert(self@.is_terminal_depth(p, i + 1));
                    self.refresh_lru_for_path(&at);
                    return Some(PathResolveTerminalHit { matched_len: i + 1, value });
                },
                None => {},
            }
            i = i + 1;
        }
        None
    }

    /// The ids along the longest prefix of a path for which any are known.
    pub fn get_longest_prefix_ids_for_path(&self, components: &[&str]) -> (r: Option<Vec<u64>>)
        requires
            self.wf(),
        ensures
            ({
                let p = str_views(components@);
                match r {
                    Some(ids) => {
                        &&& ids@.len() >= 1
                        &&& self@.prefix_known(p, ids@.len() - 1)
                        &&& ids@ == known_ids(self@.nodes[p.take(ids@.len() - 1)])->0.take(
                            ids@.len() as int,
                        )
                        &&& forall|k: int| ids@.len() <= k ==> !self@.prefix_known(p, k)
                    },
                    None => forall|k: int| !self@.prefix_known(p, k),
                }
            }),
    {
        let key: PathKey = key_of(components);
        let ghost p = key.model();
        let mut best: Option<Vec<u64>> = None;
        let mut depth: usize = 0;
        loop
            invariant
                0 <= depth <= components@.len(),
                key.model() == p,
                p == str_views(components@),
                key.comps@.len() == components@.len(),
                self.wf(),
                match best {
                    Some(ids) => {
                        &&& 1 <= ids@.len() <= depth
                        &&& self@.prefix_known(p, ids@.len() - 1)
                        &&& ids@ == known_ids(self@.nodes[p.take(ids@.len() - 1)])->0.take(
                            ids@.len() as int,
                        )
                        &&& forall|k: int| ids@.len() <= k < depth ==> !self@.prefix_known(p, k)
                    },
                    None => forall|k: int| k < depth ==> !self@.prefix_known(p, k),
                },
            decreases components@.len() - depth,
        {
            let at: PathKey = key.take(depth);
            if self.node(&at).is_none() {
                proof {
                    assert forall|k: int| depth <= k implies !self@.prefix_known(p, k) by {
                        if self@.prefix_known(p, k) {
                            assert(p.take(k).take(depth as int) =~= p.take(depth as int));
                            assert(self@.nodes.contains_key(p.take(k).take(depth as int)));
                        }
                    }
                }
                return best;
            }
            match self.known_at(&at) {
                Some(ids) => {
                    if ids.len() > depth {
                        assert(self@.prefix_known(p, depth as int));
                        best = Some(clone_ids(ids, depth + 1));
                    }
                },
                None => {},
            }
            if depth == components.len() {
                return best;
            }
            depth = depth + 1;
        }
    }
}

pub proof fn lemma_refreshed_inv(c: CacheView, p: Path)
    requires
        c.inv(),
        c.nodes.contains_key(p),
    ensures
        c.refreshed(p).inv(),
{
    let d = c.refreshed(p);
    if c.nodes[p].entry_id is Some && c.next_entry_id < u64::MAX {
        let old_id = c.nodes[p].entry_id->0;
        assert forall|q: Path| #[trigger]
            d.nodes.contains_key(q) && d.nodes[q].entry_id is Some implies d.lru.contains_key(
            d.nodes[q].entry_id->0,
        ) && d.lru[d.nodes[q].entry_id->0] == q by {
            if q != p {
                assert(c.nodes.contains_key(q));
                assert(c.lru[c.nodes[q].entry_id->0] == q);
            }
        }
        assert forall|id: u64| #[trigger] d.lru.contains_key(id) implies id < d.next_entry_id
            && d.nodes.contains_key(d.lru[id]) && d.nodes[d.lru[id]].entry_id == Some(id) by {
            if id != c.next_entry_id {
                assert(c.lru.contains_key(id));
                assert(c.nodes[c.lru[id]].entry_id == Some(id));
            }
        }
    }
}

/// The nodes with the way to `p` made and emptied of values.
pub open spec fn opened_nodes(nodes: Map<Path, CacheNodeView>, p: Path) -> Map<Path, CacheNodeView> {
    Map::new(
        |q: Path| nodes.contains_key(q) || q.is_prefix_of(p),
        |q: Path|
            if q.is_prefix_of(p) {
                CacheNodeView {
                    value: None,
                    deepest: node_or_empty(nodes, q).deepest,
                    entry_id: None,
                }
            } else {
                nodes[q]
            },
    )
}

/// The usage records but for values on the way to `p`.
pub open spec fn opened_lru(lru: Map<u64, Path>, p: Path) -> Map<u64, Path> {
    Map::new(|j: u64| lru.contains_key(j) && !lru[j].is_prefix_of(p), |j: u64| lru[j])
}

impl PathResolveCache {
    /// The longest list among a node's own ids and those known below its children.
    fn recompute_deepest_inode(&self, key: &PathKey) -> (r: Option<Vec<u64>>)
        requires
            self.tables_wf(),
            self@.nodes.contains_key(key.model()),
        ensures
            is_best(self@.nodes, key.model(), opt_ids(r)),
    {
        let ghost p = key.model();
        let ghost own = own_ids(self@.nodes[p]);
        let mut best: Option<Vec<u64>> = match self.node(key) {
            Some(n) => match &n.value {
                Some(PathResolveCacheValue::InodeIds(ids)) => Some(all_ids(ids)),
                _ => None,
            },
            None => None,
        };
        let mut i: usize = 0;
        while i < self.nodes.rows.len()
            invariant
                0 <= i <= self.nodes.rows@.len(),
                self.tables_wf(),
                p == key.model(),
                own == own_ids(self@.nodes[p]),
                match best {
                    None => own is None && forall|j: int|
                        0 <= j < i && is_child(
                            self@.nodes,
                            (#[trigger] self.nodes.rows@[j]).0.model(),
                            p,
                        ) ==> self.nodes.rows@[j].1@.deepest is None,
                    Some(x) => {
                        &&& own is Some ==> x@.len() >= own->0.len()
                        &&& forall|j: int|
                            0 <= j < i && is_child(
                                self@.nodes,
                                (#[trigger] self.nodes.rows@[j]).0.model(),
                                p,
                            ) && self.nodes.rows@[j].1@.deepest is Some ==> x@.len()
                                >= self.nodes.rows@[j].1@.deepest->0.len()
                        &&& own == Some(x@) || ((own is Some ==> own->0.len() < x@.len())
                            && exists|c: Path| #[trigger]
                            is_child(self@.nodes, c, p) && self@.nodes[c].deepest == Some(x@))
                    },
                },
            decreases self.nodes.rows@.len() - i,
        {
            let row: &(PathKey, PathResolveCacheNode) = &self.nodes.rows[i];
            proof {
                lemma_row_in_map(self.nodes.rows@, i as int);
            }
            let ghost c = self.nodes.rows@[i as int].0.model();
            if row.0.comps.len() >= 1 && row.0.comps.len() - 1 == key.comps.len()
                && row.0.begins_with(key) {
                assert(is_child(self@.nodes, c, p));
                if let Some(ids) = &row.1.deepest_inode {
                    let better: bool = match &best {
                        Some(cur) => ids.len() > cur.len(),
                        None => true,
                    };
                    if better {
                        best = Some(all_ids(ids));
                        assert(self@.nodes[c].deepest == Some(ids@));
                    }
                }
            } else {
                assert(!is_child(self@.nodes, c, p)) by {
                    if is_child(self@.nodes, c, p) {
                        assert(p =~= c.subrange(0, p.len() as int));
                    }
                }
            }
            i = i + 1;
        }
        proof {
            assert forall|c: Path| #[trigger] is_child(self@.nodes, c, p) implies exists|j: int|
                0 <= j < self.nodes.rows@.len() && (#[trigger] self.nodes.rows@[j]).0.model() == c
                    && self.nodes.rows@[j].1@ == self@.nodes[c] by {
                lemma_map_has_row(self.nodes.rows@, c);
                let j = crate::table::row_index(self.nodes.rows@, c);
                assert(self.nodes.rows@[j].0.model() == c);
            }
        }
        best
    }

    /// Works out the longest known lists anew from `key` up to the root.
    fn recompute_up(&mut self, key: &PathKey)
        requires
            old(self).tables_wf(),
            forall|k: int|
                0 <= k <= key.model().len() ==> old(self)@.nodes.contains_key(
                    #[trigger] key.model().take(k),
                ),
        ensures
            final(self).tables_wf(),
            rebased(old(self)@.nodes, final(self)@.nodes, key.model()),
            final(self)@ == (CacheView { nodes: final(self)@.nodes, ..old(self)@ }),
    {
        let ghost p = key.model();
        let ghost before = self@.nodes;
        let n: usize = key.comps.len();
        let mut k: usize = n;
        let mut more: bool = true;
        while more
            invariant
                p == key.model(),
                n == key.comps@.len(),
                n == p.len(),
                0 <= k <= n,
                self.tables_wf(),
                self@ == (CacheView { nodes: self@.nodes, ..old(self)@ }),
                before == old(self)@.nodes,
                self@.nodes.dom() == before.dom(),
                forall|j: int| 0 <= j <= p.len() ==> before.contains_key(#[trigger] p.take(j)),
                forall|q: Path| #[trigger]
                    self@.nodes.contains_key(q) ==> self@.nodes[q].value == before[q].value
                        && self@.nodes[q].entry_id == before[q].entry_id,
                forall|q: Path| #[trigger]
                    self@.nodes.contains_key(q) && !q.is_prefix_of(p) ==> self@.nodes[q]
                        == before[q],
                forall|j: int|
                    (k < j || !more && k == j) && j <= p.len() ==> is_best(
                        self@.nodes,
                        #[trigger] p.take(j),
                        self@.nodes[p.take(j)].deepest,
                    ),
                !more ==> k == 0,
            decreases (if more { k + 1 } else { 0 }),
        {
            let at: PathKey = key.take(k);
            let ghost q = p.take(k as int);
            let ghost mid = self@.nodes;
            assert(mid.contains_key(q));
            let best: Option<Vec<u64>> = self.recompute_deepest_inode(&at);
            if let Some(node) = self.node(&at) {
                let mut node2: PathResolveCacheNode = Self::copy_node(node);
                node2.deepest_inode = best;
                self.put_node(at, node2);
            }
            proof {
                assert(q.is_prefix_of(p));
                assert(self@.nodes == mid.insert(
                    q,
                    CacheNodeView { deepest: opt_ids(best), ..mid[q] },
                ));
                assert(self@.nodes.dom() =~= before.dom());
                assert forall|j: int| k <= j <= p.len() implies is_best(
                    self@.nodes,
                    #[trigger] p.take(j),
                    self@.nodes[p.take(j)].deepest,
                ) by {
                    let r = p.take(j);
                    assert(r.len() == j);
                    if j == k {
                        lemma_best_local(mid, self@.nodes, r, q, opt_ids(best));
                    } else {
                        assert(is_best(mid, r, mid[r].deepest));
                        lemma_best_local(mid, self@.nodes, r, q, mid[r].deepest);
                    }
                }
            }
            if k == 0 {
                more = false;
            } else {
                k = k - 1;
            }
        }
    }

    /// Drops the edges that lead to `key`, or with `below` also those that lead further.
    fn drop_edges(&mut self, key: &PathKey, below: bool)
        requires
            old(self).tables_wf(),
        ensures
            final(self).tables_wf(),
            final(self)@ == (CacheView {
                edges: if below {
                    drop_edges_under(old(self)@.edges, key.model())
                } else {
                    drop_edges_at(old(self)@.edges, key.model())
                },
                ..old(self)@
            }),
    {
        let ghost p = key.model();
        let ghost before = self.edges@;
        let mut i: usize = 0;
        while i < self.edges.rows.len()
            invariant
                0 <= i <= self.edges.rows@.len(),
                p == key.model(),
                self.tables_wf(),
                self@ == (CacheView { edges: self@.edges, ..old(self)@ }),
                before == old(self).edges@,
                forall|j: int|
                    0 <= j < i ==> !leads(p, (#[trigger] self.edges.rows@[j]).1.model(), below),
                forall|e: (u64, Seq<char>)| #[trigger]
                    self.edges@.contains_key(e) ==> before.contains_key(e) && self.edges@[e]
                        == before[e],
                forall|e: (u64, Seq<char>)| #[trigger]
                    before.contains_key(e) && !leads(p, before[e].model(), below)
                        ==> self.edges@.contains_key(e),
            decreases self.edges.rows@.len() - i,
        {
            let drop: bool = if below {
                self.edges.rows[i].1.begins_with(key)
            } else {
                self.edges.rows[i].1.same_key(key)
            };
            if drop {
                let ghost rows0 = self.edges.rows@;
                self.edges.remove_at(i);
                proof {
                    assert forall|j: int| 0 <= j < i implies !leads(
                        p,
                        (#[trigger] self.edges.rows@[j]).1.model(),
                        below,
                    ) by {
                        assert(self.edges.rows@[j] == rows0[j]);
                    }
                }
            } else {
                i = i + 1;
            }
        }
        proof {
            assert forall|e: (u64, Seq<char>)| #[trigger] self.edges@.contains_key(e) implies !leads(
                p,
                before[e].model(),
                below,
            ) by {
                lemma_map_has_row(self.edges.rows@, e);
            }
            if below {
                assert(self@.edges =~= drop_edges_under(old(self)@.edges, p));
            } else {
                assert(self@.edges =~= drop_edges_at(old(self)@.edges, p));
            }
        }
    }

    fn oldest(&self) -> (r: Option<u64>)
        requires
            self.tables_wf(),
        ensures
            match r {
                Some(id) => is_oldest(self@, id) && self@.lru.dom().len() > 0,
                None => self@.lru.dom().len() == 0,
            },
    {
        let mut best: Option<u64> = None;
        let mut i: usize = 0;
        while i < self.lru.rows.len()
            invariant
                0 <= i <= self.lru.rows@.len(),
                self.tables_wf(),
                match best {
                    Some(id) => self@.lru.contains_key(id) && i > 0 && forall|j: int|
                        0 <= j < i ==> id <= (#[trigger] self.lru.rows@[j]).0,
                    None => i == 0,
                },
            decreases self.lru.rows@.len() - i,
        {
            let id: u64 = self.lru.rows[i].0;
            proof {
                lemma_row_in_map(self.lru.rows@, i as int);
            }
            let better: bool = match best {
                Some(cur) => id < cur,
                None => true,
            };
            if better {
                best = Some(id);
            }
            i = i + 1;
        }
        proof {
            lemma_row_count(self.lru.rows@);
            assert(self@.lru.dom() =~= self.lru@.dom());
            assert forall|j: u64| #[trigger] self@.lru.contains_key(j) implies best is Some
                && best->0 <= j by {
                lemma_map_has_row(self.lru.rows@, j);
            }
        }
        best
    }

    /// Takes a value out without touching what lies below it.
    fn remove_single_entry(&mut self, key: &PathKey)
        requires
            old(self).tables_wf(),
            forall|k: int|
                0 <= k <= key.model().len() ==> old(self)@.nodes.contains_key(
                    #[trigger] key.model().take(k),
                ),
        ensures
            final(self).tables_wf(),
            rebased(
                old(self)@.nodes.insert(
                    key.model(),
                    CacheNodeView {
                        value: None,
                        entry_id: None,
                        ..old(self)@.nodes[key.model()]
                    },
                ),
                final(self)@.nodes,
                key.model(),
            ),
            final(self)@ == (CacheView {
                nodes: final(self)@.nodes,
                edges: if key.model().len() == 0 {
                    old(self)@.edges
                } else {
                    drop_edges_at(old(self)@.edges, key.model())
                },
                ..old(self)@
            }),
    {
        let ghost p = key.model();
        assert(p.take(p.len() as int) =~= p);
        if let Some(node) = self.node(key) {
            let mut node2: PathResolveCacheNode = Self::copy_node(node);
            node2.value = None;
            node2.entry_id = None;
            self.put_node(key.dup_key(), node2);
        }
        if key.comps.len() > 0 {
            self.drop_edges(key, false);
        }
        self.recompute_up(key);
    }

    /// Drops the value used least recently.
    fn evict_lru(&mut self)
        requires
            old(self).wf(),
        ensures
            final(self).wf(),
            evicted(old(self)@, final(self)@),
    {
        let id: u64 = match self.oldest() {
            Some(id) => id,
            None => {
                return;
            },
        };
        let key: PathKey = match self.lru.get(&id) {
            Some(key) => key.dup_key(),
            None => {
                return;
            },
        };
        let ghost c = self@;
        let ghost p = key.model();
        proof {
            assert(c.lru.contains_key(id) && c.lru[id] == p);
            assert(c.nodes.contains_key(p));
        }
        self.drop_lru(id);
        self.remove_single_entry(&key);
        proof {
            assert(evicted_entry(c, self@, id));
            lemma_evicted_inv(c, self@, id);
        }
    }

    fn has_value(&self, key: &PathKey) -> (r: bool)
        requires
            self.tables_wf(),
        ensures
            r == !self@.is_new(key.model()),
    {
        match self.node(key) {
            Some(n) => n.value.is_some(),
            None => false,
        }
    }

    fn make_room(&mut self, key: &PathKey)
        requires
            old(self).wf(),
        ensures
            final(self).wf(),
            made_room(old(self)@, final(self)@, key.model()),
    {
        if !self.has_value(key) && self.len() >= self.max_entries {
            self.evict_lru();
        }
    }

    /// Makes the nodes on the way to `key` and takes their values out.
    fn clear_way(&mut self, key: &PathKey)
        requires
            old(self).wf(),
        ensures
            final(self).tables_wf(),
            final(self)@ == (CacheView {
                nodes: opened_nodes(old(self)@.nodes, key.model()),
                lru: opened_lru(old(self)@.lru, key.model()),
                ..old(self)@
            }),
    {
        let ghost p = key.model();
        let ghost c = self@;
        let n: usize = key.comps.len();
        let mut k: usize = 0;
        let mut more: bool = true;
        while more
            invariant
                p == key.model(),
                c == old(self)@,
                c.inv(),
                n == key.comps@.len(),
                n == p.len(),
                0 <= k <= n,
                self.tables_wf(),
                self@ == (CacheView { nodes: self@.nodes, lru: self@.lru, ..c }),
                forall|q: Path| #[trigger]
                    self@.nodes.contains_key(q) <==> c.nodes.contains_key(q) || (q.is_prefix_of(p)
                        && (q.len() < k || !more)),
                forall|q: Path| #[trigger]
                    self@.nodes.contains_key(q) ==> self@.nodes[q] == (if q.is_prefix_of(p) && (
                    q.len() < k || !more) {
                        CacheNodeView {
                            value: None,
                            deepest: node_or_empty(c.nodes, q).deepest,
                            entry_id: None,
                        }
                    } else {
                        c.nodes[q]
                    }),
                forall|j: u64| #[trigger]
                    self@.lru.contains_key(j) <==> c.lru.contains_key(j) && !(c.lru[j].is_prefix_of(
                        p,
                    ) && (c.lru[j].len() < k || !more)),
                forall|j: u64| #[trigger]
                    self@.lru.contains_key(j) ==> self@.lru[j] == c.lru[j],
                !more ==> k == n,
            decreases (if more { n - k + 1 } else { 0 }),
        {
            let at: PathKey = key.take(k);
            let ghost q0 = p.take(k as int);
            let ghost mid = self@;
            let mut node2 = PathResolveCacheNode {
                value: None,
                deepest_inode: None,
                entry_id: None,
            };
            let mut old_id: Option<u64> = None;
            if let Some(node) = self.node(&at) {
                node2.deepest_inode = match &node.deepest_inode {
                    Some(ids) => Some(all_ids(ids)),
                    None => None,
                };
                old_id = node.entry_id;
            }
            proof {
                assert(q0.len() == k);
                assert(q0.is_prefix_of(p)) by {
                    assert(q0 =~= p.subrange(0, q0.len() as int));
                }
            }
            if let Some(id) = old_id {
                assert(c.nodes.contains_key(q0));
                self.drop_lru(id);
            }
            self.put_node(at, node2);
            proof {
                assert forall|q: Path| q.is_prefix_of(p) && q.len() == k implies q == q0 by {
                    assert(q =~= q0);
                }
                assert forall|j: u64| #[trigger] self@.lru.contains_key(j) <==> c.lru.contains_key(
                    j,
                ) && !(c.lru[j].is_prefix_of(p) && (c.lru[j].len() <= k)) by {
                    if c.lru.contains_key(j) && c.lru[j] == q0 {
                        assert(c.nodes[q0].entry_id == Some(j));
                    }
                    if old_id is Some {
                        assert(c.lru[old_id->0] == q0);
                    }
                }
            }
            if k == n {
                more = false;
                proof {
                    assert forall|q: Path| q.is_prefix_of(p) implies q.len() <= k by {}
                }
            } else {
                k = k + 1;
            }
        }
        proof {
            assert(self@.nodes =~= opened_nodes(c.nodes, p));
            assert(self@.lru =~= opened_lru(c.lru, p));
        }
    }

    /// Records the edges along `key`, whose parents are `ids`.
    fn note_edges(&mut self, key: &PathKey, ids: &Vec<u64>)
        requires
            old(self).tables_wf(),
            ids@.len() >= key.model().len(),
        ensures
            final(self).tables_wf(),
            final(self)@ == (CacheView {
                edges: add_edges(old(self)@.edges, key.model(), ids@, key.model().len()),
                ..old(self)@
            }),
    {
        let ghost p = key.model();
        let ghost before = self@.edges;
        let mut i: usize = 0;
        while i < key.comps.len()
            invariant
                0 <= i <= key.comps@.len(),
                p == key.model(),
                ids@.len() >= p.len(),
                self.tables_wf(),
                before == old(self)@.edges,
                self@ == (CacheView {
                    edges: add_edges(before, p, ids@, i as nat),
                    ..old(self)@
                }),
            decreases key.comps@.len() - i,
        {
            let edge = Edge { parent: ids[i], name: key.comps[i].clone() };
            let ghost mid = self@.edges;
            self.edges.put(edge, key.take(i + 1));
            assert(self@.edges =~= mid.insert((ids@[i as int], p[i as int]), p.take(i + 1)));
            i = i + 1;
        }
    }

    /// Raises what is known on the way to `key` by `ids`, if that is longer.
    fn raise_way(&mut self, key: &PathKey, ids: &Vec<u64>)
        requires
            old(self).tables_wf(),
            forall|k: int|
                0 <= k <= key.model().len() ==> old(self)@.nodes.contains_key(
                    #[trigger] key.model().take(k),
                ),
        ensures
            final(self).tables_wf(),
            final(self)@ == (CacheView {
                nodes: raised_nodes(old(self)@.nodes, key.model(), ids@, key.model().len()),
                ..old(self)@
            }),
    {
        let ghost p = key.model();
        let ghost before = self@.nodes;
        let mut k: usize = 0;
        assert(self@.nodes =~= raised_nodes(before, p, ids@, 0));
        while k < key.comps.len()
            invariant
                0 <= k <= key.comps@.len(),
                p == key.model(),
                p.len() == key.comps@.len(),
                self.tables_wf(),
                before == old(self)@.nodes,
                forall|j: int| 0 <= j <= p.len() ==> before.contains_key(#[trigger] p.take(j)),
                self@ == (CacheView {
                    nodes: raised_nodes(before, p, ids@, k as nat),
                    ..old(self)@
                }),
            decreases key.comps@.len() - k,
        {
            let at: PathKey = key.take(k);
            let ghost q0 = p.take(k as int);
            let ghost mid = self@.nodes;
            assert(before.contains_key(q0));
            assert(mid.contains_key(q0));
            if let Some(node) = self.node(&at) {
                let mut node2: PathResolveCacheNode = Self::copy_node(node);
                let replace: bool = match &node2.deepest_inode {
                    Some(cur) => ids.len() > cur.len(),
                    None => true,
                };
                if replace {
                    node2.deepest_inode = Some(all_ids(ids));
                }
                self.put_node(at, node2);
            }
            proof {
                assert(q0.is_prefix_of(p)) by {
                    assert(q0 =~= p.subrange(0, q0.len() as int));
                }
                assert forall|q: Path| q.is_prefix_of(p) && q.len() == k implies q == q0 by {
                    assert(q =~= q0);
                }
                assert(self@.nodes =~= raised_nodes(before, p, ids@, (k + 1) as nat));
            }
            k = k + 1;
        }
    }

    /// Caches the ids along a path.  A list of the wrong length is ignored, and
    /// once uses can no longer be numbered nothing more is cached.
    pub fn put_ids_for_path(&mut self, components: Vec<String>, ids: Vec<u64>)
        requires
            old(self).wf(),
        ensures
            final(self).wf(),
            if ids@.len() != components@.len() + 1 || old(self)@.next_entry_id == u64::MAX {
                final(self)@ == old(self)@
            } else {
                exists|mid: CacheView| #[trigger]
                    made_room(old(self)@, mid, view_all(components@)) && final(self)@ == with_ids(
                        mid,
                        view_all(components@),
                        ids@,
                    )
            },
    {
        if ids.len() == 0 || ids.len() - 1 != components.len() || self.next_entry_id == u64::MAX {
            return;
        }
        let key = PathKey { comps: components };
        let ghost p = key.model();
        self.make_room(&key);
        let ghost mid = self@;
        proof {
            lemma_room_keeps_next(old(self)@, mid, p);
        }
        self.clear_way(&key);
        let ghost opened = self@.nodes;
        proof {
            lemma_prefixes_opened(mid.nodes, p);
        }
        self.raise_way(&key, &ids);
        let id: u64 = self.next_entry_id;
        let node = PathResolveCacheNode {
            value: Some(PathResolveCacheValue::InodeIds(all_ids(&ids))),
            deepest_inode: Some(all_ids(&ids)),
            entry_id: Some(id),
        };
        self.put_node(key.dup_key(), node);
        self.put_lru(id, key.dup_key());
        self.next_entry_id = id + 1;
        self.note_edges(&key, &ids);
        proof {
            let w = with_ids(mid, p, ids@);
            assert(p.is_prefix_of(p)) by {
                assert(p =~= p.subrange(0, p.len() as int));
            }
            assert forall|q: Path| q.is_prefix_of(p) && q.len() == p.len() implies q == p by {
                assert(q =~= p.subrange(0, p.len() as int));
                assert(p =~= p.subrange(0, p.len() as int));
            }
            assert(self@.nodes =~= w.nodes);
            assert(self@.lru =~= w.lru);
            assert(self@ =~= w);
            lemma_with_ids_inv(mid, p, ids@);
        }
    }

    /// Caches the object or link at the end of a path.  A list of parents of the
    /// wrong length is ignored, and once uses can no longer be numbered nothing
    /// more is cached.
    pub fn put_terminal_for_path(
        &mut self,
        components: Vec<String>,
        parent_ids: Vec<u64>,
        value: PathResolveTerminalValue,
    )
        requires
            old(self).wf(),
        ensures
            final(self).wf(),
            if parent_ids@.len() != components@.len() || old(self)@.next_entry_id == u64::MAX {
                final(self)@ == old(self)@
            } else {
                exists|mid: CacheView| #[trigger]
                    made_room(old(self)@, mid, view_all(components@)) && with_terminal(
                        mid,
                        final(self)@,
                        view_all(components@),
                        parent_ids@,
                        value,
                    )
            },
    {
        if parent_ids.len() != components.len() || self.next_entry_id == u64::MAX {
            return;
        }
        let key = PathKey { comps: components };
        let ghost p = key.model();
        self.make_room(&key);
        let ghost mid = self@;
        proof {
            lemma_room_keeps_next(old(self)@, mid, p);
        }
        self.clear_way(&key);
        proof {
            lemma_prefixes_opened(mid.nodes, p);
            assert(p.take(p.len() as int) =~= p);
        }
        let id: u64 = self.next_entry_id;
        let mut node = PathResolveCacheNode {
            value: Some(PathResolveCacheValue::Terminal(value)),
            deepest_inode: None,
            entry_id: Some(id),
        };
        if let Some(n) = self.node(&key) {
            node.deepest_inode = match &n.deepest_inode {
                Some(ids) => Some(all_ids(ids)),
                None => None,
            };
        }
        self.put_node(key.dup_key(), node);
        self.put_lru(id, key.dup_key());
        self.next_entry_id = id + 1;
        proof {
            assert(p.is_prefix_of(p)) by {
                assert(p =~= p.subrange(0, p.len() as int));
            }
            assert(self@.nodes =~= terminal_set(mid.nodes, p, value, id));
        }
        self.recompute_up(&key);
        self.note_edges(&key, &parent_ids);
        proof {
            assert(self@.lru =~= lru_with(mid.lru, p, id));
            assert(with_terminal(mid, self@, p, parent_ids@, value));
            lemma_with_terminal_inv(mid, self@, p, parent_ids@, value);
        }
    }

    fn drop_subtree(&mut self, key: &PathKey)
        requires
            old(self).tables_wf(),
        ensures
            final(self).tables_wf(),
            final(self)@ == (CacheView {
                nodes: without_subtree(old(self)@.nodes, key.model()),
                ..old(self)@
            }),
    {
        let ghost p = key.model();
        let ghost before = self.nodes@;
        let mut i: usize = 0;
        while i < self.nodes.rows.len()
            invariant
                0 <= i <= self.nodes.rows@.len(),
                p == key.model(),
                self.tables_wf(),
                self@ == (CacheView { nodes: self@.nodes, ..old(self)@ }),
                before == old(self).nodes@,
                forall|j: int|
                    0 <= j < i ==> !p.is_prefix_of((#[trigger] self.nodes.rows@[j]).0.model()),
                forall|q: Path| #[trigger]
                    self.nodes@.contains_key(q) ==> before.contains_key(q) && self.nodes@[q]
                        == before[q],
                forall|q: Path| #[trigger]
                    before.contains_key(q) && !p.is_prefix_of(q) ==> self.nodes@.contains_key(q),
            decreases self.nodes.rows@.len() - i,
        {
            if self.nodes.rows[i].0.begins_with(key) {
                let ghost rows0 = self.nodes.rows@;
                self.nodes.remove_at(i);
                proof {
                    assert forall|j: int| 0 <= j < i implies !p.is_prefix_of(
                        (#[trigger] self.nodes.rows@[j]).0.model(),
                    ) by {
                        assert(self.nodes.rows@[j] == rows0[j]);
                    }
                }
            } else {
                i = i + 1;
            }
        }
        proof {
            assert forall|q: Path| #[trigger] self.nodes@.contains_key(q) implies !p.is_prefix_of(
                q,
            ) by {
                lemma_map_has_row(self.nodes.rows@, q);
            }
            assert(self@.nodes =~= without_subtree(old(self)@.nodes, p));
        }
    }

    fn drop_lru_under(&mut self, key: &PathKey)
        requires
            old(self).tables_wf(),
        ensures
            final(self).tables_wf(),
            final(self)@ == (CacheView {
                lru: Map::new(
                    |j: u64|
                        old(self)@.lru.contains_key(j) && !key.model().is_prefix_of(
                            old(self)@.lru[j],
                        ),
                    |j: u64| old(self)@.lru[j],
                ),
                ..old(self)@
            }),
    {
        let ghost p = key.model();
        let ghost before = self.lru@;
        let mut i: usize = 0;
        while i < self.lru.rows.len()
            invariant
                0 <= i <= self.lru.rows@.len(),
                p == key.model(),
                self.tables_wf(),
                self@ == (CacheView { lru: self@.lru, ..old(self)@ }),
                before == old(self).lru@,
                forall|j: int|
                    0 <= j < i ==> !p.is_prefix_of((#[trigger] self.lru.rows@[j]).1.model()),
                forall|j: u64| #[trigger]
                    self.lru@.contains_key(j) ==> before.contains_key(j) && self.lru@[j]
                        == before[j],
                forall|j: u64| #[trigger]
                    before.contains_key(j) && !p.is_prefix_of(before[j].model())
                        ==> self.lru@.contains_key(j),
            decreases self.lru.rows@.len() - i,
        {
            if self.lru.rows[i].1.begins_with(key) {
                let ghost rows0 = self.lru.rows@;
                self.lru.remove_at(i);
                proof {
                    assert forall|j: int| 0 <= j < i implies !p.is_prefix_of(
                        (#[trigger] self.lru.rows@[j]).1.model(),
                    ) by {
                        assert(self.lru.rows@[j] == rows0[j]);
                    }
                }
            } else {
                i = i + 1;
            }
        }
        proof {
            assert forall|j: u64| #[trigger] self.lru@.contains_key(j) implies !p.is_prefix_of(
                before[j].model(),
            ) by {
                lemma_map_has_row(self.lru.rows@, j);
            }
            assert(self@.lru =~= Map::new(
                |j: u64| old(self)@.lru.contains_key(j) && !p.is_prefix_of(old(self)@.lru[j]),
                |j: u64| old(self)@.lru[j],
            ));
        }
    }

    /// Forgets everything at or below a path.
    pub fn invalidate_prefix(&mut self, prefix: &[&str])
        requires
            old(self).wf(),
        ensures
            final(self).wf(),
            invalidated(old(self)@, final(self)@, str_views(prefix@)),
    {
        let key: PathKey = key_of(prefix);
        self.invalidate_key(&key);
    }

    fn invalidate_key(&mut self, key: &PathKey)
        requires
            old(self).wf(),
        ensures
            final(self).wf(),
            invalidated(old(self)@, final(self)@, key.model()),
    {
        let ghost c = self@;
        let ghost p = key.model();
        if key.comps.len() == 0 {
            let mut fresh: PathResolveCache = PathResolveCache::new(self.max_entries);
            fresh.next_entry_id = self.next_entry_id;
            self.nodes = fresh.nodes;
            self.edges = fresh.edges;
            self.lru = fresh.lru;
            proof {
                assert(p =~= Seq::empty());
            }
            return;
        }
        let parent: PathKey = key.take(key.comps.len() - 1);
        assert(parent.model() =~= p.drop_last());
        if self.node(&parent).is_none() {
            return;
        }
        self.drop_lru_under(key);
        self.drop_subtree(key);
        self.drop_edges(key, true);
        proof {
            let q = p.drop_last();
            assert forall|k: int| 0 <= k <= q.len() implies self@.nodes.contains_key(
                #[trigger] q.take(k),
            ) by {
                assert(c.nodes.contains_key(q.take(k)));
                assert(!p.is_prefix_of(q.take(k)));
            }
        }
        self.recompute_up(&parent);
        proof {
            assert(invalidated(c, self@, p));
            lemma_invalidated_inv(c, self@, p);
        }
    }

    /// Forgets everything that was resolved through an edge.
    pub fn invalidate_by_edge(&mut self, parent: u64, name: &str)
        requires
            old(self).wf(),
        ensures
            final(self).wf(),
            if old(self)@.edges.contains_key((parent, name@)) {
                invalidated(old(self)@, final(self)@, old(self)@.edges[(parent, name@)])
            } else {
                final(self)@ == old(self)@
            },
    {
        let edge = Edge { parent, name: name.to_owned() };
        let key: PathKey = match self.edges.get(&edge) {
            Some(key) => key.dup_key(),
            None => {
                return;
            },
        };
        self.invalidate_key(&key);
    }
}

/// An edge to `q` leads to `p`, or with `below` to `p` or further.
pub open spec fn leads(p: Path, q: Path, below: bool) -> bool {
    if below {
        p.is_prefix_of(q)
    } else {
        p == q
    }
}

/// What is known at the first `n` nodes on the way to `p`, raised by `ids`.
pub open spec fn raised_nodes(
    nodes: Map<Path, CacheNodeView>,
    p: Path,
    ids: Seq<u64>,
    n: nat,
) -> Map<Path, CacheNodeView> {
    nodes.map_entries(
        |q: Path, node: CacheNodeView|
            if q.is_prefix_of(p) && q.len() < n {
                CacheNodeView { deepest: raised(node.deepest, ids), ..node }
            } else {
                node
            },
    )
}

proof fn lemma_best_local(
    a: Map<Path, CacheNodeView>,
    b: Map<Path, CacheNodeView>,
    r: Path,
    q: Path,
    best: Option<Seq<u64>>,
)
    requires
        is_best(a, r, best),
        q.len() <= r.len(),
        a.contains_key(q),
        a.contains_key(r),
        b == a.insert(q, CacheNodeView { deepest: b[q].deepest, ..a[q] }),
    ensures
        is_best(b, r, best),
{
    assert forall|c: Path| is_child(b, c, r) <==> is_child(a, c, r) by {}
    assert forall|c: Path| #[trigger] is_child(b, c, r) implies b[c] == a[c] by {}
    assert(own_ids(b[r]) == own_ids(a[r]));
    if best is Some && own_ids(a[r]) != Some(best->0) {
        let c = choose|c: Path| #[trigger] is_child(a, c, r) && a[c].deepest == Some(best->0);
        assert(is_child(b, c, r) && b[c].deepest == Some(best->0));
    }
}

proof fn lemma_rebased_inv(c: CacheView, d: CacheView, p: Path)
    requires
        c.inv(),
        rebased(c.nodes, d.nodes, p),
        d == (CacheView { nodes: d.nodes, edges: d.edges, ..c }),
    ensures
        d.inv(),
{
    assert forall|q: Path| d.nodes.contains_key(q) <==> c.nodes.contains_key(q) by {
        assert(d.nodes.dom().contains(q) <==> c.nodes.dom().contains(q));
    }
    assert forall|q: Path| #[trigger] d.nodes.contains_key(q) implies own_ids(d.nodes[q])
        == own_ids(c.nodes[q]) by {}
    assert forall|id: u64| #[trigger] d.lru.contains_key(id) implies d.nodes.contains_key(
        d.lru[id],
    ) && d.nodes[d.lru[id]].entry_id == Some(id) by {
        assert(c.nodes.contains_key(c.lru[id]));
    }
}

proof fn lemma_evicted_inv(c: CacheView, d: CacheView, id: u64)
    requires
        c.inv(),
        c.lru.contains_key(id),
        evicted_entry(c, d, id),
    ensures
        d.inv(),
{
    let p = c.lru[id];
    let m = CacheView {
        nodes: c.nodes.insert(p, CacheNodeView { value: None, entry_id: None, ..c.nodes[p] }),
        lru: c.lru.remove(id),
        ..c
    };
    assert forall|q: Path| #[trigger]
        m.nodes.contains_key(q) && m.nodes[q].entry_id is Some implies m.lru.contains_key(
        m.nodes[q].entry_id->0,
    ) && m.lru[m.nodes[q].entry_id->0] == q by {
        assert(c.nodes.contains_key(q));
        assert(c.lru[c.nodes[q].entry_id->0] == q);
    }
    assert forall|j: u64| #[trigger] m.lru.contains_key(j) implies j < m.next_entry_id
        && m.nodes.contains_key(m.lru[j]) && m.nodes[m.lru[j]].entry_id == Some(j) by {
        assert(c.lru.contains_key(j));
        assert(c.nodes[c.lru[j]].entry_id == Some(j));
    }
    assert forall|q: Path, k: int|
        m.nodes.contains_key(q) && 0 <= k <= q.len() implies m.nodes.contains_key(
        #[trigger] q.take(k),
    ) by {
        assert(c.nodes.contains_key(q));
        assert(c.nodes.contains_key(q.take(k)));
    }
    assert(m.inv());
    lemma_rebased_inv(m, d, p);
}

proof fn lemma_room_keeps_next(c: CacheView, d: CacheView, p: Path)
    requires
        made_room(c, d, p),
    ensures
        d.next_entry_id == c.next_entry_id,
        d.max_entries == c.max_entries,
{
}

/// Making room keeps the cache in order.
pub proof fn lemma_room_inv(c: CacheView, d: CacheView, p: Path)
    requires
        c.inv(),
        made_room(c, d, p),
    ensures
        d.inv(),
{
    if c.is_new(p) && c.lru.dom().len() >= c.max_entries && c.lru.dom().len() != 0 {
        let id = choose|id: u64| #[trigger] is_oldest(c, id) && evicted_entry(c, d, id);
        lemma_evicted_inv(c, d, id);
    }
}

proof fn lemma_prefixes_opened(nodes: Map<Path, CacheNodeView>, p: Path)
    ensures
        forall|k: int|
            0 <= k <= p.len() ==> opened_nodes(nodes, p).contains_key(#[trigger] p.take(k)),
{
    assert forall|k: int| 0 <= k <= p.len() implies opened_nodes(nodes, p).contains_key(
        #[trigger] p.take(k),
    ) by {
        assert(p.take(k).is_prefix_of(p)) by {
            assert(p.take(k) =~= p.subrange(0, p.take(k).len() as int));
        }
    }
}

/// Any prefix of a prefix of `p` is a prefix of `p`.
proof fn lemma_prefix_take(q: Path, p: Path, k: int)
    requires
        q.is_prefix_of(p),
        0 <= k <= q.len(),
    ensures
        q.take(k).is_prefix_of(p),
{
    assert(q.take(k) =~= p.subrange(0, k));
}

pub proof fn lemma_with_ids_inv(c: CacheView, p: Path, ids: Seq<u64>)
    requires
        c.inv(),
        ids.len() == p.len() + 1,
        c.next_entry_id < u64::MAX,
    ensures
        with_ids(c, p, ids).inv(),
{
    let d = with_ids(c, p, ids);
    lemma_opened_shape(c, d, p);
}

/// The shape that storing a value at `p` keeps, whatever the value is.
proof fn lemma_opened_shape(c: CacheView, d: CacheView, p: Path)
    requires
        c.inv(),
        c.next_entry_id < u64::MAX,
        d.next_entry_id == c.next_entry_id + 1,
        d.lru == lru_with(c.lru, p, c.next_entry_id),
        forall|q: Path| #[trigger]
            d.nodes.contains_key(q) <==> c.nodes.contains_key(q) || q.is_prefix_of(p),
        forall|q: Path| #[trigger]
            d.nodes.contains_key(q) && q != p && q.is_prefix_of(p) ==> d.nodes[q].value is None
                && d.nodes[q].entry_id is None,
        forall|q: Path| #[trigger]
            d.nodes.contains_key(q) && !q.is_prefix_of(p) ==> d.nodes[q].value == c.nodes[q].value
                && d.nodes[q].entry_id == c.nodes[q].entry_id,
        d.nodes[p].value is Some,
        d.nodes[p].entry_id == Some(c.next_entry_id),
        own_ids(d.nodes[p]) is Some ==> own_ids(d.nodes[p])->0.len() == p.len() + 1,
    ensures
        d.inv(),
{
    assert(p.is_prefix_of(p)) by {
        assert(p =~= p.subrange(0, p.len() as int));
    }
    assert(Seq::<Seq<char>>::empty().is_prefix_of(p)) by {
        assert(Seq::<Seq<char>>::empty() =~= p.subrange(0, 0));
    }
    assert(d.nodes.contains_key(Seq::empty()));
    assert forall|q: Path, k: int|
        d.nodes.contains_key(q) && 0 <= k <= q.len() implies d.nodes.contains_key(
        #[trigger] q.take(k),
    ) by {
        if q.is_prefix_of(p) {
            lemma_prefix_take(q, p, k);
        } else {
            assert(c.nodes.contains_key(q));
            assert(c.nodes.contains_key(q.take(k)));
        }
    }
    assert forall|q: Path| #[trigger]
        d.nodes.contains_key(q) && d.nodes[q].entry_id is Some implies d.lru.contains_key(
        d.nodes[q].entry_id->0,
    ) && d.lru[d.nodes[q].entry_id->0] == q by {
        if q != p {
            assert(!q.is_prefix_of(p));
            assert(c.nodes.contains_key(q));
            assert(c.lru[c.nodes[q].entry_id->0] == q);
        }
    }
    assert forall|j: u64| #[trigger] d.lru.contains_key(j) implies j < d.next_entry_id
        && d.nodes.contains_key(d.lru[j]) && d.nodes[d.lru[j]].entry_id == Some(j) by {
        if j != c.next_entry_id {
            assert(c.lru.contains_key(j));
            assert(c.nodes[c.lru[j]].entry_id == Some(j));
            assert(!c.lru[j].is_prefix_of(p));
        }
    }
    assert forall|q: Path| #[trigger]
        d.nodes.contains_key(q) && own_ids(d.nodes[q]) is Some implies own_ids(
        d.nodes[q],
    )->0.len() == q.len() + 1 by {
        if q != p {
            assert(!q.is_prefix_of(p));
            assert(c.nodes.contains_key(q));
            assert(own_ids(d.nodes[q]) == own_ids(c.nodes[q]));
        }
    }
    assert forall|q: Path| #[trigger] d.nodes.contains_key(q) implies (d.nodes[q].value is Some
        <==> d.nodes[q].entry_id is Some) by {
        if !q.is_prefix_of(p) {
            assert(c.nodes.contains_key(q));
        }
    }
}

pub proof fn lemma_with_terminal_inv(
    c: CacheView,
    d: CacheView,
    p: Path,
    parent_ids: Seq<u64>,
    value: PathResolveTerminalValue,
)
    requires
        c.inv(),
        c.next_entry_id < u64::MAX,
        with_terminal(c, d, p, parent_ids, value),
    ensures
        d.inv(),
{
    let t = terminal_set(c.nodes, p, value, c.next_entry_id);
    assert(p.is_prefix_of(p)) by {
        assert(p =~= p.subrange(0, p.len() as int));
    }
    assert forall|q: Path| #[trigger] d.nodes.contains_key(q) <==> c.nodes.contains_key(q)
        || q.is_prefix_of(p) by {
        assert(d.nodes.dom().contains(q) <==> t.dom().contains(q));
    }
    assert(d.nodes.contains_key(p));
    lemma_opened_shape(c, d, p);
}

pub proof fn lemma_invalidated_inv(c: CacheView, d: CacheView, p: Path)
    requires
        c.inv(),
        p.len() > 0,
        invalidated(c, d, p),
    ensures
        d.inv(),
{
    if c.nodes.contains_key(p.drop_last()) {
        let m = CacheView { nodes: without_subtree(c.nodes, p), lru: d.lru, ..c };
        assert(m.nodes.contains_key(Seq::empty()));
        assert forall|q: Path, k: int|
            m.nodes.contains_key(q) && 0 <= k <= q.len() implies m.nodes.contains_key(
            #[trigger] q.take(k),
        ) by {
            assert(c.nodes.contains_key(q.take(k)));
            if p.is_prefix_of(q.take(k)) {
                assert(p =~= q.subrange(0, p.len() as int));
            }
        }
        assert forall|q: Path| #[trigger]
            m.nodes.contains_key(q) && m.nodes[q].entry_id is Some implies m.lru.contains_key(
            m.nodes[q].entry_id->0,
        ) && m.lru[m.nodes[q].entry_id->0] == q by {
            assert(c.nodes.contains_key(q));
            assert(c.lru[c.nodes[q].entry_id->0] == q);
        }
        assert forall|j: u64| #[trigger] m.lru.contains_key(j) implies j < m.next_entry_id
            && m.nodes.contains_key(m.lru[j]) && m.nodes[m.lru[j]].entry_id == Some(j) by {
            assert(c.lru.contains_key(j));
            assert(c.nodes[c.lru[j]].entry_id == Some(j));
        }
        assert(m.inv());
        lemma_rebased_inv(m, d, p.drop_last());
    }
}

} // verus!
