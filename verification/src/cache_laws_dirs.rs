//! Making directories and turning them into objects keeps the path cache true.

use vstd::prelude::*;
use crate::cache_laws::{cache_true, lemma_publish_pair, pair_true};
use crate::cache_room::{has_room, lemma_resolves_keeps_edges};
use crate::coherence_laws::{reach, strict};
use crate::committed::{installs, settled};
use crate::ensure::{
    dir_step, ensures_dir, makes_dirs, settled_by, step_made, DirAnswer, DirStep, When,
};
use crate::ensure_laws::{is_dir_inode, law_made_dirs_are_there};
use crate::errors::MetaError;
use crate::finalize::{
    drop_children_after, dropped_after, finish_committed, finishes, gathers, gathers_child,
    may_finish, plans_at, plans_finalize, takes_child, ChildOut, FinalizePlan, Gathered, PlanView,
};
use crate::finalize_laws::{in_entries, lemma_drop_children};
use crate::listing::is_entries;
use crate::outside::BaseStoreView;
use crate::path_cache::{CacheView, Path};
use crate::paths::{child_path, path_parts};
use crate::paths_kept::{
    fits, lemma_delete_fits, lemma_fits_same, lemma_fits_trans, lemma_remove_fits,
    lemma_replace_fits, sound,
};
use crate::records::{DentryRecord, DentryTarget, FsMetaResolvePathItem, NodeRecord, ObjId};
use crate::requests_fit::lemma_dir_made_fits;
use crate::resolve::{
    resolves, step, walk, Answer, PassEnd, RespView, Step, WalkEnd, DEFAULT_SYMLINK_COUNT,
};
use crate::resolve_laws::{
    follows, hop, law_cache_is_transparent, lemma_walk_skips, plain_pass, resolved,
};
use crate::service::FSMetaService;
use crate::tables::{delete_dentry_after, remove_inode_after, replace_target_after, TablesView};
use crate::text::view_all;

verus! {

/// What resolving a path with the usual number of links may add to the cache.
pub open spec fn one_resolution() -> nat {
    DEFAULT_SYMLINK_COUNT as nat + 1
}

/// Going down a path and making what is missing keeps the cache true.
proof fn lemma_makes_dirs_true(
    v: TablesView,
    c: CacheView,
    base: BaseStoreView,
    comps: Seq<String>,
    i: int,
    cur: u64,
    at: When,
    w: TablesView,
    d: CacheView,
    a: DirAnswer,
)
    requires
        pair_true(v, base, c),
        makes_dirs(v, c, base, comps, i, cur, at, w, d, a),
    ensures
        pair_true(w, base, d),
        d.lru.dom().len() <= c.lru.dom().len(),
        d.max_entries == c.max_entries,
        at.locked ==> w == v,
    decreases comps.len() - i,
{
    if i < comps.len() {
        let step = dir_step(v, base, view_all(comps), i, cur);
        match step {
            DirStep::End(_) => {},
            DirStep::Down(id) => {
                lemma_makes_dirs_true(v, c, base, comps, i + 1, id, at, w, d, a);
            },
            _ => {
                if let Ok(made) = step_made(v, step, cur, comps[i], at) {
                    let m = choose|m: CacheView| #[trigger]
                        installs(c, made.0, m) && makes_dirs(
                            settled(made.0),
                            m,
                            base,
                            comps,
                            i + 1,
                            made.1,
                            at,
                            w,
                            d,
                            a,
                        );
                    let o = match step {
                        DirStep::Lay(o) => o,
                        _ => arbitrary(),
                    };
                    lemma_dir_made_fits(v, cur, comps[i], o, at.now);
                    lemma_publish_pair(v, base, c, made.0, m);
                    lemma_makes_dirs_true(
                        settled(made.0),
                        m,
                        base,
                        comps,
                        i + 1,
                        made.1,
                        at,
                        w,
                        d,
                        a,
                    );
                }
            },
        }
    }
}

proof fn lemma_ensures_dir_true(
    v: TablesView,
    c: CacheView,
    base: BaseStoreView,
    path: Seq<char>,
    at: When,
    w: TablesView,
    d: CacheView,
    a: DirAnswer,
)
    requires
        pair_true(v, base, c),
        has_room(c, one_resolution()),
        ensures_dir(v, c, base, path, at, w, d, a),
    ensures
        pair_true(w, base, d),
        d.lru.dom().len() <= c.lru.dom().len() + one_resolution(),
        d.max_entries == c.max_entries,
        at.locked ==> w == v,
{
    let p = path_parts(path);
    if p.len() > 0 {
        let (mid, answer) = choose|mid: CacheView, answer: Answer| #[trigger]
            resolves(v, base, c, p, DEFAULT_SYMLINK_COUNT as nat, mid, answer) && match settled_by(
                answer,
                path,
            ) {
                Some(end) => w == v && d == mid && a == end,
                None => exists|comps: Seq<String>|
                    view_all(comps) == p && #[trigger] makes_dirs(
                        v,
                        mid,
                        base,
                        comps,
                        0,
                        v.root,
                        at,
                        w,
                        d,
                        a,
                    ),
            };
        lemma_resolves_keeps_edges(v, base, c, p, DEFAULT_SYMLINK_COUNT as nat, mid, answer);
        if settled_by(answer, path) is None {
            let comps = choose|comps: Seq<String>|
                view_all(comps) == p && #[trigger] makes_dirs(
                    v,
                    mid,
                    base,
                    comps,
                    0,
                    v.root,
                    at,
                    w,
                    d,
                    a,
                );
            lemma_makes_dirs_true(v, mid, base, comps, 0, v.root, at, w, d, a);
        }
    }
}

/// Finding or making the directory at a path keeps the cache true.
pub proof fn law_ensured_dir_keeps_cache_true(
    a: FSMetaService,
    path: Seq<char>,
    now: u64,
    b: FSMetaService,
    answer: DirAnswer,
)
    requires
        cache_true(a),
        has_room(a@.cache, one_resolution()),
        b.rest == a.rest,
        b@.txns == a@.txns,
        ensures_dir(
            a@.tables,
            a@.cache,
            a.rest.base@,
            path,
            (When { now, locked: a@.busy() }),
            b@.tables,
            b@.cache,
            answer,
        ),
    ensures
        cache_true(b),
{
    lemma_ensures_dir_true(
        a@.tables,
        a@.cache,
        a.rest.base@,
        path,
        When { now, locked: a@.busy() },
        b@.tables,
        b@.cache,
        answer,
    );
    assert forall|k: Seq<char>| #[trigger] b@.txns.contains_key(k) implies fits(
        b@.tables,
        b@.txns[k].tables,
    ) by {
        assert(a@.txns.contains_key(k));
        assert(a@.busy());
    }
}

proof fn lemma_gathers_true(
    v: TablesView,
    base: BaseStoreView,
    c: CacheView,
    kids: Map<Seq<char>, ObjId>,
    path: Seq<char>,
    es: Seq<DentryRecord>,
    d: CacheView,
    h: Gathered,
)
    requires
        pair_true(v, base, c),
        has_room(c, one_resolution() * es.len()),
        gathers(v, base, c, kids, path, es, d, h),
    ensures
        pair_true(v, base, d),
        d.lru.dom().len() <= c.lru.dom().len() + one_resolution() * es.len(),
        d.max_entries == c.max_entries,
    decreases es.len(),
{
    if es.len() > 0 {
        let n = es.len() - 1;
        assert(one_resolution() * es.len() == one_resolution() * n + one_resolution())
            by (nonlinear_arith)
            requires
                n == es.len() - 1,
        ;
        let (mid, g) = choose|mid: CacheView, g: Gathered|
            gathers(v, base, c, kids, path, es.drop_last(), mid, g) && #[trigger] gathers_child(
                v,
                base,
                mid,
                g,
                path,
                es.last(),
                d,
                h,
            );
        lemma_gathers_true(v, base, c, kids, path, es.drop_last(), mid, g);
        if g is Going {
            let out = choose|out: ChildOut| #[trigger]
                takes_child(v, base, mid, path, es.last(), d, out)
                    && h == crate::finalize::gathered_with(g, path, es.last().name@, out);
            if es.last().target is SymLink {
                let p = path_parts(child_path(path, es.last().name@));
                let x = choose|x: Answer| #[trigger]
                    resolves(v, base, mid, p, DEFAULT_SYMLINK_COUNT as nat, d, x) && out
                        == crate::finalize::link_out(x);
                lemma_resolves_keeps_edges(v, base, mid, p, DEFAULT_SYMLINK_COUNT as nat, d, x);
            }
        }
    }
}

/// Planning to turn a directory into an object keeps the cache true, where no
/// directory has more than `n` entries and the cache has room for what as many
/// links may add.
pub proof fn law_planning_keeps_cache_true(
    a: FSMetaService,
    path: Seq<char>,
    now: u64,
    n: nat,
    b: FSMetaService,
    plan: PlanView,
)
    requires
        cache_true(a),
        has_room(a@.cache, one_resolution() * (n + 1)),
        forall|dir: u64, es: Seq<DentryRecord>| #[trigger]
            is_entries(b@.tables, dir, es) ==> es.len() <= n,
        b.rest.base == a.rest.base,
        b@.txns == a@.txns,
        plans_finalize(
            a@.tables,
            a@.cache,
            a.rest.base@,
            path,
            (When { now, locked: a@.busy() }),
            b@.tables,
            b@.cache,
            plan,
        ),
    ensures
        cache_true(b),
{
    let at = When { now, locked: a@.busy() };
    let parts = path_parts(path);
    let base = a.rest.base@;
    assert(one_resolution() * (n + 1) == one_resolution() * n + one_resolution())
        by (nonlinear_arith);
    if parts.len() > 0 && base.configured {
        let holder = crate::finalize::holder_path(parts);
        let (mid, x) = choose|mid: CacheView, x: DirAnswer| #[trigger]
            ensures_dir(a@.tables, a@.cache, base, holder, at, b@.tables, mid, x) && match x {
                DirAnswer::Dir(parent) => plans_at(
                    b@.tables,
                    mid,
                    base,
                    path,
                    parent,
                    parts.last(),
                    b@.cache,
                    plan,
                ),
                _ => b@.cache == mid && plan == PlanView::Stopped(x),
            };
        lemma_ensures_dir_true(a@.tables, a@.cache, base, holder, at, b@.tables, mid, x);
        if let DirAnswer::Dir(parent) = x {
            if b@.cache != mid {
                let dir = crate::finalize::dir_to_finalize(
                    b@.tables,
                    parent,
                    parts.last(),
                )->Ok_0->0;
                let kids = crate::outside::base_kids(base, b@.tables.inode(dir)->0)->Ok_0;
                let (es, g) = choose|es: Seq<DentryRecord>, g: Gathered|
                    is_entries(b@.tables, dir, es) && #[trigger] gathers(
                        b@.tables,
                        base,
                        mid,
                        kids,
                        path,
                        es,
                        b@.cache,
                        g,
                    ) && plan == crate::finalize::plan_of(
                        b@.tables,
                        path,
                        parent,
                        parts.last(),
                        dir,
                        g,
                    );
                assert(one_resolution() * es.len() <= one_resolution() * n) by (nonlinear_arith)
                    requires
                        es.len() <= n,
                ;
                lemma_gathers_true(b@.tables, base, mid, kids, path, es, b@.cache, g);
            }
        }
    }
    assert forall|k: Seq<char>| #[trigger] b@.txns.contains_key(k) implies fits(
        b@.tables,
        b@.txns[k].tables,
    ) by {
        assert(a@.txns.contains_key(k));
        assert(a@.busy());
    }
}

/// No entry leads to the inode, and it is not the root; so no path leads to it.
proof fn lemma_unreached(v: TablesView, id: u64, p: Path)
    requires
        id != v.root,
        forall|k: (u64, Seq<char>)| #[trigger]
            v.dentries.contains_key(k) ==> v.dentries[k].target != DentryTarget::IndexNodeId(id),
    ensures
        reach(v, p) != Some(id),
{
    if p.len() > 0 && reach(v, p) == Some(id) {
        let k = (reach(v, p.drop_last())->0, p.last());
        assert(v.dentries.contains_key(k));
    }
}

/// An inode whose only entry lies in a directory that no path leads to is not
/// reached either.
proof fn lemma_unreached_child(
    v: TablesView,
    dir: u64,
    name: Seq<char>,
    id: u64,
    p: Path,
)
    requires
        strict(v),
        dir != v.root,
        id != v.root,
        forall|k: (u64, Seq<char>)| #[trigger]
            v.dentries.contains_key(k) ==> v.dentries[k].target != DentryTarget::IndexNodeId(dir),
        v.dentries.contains_key((dir, name)),
        v.dentries[(dir, name)].target == DentryTarget::IndexNodeId(id),
    ensures
        reach(v, p) != Some(id),
{
    if p.len() > 0 && reach(v, p) == Some(id) {
        let k = (reach(v, p.drop_last())->0, p.last());
        assert(v.dentries.contains_key(k));
        lemma_unreached(v, dir, p.drop_last());
    }
}

/// Emptying a directory that no path leads to fits.
proof fn lemma_drop_children_fits(v: TablesView, dir: u64, es: Seq<DentryRecord>, rev: int)
    requires
        sound(v),
        dir != v.root,
        forall|k: (u64, Seq<char>)| #[trigger]
            v.dentries.contains_key(k) ==> v.dentries[k].target != DentryTarget::IndexNodeId(dir),
        forall|i: int| 0 <= i < es.len() ==> v.dentry(dir, (#[trigger] es[i]).name@) == Some(es[i]),
        forall|i: int, j: int| 0 <= i < j < es.len() ==> (#[trigger] es[i]).name@ != (
        #[trigger] es[j]).name@,
    ensures
        drop_children_after(v, dir, es, rev) matches Ok(w) ==> fits(v, w) && w.root == v.root,
    decreases es.len(),
{
    if es.len() == 0 {
        lemma_fits_same(v);
    } else {
        let init = es.drop_last();
        let last = es.last();
        assert forall|i: int, j: int| 0 <= i < j < init.len() implies (#[trigger] init[i]).name@
            != (#[trigger] init[j]).name@ by {
            assert(es[i].name@ != es[j].name@);
        }
        assert forall|i: int| 0 <= i < init.len() implies v.dentry(
            dir,
            (#[trigger] init[i]).name@,
        ) == Some(init[i]) by {
            assert(es[i] == init[i]);
        }
        lemma_drop_children_fits(v, dir, init, rev);
        if let Ok(w) = drop_children_after(v, dir, init, rev) {
            lemma_drop_children(v, dir, init, rev);
            let at = (dir, last.name@);
            assert(!in_entries(init, dir, at)) by {
                if crate::listing::has_name(init, last.name@) {
                    let k = choose|k: int|
                        0 <= k < init.len() && (#[trigger] init[k]).name@ == last.name@;
                    assert(es[k].name@ != es[es.len() - 1].name@);
                }
            }
            assert(v.dentry(dir, es[es.len() - 1].name@) == Some(es[es.len() - 1]));
            assert(w.dentries.contains_key(at));
            let next = (rev + es.len() - 1) as u64;
            match last.target {
                DentryTarget::IndexNodeId(id) => {
                    if let Ok(x) = remove_inode_after(w, id) {
                        assert forall|p: Path| #[trigger] reach(w, p) != Some(id) by {
                            lemma_unreached_child(w, dir, last.name@, id, p);
                        }
                        lemma_remove_fits(w, id);
                        lemma_fits_trans(v, w, x);
                        lemma_delete_fits(x, dir, last.name, next);
                        if let Ok(y) = delete_dentry_after(x, dir, last.name@, next) {
                            lemma_fits_trans(v, x, y);
                        }
                    }
                },
                _ => {
                    lemma_delete_fits(w, dir, last.name, next);
                    if let Ok(y) = delete_dentry_after(w, dir, last.name@, next) {
                        lemma_fits_trans(v, w, y);
                    }
                },
            }
        }
    }
}

/// An object that takes the place of a directory fits.
pub proof fn lemma_finish_fits(
    v: TablesView,
    plan: FinalizePlan,
    obj: ObjId,
    now: u64,
    x: TablesView,
)
    requires
        sound(v),
        finishes(v, plan, obj, now, Ok(Some(x))),
    ensures
        fits(v, x),
{
    let target = DentryTarget::ObjId(obj);
    let held = DentryTarget::IndexNodeId(plan.dir);
    let at = (plan.parent, plan.name@);
    lemma_replace_fits(v, plan.parent, plan.name, held, target, plan.parent_rev, now);
    let w = replace_target_after(
        v,
        plan.parent,
        plan.name@,
        held,
        target,
        plan.parent_rev,
        now,
    )->Ok_0;
    let es = choose|es: Seq<DentryRecord>| #[trigger]
        is_entries(w, plan.dir, es) && Ok::<Option<TablesView>, MetaError>(Some(x)) == match dropped_after(
            w,
            plan.dir,
            es,
            plan.dir_rev as int,
        ) {
            Err(e) => Err::<Option<TablesView>, MetaError>(e),
            Ok(x) => Ok::<Option<TablesView>, MetaError>(Some(x)),
        };
    assert(v.dentries.contains_key(at) && v.dentries[at].target == held);
    assert forall|k: (u64, Seq<char>)| #[trigger] w.dentries.contains_key(k) implies
        w.dentries[k].target != held by {
        assert(v.dentries.contains_key(k));
    }
    assert forall|i: int, j: int| 0 <= i < j < es.len() implies (#[trigger] es[i]).name@ != (
    #[trigger] es[j]).name@ by {
        crate::text::lemma_text_lt_irreflexive(es[i].name@);
    }
    lemma_drop_children_fits(w, plan.dir, es, plan.dir_rev as int);
    let y = drop_children_after(w, plan.dir, es, plan.dir_rev as int)->Ok_0;
    lemma_drop_children(w, plan.dir, es, plan.dir_rev as int);
    lemma_fits_trans(v, w, y);
    assert forall|p: Path| #[trigger] reach(y, p) != Some(plan.dir) by {
        lemma_unreached(y, plan.dir, p);
    }
    lemma_remove_fits(y, plan.dir);
    lemma_fits_trans(v, y, x);
}

/// Putting an object in the place of a directory keeps the cache true.
pub proof fn law_finishing_keeps_cache_true(
    a: FSMetaService,
    plan: FinalizePlan,
    obj: ObjId,
    now: u64,
    b: FSMetaService,
)
    requires
        cache_true(a),
        !a@.busy(),
        b.rest == a.rest,
        b@.txns == a@.txns,
        finish_committed(a.store, plan, obj, now, b.store),
    ensures
        cache_true(b),
{
    if may_finish(a@.tables, plan) != Ok::<bool, MetaError>(false) {
        let x = choose|x: TablesView| #[trigger]
            finishes(a.store.tables@, plan, obj, now, Ok(Some(x))) && b.store.tables@ == settled(x)
                && installs(a.store.cache@, x, b.store.cache@);
        lemma_finish_fits(a@.tables, plan, obj, now, x);
        lemma_publish_pair(a@.tables, a.rest.base@, a@.cache, x, b@.cache);
    }
}

/// An inode that a path resolves to is the one in the tables.
proof fn lemma_resolved_inode(
    v: TablesView,
    base: BaseStoreView,
    p: Path,
    n: nat,
    id: u64,
    node: NodeRecord,
)
    requires
        resolved(v, base, p, n) matches Answer::Found(resp) && resp.item
            == (FsMetaResolvePathItem::Inode { inode_id: id, inode: node }),
    ensures
        v.inode(id) == Some(node),
    decreases n,
{
    match plain_pass(v, base, p, n) {
        PassEnd::Done(_) => {
            if p.len() > 0 {
                lemma_walk_inode(v, base, p, 0, seq![v.root]);
            }
        },
        PassEnd::Again(q) => {
            if n > 0 {
                lemma_resolved_inode(v, base, q, (n - 1) as nat, id, node);
            }
        },
    }
}

proof fn lemma_walk_inode(v: TablesView, base: BaseStoreView, p: Path, i: int, ids: Seq<u64>)
    ensures
        walk(v, base, p, i, ids) matches WalkEnd::Inode { ids: found, inode } ==> v.inode(
            found.last(),
        ) == Some(inode),
    decreases p.len() - i,
{
    if 0 <= i < p.len() {
        if let Step::Target(DentryTarget::IndexNodeId(id)) = step(v, base, ids.last(), p[i]) {
            if i < p.len() - 1 {
                lemma_walk_inode(v, base, p, i + 1, ids.push(id));
            }
        }
    }
}

/// A path that leads through entries to an inode resolves to it.
proof fn lemma_followed_path_resolves(
    v: TablesView,
    base: BaseStoreView,
    p: Path,
    ids: Seq<u64>,
    n: nat,
)
    requires
        p.len() > 0,
        ids.len() == p.len() + 1,
        follows(v, ids, p),
        v.inode(ids.last()) is Some,
    ensures
        resolved(v, base, p, n) == Answer::Found(
            RespView {
                item: FsMetaResolvePathItem::Inode {
                    inode_id: ids.last(),
                    inode: v.inode(ids.last())->0,
                },
                inner: None,
            },
        ),
{
    let last = p.len() - 1;
    lemma_walk_skips(v, base, p, ids, 0, last);
    assert(ids.take(1) =~= seq![v.root]);
    assert(ids.take(last + 1).last() == ids[last]);
    assert(hop(v, ids[last], p[last]) == Some(ids[last + 1]));
    assert(ids.take(last + 1).push(ids[last + 1]) =~= ids);
}

/// A directory that was found or made is a directory, and is found again under
/// the same inode by whoever asks for it next; nothing changes then.
pub proof fn law_ensured_dir_is_found_again(
    a: FSMetaService,
    path: Seq<char>,
    now: u64,
    b: FSMetaService,
    id: u64,
    later: When,
    c: FSMetaService,
    answer: DirAnswer,
)
    requires
        cache_true(a),
        has_room(a@.cache, one_resolution()),
        is_dir_inode(a@.tables, a@.tables.root),
        b.rest == a.rest,
        b@.txns == a@.txns,
        ensures_dir(
            a@.tables,
            a@.cache,
            a.rest.base@,
            path,
            (When { now, locked: a@.busy() }),
            b@.tables,
            b@.cache,
            DirAnswer::Dir(id),
        ),
        ensures_dir(
            b@.tables,
            b@.cache,
            b.rest.base@,
            path,
            later,
            c@.tables,
            c@.cache,
            answer,
        ),
    ensures
        is_dir_inode(b@.tables, id),
        answer == DirAnswer::Dir(id),
        c@.tables == b@.tables,
        path_parts(path).len() == 0 ==> id == a@.tables.root,
{
    let v = a@.tables;
    let w = b@.tables;
    let base = a.rest.base@;
    let p = path_parts(path);
    let at = When { now, locked: a@.busy() };
    let n = DEFAULT_SYMLINK_COUNT as nat;
    law_ensured_dir_keeps_cache_true(a, path, now, b, DirAnswer::Dir(id));
    if p.len() > 0 {
        let (mid, found) = choose|mid: CacheView, found: Answer| #[trigger]
            resolves(v, base, a@.cache, p, n, mid, found) && match settled_by(found, path) {
                Some(end) => w == v && b@.cache == mid && DirAnswer::Dir(id) == end,
                None => exists|comps: Seq<String>|
                    view_all(comps) == p && #[trigger] makes_dirs(
                        v,
                        mid,
                        base,
                        comps,
                        0,
                        v.root,
                        at,
                        w,
                        b@.cache,
                        DirAnswer::Dir(id),
                    ),
            };
        law_cache_is_transparent(v, base, a@.cache, p, n, mid, found);
        let (mid2, found2) = choose|mid2: CacheView, found2: Answer| #[trigger]
            resolves(w, base, b@.cache, p, n, mid2, found2) && match settled_by(found2, path) {
                Some(end) => c@.tables == w && c@.cache == mid2 && answer == end,
                None => exists|comps: Seq<String>|
                    view_all(comps) == p && #[trigger] makes_dirs(
                        w,
                        mid2,
                        base,
                        comps,
                        0,
                        w.root,
                        later,
                        c@.tables,
                        c@.cache,
                        answer,
                    ),
            };
        law_cache_is_transparent(w, base, b@.cache, p, n, mid2, found2);
        if settled_by(found, path) is Some {
            let resp = found->Found_0;
            lemma_resolved_inode(v, base, p, n, id, resp.item->inode);
        } else {
            let comps = choose|comps: Seq<String>|
                view_all(comps) == p && #[trigger] makes_dirs(
                    v,
                    mid,
                    base,
                    comps,
                    0,
                    v.root,
                    at,
                    w,
                    b@.cache,
                    DirAnswer::Dir(id),
                );
            let root = seq![v.root];
            assert(p.take(0) =~= Seq::empty());
            law_made_dirs_are_there(v, mid, base, comps, 0, root, at, w, b@.cache, id);
            let full = choose|full: Seq<u64>| #[trigger]
                follows(w, full, view_all(comps)) && full.len() == comps.len() + 1 && full.last()
                    == id;
            lemma_followed_path_resolves(w, base, p, full, n);
        }
    }
}

} // verus!
