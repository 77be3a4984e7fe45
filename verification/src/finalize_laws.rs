//! What holds when a directory has been turned into an object.

use vstd::prelude::*;
use crate::errors::MetaError;
use crate::finalize::{
    drop_child_after, drop_children_after, dropped_after, finishes, gathered_with, gathers,
    gathers_child, takes_child, ChildOut, FinalizePlan, Gathered,
};
use crate::listing::{has_name, is_entries, shows};
use crate::outside::BaseStoreView;
use crate::path_cache::CacheView;
use crate::records::{DentryRecord, DentryTarget, ObjId};
use crate::tables::{replace_target_after, TablesView};
use crate::tree::{bound_to_target, law_replace_keeps_tree, tree_ok};

verus! {

/// The entry of `dir` under `name` is in `es`.
pub open spec fn in_entries(es: Seq<DentryRecord>, dir: u64, k: (u64, Seq<char>)) -> bool {
    k.0 == dir && has_name(es, k.1)
}

pub proof fn lemma_has_name_last(es: Seq<DentryRecord>, name: Seq<char>)
    requires
        es.len() > 0,
    ensures
        has_name(es, name) == (has_name(es.drop_last(), name) || es.last().name@ == name),
{
    let init = es.drop_last();
    if has_name(init, name) {
        let k = choose|k: int| 0 <= k < init.len() && (#[trigger] init[k]).name@ == name;
        assert(es[k].name@ == name);
    }
    if has_name(es, name) {
        let k = choose|k: int| 0 <= k < es.len() && (#[trigger] es[k]).name@ == name;
        if k < es.len() - 1 {
            assert(init[k].name@ == name);
        }
    }
    if es.last().name@ == name {
        assert(es[es.len() - 1].name@ == name);
    }
}

/// Dropping entries takes away these entries and no others, and no inode but
/// those that they point to.
pub proof fn lemma_drop_children(v: TablesView, dir: u64, es: Seq<DentryRecord>, rev: int)
    requires
        v.inv(),
        drop_children_after(v, dir, es, rev) is Ok,
    ensures
        ({
            let w = drop_children_after(v, dir, es, rev)->Ok_0;
            &&& w.inv()
            &&& w.root == v.root
            &&& forall|k: (u64, Seq<char>)| #[trigger]
                w.dentries.contains_key(k) <==> v.dentries.contains_key(k) && !in_entries(es, dir, k)
            &&& forall|k: (u64, Seq<char>)| #[trigger]
                w.dentries.contains_key(k) ==> w.dentries[k] == v.dentries[k]
            &&& forall|id: u64| #[trigger]
                v.nodes.contains_key(id) && !w.nodes.contains_key(id) ==> exists|i: int|
                    0 <= i < es.len() && (#[trigger] es[i]).target == DentryTarget::IndexNodeId(id)
            &&& forall|id: u64| #[trigger] w.nodes.contains_key(id) ==> v.nodes.contains_key(id)
        }),
    decreases es.len(),
{
    if es.len() > 0 {
        let init = es.drop_last();
        lemma_drop_children(v, dir, init, rev);
        let m = drop_children_after(v, dir, init, rev)->Ok_0;
        let w = drop_children_after(v, dir, es, rev)->Ok_0;
        assert forall|k: (u64, Seq<char>)| #[trigger] w.dentries.contains_key(k) <==>
            v.dentries.contains_key(k) && !in_entries(es, dir, k) by {
            lemma_has_name_last(es, k.1);
        }
        assert forall|id: u64| #[trigger] v.nodes.contains_key(id) && !w.nodes.contains_key(
            id,
        ) implies exists|i: int|
            0 <= i < es.len() && (#[trigger] es[i]).target == DentryTarget::IndexNodeId(id) by {
            if !m.nodes.contains_key(id) {
                let i = choose|i: int|
                    0 <= i < init.len() && (#[trigger] init[i]).target == DentryTarget::IndexNodeId(
                        id,
                    );
                assert(es[i].target == DentryTarget::IndexNodeId(id));
            } else {
                assert(es[es.len() - 1].target == DentryTarget::IndexNodeId(id));
            }
        }
    } else {
        assert forall|k: (u64, Seq<char>)| !in_entries(es, dir, k) by {}
    }
}

/// After finishing, the object stands in the place of the directory, the
/// directory and its entries are gone, and every other entry is as it was.
pub proof fn law_finished_dir_is_object(
    v: TablesView,
    plan: FinalizePlan,
    obj: ObjId,
    now: u64,
    w: TablesView,
    k: (u64, Seq<char>),
)
    requires
        v.inv(),
        plan.parent != plan.dir,
        finishes(v, plan, obj, now, Ok(Some(w))),
    ensures
        w.dentry(plan.parent, plan.name@) matches Some(d) && d.target == DentryTarget::ObjId(obj),
        !w.nodes.contains_key(plan.dir),
        k.0 == plan.dir ==> !w.dentries.contains_key(k),
        k.0 != plan.dir && k != (plan.parent, plan.name@) ==> w.dentry(k.0, k.1) == v.dentry(
            k.0,
            k.1,
        ),
{
    let x = replace_target_after(
        v,
        plan.parent,
        plan.name@,
        DentryTarget::IndexNodeId(plan.dir),
        DentryTarget::ObjId(obj),
        plan.parent_rev,
        now,
    )->Ok_0;
    let es = choose|es: Seq<DentryRecord>| #[trigger]
        is_entries(x, plan.dir, es) && Ok::<Option<TablesView>, MetaError>(Some(w))
            == match dropped_after(x, plan.dir, es, plan.dir_rev as int) {
            Err(e) => Err::<Option<TablesView>, MetaError>(e),
            Ok(x) => Ok::<Option<TablesView>, MetaError>(Some(x)),
        };
    lemma_drop_children(x, plan.dir, es, plan.dir_rev as int);
    let at = (plan.parent, plan.name@);
    assert(x.dentries.contains_key(at));
    assert(!in_entries(es, plan.dir, at));
    assert(w.dentries.contains_key(at));
    if k.0 == plan.dir && w.dentries.contains_key(k) {
        assert(x.dentry(plan.dir, k.1) is Some);
        assert(in_entries(es, plan.dir, k));
    }
    if k.0 != plan.dir {
        assert(!in_entries(es, plan.dir, k));
        assert(w.dentries.contains_key(k) <==> x.dentries.contains_key(k));
    }
}

proof fn lemma_drop_child_keeps_tree(v: TablesView, dir: u64, d: DentryRecord, rev: u64)
    requires
        v.inv(),
        tree_ok(v),
        v.dentry(dir, d.name@) == Some(d),
    ensures
        drop_child_after(v, dir, d, rev) matches Ok(w) ==> tree_ok(w) && w.inv(),
{
    if let Ok(w) = drop_child_after(v, dir, d, rev) {
        let at = (dir, d.name@);
        assert forall|k: (u64, Seq<char>)| #[trigger] w.dentries.contains_key(k) implies
            bound_to_target(w, w.dentries[k]) by {
            assert(v.dentries.contains_key(k));
            assert(bound_to_target(v, v.dentries[k]));
            assert(bound_to_target(v, v.dentries[at]));
        }
    }
}

pub proof fn lemma_drop_children_keep_tree(
    v: TablesView,
    dir: u64,
    es: Seq<DentryRecord>,
    n: int,
    rev: int,
)
    requires
        v.inv(),
        tree_ok(v),
        is_entries(v, dir, es),
        0 <= n <= es.len(),
        drop_children_after(v, dir, es.take(n), rev) is Ok,
    ensures
        ({
            let w = drop_children_after(v, dir, es.take(n), rev)->Ok_0;
            w.inv() && tree_ok(w)
        }),
    decreases n,
{
    if n > 0 {
        let part = es.take(n);
        let init = es.take(n - 1);
        assert(part.drop_last() =~= init);
        lemma_drop_children_keep_tree(v, dir, es, n - 1, rev);
        lemma_drop_children(v, dir, init, rev);
        let m = drop_children_after(v, dir, init, rev)->Ok_0;
        let d = es[n - 1];
        let at = (dir, d.name@);
        assert(part.last() == d);
        assert(v.dentry(dir, d.name@) == Some(d));
        assert(!in_entries(init, dir, at)) by {
            if has_name(init, d.name@) {
                let i = choose|i: int| 0 <= i < init.len() && (#[trigger] init[i]).name@ == d.name@;
                assert(crate::text::text_lt(es[i].name@, es[n - 1].name@));
                crate::text::lemma_text_lt_irreflexive(d.name@);
            }
        }
        assert(m.dentries.contains_key(at));
        lemma_drop_child_keeps_tree(m, dir, d, (rev + part.len() - 1) as u64);
    } else {
        assert(es.take(0) =~= Seq::empty());
    }
}

/// Turning a directory into an object keeps the tree strict.
pub proof fn law_finish_keeps_tree(
    v: TablesView,
    plan: FinalizePlan,
    obj: ObjId,
    now: u64,
    w: TablesView,
)
    requires
        v.inv(),
        tree_ok(v),
        finishes(v, plan, obj, now, Ok(Some(w))),
    ensures
        tree_ok(w),
        w.inv(),
{
    let x = replace_target_after(
        v,
        plan.parent,
        plan.name@,
        DentryTarget::IndexNodeId(plan.dir),
        DentryTarget::ObjId(obj),
        plan.parent_rev,
        now,
    )->Ok_0;
    let es = choose|es: Seq<DentryRecord>| #[trigger]
        is_entries(x, plan.dir, es) && Ok::<Option<TablesView>, MetaError>(Some(w))
            == match dropped_after(x, plan.dir, es, plan.dir_rev as int) {
            Err(e) => Err::<Option<TablesView>, MetaError>(e),
            Ok(x) => Ok::<Option<TablesView>, MetaError>(Some(x)),
        };
    law_replace_keeps_tree(
        v,
        plan.parent,
        plan.name@,
        DentryTarget::IndexNodeId(plan.dir),
        DentryTarget::ObjId(obj),
        plan.parent_rev,
        now,
    );
    let at = (plan.parent, plan.name@);
    assert(x.inv());
    assert(es.take(es.len() as int) =~= es);
    lemma_drop_children_keep_tree(x, plan.dir, es, es.len() as int, plan.dir_rev as int);
    lemma_drop_children(x, plan.dir, es, plan.dir_rev as int);
    let y = drop_children_after(x, plan.dir, es, plan.dir_rev as int)->Ok_0;
    assert forall|k: (u64, Seq<char>)| #[trigger] w.dentries.contains_key(k) implies
        bound_to_target(w, w.dentries[k]) by {
        assert(y.dentries.contains_key(k));
        assert(bound_to_target(y, y.dentries[k]));
        assert(x.dentries.contains_key(k));
        assert(v.dentries.contains_key(at));
        assert(bound_to_target(v, v.dentries[at]));
        if k != at {
            assert(v.dentries.contains_key(k));
            assert(bound_to_target(v, v.dentries[k]));
        }
    }
}

/// When nothing has to be finalized first, the children gathered for the object
/// are exactly the names that the directory shows, and a child that is an object
/// already is taken as it is.
pub proof fn law_plan_lists_what_is_shown(
    v: TablesView,
    base: BaseStoreView,
    c: CacheView,
    kids: Map<Seq<char>, ObjId>,
    dir: u64,
    path: Seq<char>,
    es: Seq<DentryRecord>,
    d: CacheView,
    out: Map<Seq<char>, ObjId>,
    name: Seq<char>,
)
    requires
        is_entries(v, dir, es),
        gathers(v, base, c, kids, path, es, d, Gathered::Going(out, Seq::empty())),
    ensures
        out.contains_key(name) <==> shows(v, kids, dir, name) is Some,
        shows(v, kids, dir, name) matches Some(DentryTarget::ObjId(o)) ==> out[name] == o,
{
    assert(es.take(es.len() as int) =~= es);
    lemma_gathered(v, base, c, kids, dir, path, es, es.len() as int, d, out, name);
    assert(has_name(es, name) <==> v.dentry(dir, name) is Some) by {
        if has_name(es, name) {
            let i = choose|i: int| 0 <= i < es.len() && (#[trigger] es[i]).name@ == name;
            assert(v.dentry(dir, es[i].name@) == Some(es[i]));
        }
    }
}

proof fn lemma_gathered(
    v: TablesView,
    base: BaseStoreView,
    c: CacheView,
    kids: Map<Seq<char>, ObjId>,
    dir: u64,
    path: Seq<char>,
    es: Seq<DentryRecord>,
    n: int,
    d: CacheView,
    out: Map<Seq<char>, ObjId>,
    name: Seq<char>,
)
    requires
        is_entries(v, dir, es),
        0 <= n <= es.len(),
        gathers(v, base, c, kids, path, es.take(n), d, Gathered::Going(out, Seq::empty())),
    ensures
        has_name(es.take(n), name) ==> v.dentry(dir, name) is Some && (out.contains_key(name)
            <==> !(v.dentry(dir, name)->0.target is Tombstone)) && (v.dentry(dir, name)->0.target
            matches DentryTarget::ObjId(o) ==> out[name] == o),
        !has_name(es.take(n), name) ==> (out.contains_key(name) <==> kids.contains_key(name)) && (
        kids.contains_key(name) ==> out[name] == kids[name]),
    decreases n,
{
    let part = es.take(n);
    if n > 0 {
        let init = es.take(n - 1);
        let last = es[n - 1];
        assert(part.drop_last() =~= init);
        assert(part.last() == last);
        let h = Gathered::Going(out, Seq::<Seq<char>>::empty());
        let (mid, g) = choose|mid: CacheView, g: Gathered|
            gathers(v, base, c, kids, path, part.drop_last(), mid, g) && #[trigger] gathers_child(
                v,
                base,
                mid,
                g,
                path,
                part.last(),
                d,
                h,
            );
        assert(g is Going);
        let o = choose|o: ChildOut| #[trigger]
            takes_child(v, base, mid, path, last, d, o) && h == gathered_with(
                g,
                path,
                last.name@,
                o,
            );
        let before = g->Going_0;
        let pend = g->Going_1;
        if o is Pending {
            assert(pend.push(crate::paths::child_path(path, last.name@)).len() > 0);
        }
        assert(pend == Seq::<Seq<char>>::empty());
        lemma_gathered(v, base, c, kids, dir, path, es, n - 1, mid, before, name);
        lemma_has_name_last(part, name);
        assert(v.dentry(dir, last.name@) == Some(last));
        assert(!has_name(init, last.name@)) by {
            if has_name(init, last.name@) {
                let i = choose|i: int|
                    0 <= i < init.len() && (#[trigger] init[i]).name@ == last.name@;
                assert(crate::text::text_lt(es[i].name@, es[n - 1].name@));
                crate::text::lemma_text_lt_irreflexive(last.name@);
            }
        }
    }
}

} // verus!
