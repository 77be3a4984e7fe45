//! What a plan for turning a directory into an object promises, and when the
//! directory can be replaced.

use vstd::prelude::*;
use crate::ensure::{ensures_dir, DirAnswer, When};
use crate::entry_laws::is_directory;
use crate::errors::MetaError;
use crate::finalize::{
    drop_children_after, dropped_after, finishes, gathered_with, gathers, gathers_child,
    holder_path, plan_is, plans_at, plans_finalize, takes_child, ChildOut, FinalizePlan,
    FinalizeStep, Gathered, PlanView,
};
use crate::finalize_laws::{
    in_entries, lemma_drop_children, lemma_drop_children_keep_tree, lemma_has_name_last,
};
use crate::listing::{has_name, is_entries};
use crate::outside::{base_kids, kids_of, BaseStoreView};
use crate::path_cache::CacheView;
use crate::paths::{child_path, path_parts};
use crate::records::{DentryRecord, DentryTarget, FsMetaResolvePathItem, NodeState, ObjId};
use crate::resolve::{resolves, Answer};
use crate::table::Key;
use crate::table_laws::counts_up;
use crate::tables::{replace_target_after, TablesView};
use crate::tree::{bound_to_target, law_replace_keeps_tree, tree_ok};

verus! {

/// An entry stands for this object as it is: it points to it, or to a file that
/// was finalized as it.
pub open spec fn ready_as(v: TablesView, target: DentryTarget, o: ObjId) -> bool {
    match target {
        DentryTarget::ObjId(x) => x == o,
        DentryTarget::IndexNodeId(id) => v.inode(id) matches Some(n) && (
        n.state matches NodeState::Finalized(f) && f.obj_id == o && o.obj_type@ != "cydir"@),
        _ => false,
    }
}

/// An entry points to an inode that is a directory or a file not finalized yet.
pub open spec fn unready(v: TablesView, target: DentryTarget) -> bool {
    target matches DentryTarget::IndexNodeId(id) && (v.inode(id) matches Some(n) && !(
    n.state matches NodeState::Finalized(f) && f.obj_id.obj_type@ != "cydir"@))
}

/// The link at `child` was followed, and leads to the object itself.
pub open spec fn link_leads_to(
    v: TablesView,
    base: BaseStoreView,
    child: Seq<char>,
    o: ObjId,
) -> bool {
    exists|c: CacheView, d: CacheView, a: Answer| #[trigger]
        resolves(v, base, c, path_parts(child), 40, d, a) && (a matches Answer::Found(x)
            && x.inner is None && x.item == FsMetaResolvePathItem::ObjId(o))
}

/// What an entry of the directory has come to, once it was looked at.
pub open spec fn is_accounted_for(
    v: TablesView,
    base: BaseStoreView,
    path: Seq<char>,
    name: Seq<char>,
    target: DentryTarget,
    out: Map<Seq<char>, ObjId>,
    pend: Seq<Seq<char>>,
) -> bool {
    match target {
        DentryTarget::Tombstone => !out.contains_key(name),
        DentryTarget::SymLink(_) => (out.contains_key(name) && link_leads_to(
            v,
            base,
            child_path(path, name),
            out[name],
        )) || pend.contains(child_path(path, name)),
        _ => (out.contains_key(name) && ready_as(v, target, out[name])) || (unready(v, target)
            && pend.contains(child_path(path, name))),
    }
}

/// The path is waited for because of an entry that needs it.
pub open spec fn is_waited_for(
    v: TablesView,
    dir: u64,
    path: Seq<char>,
    p: Seq<char>,
) -> bool {
    exists|name: Seq<char>|
        p == child_path(path, name) && (#[trigger] v.dentry(dir, name) matches Some(e) && (unready(
            v,
            e.target,
        ) || e.target is SymLink))
}

proof fn lemma_gathered_all(
    v: TablesView,
    base: BaseStoreView,
    c: CacheView,
    kids: Map<Seq<char>, ObjId>,
    dir: u64,
    path: Seq<char>,
    es: Seq<DentryRecord>,
    n: int,
    d: CacheView,
    out: Map<Seq<char>, ObjId>,
    pend: Seq<Seq<char>>,
    name: Seq<char>,
)
    requires
        is_entries(v, dir, es),
        0 <= n <= es.len(),
        gathers(v, base, c, kids, path, es.take(n), d, Gathered::Going(out, pend)),
    ensures
        has_name(es.take(n), name) ==> (v.dentry(dir, name) matches Some(e) && is_accounted_for(
            v,
            base,
            path,
            name,
            e.target,
            out,
            pend,
        )),
        !has_name(es.take(n), name) ==> (out.contains_key(name) <==> kids.contains_key(name)) && (
        kids.contains_key(name) ==> out[name] == kids[name]),
        forall|i: int|
            0 <= i < pend.len() ==> is_waited_for(v, dir, path, #[trigger] pend[i]),
    decreases n,
{
    let part = es.take(n);
    if n > 0 {
        let init = es.take(n - 1);
        let last = es[n - 1];
        assert(part.drop_last() =~= init);
        assert(part.last() == last);
        let h = Gathered::Going(out, pend);
        let (mid, g) = choose|mid: CacheView, g: Gathered|
            gathers(v, base, c, kids, path, part.drop_last(), mid, g) && #[trigger] gathers_child(
                v,
                base,
                mid,
                g,
                path,
                part.last(),
                d,
                h,
            );
        assert(g is Going);
        let o = choose|o: ChildOut| #[trigger]
            takes_child(v, base, mid, path, last, d, o) && h == gathered_with(
                g,
                path,
                last.name@,
                o,
            );
        let before = g->Going_0;
        let waited = g->Going_1;
        lemma_gathered_all(v, base, c, kids, dir, path, es, n - 1, mid, before, waited, name);
        lemma_has_name_last(part, name);
        assert(v.dentry(dir, last.name@) == Some(last));
        assert(!has_name(init, last.name@)) by {
            if has_name(init, last.name@) {
                let i = choose|i: int|
                    0 <= i < init.len() && (#[trigger] init[i]).name@ == last.name@;
                assert(crate::text::text_lt(es[i].name@, es[n - 1].name@));
                crate::text::lemma_text_lt_irreflexive(last.name@);
            }
        }
        let p = child_path(path, last.name@);
        if o is Pending {
            assert(pend == waited.push(p));
            assert(pend[waited.len() as int] == p);
            assert forall|q: Seq<char>| waited.contains(q) implies #[trigger] pend.contains(q) by {
                let i = waited.index_of(q);
                assert(pend[i] == q);
            }
            assert(is_waited_for(v, dir, path, p));
            assert forall|i: int| 0 <= i < pend.len() implies is_waited_for(
                v,
                dir,
                path,
                #[trigger] pend[i],
            ) by {
                if i < waited.len() {
                    assert(pend[i] == waited[i]);
                }
            }
        } else {
            assert(pend == waited);
        }
        if last.target is SymLink && o is Obj {
            assert(link_leads_to(v, base, p, out[last.name@]));
        }
    }
}

/// The planned directory, as it stands: an entry points to it, and both are at
/// the revisions that the plan notes.
pub open spec fn is_planned_from(
    v: TablesView,
    parent: u64,
    name: Seq<char>,
    dir: u64,
    parent_rev: u64,
    dir_rev: u64,
) -> bool {
    &&& v.inode(parent) matches Some(p) && is_directory(p.state)
    &&& v.dentries.contains_key((parent, name))
    &&& v.dentries[(parent, name)].target == DentryTarget::IndexNodeId(dir)
    &&& v.inode(dir) matches Some(n) && is_directory(n.state)
    &&& v.nodes[parent].rev == Some(parent_rev) || (v.nodes[parent].rev is None && parent_rev == 0)
    &&& v.nodes[dir].rev == Some(dir_rev) || (v.nodes[dir].rev is None && dir_rev == 0)
}

/// A plan to build an object holds every name that the directory shows and no
/// other: an entry under the object it stands for, a file that was finalized
/// under the object it was finalized as, a link under the object it leads to,
/// and a child of the base that no entry covers under the object it is.
pub proof fn law_plan_maps_names_to_objects(
    v: TablesView,
    c: CacheView,
    base: BaseStoreView,
    path: Seq<char>,
    parent: u64,
    name: Seq<char>,
    d: CacheView,
    plan: PlanView,
    child: Seq<char>,
)
    requires
        plans_at(v, c, base, path, parent, name, d, plan),
    ensures
        plan matches PlanView::Build { parent: p, name: n, dir, parent_rev, dir_rev, kids } ==> {
            &&& p == parent && n == name
            &&& is_planned_from(v, parent, name, dir, parent_rev, dir_rev)
            &&& match v.dentry(dir, child) {
                Some(e) => match e.target {
                    DentryTarget::Tombstone => !kids.contains_key(child),
                    DentryTarget::SymLink(_) => kids.contains_key(child) && link_leads_to(
                        v,
                        base,
                        child_path(path, child),
                        kids[child],
                    ),
                    DentryTarget::ObjId(o) => kids.contains_key(child) && kids[child] == o,
                    DentryTarget::IndexNodeId(id) => {
                        &&& kids.contains_key(child)
                        &&& v.inode(id) matches Some(n)
                        &&& n.state matches NodeState::Finalized(f)
                        &&& kids[child] == f.obj_id
                    },
                },
                None => base_kids(base, v.inode(dir)->0) matches Ok(under) && (kids.contains_key(
                    child,
                ) <==> under.contains_key(child)) && (under.contains_key(child) ==> kids[child]
                    == under[child]),
            }
        },
{
    if let PlanView::Build { parent: p, name: n, dir, parent_rev, dir_rev, kids } = plan {
        let under = base_kids(base, v.inode(dir)->0)->Ok_0;
        let (es, g) = choose|es: Seq<DentryRecord>, g: Gathered|
            is_entries(v, dir, es) && #[trigger] gathers(v, base, c, under, path, es, d, g) && plan
                == crate::finalize::plan_of(v, path, parent, name, dir, g);
        assert(es.take(es.len() as int) =~= es);
        let pend = g->Going_1;
        assert(pend.len() == 0);
        lemma_gathered_all(
            v,
            base,
            c,
            under,
            dir,
            path,
            es,
            es.len() as int,
            d,
            kids,
            pend,
            child,
        );
        if has_name(es, child) {
            let i = choose|i: int| 0 <= i < es.len() && (#[trigger] es[i]).name@ == child;
            assert(v.dentry(dir, es[i].name@) == Some(es[i]));
        }
    }
}

/// Where something has to be finalized first, the plan names the path of every
/// child that is a directory or a file not finalized yet, nothing but children,
/// and the directory itself last.
pub proof fn law_plan_waits_for_children(
    v: TablesView,
    c: CacheView,
    base: BaseStoreView,
    path: Seq<char>,
    parent: u64,
    name: Seq<char>,
    d: CacheView,
    queue: Seq<Seq<char>>,
    dir: u64,
    child: Seq<char>,
)
    requires
        plans_at(v, c, base, path, parent, name, d, PlanView::Queue(queue)),
        v.dentry(parent, name) matches Some(e) && e.target == DentryTarget::IndexNodeId(dir),
    ensures
        queue.len() > 1,
        queue.last() == path,
        v.dentry(dir, child) matches Some(e) && unready(v, e.target) ==> queue.contains(
            child_path(path, child),
        ),
        forall|i: int|
            0 <= i < queue.len() - 1 ==> is_waited_for(v, dir, path, #[trigger] queue[i]),
        v.dentry(dir, child) matches Some(e) ==> (e.target matches DentryTarget::IndexNodeId(id)
            ==> v.inode(id) is Some),
{
    let plan = PlanView::Queue(queue);
    let under = base_kids(base, v.inode(dir)->0)->Ok_0;
    let (es, g) = choose|es: Seq<DentryRecord>, g: Gathered|
        is_entries(v, dir, es) && #[trigger] gathers(v, base, c, under, path, es, d, g) && plan
            == crate::finalize::plan_of(v, path, parent, name, dir, g);
    assert(es.take(es.len() as int) =~= es);
    let out = g->Going_0;
    let pend = g->Going_1;
    assert(queue == pend.push(path));
    lemma_gathered_all(v, base, c, under, dir, path, es, es.len() as int, d, out, pend, child);
    assert forall|i: int| 0 <= i < queue.len() - 1 implies is_waited_for(
        v,
        dir,
        path,
        #[trigger] queue[i],
    ) by {
        assert(queue[i] == pend[i]);
    }
    if pend.contains(child_path(path, child)) {
        let i = pend.index_of(child_path(path, child));
        assert(queue[i] == child_path(path, child));
    }
}

proof fn lemma_gathering_goes_on(
    v: TablesView,
    base: BaseStoreView,
    c: CacheView,
    kids: Map<Seq<char>, ObjId>,
    dir: u64,
    path: Seq<char>,
    es: Seq<DentryRecord>,
    n: int,
    d: CacheView,
    g: Gathered,
)
    requires
        is_entries(v, dir, es),
        0 <= n <= es.len(),
        gathers(v, base, c, kids, path, es.take(n), d, g),
        forall|name: Seq<char>|
            (#[trigger] v.dentry(dir, name)) matches Some(e) ==> e.target is Tombstone || (
            exists|o: ObjId| ready_as(v, e.target, o)),
    ensures
        g matches Gathered::Going(_, pend) && pend.len() == 0,
        d == c,
    decreases n,
{
    let part = es.take(n);
    if n > 0 {
        let last = es[n - 1];
        assert(part.drop_last() =~= es.take(n - 1));
        assert(part.last() == last);
        let (mid, before) = choose|mid: CacheView, before: Gathered|
            gathers(v, base, c, kids, path, part.drop_last(), mid, before)
                && #[trigger] gathers_child(v, base, mid, before, path, part.last(), d, g);
        lemma_gathering_goes_on(v, base, c, kids, dir, path, es, n - 1, mid, before);
        assert(v.dentry(dir, last.name@) == Some(last));
        if !(last.target is Tombstone) {
            let o = choose|o: ObjId| ready_as(v, last.target, o);
        }
    }
}

/// A directory whose children are all objects, finalized files or hidden is
/// planned to be built at once; one that is an object already needs nothing.
pub proof fn law_ready_directory_is_built(
    v: TablesView,
    c: CacheView,
    base: BaseStoreView,
    path: Seq<char>,
    parent: u64,
    name: Seq<char>,
    d: CacheView,
    plan: PlanView,
    dir: u64,
)
    requires
        plans_at(v, c, base, path, parent, name, d, plan),
        v.inode(parent) matches Some(p) && is_directory(p.state),
        v.dentries.contains_key((parent, name)),
    ensures
        v.dentries[(parent, name)].target == DentryTarget::IndexNodeId(dir) && (
        v.inode(dir) matches Some(n) && is_directory(n.state) && base_kids(base, n) is Ok) && (
        forall|child: Seq<char>|
            (#[trigger] v.dentry(dir, child)) matches Some(e) ==> e.target is Tombstone || (
            exists|o: ObjId| ready_as(v, e.target, o))) ==> plan is Build && d == c,
        v.dentries[(parent, name)].target matches DentryTarget::ObjId(o) && o.obj_type@
            == "cydir"@ ==> plan is Done,
        v.dentries[(parent, name)].target is Tombstone || v.dentries[(parent, name)].target
            is SymLink || (v.dentries[(parent, name)].target matches DentryTarget::ObjId(o)
            && o.obj_type@ != "cydir"@) ==> plan is Stopped,
{
    if v.dentries[(parent, name)].target == DentryTarget::IndexNodeId(dir) && (
    v.inode(dir) matches Some(n) && is_directory(n.state) && base_kids(base, n) is Ok) && (forall|
        child: Seq<char>,
    |
        (#[trigger] v.dentry(dir, child)) matches Some(e) ==> e.target is Tombstone || (exists|
            o: ObjId,
        | ready_as(v, e.target, o))) {
        let under = base_kids(base, v.inode(dir)->0)->Ok_0;
        let (es, g) = choose|es: Seq<DentryRecord>, g: Gathered|
            is_entries(v, dir, es) && #[trigger] gathers(v, base, c, under, path, es, d, g) && plan
                == crate::finalize::plan_of(v, path, parent, name, dir, g);
        assert(es.take(es.len() as int) =~= es);
        lemma_gathering_goes_on(v, base, c, under, dir, path, es, es.len() as int, d, g);
    }
}

/// The children in the listing of a base are those it names; of a name that
/// comes more than once the last counts.
pub proof fn law_listing_is_read_by_name(list: Seq<(String, ObjId)>, name: Seq<char>, i: int)
    requires
        0 <= i < list.len(),
    ensures
        kids_of(list).contains_key(list[i].0@),
        list[i].0@ == name && (forall|j: int|
            i < j < list.len() ==> (#[trigger] list[j]).0@ != name) ==> kids_of(list)[name]
            == list[i].1,
        (forall|j: int| 0 <= j < list.len() ==> (#[trigger] list[j]).0@ != name) ==> !kids_of(
            list,
        ).contains_key(name),
    decreases list.len(),
{
    let init = list.drop_last();
    if i < list.len() - 1 {
        assert(init[i] == list[i]);
        law_listing_is_read_by_name(init, name, i);
        if list[i].0@ == name && (forall|j: int|
            i < j < list.len() ==> (#[trigger] list[j]).0@ != name) {
            assert(list[list.len() - 1].0@ != name);
            assert forall|j: int| i < j < init.len() implies (#[trigger] init[j]).0@ != name by {
                assert(init[j] == list[j]);
            }
        }
    }
    if forall|j: int| 0 <= j < list.len() ==> (#[trigger] list[j]).0@ != name {
        assert(list[list.len() - 1].0@ != name);
        if init.len() > 0 {
            assert forall|j: int| 0 <= j < init.len() implies (#[trigger] init[j]).0@ != name by {
                assert(init[j] == list[j]);
            }
            law_listing_is_read_by_name(init, name, 0);
        }
    }
}

proof fn lemma_drop_goes_through(
    x: TablesView,
    dir: u64,
    es: Seq<DentryRecord>,
    n: int,
    rev: int,
)
    requires
        x.inv(),
        tree_ok(x),
        is_entries(x, dir, es),
        0 <= n <= es.len(),
        x.nodes.contains_key(dir),
        x.rev(dir) == rev,
        0 <= rev,
        rev + es.len() <= i64::MAX,
        x.nodes[dir].ref_by is None,
        forall|name: Seq<char>|
            (#[trigger] x.dentry(dir, name)) matches Some(e) ==> e.target
                != DentryTarget::IndexNodeId(x.root),
    ensures
        drop_children_after(x, dir, es.take(n), rev) matches Ok(m) && {
            &&& m.nodes.contains_key(dir)
            &&& m.nodes[dir].ref_by is None
            &&& m.rev(dir) == rev + n
            &&& m.root == x.root
        },
    decreases n,
{
    if n > 0 {
        let part = es.take(n);
        let init = es.take(n - 1);
        assert(part.drop_last() =~= init);
        lemma_drop_goes_through(x, dir, es, n - 1, rev);
        lemma_drop_children(x, dir, init, rev);
        lemma_drop_children_keep_tree(x, dir, es, n - 1, rev);
        let m = drop_children_after(x, dir, init, rev)->Ok_0;
        let d = es[n - 1];
        let at = (dir, d.name@);
        assert(part.last() == d);
        assert(x.dentry(dir, d.name@) == Some(d));
        assert(!in_entries(init, dir, at)) by {
            if has_name(init, d.name@) {
                let i = choose|i: int| 0 <= i < init.len() && (#[trigger] init[i]).name@ == d.name@;
                assert(crate::text::text_lt(es[i].name@, es[n - 1].name@));
                crate::text::lemma_text_lt_irreflexive(d.name@);
            }
        }
        assert(m.dentries.contains_key(at));
        assert(bound_to_target(m, m.dentries[at]));
    }
}

/// A planned object takes the place of the directory if nothing has changed
/// since: the entry then points to the object.
pub proof fn law_planned_object_is_put_in_place(
    v: TablesView,
    plan: FinalizePlan,
    obj: ObjId,
    now: u64,
    out: Result<Option<TablesView>, MetaError>,
)
    requires
        v.inv(),
        tree_ok(v),
        finishes(v, plan, obj, now, out),
        plan.parent != plan.dir,
        plan.dir != v.root,
        is_planned_from(v, plan.parent, plan.name@, plan.dir, plan.parent_rev, plan.dir_rev),
        counts_up(v, plan.parent, plan.parent_rev),
        forall|es: Seq<DentryRecord>| #[trigger]
            is_entries(v, plan.dir, es) ==> plan.dir_rev + es.len() <= i64::MAX,
        forall|name: Seq<char>|
            (#[trigger] v.dentry(plan.dir, name)) matches Some(e) ==> e.target
                != DentryTarget::IndexNodeId(v.root),
    ensures
        out matches Ok(Some(w)) && (w.dentry(plan.parent, plan.name@) matches Some(d) && d.target
            == DentryTarget::ObjId(obj) && d.mtime == Some(now)),
{
    let target = DentryTarget::IndexNodeId(plan.dir);
    crate::table_laws::law_entry_is_redirected(
        v,
        plan.parent,
        plan.name@,
        DentryTarget::ObjId(obj),
        plan.parent_rev,
        now,
    );
    law_replace_keeps_tree(
        v,
        plan.parent,
        plan.name@,
        target,
        DentryTarget::ObjId(obj),
        plan.parent_rev,
        now,
    );
    let x = replace_target_after(
        v,
        plan.parent,
        plan.name@,
        target,
        DentryTarget::ObjId(obj),
        plan.parent_rev,
        now,
    )->Ok_0;
    let at = (plan.parent, plan.name@);
    assert(bound_to_target(v, v.dentries[at]));
    let es = choose|es: Seq<DentryRecord>| #[trigger]
        is_entries(x, plan.dir, es) && out == match dropped_after(
            x,
            plan.dir,
            es,
            plan.dir_rev as int,
        ) {
            Err(e) => Err::<Option<TablesView>, MetaError>(e),
            Ok(x) => Ok::<Option<TablesView>, MetaError>(Some(x)),
        };
    assert forall|name: Seq<char>| #[trigger] x.dentry(plan.dir, name) == v.dentry(
        plan.dir,
        name,
    ) by {}
    assert(is_entries(v, plan.dir, es)) by {
        assert forall|i: int| 0 <= i < es.len() implies v.dentry(
            plan.dir,
            (#[trigger] es[i]).name@,
        ) == Some(es[i]) by {
            assert(x.dentry(plan.dir, es[i].name@) == Some(es[i]));
        }
        assert forall|name: Seq<char>| #[trigger] v.dentry(plan.dir, name) is Some implies has_name(
            es,
            name,
        ) by {
            assert(x.dentry(plan.dir, name) is Some);
        }
    }
    assert(es.take(es.len() as int) =~= es);
    lemma_drop_goes_through(x, plan.dir, es, es.len() as int, plan.dir_rev as int);
    lemma_drop_children(x, plan.dir, es, plan.dir_rev as int);
    assert(!in_entries(es, plan.dir, at));
    let y = drop_children_after(x, plan.dir, es, plan.dir_rev as int)->Ok_0;
    assert(x.dentries.contains_key(at));
    assert(y.dentries.contains_key(at));
}

/// A plan that is out of date changes nothing: the entry points elsewhere, or a
/// revision has moved on.
pub proof fn law_stale_plan_is_refused(
    v: TablesView,
    plan: FinalizePlan,
    obj: ObjId,
    now: u64,
    out: Result<Option<TablesView>, MetaError>,
)
    requires
        finishes(v, plan, obj, now, out),
        !is_planned_from(v, plan.parent, plan.name@, plan.dir, plan.parent_rev, plan.dir_rev),
        v.inode(plan.parent) matches Some(p) ==> is_directory(p.state),
    ensures
        !(out matches Ok(Some(_))),
        out matches Ok(None) ==> (v.dentry(plan.parent, plan.name@) matches Some(d) && (
        d.target matches DentryTarget::ObjId(o) && o.obj_type@ == "cydir"@)),
{
}

/// What was planned is what the caller gets: the plan that is handed out names the
/// directory and its revisions, and has each finalized file under the object it
/// was finalized as.
pub proof fn law_plan_is_handed_out(
    v: TablesView,
    c: CacheView,
    base: BaseStoreView,
    path: Seq<char>,
    parent: u64,
    name: Seq<char>,
    d: CacheView,
    plan: PlanView,
    p: FinalizePlan,
    child: Seq<char>,
    id: u64,
)
    requires
        plans_at(v, c, base, path, parent, name, d, plan),
        plan_is(Ok(FinalizeStep::Build(p)), plan),
    ensures
        p.parent == parent,
        p.name@ == name,
        is_planned_from(v, p.parent, p.name@, p.dir, p.parent_rev, p.dir_rev),
        v.dentry(p.dir, child) matches Some(e) && e.target == DentryTarget::IndexNodeId(id) ==> (
        v.inode(id) matches Some(n) && (n.state matches NodeState::Finalized(f)
            && p.children@.contains_key(child) && p.children@[child] == f.obj_id)),
        v.dentry(p.dir, child) matches Some(e) && e.target is Tombstone
            ==> !p.children@.contains_key(child),
{
    law_plan_maps_names_to_objects(v, c, base, path, parent, name, d, plan, child);
}

proof fn lemma_dropped_inodes_go(x: TablesView, dir: u64, es: Seq<DentryRecord>, rev: int, i: int)
    requires
        x.inv(),
        drop_children_after(x, dir, es, rev) is Ok,
        0 <= i < es.len(),
    ensures
        es[i].target matches DentryTarget::IndexNodeId(id) ==> !drop_children_after(
            x,
            dir,
            es,
            rev,
        )->Ok_0.nodes.contains_key(id),
    decreases es.len(),
{
    let init = es.drop_last();
    if i < es.len() - 1 {
        assert(init[i] == es[i]);
        lemma_dropped_inodes_go(x, dir, init, rev, i);
    }
    lemma_drop_children(x, dir, init, rev);
}

/// With the directory go the inodes of its children, and no others.
pub proof fn law_children_go_with_their_directory(
    v: TablesView,
    plan: FinalizePlan,
    obj: ObjId,
    now: u64,
    w: TablesView,
    child: Seq<char>,
    id: u64,
)
    requires
        v.inv(),
        plan.parent != plan.dir,
        finishes(v, plan, obj, now, Ok(Some(w))),
    ensures
        v.dentry(plan.dir, child) matches Some(e) && e.target == DentryTarget::IndexNodeId(id)
            ==> !w.nodes.contains_key(id),
        id != plan.dir && v.nodes.contains_key(id) && (forall|name: Seq<char>|
            (#[trigger] v.dentry(plan.dir, name)) matches Some(e) ==> e.target
                != DentryTarget::IndexNodeId(id)) ==> w.nodes.contains_key(id),
        w.stats == v.stats,
        w.root == v.root,
{
    let target = DentryTarget::IndexNodeId(plan.dir);
    let x = replace_target_after(
        v,
        plan.parent,
        plan.name@,
        target,
        DentryTarget::ObjId(obj),
        plan.parent_rev,
        now,
    )->Ok_0;
    let es = choose|es: Seq<DentryRecord>| #[trigger]
        is_entries(x, plan.dir, es) && Ok::<Option<TablesView>, MetaError>(Some(w))
            == match dropped_after(x, plan.dir, es, plan.dir_rev as int) {
            Err(e) => Err::<Option<TablesView>, MetaError>(e),
            Ok(x) => Ok::<Option<TablesView>, MetaError>(Some(x)),
        };
    lemma_drop_children(x, plan.dir, es, plan.dir_rev as int);
    lemma_dropping_keeps_counts(x, plan.dir, es, plan.dir_rev as int);
    let y = drop_children_after(x, plan.dir, es, plan.dir_rev as int)->Ok_0;
    assert forall|name: Seq<char>| #[trigger] x.dentry(plan.dir, name) == v.dentry(
        plan.dir,
        name,
    ) by {}
    if x.dentry(plan.dir, child) is Some {
        assert(has_name(es, child));
        let i = choose|i: int| 0 <= i < es.len() && (#[trigger] es[i]).name@ == child;
        assert(x.dentry(plan.dir, es[i].name@) == Some(es[i]));
        lemma_dropped_inodes_go(x, plan.dir, es, plan.dir_rev as int, i);
    }
    if id != plan.dir && v.nodes.contains_key(id) && (forall|name: Seq<char>|
        (#[trigger] v.dentry(plan.dir, name)) matches Some(e) ==> e.target
            != DentryTarget::IndexNodeId(id)) {
        assert(x.nodes.contains_key(id));
        if !y.nodes.contains_key(id) {
            let i = choose|i: int|
                0 <= i < es.len() && (#[trigger] es[i]).target == DentryTarget::IndexNodeId(id);
            assert(x.dentry(plan.dir, es[i].name@) == Some(es[i]));
            assert(v.dentry(plan.dir, es[i].name@) == Some(es[i]));
        }
    }
}

proof fn lemma_dropping_keeps_counts(x: TablesView, dir: u64, es: Seq<DentryRecord>, rev: int)
    requires
        drop_children_after(x, dir, es, rev) is Ok,
    ensures
        drop_children_after(x, dir, es, rev)->Ok_0.stats == x.stats,
    decreases es.len(),
{
    if es.len() > 0 {
        lemma_dropping_keeps_counts(x, dir, es.drop_last(), rev);
    }
}

/// Planning asks for the children of the base where they are not known, and stops
/// where they cannot be had.
pub proof fn law_plan_needs_the_base(
    v: TablesView,
    c: CacheView,
    base: BaseStoreView,
    path: Seq<char>,
    parent: u64,
    name: Seq<char>,
    d: CacheView,
    plan: PlanView,
    dir: u64,
    o: ObjId,
)
    requires
        plans_at(v, c, base, path, parent, name, d, plan),
        v.inode(parent) matches Some(p) && is_directory(p.state),
        v.dentries.contains_key((parent, name)),
        v.dentries[(parent, name)].target == DentryTarget::IndexNodeId(dir),
        v.inode(dir) matches Some(n) && is_directory(n.state) && n.base_obj_id == Some(o),
    ensures
        o.obj_type@ == "cydir"@ && base.configured && !base.listings.contains_key(o.model())
            ==> plan == PlanView::AskChildren(o),
        o.obj_type@ != "cydir"@ || !base.configured ==> plan is Stopped,
        o.obj_type@ == "cydir"@ && base.configured && base.listings.contains_key(o.model()) && (
        base.listings[o.model()] is Failed) ==> plan is Stopped,
        d == c || plan is Build || plan is Queue || plan is Stopped,
{
}

/// The root is not turned into an object, and nothing is without a store.
pub proof fn law_root_is_not_finalized(
    v: TablesView,
    c: CacheView,
    base: BaseStoreView,
    path: Seq<char>,
    at: When,
    w: TablesView,
    d: CacheView,
    plan: PlanView,
)
    requires
        plans_finalize(v, c, base, path, at, w, d, plan),
    ensures
        path_parts(path).len() == 0 ==> w == v && plan == PlanView::Stopped(
            DirAnswer::Refused(MetaError::FinalizeRoot),
        ),
        path_parts(path).len() > 0 && !base.configured ==> w == v && plan == PlanView::Stopped(
            DirAnswer::Refused(MetaError::StoreNotConfigured),
        ),
{
}

/// The plan for a path is made for the last component of the path, in the
/// directory of the others: a plan to build names them.
pub proof fn law_plan_is_for_its_path(
    v: TablesView,
    c: CacheView,
    base: BaseStoreView,
    path: Seq<char>,
    at: When,
    w: TablesView,
    d: CacheView,
    plan: PlanView,
)
    requires
        plans_finalize(v, c, base, path, at, w, d, plan),
    ensures
        plan matches PlanView::Build { parent, name, dir, parent_rev, dir_rev, .. } ==> {
            &&& name == path_parts(path).last()
            &&& is_planned_from(w, parent, name, dir, parent_rev, dir_rev)
            &&& exists|mid: CacheView| #[trigger]
                ensures_dir(
                    v,
                    c,
                    base,
                    holder_path(path_parts(path)),
                    at,
                    w,
                    mid,
                    DirAnswer::Dir(parent),
                )
        },
{
    if let PlanView::Build { parent, name, dir, parent_rev, dir_rev, .. } = plan {
        let parts = path_parts(path);
        let (mid, a) = choose|mid: CacheView, a: DirAnswer| #[trigger]
            ensures_dir(v, c, base, holder_path(parts), at, w, mid, a) && match a {
                DirAnswer::Dir(parent) => plans_at(
                    w,
                    mid,
                    base,
                    path,
                    parent,
                    parts.last(),
                    d,
                    plan,
                ),
                _ => d == mid && plan == PlanView::Stopped(a),
            };
        let p = a->Dir_0;
        law_plan_maps_names_to_objects(
            w,
            mid,
            base,
            path,
            p,
            parts.last(),
            d,
            plan,
            Seq::empty(),
        );
    }
}

/// What cannot be finalized is refused for what it is: there is no such entry, it
/// was deleted, or it is a link, a file or an object that is no directory.
pub proof fn law_refused_plans_say_why(
    v: TablesView,
    c: CacheView,
    base: BaseStoreView,
    path: Seq<char>,
    parent: u64,
    name: Seq<char>,
    d: CacheView,
    plan: PlanView,
)
    requires
        plans_at(v, c, base, path, parent, name, d, plan),
        v.read(parent) is Ok,
    ensures
        ({
            let refused = |e: MetaError|
                d == c && plan == PlanView::Stopped(DirAnswer::Refused(e));
            let at = (parent, name);
            if !v.nodes.contains_key(parent) {
                refused(MetaError::ParentDirNotFound)
            } else if !is_directory(v.inode(parent)->0.state) {
                refused(MetaError::ParentNotDir)
            } else if !v.dentries.contains_key(at) {
                refused(MetaError::DirectoryNotFound)
            } else {
                match v.dentries[at].target {
                    DentryTarget::Tombstone => refused(MetaError::DirectoryNotFound),
                    DentryTarget::SymLink(_) => refused(MetaError::PathIsSymlink),
                    DentryTarget::ObjId(o) => if o.obj_type@ == "cydir"@ {
                        d == c && plan is Done
                    } else {
                        refused(MetaError::PathNotDir)
                    },
                    DentryTarget::IndexNodeId(id) => {
                        &&& !v.nodes.contains_key(id) ==> refused(MetaError::DirectoryInodeNotFound)
                        &&& (v.inode(id) matches Some(n) && !is_directory(n.state)) ==> refused(
                            MetaError::PathNotDir,
                        )
                    },
                }
            }
        }),
{
}

/// A plan that is out of date is refused for what has changed.
pub proof fn law_stale_plans_say_why(
    v: TablesView,
    plan: FinalizePlan,
    obj: ObjId,
    now: u64,
    out: Result<Option<TablesView>, MetaError>,
)
    requires
        finishes(v, plan, obj, now, out),
        v.read(plan.parent) is Ok,
        v.read(plan.dir) is Ok,
    ensures
        ({
            let refused = |e: MetaError| out == Err::<Option<TablesView>, MetaError>(e);
            let at = (plan.parent, plan.name@);
            let is_at = |k: u64, rev: u64|
                v.nodes[k].rev == Some(rev) || (v.nodes[k].rev is None && rev == 0);
            if !v.nodes.contains_key(plan.parent) {
                refused(MetaError::ParentGoneDuringFinalize)
            } else if !is_at(plan.parent, plan.parent_rev) {
                refused(MetaError::ParentRevChanged)
            } else if !v.dentries.contains_key(at) {
                refused(MetaError::DentryGoneDuringFinalize)
            } else {
                match v.dentries[at].target {
                    DentryTarget::Tombstone | DentryTarget::SymLink(_) => refused(
                        MetaError::TargetChangedDuringFinalize,
                    ),
                    DentryTarget::ObjId(o) => if o.obj_type@ == "cydir"@ {
                        out == Ok::<Option<TablesView>, MetaError>(None)
                    } else {
                        refused(MetaError::PathNotDir)
                    },
                    DentryTarget::IndexNodeId(id) => if id != plan.dir {
                        refused(MetaError::TargetChangedDuringFinalize)
                    } else if !v.nodes.contains_key(id) {
                        refused(MetaError::DirGoneDuringFinalize)
                    } else if !is_directory(v.inode(id)->0.state) {
                        refused(MetaError::PathNotDir)
                    } else {
                        !is_at(id, plan.dir_rev) ==> refused(MetaError::DirRevChanged)
                    },
                }
            }
        }),
{
}

} // verus!
