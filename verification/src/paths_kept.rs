//! What changes of the tables mean for paths: which entries they change, and
//! that every entry they change is on record.

use vstd::prelude::*;
use crate::coherence_laws::{
    base_under, bases_kept, lemma_reach_kept, law_entry_requests_change_one_entry, no_entry_changed,
    only_entry_changed, reach, root_free, shown_base, strict,
};
use crate::ops_laws::law_new_inode_is_new;
use crate::path_cache::Path;
use crate::records::{DentryTarget, NodeRecord};
use crate::tables::{
    alloc_inode_after, create_dentry_after, delete_dentry_after, law_record_row_round_trip,
    remove_inode_after, replace_target_after, NodeRow, TablesView,
};

verus! {

/// From `a` to `w` by the change of one entry and others that no path depends on.
pub open spec fn edge_step(
    a: TablesView,
    edge: (u64, Seq<char>),
    b: TablesView,
    w: TablesView,
) -> bool {
    only_entry_changed(a, b, edge.0, edge.1) && no_entry_changed(b, w)
}

/// `w` came from `v` by changes of single entries, those in `edges` one after
/// another, and by changes that no path depends on.
pub open spec fn changed_along(v: TablesView, edges: Seq<(u64, Seq<char>)>, w: TablesView) -> bool
    decreases edges.len(),
{
    if edges.len() == 0 {
        no_entry_changed(v, w)
    } else {
        exists|a: TablesView, b: TablesView|
            changed_along(v, edges.drop_last(), a) && #[trigger] edge_step(a, edges.last(), b, w)
    }
}

/// `w` came from `v` by changes of entries that `w` has on record.
pub open spec fn on_record(v: TablesView, w: TablesView) -> bool {
    &&& v.touched.len() <= w.touched.len()
    &&& w.touched.take(v.touched.len() as int) == v.touched
    &&& changed_along(v, w.touched.skip(v.touched.len() as int), w)
}

/// Tables in order, whose entries form a strict tree.
pub open spec fn sound(v: TablesView) -> bool {
    v.inv() && v.nodes.dom().finite() && strict(v)
}

/// `w` came from `v` by changes of entries on record, and is sound.
pub open spec fn fits(v: TablesView, w: TablesView) -> bool {
    on_record(v, w) && sound(w)
}

proof fn lemma_kept_trans(a: TablesView, b: TablesView, c: TablesView)
    requires
        no_entry_changed(a, b),
        no_entry_changed(b, c),
    ensures
        no_entry_changed(a, c),
{
    assert forall|p: Path| #[trigger] shown_base(a, p) is Some implies base_under(
        c,
        reach(a, p)->0,
    ) == shown_base(a, p) by {
        lemma_reach_kept(a, b, p);
        assert(shown_base(b, p) is Some);
    }
    assert forall|d: u64, n: Seq<char>| #[trigger] c.dentry(d, n) == a.dentry(d, n) by {
        assert(b.dentry(d, n) == a.dentry(d, n));
    }
}

proof fn lemma_along_then_kept(
    v: TablesView,
    edges: Seq<(u64, Seq<char>)>,
    w: TablesView,
    x: TablesView,
)
    requires
        changed_along(v, edges, w),
        no_entry_changed(w, x),
    ensures
        changed_along(v, edges, x),
{
    if edges.len() == 0 {
        lemma_kept_trans(v, w, x);
    } else {
        let (a, b) = choose|a: TablesView, b: TablesView|
            changed_along(v, edges.drop_last(), a) && #[trigger] edge_step(a, edges.last(), b, w);
        lemma_kept_trans(b, w, x);
        assert(edge_step(a, edges.last(), b, x));
    }
}

proof fn lemma_along_concat(
    v: TablesView,
    first: Seq<(u64, Seq<char>)>,
    w: TablesView,
    second: Seq<(u64, Seq<char>)>,
    x: TablesView,
)
    requires
        changed_along(v, first, w),
        changed_along(w, second, x),
    ensures
        changed_along(v, first + second, x),
    decreases second.len(),
{
    if second.len() == 0 {
        lemma_along_then_kept(v, first, w, x);
        assert(first + second =~= first);
    } else {
        let (a, b) = choose|a: TablesView, b: TablesView|
            changed_along(w, second.drop_last(), a) && #[trigger] edge_step(
                a,
                second.last(),
                b,
                x,
            );
        lemma_along_concat(v, first, w, second.drop_last(), a);
        let all = first + second;
        assert(all.drop_last() =~= first + second.drop_last());
        assert(all.last() == second.last());
        assert(edge_step(a, all.last(), b, x));
    }
}

/// What fits one after another fits as a whole.
pub proof fn lemma_fits_trans(a: TablesView, b: TablesView, c: TablesView)
    requires
        fits(a, b),
        fits(b, c),
    ensures
        fits(a, c),
{
    let n = a.touched.len() as int;
    let m = b.touched.len() as int;
    lemma_along_concat(a, b.touched.skip(n), b, c.touched.skip(m), c);
    assert(b.touched =~= c.touched.take(m));
    assert(b.touched.skip(n) + c.touched.skip(m) =~= c.touched.skip(n));
    assert(c.touched.take(n) =~= a.touched) by {
        assert(b.touched.take(n) =~= c.touched.take(n));
    }
}

/// A change that no path depends on fits.
pub proof fn lemma_fits_kept(v: TablesView, w: TablesView)
    requires
        sound(v),
        w.inv(),
        w.nodes.dom().finite(),
        w.root == v.root,
        w.dentries == v.dentries,
        w.touched == v.touched,
        bases_kept(v, w),
    ensures
        fits(v, w),
        no_entry_changed(v, w),
{
    assert(w.touched.skip(v.touched.len() as int) =~= Seq::empty());
    assert(w.touched.take(v.touched.len() as int) =~= v.touched);
}

pub proof fn lemma_fits_same(v: TablesView)
    requires
        sound(v),
    ensures
        fits(v, v),
{
    lemma_fits_kept(v, v);
}

/// A change of one entry that is put on record fits.
proof fn lemma_fits_entry(v: TablesView, w: TablesView, parent: u64, name: Seq<char>)
    requires
        sound(w),
        only_entry_changed(v, w, parent, name),
        w.touched == v.touched.push((parent, name)),
    ensures
        fits(v, w),
{
    let n = v.touched.len() as int;
    let edges = w.touched.skip(n);
    assert(edges =~= seq![(parent, name)]);
    assert(w.touched.take(n) =~= v.touched);
    assert(edges.drop_last() =~= Seq::empty());
    assert(no_entry_changed(v, v));
    assert(changed_along(v, edges.drop_last(), v));
    assert(edge_step(v, edges.last(), w, w));
}

/// A row that is changed without its directory losing its base fits.
pub proof fn lemma_fits_row(v: TablesView, row: NodeRow)
    requires
        sound(v),
        v.with_row(row).inv(),
        base_under(v, row.inode_id) is Some ==> base_under(v.with_row(row), row.inode_id)
            == base_under(v, row.inode_id),
    ensures
        fits(v, v.with_row(row)),
{
    let w = v.with_row(row);
    assert forall|p: Path| #[trigger] shown_base(v, p) is Some implies base_under(
        w,
        reach(v, p)->0,
    ) == shown_base(v, p) by {
        let id = reach(v, p)->0;
        if id != row.inode_id {
            assert(w.inode(id) == v.inode(id));
        }
    }
    lemma_fits_kept(v, w);
}

/// A new entry fits, unless it leads back to the root.
pub proof fn lemma_create_fits(
    v: TablesView,
    parent: u64,
    name: String,
    target: DentryTarget,
    rev: u64,
    now: u64,
)
    requires
        sound(v),
        target != DentryTarget::IndexNodeId(v.root),
    ensures
        create_dentry_after(v, parent, name, target, rev, now) matches Ok(w) ==> fits(v, w)
            && w.root == v.root,
{
    if let Ok(w) = create_dentry_after(v, parent, name, target, rev, now) {
        law_entry_requests_change_one_entry(v, parent, name, target, target, rev, now);
        let at = (parent, name@);
        assert forall|k: (u64, Seq<char>), l: (u64, Seq<char>)|
            #![trigger w.dentries.contains_key(k), w.dentries.contains_key(l)]
            w.dentries.contains_key(k) && w.dentries.contains_key(l)
                && w.dentries[k].target is IndexNodeId && w.dentries[k].target
                == w.dentries[l].target implies k == l by {
            if k != at {
                assert(v.dentries.contains_key(k));
            }
            if l != at {
                assert(v.dentries.contains_key(l));
            }
        }
        assert(root_free(w)) by {
            assert forall|k: (u64, Seq<char>)| #[trigger]
                w.dentries.contains_key(k) implies w.dentries[k].target
                != DentryTarget::IndexNodeId(w.root) by {
                if k != at {
                    assert(v.dentries.contains_key(k));
                }
            }
        }
        lemma_fits_entry(v, w, parent, name@);
    }
}

/// Taking an entry away fits.
pub proof fn lemma_delete_fits(v: TablesView, parent: u64, name: String, rev: u64)
    requires
        sound(v),
    ensures
        delete_dentry_after(v, parent, name@, rev) matches Ok(w) ==> fits(v, w) && w.root == v.root,
{
    if let Ok(w) = delete_dentry_after(v, parent, name@, rev) {
        if v.dentries.contains_key((parent, name@)) {
            law_entry_requests_change_one_entry(
                v,
                parent,
                name,
                DentryTarget::Tombstone,
                DentryTarget::Tombstone,
                rev,
                0,
            );
            assert forall|k: (u64, Seq<char>)| #[trigger] w.dentries.contains_key(k) implies
                v.dentries.contains_key(k) && w.dentries[k] == v.dentries[k] by {}
            lemma_fits_entry(v, w, parent, name@);
        } else {
            lemma_fits_same(v);
        }
    }
}

/// Pointing an entry elsewhere fits, unless it then leads back to the root.
pub proof fn lemma_replace_fits(
    v: TablesView,
    parent: u64,
    name: String,
    old_target: DentryTarget,
    target: DentryTarget,
    rev: u64,
    now: u64,
)
    requires
        sound(v),
        target != DentryTarget::IndexNodeId(v.root),
    ensures
        replace_target_after(v, parent, name@, old_target, target, rev, now) matches Ok(w)
            ==> fits(v, w) && w.root == v.root,
{
    if let Ok(w) = replace_target_after(v, parent, name@, old_target, target, rev, now) {
        let at = (parent, name@);
        if crate::records::same_target(v.dentries[at].target, target) {
            lemma_fits_same(v);
        } else {
            law_entry_requests_change_one_entry(v, parent, name, old_target, target, rev, now);
            assert forall|k: (u64, Seq<char>), l: (u64, Seq<char>)|
                #![trigger w.dentries.contains_key(k), w.dentries.contains_key(l)]
                w.dentries.contains_key(k) && w.dentries.contains_key(l)
                    && w.dentries[k].target is IndexNodeId && w.dentries[k].target
                    == w.dentries[l].target implies k == l by {
                assert(v.dentries.contains_key(k) && v.dentries.contains_key(l));
            }
            assert forall|k: (u64, Seq<char>)| #[trigger] w.dentries.contains_key(k) implies
                w.dentries[k].target != DentryTarget::IndexNodeId(w.root) by {
                assert(v.dentries.contains_key(k));
            }
            lemma_fits_entry(v, w, parent, name@);
        }
    }
}

/// A new inode fits, and is not the root.
pub proof fn lemma_alloc_fits(v: TablesView, node: NodeRecord)
    requires
        sound(v),
    ensures
        alloc_inode_after(v, node) matches Ok((w, id)) ==> fits(v, w) && w.root == v.root && id
            != v.root && !v.nodes.contains_key(id),
{
    if let Ok((w, id)) = alloc_inode_after(v, node) {
        law_new_inode_is_new(v, node, w, id);
        law_record_row_round_trip(node, id);
        lemma_fits_row(v, crate::tables::record_row(node, id));
    }
}

/// Dropping an inode fits where no path leads to it, or nothing lies under it.
pub proof fn lemma_remove_fits(v: TablesView, id: u64)
    requires
        sound(v),
        base_under(v, id) is None || forall|p: Path| #[trigger] reach(v, p) != Some(id),
    ensures
        remove_inode_after(v, id) matches Ok(w) ==> fits(v, w) && w.root == v.root,
{
    if let Ok(w) = remove_inode_after(v, id) {
        assert forall|p: Path| #[trigger] shown_base(v, p) is Some implies base_under(
            w,
            reach(v, p)->0,
        ) == shown_base(v, p) by {
            let at = reach(v, p)->0;
            assert(at != id);
            assert(w.inode(at) == v.inode(at));
        }
        lemma_fits_kept(v, w);
    }
}

} // verus!
