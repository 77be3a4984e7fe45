//! What the requests on single rows promise: when they succeed, what is there
//! afterwards, and what stays as it was.

use vstd::prelude::*;
use crate::errors::MetaError;
use crate::handlers::{stat_of, zero_dropped};
use crate::records::{
    law_state_columns_round_trip, same_target, state_cols, DentryRecord, DentryTarget, NodeRecord,
    NodeState, ObjId, ObjStat,
};
use crate::stats::{idle_since, is_idle_list, stat_bump_after};
use crate::table::Key;
use crate::tables::{
    alloc_inode_after, bump_dir_rev_after, create_dentry_after, delete_dentry_after,
    law_record_row_round_trip, record_row, remove_inode_after, replace_target_after, root_tables,
    update_inode_state_after, NodeRow, TablesView,
};

verus! {

/// Every inode but `a` and `b` is as it was.
pub open spec fn other_rows_kept(v: TablesView, w: TablesView, a: u64, b: u64) -> bool {
    forall|k: u64|
        k != a && k != b ==> (#[trigger] w.nodes.contains_key(k) <==> v.nodes.contains_key(k)) && (
        v.nodes.contains_key(k) ==> w.nodes[k] == v.nodes[k])
}

/// Every entry but the one at `at` is as it was.
pub open spec fn other_entries_kept(v: TablesView, w: TablesView, at: (u64, Seq<char>)) -> bool {
    forall|k: (u64, Seq<char>)|
        k != at ==> (#[trigger] w.dentries.contains_key(k) <==> v.dentries.contains_key(k)) && (
        v.dentries.contains_key(k) ==> w.dentries[k] == v.dentries[k])
}

/// The directory is there, at this revision, and the revision can be counted up.
pub open spec fn counts_up(v: TablesView, dir: u64, rev: u64) -> bool {
    &&& v.nodes.contains_key(dir)
    &&& v.nodes[dir].rev == Some(rev) || (v.nodes[dir].rev is None && rev == 0)
    &&& rev != 0x7fff_ffff_ffff_ffff
    &&& rev != 0xffff_ffff_ffff_ffff
}

/// No entry but the one at `at` points to the inode.
pub open spec fn unclaimed(v: TablesView, id: u64, at: (u64, Seq<char>)) -> bool {
    forall|k: (u64, Seq<char>)| #[trigger]
        v.dentries.contains_key(k) && v.dentries[k].target == DentryTarget::IndexNodeId(id) ==> k
            == at
}

/// The target can be given to the entry with the id `d` at `at`: an inode has to
/// be there and to be free of every other entry.
pub open spec fn can_be_target(
    v: TablesView,
    target: DentryTarget,
    at: (u64, Seq<char>),
    d: u64,
) -> bool {
    target matches DentryTarget::IndexNodeId(id) ==> {
        &&& v.nodes.contains_key(id)
        &&& v.nodes[id].ref_by is None || v.nodes[id].ref_by == Some(d)
        &&& unclaimed(v, id, at)
    }
}

/// The inode of a target, if it has one.
pub open spec fn inode_of(target: DentryTarget) -> Option<u64> {
    match target {
        DentryTarget::IndexNodeId(id) => Some(id),
        _ => None,
    }
}

/// The row of a directory one of whose entries has changed: only the revision is
/// another, by one, and what the row says of its own entry where that is concerned.
pub open spec fn counted_up(v: TablesView, w: TablesView, dir: u64, rev: u64) -> bool {
    &&& w.nodes.contains_key(dir)
    &&& w.nodes[dir].rev == Some((rev + 1) as u64)
    &&& w.nodes[dir] == (NodeRow {
        rev: w.nodes[dir].rev,
        ref_by: w.nodes[dir].ref_by,
        ..v.nodes[dir]
    })
}

/// An entry can be made in a directory that is at the revision the caller knows,
/// under a name that has none, for a target that is free.  It is then there, its
/// target knows it, the revision is up by one, and nothing else has changed.
pub proof fn law_entry_is_made(
    v: TablesView,
    parent: u64,
    name: String,
    target: DentryTarget,
    rev: u64,
    now: u64,
)
    requires
        v.inv(),
        counts_up(v, parent, rev),
        !v.dentries.contains_key((parent, name@)),
        v.next_dentry < i64::MAX,
        can_be_target(v, target, (parent, name@), v.next_dentry),
    ensures
        create_dentry_after(v, parent, name, target, rev, now) matches Ok(w) && {
            let at = (parent, name@);
            let id = v.next_dentry;
            &&& w.dentries == v.dentries.insert(
                at,
                DentryRecord { id, parent, name, target, mtime: Some(now) },
            )
            &&& counted_up(v, w, parent, rev)
            &&& inode_of(target) matches Some(n) ==> w.nodes[n].ref_by == Some(id)
                && other_rows_kept(v, w, parent, n) && (n != parent ==> w.nodes[n] == (NodeRow {
                ref_by: Some(id),
                ..v.nodes[n]
            }))
            &&& inode_of(target) is None ==> other_rows_kept(v, w, parent, parent)
            &&& inode_of(target) != Some(parent) ==> w.nodes[parent].ref_by
                == v.nodes[parent].ref_by
            &&& w.stats == v.stats && w.root == v.root && w.next_dentry == v.next_dentry + 1
            &&& w.touched == v.touched.push(at)
        },
{
    if let DentryTarget::IndexNodeId(id) = target {
        assert(!v.targeted(id, (parent, name@)));
    }
}

/// A name that has an entry gets no second one, and neither does an inode.
pub proof fn law_entry_is_made_once(
    v: TablesView,
    parent: u64,
    name: String,
    target: DentryTarget,
    rev: u64,
    now: u64,
    elsewhere: (u64, Seq<char>),
)
    requires
        v.inv(),
        counts_up(v, parent, rev),
    ensures
        v.dentries.contains_key((parent, name@)) ==> create_dentry_after(
            v,
            parent,
            name,
            target,
            rev,
            now,
        ) == Err::<TablesView, MetaError>(MetaError::DentryExists),
        elsewhere != (parent, name@) && v.dentries.contains_key(elsewhere)
            && v.dentries[elsewhere].target == target && target is IndexNodeId
            ==> create_dentry_after(v, parent, name, target, rev, now) is Err,
        target matches DentryTarget::IndexNodeId(id) && !v.nodes.contains_key(id)
            ==> create_dentry_after(v, parent, name, target, rev, now) is Err,
        target matches DentryTarget::IndexNodeId(id) && (v.nodes[id].ref_by matches Some(holder)
            && holder != v.next_dentry) ==> create_dentry_after(v, parent, name, target, rev, now)
            is Err,
{
    if let DentryTarget::IndexNodeId(id) = target {
        if elsewhere != (parent, name@) && v.dentries.contains_key(elsewhere)
            && v.dentries[elsewhere].target == target {
            assert(v.targeted(id, (parent, name@)));
        }
    }
}

/// An entry can be taken away by a caller that knows the revision.  The inode it
/// pointed to is then free again, and stays.
pub proof fn law_entry_is_taken_away(v: TablesView, parent: u64, name: Seq<char>, rev: u64)
    requires
        v.inv(),
        counts_up(v, parent, rev),
    ensures
        delete_dentry_after(v, parent, name, rev) matches Ok(w) && {
            let at = (parent, name);
            if !v.dentries.contains_key(at) {
                w == v
            } else {
                let d = v.dentries[at];
                &&& w.dentries == v.dentries.remove(at)
                &&& counted_up(v, w, parent, rev)
                &&& inode_of(d.target) matches Some(n) ==> other_rows_kept(v, w, parent, n) && (
                v.nodes.contains_key(n) <==> w.nodes.contains_key(n)) && (v.nodes.contains_key(n)
                    && v.nodes[n].ref_by == Some(d.id) ==> w.nodes[n].ref_by is None) && (n
                    != parent && v.nodes.contains_key(n) ==> w.nodes[n] == (NodeRow {
                    ref_by: w.nodes[n].ref_by,
                    ..v.nodes[n]
                }))
                &&& inode_of(d.target) is None ==> other_rows_kept(v, w, parent, parent)
                &&& w.stats == v.stats && w.root == v.root && w.next_dentry == v.next_dentry
                &&& w.touched == v.touched.push(at)
            }
        },
{
}

/// An entry can be pointed elsewhere by a caller that knows the revision and
/// where it points: it keeps its id and gets the new target, the old inode is
/// free, the new one knows the entry, and the revision is up by one.
pub proof fn law_entry_is_redirected(
    v: TablesView,
    parent: u64,
    name: Seq<char>,
    new_target: DentryTarget,
    rev: u64,
    now: u64,
)
    requires
        v.inv(),
        counts_up(v, parent, rev),
        v.dentries.contains_key((parent, name)),
        can_be_target(v, new_target, (parent, name), v.dentries[(parent, name)].id),
        !crate::records::same_target(v.dentries[(parent, name)].target, new_target),
    ensures
        replace_target_after(
            v,
            parent,
            name,
            v.dentries[(parent, name)].target,
            new_target,
            rev,
            now,
        ) matches Ok(w) && {
            let at = (parent, name);
            let d = v.dentries[at];
            &&& w.dentries == v.dentries.insert(
                at,
                DentryRecord { target: new_target, mtime: Some(now), ..d },
            )
            &&& counted_up(v, w, parent, rev)
            &&& inode_of(new_target) matches Some(n) ==> w.nodes.contains_key(n)
                && w.nodes[n].ref_by == Some(d.id) && (n != parent ==> w.nodes[n] == (NodeRow {
                ref_by: Some(d.id),
                ..v.nodes[n]
            }))
            &&& inode_of(d.target) matches Some(n) ==> v.nodes.contains_key(n) && v.nodes[n].ref_by
                == Some(d.id) ==> w.nodes[n].ref_by is None
            &&& forall|k: u64|
                k != parent && inode_of(new_target) != Some(k) && inode_of(d.target) != Some(k)
                    ==> (#[trigger] w.nodes.contains_key(k) <==> v.nodes.contains_key(k)) && (
                v.nodes.contains_key(k) ==> w.nodes[k] == v.nodes[k])
            &&& w.stats == v.stats && w.root == v.root && w.next_dentry == v.next_dentry
            &&& w.touched == v.touched.push(at)
        },
{
    let at = (parent, name);
    if let DentryTarget::IndexNodeId(id) = new_target {
        assert(!v.targeted(id, at));
    }
}

/// An entry is not redirected to an inode that is not there, that another entry
/// points to or that is held by another.
pub proof fn law_redirecting_needs_a_free_inode(
    v: TablesView,
    at: (u64, Seq<char>),
    old_target: DentryTarget,
    id: u64,
    rev: u64,
    now: u64,
    elsewhere: (u64, Seq<char>),
)
    requires
        v.dentries.contains_key(at),
        v.dentries[at].target != DentryTarget::IndexNodeId(id),
        replace_target_after(
            v,
            at.0,
            at.1,
            old_target,
            DentryTarget::IndexNodeId(id),
            rev,
            now,
        ) is Ok,
    ensures
        v.nodes.contains_key(id),
        v.nodes[id].ref_by matches Some(holder) ==> holder == v.dentries[at].id,
        elsewhere != at && v.dentries.contains_key(elsewhere) ==> v.dentries[elsewhere].target
            != DentryTarget::IndexNodeId(id),
{
    assert(!v.targeted(id, at));
}

/// A caller that is wrong about where an entry points changes nothing: an entry
/// is redirected only from the target that it has.
pub proof fn law_redirecting_needs_the_target(
    v: TablesView,
    parent: u64,
    name: Seq<char>,
    believed: DentryTarget,
    new_target: DentryTarget,
    rev: u64,
    now: u64,
)
    requires
        v.dentries.contains_key((parent, name)),
    ensures
        replace_target_after(v, parent, name, believed, new_target, rev, now) is Ok ==> match (
            v.dentries[(parent, name)].target,
            believed,
        ) {
            (DentryTarget::IndexNodeId(x), DentryTarget::IndexNodeId(y)) => x == y,
            (DentryTarget::SymLink(x), DentryTarget::SymLink(y)) => x@ == y@,
            (DentryTarget::ObjId(x), DentryTarget::ObjId(y)) => x.obj_type@ == y.obj_type@
                && x.obj_hash@ == y.obj_hash@,
            (DentryTarget::Tombstone, DentryTarget::Tombstone) => true,
            _ => false,
        },
{
}

/// An inode that is written is read back as it was written, and no other row or
/// entry changes.
pub proof fn law_written_inode_is_read(v: TablesView, node: NodeRecord, other: u64)
    ensures
        ({
            let w = v.with_row(record_row(node, node.inode_id));
            &&& w.read(node.inode_id) == Ok::<Option<NodeRecord>, MetaError>(Some(node))
            &&& other != node.inode_id ==> w.read(other) == v.read(other)
            &&& w.dentries == v.dentries && w.stats == v.stats && w.root == v.root
        }),
{
    law_record_row_round_trip(node, node.inode_id);
}

/// While ids are left, a new inode gets one: its own where it names a free one,
/// otherwise one that is not in use, and it is read back under it.
pub proof fn law_inode_is_allocated(v: TablesView, node: NodeRecord)
    requires
        v.inv(),
        v.nodes.dom().finite(),
    ensures
        node.inode_id == 0 && (forall|k: u64| #[trigger]
            v.nodes.contains_key(k) && k <= i64::MAX ==> k < i64::MAX) ==> {
            &&& alloc_inode_after(v, node) matches Ok((w, id))
            &&& id > 0 && !v.nodes.contains_key(id)
            &&& w.read(id) == Ok::<Option<NodeRecord>, MetaError>(
                Some(NodeRecord { inode_id: id, ..node }),
            )
            &&& w.nodes.remove(id) == v.nodes
            &&& w.dentries == v.dentries && w.stats == v.stats
        },
        node.inode_id != 0 && !v.nodes.contains_key(node.inode_id) ==> {
            &&& alloc_inode_after(v, node) matches Ok((w, id))
            &&& id == node.inode_id
            &&& w.read(id) == Ok::<Option<NodeRecord>, MetaError>(Some(node))
            &&& w.nodes.remove(id) == v.nodes
            &&& w.dentries == v.dentries && w.stats == v.stats
        },
        node.inode_id != 0 && v.nodes.contains_key(node.inode_id) ==> alloc_inode_after(v, node)
            == Err::<(TablesView, u64), MetaError>(MetaError::InodeIdTaken),
{
    if node.inode_id == 0 {
        let m = crate::ops_laws::lemma_has_top(v.nodes, v.nodes.dom(), v.root);
        assert(crate::tables::is_top_id(v.nodes, m));
        assert(crate::tables::is_top_id(v.nodes, crate::tables::top_id(v.nodes)));
        let id = (crate::tables::top_id(v.nodes) + 1) as u64;
        law_record_row_round_trip(node, id);
        if alloc_inode_after(v, node) is Ok {
            let w = alloc_inode_after(v, node)->Ok_0.0;
            assert(!v.nodes.contains_key(id));
            assert(w.nodes.remove(id) =~= v.nodes);
        }
    } else {
        law_record_row_round_trip(node, node.inode_id);
        if alloc_inode_after(v, node) is Ok {
            let w = alloc_inode_after(v, node)->Ok_0.0;
            assert(w.nodes.remove(node.inode_id) =~= v.nodes);
        }
    }
}

/// A caller that knows the state of an inode can move it on to any other; the
/// inode then is in that state and otherwise as it was.
pub proof fn law_state_is_moved_on(v: TablesView, id: u64, new_state: NodeState, other: u64)
    requires
        v.inv(),
        v.inode(id) is Some,
        v.nodes[id].cols == state_cols(v.inode(id)->0.state),
    ensures
        update_inode_state_after(v, id, new_state, v.inode(id)->0.state) matches Ok(w) && {
            &&& w.read(id) == Ok::<Option<NodeRecord>, MetaError>(
                Some(NodeRecord { state: new_state, ..v.inode(id)->0 }),
            )
            &&& other != id ==> w.read(other) == v.read(other)
            &&& w.dentries == v.dentries && w.stats == v.stats
        },
{
    law_state_columns_round_trip(v.inode(id)->0.state);
    law_state_columns_round_trip(new_state);
}

/// Two states that no caller can take for one another.
pub open spec fn states_differ(a: NodeState, b: NodeState) -> bool {
    match (a, b) {
        (NodeState::DirNormal, NodeState::DirNormal) => false,
        (NodeState::DirOverlay, NodeState::DirOverlay) => false,
        (NodeState::FileNormal, NodeState::FileNormal) => false,
        (NodeState::Working(x), NodeState::Working(y)) => x.fb_handle@ != y.fb_handle@
            || x.last_write_at != y.last_write_at,
        (NodeState::Cooling(x), NodeState::Cooling(y)) => x.fb_handle@ != y.fb_handle@
            || x.closed_at != y.closed_at,
        (NodeState::Linked(x), NodeState::Linked(y)) => x.obj_id.obj_type@ != y.obj_id.obj_type@
            || x.obj_id.obj_hash@ != y.obj_id.obj_hash@ || x.qcid.obj_type@ != y.qcid.obj_type@
            || x.qcid.obj_hash@ != y.qcid.obj_hash@ || x.filebuffer_id@ != y.filebuffer_id@
            || x.linked_at != y.linked_at,
        (NodeState::Finalized(x), NodeState::Finalized(y)) => x.obj_id.obj_type@
            != y.obj_id.obj_type@ || x.obj_id.obj_hash@ != y.obj_id.obj_hash@ || x.finalized_at
            != y.finalized_at,
        _ => true,
    }
}

/// A caller that is wrong about the state of an inode moves nothing.
pub proof fn law_moving_on_needs_the_state(
    v: TablesView,
    id: u64,
    new_state: NodeState,
    believed: NodeState,
)
    requires
        v.inode(id) is Some,
        v.nodes[id].cols == state_cols(v.inode(id)->0.state),
        states_differ(v.inode(id)->0.state, believed),
    ensures
        update_inode_state_after(v, id, new_state, believed) == Err::<TablesView, MetaError>(
            MetaError::StateConflict,
        ),
{
}

/// A revision is counted up by one for a caller that knows it, and for no other.
pub proof fn law_revision_is_counted_up(v: TablesView, dir: u64, rev: u64)
    requires
        v.inv(),
    ensures
        counts_up(v, dir, rev) ==> (bump_dir_rev_after(v, dir, rev) matches Ok(w) && w.nodes
            == v.nodes.insert(dir, NodeRow { rev: Some((rev + 1) as u64), ..v.nodes[dir] })
            && w.dentries == v.dentries && w.stats == v.stats),
        !v.nodes.contains_key(dir) || (v.nodes[dir].rev matches Some(r) && r != rev)
            ==> bump_dir_rev_after(v, dir, rev) is Err,
{
}

/// An inode that is removed is gone and nothing else is; the root cannot go.
pub proof fn law_removed_inode_is_gone(v: TablesView, id: u64)
    ensures
        id != v.root && v.nodes.contains_key(id) ==> (remove_inode_after(v, id) matches Ok(w)
            && w.nodes == v.nodes.remove(id) && w.dentries == v.dentries && w.stats == v.stats
            && w.root == v.root),
        id == v.root || !v.nodes.contains_key(id) ==> remove_inode_after(v, id) is Err,
{
}

/// References can be counted up while the number fits, and down as long as
/// enough are counted.  The statistics of other objects do not change, and an
/// object without references is marked with the moment it lost the last one.
pub proof fn law_references_are_counted(v: TablesView, obj_id: ObjId, delta: i64, now: u64)
    requires
        v.inv(),
    ensures
        ({
            let k = obj_id.model();
            let before: int = match stat_of(v, obj_id) {
                Some(s) => s.ref_count as int,
                None => 0,
            };
            &&& delta > 0 && before + delta <= i64::MAX ==> stat_bump_after(v, obj_id, delta, now)
                is Ok
            &&& delta <= 0 && v.stats.contains_key(k) && before + delta >= 0 ==> stat_bump_after(
                v,
                obj_id,
                delta,
                now,
            ) is Ok
            &&& before + delta < 0 ==> stat_bump_after(v, obj_id, delta, now) is Err
            &&& stat_bump_after(v, obj_id, delta, now) matches Ok((w, n)) ==> {
                &&& stat_of(w, obj_id) matches Some(s)
                &&& s.obj_id.model() == k
                &&& s.ref_count == before + delta && n == before + delta
                &&& s.updated_at == now
                &&& s.zero_since == if before + delta > 0 {
                    None
                } else {
                    match stat_of(v, obj_id) {
                        Some(ObjStat { zero_since: Some(t), .. }) => Some(t),
                        _ => Some(now),
                    }
                }
                &&& w.stats.remove(k) == v.stats.remove(k)
                &&& w.nodes == v.nodes && w.dentries == v.dentries
            }
        }),
{
    if let Ok((w, n)) = stat_bump_after(v, obj_id, delta, now) {
        assert(w.stats.remove(obj_id.model()) =~= v.stats.remove(obj_id.model()));
    }
}

/// The statistics of an object go exactly where nothing refers to it.
pub proof fn law_only_unused_statistics_go(v: TablesView, obj_id: ObjId)
    ensures
        zero_dropped(v, obj_id) matches Ok((w, gone)) && {
            &&& gone <==> (stat_of(v, obj_id) matches Some(s) && s.ref_count == 0)
            &&& gone ==> stat_of(w, obj_id) is None
            &&& !gone ==> w == v
            &&& w.stats.remove(obj_id.model()) == v.stats.remove(obj_id.model())
            &&& w.nodes == v.nodes && w.dentries == v.dentries
        },
{
    let w = zero_dropped(v, obj_id)->Ok_0.0;
    assert(w.stats.remove(obj_id.model()) =~= v.stats.remove(obj_id.model()));
}

/// The objects that are listed as unused are those to which nothing has referred
/// since the given moment, the longest unused first; while there is room, all of
/// them.
pub proof fn law_unused_objects_are_listed(
    v: TablesView,
    older_than: u64,
    limit: nat,
    out: Seq<ObjId>,
    obj_id: ObjId,
    i: int,
    j: int,
)
    requires
        is_idle_list(v, older_than, limit, out),
        older_than <= i64::MAX,
        v.stats.contains_key(obj_id.model()),
        v.stats[obj_id.model()].zero_since matches Some(t) ==> t <= i64::MAX,
    ensures
        out.len() <= limit,
        ({
            let s = v.stats[obj_id.model()];
            let unused = s.ref_count == 0 && (s.zero_since matches Some(t) && t <= older_than);
            let listed = exists|k: int|
                0 <= k < out.len() && (#[trigger] out[k]).model() == obj_id.model();
            &&& listed ==> unused
            &&& unused && out.len() < limit ==> listed
        }),
        0 <= i < j < out.len() ==> out[i].model() != out[j].model(),
        0 <= i < j < out.len() && (v.stats[out[i].model()].zero_since matches Some(t) && t
            <= i64::MAX) && (v.stats[out[j].model()].zero_since matches Some(t) && t <= i64::MAX)
            ==> v.stats[out[i].model()].zero_since->0 <= v.stats[out[j].model()].zero_since->0,
{
    let k = obj_id.model();
    if idle_since(v.stats[k], older_than) && out.len() < limit {
        assert(crate::stats::listed(out, k));
    }
}

/// Fresh tables hold an open root directory and nothing else.
pub proof fn law_fresh_tables_hold_the_root()
    ensures
        ({
            let v = root_tables();
            &&& v.nodes.dom() == set![v.root]
            &&& v.read(v.root) matches Ok(Some(n))
            &&& n.state is DirNormal
            &&& !n.read_only && n.base_obj_id is None && n.ref_by is None
            &&& n.lease_client_session is None && n.lease_expire_at is None
            &&& v.dentries.dom() == Set::<(u64, Seq<char>)>::empty()
            &&& v.stats.dom() == Set::<(Seq<char>, Seq<char>)>::empty()
        }),
{
    let v = root_tables();
    assert(v.nodes.dom() =~= set![v.root]);
    assert(v.dentries.dom() =~= Set::<(u64, Seq<char>)>::empty());
    assert(v.stats.dom() =~= Set::<(Seq<char>, Seq<char>)>::empty());
    law_state_columns_round_trip(NodeState::DirNormal);
}

/// Why a change in a directory is refused before it looks at any entry.
pub open spec fn dir_fault(v: TablesView, dir: u64, rev: u64) -> Option<MetaError> {
    if !v.nodes.contains_key(dir) {
        Some(MetaError::ParentInodeNotFound)
    } else if v.nodes[dir].rev == Some(rev) || (v.nodes[dir].rev is None && rev == 0) {
        None
    } else {
        Some(MetaError::RevMismatch)
    }
}

/// A change of an entry that is refused says why: the directory is not there or
/// has changed, the name has an entry or has none, or it points elsewhere.
pub proof fn law_refused_entries_say_why(
    v: TablesView,
    parent: u64,
    name: String,
    target: DentryTarget,
    believed: DentryTarget,
    rev: u64,
    now: u64,
    id: u64,
    elsewhere: (u64, Seq<char>),
)
    ensures
        ({
            let at = (parent, name@);
            let created = create_dentry_after(v, parent, name, target, rev, now);
            let deleted = delete_dentry_after(v, parent, name@, rev);
            let replaced = replace_target_after(v, parent, name@, believed, target, rev, now);
            match dir_fault(v, parent, rev) {
                Some(e) => {
                    &&& created == Err::<TablesView, MetaError>(e)
                    &&& deleted == Err::<TablesView, MetaError>(e)
                    &&& replaced == Err::<TablesView, MetaError>(e)
                },
                None => {
                    &&& v.dentries.contains_key(at) ==> created == Err::<TablesView, MetaError>(
                        MetaError::DentryExists,
                    )
                    &&& !v.dentries.contains_key(at) ==> deleted == Ok::<TablesView, MetaError>(v)
                        && replaced == Err::<TablesView, MetaError>(MetaError::DentryNotFound)
                    &&& v.dentries.contains_key(at) && !same_target(v.dentries[at].target, believed)
                        ==> replaced == Err::<TablesView, MetaError>(MetaError::TargetMismatch)
                    &&& !v.dentries.contains_key(at) && v.next_dentry < i64::MAX && target
                        == DentryTarget::IndexNodeId(id) ==> {
                        &&& elsewhere != at && v.dentries.contains_key(elsewhere)
                            && v.dentries[elsewhere].target == target ==> created == Err::<
                            TablesView,
                            MetaError,
                        >(MetaError::UniqueInodeTarget)
                        &&& unclaimed(v, id, at) && !v.nodes.contains_key(id) ==> created == Err::<
                            TablesView,
                            MetaError,
                        >(MetaError::InodeNotFound)
                        &&& unclaimed(v, id, at) && v.nodes.contains_key(id) && (
                        v.nodes[id].ref_by matches Some(h) && h != v.next_dentry) ==> created
                            == Err::<TablesView, MetaError>(MetaError::InodeReferenced)
                    }
                },
            }
        }),
{
    let at = (parent, name@);
    if target == DentryTarget::IndexNodeId(id) {
        if elsewhere != at && v.dentries.contains_key(elsewhere) && v.dentries[elsewhere].target
            == target {
            assert(v.targeted(id, at));
        }
        if unclaimed(v, id, at) {
            assert(!v.targeted(id, at));
        }
    }
}

/// A change of an inode that is refused says why: it is not there, it is there
/// already, it has moved on, or it is the root.
pub proof fn law_refused_inodes_say_why(
    v: TablesView,
    id: u64,
    node: NodeRecord,
    new_state: NodeState,
    old_state: NodeState,
    rev: u64,
)
    ensures
        id == v.root ==> remove_inode_after(v, id) == Err::<TablesView, MetaError>(
            MetaError::CannotRemoveRoot,
        ),
        !v.nodes.contains_key(id) ==> {
            &&& id != v.root ==> remove_inode_after(v, id) == Err::<TablesView, MetaError>(
                MetaError::InodeNotFound,
            )
            &&& update_inode_state_after(v, id, new_state, old_state) == Err::<
                TablesView,
                MetaError,
            >(MetaError::InodeNotFound)
            &&& bump_dir_rev_after(v, id, rev) == Err::<TablesView, MetaError>(
                MetaError::RevMismatchOrMissing,
            )
        },
        v.nodes.contains_key(id) && v.nodes[id].cols.state != state_cols(old_state).state
            ==> update_inode_state_after(v, id, new_state, old_state) == Err::<
            TablesView,
            MetaError,
        >(MetaError::StateConflict),
        v.nodes.contains_key(id) && (v.nodes[id].rev matches Some(r) && r != rev)
            ==> bump_dir_rev_after(v, id, rev) == Err::<TablesView, MetaError>(
            MetaError::RevMismatchOrMissing,
        ),
        node.inode_id != 0 && v.nodes.contains_key(node.inode_id) ==> alloc_inode_after(v, node)
            == Err::<(TablesView, u64), MetaError>(MetaError::InodeIdTaken),
{
}

} // verus!
