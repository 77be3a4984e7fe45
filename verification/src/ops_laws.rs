//! What holds across the requests on names.

use vstd::prelude::*;
use crate::errors::MetaError;
use crate::leases::{lease_expired, reclaim_after, reclaimed_row, seq_or_zero};
use crate::ops::{
    create_dir_after, delete_after, enter_after, name_taken, refuse, set_dir_after, set_file_after,
    symlink_after, writable_dir,
};
use crate::outside::{BaseStoreView, Stop};
use crate::records::{
    law_state_columns_round_trip, DentryTarget, FileCoolingState, FileWorkingState, NodeRecord,
    NodeState, ObjId, OpenWriteFlag,
};
use crate::stats::count_of;
use crate::table::Key;
use crate::tables::{
    alloc_inode_after, fresh_dir_record, is_last_number, is_top_id, law_record_row_round_trip, top_id, NodeRow,
    TablesView,
};
use crate::writer::{
    close_writer_after, drops_content, start_writer, visible_base, writer_target, AllocAnswer,
    HandleAnswer, Writer, WriterTargetView,
};

verus! {

/// Nothing stands under the name but, maybe, the mark of a deletion.
pub open spec fn no_entry(v: TablesView, parent: u64, name: Seq<char>) -> bool {
    v.dentry(parent, name) is None || v.dentry(parent, name)->0.target is Tombstone
}

/// A set of ids with one in reach has a largest one in reach.
pub proof fn lemma_has_top(nodes: Map<u64, NodeRow>, s: Set<u64>, k: u64) -> (m: u64)
    requires
        s.finite(),
        s.subset_of(nodes.dom()),
        s.contains(k),
        k <= i64::MAX,
    ensures
        s.contains(m),
        m <= i64::MAX,
        forall|j: u64| #[trigger] s.contains(j) && j <= i64::MAX ==> j <= m,
    decreases s.len(),
{
    if exists|j: u64| #[trigger] s.contains(j) && j <= i64::MAX && j > k {
        let j = choose|j: u64| #[trigger] s.contains(j) && j <= i64::MAX && j > k;
        let rest = s.remove(k);
        assert(rest.contains(j));
        let m = lemma_has_top(nodes, rest, j);
        assert(m >= j);
        m
    } else {
        k
    }
}

/// An inode that gets its id gets one that no other has, the others stay as
/// they are, and it is found under its id.
pub proof fn law_new_inode_is_new(v: TablesView, node: NodeRecord, w: TablesView, id: u64)
    requires
        v.inv(),
        v.nodes.dom().finite(),
        alloc_inode_after(v, node) == Ok::<(TablesView, u64), MetaError>((w, id)),
    ensures
        !v.nodes.contains_key(id),
        w.nodes.contains_key(id),
        forall|k: u64| k != id ==> #[trigger] w.read(k) == v.read(k),
        w.inode(id) matches Some(n) && n.inode_id == id && n.state == node.state && n.base_obj_id
            == node.base_obj_id && n.read_only == node.read_only && n.rev == node.rev,
        w.dentries == v.dentries,
{
    let m = lemma_has_top(v.nodes, v.nodes.dom(), v.root);
    assert(is_top_id(v.nodes, m));
    assert(is_top_id(v.nodes, top_id(v.nodes)));
    law_record_row_round_trip(node, id);
}

/// A name that stands is never entered again, whatever it is to be.
pub proof fn law_taken_name_is_refused(
    v: TablesView,
    base: BaseStoreView,
    parent: u64,
    name: String,
    obj_id: ObjId,
    target: String,
    now: u64,
)
    requires
        name@.len() > 0,
        target@.len() > 0,
        obj_id.is_dir(),
        writable_dir(v, parent, MetaError::ParentDirNotFound) is Ok,
        !no_entry(v, parent, name@),
    ensures
        ({
            let taken = refuse::<TablesView>(MetaError::PathExists { parent, name });
            &&& set_file_after(v, base, parent, name, obj_id, now) == taken
            &&& set_dir_after(v, base, parent, name, obj_id, now) == taken
            &&& symlink_after(v, base, parent, name, target, now) == taken
            &&& create_dir_after(v, base, parent, name, now) == taken
        }),
{
}

/// What is entered under a name is found under it, and no other name changes.
pub proof fn law_entered_target_is_found(
    v: TablesView,
    base: BaseStoreView,
    parent: u64,
    name: String,
    target: DentryTarget,
    now: u64,
    other: (u64, Seq<char>),
)
    requires
        v.inv(),
        !(target is Tombstone),
    ensures
        enter_after(v, base, parent, name, target, now) matches Ok(w) ==> {
            &&& no_entry(v, parent, name@)
            &&& w.dentry(parent, name@) matches Some(d) && d.target == target
            &&& other != (parent, name@) ==> w.dentry(other.0, other.1) == v.dentry(
                other.0,
                other.1,
            )
            &&& w.rev(parent) == v.rev(parent) + 1
        },
{
}

/// A file that is set is counted as one more reference to its object.
pub proof fn law_set_file_counts_reference(
    v: TablesView,
    base: BaseStoreView,
    parent: u64,
    name: String,
    obj_id: ObjId,
    now: u64,
)
    requires
        v.inv(),
    ensures
        set_file_after(v, base, parent, name, obj_id, now) matches Ok(w) ==> {
            &&& w.dentry(parent, name@) matches Some(d) && d.target == DentryTarget::ObjId(obj_id)
            &&& count_of(w, obj_id.model()) == count_of(v, obj_id.model()) + 1
        },
{
    law_entered_target_is_found(
        v,
        base,
        parent,
        name,
        DentryTarget::ObjId(obj_id),
        now,
        (parent, name@),
    );
}

/// A directory that is made is a new inode, empty of a base, under its name.
pub proof fn law_created_dir_is_found(
    v: TablesView,
    base: BaseStoreView,
    parent: u64,
    name: String,
    now: u64,
    other: (u64, Seq<char>),
)
    requires
        v.inv(),
        v.nodes.dom().finite(),
    ensures
        create_dir_after(v, base, parent, name, now) matches Ok(w) ==> {
            &&& no_entry(v, parent, name@)
            &&& w.dentry(parent, name@) matches Some(d)
            &&& d.target matches DentryTarget::IndexNodeId(id)
            &&& !v.nodes.contains_key(id)
            &&& w.inode(id) matches Some(n)
            &&& n.state == NodeState::DirNormal && n.base_obj_id is None && !n.read_only
            &&& other != (parent, name@) ==> w.dentry(other.0, other.1) == v.dentry(
                other.0,
                other.1,
            )
        },
{
    let fresh = fresh_dir_record(NodeState::DirNormal, None);
    if let Ok((w, id)) = alloc_inode_after(v, fresh) {
        law_new_inode_is_new(v, fresh, w, id);
    }
}

/// A deleted name is free again.
pub proof fn law_deleted_name_is_free(
    v: TablesView,
    base: BaseStoreView,
    parent: u64,
    name: String,
    node: NodeRecord,
    now: u64,
    other: (u64, Seq<char>),
)
    requires
        v.inv(),
    ensures
        delete_after(v, parent, name, now) matches Ok(w) ==> {
            &&& name_taken(w, base, parent, node, name) is None
            &&& other != (parent, name@) ==> w.dentry(other.0, other.1) == v.dentry(
                other.0,
                other.1,
            )
        },
{
}

/// Appending to a file, or going on with it, needs the file.
pub proof fn law_append_needs_file(
    v: TablesView,
    base: BaseStoreView,
    parent: u64,
    name: String,
    flag: OpenWriteFlag,
    now: u64,
)
    requires
        writable_dir(v, parent, MetaError::ParentNotFound) matches Ok(node) && visible_base(
            v,
            base,
            parent,
            node,
            name,
        ) == Ok::<Option<ObjId>, Stop>(None),
        no_entry(v, parent, name@),
        flag == OpenWriteFlag::Append || flag == OpenWriteFlag::ContinueWrite,
    ensures
        writer_target(v, base, parent, name, flag, now) == refuse::<WriterTargetView>(
            MetaError::FileNotFound { resume: flag is ContinueWrite, parent, name },
        ),
{
}

/// An exclusive writer gets a file that was not there before.
pub proof fn law_exclusive_writer_makes_file(
    v: TablesView,
    base: BaseStoreView,
    parent: u64,
    name: String,
    now: u64,
)
    requires
        v.inv(),
        v.nodes.dom().finite(),
    ensures
        writer_target(v, base, parent, name, OpenWriteFlag::CreateExclusive, now) matches Ok(t) ==> {
            &&& no_entry(v, parent, name@)
            &&& !v.nodes.contains_key(t.file_id)
            &&& t.base is None
            &&& t.tables.dentry(parent, name@) matches Some(d) && d.target
                == DentryTarget::IndexNodeId(t.file_id)
        },
{
    let fresh = crate::writer::fresh_file_record(None);
    if let Ok((w, id)) = alloc_inode_after(v, fresh) {
        law_new_inode_is_new(v, fresh, w, id);
    }
}

/// A write that was cut off when its lease ran out can be taken up again: the
/// file cools down with its buffer, and while the buffer is there a writer that
/// goes on gets it back and the file is in writing as before.  The writer that
/// lost the file can close it, too.
pub proof fn law_cut_off_write_is_resumed(
    v: TablesView,
    base: BaseStoreView,
    parent: u64,
    name: String,
    id: u64,
    cut: FileWorkingState,
    at: u64,
    expected_size: Option<u64>,
    who: Writer,
    allocated: Option<AllocAnswer>,
    now: u64,
)
    requires
        v.inv(),
        writable_dir(v, parent, MetaError::ParentNotFound) is Ok,
        v.dentry(parent, name@) matches Some(d) && d.target == DentryTarget::IndexNodeId(id),
        v.inode(id) matches Some(n) && n.state == NodeState::Working(cut),
        lease_expired(v.nodes[id], at),
        !is_last_number(seq_or_zero(v.nodes[id])),
    ensures
        ({
            let w = reclaim_after(v, at);
            let there = Some(HandleAnswer { handle: cut.fb_handle, said: Ok(()) });
            let cooling = NodeState::Cooling(
                FileCoolingState { fb_handle: cut.fb_handle, closed_at: at },
            );
            &&& w.inode(id) matches Some(n) && n.state == cooling
            &&& writer_target(w, base, parent, name, OpenWriteFlag::ContinueWrite, now) matches Ok(t)
            &&& t.tables == w && t.file_id == id && t.state == cooling
            &&& start_writer(
                t,
                OpenWriteFlag::ContinueWrite,
                expected_size,
                who,
                there,
                allocated,
                now,
            ) matches Ok((x, handle))
            &&& handle == cut.fb_handle
            &&& x.inode(id) matches Some(n) && n.state == NodeState::Working(
                FileWorkingState { fb_handle: handle, last_write_at: now },
            )
            &&& close_writer_after(w, id, true, there, there, now) is Ok
        }),
{
    let w = reclaim_after(v, at);
    assert(w.nodes[id] == reclaimed_row(v.nodes[id], at));
    assert(w.nodes[parent] == reclaimed_row(v.nodes[parent], at));
    law_state_columns_round_trip(
        NodeState::Cooling(FileCoolingState { fb_handle: cut.fb_handle, closed_at: at }),
    );
    law_state_columns_round_trip(
        NodeState::Working(FileWorkingState { fb_handle: cut.fb_handle, last_write_at: now }),
    );
}

/// A writer that truncates leaves nothing of the object under the file.
pub proof fn law_truncated_file_has_no_base(
    t: WriterTargetView,
    flag: OpenWriteFlag,
    expected_size: Option<u64>,
    who: Writer,
    found: Option<HandleAnswer>,
    allocated: Option<AllocAnswer>,
    now: u64,
)
    requires
        t.tables.inv(),
        t.tables.inode(t.file_id) matches Some(n) && n.base_obj_id == t.base,
        drops_content(flag),
    ensures
        start_writer(t, flag, expected_size, who, found, allocated, now) matches Ok((w, _)) ==> {
            &&& w.inode(t.file_id) matches Some(n) && n.base_obj_id is None
        },
{
}

} // verus!
