//! What the requests on names promise: when a name can be entered, hidden or
//! moved, and what stands there afterwards.

use vstd::prelude::*;
use crate::errors::MetaError;
use crate::moves::{dirs_changed, move_path_after};
use crate::ops::{
    create_dir_after, create_dir_under_after, delete_after, materialize_after, set_dir_after,
    set_dir_seen, set_file_after, set_file_seen, symlink_after, symlink_seen, upsert_after,
};
use crate::outside::{BaseReply, BaseStoreView, Question, Stop};
use crate::records::{same_target, DentryTarget, NodeRecord, NodeState, ObjId};
use crate::table::Key;
use crate::table_laws::{
    can_be_target, counts_up, law_entry_is_made, law_entry_is_redirected, law_inode_is_allocated,
    law_references_are_counted, other_entries_kept, unclaimed,
};
use crate::tables::{alloc_inode_after, TablesView};
use crate::tree::{bound_to_target, tree_ok};

verus! {

/// The state of a directory: one in use, or one that stands for a directory object.
pub open spec fn is_directory(state: NodeState) -> bool {
    match state {
        NodeState::DirNormal | NodeState::DirOverlay => true,
        NodeState::Linked(s) => s.obj_id.obj_type@ == "cydir"@,
        NodeState::Finalized(s) => s.obj_id.obj_type@ == "cydir"@,
        _ => false,
    }
}

/// A directory that can be read and is not closed to changes.
pub open spec fn is_open_dir(v: TablesView, id: u64) -> bool {
    v.read(id) matches Ok(Some(n)) && is_directory(n.state) && !n.read_only
}

/// The base of a directory is known to have nothing under `name`.
pub open spec fn base_lacks(v: TablesView, base: BaseStoreView, dir: u64, name: Seq<char>) -> bool {
    v.nodes[dir].base_obj_id matches Some(o) ==> o.obj_type@ == "cydir"@ && base.configured
        && base.children.contains_key((o.model(), name)) && base.children[(o.model(), name)]
        == BaseReply::Missing
}

/// The base of a directory is known to have `child` under `name`.
pub open spec fn base_has(
    v: TablesView,
    base: BaseStoreView,
    dir: u64,
    name: Seq<char>,
    child: ObjId,
) -> bool {
    v.nodes[dir].base_obj_id matches Some(o) && o.obj_type@ == "cydir"@ && base.configured
        && base.children.contains_key((o.model(), name)) && base.children[(o.model(), name)]
        == BaseReply::Found(child)
}

/// Nothing stands under a name: it was deleted, or it never was there.
pub open spec fn is_free(v: TablesView, base: BaseStoreView, dir: u64, name: Seq<char>) -> bool {
    if v.dentries.contains_key((dir, name)) {
        v.dentries[(dir, name)].target is Tombstone
    } else {
        base_lacks(v, base, dir, name)
    }
}

/// One more change of a directory can be counted, and an entry numbered where the
/// name has none.
pub open spec fn has_numbers(v: TablesView, dir: u64, name: Seq<char>) -> bool {
    &&& counts_up(v, dir, v.rev(dir))
    &&& v.dentries.contains_key((dir, name)) || v.next_dentry < i64::MAX
}

/// One more inode can be numbered.
pub open spec fn has_inode_id(v: TablesView) -> bool {
    &&& v.nodes.dom().finite()
    &&& forall|k: u64| #[trigger] v.nodes.contains_key(k) && k <= i64::MAX ==> k < i64::MAX
}

/// Under the name stands what was entered at `now`, and every other entry is as
/// it was.
pub open spec fn now_stands(
    v: TablesView,
    w: TablesView,
    at: (u64, Seq<char>),
    target: DentryTarget,
    now: u64,
) -> bool {
    &&& w.dentries.contains_key(at)
    &&& w.dentries[at].target == target
    &&& w.dentries[at].mtime == Some(now)
    &&& v.dentries.contains_key(at) ==> w.dentries[at].id == v.dentries[at].id
    &&& other_entries_kept(v, w, at)
    &&& w.rev(at.0) == v.rev(at.0) + 1
}

/// Pointing a name to an object, to a path or to nothing works whether or not it
/// has an entry; no inode but the directory and a former target changes.
proof fn lemma_upsert_works(
    v: TablesView,
    parent: u64,
    name: String,
    target: DentryTarget,
    rev: u64,
    now: u64,
)
    requires
        v.inv(),
        counts_up(v, parent, rev),
        v.dentries.contains_key((parent, name@)) || v.next_dentry < i64::MAX,
        can_be_target(
            v,
            target,
            (parent, name@),
            if v.dentries.contains_key((parent, name@)) {
                v.dentries[(parent, name@)].id
            } else {
                v.next_dentry
            },
        ),
        v.dentries.contains_key((parent, name@)) ==> !same_target(
            v.dentries[(parent, name@)].target,
            target,
        ),
    ensures
        upsert_after(v, parent, name, target, rev, now) matches Ok(w) && {
            &&& now_stands(v, w, (parent, name@), target, now)
            &&& w.stats == v.stats && w.root == v.root
            &&& forall|k: u64| #[trigger]
                w.nodes.contains_key(k) <==> v.nodes.contains_key(k)
            &&& forall|k: u64|
                v.nodes.contains_key(k) ==> (#[trigger] w.nodes[k]) == (crate::tables::NodeRow {
                    rev: w.nodes[k].rev,
                    ref_by: w.nodes[k].ref_by,
                    ..v.nodes[k]
                })
            &&& forall|k: u64|
                v.nodes.contains_key(k) && k != parent ==> (#[trigger] w.nodes[k]).rev
                    == v.nodes[k].rev
        },
{
    let at = (parent, name@);
    if v.dentries.contains_key(at) {
        law_entry_is_redirected(v, parent, name@, target, rev, now);
    } else {
        law_entry_is_made(v, parent, name, target, rev, now);
    }
}

/// A file is entered under a free name of an open directory: the object stands
/// there, and is counted as referred to once more.
pub proof fn law_file_is_entered(
    v: TablesView,
    base: BaseStoreView,
    parent: u64,
    name: String,
    obj_id: ObjId,
    now: u64,
)
    requires
        v.inv(),
        is_open_dir(v, parent),
        has_numbers(v, parent, name@),
        name@.len() > 0,
        is_free(v, base, parent, name@),
        v.stats.contains_key(obj_id.model()) ==> v.stats[obj_id.model()].ref_count < i64::MAX,
    ensures
        set_file_after(v, base, parent, name, obj_id, now) matches Ok(w) && {
            &&& now_stands(v, w, (parent, name@), DentryTarget::ObjId(obj_id), now)
            &&& w.stats.contains_key(obj_id.model())
            &&& w.stats[obj_id.model()].ref_count == if v.stats.contains_key(obj_id.model()) {
                v.stats[obj_id.model()].ref_count + 1
            } else {
                1
            }
            &&& w.nodes.dom() == v.nodes.dom()
        },
{
    let target = DentryTarget::ObjId(obj_id);
    lemma_upsert_works(v, parent, name, target, v.rev(parent), now);
    let w = upsert_after(v, parent, name, target, v.rev(parent), now)->Ok_0;
    law_references_are_counted(w, obj_id, 1, now);
    assert(w.nodes.dom() =~= v.nodes.dom());
}

/// A directory object is entered under a free name of an open directory, and
/// nothing that is no directory object is.
pub proof fn law_dir_object_is_entered(
    v: TablesView,
    base: BaseStoreView,
    parent: u64,
    name: String,
    obj_id: ObjId,
    now: u64,
)
    requires
        v.inv(),
        is_open_dir(v, parent),
        has_numbers(v, parent, name@),
        name@.len() > 0,
        is_free(v, base, parent, name@),
    ensures
        obj_id.obj_type@ == "cydir"@ ==> (set_dir_after(v, base, parent, name, obj_id, now)
            matches Ok(w) && now_stands(v, w, (parent, name@), DentryTarget::ObjId(obj_id), now)
            && w.nodes.dom() == v.nodes.dom() && w.stats == v.stats),
        obj_id.obj_type@ != "cydir"@ ==> set_dir_after(v, base, parent, name, obj_id, now) is Err,
{
    let target = DentryTarget::ObjId(obj_id);
    lemma_upsert_works(v, parent, name, target, v.rev(parent), now);
    let w = upsert_after(v, parent, name, target, v.rev(parent), now)->Ok_0;
    assert(w.nodes.dom() =~= v.nodes.dom());
}

/// A link is entered under a free name of an open directory, with the very path
/// it was given, whether or not anything is there.
pub proof fn law_link_is_entered(
    v: TablesView,
    base: BaseStoreView,
    parent: u64,
    name: String,
    target: String,
    now: u64,
)
    requires
        v.inv(),
        is_open_dir(v, parent),
        has_numbers(v, parent, name@),
        name@.len() > 0,
        target@.len() > 0,
        is_free(v, base, parent, name@),
    ensures
        symlink_after(v, base, parent, name, target, now) matches Ok(w) && now_stands(
            v,
            w,
            (parent, name@),
            DentryTarget::SymLink(target),
            now,
        ) && w.nodes.dom() == v.nodes.dom() && w.stats == v.stats,
{
    lemma_upsert_works(v, parent, name, DentryTarget::SymLink(target), v.rev(parent), now);
    let w = upsert_after(v, parent, name, DentryTarget::SymLink(target), v.rev(parent), now)->Ok_0;
    assert(w.nodes.dom() =~= v.nodes.dom());
}

/// A name that is taken, by an entry or by the base, is entered by none of the
/// requests; neither is a name in something that is no open directory.
pub proof fn law_only_free_names_are_entered(
    v: TablesView,
    base: BaseStoreView,
    parent: u64,
    name: String,
    obj_id: ObjId,
    target: String,
    now: u64,
    child: ObjId,
)
    requires
        v.inv(),
        !is_open_dir(v, parent) || name@.len() == 0 || (v.dentries.contains_key((parent, name@))
            && !(v.dentries[(parent, name@)].target is Tombstone)) || (!v.dentries.contains_key(
            (parent, name@),
        ) && base_has(v, base, parent, name@, child)),
    ensures
        set_file_after(v, base, parent, name, obj_id, now) is Err,
        set_dir_after(v, base, parent, name, obj_id, now) is Err,
        symlink_after(v, base, parent, name, target, now) is Err,
        create_dir_after(v, base, parent, name, now) is Err,
{
}

/// Under the name stands a new directory with these traits, and every other
/// entry and inode but the parent is as it was.
pub open spec fn new_dir_stands(
    v: TablesView,
    w: TablesView,
    at: (u64, Seq<char>),
    id: u64,
    state: NodeState,
    over: Option<ObjId>,
    now: u64,
) -> bool {
    &&& now_stands(v, w, at, DentryTarget::IndexNodeId(id), now)
    &&& !v.nodes.contains_key(id)
    &&& w.read(id) matches Ok(Some(n))
    &&& n.inode_id == id
    &&& n.state == state
    &&& n.base_obj_id == over
    &&& !n.read_only
    &&& n.rev == Some(0u64)
    &&& n.ref_by == Some(w.dentries[at].id)
    &&& w.stats == v.stats && w.root == v.root
    &&& forall|k: u64|
        v.nodes.contains_key(k) ==> w.nodes.contains_key(k) && (#[trigger] w.nodes[k])
            == (crate::tables::NodeRow {
            rev: w.nodes[k].rev,
            ref_by: w.nodes[k].ref_by,
            ..v.nodes[k]
        })
}

pub proof fn lemma_alloc_under(
    v: TablesView,
    parent: u64,
    name: String,
    node: NodeRecord,
    now: u64,
)
    requires
        v.inv(),
        v.nodes.contains_key(parent),
        has_inode_id(v),
        has_numbers(v, parent, name@),
        node.inode_id == 0,
        node.ref_by is None,
        no_dangling(v),
    ensures
        ({
            let at = (parent, name@);
            &&& alloc_inode_after(v, node) matches Ok((w, id))
            &&& !v.nodes.contains_key(id)
            &&& w.inv()
            &&& w.rev(parent) == v.rev(parent)
            &&& w.read(parent) == v.read(parent)
            &&& upsert_after(
                w,
                parent,
                name,
                DentryTarget::IndexNodeId(id),
                v.rev(parent),
                now,
            ) matches Ok(x)
            &&& now_stands(v, x, at, DentryTarget::IndexNodeId(id), now)
            &&& x.read(id) matches Ok(Some(n))
            &&& n == (NodeRecord { inode_id: id, ref_by: Some(x.dentries[at].id), ..node })
            &&& x.stats == v.stats && x.root == v.root
            &&& forall|k: u64|
                v.nodes.contains_key(k) ==> x.nodes.contains_key(k) && (#[trigger] x.nodes[k])
                    == (crate::tables::NodeRow {
                    rev: x.nodes[k].rev,
                    ref_by: x.nodes[k].ref_by,
                    ..v.nodes[k]
                })
        }),
{
    let at = (parent, name@);
    law_inode_is_allocated(v, node);
    let (w, id) = alloc_inode_after(v, node)->Ok_0;
    let target = DentryTarget::IndexNodeId(id);
    crate::tables::law_record_row_round_trip(node, id);
    assert(w.nodes[parent] == v.nodes[parent]);
    assert(unclaimed(w, id, at)) by {
        assert forall|k: (u64, Seq<char>)| #[trigger]
            w.dentries.contains_key(k) && w.dentries[k].target == target implies k == at by {
            assert(v.dentries.contains_key(k));
        }
    }
    if v.dentries.contains_key(at) {
        law_entry_is_redirected(w, parent, name@, target, v.rev(parent), now);
    } else {
        law_entry_is_made(w, parent, name, target, v.rev(parent), now);
    }
}

/// Entries point to inodes that are there.
pub open spec fn no_dangling(v: TablesView) -> bool {
    forall|k: (u64, Seq<char>)| #[trigger]
        v.dentries.contains_key(k) ==> (v.dentries[k].target matches DentryTarget::IndexNodeId(id)
            ==> v.nodes.contains_key(id))
}

/// A directory is made under a free name of an open directory: a new inode,
/// empty and over nothing.
pub proof fn law_directory_is_made(
    v: TablesView,
    base: BaseStoreView,
    parent: u64,
    name: String,
    now: u64,
)
    requires
        v.inv(),
        no_dangling(v),
        is_open_dir(v, parent),
        has_numbers(v, parent, name@),
        has_inode_id(v),
        name@.len() > 0,
        is_free(v, base, parent, name@),
    ensures
        create_dir_after(v, base, parent, name, now) matches Ok(w) && (
        w.dentries[(parent, name@)].target matches DentryTarget::IndexNodeId(id) && new_dir_stands(
            v,
            w,
            (parent, name@),
            id,
            NodeState::DirNormal,
            None,
            now,
        )),
{
    lemma_alloc_under(
        v,
        parent,
        name,
        crate::tables::fresh_dir_record(NodeState::DirNormal, None),
        now,
    );
}

/// Asked for a directory under a name, the service finds the one that stands
/// there, or makes one where nothing stands.
pub proof fn law_directory_is_found_or_made(
    v: TablesView,
    parent: u64,
    name: String,
    now: u64,
    there: u64,
)
    requires
        v.inv(),
        no_dangling(v),
        v.inode(parent) is Some,
        has_numbers(v, parent, name@),
        has_inode_id(v),
    ensures
        v.dentries.contains_key((parent, name@)) && v.dentries[(parent, name@)].target
            == DentryTarget::IndexNodeId(there) && (v.read(there) matches Ok(Some(n))
            && is_directory(n.state)) ==> create_dir_under_after(v, parent, name, now) == Ok::<
            (TablesView, u64),
            MetaError,
        >((v, there)),
        !v.dentries.contains_key((parent, name@)) || v.dentries[(parent, name@)].target
            is Tombstone ==> (create_dir_under_after(v, parent, name, now) matches Ok((w, id))
            && new_dir_stands(
            v,
            w,
            (parent, name@),
            id,
            NodeState::DirNormal,
            None,
            now,
        )),
        v.dentries.contains_key((parent, name@)) && (v.dentries[(parent, name@)].target is ObjId
            || v.dentries[(parent, name@)].target is SymLink) ==> create_dir_under_after(
            v,
            parent,
            name,
            now,
        ) is Err,
{
    lemma_alloc_under(
        v,
        parent,
        name,
        crate::tables::fresh_dir_record(NodeState::DirNormal, None),
        now,
    );
}

/// A directory object gets an inode of its own that lies over it, in the place
/// where the object stood or showed through.
pub proof fn law_directory_is_laid_over(
    v: TablesView,
    parent: u64,
    name: String,
    dir_obj_id: ObjId,
    now: u64,
)
    requires
        v.inv(),
        no_dangling(v),
        v.inode(parent) is Some,
        has_numbers(v, parent, name@),
        has_inode_id(v),
    ensures
        materialize_after(v, parent, name, dir_obj_id, now) matches Ok((w, id)) && new_dir_stands(
            v,
            w,
            (parent, name@),
            id,
            NodeState::DirOverlay,
            Some(dir_obj_id),
            now,
        ),
{
    lemma_alloc_under(
        v,
        parent,
        name,
        crate::tables::fresh_dir_record(NodeState::DirOverlay, Some(dir_obj_id)),
        now,
    );
}

/// A name can be deleted whether or not it has an entry: what stood there is
/// hidden, and so is what would show through from the base.
pub proof fn law_name_is_deleted(v: TablesView, parent: u64, name: String, now: u64)
    requires
        v.inv(),
        v.inode(parent) is Some,
        has_numbers(v, parent, name@),
        name@.len() > 0,
    ensures
        delete_after(v, parent, name, now) matches Ok(w) && {
            let at = (parent, name@);
            &&& w.dentries.contains_key(at) && w.dentries[at].target is Tombstone
            &&& other_entries_kept(v, w, at)
            &&& v.dentries.contains_key(at) && v.dentries[at].target is Tombstone ==> w == v
            &&& forall|k: u64| #[trigger] w.nodes.contains_key(k) <==> v.nodes.contains_key(k)
            &&& w.stats == v.stats
        },
{
    let at = (parent, name@);
    if !(v.dentries.contains_key(at) && v.dentries[at].target is Tombstone) {
        lemma_upsert_works(v, parent, name, DentryTarget::Tombstone, v.rev(parent), now);
    }
}

/// Two changes of a directory can be counted.
pub open spec fn counts_up_twice(v: TablesView, dir: u64) -> bool {
    &&& counts_up(v, dir, v.rev(dir))
    &&& v.rev(dir) + 1 != 0x7fff_ffff_ffff_ffff
    &&& v.rev(dir) + 1 != 0xffff_ffff_ffff_ffff
}

/// Something stands under the name that can be moved: an entry that is not
/// deleted and, where it points to an inode, one that can be read.
pub open spec fn can_be_moved(v: TablesView, at: (u64, Seq<char>)) -> bool {
    &&& v.dentries.contains_key(at)
    &&& !(v.dentries[at].target is Tombstone)
    &&& v.dentries[at].target matches DentryTarget::IndexNodeId(id) ==> v.inode(id) is Some
}

/// An entry is moved between open directories whatever it points to, a link and
/// an object as well as an inode: the destination then points where the source
/// pointed, the source is deleted, and every other entry and all that the inodes
/// hold is as it was.
pub proof fn law_entry_is_moved(
    v: TablesView,
    src_parent: u64,
    src_name: String,
    dst_parent: u64,
    dst_name: String,
    now: u64,
)
    requires
        v.inv(),
        tree_ok(v),
        is_open_dir(v, src_parent),
        is_open_dir(v, dst_parent),
        src_name@.len() > 0,
        dst_name@.len() > 0,
        (src_parent, src_name@) != (dst_parent, dst_name@),
        can_be_moved(v, (src_parent, src_name@)),
        v.dentries[(src_parent, src_name@)].target != DentryTarget::IndexNodeId(dst_parent),
        counts_up(v, src_parent, v.rev(src_parent)),
        counts_up(v, dst_parent, v.rev(dst_parent)),
        src_parent == dst_parent ==> counts_up_twice(v, src_parent),
        v.dentries.contains_key((dst_parent, dst_name@)) || v.next_dentry < i64::MAX,
    ensures
        move_path_after(v, src_parent, src_name, dst_parent, dst_name, now) matches Ok(w) && {
            let src = (src_parent, src_name@);
            let dst = (dst_parent, dst_name@);
            &&& w.dentries.contains_key(src) && w.dentries[src].target is Tombstone
            &&& w.dentries.contains_key(dst) && same_target(
                w.dentries[dst].target,
                v.dentries[src].target,
            )
            &&& forall|k: (u64, Seq<char>)|
                k != src && k != dst ==> (#[trigger] w.dentries.contains_key(k)
                    <==> v.dentries.contains_key(k)) && (v.dentries.contains_key(k) ==> w.dentries[k]
                    == v.dentries[k])
            &&& forall|k: u64| #[trigger]
                w.nodes.contains_key(k) <==> v.nodes.contains_key(k)
            &&& forall|k: u64|
                v.nodes.contains_key(k) ==> (#[trigger] w.nodes[k]) == (crate::tables::NodeRow {
                    rev: w.nodes[k].rev,
                    ref_by: w.nodes[k].ref_by,
                    ..v.nodes[k]
                })
            &&& w.stats == v.stats
        },
{
    let src = (src_parent, src_name@);
    let dst = (dst_parent, dst_name@);
    let target = v.dentries[src].target;
    let d0 = v.dentries[src];
    assert(bound_to_target(v, d0));
    law_entry_is_redirected(
        v,
        src_parent,
        src_name@,
        DentryTarget::Tombstone,
        v.rev(src_parent),
        now,
    );
    lemma_upsert_works(v, src_parent, src_name, DentryTarget::Tombstone, v.rev(src_parent), now);
    let w = upsert_after(
        v,
        src_parent,
        src_name,
        DentryTarget::Tombstone,
        v.rev(src_parent),
        now,
    )->Ok_0;
    let rev = if src_parent == dst_parent {
        (v.rev(src_parent) + 1) as u64
    } else {
        v.rev(dst_parent)
    };
    assert(w.inv());
    assert(counts_up(w, dst_parent, rev));
    assert(w.dentries.contains_key(dst) == v.dentries.contains_key(dst));
    if let DentryTarget::IndexNodeId(id) = target {
        assert(w.nodes[id].ref_by is None);
        assert(unclaimed(w, id, dst)) by {
            assert forall|k: (u64, Seq<char>)| #[trigger]
                w.dentries.contains_key(k) && w.dentries[k].target == target implies k == dst by {
                if k != src {
                    assert(v.dentries.contains_key(k));
                    assert(bound_to_target(v, v.dentries[k]));
                }
            }
        }
    }
    if v.dentries.contains_key(dst) && same_target(v.dentries[dst].target, target) {
        assert(v.dentries.contains_key(dst) && v.dentries.contains_key(src));
        assert(bound_to_target(v, v.dentries[dst]));
        assert(!(target is IndexNodeId));
    } else {
        lemma_upsert_works(w, dst_parent, dst_name, target, rev, now);
    }
}

/// A move that cannot be made changes nothing and says so: nothing stands at the
/// source, one of the directories is none or is closed, a name is empty, or a
/// directory would go into itself.  A move onto itself is done.
pub proof fn law_impossible_moves_are_refused(
    v: TablesView,
    src_parent: u64,
    src_name: String,
    dst_parent: u64,
    dst_name: String,
    now: u64,
)
    requires
        v.inv(),
    ensures
        src_name@.len() == 0 || dst_name@.len() == 0 ==> move_path_after(
            v,
            src_parent,
            src_name,
            dst_parent,
            dst_name,
            now,
        ) is Err,
        src_name@.len() > 0 && src_parent == dst_parent && src_name@ == dst_name@
            ==> move_path_after(v, src_parent, src_name, dst_parent, dst_name, now) == Ok::<
            TablesView,
            MetaError,
        >(v),
        (src_parent, src_name@) != (dst_parent, dst_name@) && (!is_open_dir(v, src_parent)
            || !is_open_dir(v, dst_parent) || !can_be_moved(v, (src_parent, src_name@))
            || v.dentries[(src_parent, src_name@)].target == DentryTarget::IndexNodeId(dst_parent))
            ==> move_path_after(v, src_parent, src_name, dst_parent, dst_name, now) is Err,
{
}

/// A request to enter a name that is refused says why: there is no such
/// directory, it is none, it is closed, or the name is taken; and what the base
/// has is asked for where it is not known.
pub proof fn law_refused_names_say_why(
    v: TablesView,
    base: BaseStoreView,
    parent: u64,
    name: String,
    obj_id: ObjId,
    target: String,
    now: u64,
    child: ObjId,
)
    requires
        name@.len() > 0,
        target@.len() > 0,
        obj_id.obj_type@ == "cydir"@,
    ensures
        ({
            let why = if !v.nodes.contains_key(parent) {
                Some(Stop::Refused(MetaError::ParentDirNotFound))
            } else if v.read(parent) is Err {
                Some(Stop::Refused(v.read(parent)->Err_0))
            } else if !is_directory(v.inode(parent)->0.state) {
                Some(Stop::Refused(MetaError::ParentNotDir))
            } else if v.inode(parent)->0.read_only {
                Some(Stop::Refused(MetaError::ParentReadOnly))
            } else if v.dentries.contains_key((parent, name@)) {
                if v.dentries[(parent, name@)].target is Tombstone {
                    None
                } else {
                    Some(Stop::Refused(MetaError::PathExists { parent, name }))
                }
            } else if base_has(v, base, parent, name@, child) {
                Some(Stop::Refused(MetaError::PathExists { parent, name }))
            } else if v.nodes[parent].base_obj_id matches Some(o) && o.obj_type@ == "cydir"@
                && base.configured && !base.children.contains_key((o.model(), name@)) {
                Some(
                    Stop::Ask(
                        Question::BaseChild { dir: v.nodes[parent].base_obj_id->0, name },
                    ),
                )
            } else {
                None
            };
            why is Some ==> {
                &&& set_file_after(v, base, parent, name, obj_id, now) == Err::<TablesView, Stop>(
                    why->0,
                )
                &&& set_dir_after(v, base, parent, name, obj_id, now) == Err::<TablesView, Stop>(
                    why->0,
                )
                &&& symlink_after(v, base, parent, name, target, now) == Err::<TablesView, Stop>(
                    why->0,
                )
                &&& create_dir_after(v, base, parent, name, now) == Err::<TablesView, Stop>(why->0)
            }
        }),
{
}

/// A request with an empty name, an empty target or an object that is no
/// directory is refused for that.
pub proof fn law_bad_arguments_are_refused(
    v: TablesView,
    base: BaseStoreView,
    parent: u64,
    name: String,
    obj_id: ObjId,
    target: String,
    now: u64,
)
    ensures
        name@.len() == 0 ==> {
            &&& set_file_after(v, base, parent, name, obj_id, now) == Err::<TablesView, Stop>(
                Stop::Refused(MetaError::InvalidPath),
            )
            &&& set_dir_after(v, base, parent, name, obj_id, now) == Err::<TablesView, Stop>(
                Stop::Refused(MetaError::InvalidPath),
            )
            &&& symlink_after(v, base, parent, name, target, now) == Err::<TablesView, Stop>(
                Stop::Refused(MetaError::InvalidLinkPath),
            )
            &&& create_dir_after(v, base, parent, name, now) == Err::<TablesView, Stop>(
                Stop::Refused(MetaError::InvalidPath),
            )
            &&& delete_after(v, parent, name, now) == Err::<TablesView, MetaError>(
                MetaError::InvalidPath,
            )
        },
        name@.len() > 0 && target@.len() == 0 ==> symlink_after(v, base, parent, name, target, now)
            == Err::<TablesView, Stop>(Stop::Refused(MetaError::InvalidTargetPath)),
        name@.len() > 0 && obj_id.obj_type@ != "cydir"@ ==> set_dir_after(
            v,
            base,
            parent,
            name,
            obj_id,
            now,
        ) == Err::<TablesView, Stop>(Stop::Refused(MetaError::NotDirObject)),
{
}

/// A move that is refused says why.
pub proof fn law_refused_moves_say_why(
    v: TablesView,
    src_parent: u64,
    src_name: String,
    dst_parent: u64,
    dst_name: String,
    now: u64,
)
    requires
        (src_parent, src_name@) != (dst_parent, dst_name@),
        v.read(src_parent) is Ok,
        v.read(dst_parent) is Ok,
    ensures
        ({
            let r = move_path_after(v, src_parent, src_name, dst_parent, dst_name, now);
            let src = (src_parent, src_name@);
            let found = (v.inode(src_parent) matches Some(n) && is_directory(n.state)) && (v.inode(
                dst_parent,
            ) matches Some(n) && is_directory(n.state));
            let closed = v.inode(src_parent)->0.read_only || v.inode(dst_parent)->0.read_only;
            let stands = v.dentries.contains_key(src) && !(v.dentries[src].target is Tombstone) && (
            v.dentries[src].target matches DentryTarget::IndexNodeId(id) ==> v.nodes.contains_key(
                id,
            ));
            if src_name@.len() == 0 || dst_name@.len() == 0 {
                r == Err::<TablesView, MetaError>(MetaError::InvalidName)
            } else if !found {
                r == Err::<TablesView, MetaError>(MetaError::NotFound)
            } else if closed {
                r == Err::<TablesView, MetaError>(MetaError::ReadOnly)
            } else if !stands {
                r == Err::<TablesView, MetaError>(MetaError::NotFound)
            } else if v.dentries[src].target == DentryTarget::IndexNodeId(dst_parent) {
                r == Err::<TablesView, MetaError>(MetaError::InvalidName)
            } else {
                true
            }
        }),
{
}

/// What a request to enter a name answers before it looks at the tables is what it
/// answers in the end.
pub proof fn law_first_look_is_final(
    v: TablesView,
    base: BaseStoreView,
    parent: u64,
    name: String,
    obj_id: ObjId,
    target: String,
    now: u64,
)
    ensures
        set_file_seen(name@) is Some <==> name@.len() == 0,
        set_file_seen(name@) matches Some(r) ==> r is Err && set_file_after(
            v,
            base,
            parent,
            name,
            obj_id,
            now,
        ) == Err::<TablesView, Stop>(Stop::Refused(r->Err_0)) && create_dir_after(
            v,
            base,
            parent,
            name,
            now,
        ) == Err::<TablesView, Stop>(Stop::Refused(r->Err_0)),
        set_dir_seen(name@, obj_id) matches Some(r) ==> r is Err && set_dir_after(
            v,
            base,
            parent,
            name,
            obj_id,
            now,
        ) == Err::<TablesView, Stop>(Stop::Refused(r->Err_0)),
        symlink_seen(name@, target@) matches Some(r) ==> r is Err && symlink_after(
            v,
            base,
            parent,
            name,
            target,
            now,
        ) == Err::<TablesView, Stop>(Stop::Refused(r->Err_0)),
        name@.len() > 0 && obj_id.obj_type@ == "cydir"@ ==> set_dir_seen(name@, obj_id) is None,
        name@.len() > 0 && target@.len() > 0 ==> symlink_seen(name@, target@) is None,
{
}

/// The directories of a move count as unchanged exactly where both are there at
/// the revisions they were planned at.
pub proof fn law_moves_notice_changes(v: TablesView, a: (u64, u64), b: (u64, u64))
    ensures
        dirs_changed(v, a, b) is None <==> v.nodes.contains_key(a.0) && v.rev(a.0) == a.1 && (a.0
            == b.0 || (v.nodes.contains_key(b.0) && v.rev(b.0) == b.1)),
        v.nodes.contains_key(a.0) && v.nodes.contains_key(b.0) && dirs_changed(v, a, b) is Some
            ==> dirs_changed(v, a, b) == Some(MetaError::Conflict),
{
}

} // verus!
