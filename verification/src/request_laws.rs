//! What requests on names and files leave in the service, and what requests
//! after them find there.

use vstd::prelude::*;
use crate::cache_laws::{cache_true, law_reading_tells_the_tables};
use crate::committed::{installs, settled};
use crate::dir_path_laws::{law_existing_directory_is_found, law_root_is_found};
use crate::ensure::{dir_answer_is, ensures_dir, DirAnswer, When};
use crate::entry_laws::{
    can_be_moved, counts_up_twice, has_inode_id, has_numbers, is_directory, is_free, is_open_dir,
    law_dir_object_is_entered, law_directory_is_made, law_entry_is_moved, law_file_is_entered,
    law_first_look_is_final, law_link_is_entered, law_name_is_deleted, new_dir_stands, no_dangling,
    now_stands,
};
use crate::errors::MetaError;
use crate::finalize::{finishes, may_finish, FinalizePlan, FinalizeStep};
use crate::handlers::{
    carries_out, deletes, ends_writing, enters_dir, enters_file, enters_link, makes_dir, makes_plan,
    makes_way, moves_entry, opens_reader, reclaims, removes_inode,
};
use crate::lease_laws::{is_clock_time, law_reclaiming_keeps_the_rest};
use crate::listing::is_entries;
use crate::outside::Stop;
use crate::path_cache::Path;
use crate::paths::path_parts;
use crate::plan_laws::{
    is_planned_from, law_planned_object_is_put_in_place, law_stale_plan_is_refused,
};
use crate::records::{
    same_target, state_cols, DentryRecord, DentryTarget, FileCoolingState, FsMetaResolvePathItem,
    NodeState, ObjId, OpenFileReaderResp,
};
use crate::resolve::{reader_is, resolves, Answer, RespView};
use crate::service::{FSMetaService, ServiceRest, ServiceView};
use crate::table::Key;
use crate::table_laws::{counts_up, other_entries_kept};
use crate::tables::TablesView;
use crate::text::view_all;
use crate::tree::tree_ok;
use crate::txn_laws::has_no_txn;
use crate::walk_laws::{
    law_deleted_entry_ends_the_path, law_path_leads_to_the_inode, leads_through,
};
use crate::writer::{BufferAnswers, HandleAnswer};
use crate::writer_laws::law_writer_is_closed;

verus! {

pub proof fn lemma_idle_has_no_txn(s: ServiceView)
    ensures
        !s.busy() <==> has_no_txn(s),
{
    if !s.busy() {
        assert(s.txns =~= Map::empty());
    }
}

/// A file can be entered under a free name of an open directory while no
/// transaction is open; where it is not entered nothing changes, and a request
/// that meets an open transaction is refused.
pub proof fn law_entered_file_stands(
    a: FSMetaService,
    parent: u64,
    name: String,
    obj_id: ObjId,
    now: u64,
    b: FSMetaService,
    r: Result<String, Stop>,
)
    requires
        a@.tables.inv(),
        enters_file(a, parent, name, obj_id, now, b, r),
    ensures
        ({
            let v = a@.tables;
            let w = b@.tables;
            &&& has_no_txn(a@) && is_open_dir(v, parent) && has_numbers(v, parent, name@)
                && name@.len() > 0 && is_free(v, a.rest.base@, parent, name@) && (
            v.stats.contains_key(obj_id.model()) ==> v.stats[obj_id.model()].ref_count < i64::MAX)
                ==> {
                &&& r is Ok
                &&& now_stands(v, w, (parent, name@), DentryTarget::ObjId(obj_id), now)
                &&& w.stats.contains_key(obj_id.model())
                &&& w.stats[obj_id.model()].ref_count == if v.stats.contains_key(obj_id.model()) {
                    v.stats[obj_id.model()].ref_count + 1
                } else {
                    1
                }
            }
            &&& r is Err ==> b@ == a@
            &&& r matches Ok(text) ==> has_no_txn(a@) && text@.len() == 0
            &&& b@.txns == a@.txns && b.rest == a.rest
        }),
{
    let v = a@.tables;
    lemma_idle_has_no_txn(a@);
    law_first_look_is_final(v, a.rest.base@, parent, name, obj_id, name, now);
    if has_no_txn(a@) && is_open_dir(v, parent) && has_numbers(v, parent, name@) && name@.len() > 0
        && is_free(v, a.rest.base@, parent, name@) && (v.stats.contains_key(obj_id.model())
        ==> v.stats[obj_id.model()].ref_count < i64::MAX) {
        law_file_is_entered(v, a.rest.base@, parent, name, obj_id, now);
    }
}

/// A directory object can be entered under a free name of an open directory while
/// no transaction is open, and nothing else can be entered as a directory; where
/// it is not entered nothing changes.
pub proof fn law_entered_dir_stands(
    a: FSMetaService,
    parent: u64,
    name: String,
    obj_id: ObjId,
    now: u64,
    b: FSMetaService,
    r: Result<String, Stop>,
)
    requires
        a@.tables.inv(),
        enters_dir(a, parent, name, obj_id, now, b, r),
    ensures
        ({
            let v = a@.tables;
            let w = b@.tables;
            &&& has_no_txn(a@) && is_open_dir(v, parent) && has_numbers(v, parent, name@)
                && name@.len() > 0 && is_free(v, a.rest.base@, parent, name@) ==> {
                &&& r is Ok <==> obj_id.obj_type@ == "cydir"@
                &&& r is Ok ==> now_stands(
                    v,
                    w,
                    (parent, name@),
                    DentryTarget::ObjId(obj_id),
                    now,
                ) && w.stats == v.stats
            }
            &&& r is Err ==> b@ == a@
            &&& r matches Ok(text) ==> has_no_txn(a@) && text@.len() == 0
            &&& b@.txns == a@.txns && b.rest == a.rest
        }),
{
    let v = a@.tables;
    lemma_idle_has_no_txn(a@);
    law_first_look_is_final(v, a.rest.base@, parent, name, obj_id, name, now);
    if has_no_txn(a@) && is_open_dir(v, parent) && has_numbers(v, parent, name@) && name@.len() > 0
        && is_free(v, a.rest.base@, parent, name@) {
        law_dir_object_is_entered(v, a.rest.base@, parent, name, obj_id, now);
    }
}

/// A link can be entered under a free name of an open directory while no
/// transaction is open, with the very path it was given; where it is not entered
/// nothing changes.
pub proof fn law_entered_link_stands(
    a: FSMetaService,
    parent: u64,
    name: String,
    target: String,
    now: u64,
    b: FSMetaService,
    r: Result<(), Stop>,
)
    requires
        a@.tables.inv(),
        enters_link(a, parent, name, target, now, b, r),
    ensures
        ({
            let v = a@.tables;
            let w = b@.tables;
            &&& has_no_txn(a@) && is_open_dir(v, parent) && has_numbers(v, parent, name@)
                && name@.len() > 0 && target@.len() > 0 && is_free(
                v,
                a.rest.base@,
                parent,
                name@,
            ) ==> {
                &&& r is Ok
                &&& now_stands(v, w, (parent, name@), DentryTarget::SymLink(target), now)
                &&& w.stats == v.stats
            }
            &&& r is Err ==> b@ == a@
            &&& r is Ok ==> has_no_txn(a@)
            &&& b@.txns == a@.txns && b.rest == a.rest
        }),
{
    let v = a@.tables;
    lemma_idle_has_no_txn(a@);
    law_first_look_is_final(v, a.rest.base@, parent, name, arbitrary(), target, now);
    if has_no_txn(a@) && is_open_dir(v, parent) && has_numbers(v, parent, name@) && name@.len() > 0
        && target@.len() > 0 && is_free(v, a.rest.base@, parent, name@) {
        law_link_is_entered(v, a.rest.base@, parent, name, target, now);
    }
}

/// A directory can be made under a free name of an open directory while no
/// transaction is open: a new inode, empty and over nothing; where it is not made
/// nothing changes.
pub proof fn law_made_dir_stands(
    a: FSMetaService,
    parent: u64,
    name: String,
    now: u64,
    b: FSMetaService,
    r: Result<(), Stop>,
)
    requires
        a@.tables.inv(),
        makes_dir(a, parent, name, now, b, r),
    ensures
        ({
            let v = a@.tables;
            let w = b@.tables;
            &&& has_no_txn(a@) && no_dangling(v) && is_open_dir(v, parent) && has_numbers(
                v,
                parent,
                name@,
            ) && has_inode_id(v) && name@.len() > 0 && is_free(v, a.rest.base@, parent, name@) ==> {
                &&& r is Ok
                &&& w.dentries[(parent, name@)].target matches DentryTarget::IndexNodeId(id)
                &&& new_dir_stands(v, w, (parent, name@), id, NodeState::DirNormal, None, now)
            }
            &&& r is Err ==> b@ == a@
            &&& r is Ok ==> has_no_txn(a@)
            &&& b@.txns == a@.txns && b.rest == a.rest
        }),
{
    let v = a@.tables;
    lemma_idle_has_no_txn(a@);
    law_first_look_is_final(v, a.rest.base@, parent, name, arbitrary(), name, now);
    if has_no_txn(a@) && no_dangling(v) && is_open_dir(v, parent) && has_numbers(v, parent, name@)
        && has_inode_id(v) && name@.len() > 0 && is_free(v, a.rest.base@, parent, name@) {
        law_directory_is_made(v, a.rest.base@, parent, name, now);
        let id = b@.tables.dentries[(parent, name@)].target->IndexNodeId_0;
        assert(b@.tables.read(id) == crate::ops::create_dir_after(
            v,
            a.rest.base@,
            parent,
            name,
            now,
        )->Ok_0.read(id));
    }
}

/// An entry can be moved between open directories while no transaction is open,
/// a link and an object as well as an inode: the destination then points where
/// the source pointed and the source is deleted; where it is not moved nothing
/// changes.
pub proof fn law_moved_entry_stands(
    a: FSMetaService,
    src_parent: u64,
    src_name: String,
    dst_parent: u64,
    dst_name: String,
    now: u64,
    b: FSMetaService,
    r: Result<(), Stop>,
)
    requires
        a@.tables.inv(),
        tree_ok(a@.tables),
        has_no_txn(a@),
        moves_entry(a, src_parent, src_name, dst_parent, dst_name, now, b, r),
    ensures
        ({
            let v = a@.tables;
            let w = b@.tables;
            let src = (src_parent, src_name@);
            let dst = (dst_parent, dst_name@);
            &&& is_open_dir(v, src_parent) && is_open_dir(v, dst_parent) && src_name@.len() > 0
                && dst_name@.len() > 0 && src != dst && can_be_moved(v, src)
                && v.dentries[src].target != DentryTarget::IndexNodeId(dst_parent) && counts_up(
                v,
                src_parent,
                v.rev(src_parent),
            ) && counts_up(v, dst_parent, v.rev(dst_parent)) && (src_parent == dst_parent
                ==> counts_up_twice(v, src_parent)) && (v.dentries.contains_key(dst)
                || v.next_dentry < i64::MAX) ==> {
                &&& r is Ok
                &&& w.dentries.contains_key(src) && w.dentries[src].target is Tombstone
                &&& w.dentries.contains_key(dst) && same_target(
                    w.dentries[dst].target,
                    v.dentries[src].target,
                )
                &&& forall|k: (u64, Seq<char>)|
                    k != src && k != dst ==> (#[trigger] w.dentries.contains_key(k)
                        <==> v.dentries.contains_key(k)) && (v.dentries.contains_key(k)
                        ==> w.dentries[k] == v.dentries[k])
            }
            &&& r is Err ==> b@ == a@
            &&& b@.txns == a@.txns && b.rest == a.rest
        }),
{
    let v = a@.tables;
    let src = (src_parent, src_name@);
    let dst = (dst_parent, dst_name@);
    lemma_idle_has_no_txn(a@);
    if is_open_dir(v, src_parent) && is_open_dir(v, dst_parent) && src_name@.len() > 0
        && dst_name@.len() > 0 && src != dst && can_be_moved(v, src) && v.dentries[src].target
        != DentryTarget::IndexNodeId(dst_parent) && counts_up(v, src_parent, v.rev(src_parent))
        && counts_up(v, dst_parent, v.rev(dst_parent)) && (src_parent == dst_parent
        ==> counts_up_twice(v, src_parent)) && (v.dentries.contains_key(dst) || v.next_dentry
        < i64::MAX) {
        law_entry_is_moved(v, src_parent, src_name, dst_parent, dst_name, now);
    }
}

/// A name of a directory can be deleted while no transaction is open, whatever
/// stands there, and no other entry changes; where it is not deleted nothing does.
pub proof fn law_deleted_name_is_gone(
    a: FSMetaService,
    parent: u64,
    name: String,
    now: u64,
    b: FSMetaService,
    r: Result<(), Stop>,
)
    requires
        a@.tables.inv(),
        has_no_txn(a@),
        deletes(a@, parent, name, now, b@, r),
    ensures
        ({
            let v = a@.tables;
            let w = b@.tables;
            &&& v.inode(parent) is Some && has_numbers(v, parent, name@) && name@.len() > 0 ==> {
                &&& r is Ok
                &&& w.dentries.contains_key((parent, name@))
                &&& w.dentries[(parent, name@)].target is Tombstone
                &&& other_entries_kept(v, w, (parent, name@))
            }
            &&& r is Err ==> b@ == a@
            &&& b@.txns == a@.txns
        }),
{
    let v = a@.tables;
    lemma_idle_has_no_txn(a@);
    if v.inode(parent) is Some && has_numbers(v, parent, name@) && name@.len() > 0 {
        law_name_is_deleted(v, parent, name, now);
    }
}

/// A name that is deleted already can be deleted again even while a transaction
/// is open; any other cannot.
pub proof fn law_deleting_waits_for_transactions(
    a: FSMetaService,
    parent: u64,
    name: String,
    now: u64,
    b: FSMetaService,
    r: Result<(), Stop>,
)
    requires
        !has_no_txn(a@),
        deletes(a@, parent, name, now, b@, r),
    ensures
        r is Ok <==> name@.len() > 0 && (a@.tables.read(parent) matches Ok(Some(_)))
            && a@.tables.dentries.contains_key((parent, name@)) && a@.tables.dentries[(
            parent,
            name@,
        )].target is Tombstone,
        b@ == a@,
{
    lemma_idle_has_no_txn(a@);
}

/// A writer that is done leaves its file cooling in its buffer, where readers of
/// the path then find it.
pub proof fn law_closed_file_is_read_from_its_buffer(
    a: FSMetaService,
    id: u64,
    found: HandleAnswer,
    closed: HandleAnswer,
    answers: BufferAnswers,
    handle: String,
    now: u64,
    b: FSMetaService,
    r: Result<(), Stop>,
    p: Path,
    ids: Seq<u64>,
    c: FSMetaService,
    opened: Result<OpenFileReaderResp, Stop>,
)
    requires
        a@.tables.inv(),
        has_no_txn(a@),
        a.rest.has_buffer,
        a@.tables.inode(id) matches Some(n) && ((n.state matches NodeState::Working(s)
            && s.fb_handle == handle) || (n.state matches NodeState::Cooling(s) && s.fb_handle
            == handle)),
        a@.tables.nodes[id].cols == state_cols(a@.tables.inode(id)->0.state),
        answers.found == Some(found),
        answers.closed == Some(closed),
        found.handle@ == handle@ && found.said is Ok,
        closed.handle@ == handle@ && closed.said is Ok,
        ends_writing(a, id, answers, now, b, r),
        leads_to(b@.tables, p, ids, DentryTarget::IndexNodeId(id)),
        cache_true(b),
        opens_reader(b, p, c, opened),
    ensures
        r is Ok,
        b@.tables.inode(id) matches Some(n) && n.state == NodeState::Cooling(
            FileCoolingState { fb_handle: handle, closed_at: now },
        ),
        opened == Ok::<OpenFileReaderResp, Stop>(OpenFileReaderResp::FileBufferId(handle)),
{
    lemma_idle_has_no_txn(a@);
    law_writer_is_closed(a@.tables, id, found, closed, handle, now);
    let w = crate::writer::close_writer_after(
        a@.tables,
        id,
        true,
        Some(found),
        Some(closed),
        now,
    )->Ok_0;
    assert(b@.tables.read(id) == w.read(id));
    law_reader_is_sent_to_the_content(b, p, ids, id, c, opened);
}

/// The last component of the path has an entry with this target, and the others
/// lead there from the root.
pub open spec fn leads_to(v: TablesView, p: Path, ids: Seq<u64>, target: DentryTarget) -> bool {
    &&& leads_through(v, p, p.len() - 1, ids)
    &&& v.dentries.contains_key((ids.last(), p.last()))
    &&& v.dentries[(ids.last(), p.last())].target == target
}

/// Whoever opens the path of an inode is sent to its buffer while it has one, to
/// the object it was published as once it was, whatever it lies over, and else to
/// the object it lies over; a directory is not opened.
pub proof fn law_reader_is_sent_to_the_content(
    a: FSMetaService,
    p: Path,
    ids: Seq<u64>,
    id: u64,
    b: FSMetaService,
    r: Result<OpenFileReaderResp, Stop>,
)
    requires
        cache_true(a),
        leads_to(a@.tables, p, ids, DentryTarget::IndexNodeId(id)),
        opens_reader(a, p, b, r),
    ensures
        a@.tables.read(id) matches Ok(Some(n)) ==> match n.state {
            NodeState::Working(s) => r == Ok::<OpenFileReaderResp, Stop>(
                OpenFileReaderResp::FileBufferId(s.fb_handle),
            ),
            NodeState::Cooling(s) => r == Ok::<OpenFileReaderResp, Stop>(
                OpenFileReaderResp::FileBufferId(s.fb_handle),
            ),
            NodeState::Linked(s) => s.obj_id.obj_type@ != "cydir"@ ==> r == Ok::<
                OpenFileReaderResp,
                Stop,
            >(OpenFileReaderResp::Object(s.obj_id, None)),
            NodeState::Finalized(s) => s.obj_id.obj_type@ != "cydir"@ ==> r == Ok::<
                OpenFileReaderResp,
                Stop,
            >(OpenFileReaderResp::Object(s.obj_id, None)),
            NodeState::FileNormal => match n.base_obj_id {
                Some(o) => r == Ok::<OpenFileReaderResp, Stop>(
                    OpenFileReaderResp::Object(o, None),
                ),
                None => r is Err,
            },
            _ => true,
        },
        a@.tables.read(id) matches Ok(Some(n)) ==> (is_directory(n.state) ==> r == Err::<
            OpenFileReaderResp,
            Stop,
        >(Stop::Refused(MetaError::PathIsDir))),
        !a@.tables.nodes.contains_key(id) ==> r == Err::<OpenFileReaderResp, Stop>(
            Stop::Refused(MetaError::PathNotFound),
        ),
        b@ == (ServiceView { cache: b@.cache, ..a@ }),
{
    let v = a@.tables;
    let base = a.rest.base@;
    let x = choose|x: Answer| #[trigger]
        resolves(v, base, a@.cache, p, 0, b@.cache, x) && reader_is(r, x);
    law_reading_tells_the_tables(a@, base, p, 0, b@, x);
    law_path_leads_to_the_inode(v, base, p, ids, id, 0);
}

/// A path whose entry was deleted cannot be opened, and neither can the root.
pub proof fn law_deleted_file_is_not_read(
    a: FSMetaService,
    p: Path,
    ids: Seq<u64>,
    b: FSMetaService,
    r: Result<OpenFileReaderResp, Stop>,
)
    requires
        cache_true(a),
        opens_reader(a, p, b, r),
    ensures
        leads_to(a@.tables, p, ids, DentryTarget::Tombstone) ==> r == Err::<
            OpenFileReaderResp,
            Stop,
        >(Stop::Refused(MetaError::PathNotFound)),
        p.len() == 0 ==> r == Err::<OpenFileReaderResp, Stop>(
            Stop::Refused(MetaError::PathIsDir),
        ),
{
    let v = a@.tables;
    let base = a.rest.base@;
    if leads_to(v, p, ids, DentryTarget::Tombstone) {
        let x = choose|x: Answer| #[trigger]
            resolves(v, base, a@.cache, p, 0, b@.cache, x) && reader_is(r, x);
        law_reading_tells_the_tables(a@, base, p, 0, b@, x);
        law_deleted_entry_ends_the_path(v, base, p, p.len() - 1, ids, 0);
    }
}

/// An inode that is not the root can be removed, by an open transaction or while
/// there is none; it is then gone and no other inode is.
pub proof fn law_removed_inode_is_not_got(
    s: ServiceView,
    txid: Option<Seq<char>>,
    id: u64,
    now: u64,
    t: ServiceView,
    r: Result<(), MetaError>,
    k: u64,
)
    requires
        removes_inode(s, txid, id, now, t, r),
    ensures
        txid is None && has_no_txn(s) && id != s.tables.root && s.tables.nodes.contains_key(id)
            ==> {
            &&& r is Ok
            &&& t.tables.nodes.contains_key(k) <==> s.tables.nodes.contains_key(k) && k != id
            &&& k != id ==> t.tables.nodes[k] == s.tables.nodes[k]
            &&& t.tables.dentries == s.tables.dentries
        },
        (txid matches Some(x) && s.txns.contains_key(x) && !s.txns[x].closing) && id
            != s.tables.root && id != s.txns[txid->0].tables.root
            && s.txns[txid->0].tables.nodes.contains_key(id) ==> {
            &&& r is Ok
            &&& t.tables == s.tables
            &&& t.txns.contains_key(txid->0)
            &&& t.txns[txid->0].tables.nodes == s.txns[txid->0].tables.nodes.remove(id)
            &&& t.txns[txid->0].tables.dentries == s.txns[txid->0].tables.dentries
        },
        id == s.tables.root ==> r is Err && t == s,
        txid is None && r is Err ==> t == s,
{
    lemma_idle_has_no_txn(s);
}

/// The directory at a path that leads to one is found, and the root at the empty
/// path; a file is no directory.  Nothing but the cache changes on the way.
pub proof fn law_directory_at_a_path_is_found(
    a: FSMetaService,
    path: Seq<char>,
    ids: Seq<u64>,
    id: u64,
    now: u64,
    b: FSMetaService,
    r: Result<u64, Stop>,
)
    requires
        cache_true(a),
        makes_way(a, path, now, b, r),
    ensures
        path_parts(path).len() == 0 ==> r == Ok::<u64, Stop>(a@.tables.root) && b@ == a@,
        leads_to(a@.tables, path_parts(path), ids, DentryTarget::IndexNodeId(id)) && (
        a@.tables.read(id) matches Ok(Some(n)) && is_directory(n.state)) ==> r == Ok::<u64, Stop>(
            id,
        ) && b@.tables == a@.tables,
        leads_to(a@.tables, path_parts(path), ids, DentryTarget::IndexNodeId(id)) && (
        a@.tables.read(id) matches Ok(Some(n)) && !is_directory(n.state)) ==> r is Err && b@.tables
            == a@.tables,
        b@.txns == a@.txns && b.rest == a.rest,
{
    let v = a@.tables;
    let base = a.rest.base@;
    let at = When { now, locked: a@.busy() };
    let x = choose|x: DirAnswer| #[trigger]
        ensures_dir(v, a@.cache, base, path, at, b@.tables, b@.cache, x) && dir_answer_is(r, x);
    if path_parts(path).len() == 0 {
        law_root_is_found(v, a@.cache, base, path, at, b@.tables, b@.cache, x);
    }
    if leads_to(v, path_parts(path), ids, DentryTarget::IndexNodeId(id)) && v.read(id) is Ok && v.read(
        id,
    )->Ok_0 is Some {
        let found = RespView {
            item: FsMetaResolvePathItem::Inode { inode_id: id, inode: v.read(id)->Ok_0->0 },
            inner: None,
        };
        law_path_leads_to_the_inode(v, base, path_parts(path), ids, id, 40);
        law_existing_directory_is_found(
            v,
            a@.cache,
            base,
            path,
            found,
            at,
            b@.tables,
            b@.cache,
            x,
        );
    }
}

/// Taking back leases frees every inode whose lease has ended and leaves the
/// others as they are; it is refused while a transaction is open.
pub proof fn law_ended_leases_are_taken_back(
    s: ServiceView,
    now: u64,
    t: ServiceView,
    r: Result<usize, MetaError>,
    id: u64,
)
    requires
        s.tables.inv(),
        is_clock_time(now),
        reclaims(s, now, t, r),
    ensures
        r is Ok <==> has_no_txn(s),
        r is Err ==> t == s,
        t.txns == s.txns,
        r is Ok && s.tables.nodes.contains_key(id) ==> t.tables.nodes.contains_key(id) && match s.tables.nodes[id].lease_expire_at {
            Some(end) => if end <= now {
                t.tables.nodes[id].lease_client_session is None
                    && t.tables.nodes[id].lease_expire_at is None
            } else {
                t.tables.nodes[id] == s.tables.nodes[id]
            },
            None => t.tables.nodes[id] == s.tables.nodes[id],
        },
        t.tables.dentries == s.tables.dentries,
{
    lemma_idle_has_no_txn(s);
    law_reclaiming_keeps_the_rest(s.tables, now, id);
}

/// The paths that a plan waits for join the end of the queue in the order in
/// which they were named, and a plan that waits for none leaves the queue alone.
pub proof fn law_waited_for_paths_are_queued(
    a: FSMetaService,
    path: Seq<char>,
    now: u64,
    b: FSMetaService,
    r: Result<FinalizeStep, Stop>,
    i: int,
)
    requires
        makes_plan(a, path, now, b, r),
    ensures
        ({
            let q = a.rest.finalize_queue@;
            let t = b.rest.finalize_queue@;
            &&& 0 <= i < q.len() ==> i < t.len() && t[i]@ == q[i]@
            &&& match r {
                Ok(FinalizeStep::Queue(paths)) => t.len() == q.len() + paths@.len() && (0 <= i
                    < paths@.len() ==> t[q.len() + i]@ == paths@[i]@),
                _ => t.len() == q.len(),
            }
            &&& b.rest == (ServiceRest { finalize_queue: b.rest.finalize_queue, ..a.rest })
            &&& b@.txns == a@.txns
        }),
{
    let q = a.rest.finalize_queue@;
    let t = b.rest.finalize_queue@;
    let joined = view_all(t);
    assert(joined.len() == t.len() && view_all(q).len() == q.len());
    if 0 <= i < q.len() {
        assert(joined[i] == view_all(q)[i]);
        assert(joined[i] == t[i]@);
    }
    if let Ok(FinalizeStep::Queue(paths)) = r {
        assert(view_all(paths@).len() == paths@.len());
        if 0 <= i < paths@.len() {
            assert(joined[q.len() + i] == view_all(paths@)[i]);
            assert(joined[q.len() + i] == t[q.len() + i]@);
        }
    }
}

/// The object that was built for a directory takes its place as long as nothing
/// has changed since it was planned, and no transaction is open; a plan that is
/// out of date changes nothing.
pub proof fn law_built_object_takes_its_place(
    a: FSMetaService,
    plan: FinalizePlan,
    obj: ObjId,
    now: u64,
    b: FSMetaService,
    r: Result<bool, MetaError>,
)
    requires
        a@.tables.inv(),
        tree_ok(a@.tables),
        carries_out(a, plan, obj, now, b, r),
        plan.parent != plan.dir,
        plan.dir != a@.tables.root,
        counts_up(a@.tables, plan.parent, plan.parent_rev),
        forall|es: Seq<DentryRecord>| #[trigger]
            is_entries(a@.tables, plan.dir, es) ==> plan.dir_rev + es.len() <= i64::MAX,
        forall|name: Seq<char>|
            (#[trigger] a@.tables.dentry(plan.dir, name)) matches Some(e) ==> e.target
                != DentryTarget::IndexNodeId(a@.tables.root),
        a@.tables.inode(plan.parent) matches Some(p) && is_directory(p.state),
    ensures
        has_no_txn(a@) && is_planned_from(
            a@.tables,
            plan.parent,
            plan.name@,
            plan.dir,
            plan.parent_rev,
            plan.dir_rev,
        ) ==> r == Ok::<bool, MetaError>(true) && (b@.tables.dentry(plan.parent, plan.name@)
            matches Some(d) && d.target == DentryTarget::ObjId(obj) && d.mtime == Some(now)),
        !is_planned_from(
            a@.tables,
            plan.parent,
            plan.name@,
            plan.dir,
            plan.parent_rev,
            plan.dir_rev,
        ) ==> b@ == a@,
        !has_no_txn(a@) ==> r is Err,
        r is Err ==> b@ == a@,
{
    let v = a@.tables;
    lemma_idle_has_no_txn(a@);
    if has_no_txn(a@) {
        let fresh = is_planned_from(
            v,
            plan.parent,
            plan.name@,
            plan.dir,
            plan.parent_rev,
            plan.dir_rev,
        );
        match r {
            Err(e) => {
                if fresh {
                    law_planned_object_is_put_in_place(v, plan, obj, now, Err(e));
                }
            },
            Ok(_) => {
                if may_finish(v, plan) == Ok::<bool, MetaError>(false) {
                    if fresh {
                        law_planned_object_is_put_in_place(v, plan, obj, now, Ok(None));
                    }
                } else {
                    let x = choose|x: TablesView| #[trigger]
                        finishes(v, plan, obj, now, Ok(Some(x))) && b.store.tables@ == settled(x)
                            && installs(a.store.cache@, x, b.store.cache@);
                    if fresh {
                        law_planned_object_is_put_in_place(v, plan, obj, now, Ok(Some(x)));
                        assert(b@.tables.dentry(plan.parent, plan.name@) == x.dentry(
                            plan.parent,
                            plan.name@,
                        ));
                    } else {
                        law_stale_plan_is_refused(v, plan, obj, now, Ok(Some(x)));
                    }
                }
            },
        }
    }
}

} // verus!
