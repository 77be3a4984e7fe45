//! What one call to the service leaves for the next.

use vstd::prelude::*;
use crate::errors::MetaError;
use crate::handlers::opens;
use crate::lease_laws::{free_at, is_clock_time, leased_until, moment_after};
use crate::list_cache::{lemma_passed_at, next_page};
use crate::listing::{has_name, has_unreadable, listable, shows, unreadable_with};
use crate::moves::{move_path_after, move_path_seen};
use crate::names::{in_order, NameMap};
use crate::ops::{delete_after, delete_seen};
use crate::outside::Stop;
use crate::records::{
    law_state_columns_round_trip, same_target, state_cols, DentryRecord, DentryTarget,
    FileWorkingState, FsMetaListEntry, NodeRecord, NodeState, ObjId, ObjStat,
};
use crate::requests::{
    FsMetaAcquireFileLeaseReq, FsMetaAllocInodeReq, FsMetaBumpDirRevReq, FsMetaCreateDentryReq,
    FsMetaDeleteDentryReq, FsMetaGetDentryReq, FsMetaGetInodeReq, FsMetaListDentriesReq,
    FsMetaListNextReq, FsMetaObjStatBumpReq, FsMetaObjStatDeleteIfZeroReq, FsMetaObjStatGetReq,
    FsMetaOpenFileWriterReq, FsMetaReplaceTargetReq, FsMetaSetInodeReq, FsMetaStartListReq,
    FsMetaStopListReq, FsMetaUpdateInodeStateReq,
};
use crate::rpc::{serves, RpcCall, Served};
use crate::service::FSMetaService;
use crate::table::Key;
use crate::tables::{
    create_dentry_after, create_dentry_seen, delete_dentry_after, delete_dentry_seen,
    law_record_row_round_trip, replace_target_after, replace_target_seen, TablesView,
};
use crate::text::text_lt;
use crate::writer::{is_writer, start_writer, writer_target, BufferAnswers, Writer};
use crate::writer_laws::{law_chosen_inode_stands_under_the_name, law_started_writer_is_at_work};

verus! {

/// The tables that requests of the transaction work on are in order.
pub open spec fn tables_in_order(a: FSMetaService, txid: Option<String>) -> bool {
    match txid {
        None => a@.tables.inv(),
        Some(id) => a@.txns[id@].tables.inv(),
    }
}

/// An inode that was written is read back as it was written, inside the same
/// transaction or outside of any.
pub proof fn law_written_inode_is_got(
    a: FSMetaService,
    node: NodeRecord,
    txid: Option<String>,
    x: BufferAnswers,
    now: u64,
    b: FSMetaService,
    later: u64,
    c: FSMetaService,
    r: Result<Option<NodeRecord>, MetaError>,
)
    requires
        serves(
            a,
            RpcCall::SetInode(FsMetaSetInodeReq { node, txid }),
            x,
            now,
            b,
            Served::Done(Ok(())),
        ),
        serves(
            b,
            RpcCall::GetInode(FsMetaGetInodeReq { id: node.inode_id, txid }),
            x,
            later,
            c,
            Served::Inode(r),
        ),
    ensures
        r == Ok::<Option<NodeRecord>, MetaError>(Some(node)),
{
    law_record_row_round_trip(node, node.inode_id);
}

/// A state that an inode was moved on to is the state it is read with.
pub proof fn law_new_state_is_got(
    a: FSMetaService,
    node_id: u64,
    new_state: NodeState,
    old_state: NodeState,
    txid: Option<String>,
    x: BufferAnswers,
    now: u64,
    b: FSMetaService,
    later: u64,
    c: FSMetaService,
    r: Result<Option<NodeRecord>, MetaError>,
)
    requires
        tables_in_order(a, txid),
        serves(
            a,
            RpcCall::UpdateInodeState(
                FsMetaUpdateInodeStateReq { node_id, new_state, old_state, txid },
            ),
            x,
            now,
            b,
            Served::Done(Ok(())),
        ),
        serves(
            b,
            RpcCall::GetInode(FsMetaGetInodeReq { id: node_id, txid }),
            x,
            later,
            c,
            Served::Inode(r),
        ),
        r matches Ok(Some(_)),
    ensures
        r->Ok_0->0.state == new_state,
{
    law_state_columns_round_trip(new_state);
}

/// A new inode is found under the id that was given out for it, as it was handed
/// in.
pub proof fn law_new_inode_is_got(
    a: FSMetaService,
    node: NodeRecord,
    txid: Option<String>,
    x: BufferAnswers,
    now: u64,
    id: u64,
    b: FSMetaService,
    later: u64,
    c: FSMetaService,
    r: Result<Option<NodeRecord>, MetaError>,
)
    requires
        serves(
            a,
            RpcCall::AllocInode(FsMetaAllocInodeReq { node, txid }),
            x,
            now,
            b,
            Served::Id(Ok(id)),
        ),
        serves(
            b,
            RpcCall::GetInode(FsMetaGetInodeReq { id, txid }),
            x,
            later,
            c,
            Served::Inode(r),
        ),
    ensures
        r == Ok::<Option<NodeRecord>, MetaError>(Some(NodeRecord { inode_id: id, ..node })),
        node.inode_id != 0 ==> id == node.inode_id,
{
    law_record_row_round_trip(node, id);
}

/// An entry that was made is found, with the target it was given.
pub proof fn law_made_entry_is_got(
    a: FSMetaService,
    parent: u64,
    name: String,
    target: DentryTarget,
    expected_parent_rev: u64,
    txid: Option<String>,
    x: BufferAnswers,
    now: u64,
    b: FSMetaService,
    later: u64,
    c: FSMetaService,
    r: Result<Option<DentryRecord>, MetaError>,
)
    requires
        serves(
            a,
            RpcCall::CreateDentry(
                FsMetaCreateDentryReq { parent, name, target, expected_parent_rev, txid },
            ),
            x,
            now,
            b,
            Served::Done(Ok(())),
        ),
        serves(
            b,
            RpcCall::GetDentry(FsMetaGetDentryReq { parent, name, txid }),
            x,
            later,
            c,
            Served::Dentry(r),
        ),
    ensures
        r matches Ok(Some(d)) && d.target == target && d.parent == parent && d.name == name
            && d.mtime == Some(now),
{
}

/// An entry that was taken away is not found.
pub proof fn law_taken_entry_is_not_got(
    a: FSMetaService,
    parent: u64,
    name: String,
    expected_parent_rev: u64,
    txid: Option<String>,
    x: BufferAnswers,
    now: u64,
    b: FSMetaService,
    later: u64,
    c: FSMetaService,
    r: Result<Option<DentryRecord>, MetaError>,
)
    requires
        serves(
            a,
            RpcCall::DeleteDentry(
                FsMetaDeleteDentryReq { parent, name, expected_parent_rev, txid },
            ),
            x,
            now,
            b,
            Served::Done(Ok(())),
        ),
        serves(
            b,
            RpcCall::GetDentry(FsMetaGetDentryReq { parent, name, txid }),
            x,
            later,
            c,
            Served::Dentry(r),
        ),
    ensures
        r == Ok::<Option<DentryRecord>, MetaError>(None),
{
}

/// An entry that was pointed elsewhere is found to point there.
pub proof fn law_new_target_is_got(
    a: FSMetaService,
    q: FsMetaReplaceTargetReq,
    x: BufferAnswers,
    now: u64,
    b: FSMetaService,
    later: u64,
    c: FSMetaService,
    r: Result<Option<DentryRecord>, MetaError>,
)
    requires
        serves(a, RpcCall::ReplaceTarget(q), x, now, b, Served::Done(Ok(()))),
        serves(
            b,
            RpcCall::GetDentry(
                FsMetaGetDentryReq { parent: q.parent, name: q.name, txid: q.txid },
            ),
            x,
            later,
            c,
            Served::Dentry(r),
        ),
    ensures
        r matches Ok(Some(d)) && match (d.target, q.new_target) {
            (DentryTarget::IndexNodeId(m), DentryTarget::IndexNodeId(n)) => m == n,
            (DentryTarget::SymLink(s), DentryTarget::SymLink(t)) => s@ == t@,
            (DentryTarget::ObjId(m), DentryTarget::ObjId(n)) => m.obj_type@ == n.obj_type@
                && m.obj_hash@ == n.obj_hash@,
            (DentryTarget::Tombstone, DentryTarget::Tombstone) => true,
            _ => false,
        },
{
}

/// A revision that was counted up is the one that is answered, and the one the
/// directory is read with.
pub proof fn law_new_revision_is_got(
    a: FSMetaService,
    dir: u64,
    expected_rev: u64,
    txid: Option<String>,
    x: BufferAnswers,
    now: u64,
    rev: u64,
    b: FSMetaService,
    later: u64,
    c: FSMetaService,
    r: Result<Option<NodeRecord>, MetaError>,
)
    requires
        tables_in_order(a, txid),
        serves(
            a,
            RpcCall::BumpDirRev(FsMetaBumpDirRevReq { dir, expected_rev, txid }),
            x,
            now,
            b,
            Served::Id(Ok(rev)),
        ),
        serves(
            b,
            RpcCall::GetInode(FsMetaGetInodeReq { id: dir, txid }),
            x,
            later,
            c,
            Served::Inode(r),
        ),
        r matches Ok(Some(_)),
    ensures
        rev == expected_rev + 1,
        r->Ok_0->0.rev == Some(rev),
{
}

/// A lease that was acquired is read with its inode: held by the session, under
/// the number that was answered, until as much later as was asked for.
pub proof fn law_acquired_lease_is_got(
    a: FSMetaService,
    q: FsMetaAcquireFileLeaseReq,
    x: BufferAnswers,
    now: u64,
    seq: u64,
    b: FSMetaService,
    later: u64,
    c: FSMetaService,
    r: Result<Option<NodeRecord>, MetaError>,
)
    requires
        tables_in_order(a, None),
        is_clock_time(now),
        is_clock_time(q.ttl.secs),
        free_at(a@.tables, q.node_id, now) || a@.tables.nodes[q.node_id].lease_seq is Some,
        serves(a, RpcCall::AcquireFileLease(q), x, now, b, Served::Id(Ok(seq))),
        serves(
            b,
            RpcCall::GetInode(FsMetaGetInodeReq { id: q.node_id, txid: None }),
            x,
            later,
            c,
            Served::Inode(r),
        ),
        r matches Ok(Some(_)),
    ensures
        leased_until(
            c@.tables,
            q.node_id,
            q.session.0@,
            seq,
            moment_after(now, q.ttl.secs),
        ),
        r->Ok_0->0.lease_client_session == c@.tables.nodes[q.node_id].lease_client_session,
        r->Ok_0->0.lease_seq == c@.tables.nodes[q.node_id].lease_seq,
{
}

/// A count of references that was changed is the one that is found.
pub proof fn law_new_count_is_got(
    a: FSMetaService,
    obj_id: ObjId,
    delta: i64,
    x: BufferAnswers,
    now: u64,
    n: u64,
    b: FSMetaService,
    later: u64,
    c: FSMetaService,
    r: Result<Option<ObjStat>, MetaError>,
)
    requires
        serves(
            a,
            RpcCall::ObjStatBump(FsMetaObjStatBumpReq { obj_id, delta, txid: None }),
            x,
            now,
            b,
            Served::Id(Ok(n)),
        ),
        serves(
            b,
            RpcCall::ObjStatGet(FsMetaObjStatGetReq { obj_id }),
            x,
            later,
            c,
            Served::Stat(r),
        ),
    ensures
        r matches Ok(Some(s)) && s.ref_count == n && s.updated_at == now && (s.zero_since is Some
            <==> n == 0),
        c == b,
{
}

/// Statistics that were dropped are not found, and those that were not are as
/// they were.
pub proof fn law_dropped_statistics_are_not_got(
    a: FSMetaService,
    obj_id: ObjId,
    x: BufferAnswers,
    now: u64,
    gone: bool,
    b: FSMetaService,
    before: Result<Option<ObjStat>, MetaError>,
    after: Result<Option<ObjStat>, MetaError>,
)
    requires
        serves(
            a,
            RpcCall::ObjStatGet(FsMetaObjStatGetReq { obj_id }),
            x,
            now,
            a,
            Served::Stat(before),
        ),
        serves(
            a,
            RpcCall::ObjStatDeleteIfZero(FsMetaObjStatDeleteIfZeroReq { obj_id, txid: None }),
            x,
            now,
            b,
            Served::Flag(Ok(gone)),
        ),
        serves(
            b,
            RpcCall::ObjStatGet(FsMetaObjStatGetReq { obj_id }),
            x,
            now,
            b,
            Served::Stat(after),
        ),
    ensures
        gone <==> (before matches Ok(Some(s)) && s.ref_count == 0),
        gone ==> after == Ok::<Option<ObjStat>, MetaError>(None),
        !gone ==> after == before,
{
}

/// What reading settles while nobody can write is what writing would answer.
pub proof fn law_reading_settles_as_writing_would(
    v: TablesView,
    parent: u64,
    name: String,
    target: DentryTarget,
    old_target: DentryTarget,
    rev: u64,
    to_parent: u64,
    to_name: String,
    now: u64,
)
    ensures
        create_dentry_seen(v, parent, name@, rev) matches Some(r) ==> r is Err
            && create_dentry_after(v, parent, name, target, rev, now) == Err::<
            TablesView,
            MetaError,
        >(r->Err_0),
        delete_dentry_seen(v, parent, rev) matches Some(r) ==> r is Err && delete_dentry_after(
            v,
            parent,
            name@,
            rev,
        ) == Err::<TablesView, MetaError>(r->Err_0),
        replace_target_seen(v, parent, name@, old_target, target, rev) matches Some(r) ==> match r {
            Ok(_) => replace_target_after(v, parent, name@, old_target, target, rev, now) == Ok::<
                TablesView,
                MetaError,
            >(v),
            Err(e) => replace_target_after(v, parent, name@, old_target, target, rev, now) == Err::<
                TablesView,
                MetaError,
            >(e),
        },
        delete_seen(v, parent, name@) matches Some(r) ==> match r {
            Ok(_) => delete_after(v, parent, name, now) == Ok::<TablesView, MetaError>(v),
            Err(e) => delete_after(v, parent, name, now) == Err::<TablesView, MetaError>(e),
        },
        move_path_seen(v, parent, name, to_parent, to_name) matches Some(r) ==> match r {
            Ok(_) => move_path_after(v, parent, name, to_parent, to_name, now) == Ok::<
                TablesView,
                MetaError,
            >(v),
            Err(e) => move_path_after(v, parent, name, to_parent, to_name, now) == Err::<
                TablesView,
                MetaError,
            >(e),
        },
{
}

/// The directory is there at this revision.
pub open spec fn stands_at(v: TablesView, dir: u64, rev: u64) -> bool {
    v.nodes.contains_key(dir) && (v.nodes[dir].rev == Some(rev) || (v.nodes[dir].rev is None && rev
        == 0))
}

/// A request waits for nobody where reading shows that it has nothing to do or
/// cannot be done, and only there: a name that is deleted already counts as
/// deleted, an entry that points there already as redirected, and an entry that
/// stays in its place as moved.
pub proof fn law_reading_settles_what_it_can(
    v: TablesView,
    parent: u64,
    name: String,
    target: DentryTarget,
    old_target: DentryTarget,
    rev: u64,
    to_parent: u64,
    to_name: String,
)
    ensures
        create_dentry_seen(v, parent, name@, rev) is None <==> stands_at(v, parent, rev)
            && !v.dentries.contains_key((parent, name@)),
        delete_dentry_seen(v, parent, rev) is None <==> stands_at(v, parent, rev),
        ({
            let points_to = |t: DentryTarget|
                v.dentries.contains_key((parent, name@)) && same_target(
                    v.dentries[(parent, name@)].target,
                    t,
                );
            let seen = replace_target_seen(v, parent, name@, old_target, target, rev);
            &&& seen is None <==> stands_at(v, parent, rev) && points_to(old_target) && !points_to(
                target,
            )
            &&& seen == Some(Ok::<(), MetaError>(())) <==> stands_at(v, parent, rev) && points_to(
                old_target,
            ) && points_to(target)
        }),
        ({
            let can_look = name@.len() > 0 && (v.read(parent) matches Ok(Some(_)));
            let is_gone = v.dentries.contains_key((parent, name@)) && v.dentries[(
                parent,
                name@,
            )].target is Tombstone;
            &&& delete_seen(v, parent, name@) is None <==> can_look && !is_gone
            &&& delete_seen(v, parent, name@) == Some(Ok::<(), MetaError>(())) <==> can_look
                && is_gone
        }),
        move_path_seen(v, parent, name, to_parent, to_name) == Some(Ok::<(), MetaError>(()))
            <==> name@.len() > 0 && parent == to_parent && name@ == to_name@,
{
}

/// How many rows a page holds when `left` are left.
pub open spec fn fits(left: int, page_size: u32) -> int {
    if page_size == 0 || left <= page_size {
        left
    } else {
        page_size as int
    }
}

/// The first page begins with the first row and the next behind the last row of
/// the one before; a page is as long as was asked for while so many rows are
/// left, and a page size of nothing asks for all.
pub proof fn law_page_is_as_long_as_asked<V>(rows: Seq<(String, V)>, k: int, page_size: u32)
    requires
        in_order(rows),
    ensures
        next_page(rows, None, page_size) == rows.take(fits(rows.len() as int, page_size)),
        0 <= k < rows.len() ==> next_page(rows, Some(rows[k].0@), page_size) == rows.skip(
            k + 1,
        ).take(fits(rows.len() - (k + 1), page_size)),
{
    assert(next_page(rows, None, page_size) =~= rows.take(fits(rows.len() as int, page_size)));
    if 0 <= k < rows.len() {
        lemma_passed_at(rows, k);
        assert(next_page(rows, Some(rows[k].0@), page_size) =~= rows.skip(k + 1).take(
            fits(rows.len() - (k + 1), page_size),
        ));
    }
}

/// A directory that is listed in one page gives every name it shows, and none
/// else, with what stands there.
pub proof fn law_listed_names_are_got(
    a: FSMetaService,
    parent: u64,
    txid: Option<String>,
    x: BufferAnswers,
    now: u64,
    id: u64,
    b: FSMetaService,
    c: FSMetaService,
    page: NameMap<FsMetaListEntry>,
    v: TablesView,
    name: Seq<char>,
)
    requires
        serves(
            a,
            RpcCall::StartList(FsMetaStartListReq { parent, txid }),
            x,
            now,
            b,
            Served::IdOrStop(Ok(id)),
        ),
        serves(
            b,
            RpcCall::ListNext(FsMetaListNextReq { list_session_id: id, page_size: 0 }),
            x,
            now,
            c,
            Served::Page(Ok(page)),
        ),
        match txid {
            None => v == a@.tables,
            Some(t) => a@.txns.contains_key(t@) && v == a@.txns[t@].tables,
        },
    ensures
        listable(v, a.rest.base@, parent) matches Ok(kids) && {
            &&& page@.contains_key(name) <==> shows(v, kids, parent, name) is Some
            &&& page@.contains_key(name) ==> page@[name].name@ == name && Some(page@[name].target)
                == shows(v, kids, parent, name) && (page@[name].target
                matches DentryTarget::IndexNodeId(n) ==> page@[name].inode == v.inode(n))
        },
{
    let kids = listable(v, a.rest.base@, parent)->Ok_0;
    let m = choose|m: NameMap<FsMetaListEntry>| #[trigger]
        crate::listing::is_list(v, kids, parent, m@) && m.wf() && crate::handlers::listed_in(
            a.rest,
            m,
            b.rest,
            Ok::<u64, Stop>(id),
        );
    law_page_is_as_long_as_asked(m.rows@, 0, 0);
    assert(m.rows@.take(m.rows@.len() as int) =~= m.rows@);
    assert(page.rows@ == m.rows@);
    assert(m@.contains_key(name) == (shows(v, kids, parent, name) is Some));
}

/// The entries of a directory are listed all, deleted ones among them, each once
/// and in the order of their names, and nothing else is.
pub proof fn law_all_entries_are_got(
    a: FSMetaService,
    parent: u64,
    x: BufferAnswers,
    now: u64,
    b: FSMetaService,
    out: Vec<DentryRecord>,
    name: Seq<char>,
    i: int,
    j: int,
)
    requires
        serves(
            a,
            RpcCall::ListDentries(FsMetaListDentriesReq { parent, txid: None }),
            x,
            now,
            b,
            Served::Dentries(Ok(out)),
        ),
    ensures
        0 <= i < out@.len() ==> a@.tables.dentries.contains_key((parent, out@[i].name@)) && out@[i]
            == a@.tables.dentries[(parent, out@[i].name@)],
        0 <= i < j < out@.len() ==> text_lt(out@[i].name@, out@[j].name@),
        a@.tables.dentries.contains_key((parent, name)) ==> exists|k: int|
            0 <= k < out@.len() && (#[trigger] out@[k]).name@ == name,
        b@ == a@,
{
    if 0 <= i < out@.len() {
        assert(a@.tables.dentry(parent, out@[i].name@) == Some(out@[i]));
    }
    if a@.tables.dentries.contains_key((parent, name)) {
        assert(a@.tables.dentry(parent, name) is Some);
        assert(has_name(out@, name));
    }
}

/// A directory that shows an inode which cannot be read is not listed, and no
/// session is opened; where all can be read it is listed.
pub proof fn law_unreadable_child_stops_the_listing(
    a: FSMetaService,
    parent: u64,
    x: BufferAnswers,
    now: u64,
    b: FSMetaService,
    r: Result<u64, Stop>,
    kids: Map<Seq<char>, ObjId>,
    name: Seq<char>,
    id: u64,
)
    requires
        serves(
            a,
            RpcCall::StartList(FsMetaStartListReq { parent, txid: None }),
            x,
            now,
            b,
            Served::IdOrStop(r),
        ),
        listable(a@.tables, a.rest.base@, parent) == Ok::<Map<Seq<char>, ObjId>, Stop>(kids),
    ensures
        shows(a@.tables, kids, parent, name) == Some(DentryTarget::IndexNodeId(id)) && a@.tables.read(
            id,
        ) is Err ==> r is Err && b.rest == a.rest,
        (forall|n: Seq<char>|
            (#[trigger] shows(a@.tables, kids, parent, n)) matches Some(DentryTarget::IndexNodeId(k))
                ==> a@.tables.read(k) is Ok) ==> r is Ok,
{
    let v = a@.tables;
    if shows(v, kids, parent, name) == Some(DentryTarget::IndexNodeId(id)) && v.read(id) is Err {
        assert(unreadable_with(v, kids, parent, name, v.read(id)->Err_0));
    }
    if forall|n: Seq<char>|
        (#[trigger] shows(v, kids, parent, n)) matches Some(DentryTarget::IndexNodeId(k))
            ==> v.read(k) is Ok {
        assert(!has_unreadable(v, kids, parent)) by {
            if has_unreadable(v, kids, parent) {
                let (n, e) = choose|n: Seq<char>, e: MetaError| #[trigger]
                    unreadable_with(v, kids, parent, n, e);
                assert(shows(v, kids, parent, n) is Some);
            }
        }
    }
}

/// Two list sessions never share an id, and neither opening the second nor paging
/// through it touches the first.
pub proof fn law_list_sessions_are_apart(
    a: FSMetaService,
    parent: u64,
    txid: Option<String>,
    x: BufferAnswers,
    now: u64,
    first: u64,
    b: FSMetaService,
    other_parent: u64,
    second: u64,
    c: FSMetaService,
    page_size: u32,
    d: FSMetaService,
    page: Result<NameMap<FsMetaListEntry>, MetaError>,
)
    requires
        a.rest.lists.next_session_id < u64::MAX,
        serves(
            a,
            RpcCall::StartList(FsMetaStartListReq { parent, txid }),
            x,
            now,
            b,
            Served::IdOrStop(Ok(first)),
        ),
        serves(
            b,
            RpcCall::StartList(FsMetaStartListReq { parent: other_parent, txid }),
            x,
            now,
            c,
            Served::IdOrStop(Ok(second)),
        ),
        serves(
            c,
            RpcCall::ListNext(FsMetaListNextReq { list_session_id: second, page_size }),
            x,
            now,
            d,
            Served::Page(page),
        ),
    ensures
        first != second,
        page is Ok,
        d.rest.lists.sessions@.contains_key(first),
        d.rest.lists.sessions@[first] == b.rest.lists.sessions@[first],
        d.rest.lists.sessions@[first]@.cursor is None,
{
}

/// A list session that was stopped gives no more pages; the others go on.
pub proof fn law_stopped_list_is_gone(
    a: FSMetaService,
    id: u64,
    x: BufferAnswers,
    now: u64,
    b: FSMetaService,
    page_size: u32,
    c: FSMetaService,
    page: Result<NameMap<FsMetaListEntry>, MetaError>,
    other: u64,
)
    requires
        serves(
            a,
            RpcCall::StopList(FsMetaStopListReq { list_session_id: id }),
            x,
            now,
            b,
            Served::Done(Ok(())),
        ),
        serves(
            b,
            RpcCall::ListNext(FsMetaListNextReq { list_session_id: id, page_size }),
            x,
            now,
            c,
            Served::Page(page),
        ),
    ensures
        page == Err::<NameMap<FsMetaListEntry>, MetaError>(MetaError::ListSessionNotFound),
        other != id && a.rest.lists.sessions@.contains_key(other)
            ==> c.rest.lists.sessions@.contains_key(other) && c.rest.lists.sessions@[other]
            == a.rest.lists.sessions@[other],
        b@ == a@,
{
}

/// An opened writer has its file in hand: the handle that was answered is the one
/// that the inode of the name is written through.
pub proof fn law_opened_writer_is_got(
    a: FSMetaService,
    q: FsMetaOpenFileWriterReq,
    x: BufferAnswers,
    now: u64,
    handle: String,
    b: FSMetaService,
    later: u64,
    c: FSMetaService,
    d: DentryRecord,
    e: FSMetaService,
    r: Result<Option<NodeRecord>, MetaError>,
    id: u64,
)
    requires
        a@.tables.inv(),
        serves(a, RpcCall::OpenFileWriter(q), x, now, b, Served::TextOrStop(Ok(handle))),
        serves(
            b,
            RpcCall::GetDentry(FsMetaGetDentryReq { parent: q.parent, name: q.name, txid: None }),
            x,
            later,
            c,
            Served::Dentry(Ok(Some(d))),
        ),
        d.target == DentryTarget::IndexNodeId(id),
        serves(
            c,
            RpcCall::GetInode(FsMetaGetInodeReq { id, txid: None }),
            x,
            later,
            e,
            Served::Inode(r),
        ),
    ensures
        r matches Ok(Some(n)) ==> (n.state matches NodeState::Working(s) && s.fb_handle == handle
            && s.last_write_at == now),
{
    let v = a@.tables;
    let state = NodeState::Working(FileWorkingState { fb_handle: handle, last_write_at: now });
    law_state_columns_round_trip(state);
    law_chosen_inode_stands_under_the_name(v, a.rest.base@, q.parent, q.name, q.flag, now);
    let t = writer_target(v, a.rest.base@, q.parent, q.name, q.flag, now)->Ok_0;
    let who = choose|who: Writer| #[trigger]
        is_writer(who, a.rest.instance->0@, t.file_id, q.parent, q.name@) && opens(
            a@,
            start_writer(
                t,
                q.flag,
                q.expected_size,
                who,
                x.found,
                x.allocated,
                now,
            ),
            b@,
            Ok::<String, Stop>(handle),
        );
    law_started_writer_is_at_work(
        t,
        q.flag,
        q.expected_size,
        who,
        x.found,
        x.allocated,
        now,
    );
    assert(b@.tables.nodes[id].cols == state_cols(state));
    assert(c@.tables == b@.tables);
}

} // verus!
