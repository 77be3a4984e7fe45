//! What a client brings about against a service that answers from its tables.

use vstd::prelude::*;
use crate::client::{
    ensure_step, is_conflict, may_go_away, place_step, Call, ClientError, EnsureDir, EnsureState,
    Failure, PlaceDir, PlaceState, Progress, Reply,
};
use crate::client_paths::{
    in_process_only, path_stepped, starts, starts_move, DirRequest, FsMetaClient, PathAt,
    PathError, PathOp, PathProgress, PathTask,
};
use crate::entry_laws::{
    has_inode_id, has_numbers, is_directory, is_open_dir, lemma_alloc_under, new_dir_stands,
    no_dangling,
};
use crate::errors::MetaError;
use crate::paths::{is_below, path_parts};
use crate::records::{
    DentryRecord, DentryTarget, FsMetaResolvePathItem, FsMetaResolvePathResp, NodeRecord,
    NodeState, ObjId,
};
use crate::tables::{
    alloc_inode_after, create_dentry_after, fresh_dir_record, replace_target_after, TablesView,
};
use crate::text::{has_piece, view_all};

verus! {

/// What a call that enters an inode under a name makes of the tables.
pub open spec fn entered_by(v: TablesView, call: Call, now: u64) -> Result<TablesView, MetaError> {
    match call {
        Call::CreateDentry { parent, name, target, expected_parent_rev, .. } => create_dentry_after(
            v,
            parent,
            name,
            target,
            expected_parent_rev,
            now,
        ),
        Call::ReplaceTarget {
            parent,
            name,
            expected_old_target,
            new_target,
            expected_parent_rev,
            ..
        } => replace_target_after(
            v,
            parent,
            name@,
            expected_old_target,
            new_target,
            expected_parent_rev,
            now,
        ),
        _ => Err(MetaError::NotFound),
    }
}

/// The placing that waits for the entry under its name, having read its directory.
pub open spec fn has_read_parent(t: PlaceDir, v: TablesView, txid: String, s: (PlaceDir, Progress)) -> bool {
    let s1 = place_step(t, Reply::Txid(txid));
    &&& s1.1 == Progress::Call(Call::GetInode { id: t.parent, txid: Some(txid) })
    &&& s == place_step(s1.0, Reply::Inode(v.inode(t.parent)))
}

/// The directory that is made where nothing stands: over nothing, or over the
/// object that the placing was given; the one that is laid over a directory
/// object: over that object.
pub open spec fn placed_over(t: PlaceDir, there: Option<DentryRecord>) -> Option<ObjId> {
    match there {
        Some(d) => match d.target {
            DentryTarget::ObjId(o) => Some(o),
            _ => None,
        },
        None => t.base,
    }
}

/// Placing a directory makes it: against tables in which the name is free, or
/// stands for a directory object, the calls of one transaction leave a new
/// directory under the name, and it is the one that is returned.
pub proof fn law_placing_makes_the_directory(t: PlaceDir, v: TablesView, txid: String, now: u64)
    requires
        t.at is Begin,
        v.inv(),
        no_dangling(v),
        is_open_dir(v, t.parent),
        has_numbers(v, t.parent, t.name@),
        has_inode_id(v),
        match v.dentry(t.parent, t.name@) {
            None => true,
            Some(d) => match d.target {
                DentryTarget::Tombstone => t.base is None,
                DentryTarget::ObjId(o) => o.obj_type@ == "cydir"@,
                _ => false,
            },
        },
    ensures
        ({
            let there = v.dentry(t.parent, t.name@);
            let s2 = place_step(
                place_step(t, Reply::Txid(txid)).0,
                Reply::Inode(v.inode(t.parent)),
            );
            let s3 = place_step(s2.0, Reply::Dentry(there));
            &&& has_read_parent(t, v, txid, s2)
            &&& s2.1 == Progress::Call(
                Call::GetDentry { parent: t.parent, name: t.name, txid: Some(txid) },
            )
            &&& s3.1 matches Progress::Call(Call::AllocInode { node, txid: x })
            &&& x == txid
            &&& alloc_inode_after(v, node) matches Ok((a, id))
            &&& place_step(s3.0, Reply::Id(id)).1 matches Progress::Call(c)
            &&& entered_by(a, c, now) matches Ok(w)
            &&& new_dir_stands(
                v,
                w,
                (t.parent, t.name@),
                id,
                if placed_over(t, there) is Some {
                    NodeState::DirOverlay
                } else {
                    NodeState::DirNormal
                },
                placed_over(t, there),
                now,
            )
            &&& ({
                let s5 = place_step(place_step(s3.0, Reply::Id(id)).0, Reply::Done);
                &&& s5.1 == Progress::Call(Call::Commit { txid })
                &&& place_step(s5.0, Reply::Done).1 == Progress::End(Ok(id))
            })
        }),
{
    let there = v.dentry(t.parent, t.name@);
    let over = placed_over(t, there);
    let node = match over {
        Some(o) => fresh_dir_record(NodeState::DirOverlay, Some(o)),
        None => fresh_dir_record(NodeState::DirNormal, None),
    };
    lemma_alloc_under(v, t.parent, t.name, node, now);
}

/// Placing finds a directory that is there: nothing is changed, and it is the
/// one that is returned.
pub proof fn law_placing_finds_the_directory(t: PlaceDir, v: TablesView, txid: String, id: u64)
    requires
        t.at is Begin,
        is_open_dir(v, t.parent),
        v.dentry(t.parent, t.name@) matches Some(d) && d.target == DentryTarget::IndexNodeId(id),
        v.inode(id) matches Some(n) && is_directory(n.state),
    ensures
        ({
            let s2 = place_step(
                place_step(t, Reply::Txid(txid)).0,
                Reply::Inode(v.inode(t.parent)),
            );
            let s3 = place_step(s2.0, Reply::Dentry(v.dentry(t.parent, t.name@)));
            let s4 = place_step(s3.0, Reply::Inode(v.inode(id)));
            &&& s3.1 == Progress::Call(Call::GetInode { id, txid: Some(txid) })
            &&& s4.1 == Progress::Call(Call::Commit { txid })
            &&& place_step(s4.0, Reply::Done).1 == Progress::End(Ok(id))
        }),
{
}

/// Where the directory cannot be placed the transaction is rolled back: its
/// parent is none, or closed; a file, a link or another object stands under the
/// name; or a call failed.
pub proof fn law_placing_gives_up_cleanly(
    t: PlaceDir,
    v: TablesView,
    txid: String,
    f: Failure,
    id: u64,
)
    requires
        t.at is Begin,
    ensures
        ({
            let s1 = place_step(t, Reply::Txid(txid));
            let s2 = place_step(s1.0, Reply::Inode(v.inode(t.parent)));
            let s3 = place_step(s2.0, Reply::Dentry(v.dentry(t.parent, t.name@)));
            &&& (v.inode(t.parent) matches Some(n) ==> !is_directory(n.state) || n.read_only)
                ==> s2.1 == Progress::Call(Call::Rollback { txid })
            &&& place_step(s1.0, Reply::Failed(f)).1 == Progress::Call(Call::Rollback { txid })
            &&& (v.inode(t.parent) matches Some(n) && is_directory(n.state) && !n.read_only) ==> {
                &&& place_step(s2.0, Reply::Failed(f)).1 == Progress::Call(Call::Rollback { txid })
                &&& (v.dentry(t.parent, t.name@) matches Some(d) && (d.target is SymLink || (
                d.target matches DentryTarget::ObjId(o) && o.obj_type@ != "cydir"@) || (
                d.target is Tombstone && t.base is Some))) ==> s3.1 == Progress::Call(
                    Call::Rollback { txid },
                )
                &&& (v.dentry(t.parent, t.name@) matches Some(d) && d.target
                    == DentryTarget::IndexNodeId(id) && (v.inode(id) matches Some(n)
                    ==> !is_directory(n.state))) ==> place_step(
                    s3.0,
                    Reply::Inode(v.inode(id)),
                ).1 == Progress::Call(Call::Rollback { txid })
            }
        }),
{
}

/// The service speaks of a conflict with somebody else.
pub open spec fn speaks_of_conflict(s: Seq<char>) -> bool {
    has_piece(s, "rev mismatch"@) || has_piece(s, "already exists"@) || has_piece(s, "conflict"@)
}

/// After a conflict another attempt is made while one is left, and then the
/// conflict is reported; any other failure is reported at once.
pub proof fn law_conflicts_are_tried_again(
    t: PlaceDir,
    txid: String,
    reason: String,
    reply: Reply,
)
    ensures
        ({
            let refused = ClientError::Service(Failure::Reason(reason));
            let lost = ClientError::Service(Failure::Other(reason));
            let after = place_step(
                PlaceDir { at: PlaceState::Rollback { txid, error: refused }, ..t },
                reply,
            );
            &&& speaks_of_conflict(reason@) && t.tries > 1 ==> after.1 == Progress::Call(
                Call::BeginTxn,
            ) && after.0 == (PlaceDir { at: PlaceState::Begin, tries: (t.tries - 1) as u8, ..t })
            &&& speaks_of_conflict(reason@) && t.tries <= 1 ==> after.1 == Progress::End(
                Err(
                    if t.base is Some {
                        ClientError::ConflictMaterializing
                    } else {
                        ClientError::ConflictCreating
                    },
                ),
            )
            &&& !speaks_of_conflict(reason@) ==> after.1 == Progress::End(Err(refused))
            &&& place_step(
                PlaceDir { at: PlaceState::Rollback { txid, error: lost }, ..t },
                reply,
            ).1 == Progress::End(Err(lost))
        }),
{
}

/// Where a search for a directory goes on once the directory `id` of the
/// component it stands at is known.
pub open spec fn goes_down(t: EnsureDir, id: u64, r: (EnsureDir, Progress)) -> bool {
    if t.i + 1 == t.comps@.len() {
        r.1 == Progress::End(Ok(id))
    } else {
        &&& r.0.comps == t.comps && r.0.i == t.i + 1 && r.0.cur == id && r.0.at is Dentry
        &&& r.1 == Progress::Call(
            Call::GetDentry { parent: id, name: t.comps@[t.i + 1], txid: None },
        )
    }
}

/// The search goes on with placing a directory over `base` under the component
/// it stands at.
pub open spec fn places(t: EnsureDir, base: Option<ObjId>, r: (EnsureDir, Progress)) -> bool {
    &&& r.1 == Progress::Call(Call::BeginTxn)
    &&& r.0.comps == t.comps && r.0.i == t.i && r.0.cur == t.cur
    &&& r.0.at matches EnsureState::Place { task }
    &&& task.at is Begin && task.parent == t.cur && task.name == t.comps@[t.i as int]
    &&& task.base == base && task.tries == 8
}

/// A search goes by what stands under each component: into a directory, over a
/// directory object, through the base and links where there is no entry, and to
/// a new directory where there is nothing; a file, a link or another object ends
/// it.
pub proof fn law_search_goes_by_what_stands(t: EnsureDir, d: DentryRecord, n: NodeRecord, id: u64)
    requires
        t.wf(),
        t.i < t.comps@.len(),
        t.at is Dentry,
    ensures
        ({
            let r = ensure_step(t, Reply::Dentry(Some(d)));
            match d.target {
                DentryTarget::IndexNodeId(x) => {
                    &&& r.1 == Progress::Call(Call::GetInode { id: x, txid: None })
                    &&& is_directory(n.state) ==> goes_down(
                        t,
                        x,
                        ensure_step(r.0, Reply::Inode(Some(n))),
                    )
                    &&& !is_directory(n.state) ==> (ensure_step(
                        r.0,
                        Reply::Inode(Some(n)),
                    ).1 matches Progress::End(Err(_)))
                    &&& (ensure_step(r.0, Reply::Inode(None)).1 matches Progress::End(Err(_)))
                },
                DentryTarget::ObjId(o) => if o.obj_type@ == "cydir"@ {
                    places(t, Some(o), r)
                } else {
                    r.1 matches Progress::End(Err(_))
                },
                DentryTarget::Tombstone => places(t, None, r),
                DentryTarget::SymLink(_) => r.1 matches Progress::End(Err(_)),
            }
        }),
        ensure_step(t, Reply::Dentry(None)).1 == Progress::Call(
            Call::ResolvePrefix { depth: (t.i + 1) as usize, sym_count: 40 },
        ),
{
    assert(t.comps.len() == t.comps@.len());
}

/// Where there is no entry the search goes by where the path leads.
pub proof fn law_search_goes_by_where_the_path_leads(
    t: EnsureDir,
    found: FsMetaResolvePathResp,
)
    requires
        t.wf(),
        t.i < t.comps@.len(),
        t.at is Dentry,
    ensures
        ({
            let s = ensure_step(t, Reply::Dentry(None)).0;
            let r = ensure_step(s, Reply::Resolved(Some(found)));
            &&& places(t, None, ensure_step(s, Reply::Resolved(None)))
            &&& match found.item {
                FsMetaResolvePathItem::Inode { inode_id, inode } => if is_directory(inode.state) {
                    goes_down(t, inode_id, r)
                } else {
                    r.1 matches Progress::End(Err(_))
                },
                FsMetaResolvePathItem::ObjId(o) => if o.obj_type@ == "cydir"@
                    && found.inner_path is None {
                    places(t, Some(o), r)
                } else {
                    r.1 matches Progress::End(Err(_))
                },
                FsMetaResolvePathItem::SymLink(_) => r.1 matches Progress::End(Err(_)),
            }
        }),
{
    assert(t.comps.len() == t.comps@.len());
}

/// A directory that was placed is the one the search goes on in, and a failure
/// to place it ends the search; the root is found without any component.
pub proof fn law_search_goes_on_in_the_placed_directory(t: EnsureDir, task: PlaceDir, reply: Reply, id: u64)
    requires
        t.wf(),
    ensures
        t.at == (EnsureState::Place { task }) ==> {
            &&& place_step(task, reply).1 matches Progress::End(Ok(x)) ==> goes_down(
                t,
                x,
                ensure_step(t, reply),
            )
            &&& place_step(task, reply).1 matches Progress::End(Err(e)) ==> ensure_step(t, reply).1
                == Progress::End(Err(e))
            &&& place_step(task, reply).1 matches Progress::Call(c) ==> ensure_step(t, reply).1
                == Progress::Call(c)
        },
        t.at is Root && t.comps@.len() == 0 ==> ensure_step(t, Reply::Id(id)).1 == Progress::End(
            Ok(id),
        ),
        t.at is Root && t.comps@.len() > 0 ==> ensure_step(t, Reply::Id(id)).1 == Progress::Call(
            Call::GetDentry { parent: id, name: t.comps@[0], txid: None },
        ),
{
    assert(t.comps.len() == t.comps@.len());
}

/// Once the directory of the path is found, the request is made in it under the
/// name of the path, with just what was asked for; a move first finds its second
/// directory too.
pub proof fn law_request_is_what_was_asked(t: PathTask, reply: Reply, r: (PathTask, PathProgress), id: u64)
    requires
        path_stepped(t, reply, r),
        match t.at {
            PathAt::First { task } => ensure_step(task, reply).1 == Progress::End(Ok(id)),
            PathAt::Second { task, .. } => ensure_step(task, reply).1 == Progress::End(Ok(id)),
            PathAt::Over => false,
        },
    ensures
        match (t.at, t.op) {
            (PathAt::First { .. }, PathOp::OpenFileWriter { flag, expected_size }) => r.1
                == PathProgress::Apply(
                DirRequest::OpenFileWriter { parent: id, name: t.name, flag, expected_size },
            ),
            (PathAt::First { .. }, PathOp::SetFile { obj_id }) => r.1 == PathProgress::Apply(
                DirRequest::SetFile { parent: id, name: t.name, obj_id },
            ),
            (PathAt::First { .. }, PathOp::SetDir { obj_id }) => r.1 == PathProgress::Apply(
                DirRequest::SetDir { parent: id, name: t.name, obj_id },
            ),
            (PathAt::First { .. }, PathOp::Delete) => r.1 == PathProgress::Apply(
                DirRequest::Delete { parent: id, name: t.name },
            ),
            (PathAt::First { .. }, PathOp::Symlink { target }) => r.1 == PathProgress::Apply(
                DirRequest::Symlink { parent: id, name: t.name, target },
            ),
            (PathAt::First { .. }, PathOp::CreateDir) => r.1 == PathProgress::Apply(
                DirRequest::CreateDir { parent: id, name: t.name },
            ),
            (PathAt::First { .. }, PathOp::MoveTo { parent, .. }) => {
                &&& r.1 == PathProgress::Call(Call::RootDir)
                &&& r.0.op == t.op && r.0.name == t.name
                &&& r.0.at matches PathAt::Second { src_parent, task: second }
                &&& src_parent == id && view_all(second.comps@) == path_parts(parent.0@)
            },
            (PathAt::Second { src_parent, .. }, PathOp::MoveTo { name, into_itself, .. }) =>
                if into_itself {
                    r.1 == PathProgress::End(PathError::IntoItself)
                } else {
                    r.1 == PathProgress::Apply(
                        DirRequest::MovePath {
                            src_parent,
                            src_name: t.name,
                            dst_parent: id,
                            dst_name: name,
                        },
                    )
                },
            _ => true,
        },
{
}

/// Over the network only writers are opened; in process every request goes, and
/// it is about the last component of the path, in the directory of the others.
pub proof fn law_requests_start_with_their_path(
    kind: FsMetaClient,
    path: Seq<char>,
    op: PathOp,
    r: (PathTask, PathProgress),
)
    requires
        starts(kind, path, op, r),
    ensures
        kind is KRPC && !(op is OpenFileWriter) ==> r.1 == PathProgress::End(
            PathError::Unsupported,
        ),
        (kind is InProcess || op is OpenFileWriter) && path_parts(path).len() > 0 ==> {
            &&& r.1 == PathProgress::Call(Call::RootDir)
            &&& r.0.op == op
            &&& r.0.name@ == path_parts(path).last()
            &&& r.0.at matches PathAt::First { task }
            &&& view_all(task.comps@) == path_parts(path).drop_last()
        },
        path_parts(path).len() == 0 ==> r.1 is End,
{
    if path_parts(path).len() > 0 {
        lemma_holder_parts(path);
    }
}

proof fn lemma_holder_parts(path: Seq<char>)
    requires
        path_parts(path).len() > 0,
    ensures
        path_parts(crate::finalize::holder_path(path_parts(path))) == path_parts(path).drop_last(),
{
    let p = path_parts(path);
    let q = p.drop_last();
    assert forall|i: int| 0 <= i < q.len() implies crate::paths::plain_part(#[trigger] q[i]) by {
        crate::paths::law_components_are_plain(path, i);
        assert(q[i] == p[i]);
    }
    crate::paths::law_join_then_split(q);
    if p.len() == 1 {
        reveal_strlit("/");
        let e = Seq::<char>::empty();
        assert("/"@ =~= e + seq!['/'] + e);
        crate::path_text_laws::law_joined_paths_have_both_parts(e, e);
        assert(q =~= Seq::<Seq<char>>::empty());
        assert(crate::paths::slashed(q) =~= e);
        assert(path_parts(e) == q);
        assert(q + q =~= q);
    }
}

/// A move starts with both paths: it looks for the directory of the first and
/// keeps the second, and whether it would go below itself.
pub proof fn law_moves_start_with_both_paths(
    old_path: Seq<char>,
    new_path: Seq<char>,
    r: (PathTask, PathProgress),
)
    requires
        starts_move(FsMetaClient::InProcess, old_path, new_path, r),
    ensures
        path_parts(old_path).len() == 0 || path_parts(new_path).len() == 0 ==> r.1 is End,
        path_parts(old_path).len() > 0 && path_parts(new_path).len() > 0 ==> {
            &&& r.1 == PathProgress::Call(Call::RootDir)
            &&& r.0.name@ == path_parts(old_path).last()
            &&& r.0.at matches PathAt::First { task } && view_all(task.comps@) == path_parts(
                old_path,
            ).drop_last()
            &&& r.0.op matches PathOp::MoveTo { parent, name, into_itself } && path_parts(parent.0@)
                == path_parts(new_path).drop_last() && name@ == path_parts(new_path).last()
                && into_itself == is_below(new_path, old_path)
        },
{
    if path_parts(old_path).len() > 0 && path_parts(new_path).len() > 0 {
        lemma_holder_parts(old_path);
        lemma_holder_parts(new_path);
    }
}

/// Closing a writer and opening a reader are offered in process only.
pub proof fn law_files_are_closed_and_read_in_process(client: FsMetaClient)
    ensures
        client is InProcess ==> in_process_only(client) is Ok,
        client is KRPC ==> in_process_only(client) == Err::<(), PathError>(PathError::Unsupported),
{
}

/// A call that fails inside an attempt rolls the attempt back, and the failure is
/// then reported where it is no conflict; where the commit itself fails there is
/// nothing to roll back.
pub proof fn law_failures_are_reported(t: PlaceDir, cause: String, f: Failure, reply: Reply)
    ensures
        ({
            let lost = Failure::Other(cause);
            let s = place_step(t, Reply::Failed(lost));
            match t.at {
                PlaceState::Begin => place_step(t, Reply::Failed(f)).1 == Progress::End(
                    Err(ClientError::Service(f)),
                ),
                PlaceState::Commit { txid, id } => {
                    &&& place_step(t, Reply::Failed(f)).1 == Progress::End(
                        Err(ClientError::Service(f)),
                    )
                    &&& place_step(t, Reply::Done).1 == Progress::End(Ok(id))
                },
                PlaceState::Rollback { .. } => true,
                PlaceState::Over => true,
                PlaceState::Parent { txid } => s.1 == Progress::Call(Call::Rollback { txid })
                    && place_step(s.0, reply).1 == Progress::End(Err(ClientError::Service(lost))),
                PlaceState::Dentry { txid, .. } => s.1 == Progress::Call(Call::Rollback { txid })
                    && place_step(s.0, reply).1 == Progress::End(Err(ClientError::Service(lost))),
                PlaceState::Child { txid, .. } => s.1 == Progress::Call(Call::Rollback { txid })
                    && place_step(s.0, reply).1 == Progress::End(Err(ClientError::Service(lost))),
                PlaceState::Alloc { txid, .. } => s.1 == Progress::Call(Call::Rollback { txid })
                    && place_step(s.0, reply).1 == Progress::End(Err(ClientError::Service(lost))),
                PlaceState::Link { txid, .. } => s.1 == Progress::Call(Call::Rollback { txid })
                    && place_step(s.0, reply).1 == Progress::End(Err(ClientError::Service(lost))),
            }
        }),
{
}

/// A call of the search that fails ends the search with its failure, and the
/// search that fails ends the request.
pub proof fn law_failed_search_ends_the_request(
    t: EnsureDir,
    f: Failure,
    task: PathTask,
    reply: Reply,
    r: (PathTask, PathProgress),
    e: ClientError,
)
    requires
        t.wf(),
        path_stepped(task, reply, r),
    ensures
        t.at is Root || t.at is Dentry || t.at is Inode || t.at is Resolve ==> ensure_step(
            t,
            Reply::Failed(f),
        ).1 == Progress::End(Err(ClientError::Service(f))),
        task.at matches PathAt::First { task: s } && ensure_step(s, reply).1 == Progress::End(
            Err(e),
        ) ==> r.1 == PathProgress::End(PathError::Directory(e)),
        task.at matches PathAt::Second { task: s, .. } && ensure_step(s, reply).1 == Progress::End(
            Err(e),
        ) ==> r.1 == PathProgress::End(PathError::Directory(e)),
{
}

/// What the service refuses because somebody else was there first is what a client
/// tries again: a revision that has moved on, a name that was entered, a state or
/// a lease that was taken.
pub proof fn law_lost_races_are_tried_again(e: MetaError, text: String)
    requires
        text@ == e.text(),
        e == MetaError::RevMismatch || e == MetaError::RevMismatchOrMissing || e
            == MetaError::DentryExists || e == MetaError::StateConflict || e
            == MetaError::LeaseConflict,
    ensures
        is_conflict(Failure::Reason(text)),
        may_go_away(ClientError::Service(Failure::Reason(text))),
        !is_conflict(Failure::Other(text)),
{
    reveal_strlit("rev mismatch");
    reveal_strlit("rev mismatch or inode not found");
    reveal_strlit("already exists");
    reveal_strlit("dentry already exists");
    reveal_strlit("conflict");
    reveal_strlit("inode state conflict");
    reveal_strlit("lease conflict");
    if e == MetaError::RevMismatch || e == MetaError::RevMismatchOrMissing {
        assert(text@.subrange(0, 0int + "rev mismatch"@.len()) =~= "rev mismatch"@);
    } else if e == MetaError::DentryExists {
        assert(text@.subrange(7, 7int + "already exists"@.len()) =~= "already exists"@);
    } else if e == MetaError::StateConflict {
        assert(text@.subrange(12, 12int + "conflict"@.len()) =~= "conflict"@);
    } else {
        assert(text@.subrange(6, 6int + "conflict"@.len()) =~= "conflict"@);
    }
}

} // verus!
