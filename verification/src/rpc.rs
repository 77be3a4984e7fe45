//! Calls of the metadata service by name.

use vstd::prelude::*;
use crate::errors::MetaError;
use crate::handlers::{
    lists_dentries, opens_writer, plain, resolves_path, starts_list, stat_of, stops_list,
    takes_page,
};
use crate::leases::{acquire_after, release_after, renew_after};
use crate::names::NameMap;
use crate::outside::Stop;
use crate::paths::NfsPath;
use crate::records::{
    DentryRecord, DentryTarget, FsMetaListEntry, FsMetaResolvePathResp, NodeRecord, NodeState, ObjId,
    ObjStat, OpenWriteFlag, SessionId,
};
use crate::requests::{
    Duration, FsMetaAcquireFileLeaseReq, FsMetaAllocInodeReq, FsMetaBeginTxnReq, FsMetaBumpDirRevReq,
    FsMetaCommitReq, FsMetaCreateDentryReq, FsMetaDeleteDentryReq, FsMetaGetDentryReq,
    FsMetaGetInodeReq, FsMetaListDentriesReq, FsMetaListNextReq, FsMetaObjStatBumpReq,
    FsMetaObjStatDeleteIfZeroReq, FsMetaObjStatGetReq, FsMetaObjStatListZeroReq,
    FsMetaOpenFileWriterReq, FsMetaReleaseFileLeaseReq, FsMetaRenewFileLeaseReq,
    FsMetaReplaceTargetReq, FsMetaResolvePathExReq, FsMetaRollbackReq, FsMetaRootDirReq,
    FsMetaSetInodeReq, FsMetaStartListReq, FsMetaStopListReq, FsMetaUpdateInodeStateReq,
};
use crate::service::{
    begins, changes, commits, opt_text, reads, rolls_back, writes, FSMetaService,
};
use crate::stats::{is_idle_list, stat_bump_after};
use crate::tables::{
    alloc_inode_after, bump_dir_rev_after, create_dentry_after, create_dentry_seen,
    delete_dentry_after, delete_dentry_seen, record_row, replace_target_after, replace_target_seen,
    update_inode_state_after, TablesView,
};
use crate::text::same_text;
use crate::writer::BufferAnswers;

verus! {

#[derive(Debug, Clone, Copy, PartialEq, Eq)]
pub enum RpcMethod {
    RootDir,
    ResolvePathEx,
    BeginTxn,
    GetInode,
    SetInode,
    UpdateInodeState,
    AllocInode,
    GetDentry,
    ListDentries,
    StartList,
    ListNext,
    StopList,
    CreateDentry,
    DeleteDentry,
    ReplaceTarget,
    BumpDirRev,
    Commit,
    Rollback,
    AcquireFileLease,
    RenewFileLease,
    ReleaseFileLease,
    ObjStatGet,
    ObjStatBump,
    ObjStatListZero,
    ObjStatDeleteIfZero,
    OpenFileWriter,
}

impl RpcMethod {
    /// The name under which the method is called.
    pub open spec fn text(self) -> Seq<char> {
        match self {
            RpcMethod::RootDir => "root_dir"@,
            RpcMethod::ResolvePathEx => "resolve_path_ex"@,
            RpcMethod::BeginTxn => "begin_txn"@,
            RpcMethod::GetInode => "get_inode"@,
            RpcMethod::SetInode => "set_inode"@,
            RpcMethod::UpdateInodeState => "update_inode_state"@,
            RpcMethod::AllocInode => "alloc_inode"@,
            RpcMethod::GetDentry => "get_dentry"@,
            RpcMethod::ListDentries => "list_dentries"@,
            RpcMethod::StartList => "start_list"@,
            RpcMethod::ListNext => "list_next"@,
            RpcMethod::StopList => "stop_list"@,
            RpcMethod::CreateDentry => "create_dentry"@,
            RpcMethod::DeleteDentry => "delete_dentry"@,
            RpcMethod::ReplaceTarget => "replace_target"@,
            RpcMethod::BumpDirRev => "bump_dir_rev"@,
            RpcMethod::Commit => "commit"@,
            RpcMethod::Rollback => "rollback"@,
            RpcMethod::AcquireFileLease => "acquire_file_lease"@,
            RpcMethod::RenewFileLease => "renew_file_lease"@,
            RpcMethod::ReleaseFileLease => "release_file_lease"@,
            RpcMethod::ObjStatGet => "obj_stat_get"@,
            RpcMethod::ObjStatBump => "obj_stat_bump"@,
            RpcMethod::ObjStatListZero => "obj_stat_list_zero"@,
            RpcMethod::ObjStatDeleteIfZero => "obj_stat_delete_if_zero"@,
            RpcMethod::OpenFileWriter => "open_file_writer"@,
        }
    }

    pub fn name(self) -> (r: &'static str)
        ensures
            r@ == self.text(),
    {
        match self {
            RpcMethod::RootDir => "root_dir",
            RpcMethod::ResolvePathEx => "resolve_path_ex",
            RpcMethod::BeginTxn => "begin_txn",
            RpcMethod::GetInode => "get_inode",
            RpcMethod::SetInode => "set_inode",
            RpcMethod::UpdateInodeState => "update_inode_state",
            RpcMethod::AllocInode => "alloc_inode",
            RpcMethod::GetDentry => "get_dentry",
            RpcMethod::ListDentries => "list_dentries",
            RpcMethod::StartList => "start_list",
            RpcMethod::ListNext => "list_next",
            RpcMethod::StopList => "stop_list",
            RpcMethod::CreateDentry => "create_dentry",
            RpcMethod::DeleteDentry => "delete_dentry",
            RpcMethod::ReplaceTarget => "replace_target",
            RpcMethod::BumpDirRev => "bump_dir_rev",
            RpcMethod::Commit => "commit",
            RpcMethod::Rollback => "rollback",
            RpcMethod::AcquireFileLease => "acquire_file_lease",
            RpcMethod::RenewFileLease => "renew_file_lease",
            RpcMethod::ReleaseFileLease => "release_file_lease",
            RpcMethod::ObjStatGet => "obj_stat_get",
            RpcMethod::ObjStatBump => "obj_stat_bump",
            RpcMethod::ObjStatListZero => "obj_stat_list_zero",
            RpcMethod::ObjStatDeleteIfZero => "obj_stat_delete_if_zero",
            RpcMethod::OpenFileWriter => "open_file_writer",
        }
    }

    /// The method called `name`, if there is one.
    pub fn from_name(name: &str) -> (r: Option<RpcMethod>)
        ensures
            match r {
                Some(m) => m.text() == name@,
                None => forall|m: RpcMethod| #[trigger] m.text() != name@,
            },
    {
        let mut all: Vec<RpcMethod> = Vec::new();
        all.push(RpcMethod::RootDir);
        all.push(RpcMethod::ResolvePathEx);
        all.push(RpcMethod::BeginTxn);
        all.push(RpcMethod::GetInode);
        all.push(RpcMethod::SetInode);
        all.push(RpcMethod::UpdateInodeState);
        all.push(RpcMethod::AllocInode);
        all.push(RpcMethod::GetDentry);
        all.push(RpcMethod::ListDentries);
        all.push(RpcMethod::StartList);
        all.push(RpcMethod::ListNext);
        all.push(RpcMethod::StopList);
        all.push(RpcMethod::CreateDentry);
        all.push(RpcMethod::DeleteDentry);
        all.push(RpcMethod::ReplaceTarget);
        all.push(RpcMethod::BumpDirRev);
        all.push(RpcMethod::Commit);
        all.push(RpcMethod::Rollback);
        all.push(RpcMethod::AcquireFileLease);
        all.push(RpcMethod::RenewFileLease);
        all.push(RpcMethod::ReleaseFileLease);
        all.push(RpcMethod::ObjStatGet);
        all.push(RpcMethod::ObjStatBump);
        all.push(RpcMethod::ObjStatListZero);
        all.push(RpcMethod::ObjStatDeleteIfZero);
        all.push(RpcMethod::OpenFileWriter);
        assert(forall|m: RpcMethod| all@[m.rank()] == m && m.rank() < all@.len());
        let mut i: usize = 0;
        while i < all.len()
            invariant
                0 <= i <= all@.len(),
                forall|m: RpcMethod| all@[#[trigger] m.rank()] == m && m.rank() < all@.len(),
                forall|k: int| 0 <= k < i ==> (#[trigger] all@[k]).text() != name@,
            decreases all@.len() - i,
        {
            if same_text(all[i].name(), name) {
                return Some(all[i]);
            }
            i = i + 1;
        }
        proof {
            assert forall|m: RpcMethod| #[trigger] m.text() != name@ by {
                assert(all@[m.rank()] == m);
            }
        }
        None
    }

    spec fn rank(self) -> int {
        match self {
            RpcMethod::RootDir => 0,
            RpcMethod::ResolvePathEx => 1,
            RpcMethod::BeginTxn => 2,
            RpcMethod::GetInode => 3,
            RpcMethod::SetInode => 4,
            RpcMethod::UpdateInodeState => 5,
            RpcMethod::AllocInode => 6,
            RpcMethod::GetDentry => 7,
            RpcMethod::ListDentries => 8,
            RpcMethod::StartList => 9,
            RpcMethod::ListNext => 10,
            RpcMethod::StopList => 11,
            RpcMethod::CreateDentry => 12,
            RpcMethod::DeleteDentry => 13,
            RpcMethod::ReplaceTarget => 14,
            RpcMethod::BumpDirRev => 15,
            RpcMethod::Commit => 16,
            RpcMethod::Rollback => 17,
            RpcMethod::AcquireFileLease => 18,
            RpcMethod::RenewFileLease => 19,
            RpcMethod::ReleaseFileLease => 20,
            RpcMethod::ObjStatGet => 21,
            RpcMethod::ObjStatBump => 22,
            RpcMethod::ObjStatListZero => 23,
            RpcMethod::ObjStatDeleteIfZero => 24,
            RpcMethod::OpenFileWriter => 25,
        }
    }
}

/// A method together with its parameters.
#[derive(Debug, Clone)]
pub enum RpcCall {
    RootDir(FsMetaRootDirReq),
    ResolvePathEx(FsMetaResolvePathExReq),
    BeginTxn(FsMetaBeginTxnReq),
    GetInode(FsMetaGetInodeReq),
    SetInode(FsMetaSetInodeReq),
    UpdateInodeState(FsMetaUpdateInodeStateReq),
    AllocInode(FsMetaAllocInodeReq),
    GetDentry(FsMetaGetDentryReq),
    ListDentries(FsMetaListDentriesReq),
    StartList(FsMetaStartListReq),
    ListNext(FsMetaListNextReq),
    StopList(FsMetaStopListReq),
    CreateDentry(FsMetaCreateDentryReq),
    DeleteDentry(FsMetaDeleteDentryReq),
    ReplaceTarget(FsMetaReplaceTargetReq),
    BumpDirRev(FsMetaBumpDirRevReq),
    Commit(FsMetaCommitReq),
    Rollback(FsMetaRollbackReq),
    AcquireFileLease(FsMetaAcquireFileLeaseReq),
    RenewFileLease(FsMetaRenewFileLeaseReq),
    ReleaseFileLease(FsMetaReleaseFileLeaseReq),
    ObjStatGet(FsMetaObjStatGetReq),
    ObjStatBump(FsMetaObjStatBumpReq),
    ObjStatListZero(FsMetaObjStatListZeroReq),
    ObjStatDeleteIfZero(FsMetaObjStatDeleteIfZeroReq),
    OpenFileWriter(FsMetaOpenFileWriterReq),
}

/// The answer to a call.
pub enum RpcResult {
    Id(u64),
    Resolved(Option<FsMetaResolvePathResp>),
    Text(String),
    Inode(Option<NodeRecord>),
    Dentry(Option<DentryRecord>),
    Dentries(Vec<DentryRecord>),
    Page(NameMap<FsMetaListEntry>),
    Stat(Option<ObjStat>),
    Objects(Vec<ObjId>),
    Flag(bool),
    Done,
}

/// A call as it comes in, and what the answer to it carries back.
pub struct RpcRequest {
    pub call: RpcCall,
    pub seq: u64,
    pub trace_id: Option<String>,
}

pub struct RpcResponse {
    pub result: RpcResult,
    pub seq: u64,
    pub trace_id: Option<String>,
}

/// What stands behind an answer: the result of the handler of the same name.
pub enum Served {
    Id(Result<u64, MetaError>),
    IdOrStop(Result<u64, Stop>),
    Resolved(Result<Option<FsMetaResolvePathResp>, Stop>),
    Text(Result<String, MetaError>),
    TextOrStop(Result<String, Stop>),
    Inode(Result<Option<NodeRecord>, MetaError>),
    Dentry(Result<Option<DentryRecord>, MetaError>),
    Dentries(Result<Vec<DentryRecord>, MetaError>),
    Page(Result<NameMap<FsMetaListEntry>, MetaError>),
    Stat(Result<Option<ObjStat>, MetaError>),
    Objects(Result<Vec<ObjId>, MetaError>),
    Flag(Result<bool, MetaError>),
    Done(Result<(), MetaError>),
}

/// The answer that a handler's result becomes.
pub open spec fn answered(x: Served) -> Result<RpcResult, Stop> {
    match x {
        Served::Id(Ok(v)) => Ok(RpcResult::Id(v)),
        Served::Id(Err(e)) => Err(Stop::Refused(e)),
        Served::IdOrStop(Ok(v)) => Ok(RpcResult::Id(v)),
        Served::IdOrStop(Err(s)) => Err(s),
        Served::Resolved(Ok(v)) => Ok(RpcResult::Resolved(v)),
        Served::Resolved(Err(s)) => Err(s),
        Served::Text(Ok(v)) => Ok(RpcResult::Text(v)),
        Served::Text(Err(e)) => Err(Stop::Refused(e)),
        Served::TextOrStop(Ok(v)) => Ok(RpcResult::Text(v)),
        Served::TextOrStop(Err(s)) => Err(s),
        Served::Inode(Ok(v)) => Ok(RpcResult::Inode(v)),
        Served::Inode(Err(e)) => Err(Stop::Refused(e)),
        Served::Dentry(Ok(v)) => Ok(RpcResult::Dentry(v)),
        Served::Dentry(Err(e)) => Err(Stop::Refused(e)),
        Served::Dentries(Ok(v)) => Ok(RpcResult::Dentries(v)),
        Served::Dentries(Err(e)) => Err(Stop::Refused(e)),
        Served::Page(Ok(v)) => Ok(RpcResult::Page(v)),
        Served::Page(Err(e)) => Err(Stop::Refused(e)),
        Served::Stat(Ok(v)) => Ok(RpcResult::Stat(v)),
        Served::Stat(Err(e)) => Err(Stop::Refused(e)),
        Served::Objects(Ok(v)) => Ok(RpcResult::Objects(v)),
        Served::Objects(Err(e)) => Err(Stop::Refused(e)),
        Served::Flag(Ok(v)) => Ok(RpcResult::Flag(v)),
        Served::Flag(Err(e)) => Err(Stop::Refused(e)),
        Served::Done(Ok(_)) => Ok(RpcResult::Done),
        Served::Done(Err(e)) => Err(Stop::Refused(e)),
    }
}

fn answer(x: Served) -> (r: Result<RpcResult, Stop>)
    ensures
        r == answered(x),
{
    match x {
        Served::Id(Ok(v)) => Ok(RpcResult::Id(v)),
        Served::Id(Err(e)) => Err(Stop::Refused(e)),
        Served::IdOrStop(Ok(v)) => Ok(RpcResult::Id(v)),
        Served::IdOrStop(Err(s)) => Err(s),
        Served::Resolved(Ok(v)) => Ok(RpcResult::Resolved(v)),
        Served::Resolved(Err(s)) => Err(s),
        Served::Text(Ok(v)) => Ok(RpcResult::Text(v)),
        Served::Text(Err(e)) => Err(Stop::Refused(e)),
        Served::TextOrStop(Ok(v)) => Ok(RpcResult::Text(v)),
        Served::TextOrStop(Err(s)) => Err(s),
        Served::Inode(Ok(v)) => Ok(RpcResult::Inode(v)),
        Served::Inode(Err(e)) => Err(Stop::Refused(e)),
        Served::Dentry(Ok(v)) => Ok(RpcResult::Dentry(v)),
        Served::Dentry(Err(e)) => Err(Stop::Refused(e)),
        Served::Dentries(Ok(v)) => Ok(RpcResult::Dentries(v)),
        Served::Dentries(Err(e)) => Err(Stop::Refused(e)),
        Served::Page(Ok(v)) => Ok(RpcResult::Page(v)),
        Served::Page(Err(e)) => Err(Stop::Refused(e)),
        Served::Stat(Ok(v)) => Ok(RpcResult::Stat(v)),
        Served::Stat(Err(e)) => Err(Stop::Refused(e)),
        Served::Objects(Ok(v)) => Ok(RpcResult::Objects(v)),
        Served::Objects(Err(e)) => Err(Stop::Refused(e)),
        Served::Flag(Ok(v)) => Ok(RpcResult::Flag(v)),
        Served::Flag(Err(e)) => Err(Stop::Refused(e)),
        Served::Done(Ok(_)) => Ok(RpcResult::Done),
        Served::Done(Err(e)) => Err(Stop::Refused(e)),
    }
}

/// How the metadata service answers each call.
pub open spec fn serves(
    a: FSMetaService,
    call: RpcCall,
    answers: BufferAnswers,
    now: u64,
    b: FSMetaService,
    x: Served,
) -> bool {
    match (call, x) {
        (RpcCall::RootDir(_), Served::Id(r)) => b == a && r == Ok::<u64, MetaError>(a@.tables.root),
        (RpcCall::ResolvePathEx(q), Served::Resolved(r)) => resolves_path(
            a,
            q.path@,
            q.sym_count,
            b,
            r,
        ),
        (RpcCall::BeginTxn(_), Served::Text(r)) => b.rest == a.rest && begins(a@, now, b@, r),
        (RpcCall::GetInode(q), Served::Inode(r)) => b.rest == a.rest && reads(
            a@,
            opt_text(q.txid),
            now,
            |v: TablesView| v.read(q.id),
            b@,
            r,
        ),
        (RpcCall::SetInode(q), Served::Done(r)) => b.rest == a.rest && writes(
            a@,
            opt_text(q.txid),
            now,
            |v: TablesView| Ok((v.with_row(record_row(q.node, q.node.inode_id)), ())),
            b@,
            r,
        ),
        (RpcCall::UpdateInodeState(q), Served::Done(r)) => b.rest == a.rest && writes(
            a@,
            opt_text(q.txid),
            now,
            |v: TablesView| plain(update_inode_state_after(v, q.node_id, q.new_state, q.old_state)),
            b@,
            r,
        ),
        (RpcCall::AllocInode(q), Served::Id(r)) => b.rest == a.rest && writes(
            a@,
            opt_text(q.txid),
            now,
            |v: TablesView| alloc_inode_after(v, q.node),
            b@,
            r,
        ),
        (RpcCall::GetDentry(q), Served::Dentry(r)) => b.rest == a.rest && reads(
            a@,
            opt_text(q.txid),
            now,
            |v: TablesView| Ok(v.dentry(q.parent, q.name@)),
            b@,
            r,
        ),
        (RpcCall::ListDentries(q), Served::Dentries(r)) => b.rest == a.rest && lists_dentries(
            a@,
            opt_text(q.txid),
            q.parent,
            now,
            b@,
            r,
        ),
        (RpcCall::StartList(q), Served::IdOrStop(r)) => starts_list(
            a,
            opt_text(q.txid),
            q.parent,
            now,
            b,
            r,
        ),
        (RpcCall::ListNext(q), Served::Page(r)) => b@ == a@ && takes_page(
            a.rest,
            q.list_session_id,
            q.page_size,
            b.rest,
            r,
        ),
        (RpcCall::StopList(q), Served::Done(r)) => r is Ok && b@ == a@ && stops_list(
            a.rest,
            q.list_session_id,
            b.rest,
        ),
        (RpcCall::CreateDentry(q), Served::Done(r)) => b.rest == a.rest && changes(
            a@,
            opt_text(q.txid),
            now,
            |v: TablesView| create_dentry_seen(v, q.parent, q.name@, q.expected_parent_rev),
            |v: TablesView|
                plain(
                    create_dentry_after(
                        v,
                        q.parent,
                        q.name,
                        q.target,
                        q.expected_parent_rev,
                        now,
                    ),
                ),
            b@,
            r,
        ),
        (RpcCall::DeleteDentry(q), Served::Done(r)) => b.rest == a.rest && changes(
            a@,
            opt_text(q.txid),
            now,
            |v: TablesView| delete_dentry_seen(v, q.parent, q.expected_parent_rev),
            |v: TablesView|
                plain(delete_dentry_after(v, q.parent, q.name@, q.expected_parent_rev)),
            b@,
            r,
        ),
        (RpcCall::ReplaceTarget(q), Served::Done(r)) => b.rest == a.rest && changes(
            a@,
            opt_text(q.txid),
            now,
            |v: TablesView|
                    replace_target_seen(
                        v,
                        q.parent,
                        q.name@,
                        q.expected_old_target,
                        q.new_target,
                        q.expected_parent_rev,
                    ),
            |v: TablesView|
                plain(
                    replace_target_after(
                        v,
                        q.parent,
                        q.name@,
                        q.expected_old_target,
                        q.new_target,
                        q.expected_parent_rev,
                        now,
                    ),
                ),
            b@,
            r,
        ),
        (RpcCall::BumpDirRev(q), Served::Id(r)) => b.rest == a.rest && writes(
            a@,
            opt_text(q.txid),
            now,
            |v: TablesView|
                match bump_dir_rev_after(v, q.dir, q.expected_rev) {
                    Ok(w) => Ok((w, (q.expected_rev + 1) as u64)),
                    Err(e) => Err(e),
                },
            b@,
            r,
        ),
        (RpcCall::Commit(q), Served::Done(r)) => b.rest == a.rest && commits(
            a@,
            opt_text(q.txid),
            b@,
            r,
        ),
        (RpcCall::Rollback(q), Served::Done(r)) => b.rest == a.rest && rolls_back(
            a@,
            opt_text(q.txid),
            b@,
            r,
        ),
        (RpcCall::AcquireFileLease(q), Served::Id(r)) => b.rest == a.rest && writes(
            a@,
            None,
            now,
            |v: TablesView| acquire_after(v, q.node_id, q.session, q.ttl.secs, now),
            b@,
            r,
        ),
        (RpcCall::RenewFileLease(q), Served::Done(r)) => b.rest == a.rest && writes(
            a@,
            None,
            now,
            |v: TablesView|
                plain(renew_after(v, q.node_id, q.session.0@, q.lease_seq, q.ttl.secs, now)),
            b@,
            r,
        ),
        (RpcCall::ReleaseFileLease(q), Served::Done(r)) => b.rest == a.rest && writes(
            a@,
            None,
            now,
            |v: TablesView| plain(release_after(v, q.node_id, q.session.0@, q.lease_seq)),
            b@,
            r,
        ),
        (RpcCall::ObjStatGet(q), Served::Stat(r)) => b == a && r == Ok::<
            Option<ObjStat>,
            MetaError,
        >(stat_of(a@.tables, q.obj_id)),
        (RpcCall::ObjStatBump(q), Served::Id(r)) => b.rest == a.rest && writes(
            a@,
            opt_text(q.txid),
            now,
            |v: TablesView| stat_bump_after(v, q.obj_id, q.delta, now),
            b@,
            r,
        ),
        (RpcCall::ObjStatListZero(q), Served::Objects(r)) => b == a && r is Ok && is_idle_list(
            a@.tables,
            q.older_than_ts,
            q.limit as nat,
            r->Ok_0@,
        ),
        (RpcCall::ObjStatDeleteIfZero(q), Served::Flag(r)) => b.rest == a.rest && writes(
            a@,
            opt_text(q.txid),
            now,
            |v: TablesView| crate::handlers::zero_dropped(v, q.obj_id),
            b@,
            r,
        ),
        (RpcCall::OpenFileWriter(q), Served::TextOrStop(r)) => opens_writer(
            a,
            q.parent,
            q.name,
            q.flag,
            q.expected_size,
            answers,
            now,
            b,
            r,
        ),
        _ => false,
    }
}

/// What a server needs of the service behind it: one method for each call.
///
/// `handles` says which results a handler may give; what a server promises, it
/// promises in terms of it.
pub trait FsMetaHandler: Sized {
    /// The handler can serve calls.
    spec fn ready(&self) -> bool;

    /// `x` is a result of `call` that leaves the handler as `after`.
    spec fn handles(
        &self,
        call: RpcCall,
        answers: BufferAnswers,
        now: u64,
        after: &Self,
        x: Served,
    ) -> bool;

    fn handle_root_dir(&mut self) -> (r: Result<u64, MetaError>)
        requires
            old(self).ready(),
        ensures
            final(self).ready(),
            forall|answers: BufferAnswers, now: u64| #[trigger]
                old(self).handles(
                    RpcCall::RootDir(FsMetaRootDirReq),
                    answers,
                    now,
                    final(self),
                    Served::Id(r),
                ),
    ;

    fn handle_resolve_path_ex(
        &mut self,
        path: &NfsPath,
        sym_count: u32,
    ) -> (r: Result<Option<FsMetaResolvePathResp>, Stop>)
        requires
            old(self).ready(),
        ensures
            final(self).ready(),
            forall|answers: BufferAnswers, now: u64| #[trigger]
                old(self).handles(
                    RpcCall::ResolvePathEx(FsMetaResolvePathExReq { path: path.0, sym_count }),
                    answers,
                    now,
                    final(self),
                    Served::Resolved(r),
                ),
    ;

    fn handle_begin_txn(&mut self, now: u64) -> (r: Result<String, MetaError>)
        requires
            old(self).ready(),
        ensures
            final(self).ready(),
            forall|answers: BufferAnswers| #[trigger]
                old(self).handles(
                    RpcCall::BeginTxn(FsMetaBeginTxnReq),
                    answers,
                    now,
                    final(self),
                    Served::Text(r),
                ),
    ;

    fn handle_get_inode(
        &mut self,
        id: u64,
        txid: Option<String>,
        now: u64,
    ) -> (r: Result<Option<NodeRecord>, MetaError>)
        requires
            old(self).ready(),
        ensures
            final(self).ready(),
            forall|answers: BufferAnswers| #[trigger]
                old(self).handles(
                    RpcCall::GetInode(FsMetaGetInodeReq { id, txid }),
                    answers,
                    now,
                    final(self),
                    Served::Inode(r),
                ),
    ;

    fn handle_set_inode(
        &mut self,
        node: NodeRecord,
        txid: Option<String>,
        now: u64,
    ) -> (r: Result<(), MetaError>)
        requires
            old(self).ready(),
        ensures
            final(self).ready(),
            forall|answers: BufferAnswers| #[trigger]
                old(self).handles(
                    RpcCall::SetInode(FsMetaSetInodeReq { node, txid }),
                    answers,
                    now,
                    final(self),
                    Served::Done(r),
                ),
    ;

    fn handle_update_inode_state(
        &mut self,
        node_id: u64,
        new_state: NodeState,
        old_state: NodeState,
        txid: Option<String>,
        now: u64,
    ) -> (r: Result<(), MetaError>)
        requires
            old(self).ready(),
        ensures
            final(self).ready(),
            forall|answers: BufferAnswers| #[trigger]
                old(self).handles(
                    RpcCall::UpdateInodeState(FsMetaUpdateInodeStateReq { node_id, new_state, old_state, txid }),
                    answers,
                    now,
                    final(self),
                    Served::Done(r),
                ),
    ;

    fn handle_alloc_inode(
        &mut self,
        node: NodeRecord,
        txid: Option<String>,
        now: u64,
    ) -> (r: Result<u64, MetaError>)
        requires
            old(self).ready(),
        ensures
            final(self).ready(),
            forall|answers: BufferAnswers| #[trigger]
                old(self).handles(
                    RpcCall::AllocInode(FsMetaAllocInodeReq { node, txid }),
                    answers,
                    now,
                    final(self),
                    Served::Id(r),
                ),
    ;

    fn handle_get_dentry(
        &mut self,
        parent: u64,
        name: String,
        txid: Option<String>,
        now: u64,
    ) -> (r: Result<Option<DentryRecord>, MetaError>)
        requires
            old(self).ready(),
        ensures
            final(self).ready(),
            forall|answers: BufferAnswers| #[trigger]
                old(self).handles(
                    RpcCall::GetDentry(FsMetaGetDentryReq { parent, name, txid }),
                    answers,
                    now,
                    final(self),
                    Served::Dentry(r),
                ),
    ;

    fn handle_list_dentries(
        &mut self,
        parent: u64,
        txid: Option<String>,
        now: u64,
    ) -> (r: Result<Vec<DentryRecord>, MetaError>)
        requires
            old(self).ready(),
        ensures
            final(self).ready(),
            forall|answers: BufferAnswers| #[trigger]
                old(self).handles(
                    RpcCall::ListDentries(FsMetaListDentriesReq { parent, txid }),
                    answers,
                    now,
                    final(self),
                    Served::Dentries(r),
                ),
    ;

    fn handle_start_list(
        &mut self,
        parent: u64,
        txid: Option<String>,
        now: u64,
    ) -> (r: Result<u64, Stop>)
        requires
            old(self).ready(),
        ensures
            final(self).ready(),
            forall|answers: BufferAnswers| #[trigger]
                old(self).handles(
                    RpcCall::StartList(FsMetaStartListReq { parent, txid }),
                    answers,
                    now,
                    final(self),
                    Served::IdOrStop(r),
                ),
    ;

    fn handle_list_next(
        &mut self,
        list_session_id: u64,
        page_size: u32,
    ) -> (r: Result<NameMap<FsMetaListEntry>, MetaError>)
        requires
            old(self).ready(),
        ensures
            final(self).ready(),
            forall|answers: BufferAnswers, now: u64| #[trigger]
                old(self).handles(
                    RpcCall::ListNext(FsMetaListNextReq { list_session_id, page_size }),
                    answers,
                    now,
                    final(self),
                    Served::Page(r),
                ),
    ;

    fn handle_stop_list(&mut self, list_session_id: u64) -> (r: Result<(), MetaError>)
        requires
            old(self).ready(),
        ensures
            final(self).ready(),
            forall|answers: BufferAnswers, now: u64| #[trigger]
                old(self).handles(
                    RpcCall::StopList(FsMetaStopListReq { list_session_id }),
                    answers,
                    now,
                    final(self),
                    Served::Done(r),
                ),
    ;

    fn handle_create_dentry(
        &mut self,
        parent: u64,
        name: String,
        target: DentryTarget,
        expected_parent_rev: u64,
        txid: Option<String>,
        now: u64,
    ) -> (r: Result<(), MetaError>)
        requires
            old(self).ready(),
        ensures
            final(self).ready(),
            forall|answers: BufferAnswers| #[trigger]
                old(self).handles(
                    RpcCall::CreateDentry(FsMetaCreateDentryReq { parent, name, target, expected_parent_rev, txid }),
                    answers,
                    now,
                    final(self),
                    Served::Done(r),
                ),
    ;

    fn handle_delete_dentry(
        &mut self,
        parent: u64,
        name: String,
        expected_parent_rev: u64,
        txid: Option<String>,
        now: u64,
    ) -> (r: Result<(), MetaError>)
        requires
            old(self).ready(),
        ensures
            final(self).ready(),
            forall|answers: BufferAnswers| #[trigger]
                old(self).handles(
                    RpcCall::DeleteDentry(FsMetaDeleteDentryReq { parent, name, expected_parent_rev, txid }),
                    answers,
                    now,
                    final(self),
                    Served::Done(r),
                ),
    ;

    fn handle_replace_target(
        &mut self,
        parent: u64,
        name: String,
        expected_old_target: DentryTarget,
        new_target: DentryTarget,
        expected_parent_rev: u64,
        txid: Option<String>,
        now: u64,
    ) -> (r: Result<(), MetaError>)
        requires
            old(self).ready(),
        ensures
            final(self).ready(),
            forall|answers: BufferAnswers| #[trigger]
                old(self).handles(
                    RpcCall::ReplaceTarget(FsMetaReplaceTargetReq { parent, name, expected_old_target, new_target, expected_parent_rev, txid }),
                    answers,
                    now,
                    final(self),
                    Served::Done(r),
                ),
    ;

    fn handle_bump_dir_rev(
        &mut self,
        dir: u64,
        expected_rev: u64,
        txid: Option<String>,
        now: u64,
    ) -> (r: Result<u64, MetaError>)
        requires
            old(self).ready(),
        ensures
            final(self).ready(),
            forall|answers: BufferAnswers| #[trigger]
                old(self).handles(
                    RpcCall::BumpDirRev(FsMetaBumpDirRevReq { dir, expected_rev, txid }),
                    answers,
                    now,
                    final(self),
                    Served::Id(r),
                ),
    ;

    fn handle_commit(&mut self, txid: Option<String>) -> (r: Result<(), MetaError>)
        requires
            old(self).ready(),
        ensures
            final(self).ready(),
            forall|answers: BufferAnswers, now: u64| #[trigger]
                old(self).handles(
                    RpcCall::Commit(FsMetaCommitReq { txid }),
                    answers,
                    now,
                    final(self),
                    Served::Done(r),
                ),
    ;

    fn handle_rollback(&mut self, txid: Option<String>) -> (r: Result<(), MetaError>)
        requires
            old(self).ready(),
        ensures
            final(self).ready(),
            forall|answers: BufferAnswers, now: u64| #[trigger]
                old(self).handles(
                    RpcCall::Rollback(FsMetaRollbackReq { txid }),
                    answers,
                    now,
                    final(self),
                    Served::Done(r),
                ),
    ;

    fn handle_acquire_file_lease(
        &mut self,
        node_id: u64,
        session: SessionId,
        ttl: Duration,
        now: u64,
    ) -> (r: Result<u64, MetaError>)
        requires
            old(self).ready(),
        ensures
            final(self).ready(),
            forall|answers: BufferAnswers| #[trigger]
                old(self).handles(
                    RpcCall::AcquireFileLease(FsMetaAcquireFileLeaseReq { node_id, session, ttl }),
                    answers,
                    now,
                    final(self),
                    Served::Id(r),
                ),
    ;

    fn handle_renew_file_lease(
        &mut self,
        node_id: u64,
        session: SessionId,
        lease_seq: u64,
        ttl: Duration,
        now: u64,
    ) -> (r: Result<(), MetaError>)
        requires
            old(self).ready(),
        ensures
            final(self).ready(),
            forall|answers: BufferAnswers| #[trigger]
                old(self).handles(
                    RpcCall::RenewFileLease(FsMetaRenewFileLeaseReq { node_id, session, lease_seq, ttl }),
                    answers,
                    now,
                    final(self),
                    Served::Done(r),
                ),
    ;

    fn handle_release_file_lease(
        &mut self,
        node_id: u64,
        session: SessionId,
        lease_seq: u64,
        now: u64,
    ) -> (r: Result<(), MetaError>)
        requires
            old(self).ready(),
        ensures
            final(self).ready(),
            forall|answers: BufferAnswers| #[trigger]
                old(self).handles(
                    RpcCall::ReleaseFileLease(FsMetaReleaseFileLeaseReq { node_id, session, lease_seq }),
                    answers,
                    now,
                    final(self),
                    Served::Done(r),
                ),
    ;

    fn handle_obj_stat_get(&mut self, obj_id: ObjId) -> (r: Result<Option<ObjStat>, MetaError>)
        requires
            old(self).ready(),
        ensures
            final(self).ready(),
            forall|answers: BufferAnswers, now: u64| #[trigger]
                old(self).handles(
                    RpcCall::ObjStatGet(FsMetaObjStatGetReq { obj_id }),
                    answers,
                    now,
                    final(self),
                    Served::Stat(r),
                ),
    ;

    fn handle_obj_stat_bump(
        &mut self,
        obj_id: ObjId,
        delta: i64,
        txid: Option<String>,
        now: u64,
    ) -> (r: Result<u64, MetaError>)
        requires
            old(self).ready(),
        ensures
            final(self).ready(),
            forall|answers: BufferAnswers| #[trigger]
                old(self).handles(
                    RpcCall::ObjStatBump(FsMetaObjStatBumpReq { obj_id, delta, txid }),
                    answers,
                    now,
                    final(self),
                    Served::Id(r),
                ),
    ;

    fn handle_obj_stat_list_zero(
        &mut self,
        older_than_ts: u64,
        limit: u32,
    ) -> (r: Result<Vec<ObjId>, MetaError>)
        requires
            old(self).ready(),
        ensures
            final(self).ready(),
            forall|answers: BufferAnswers, now: u64| #[trigger]
                old(self).handles(
                    RpcCall::ObjStatListZero(FsMetaObjStatListZeroReq { older_than_ts, limit }),
                    answers,
                    now,
                    final(self),
                    Served::Objects(r),
                ),
    ;

    fn handle_obj_stat_delete_if_zero(
        &mut self,
        obj_id: ObjId,
        txid: Option<String>,
        now: u64,
    ) -> (r: Result<bool, MetaError>)
        requires
            old(self).ready(),
        ensures
            final(self).ready(),
            forall|answers: BufferAnswers| #[trigger]
                old(self).handles(
                    RpcCall::ObjStatDeleteIfZero(FsMetaObjStatDeleteIfZeroReq { obj_id, txid }),
                    answers,
                    now,
                    final(self),
                    Served::Flag(r),
                ),
    ;

    fn handle_open_file_writer(
        &mut self,
        parent: u64,
        name: String,
        flag: OpenWriteFlag,
        expected_size: Option<u64>,
        answers: &BufferAnswers,
        now: u64,
    ) -> (r: Result<String, Stop>)
        requires
            old(self).ready(),
        ensures
            final(self).ready(),
            old(self).handles(
                RpcCall::OpenFileWriter(FsMetaOpenFileWriterReq { parent, name, flag, expected_size }),
                *answers,
                now,
                final(self),
                Served::TextOrStop(r),
            ),
    ;
}

impl FsMetaHandler for FSMetaService {
    open spec fn ready(&self) -> bool {
        self.wf()
    }

    open spec fn handles(
        &self,
        call: RpcCall,
        answers: BufferAnswers,
        now: u64,
        after: &Self,
        x: Served,
    ) -> bool {
        serves(*self, call, answers, now, *after, x)
    }

    fn handle_root_dir(&mut self) -> (r: Result<u64, MetaError>) {
        Ok(FSMetaService::handle_root_dir(self))
    }

    fn handle_resolve_path_ex(
        &mut self,
        path: &NfsPath,
        sym_count: u32,
    ) -> (r: Result<Option<FsMetaResolvePathResp>, Stop>) {
        FSMetaService::handle_resolve_path_ex(self, path, sym_count)
    }

    fn handle_begin_txn(&mut self, now: u64) -> (r: Result<String, MetaError>) {
        FSMetaService::handle_begin_txn(self, now)
    }

    fn handle_get_inode(
        &mut self,
        id: u64,
        txid: Option<String>,
        now: u64,
    ) -> (r: Result<Option<NodeRecord>, MetaError>) {
        FSMetaService::handle_get_inode(self, id, txid, now)
    }

    fn handle_set_inode(
        &mut self,
        node: NodeRecord,
        txid: Option<String>,
        now: u64,
    ) -> (r: Result<(), MetaError>) {
        FSMetaService::handle_set_inode(self, node, txid, now)
    }

    fn handle_update_inode_state(
        &mut self,
        node_id: u64,
        new_state: NodeState,
        old_state: NodeState,
        txid: Option<String>,
        now: u64,
    ) -> (r: Result<(), MetaError>) {
        FSMetaService::handle_update_inode_state(self, node_id, new_state, old_state, txid, now)
    }

    fn handle_alloc_inode(
        &mut self,
        node: NodeRecord,
        txid: Option<String>,
        now: u64,
    ) -> (r: Result<u64, MetaError>) {
        FSMetaService::handle_alloc_inode(self, node, txid, now)
    }

    fn handle_get_dentry(
        &mut self,
        parent: u64,
        name: String,
        txid: Option<String>,
        now: u64,
    ) -> (r: Result<Option<DentryRecord>, MetaError>) {
        FSMetaService::handle_get_dentry(self, parent, name, txid, now)
    }

    fn handle_list_dentries(
        &mut self,
        parent: u64,
        txid: Option<String>,
        now: u64,
    ) -> (r: Result<Vec<DentryRecord>, MetaError>) {
        FSMetaService::handle_list_dentries(self, parent, txid, now)
    }

    fn handle_start_list(
        &mut self,
        parent: u64,
        txid: Option<String>,
        now: u64,
    ) -> (r: Result<u64, Stop>) {
        FSMetaService::handle_start_list(self, parent, txid, now)
    }

    fn handle_list_next(
        &mut self,
        list_session_id: u64,
        page_size: u32,
    ) -> (r: Result<NameMap<FsMetaListEntry>, MetaError>) {
        FSMetaService::handle_list_next(self, list_session_id, page_size)
    }

    fn handle_stop_list(&mut self, list_session_id: u64) -> (r: Result<(), MetaError>) {
        FSMetaService::handle_stop_list(self, list_session_id);
        Ok(())
    }

    fn handle_create_dentry(
        &mut self,
        parent: u64,
        name: String,
        target: DentryTarget,
        expected_parent_rev: u64,
        txid: Option<String>,
        now: u64,
    ) -> (r: Result<(), MetaError>) {
        FSMetaService::handle_create_dentry(
            self,
            parent,
            name,
            target,
            expected_parent_rev,
            txid,
            now,
        )
    }

    fn handle_delete_dentry(
        &mut self,
        parent: u64,
        name: String,
        expected_parent_rev: u64,
        txid: Option<String>,
        now: u64,
    ) -> (r: Result<(), MetaError>) {
        FSMetaService::handle_delete_dentry(self, parent, name, expected_parent_rev, txid, now)
    }

    fn handle_replace_target(
        &mut self,
        parent: u64,
        name: String,
        expected_old_target: DentryTarget,
        new_target: DentryTarget,
        expected_parent_rev: u64,
        txid: Option<String>,
        now: u64,
    ) -> (r: Result<(), MetaError>) {
        FSMetaService::handle_replace_target(
            self,
            parent,
            name,
            expected_old_target,
            new_target,
            expected_parent_rev,
            txid,
            now,
        )
    }

    fn handle_bump_dir_rev(
        &mut self,
        dir: u64,
        expected_rev: u64,
        txid: Option<String>,
        now: u64,
    ) -> (r: Result<u64, MetaError>) {
        FSMetaService::handle_bump_dir_rev(self, dir, expected_rev, txid, now)
    }

    fn handle_commit(&mut self, txid: Option<String>) -> (r: Result<(), MetaError>) {
        FSMetaService::handle_commit(self, txid)
    }

    fn handle_rollback(&mut self, txid: Option<String>) -> (r: Result<(), MetaError>) {
        FSMetaService::handle_rollback(self, txid)
    }

    fn handle_acquire_file_lease(
        &mut self,
        node_id: u64,
        session: SessionId,
        ttl: Duration,
        now: u64,
    ) -> (r: Result<u64, MetaError>) {
        FSMetaService::handle_acquire_file_lease(self, node_id, session, ttl.secs, now)
    }

    fn handle_renew_file_lease(
        &mut self,
        node_id: u64,
        session: SessionId,
        lease_seq: u64,
        ttl: Duration,
        now: u64,
    ) -> (r: Result<(), MetaError>) {
        FSMetaService::handle_renew_file_lease(self, node_id, session, lease_seq, ttl.secs, now)
    }

    fn handle_release_file_lease(
        &mut self,
        node_id: u64,
        session: SessionId,
        lease_seq: u64,
        now: u64,
    ) -> (r: Result<(), MetaError>) {
        FSMetaService::handle_release_file_lease(self, node_id, session, lease_seq, now)
    }

    fn handle_obj_stat_get(&mut self, obj_id: ObjId) -> (r: Result<Option<ObjStat>, MetaError>) {
        Ok(FSMetaService::handle_obj_stat_get(self, &obj_id))
    }

    fn handle_obj_stat_bump(
        &mut self,
        obj_id: ObjId,
        delta: i64,
        txid: Option<String>,
        now: u64,
    ) -> (r: Result<u64, MetaError>) {
        FSMetaService::handle_obj_stat_bump(self, obj_id, delta, txid, now)
    }

    fn handle_obj_stat_list_zero(
        &mut self,
        older_than_ts: u64,
        limit: u32,
    ) -> (r: Result<Vec<ObjId>, MetaError>) {
        Ok(FSMetaService::handle_obj_stat_list_zero(self, older_than_ts, limit))
    }

    fn handle_obj_stat_delete_if_zero(
        &mut self,
        obj_id: ObjId,
        txid: Option<String>,
        now: u64,
    ) -> (r: Result<bool, MetaError>) {
        FSMetaService::handle_obj_stat_delete_if_zero(self, obj_id, txid, now)
    }

    fn handle_open_file_writer(
        &mut self,
        parent: u64,
        name: String,
        flag: OpenWriteFlag,
        expected_size: Option<u64>,
        answers: &BufferAnswers,
        now: u64,
    ) -> (r: Result<String, Stop>) {
        FSMetaService::handle_open_file_writer(
            self,
            parent,
            name,
            flag,
            expected_size,
            answers,
            now,
        )
    }
}

/// A server over a handler.
pub struct FsMetaServerHandler<T: FsMetaHandler>(pub T);

impl<T: FsMetaHandler> FsMetaServerHandler<T> {
    pub fn new(handler: T) -> (r: Self)
        ensures
            r.0 == handler,
    {
        FsMetaServerHandler(handler)
    }

    /// Hands a call to the method of the same name, with the parameters of the
    /// call and no others.
    fn serve(&mut self, call: RpcCall, answers: &BufferAnswers, now: u64) -> (r: Served)
        requires
            old(self).0.ready(),
        ensures
            final(self).0.ready(),
            old(self).0.handles(call, *answers, now, &final(self).0, r),
    {
        let handler: &mut T = &mut self.0;
        match call {
            RpcCall::RootDir(_) => Served::Id(handler.handle_root_dir()),
            RpcCall::ResolvePathEx(q) => {
                let path = NfsPath::new(q.path);
                Served::Resolved(handler.handle_resolve_path_ex(&path, q.sym_count))
            },
            RpcCall::BeginTxn(_) => Served::Text(handler.handle_begin_txn(now)),
            RpcCall::GetInode(q) => Served::Inode(handler.handle_get_inode(q.id, q.txid, now)),
            RpcCall::SetInode(q) => Served::Done(handler.handle_set_inode(q.node, q.txid, now)),
            RpcCall::UpdateInodeState(q) => Served::Done(
                handler.handle_update_inode_state(
                    q.node_id,
                    q.new_state,
                    q.old_state,
                    q.txid,
                    now,
                ),
            ),
            RpcCall::AllocInode(q) => Served::Id(handler.handle_alloc_inode(q.node, q.txid, now)),
            RpcCall::GetDentry(q) => Served::Dentry(
                handler.handle_get_dentry(q.parent, q.name, q.txid, now),
            ),
            RpcCall::ListDentries(q) => Served::Dentries(
                handler.handle_list_dentries(q.parent, q.txid, now),
            ),
            RpcCall::StartList(q) => Served::IdOrStop(
                handler.handle_start_list(q.parent, q.txid, now),
            ),
            RpcCall::ListNext(q) => Served::Page(
                handler.handle_list_next(q.list_session_id, q.page_size),
            ),
            RpcCall::StopList(q) => Served::Done(handler.handle_stop_list(q.list_session_id)),
            RpcCall::CreateDentry(q) => Served::Done(
                handler.handle_create_dentry(
                    q.parent,
                    q.name,
                    q.target,
                    q.expected_parent_rev,
                    q.txid,
                    now,
                ),
            ),
            RpcCall::DeleteDentry(q) => Served::Done(
                handler.handle_delete_dentry(q.parent, q.name, q.expected_parent_rev, q.txid, now),
            ),
            RpcCall::ReplaceTarget(q) => Served::Done(
                handler.handle_replace_target(
                    q.parent,
                    q.name,
                    q.expected_old_target,
                    q.new_target,
                    q.expected_parent_rev,
                    q.txid,
                    now,
                ),
            ),
            RpcCall::BumpDirRev(q) => Served::Id(
                handler.handle_bump_dir_rev(q.dir, q.expected_rev, q.txid, now),
            ),
            RpcCall::Commit(q) => Served::Done(handler.handle_commit(q.txid)),
            RpcCall::Rollback(q) => Served::Done(handler.handle_rollback(q.txid)),
            RpcCall::AcquireFileLease(q) => Served::Id(
                handler.handle_acquire_file_lease(q.node_id, q.session, q.ttl, now),
            ),
            RpcCall::RenewFileLease(q) => Served::Done(
                handler.handle_renew_file_lease(q.node_id, q.session, q.lease_seq, q.ttl, now),
            ),
            RpcCall::ReleaseFileLease(q) => Served::Done(
                handler.handle_release_file_lease(q.node_id, q.session, q.lease_seq, now),
            ),
            RpcCall::ObjStatGet(q) => Served::Stat(handler.handle_obj_stat_get(q.obj_id)),
            RpcCall::ObjStatBump(q) => Served::Id(
                handler.handle_obj_stat_bump(q.obj_id, q.delta, q.txid, now),
            ),
            RpcCall::ObjStatListZero(q) => Served::Objects(
                handler.handle_obj_stat_list_zero(q.older_than_ts, q.limit),
            ),
            RpcCall::ObjStatDeleteIfZero(q) => Served::Flag(
                handler.handle_obj_stat_delete_if_zero(q.obj_id, q.txid, now),
            ),
            RpcCall::OpenFileWriter(q) => Served::TextOrStop(
                handler.handle_open_file_writer(
                    q.parent,
                    q.name,
                    q.flag,
                    q.expected_size,
                    answers,
                    now,
                ),
            ),
        }
    }

    /// Serves a call; the response carries the number and the trace of the request.
    pub fn handle_rpc_call(&mut self, req: RpcRequest, answers: &BufferAnswers, now: u64) -> (r: Result<
        RpcResponse,
        Stop,
    >)
        requires
            old(self).0.ready(),
        ensures
            final(self).0.ready(),
            exists|x: Served| #[trigger]
                old(self).0.handles(req.call, *answers, now, &final(self).0, x) && match answered(
                    x,
                ) {
                    Err(s) => r == Err::<RpcResponse, Stop>(s),
                    Ok(result) => r == Ok::<RpcResponse, Stop>(
                        RpcResponse { result, seq: req.seq, trace_id: req.trace_id },
                    ),
                },
    {
        let RpcRequest { call, seq, trace_id } = req;
        let x: Served = self.serve(call, answers, now);
        assert(old(self).0.handles(req.call, *answers, now, &self.0, x));
        match answer(x) {
            Err(s) => Err(s),
            Ok(result) => Ok(RpcResponse { result, seq, trace_id }),
        }
    }
}

} // verus!
