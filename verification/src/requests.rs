//! The requests that travel to the metadata service.

use vstd::prelude::*;
use crate::records::{DentryTarget, IndexNodeId, NodeRecord, NodeState, ObjId, OpenWriteFlag, SessionId};

verus! {

/// A span of time: whole seconds and the nanoseconds beyond them.
#[derive(Debug, Clone, Copy, PartialEq, Eq, Structural)]
pub struct Duration {
    pub secs: u64,
    pub nanos: u32,
}

#[derive(Debug, Clone, PartialEq, Eq)]
pub struct FsMetaRootDirReq;

impl FsMetaRootDirReq {
    pub fn new() -> (r: Self)
        ensures
            r == FsMetaRootDirReq,
    {
        FsMetaRootDirReq
    }
}

#[derive(Debug, Clone, PartialEq, Eq)]
pub struct FsMetaResolvePathExReq {
    pub path: String,
    pub sym_count: u32,
}

impl FsMetaResolvePathExReq {
    pub fn new(path: String, sym_count: u32) -> (r: Self)
        ensures
            r == (FsMetaResolvePathExReq { path, sym_count }),
    {
        FsMetaResolvePathExReq { path, sym_count }
    }
}

#[derive(Debug, Clone, PartialEq, Eq)]
pub struct FsMetaBeginTxnReq;

impl FsMetaBeginTxnReq {
    pub fn new() -> (r: Self)
        ensures
            r == FsMetaBeginTxnReq,
    {
        FsMetaBeginTxnReq
    }
}

#[derive(Debug, Clone, PartialEq, Eq)]
pub struct FsMetaGetInodeReq {
    pub id: IndexNodeId,
    pub txid: Option<String>,
}

impl FsMetaGetInodeReq {
    pub fn new(id: IndexNodeId, txid: Option<String>) -> (r: Self)
        ensures
            r == (FsMetaGetInodeReq { id, txid }),
    {
        FsMetaGetInodeReq { id, txid }
    }
}

#[derive(Debug, Clone, PartialEq, Eq)]
pub struct FsMetaSetInodeReq {
    pub node: NodeRecord,
    pub txid: Option<String>,
}

impl FsMetaSetInodeReq {
    pub fn new(node: NodeRecord, txid: Option<String>) -> (r: Self)
        ensures
            r == (FsMetaSetInodeReq { node, txid }),
    {
        FsMetaSetInodeReq { node, txid }
    }
}

#[derive(Debug, Clone, PartialEq, Eq)]
pub struct FsMetaUpdateInodeStateReq {
    pub node_id: IndexNodeId,
    pub new_state: NodeState,
    pub old_state: NodeState,
    pub txid: Option<String>,
}

impl FsMetaUpdateInodeStateReq {
    pub fn new(node_id: IndexNodeId, new_state: NodeState, old_state: NodeState, txid: Option<String>) -> (r: Self)
        ensures
            r == (FsMetaUpdateInodeStateReq { node_id, new_state, old_state, txid }),
    {
        FsMetaUpdateInodeStateReq { node_id, new_state, old_state, txid }
    }
}

#[derive(Debug, Clone, PartialEq, Eq)]
pub struct FsMetaAllocInodeReq {
    pub node: NodeRecord,
    pub txid: Option<String>,
}

impl FsMetaAllocInodeReq {
    pub fn new(node: NodeRecord, txid: Option<String>) -> (r: Self)
        ensures
            r == (FsMetaAllocInodeReq { node, txid }),
    {
        FsMetaAllocInodeReq { node, txid }
    }
}

#[derive(Debug, Clone, PartialEq, Eq)]
pub struct FsMetaGetDentryReq {
    pub parent: IndexNodeId,
    pub name: String,
    pub txid: Option<String>,
}

impl FsMetaGetDentryReq {
    pub fn new(parent: IndexNodeId, name: String, txid: Option<String>) -> (r: Self)
        ensures
            r == (FsMetaGetDentryReq { parent, name, txid }),
    {
        FsMetaGetDentryReq { parent, name, txid }
    }
}

#[derive(Debug, Clone, PartialEq, Eq)]
pub struct FsMetaListDentriesReq {
    pub parent: IndexNodeId,
    pub txid: Option<String>,
}

impl FsMetaListDentriesReq {
    pub fn new(parent: IndexNodeId, txid: Option<String>) -> (r: Self)
        ensures
            r == (FsMetaListDentriesReq { parent, txid }),
    {
        FsMetaListDentriesReq { parent, txid }
    }
}

#[derive(Debug, Clone, PartialEq, Eq)]
pub struct FsMetaStartListReq {
    pub parent: IndexNodeId,
    pub txid: Option<String>,
}

impl FsMetaStartListReq {
    pub fn new(parent: IndexNodeId, txid: Option<String>) -> (r: Self)
        ensures
            r == (FsMetaStartListReq { parent, txid }),
    {
        FsMetaStartListReq { parent, txid }
    }
}

#[derive(Debug, Clone, PartialEq, Eq)]
pub struct FsMetaListNextReq {
    pub list_session_id: u64,
    pub page_size: u32,
}

impl FsMetaListNextReq {
    pub fn new(list_session_id: u64, page_size: u32) -> (r: Self)
        ensures
            r == (FsMetaListNextReq { list_session_id, page_size }),
    {
        FsMetaListNextReq { list_session_id, page_size }
    }
}

#[derive(Debug, Clone, PartialEq, Eq)]
pub struct FsMetaStopListReq {
    pub list_session_id: u64,
}

impl FsMetaStopListReq {
    pub fn new(list_session_id: u64) -> (r: Self)
        ensures
            r == (FsMetaStopListReq { list_session_id }),
    {
        FsMetaStopListReq { list_session_id }
    }
}

#[derive(Debug, Clone, PartialEq, Eq)]
pub struct FsMetaCreateDentryReq {
    pub parent: IndexNodeId,
    pub name: String,
    pub target: DentryTarget,
    pub expected_parent_rev: u64,
    pub txid: Option<String>,
}

impl FsMetaCreateDentryReq {
    pub fn new(parent: IndexNodeId, name: String, target: DentryTarget, expected_parent_rev: u64, txid: Option<String>) -> (r: Self)
        ensures
            r == (FsMetaCreateDentryReq { parent, name, target, expected_parent_rev, txid }),
    {
        FsMetaCreateDentryReq { parent, name, target, expected_parent_rev, txid }
    }
}

#[derive(Debug, Clone, PartialEq, Eq)]
pub struct FsMetaDeleteDentryReq {
    pub parent: IndexNodeId,
    pub name: String,
    pub expected_parent_rev: u64,
    pub txid: Option<String>,
}

impl FsMetaDeleteDentryReq {
    pub fn new(parent: IndexNodeId, name: String, expected_parent_rev: u64, txid: Option<String>) -> (r: Self)
        ensures
            r == (FsMetaDeleteDentryReq { parent, name, expected_parent_rev, txid }),
    {
        FsMetaDeleteDentryReq { parent, name, expected_parent_rev, txid }
    }
}

#[derive(Debug, Clone, PartialEq, Eq)]
pub struct FsMetaReplaceTargetReq {
    pub parent: IndexNodeId,
    pub name: String,
    pub expected_old_target: DentryTarget,
    pub new_target: DentryTarget,
    pub expected_parent_rev: u64,
    pub txid: Option<String>,
}

impl FsMetaReplaceTargetReq {
    pub fn new(parent: IndexNodeId, name: String, expected_old_target: DentryTarget, new_target: DentryTarget, expected_parent_rev: u64, txid: Option<String>) -> (r: Self)
        ensures
            r == (FsMetaReplaceTargetReq { parent, name, expected_old_target, new_target, expected_parent_rev, txid }),
    {
        FsMetaReplaceTargetReq { parent, name, expected_old_target, new_target, expected_parent_rev, txid }
    }
}

#[derive(Debug, Clone, PartialEq, Eq)]
pub struct FsMetaBumpDirRevReq {
    pub dir: IndexNodeId,
    pub expected_rev: u64,
    pub txid: Option<String>,
}

impl FsMetaBumpDirRevReq {
    pub fn new(dir: IndexNodeId, expected_rev: u64, txid: Option<String>) -> (r: Self)
        ensures
            r == (FsMetaBumpDirRevReq { dir, expected_rev, txid }),
    {
        FsMetaBumpDirRevReq { dir, expected_rev, txid }
    }
}

#[derive(Debug, Clone, PartialEq, Eq)]
pub struct FsMetaCommitReq {
    pub txid: Option<String>,
}

impl FsMetaCommitReq {
    pub fn new(txid: Option<String>) -> (r: Self)
        ensures
            r == (FsMetaCommitReq { txid }),
    {
        FsMetaCommitReq { txid }
    }
}

#[derive(Debug, Clone, PartialEq, Eq)]
pub struct FsMetaRollbackReq {
    pub txid: Option<String>,
}

impl FsMetaRollbackReq {
    pub fn new(txid: Option<String>) -> (r: Self)
        ensures
            r == (FsMetaRollbackReq { txid }),
    {
        FsMetaRollbackReq { txid }
    }
}

#[derive(Debug, Clone, PartialEq, Eq)]
pub struct FsMetaAcquireFileLeaseReq {
    pub node_id: IndexNodeId,
    pub session: SessionId,
    pub ttl: Duration,
}

impl FsMetaAcquireFileLeaseReq {
    pub fn new(node_id: IndexNodeId, session: SessionId, ttl: Duration) -> (r: Self)
        ensures
            r == (FsMetaAcquireFileLeaseReq { node_id, session, ttl }),
    {
        FsMetaAcquireFileLeaseReq { node_id, session, ttl }
    }
}

#[derive(Debug, Clone, PartialEq, Eq)]
pub struct FsMetaRenewFileLeaseReq {
    pub node_id: IndexNodeId,
    pub session: SessionId,
    pub lease_seq: u64,
    pub ttl: Duration,
}

impl FsMetaRenewFileLeaseReq {
    pub fn new(node_id: IndexNodeId, session: SessionId, lease_seq: u64, ttl: Duration) -> (r: Self)
        ensures
            r == (FsMetaRenewFileLeaseReq { node_id, session, lease_seq, ttl }),
    {
        FsMetaRenewFileLeaseReq { node_id, session, lease_seq, ttl }
    }
}

#[derive(Debug, Clone, PartialEq, Eq)]
pub struct FsMetaReleaseFileLeaseReq {
    pub node_id: IndexNodeId,
    pub session: SessionId,
    pub lease_seq: u64,
}

impl FsMetaReleaseFileLeaseReq {
    pub fn new(node_id: IndexNodeId, session: SessionId, lease_seq: u64) -> (r: Self)
        ensures
            r == (FsMetaReleaseFileLeaseReq { node_id, session, lease_seq }),
    {
        FsMetaReleaseFileLeaseReq { node_id, session, lease_seq }
    }
}

#[derive(Debug, Clone, PartialEq, Eq)]
pub struct FsMetaObjStatGetReq {
    pub obj_id: ObjId,
}

impl FsMetaObjStatGetReq {
    pub fn new(obj_id: ObjId) -> (r: Self)
        ensures
            r == (FsMetaObjStatGetReq { obj_id }),
    {
        FsMetaObjStatGetReq { obj_id }
    }
}

#[derive(Debug, Clone, PartialEq, Eq)]
pub struct FsMetaObjStatBumpReq {
    pub obj_id: ObjId,
    pub delta: i64,
    pub txid: Option<String>,
}

impl FsMetaObjStatBumpReq {
    pub fn new(obj_id: ObjId, delta: i64, txid: Option<String>) -> (r: Self)
        ensures
            r == (FsMetaObjStatBumpReq { obj_id, delta, txid }),
    {
        FsMetaObjStatBumpReq { obj_id, delta, txid }
    }
}

#[derive(Debug, Clone, PartialEq, Eq)]
pub struct FsMetaObjStatListZeroReq {
    pub older_than_ts: u64,
    pub limit: u32,
}

impl FsMetaObjStatListZeroReq {
    pub fn new(older_than_ts: u64, limit: u32) -> (r: Self)
        ensures
            r == (FsMetaObjStatListZeroReq { older_than_ts, limit }),
    {
        FsMetaObjStatListZeroReq { older_than_ts, limit }
    }
}

#[derive(Debug, Clone, PartialEq, Eq)]
pub struct FsMetaObjStatDeleteIfZeroReq {
    pub obj_id: ObjId,
    pub txid: Option<String>,
}

impl FsMetaObjStatDeleteIfZeroReq {
    pub fn new(obj_id: ObjId, txid: Option<String>) -> (r: Self)
        ensures
            r == (FsMetaObjStatDeleteIfZeroReq { obj_id, txid }),
    {
        FsMetaObjStatDeleteIfZeroReq { obj_id, txid }
    }
}

#[derive(Debug, Clone, PartialEq, Eq)]
pub struct FsMetaOpenFileWriterReq {
    pub parent: IndexNodeId,
    pub name: String,
    pub flag: OpenWriteFlag,
    pub expected_size: Option<u64>,
}

impl FsMetaOpenFileWriterReq {
    pub fn new(parent: IndexNodeId, name: String, flag: OpenWriteFlag, expected_size: Option<u64>) -> (r: Self)
        ensures
            r == (FsMetaOpenFileWriterReq { parent, name, flag, expected_size }),
    {
        FsMetaOpenFileWriterReq { parent, name, flag, expected_size }
    }
}

} // verus!
