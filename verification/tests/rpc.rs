//! Calls as they come over the network.

use cyfs_meta::errors::MetaError;
use cyfs_meta::list_cache::ListCache;
use cyfs_meta::names::NameMap;
use cyfs_meta::outside::Stop;
use cyfs_meta::paths::NfsPath;
use cyfs_meta::records::{
    DentryRecord, DentryTarget, FileWorkingState, FsMetaListEntry, FsMetaResolvePathResp,
    NodeRecord, NodeState, ObjId, ObjStat, OpenWriteFlag, SessionId,
};
use cyfs_meta::requests::{
    Duration, FsMetaAcquireFileLeaseReq, FsMetaBeginTxnReq, FsMetaCreateDentryReq,
    FsMetaGetDentryReq, FsMetaGetInodeReq, FsMetaListDentriesReq, FsMetaListNextReq,
    FsMetaObjStatBumpReq, FsMetaObjStatDeleteIfZeroReq, FsMetaObjStatGetReq,
    FsMetaObjStatListZeroReq, FsMetaReleaseFileLeaseReq, FsMetaRenewFileLeaseReq,
    FsMetaRootDirReq, FsMetaSetInodeReq, FsMetaStartListReq, FsMetaStopListReq,
};
use cyfs_meta::rpc::{
    FsMetaHandler, FsMetaServerHandler, RpcCall, RpcMethod, RpcRequest, RpcResult, Served,
};
use cyfs_meta::service::FSMetaService;
use cyfs_meta::writer::BufferAnswers;
use std::collections::BTreeMap;

struct Server<T: FsMetaHandler> {
    handler: FsMetaServerHandler<T>,
    seq: u64,
}

impl Server<FSMetaService> {
    fn new() -> Self {
        Server::over(FSMetaService::new())
    }
}

impl<T: FsMetaHandler> Server<T> {
    fn over(handler: T) -> Self {
        Server { handler: FsMetaServerHandler::new(handler), seq: 0 }
    }

    fn try_call(&mut self, call: RpcCall) -> Result<RpcResult, Stop> {
        self.seq += 1;
        let trace_id = Some(format!("trace-{}", self.seq));
        let req = RpcRequest { call, seq: self.seq, trace_id: trace_id.clone() };
        let answers = BufferAnswers { found: None, allocated: None, closed: None };
        let resp = self.handler.handle_rpc_call(req, &answers, 1000)?;
        assert_eq!(resp.seq, self.seq);
        assert_eq!(resp.trace_id, trace_id);
        Ok(resp.result)
    }

    fn call(&mut self, call: RpcCall) -> RpcResult {
        match self.try_call(call) {
            Ok(r) => r,
            Err(_) => panic!("the call failed"),
        }
    }
}

fn sample_node(inode_id: u64) -> NodeRecord {
    NodeRecord {
        inode_id,
        ref_by: None,
        state: NodeState::FileNormal,
        read_only: false,
        base_obj_id: None,
        rev: None,
        meta: Some("{\"k\":\"v\"}".to_string()),
        lease_client_session: None,
        lease_seq: None,
        lease_expire_at: None,
    }
}

fn first_name(page: &NameMap<FsMetaListEntry>) -> &str {
    page.rows[0].0.as_str()
}

#[test]
fn the_root_and_a_transaction_are_handed_out() {
    let mut server = Server::new();
    let root = server.call(RpcCall::RootDir(FsMetaRootDirReq::new()));
    assert!(matches!(root, RpcResult::Id(1)));

    let txid = server.call(RpcCall::BeginTxn(FsMetaBeginTxnReq::new()));
    assert!(matches!(txid, RpcResult::Text(t) if t == "tx-1000-1"));
}

#[test]
fn the_service_serves_inodes_and_entries() {
    let mut server = Server::new();
    let node = NodeRecord { state: NodeState::DirNormal, rev: Some(0), ..sample_node(7) };
    server.call(RpcCall::SetInode(FsMetaSetInodeReq::new(node, None)));
    match server.call(RpcCall::GetInode(FsMetaGetInodeReq::new(7, None))) {
        RpcResult::Inode(Some(got)) => assert_eq!(got.inode_id, 7),
        _ => panic!("no inode"),
    }

    server.call(RpcCall::CreateDentry(FsMetaCreateDentryReq::new(
        7,
        "hello".to_string(),
        DentryTarget::IndexNodeId(7),
        0,
        None,
    )));
    match server.call(RpcCall::GetDentry(FsMetaGetDentryReq::new(7, "hello".to_string(), None))) {
        RpcResult::Dentry(Some(dent)) => match dent.target {
            DentryTarget::IndexNodeId(id) => assert_eq!(id, 7),
            _ => panic!("unexpected dentry target"),
        },
        _ => panic!("no dentry"),
    }

    match server.call(RpcCall::ListDentries(FsMetaListDentriesReq::new(7, None))) {
        RpcResult::Dentries(list) => assert_eq!(list.len(), 1),
        _ => panic!("no list"),
    }

    let id = match server.call(RpcCall::StartList(FsMetaStartListReq::new(7, None))) {
        RpcResult::Id(id) => id,
        _ => panic!("no session"),
    };
    match server.call(RpcCall::ListNext(FsMetaListNextReq::new(id, 1))) {
        RpcResult::Page(page1) => {
            assert_eq!(page1.len(), 1);
            assert_eq!(first_name(&page1), "hello");
        }
        _ => panic!("no page"),
    }
    let stopped = server.call(RpcCall::StopList(FsMetaStopListReq::new(id)));
    assert!(matches!(stopped, RpcResult::Done));
}

#[test]
fn the_service_serves_leases() {
    let mut server = Server::new();
    let file = NodeRecord {
        state: NodeState::Working(FileWorkingState {
            fb_handle: "fb".to_string(),
            last_write_at: 1,
        }),
        ..sample_node(9)
    };
    server.call(RpcCall::SetInode(FsMetaSetInodeReq::new(file, None)));
    let session = || SessionId("s1".to_string());
    let ttl = || Duration { secs: 30, nanos: 0 };
    let req = FsMetaAcquireFileLeaseReq::new(9, session(), ttl());
    let fence = match server.call(RpcCall::AcquireFileLease(req)) {
        RpcResult::Id(fence) => fence,
        _ => panic!("no fence"),
    };
    assert_eq!(fence, 1);

    let req = FsMetaRenewFileLeaseReq::new(9, session(), fence, ttl());
    assert!(matches!(server.call(RpcCall::RenewFileLease(req)), RpcResult::Done));
    let req = FsMetaReleaseFileLeaseReq::new(9, session(), fence);
    assert!(matches!(server.call(RpcCall::ReleaseFileLease(req)), RpcResult::Done));
}

#[test]
fn the_service_serves_object_counts() {
    let mut server = Server::new();
    let obj_id = ObjId::new("sha256".to_string(), "00".to_string());
    let bump = |n| RpcCall::ObjStatBump(FsMetaObjStatBumpReq::new(obj_id.clone(), n, None));
    assert!(matches!(server.call(bump(1)), RpcResult::Id(1)));

    let get = RpcCall::ObjStatGet(FsMetaObjStatGetReq::new(obj_id.clone()));
    match server.call(get) {
        RpcResult::Stat(Some(stat)) => assert_eq!(stat.ref_count, 1),
        _ => panic!("no stat"),
    }

    assert!(matches!(server.call(bump(-1)), RpcResult::Id(0)));

    let list = RpcCall::ObjStatListZero(FsMetaObjStatListZeroReq::new(i64::MAX as u64, 10));
    match server.call(list) {
        RpcResult::Objects(zeros) => assert!(zeros.contains(&obj_id)),
        _ => panic!("no list"),
    }

    let delete = FsMetaObjStatDeleteIfZeroReq::new(obj_id.clone(), None);
    let deleted = server.call(RpcCall::ObjStatDeleteIfZero(delete));
    assert!(matches!(deleted, RpcResult::Flag(true)));
}

#[test]
fn a_refused_call_has_no_answer_but_its_reason() {
    let mut server = Server::new();
    let bump = FsMetaObjStatBumpReq::new(
        ObjId::new("sha256".to_string(), "00".to_string()),
        -1,
        None,
    );
    match server.try_call(RpcCall::ObjStatBump(bump)) {
        Err(Stop::Refused(e)) => assert_eq!(e.message(), "ref_count would be negative"),
        _ => panic!("was not refused"),
    }
}

#[test]
fn methods_are_known_by_their_names() {
    let names = [
        "root_dir",
        "resolve_path_ex",
        "begin_txn",
        "get_inode",
        "set_inode",
        "update_inode_state",
        "alloc_inode",
        "get_dentry",
        "list_dentries",
        "start_list",
        "list_next",
        "stop_list",
        "create_dentry",
        "delete_dentry",
        "replace_target",
        "bump_dir_rev",
        "commit",
        "rollback",
        "acquire_file_lease",
        "renew_file_lease",
        "release_file_lease",
        "obj_stat_get",
        "obj_stat_bump",
        "obj_stat_list_zero",
        "obj_stat_delete_if_zero",
        "open_file_writer",
    ];
    for name in names {
        assert_eq!(RpcMethod::from_name(name).unwrap().name(), name);
    }
    assert!(RpcMethod::from_name("close_file_writer").is_none());
    assert!(RpcMethod::from_name("").is_none());
}

/// A handler of its own, which keeps what it is told.
#[derive(Default)]
struct MockHandler {
    inodes: BTreeMap<u64, NodeRecord>,
    dentries: BTreeMap<(u64, String), DentryRecord>,
    next_dentry: u64,
    lists: ListCache,
    dir_rev: BTreeMap<u64, u64>,
    lease_seq: BTreeMap<u64, u64>,
    stats: Vec<ObjStat>,
}

impl MockHandler {
    fn stat(&mut self, id: &ObjId) -> Option<&mut ObjStat> {
        self.stats.iter_mut().find(|s| s.obj_id == *id)
    }

    fn parent_rev(&self, parent: u64, expected: u64) -> Result<(), MetaError> {
        let node = self.inodes.get(&parent).ok_or(MetaError::ParentInodeNotFound)?;
        if node.rev.unwrap_or(0) != expected {
            return Err(MetaError::RevMismatch);
        }
        Ok(())
    }

    fn bump(&mut self, parent: u64) {
        if let Some(node) = self.inodes.get_mut(&parent) {
            node.rev = Some(node.rev.unwrap_or(0) + 1);
        }
    }
}

impl FsMetaHandler for MockHandler {
    fn ready(&self) -> bool {
        true
    }

    /// Nothing is claimed of the results.
    fn handles(
        &self,
        _call: RpcCall,
        _answers: BufferAnswers,
        _now: u64,
        _after: &Self,
        _x: Served,
    ) -> bool {
        true
    }

    fn handle_root_dir(&mut self) -> Result<u64, MetaError> {
        Ok(1)
    }

    fn handle_resolve_path_ex(
        &mut self,
        _path: &NfsPath,
        _sym_count: u32,
    ) -> Result<Option<FsMetaResolvePathResp>, Stop> {
        Ok(None)
    }

    fn handle_begin_txn(&mut self, _now: u64) -> Result<String, MetaError> {
        Ok("tx-1".to_string())
    }

    fn handle_get_inode(
        &mut self,
        id: u64,
        _txid: Option<String>,
        _now: u64,
    ) -> Result<Option<NodeRecord>, MetaError> {
        Ok(self.inodes.get(&id).cloned())
    }

    fn handle_set_inode(
        &mut self,
        node: NodeRecord,
        _txid: Option<String>,
        _now: u64,
    ) -> Result<(), MetaError> {
        self.inodes.insert(node.inode_id, node);
        Ok(())
    }

    fn handle_update_inode_state(
        &mut self,
        node_id: u64,
        new_state: NodeState,
        _old_state: NodeState,
        _txid: Option<String>,
        _now: u64,
    ) -> Result<(), MetaError> {
        let node = self.inodes.get_mut(&node_id).ok_or(MetaError::InodeNotFound)?;
        node.state = new_state;
        Ok(())
    }

    fn handle_alloc_inode(
        &mut self,
        node: NodeRecord,
        _txid: Option<String>,
        _now: u64,
    ) -> Result<u64, MetaError> {
        let id = node.inode_id;
        self.inodes.insert(id, node);
        Ok(id)
    }

    fn handle_get_dentry(
        &mut self,
        parent: u64,
        name: String,
        _txid: Option<String>,
        _now: u64,
    ) -> Result<Option<DentryRecord>, MetaError> {
        Ok(self.dentries.get(&(parent, name)).cloned())
    }

    fn handle_list_dentries(
        &mut self,
        parent: u64,
        _txid: Option<String>,
        _now: u64,
    ) -> Result<Vec<DentryRecord>, MetaError> {
        Ok(self.dentries.values().filter(|d| d.parent == parent).cloned().collect())
    }

    fn handle_start_list(
        &mut self,
        parent: u64,
        _txid: Option<String>,
        _now: u64,
    ) -> Result<u64, Stop> {
        let mut entries = NameMap::new();
        for d in self.dentries.values().filter(|d| d.parent == parent) {
            let inode = match d.target {
                DentryTarget::IndexNodeId(id) => self.inodes.get(&id).cloned(),
                _ => None,
            };
            let (name, target) = (d.name.clone(), d.target.clone());
            entries.insert(name.clone(), FsMetaListEntry { name, target, inode });
        }
        Ok(self.lists.start_session(entries))
    }

    fn handle_list_next(
        &mut self,
        list_session_id: u64,
        page_size: u32,
    ) -> Result<NameMap<FsMetaListEntry>, MetaError> {
        let page = self.lists.list_next(list_session_id, page_size);
        page.ok_or(MetaError::ListSessionNotFound)
    }

    fn handle_stop_list(&mut self, list_session_id: u64) -> Result<(), MetaError> {
        self.lists.stop_session(list_session_id);
        Ok(())
    }

    fn handle_create_dentry(
        &mut self,
        parent: u64,
        name: String,
        target: DentryTarget,
        expected_parent_rev: u64,
        _txid: Option<String>,
        _now: u64,
    ) -> Result<(), MetaError> {
        self.parent_rev(parent, expected_parent_rev)?;
        let key = (parent, name.clone());
        if self.dentries.contains_key(&key) {
            return Err(MetaError::DentryExists);
        }
        self.next_dentry += 1;
        let id = self.next_dentry;
        self.dentries.insert(key, DentryRecord { id, parent, name, target, mtime: None });
        self.bump(parent);
        Ok(())
    }

    fn handle_delete_dentry(
        &mut self,
        parent: u64,
        name: String,
        expected_parent_rev: u64,
        _txid: Option<String>,
        _now: u64,
    ) -> Result<(), MetaError> {
        self.parent_rev(parent, expected_parent_rev)?;
        if self.dentries.remove(&(parent, name)).is_some() {
            self.bump(parent);
        }
        Ok(())
    }

    fn handle_replace_target(
        &mut self,
        parent: u64,
        name: String,
        expected_old_target: DentryTarget,
        new_target: DentryTarget,
        expected_parent_rev: u64,
        _txid: Option<String>,
        _now: u64,
    ) -> Result<(), MetaError> {
        self.parent_rev(parent, expected_parent_rev)?;
        let d = self.dentries.get_mut(&(parent, name)).ok_or(MetaError::DentryNotFound)?;
        if d.target != expected_old_target {
            return Err(MetaError::TargetMismatch);
        }
        d.target = new_target;
        self.bump(parent);
        Ok(())
    }

    fn handle_bump_dir_rev(
        &mut self,
        dir: u64,
        expected_rev: u64,
        _txid: Option<String>,
        _now: u64,
    ) -> Result<u64, MetaError> {
        let current = self.dir_rev.entry(dir).or_insert(0);
        if *current != expected_rev {
            return Err(MetaError::RevMismatch);
        }
        *current += 1;
        Ok(*current)
    }

    fn handle_commit(&mut self, _txid: Option<String>) -> Result<(), MetaError> {
        Ok(())
    }

    fn handle_rollback(&mut self, _txid: Option<String>) -> Result<(), MetaError> {
        Ok(())
    }

    fn handle_acquire_file_lease(
        &mut self,
        node_id: u64,
        _session: SessionId,
        _ttl: Duration,
        _now: u64,
    ) -> Result<u64, MetaError> {
        let seq = self.lease_seq.entry(node_id).or_insert(0);
        *seq += 1;
        Ok(*seq)
    }

    fn handle_renew_file_lease(
        &mut self,
        node_id: u64,
        _session: SessionId,
        lease_seq: u64,
        _ttl: Duration,
        _now: u64,
    ) -> Result<(), MetaError> {
        if self.lease_seq.get(&node_id).copied().unwrap_or(0) != lease_seq {
            return Err(MetaError::LeaseMismatch);
        }
        Ok(())
    }

    fn handle_release_file_lease(
        &mut self,
        _node_id: u64,
        _session: SessionId,
        _lease_seq: u64,
        _now: u64,
    ) -> Result<(), MetaError> {
        Ok(())
    }

    fn handle_obj_stat_get(&mut self, obj_id: ObjId) -> Result<Option<ObjStat>, MetaError> {
        Ok(self.stat(&obj_id).cloned())
    }

    fn handle_obj_stat_bump(
        &mut self,
        obj_id: ObjId,
        delta: i64,
        _txid: Option<String>,
        _now: u64,
    ) -> Result<u64, MetaError> {
        if self.stat(&obj_id).is_none() {
            let id = obj_id.clone();
            self.stats.push(ObjStat { obj_id: id, ref_count: 0, zero_since: None, updated_at: 0 });
        }
        let entry = self.stat(&obj_id).unwrap();
        let next = entry.ref_count as i64 + delta;
        if next < 0 {
            return Err(MetaError::RefCountNegative);
        }
        entry.ref_count = next as u64;
        entry.zero_since = if next == 0 { Some(0) } else { None };
        Ok(entry.ref_count)
    }

    fn handle_obj_stat_list_zero(
        &mut self,
        older_than_ts: u64,
        limit: u32,
    ) -> Result<Vec<ObjId>, MetaError> {
        let idle = self.stats.iter().filter(|s| s.ref_count == 0);
        let old = idle.filter(|s| s.zero_since.unwrap_or(0) <= older_than_ts);
        Ok(old.take(limit as usize).map(|s| s.obj_id.clone()).collect())
    }

    fn handle_obj_stat_delete_if_zero(
        &mut self,
        obj_id: ObjId,
        _txid: Option<String>,
        _now: u64,
    ) -> Result<bool, MetaError> {
        let before = self.stats.len();
        self.stats.retain(|s| s.obj_id != obj_id || s.ref_count != 0);
        Ok(self.stats.len() < before)
    }

    fn handle_open_file_writer(
        &mut self,
        _parent: u64,
        _name: String,
        _flag: OpenWriteFlag,
        _expected_size: Option<u64>,
        _answers: &BufferAnswers,
        _now: u64,
    ) -> Result<String, Stop> {
        Ok("mock-file-handle".to_string())
    }
}

#[test]
fn test_krpc_root_and_begin_txn() {
    let mut server = Server::over(MockHandler::default());
    let root = server.call(RpcCall::RootDir(FsMetaRootDirReq::new()));
    assert!(matches!(root, RpcResult::Id(1)));
    let txid = server.call(RpcCall::BeginTxn(FsMetaBeginTxnReq::new()));
    assert!(matches!(txid, RpcResult::Text(t) if t == "tx-1"));
}

#[test]
fn test_krpc_inode_and_dentry_flow() {
    let mut server = Server::over(MockHandler::default());
    let node = sample_node(7);
    server.call(RpcCall::SetInode(FsMetaSetInodeReq::new(node, None)));
    match server.call(RpcCall::GetInode(FsMetaGetInodeReq::new(7, None))) {
        RpcResult::Inode(Some(got)) => assert_eq!(got.inode_id, 7),
        _ => panic!("no inode"),
    }

    server.call(RpcCall::CreateDentry(FsMetaCreateDentryReq::new(
        7,
        "hello".to_string(),
        DentryTarget::IndexNodeId(7),
        0,
        None,
    )));
    match server.call(RpcCall::GetDentry(FsMetaGetDentryReq::new(7, "hello".to_string(), None))) {
        RpcResult::Dentry(Some(dent)) => match dent.target {
            DentryTarget::IndexNodeId(id) => assert_eq!(id, 7),
            _ => panic!("unexpected dentry target"),
        },
        _ => panic!("no dentry"),
    }

    match server.call(RpcCall::ListDentries(FsMetaListDentriesReq::new(7, None))) {
        RpcResult::Dentries(list) => assert_eq!(list.len(), 1),
        _ => panic!("no list"),
    }

    let id = match server.call(RpcCall::StartList(FsMetaStartListReq::new(7, None))) {
        RpcResult::Id(id) => id,
        _ => panic!("no session"),
    };
    match server.call(RpcCall::ListNext(FsMetaListNextReq::new(id, 1))) {
        RpcResult::Page(page1) => {
            assert_eq!(page1.len(), 1);
            assert_eq!(first_name(&page1), "hello");
        }
        _ => panic!("no page"),
    }
    let stopped = server.call(RpcCall::StopList(FsMetaStopListReq::new(id)));
    assert!(matches!(stopped, RpcResult::Done));
}

#[test]
fn test_krpc_lease_flow() {
    let mut server = Server::over(MockHandler::default());
    let session = || SessionId("s1".to_string());
    let ttl = || Duration { secs: 30, nanos: 0 };
    let req = FsMetaAcquireFileLeaseReq::new(9, session(), ttl());
    let fence = match server.call(RpcCall::AcquireFileLease(req)) {
        RpcResult::Id(fence) => fence,
        _ => panic!("no fence"),
    };
    assert_eq!(fence, 1);

    let req = FsMetaRenewFileLeaseReq::new(9, session(), fence, ttl());
    assert!(matches!(server.call(RpcCall::RenewFileLease(req)), RpcResult::Done));
    let req = FsMetaReleaseFileLeaseReq::new(9, session(), fence);
    assert!(matches!(server.call(RpcCall::ReleaseFileLease(req)), RpcResult::Done));
}

#[test]
fn test_krpc_obj_stat_flow() {
    let mut server = Server::over(MockHandler::default());
    let obj_id = ObjId::new("sha256".to_string(), "00".to_string());
    let bump = |n| RpcCall::ObjStatBump(FsMetaObjStatBumpReq::new(obj_id.clone(), n, None));
    assert!(matches!(server.call(bump(1)), RpcResult::Id(1)));

    let get = RpcCall::ObjStatGet(FsMetaObjStatGetReq::new(obj_id.clone()));
    match server.call(get) {
        RpcResult::Stat(Some(stat)) => assert_eq!(stat.ref_count, 1),
        _ => panic!("no stat"),
    }

    assert!(matches!(server.call(bump(-1)), RpcResult::Id(0)));

    let list = RpcCall::ObjStatListZero(FsMetaObjStatListZeroReq::new(u64::MAX, 10));
    match server.call(list) {
        RpcResult::Objects(zeros) => assert!(zeros.contains(&obj_id)),
        _ => panic!("no list"),
    }

    let delete = FsMetaObjStatDeleteIfZeroReq::new(obj_id.clone(), None);
    let deleted = server.call(RpcCall::ObjStatDeleteIfZero(delete));
    assert!(matches!(deleted, RpcResult::Flag(true)));
}
