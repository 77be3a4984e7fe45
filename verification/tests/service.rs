//! The metadata service through its requests.

use cyfs_meta::buffer::{HandleCounter, LocalFileBufferService};
use cyfs_meta::ensure::When;
use cyfs_meta::errors::{LoadStep, MetaError, Stage};
use cyfs_meta::finalize::FinalizeStep;
use cyfs_meta::outside::{BaseReply, DirReply, Question, Stop};
use cyfs_meta::paths::NfsPath;
use cyfs_meta::records::{
    ClientSessionId, DentryRecord, DentryTarget, FileCoolingState, FileLinkedState,
    FileWorkingState, FinalizedObjState, FsMetaListEntry, FsMetaResolvePathItem,
    FsMetaResolvePathResp, IndexNodeId, NodeKind, NodeRecord, NodeState, ObjId, ObjStat,
    OpenFileReaderResp, OpenWriteFlag, SessionId,
};
use cyfs_meta::service::FSMetaService;
use cyfs_meta::tables::{to_row, MetaTables};
use cyfs_meta::writer::{AllocAnswer, BufferAnswers, HandleAnswer};
use std::cell::{Cell, RefCell};
use std::collections::BTreeMap;
use std::time::Duration;

/// A file object that goes into a directory object.
struct FileObject {
    name: String,
    size: u64,
    content: String,
}

impl FileObject {
    fn new(name: String, size: u64, content: String) -> Self {
        FileObject { name, size, content }
    }
}

/// A directory object: its children by name.
struct DirObject {
    name: String,
    children: Vec<(String, ObjId)>,
}

impl DirObject {
    fn new(name: Option<String>) -> Self {
        DirObject { name: name.unwrap_or_default(), children: Vec::new() }
    }

    fn add_file(&mut self, name: String, file: FileObject, _size: u64) -> Result<(), String> {
        let hash = format!("{}-{}-{}", file.name, file.size, file.content);
        self.children.push((name, ObjId::new("cyfile".to_string(), hash)));
        Ok(())
    }

    fn add_directory(&mut self, name: String, id: ObjId, _size: u64) -> Result<(), String> {
        self.children.push((name, id));
        Ok(())
    }

    fn get(&self, name: &str) -> Option<ObjId> {
        self.children.iter().find(|c| c.0 == name).map(|c| c.1.clone())
    }

    fn gen_obj_id(&self) -> (ObjId, Vec<(String, ObjId)>) {
        let mut hash = self.name.clone();
        for (name, id) in &self.children {
            hash = format!("{}/{}={}", hash, name, id.obj_hash);
        }
        (ObjId::new("cydir".to_string(), hash), self.children.clone())
    }
}

/// The service with a clock, an object store and a buffer service around it.
struct Svc {
    inner: RefCell<FSMetaService>,
    clock: Cell<u64>,
    objects: RefCell<Vec<(ObjId, Vec<(String, ObjId)>)>>,
    buffers: RefCell<LocalFileBufferService>,
    handles: RefCell<HandleCounter>,
}

fn no_answers() -> BufferAnswers {
    BufferAnswers { found: None, allocated: None, closed: None }
}

fn text<T>(r: Result<T, MetaError>) -> Result<T, String> {
    r.map_err(|e| e.message())
}

impl Svc {
    fn around(inner: FSMetaService) -> Self {
        Svc {
            inner: RefCell::new(inner),
            clock: Cell::new(1_000_000),
            objects: RefCell::new(Vec::new()),
            buffers: RefCell::new(LocalFileBufferService::new("/fb".to_string(), 0, Vec::new())),
            handles: RefCell::new(HandleCounter::new()),
        }
    }

    fn now(&self) -> u64 {
        self.clock.get()
    }

    /// Lets time pass; leases that ran out are reclaimed.
    fn pass(&self, secs: u64) {
        self.clock.set(self.now() + secs);
        self.inner.borrow_mut().reclaim_expired_write_leases(self.now()).unwrap();
    }

    fn put_object(&self, id: &ObjId, children: &[(String, ObjId)]) {
        self.objects.borrow_mut().push((id.clone(), children.to_vec()));
    }

    fn children_of(&self, dir: &ObjId) -> Option<Vec<(String, ObjId)>> {
        self.objects.borrow().iter().find(|o| o.0 == *dir).map(|o| o.1.clone())
    }

    fn answer(&self, question: Question, answers: &mut BufferAnswers) {
        match question {
            Question::BaseChild { dir, name } => {
                let reply = match self.children_of(&dir) {
                    None => BaseReply::Failed(format!("object not found: {}", dir.obj_hash)),
                    Some(c) => match c.into_iter().find(|e| e.0 == name) {
                        Some((_, id)) => BaseReply::Found(id),
                        None => BaseReply::Missing,
                    },
                };
                self.inner.borrow_mut().rest.base.learn(dir, name, reply);
            }
            Question::BaseChildren { dir } => {
                let reply = match self.children_of(&dir) {
                    None => DirReply::Failed(LoadStep::Load, "object not found".to_string()),
                    Some(c) => DirReply::Children(c),
                };
                self.inner.borrow_mut().rest.base.learn_children(dir, reply);
            }
            Question::GetBuffer { handle } => {
                let found = self.buffers.borrow().get_record(&handle);
                let said = found.map(|_| ()).map_err(|e| e.message());
                answers.found = Some(HandleAnswer { handle, said });
            }
            Question::AllocBuffer { file_id, session, lease_seq, expected_size, .. } => {
                let mut buffers = self.buffers.borrow_mut();
                let mut handles = self.handles.borrow_mut();
                let base = Vec::new();
                let now = self.now();
                let got = buffers.alloc_buffer(&mut handles, file_id, base, expected_size, now);
                let made = match got {
                    Ok(record) => {
                        let handle = record.handle_id.clone();
                        buffers.insert_record(record);
                        Ok(handle)
                    }
                    Err(e) => Err(e.message()),
                };
                answers.allocated = Some(AllocAnswer { file_id, session, lease_seq, made });
            }
            Question::CloseBuffer { handle } => {
                answers.closed = Some(HandleAnswer { handle, said: Ok(()) });
            }
        }
    }

    /// Repeats a request until nothing is left to ask.
    fn ask<T>(
        &self,
        request: impl Fn(&mut FSMetaService, &BufferAnswers) -> Result<T, Stop>,
    ) -> Result<T, String> {
        let mut answers = no_answers();
        loop {
            let r = request(&mut self.inner.borrow_mut(), &answers);
            match r {
                Ok(v) => return Ok(v),
                Err(Stop::Refused(e)) => return Err(e.message()),
                Err(Stop::Ask(q)) => self.answer(q, &mut answers),
            }
        }
    }

    fn handle_root_dir(&self) -> Result<u64, String> {
        Ok(self.inner.borrow().handle_root_dir())
    }

    fn handle_get_inode(&self, id: u64, tx: Option<String>) -> Result<Option<NodeRecord>, String> {
        text(self.inner.borrow_mut().handle_get_inode(id, tx, self.now()))
    }

    fn handle_set_inode(&self, node: NodeRecord, tx: Option<String>) -> Result<(), String> {
        text(self.inner.borrow_mut().handle_set_inode(node, tx, self.now()))
    }

    fn handle_alloc_inode(&self, node: NodeRecord, tx: Option<String>) -> Result<u64, String> {
        text(self.inner.borrow_mut().handle_alloc_inode(node, tx, self.now()))
    }

    fn handle_update_inode_state(
        &self,
        id: u64,
        new: NodeState,
        old: NodeState,
        tx: Option<String>,
    ) -> Result<(), String> {
        text(self.inner.borrow_mut().handle_update_inode_state(id, new, old, tx, self.now()))
    }

    fn handle_get_dentry(
        &self,
        parent: u64,
        name: String,
        tx: Option<String>,
    ) -> Result<Option<DentryRecord>, String> {
        text(self.inner.borrow_mut().handle_get_dentry(parent, name, tx, self.now()))
    }

    fn handle_list_dentries(
        &self,
        parent: u64,
        tx: Option<String>,
    ) -> Result<Vec<DentryRecord>, String> {
        text(self.inner.borrow_mut().handle_list_dentries(parent, tx, self.now()))
    }

    fn handle_start_list(&self, parent: u64, tx: Option<String>) -> Result<u64, String> {
        self.ask(|s, _| s.handle_start_list(parent, tx.clone(), self.now()))
    }

    fn handle_list_next(
        &self,
        id: u64,
        size: u32,
    ) -> Result<BTreeMap<String, FsMetaListEntry>, String> {
        let page = text(self.inner.borrow_mut().handle_list_next(id, size))?;
        Ok(page.rows.into_iter().collect())
    }

    fn handle_stop_list(&self, id: u64) -> Result<(), String> {
        self.inner.borrow_mut().handle_stop_list(id);
        Ok(())
    }

    fn handle_create_dentry(
        &self,
        parent: u64,
        name: String,
        target: DentryTarget,
        rev: u64,
        tx: Option<String>,
    ) -> Result<(), String> {
        let now = self.now();
        text(self.inner.borrow_mut().handle_create_dentry(parent, name, target, rev, tx, now))
    }

    fn handle_delete_dentry(
        &self,
        parent: u64,
        name: String,
        rev: u64,
        tx: Option<String>,
    ) -> Result<(), String> {
        text(self.inner.borrow_mut().handle_delete_dentry(parent, name, rev, tx, self.now()))
    }

    fn handle_replace_target(
        &self,
        parent: u64,
        name: String,
        old: DentryTarget,
        new: DentryTarget,
        rev: u64,
        tx: Option<String>,
    ) -> Result<(), String> {
        let now = self.now();
        text(self.inner.borrow_mut().handle_replace_target(parent, name, old, new, rev, tx, now))
    }

    fn handle_bump_dir_rev(&self, dir: u64, rev: u64, tx: Option<String>) -> Result<u64, String> {
        text(self.inner.borrow_mut().handle_bump_dir_rev(dir, rev, tx, self.now()))
    }

    fn handle_begin_txn(&self) -> Result<String, String> {
        text(self.inner.borrow_mut().handle_begin_txn(self.now()))
    }

    fn handle_commit(&self, tx: Option<String>) -> Result<(), String> {
        text(self.inner.borrow_mut().handle_commit(tx))
    }

    fn handle_rollback(&self, tx: Option<String>) -> Result<(), String> {
        text(self.inner.borrow_mut().handle_rollback(tx))
    }

    fn handle_acquire_file_lease(
        &self,
        id: u64,
        session: SessionId,
        ttl: Duration,
    ) -> Result<u64, String> {
        let now = self.now();
        text(self.inner.borrow_mut().handle_acquire_file_lease(id, session, ttl.as_secs(), now))
    }

    fn handle_renew_file_lease(
        &self,
        id: u64,
        session: SessionId,
        seq: u64,
        ttl: Duration,
    ) -> Result<(), String> {
        let now = self.now();
        text(self.inner.borrow_mut().handle_renew_file_lease(id, session, seq, ttl.as_secs(), now))
    }

    fn handle_release_file_lease(
        &self,
        id: u64,
        session: SessionId,
        seq: u64,
    ) -> Result<(), String> {
        text(self.inner.borrow_mut().handle_release_file_lease(id, session, seq, self.now()))
    }

    fn handle_obj_stat_get(&self, id: ObjId) -> Result<Option<ObjStat>, String> {
        Ok(self.inner.borrow().handle_obj_stat_get(&id))
    }

    fn handle_obj_stat_bump(
        &self,
        id: ObjId,
        delta: i64,
        tx: Option<String>,
    ) -> Result<u64, String> {
        text(self.inner.borrow_mut().handle_obj_stat_bump(id, delta, tx, self.now()))
    }

    fn handle_obj_stat_list_zero(&self, before: u64, limit: u32) -> Result<Vec<ObjId>, String> {
        Ok(self.inner.borrow().handle_obj_stat_list_zero(before, limit))
    }

    fn handle_obj_stat_delete_if_zero(
        &self,
        id: ObjId,
        tx: Option<String>,
    ) -> Result<bool, String> {
        text(self.inner.borrow_mut().handle_obj_stat_delete_if_zero(id, tx, self.now()))
    }

    fn handle_resolve_path_ex(
        &self,
        path: &NfsPath,
        sym_count: u32,
    ) -> Result<Option<FsMetaResolvePathResp>, String> {
        self.ask(|s, _| s.handle_resolve_path_ex(path, sym_count))
    }

    fn handle_set_file(&self, parent: u64, name: String, id: ObjId) -> Result<String, String> {
        self.ask(|s, _| s.handle_set_file(parent, name.clone(), id.clone(), self.now()))
    }

    fn handle_set_dir(&self, parent: u64, name: String, id: ObjId) -> Result<String, String> {
        self.ask(|s, _| s.handle_set_dir(parent, name.clone(), id.clone(), self.now()))
    }

    fn handle_delete(&self, parent: u64, name: String) -> Result<(), String> {
        self.ask(|s, _| s.handle_delete(parent, name.clone(), self.now()))
    }

    fn handle_move_path(
        &self,
        src: u64,
        src_name: String,
        dst: u64,
        dst_name: String,
    ) -> Result<(), String> {
        self.ask(|s, _| {
            s.handle_move_path(src, src_name.clone(), dst, dst_name.clone(), self.now())
        })
    }

    fn handle_symlink(&self, parent: u64, name: String, target: String) -> Result<(), String> {
        self.ask(|s, _| s.handle_symlink(parent, name.clone(), target.clone(), self.now()))
    }

    fn handle_create_dir(&self, parent: u64, name: String) -> Result<(), String> {
        self.ask(|s, _| s.handle_create_dir(parent, name.clone(), self.now()))
    }

    fn handle_open_file_writer(
        &self,
        parent: u64,
        name: String,
        flag: OpenWriteFlag,
        expected_size: Option<u64>,
    ) -> Result<String, String> {
        self.ask(|s, a| {
            s.handle_open_file_writer(parent, name.clone(), flag, expected_size, a, self.now())
        })
    }

    fn handle_close_file_writer(&self, id: u64) -> Result<(), String> {
        self.ask(|s, a| s.handle_close_file_writer(id, a, self.now()))
    }

    fn handle_remove_inode(&self, id: u64) -> Result<(), String> {
        text(self.inner.borrow_mut().handle_remove_inode(id, None, self.now()))
    }

    fn handle_open_file_reader(&self, path: &NfsPath) -> Result<OpenFileReaderResp, String> {
        self.ask(|s, _| s.handle_open_file_reader(path))
    }

    fn plan_finalize_dir(&self, path: &NfsPath) -> Result<FinalizeStep, String> {
        self.ask(|s, _| s.plan_finalize_dir(path, self.now()))
    }

    fn inode_at(&self, p: &str) -> u64 {
        match self.handle_resolve_path_ex(&path(p), 0).unwrap().unwrap().item {
            FsMetaResolvePathItem::Inode { inode_id, .. } => inode_id,
            _ => panic!("no inode at {}", p),
        }
    }

    fn ensure_dir_inode(&self, path: &NfsPath) -> Result<u64, String> {
        self.ask(|s, _| s.ensure_dir_inode(path, self.now()))
    }
}

fn create_test_service() -> Svc {
    Svc::around(FSMetaService::new())
}

fn create_test_service_with_buffer() -> Svc {
    Svc::around(FSMetaService::new().with_buffer("test-instance".to_string()))
}

fn create_test_service_with_store() -> Svc {
    Svc::around(FSMetaService::new().with_named_store())
}

fn create_test_service_with_store_and_buffer() -> Svc {
    let service = FSMetaService::new().with_named_store();
    Svc::around(service.with_buffer("test-instance".to_string()))
}

fn create_obj_id(seed: u8) -> ObjId {
    ObjId::new("file".to_string(), format!("{:02x}", seed).repeat(32))
}

fn path(s: &str) -> NfsPath {
    NfsPath::new(s.to_string())
}

fn split_parent_name_with_ensure(svc: &Svc, path: &NfsPath) -> Result<(u64, String), String> {
    let (parent_path, name) = path.split_parent_name().ok_or("invalid path".to_string())?;
    let parent = svc.ensure_dir_inode(&parent_path)?;
    Ok((parent, name))
}

fn handle_create_dir_path(svc: &Svc, path: &NfsPath) -> Result<(), String> {
    let (parent, name) = split_parent_name_with_ensure(svc, path)?;
    svc.handle_create_dir(parent, name)
}

fn handle_set_file_path(svc: &Svc, path: &NfsPath, id: ObjId) -> Result<String, String> {
    let (parent, name) = split_parent_name_with_ensure(svc, path)?;
    svc.handle_set_file(parent, name, id)
}

fn handle_set_dir_path(svc: &Svc, path: &NfsPath, id: ObjId) -> Result<String, String> {
    let (parent, name) = split_parent_name_with_ensure(svc, path)?;
    svc.handle_set_dir(parent, name, id)
}

fn handle_symlink_path(svc: &Svc, link: &NfsPath, target: &NfsPath) -> Result<(), String> {
    let (parent, name) = split_parent_name_with_ensure(svc, link)?;
    svc.handle_symlink(parent, name, target.as_str().to_string())
}

fn handle_open_file_writer_path(
    svc: &Svc,
    path: &NfsPath,
    flag: OpenWriteFlag,
    expected_size: Option<u64>,
) -> Result<String, String> {
    let (parent, name) = split_parent_name_with_ensure(svc, path)?;
    svc.handle_open_file_writer(parent, name, flag, expected_size)
}

fn create_dir_node(inode_id: IndexNodeId) -> NodeRecord {
    NodeRecord {
        inode_id,
        ref_by: None,
        read_only: false,
        base_obj_id: None,
        state: NodeState::DirNormal,
        rev: Some(0),
        meta: None,
        lease_client_session: None,
        lease_seq: None,
        lease_expire_at: None,
    }
}

fn create_file_node_working(inode_id: IndexNodeId, fb_handle: &str) -> NodeRecord {
    NodeRecord {
        state: NodeState::Working(FileWorkingState {
            fb_handle: fb_handle.to_string(),
            last_write_at: 1000,
        }),
        rev: None,
        ..create_dir_node(inode_id)
    }
}

fn parent_rev(svc: &Svc, parent: IndexNodeId, txid: Option<String>) -> u64 {
    svc.handle_get_inode(parent, txid).unwrap().unwrap().rev.unwrap_or(0)
}

fn upsert_dentry_auto(
    svc: &Svc,
    parent: IndexNodeId,
    name: String,
    target: DentryTarget,
    txid: Option<String>,
) -> Result<(), String> {
    let rev = parent_rev(svc, parent, txid.clone());
    match svc.handle_get_dentry(parent, name.clone(), txid.clone())? {
        Some(d) => svc.handle_replace_target(parent, name, d.target, target, rev, txid),
        None => svc.handle_create_dentry(parent, name, target, rev, txid),
    }
}

fn set_tombstone_auto(
    svc: &Svc,
    parent: IndexNodeId,
    name: String,
    txid: Option<String>,
) -> Result<(), String> {
    upsert_dentry_auto(svc, parent, name, DentryTarget::Tombstone, txid)
}

fn delete_dentry_auto(
    svc: &Svc,
    parent: IndexNodeId,
    name: String,
    txid: Option<String>,
) -> Result<(), String> {
    let rev = parent_rev(svc, parent, txid.clone());
    svc.handle_delete_dentry(parent, name, rev, txid)
}

#[test]
fn test_root_dir() {
    let svc = create_test_service();
    let root = svc.handle_root_dir().unwrap();
    assert_eq!(root, 1);
}

#[test]
fn test_get_inode_root_exists() {
    let svc = create_test_service();
    let root = svc.handle_root_dir().unwrap();
    let node = svc.handle_get_inode(root, None).unwrap();
    assert!(node.is_some());
    let node = node.unwrap();
    assert_eq!(node.inode_id, root);
    assert_eq!(node.get_node_kind(), NodeKind::Dir);
}

#[test]
fn test_get_inode_not_found() {
    let svc = create_test_service();
    let node = svc.handle_get_inode(9999, None).unwrap();
    assert!(node.is_none());
}

#[test]
fn test_set_and_get_inode() {
    let svc = create_test_service();

    let node = create_dir_node(100);
    svc.handle_set_inode(node.clone(), None).unwrap();

    let fetched = svc.handle_get_inode(100, None).unwrap().unwrap();
    assert_eq!(fetched.inode_id, 100);
    assert_eq!(fetched.get_node_kind(), NodeKind::Dir);
    assert!(!fetched.read_only);
}

#[test]
fn test_set_inode_upsert() {
    let svc = create_test_service();

    let mut node = create_dir_node(101);
    svc.handle_set_inode(node.clone(), None).unwrap();

    node.read_only = true;
    svc.handle_set_inode(node.clone(), None).unwrap();

    let fetched = svc.handle_get_inode(101, None).unwrap().unwrap();
    assert!(fetched.read_only);
}

#[test]
fn test_alloc_inode_auto_id() {
    let svc = create_test_service();

    let node = create_dir_node(0);
    let id = svc.handle_alloc_inode(node.clone(), None).unwrap();
    assert!(id > 1);

    let fetched = svc.handle_get_inode(id, None).unwrap().unwrap();
    assert_eq!(fetched.inode_id, id);
}

#[test]
fn test_alloc_inode_explicit_id() {
    let svc = create_test_service();

    let node = create_dir_node(200);
    let id = svc.handle_alloc_inode(node.clone(), None).unwrap();
    assert_eq!(id, 200);

    let fetched = svc.handle_get_inode(200, None).unwrap().unwrap();
    assert_eq!(fetched.inode_id, 200);
}

#[test]
fn test_update_inode_state() {
    let svc = create_test_service();

    let node = create_file_node_working(300, "fb-001");
    svc.handle_set_inode(node.clone(), None).unwrap();

    let new_state = NodeState::Cooling(FileCoolingState {
        fb_handle: "fb-001".to_string(),
        closed_at: 2000,
    });
    svc.handle_update_inode_state(300, new_state, node.state, None)
        .unwrap();

    let fetched = svc.handle_get_inode(300, None).unwrap().unwrap();
    match fetched.state {
        NodeState::Cooling(s) => {
            assert_eq!(s.fb_handle, "fb-001");
            assert_eq!(s.closed_at, 2000);
        }
        _ => panic!("expected Cooling state"),
    }
}

#[test]
fn test_update_inode_state_not_found() {
    let svc = create_test_service();
    let result = svc
        .handle_update_inode_state(
            9999,
            NodeState::DirNormal,
            NodeState::DirNormal,
            None,
        );
    assert!(result.is_err());
}

#[test]
fn test_update_inode_state_conflict() {
    let svc = create_test_service();

    let node = create_file_node_working(301, "fb-002");
    svc.handle_set_inode(node.clone(), None).unwrap();

    let result = svc
        .handle_update_inode_state(
            301,
            NodeState::Cooling(FileCoolingState {
                fb_handle: "fb-002".to_string(),
                closed_at: 2000,
            }),
            NodeState::FileNormal,
            None,
        );
    assert!(result.is_err());

    let fetched = svc.handle_get_inode(301, None).unwrap().unwrap();
    assert!(matches!(fetched.state, NodeState::Working(_)));
}

#[test]
fn test_upsert_and_get_dentry() {
    let svc = create_test_service();
    let root = svc.handle_root_dir().unwrap();

    let child = create_dir_node(400);
    svc.handle_set_inode(child.clone(), None).unwrap();

    upsert_dentry_auto(
        &svc,
        root,
        "subdir".to_string(),
        DentryTarget::IndexNodeId(400),
        None,
    )
    .unwrap();

    let dentry = svc.handle_get_dentry(root, "subdir".to_string(), None).unwrap().unwrap();
    assert_eq!(dentry.parent, root);
    assert_eq!(dentry.name, "subdir");
    match dentry.target {
        DentryTarget::IndexNodeId(id) => assert_eq!(id, 400),
        _ => panic!("expected IndexNodeId target"),
    }
    assert!(dentry.id > 0);
    let inode = svc.handle_get_inode(400, None).unwrap().unwrap();
    assert_eq!(inode.ref_by, Some(dentry.id));
}

#[test]
fn test_upsert_dentry_updates_inode_ref_by() {
    let svc = create_test_service();
    let root = svc.handle_root_dir().unwrap();

    let inode_a = create_dir_node(410);
    svc.handle_set_inode(inode_a, None).unwrap();
    let inode_b = create_dir_node(411);
    svc.handle_set_inode(inode_b, None).unwrap();

    upsert_dentry_auto(
        &svc,
        root,
        "swap".to_string(),
        DentryTarget::IndexNodeId(410),
        None,
    )
    .unwrap();
    let first = svc.handle_get_dentry(root, "swap".to_string(), None).unwrap().unwrap();
    let inode_a = svc.handle_get_inode(410, None).unwrap().unwrap();
    assert_eq!(inode_a.ref_by, Some(first.id));

    upsert_dentry_auto(
        &svc,
        root,
        "swap".to_string(),
        DentryTarget::IndexNodeId(411),
        None,
    )
    .unwrap();
    let second = svc.handle_get_dentry(root, "swap".to_string(), None).unwrap().unwrap();
    assert_eq!(first.id, second.id);

    let inode_a = svc.handle_get_inode(410, None).unwrap().unwrap();
    assert_eq!(inode_a.ref_by, None);
    let inode_b = svc.handle_get_inode(411, None).unwrap().unwrap();
    assert_eq!(inode_b.ref_by, Some(second.id));
}

#[test]
fn test_remove_dentry_clears_inode_ref_by() {
    let svc = create_test_service();
    let root = svc.handle_root_dir().unwrap();

    let inode = create_dir_node(412);
    svc.handle_set_inode(inode, None).unwrap();
    upsert_dentry_auto(
        &svc,
        root,
        "to_remove_ref".to_string(),
        DentryTarget::IndexNodeId(412),
        None,
    )
    .unwrap();
    let linked = svc.handle_get_inode(412, None).unwrap().unwrap();
    assert!(linked.ref_by.is_some());

    delete_dentry_auto(&svc, root, "to_remove_ref".to_string(), None)
        .unwrap();
    let unlinked = svc.handle_get_inode(412, None).unwrap().unwrap();
    assert_eq!(unlinked.ref_by, None);
}

#[test]
fn test_symlink_creates_symlink_target() {
    let svc = create_test_service();
    let root = svc.handle_root_dir().unwrap();

    let target = create_file_node_working(401, "fb-link-target");
    svc.handle_set_inode(target, None).unwrap();
    upsert_dentry_auto(
        &svc,
        root,
        "target_file".to_string(),
        DentryTarget::IndexNodeId(401),
        None,
    )
    .unwrap();

    handle_symlink_path(&svc, &path("/link_file"), &path("/target_file")).unwrap();

    let dentry = svc.handle_get_dentry(root, "link_file".to_string(), None).unwrap().unwrap();
    match dentry.target {
        DentryTarget::SymLink(target_path) => assert_eq!(target_path, "/target_file"),
        _ => panic!("expected SymLink target"),
    }

    let resolved = svc.handle_resolve_path_ex(&path("/link_file"), 0).unwrap().unwrap();
    match resolved.item {
        FsMetaResolvePathItem::SymLink(target_path) => assert_eq!(target_path, "/target_file"),
        _ => panic!("expected SymLink result"),
    }
    assert_eq!(resolved.inner_path, None);
}

#[test]
fn test_symlink_accepts_symlink_target_path() {
    let svc = create_test_service();
    let root = svc.handle_root_dir().unwrap();

    let target = create_file_node_working(402, "fb-link-target-2");
    svc.handle_set_inode(target, None).unwrap();
    upsert_dentry_auto(
        &svc,
        root,
        "target_file_2".to_string(),
        DentryTarget::IndexNodeId(402),
        None,
    )
    .unwrap();

    handle_symlink_path(&svc, &path("/link_a"), &path("/target_file_2")).unwrap();

    handle_symlink_path(&svc, &path("/link_b"), &path("/link_a")).unwrap();

    let dentry = svc.handle_get_dentry(root, "link_b".to_string(), None).unwrap().unwrap();
    match dentry.target {
        DentryTarget::SymLink(target_path) => assert_eq!(target_path, "/link_a"),
        _ => panic!("expected SymLink target"),
    }
}

#[test]
fn test_symlink_accepts_relative_target_path() {
    let svc = create_test_service();
    let root = svc.handle_root_dir().unwrap();

    handle_symlink_path(&svc, &path("/link_rel"), &path("../a/b")).unwrap();

    let dentry = svc.handle_get_dentry(root, "link_rel".to_string(), None).unwrap().unwrap();
    match dentry.target {
        DentryTarget::SymLink(target_path) => assert_eq!(target_path, "../a/b"),
        _ => panic!("expected SymLink target"),
    }
}

#[test]
fn test_resolve_path_ex_sym_count_zero_returns_symlink_and_tail() {
    let svc = create_test_service();

    handle_symlink_path(&svc, &path("/link_a"), &path("/target_a")).unwrap();

    let resolved = svc.handle_resolve_path_ex(&path("/link_a/sub/path"), 0).unwrap().unwrap();

    match resolved.item {
        FsMetaResolvePathItem::SymLink(target_path) => assert_eq!(target_path, "/target_a"),
        _ => panic!("expected SymLink result"),
    }
    assert_eq!(resolved.inner_path, Some("/sub/path".to_string()));
}

#[test]
fn test_resolve_path_ex_expands_relative_symlink() {
    let svc = create_test_service();
    let root = svc.handle_root_dir().unwrap();

    let dir_a = create_dir_node(620);
    let dir_x = create_dir_node(621);
    let dir_y = create_dir_node(622);
    let file = create_file_node_working(623, "fb-symlink-rel");
    svc.handle_set_inode(dir_a, None).unwrap();
    svc.handle_set_inode(dir_x, None).unwrap();
    svc.handle_set_inode(dir_y, None).unwrap();
    svc.handle_set_inode(file, None).unwrap();

    upsert_dentry_auto(
        &svc,
        root,
        "a".to_string(),
        DentryTarget::IndexNodeId(620),
        None,
    )
    .unwrap();
    upsert_dentry_auto(&svc, 620, "x".to_string(), DentryTarget::IndexNodeId(621), None).unwrap();
    upsert_dentry_auto(&svc, 620, "y".to_string(), DentryTarget::IndexNodeId(622), None).unwrap();
    upsert_dentry_auto(
        &svc,
        622,
        "file".to_string(),
        DentryTarget::IndexNodeId(623),
        None,
    )
    .unwrap();

    handle_symlink_path(&svc, &path("/a/x/l"), &path("../y")).unwrap();

    let unresolved = svc.handle_resolve_path_ex(&path("/a/x/l/file"), 0).unwrap().unwrap();
    match unresolved.item {
        FsMetaResolvePathItem::SymLink(target_path) => assert_eq!(target_path, "../y"),
        _ => panic!("expected SymLink result"),
    }
    assert_eq!(unresolved.inner_path, Some("/file".to_string()));

    let resolved = svc.handle_resolve_path_ex(&path("/a/x/l/file"), 1).unwrap().unwrap();
    match resolved.item {
        FsMetaResolvePathItem::Inode { inode_id, .. } => assert_eq!(inode_id, 623),
        _ => panic!("expected Inode result"),
    }
    assert_eq!(resolved.inner_path, None);
}

#[test]
fn test_get_dentry_not_found() {
    let svc = create_test_service();
    let root = svc.handle_root_dir().unwrap();

    let dentry = svc.handle_get_dentry(root, "nonexistent".to_string(), None).unwrap();
    assert!(dentry.is_none());
}

#[test]
fn test_list_dentries() {
    let svc = create_test_service();
    let root = svc.handle_root_dir().unwrap();

    for i in 0..3 {
        let child = create_dir_node(500 + i);
        svc.handle_set_inode(child.clone(), None).unwrap();
        upsert_dentry_auto(
            &svc,
            root,
            format!("child_{}", i),
            DentryTarget::IndexNodeId(500 + i),
            None,
        )
        .unwrap();
    }

    let dentries = svc.handle_list_dentries(root, None).unwrap();
    assert_eq!(dentries.len(), 3);
}

#[test]
fn test_list_session_cache() {
    let svc = create_test_service();
    let root = svc.handle_root_dir().unwrap();

    for i in 0..3 {
        let child = create_dir_node(550 + i);
        svc.handle_set_inode(child.clone(), None).unwrap();
        upsert_dentry_auto(
            &svc,
            root,
            format!("entry_{}", i),
            DentryTarget::IndexNodeId(550 + i),
            None,
        )
        .unwrap();
    }

    let list_session_id = svc.handle_start_list(root, None).unwrap();
    let page1 = svc.handle_list_next(list_session_id, 2).unwrap();
    assert_eq!(page1.len(), 2);
    assert_eq!(page1.keys().next().unwrap(), "entry_0");
    assert_eq!(page1.keys().next_back().unwrap(), "entry_1");
    assert!(page1.values().all(|v| v.inode.is_some()));

    let page2 = svc.handle_list_next(list_session_id, 2).unwrap();
    assert_eq!(page2.len(), 1);
    assert_eq!(page2.keys().next().unwrap(), "entry_2");

    svc.handle_stop_list(list_session_id)
        .unwrap();
    let err = svc.handle_list_next(list_session_id, 1);
    assert!(err.is_err());
}

#[test]
fn test_start_list_merges_overlay_base_and_upper() {
    let svc = create_test_service_with_store();
    let root = svc.handle_root_dir().unwrap();

    let base_child_dir = DirObject::new(Some("base_child".to_string()));
    let (base_child_dir_id, base_child_dir_str) = base_child_dir.gen_obj_id();
    svc.put_object(&base_child_dir_id, &base_child_dir_str);

    let base_file = FileObject::new(
        "base.txt".to_string(),
        1,
        "sha256:00112233445566778899aabbccddeeff00112233445566778899aabbccddeeff".to_string(),
    );
    let mut base_dir = DirObject::new(Some("a".to_string()));
    base_dir
        .add_file("base_file".to_string(), base_file, 1)
        .unwrap();
    base_dir
        .add_directory("base_dir".to_string(), base_child_dir_id, 0)
        .unwrap();
    let (base_dir_id, base_dir_str) = base_dir.gen_obj_id();
    svc.put_object(&base_dir_id, &base_dir_str);

    let overlay_inode = NodeRecord {
        inode_id: 900,
        ref_by: None,
        read_only: false,
        base_obj_id: Some(base_dir_id),
        state: NodeState::DirOverlay,
        rev: Some(0),
        meta: None,
        lease_client_session: None,
        lease_seq: None,
        lease_expire_at: None,
    };
    svc.handle_set_inode(overlay_inode, None).unwrap();
    upsert_dentry_auto(
        &svc,
        root,
        "a".to_string(),
        DentryTarget::IndexNodeId(900),
        None,
    )
    .unwrap();

    let upper_child = create_dir_node(901);
    svc.handle_set_inode(upper_child, None).unwrap();
    set_tombstone_auto(&svc, 900, "base_dir".to_string(), None)
        .unwrap();
    upsert_dentry_auto(
        &svc,
        900,
        "upper_dir".to_string(),
        DentryTarget::IndexNodeId(901),
        None,
    )
    .unwrap();

    let list_id = svc.handle_start_list(900, None).unwrap();
    let entries = svc.handle_list_next(list_id, 100).unwrap();
    svc.handle_stop_list(list_id).unwrap();

    assert!(entries.contains_key("base_file"));
    assert!(entries.contains_key("upper_dir"));
    assert!(!entries.contains_key("base_dir"));
}

#[test]
fn test_remove_dentry_row() {
    let svc = create_test_service();
    let root = svc.handle_root_dir().unwrap();
    svc.handle_set_inode(create_dir_node(600), None).unwrap();

    upsert_dentry_auto(
        &svc,
        root,
        "to_remove".to_string(),
        DentryTarget::IndexNodeId(600),
        None,
    )
    .unwrap();

    delete_dentry_auto(&svc, root, "to_remove".to_string(), None)
        .unwrap();

    let dentry = svc.handle_get_dentry(root, "to_remove".to_string(), None).unwrap();
    assert!(dentry.is_none());
}

#[test]
fn test_set_tombstone() {
    let svc = create_test_service();
    let root = svc.handle_root_dir().unwrap();

    set_tombstone_auto(&svc, root, "deleted".to_string(), None)
        .unwrap();

    let dentry = svc.handle_get_dentry(root, "deleted".to_string(), None).unwrap().unwrap();
    match dentry.target {
        DentryTarget::Tombstone => {}
        _ => panic!("expected Tombstone target"),
    }
}

#[test]
fn test_bump_dir_rev_success() {
    let svc = create_test_service();
    let root = svc.handle_root_dir().unwrap();

    let new_rev = svc.handle_bump_dir_rev(root, 0, None).unwrap();
    assert_eq!(new_rev, 1);

    let new_rev = svc.handle_bump_dir_rev(root, 1, None).unwrap();
    assert_eq!(new_rev, 2);
}

#[test]
fn test_bump_dir_rev_mismatch() {
    let svc = create_test_service();
    let root = svc.handle_root_dir().unwrap();

    let result = svc.handle_bump_dir_rev(root, 999, None);
    assert!(result.is_err());
}

#[test]
fn test_dir_rev_auto_bump_on_dentry_real_change() {
    let svc = create_test_service();
    let root = svc.handle_root_dir().unwrap();

    let child = create_dir_node(990);
    svc.handle_set_inode(child, None).unwrap();

    let root_node0 = svc.handle_get_inode(root, None).unwrap().unwrap();
    assert_eq!(root_node0.rev, Some(0));

    upsert_dentry_auto(
        &svc,
        root,
        "rev_case".to_string(),
        DentryTarget::IndexNodeId(990),
        None,
    )
    .unwrap();
    let root_node1 = svc.handle_get_inode(root, None).unwrap().unwrap();
    assert_eq!(root_node1.rev, Some(1));

    upsert_dentry_auto(
        &svc,
        root,
        "rev_case".to_string(),
        DentryTarget::IndexNodeId(990),
        None,
    )
    .unwrap();
    let root_node2 = svc.handle_get_inode(root, None).unwrap().unwrap();
    assert_eq!(root_node2.rev, Some(1));

    set_tombstone_auto(&svc, root, "rev_case".to_string(), None)
        .unwrap();
    let root_node3 = svc.handle_get_inode(root, None).unwrap().unwrap();
    assert_eq!(root_node3.rev, Some(2));

    set_tombstone_auto(&svc, root, "rev_case".to_string(), None)
        .unwrap();
    let root_node4 = svc.handle_get_inode(root, None).unwrap().unwrap();
    assert_eq!(root_node4.rev, Some(2));

    delete_dentry_auto(&svc, root, "rev_case".to_string(), None)
        .unwrap();
    let root_node5 = svc.handle_get_inode(root, None).unwrap().unwrap();
    assert_eq!(root_node5.rev, Some(3));

    delete_dentry_auto(&svc, root, "rev_case".to_string(), None)
        .unwrap();
    let root_node6 = svc.handle_get_inode(root, None).unwrap().unwrap();
    assert_eq!(root_node6.rev, Some(3));
}

#[test]
fn test_create_dentry_requires_expected_parent_rev() {
    let svc = create_test_service();
    let root = svc.handle_root_dir().unwrap();

    let child = create_dir_node(991);
    svc.handle_set_inode(child, None).unwrap();

    let err = svc
        .handle_create_dentry(
            root,
            "rev_lock".to_string(),
            DentryTarget::IndexNodeId(991),
            9_999,
            None,
        )
        .unwrap_err();
    assert!(err.to_string().contains("rev mismatch"));
}

#[test]
fn test_replace_target_requires_expected_old_target() {
    let svc = create_test_service();
    let root = svc.handle_root_dir().unwrap();

    let a = create_dir_node(992);
    let b = create_dir_node(993);
    svc.handle_set_inode(a, None).unwrap();
    svc.handle_set_inode(b, None).unwrap();

    let rev0 = parent_rev(&svc, root, None);
    svc.handle_create_dentry(
        root,
        "cas_target".to_string(),
        DentryTarget::IndexNodeId(992),
        rev0,
        None,
    )
    .unwrap();

    let rev1 = parent_rev(&svc, root, None);
    let err = svc
        .handle_replace_target(
            root,
            "cas_target".to_string(),
            DentryTarget::Tombstone,
            DentryTarget::IndexNodeId(993),
            rev1,
            None,
        )
        .unwrap_err();
    assert!(err.to_string().contains("dentry target mismatch"));
}

#[test]
fn test_begin_and_commit_txn() {
    let svc = create_test_service();

    let txid = svc.handle_begin_txn().unwrap();
    assert!(txid.starts_with("tx-"));

    let node = create_dir_node(700);
    svc.handle_set_inode(node.clone(), Some(txid.clone())).unwrap();

    let fetched = svc.handle_get_inode(700, Some(txid.clone())).unwrap();
    assert!(fetched.is_some());

    svc.handle_commit(Some(txid)).unwrap();

    let fetched = svc.handle_get_inode(700, None).unwrap();
    assert!(fetched.is_some());
}

#[test]
fn test_begin_and_rollback_txn() {
    let svc = create_test_service();

    let txid = svc.handle_begin_txn().unwrap();

    let node = create_dir_node(701);
    svc.handle_set_inode(node.clone(), Some(txid.clone())).unwrap();

    svc.handle_rollback(Some(txid)).unwrap();

    let fetched = svc.handle_get_inode(701, None).unwrap();
    assert!(fetched.is_none());
}

#[test]
fn test_commit_without_txid() {
    let svc = create_test_service();
    let result = svc.handle_commit(None);
    assert!(result.is_ok());
}

#[test]
fn test_rollback_without_txid() {
    let svc = create_test_service();
    let result = svc.handle_rollback(None);
    assert!(result.is_ok());
}

#[test]
fn test_commit_invalid_txid() {
    let svc = create_test_service();
    let result = svc
        .handle_commit(Some("invalid-txid".to_string()));
    assert!(result.is_err());
}

#[test]
fn test_acquire_file_lease() {
    let svc = create_test_service();

    let node = create_file_node_working(800, "fb-800");
    svc.handle_set_inode(node.clone(), None).unwrap();

    let session = SessionId("session-1".to_string());
    let lease_seq = svc.handle_acquire_file_lease(800, session, Duration::from_secs(60)).unwrap();
    assert!(lease_seq > 0);
}

#[test]
fn test_acquire_file_lease_renewal() {
    let svc = create_test_service();

    let node = create_file_node_working(801, "fb-801");
    svc.handle_set_inode(node.clone(), None).unwrap();

    let session = SessionId("session-1".to_string());
    let seq1 = svc.handle_acquire_file_lease(801, session.clone(), Duration::from_secs(60)).unwrap();

    let seq2 = svc.handle_acquire_file_lease(801, session, Duration::from_secs(60)).unwrap();
    assert_eq!(seq1, seq2);
}

#[test]
fn test_acquire_file_lease_conflict() {
    let svc = create_test_service();

    let node = create_file_node_working(802, "fb-802");
    svc.handle_set_inode(node.clone(), None).unwrap();

    let session1 = SessionId("session-1".to_string());
    svc.handle_acquire_file_lease(802, session1, Duration::from_secs(3600))
        .unwrap();

    let session2 = SessionId("session-2".to_string());
    let result = svc
        .handle_acquire_file_lease(802, session2, Duration::from_secs(60));
    assert!(result.is_err());
}

#[test]
fn test_acquire_file_lease_node_not_found() {
    let svc = create_test_service();
    let session = SessionId("session-1".to_string());
    let result = svc
        .handle_acquire_file_lease(9999, session, Duration::from_secs(60));
    assert!(result.is_err());
}

#[test]
fn test_renew_file_lease() {
    let svc = create_test_service();

    let node = create_file_node_working(803, "fb-803");
    svc.handle_set_inode(node.clone(), None).unwrap();

    let session = SessionId("session-1".to_string());
    let lease_seq = svc.handle_acquire_file_lease(803, session.clone(), Duration::from_secs(60)).unwrap();

    let result = svc
        .handle_renew_file_lease(803, session, lease_seq, Duration::from_secs(120));
    assert!(result.is_ok());
}

#[test]
fn test_renew_file_lease_mismatch() {
    let svc = create_test_service();

    let node = create_file_node_working(804, "fb-804");
    svc.handle_set_inode(node.clone(), None).unwrap();

    let session = SessionId("session-1".to_string());
    svc.handle_acquire_file_lease(804, session.clone(), Duration::from_secs(60))
        .unwrap();

    let result = svc
        .handle_renew_file_lease(804, session, 999, Duration::from_secs(120));
    assert!(result.is_err());
}

#[test]
fn test_release_file_lease() {
    let svc = create_test_service();

    let node = create_file_node_working(805, "fb-805");
    svc.handle_set_inode(node.clone(), None).unwrap();

    let session = SessionId("session-1".to_string());
    let lease_seq = svc.handle_acquire_file_lease(805, session.clone(), Duration::from_secs(60)).unwrap();

    let result = svc
        .handle_release_file_lease(805, session, lease_seq);
    assert!(result.is_ok());

    let session2 = SessionId("session-2".to_string());
    let result = svc
        .handle_acquire_file_lease(805, session2, Duration::from_secs(60));
    assert!(result.is_ok());
}

#[test]
fn test_release_file_lease_mismatch() {
    let svc = create_test_service();

    let node = create_file_node_working(806, "fb-806");
    svc.handle_set_inode(node.clone(), None).unwrap();

    let session = SessionId("session-1".to_string());
    svc.handle_acquire_file_lease(806, session.clone(), Duration::from_secs(60))
        .unwrap();

    let wrong_session = SessionId("wrong-session".to_string());
    let result = svc
        .handle_release_file_lease(806, wrong_session, 1);
    assert!(result.is_err());
}

#[test]
fn test_write_lease_cleanup_task_reclaims_expired_open_writer_lease() {
    let svc = create_test_service();
    let inode_id = 807;
    let mut inode = create_file_node_working(inode_id, "fb-807");
    inode.lease_client_session = Some(ClientSessionId("test-instance:807".to_string()));
    inode.lease_seq = Some(1);
    inode.lease_expire_at = Some(svc.now().saturating_sub(1));
    svc.handle_set_inode(inode, None).unwrap();

    svc.pass(2);

    let refreshed = svc.handle_get_inode(inode_id, None).unwrap().unwrap();
    assert!(refreshed.lease_client_session.is_none());
    assert!(refreshed.lease_expire_at.is_none());
    assert!(matches!(refreshed.state, NodeState::Cooling(_)));
}

#[test]
fn test_write_lease_cleanup_unblocks_new_acquire_after_timeout() {
    let svc = create_test_service();
    let inode_id = 808;
    let node = create_file_node_working(inode_id, "fb-808");
    svc.handle_set_inode(node, None).unwrap();

    let first_session = SessionId("s1".to_string());
    svc.handle_acquire_file_lease(inode_id, first_session, Duration::from_secs(1))
        .unwrap();

    svc.pass(3);

    let second_session = SessionId("s2".to_string());
    let seq2 = svc
        .handle_acquire_file_lease(
            inode_id,
            second_session,
            Duration::from_secs(60),
        )
        .unwrap();
    assert!(seq2 >= 2);

    let refreshed = svc.handle_get_inode(inode_id, None).unwrap().unwrap();
    assert!(matches!(refreshed.state, NodeState::Cooling(_)));
    assert_eq!(
        refreshed.lease_client_session,
        Some(ClientSessionId("s2".to_string()))
    );
    assert!(refreshed.lease_expire_at.is_some());
}

#[test]
fn test_obj_stat_bump_new() {
    let svc = create_test_service();

    let obj_id = create_obj_id(1);
    let ref_count = svc.handle_obj_stat_bump(obj_id.clone(), 1, None).unwrap();
    assert_eq!(ref_count, 1);

    let ref_count = svc.handle_obj_stat_bump(obj_id, 2, None).unwrap();
    assert_eq!(ref_count, 3);
}

#[test]
fn test_obj_stat_bump_decrement() {
    let svc = create_test_service();

    let obj_id = create_obj_id(2);
    svc.handle_obj_stat_bump(obj_id.clone(), 5, None)
        .unwrap();

    let ref_count = svc.handle_obj_stat_bump(obj_id, -2, None).unwrap();
    assert_eq!(ref_count, 3);
}

#[test]
fn test_obj_stat_bump_negative_error() {
    let svc = create_test_service();

    let obj_id = create_obj_id(3);
    svc.handle_obj_stat_bump(obj_id.clone(), 2, None)
        .unwrap();

    let result = svc.handle_obj_stat_bump(obj_id, -10, None);
    assert!(result.is_err());
}

#[test]
fn test_obj_stat_bump_new_with_negative_error() {
    let svc = create_test_service();
    let obj_id = create_obj_id(4);

    let result = svc
        .handle_obj_stat_bump(obj_id, -1, None);
    assert!(result.is_err());
}

#[test]
fn test_obj_stat_get() {
    let svc = create_test_service();

    let obj_id = create_obj_id(5);
    svc.handle_obj_stat_bump(obj_id.clone(), 3, None)
        .unwrap();

    let stat = svc.handle_obj_stat_get(obj_id).unwrap().unwrap();
    assert_eq!(stat.ref_count, 3);
    assert!(stat.zero_since.is_none());
}

#[test]
fn test_obj_stat_get_not_found() {
    let svc = create_test_service();
    let obj_id = create_obj_id(6);
    let stat = svc.handle_obj_stat_get(obj_id).unwrap();
    assert!(stat.is_none());
}

#[test]
fn test_obj_stat_zero_since() {
    let svc = create_test_service();

    let obj_id = create_obj_id(7);
    svc.handle_obj_stat_bump(obj_id.clone(), 2, None)
        .unwrap();

    svc.handle_obj_stat_bump(obj_id.clone(), -2, None)
        .unwrap();

    let stat = svc.handle_obj_stat_get(obj_id).unwrap().unwrap();
    assert_eq!(stat.ref_count, 0);
    assert!(stat.zero_since.is_some());
}

#[test]
fn test_obj_stat_list_zero() {
    let svc = create_test_service();

    for i in 0..3 {
        let obj_id = create_obj_id(10 + i);
        svc.handle_obj_stat_bump(obj_id.clone(), 1, None)
            .unwrap();
        svc.handle_obj_stat_bump(obj_id, -1, None)
            .unwrap();
    }

    let now = svc.now() + 10;
    let zeros = svc.handle_obj_stat_list_zero(now, 10).unwrap();
    assert_eq!(zeros.len(), 3);
}

#[test]
fn test_obj_stat_delete_if_zero() {
    let svc = create_test_service();

    let obj_id = create_obj_id(20);
    svc.handle_obj_stat_bump(obj_id.clone(), 1, None)
        .unwrap();
    svc.handle_obj_stat_bump(obj_id.clone(), -1, None)
        .unwrap();

    let deleted = svc.handle_obj_stat_delete_if_zero(obj_id.clone(), None).unwrap();
    assert!(deleted);

    let stat = svc.handle_obj_stat_get(obj_id).unwrap();
    assert!(stat.is_none());
}

#[test]
fn test_obj_stat_delete_if_zero_nonzero() {
    let svc = create_test_service();

    let obj_id = create_obj_id(21);
    svc.handle_obj_stat_bump(obj_id.clone(), 5, None)
        .unwrap();

    let deleted = svc.handle_obj_stat_delete_if_zero(obj_id.clone(), None).unwrap();
    assert!(!deleted);

    let stat = svc.handle_obj_stat_get(obj_id).unwrap();
    assert!(stat.is_some());
}

#[test]
fn test_node_state_linked() {
    let svc = create_test_service();

    let obj_id = create_obj_id(30);
    let qcid = create_obj_id(31);

    let node = NodeRecord {
        inode_id: 900,
        ref_by: None,
        read_only: false,
        base_obj_id: None,
        state: NodeState::Linked(FileLinkedState {
            obj_id: obj_id.clone(),
            qcid: qcid.clone(),
            filebuffer_id: "fb-900".to_string(),
            linked_at: 5000,
        }),
        rev: None,
        meta: None,
        lease_client_session: None,
        lease_seq: None,
        lease_expire_at: None,
    };

    svc.handle_set_inode(node, None).unwrap();

    let fetched = svc.handle_get_inode(900, None).unwrap().unwrap();
    match fetched.state {
        NodeState::Linked(s) => {
            assert_eq!(s.obj_id, obj_id);
            assert_eq!(s.qcid, qcid);
            assert_eq!(s.filebuffer_id, "fb-900");
            assert_eq!(s.linked_at, 5000);
        }
        _ => panic!("expected Linked state"),
    }
}

#[test]
fn test_node_state_finalized() {
    let svc = create_test_service();

    let obj_id = create_obj_id(40);

    let node = NodeRecord {
        inode_id: 901,
        ref_by: None,
        read_only: true,
        base_obj_id: None,
        state: NodeState::Finalized(FinalizedObjState {
            obj_id: obj_id.clone(),
            finalized_at: 6000,
        }),
        rev: None,
        meta: None,
        lease_client_session: None,
        lease_seq: None,
        lease_expire_at: None,
    };

    svc.handle_set_inode(node, None).unwrap();

    let fetched = svc.handle_get_inode(901, None).unwrap().unwrap();
    assert!(fetched.read_only);
    match fetched.state {
        NodeState::Finalized(s) => {
            assert_eq!(s.obj_id, obj_id);
            assert_eq!(s.finalized_at, 6000);
        }
        _ => panic!("expected Finalized state"),
    }
}

#[test]
fn test_node_with_meta() {
    let svc = create_test_service();

    let meta = format!(
        "{{\"owner\":\"user1\",\"permissions\":{},\"custom\":{{\"key\":\"value\"}}}}",
        0o755
    );

    let node = NodeRecord {
        inode_id: 902,
        ref_by: None,
        read_only: false,
        base_obj_id: None,
        state: NodeState::DirNormal,
        rev: Some(0),
        meta: Some(meta.clone()),
        lease_client_session: None,
        lease_seq: None,
        lease_expire_at: None,
    };

    svc.handle_set_inode(node, None).unwrap();

    let fetched = svc.handle_get_inode(902, None).unwrap().unwrap();
    assert!(fetched.meta.is_some());
    let fetched_meta: serde_json::Value =
        serde_json::from_str(&fetched.meta.unwrap()).unwrap();
    assert_eq!(fetched_meta["owner"], "user1");
    assert_eq!(fetched_meta["permissions"], 0o755);
}

#[test]
fn test_node_with_lease_info() {
    let svc = create_test_service();

    let node = NodeRecord {
        inode_id: 903,
        ref_by: None,
        read_only: false,
        base_obj_id: None,
        state: NodeState::Working(FileWorkingState {
            fb_handle: "fb-903".to_string(),
            last_write_at: 1000,
        }),
        rev: None,
        meta: None,
        lease_client_session: Some(ClientSessionId("session-x".to_string())),
        lease_seq: Some(5),
        lease_expire_at: Some(9999999),
    };

    svc.handle_set_inode(node, None).unwrap();

    let fetched = svc.handle_get_inode(903, None).unwrap().unwrap();
    assert_eq!(
        fetched.lease_client_session,
        Some(ClientSessionId("session-x".to_string()))
    );
    assert_eq!(fetched.lease_seq, Some(5));
    assert_eq!(fetched.lease_expire_at, Some(9999999));
}

#[test]
fn test_dentry_with_obj_id_target() {
    let svc = create_test_service();
    let root = svc.handle_root_dir().unwrap();

    let obj_id = create_obj_id(50);

    upsert_dentry_auto(
        &svc,
        root,
        "linked_file".to_string(),
        DentryTarget::ObjId(obj_id.clone()),
        None,
    )
    .unwrap();

    let dentry = svc.handle_get_dentry(root, "linked_file".to_string(), None).unwrap().unwrap();

    match dentry.target {
        DentryTarget::ObjId(id) => assert_eq!(id, obj_id),
        _ => panic!("expected ObjId target"),
    }
}

#[test]
fn test_transaction_isolation() {
    let svc = create_test_service();

    let txid = svc.handle_begin_txn().unwrap();

    let node = create_dir_node(950);
    svc.handle_set_inode(node, Some(txid.clone())).unwrap();

    let fetched_in_txn = svc.handle_get_inode(950, Some(txid.clone())).unwrap();
    assert!(fetched_in_txn.is_some());

    svc.handle_commit(Some(txid)).unwrap();

    let fetched_after = svc.handle_get_inode(950, None).unwrap();
    assert!(fetched_after.is_some());
}

#[test]
fn test_resolve_path_cache_invalidate_prefix_on_edge_change() {
    let svc = create_test_service();
    let root = svc.handle_root_dir().unwrap();

    let a = create_dir_node(10);
    let b1 = create_dir_node(11);
    let c = create_dir_node(12);
    svc.handle_set_inode(a.clone(), None).unwrap();
    svc.handle_set_inode(b1.clone(), None).unwrap();
    svc.handle_set_inode(c.clone(), None).unwrap();

    upsert_dentry_auto(
        &svc,
        root,
        "a".to_string(),
        DentryTarget::IndexNodeId(a.inode_id),
        None,
    )
    .unwrap();
    upsert_dentry_auto(
        &svc,
        a.inode_id,
        "b".to_string(),
        DentryTarget::IndexNodeId(b1.inode_id),
        None,
    )
    .unwrap();
    upsert_dentry_auto(
        &svc,
        b1.inode_id,
        "c".to_string(),
        DentryTarget::IndexNodeId(c.inode_id),
        None,
    )
    .unwrap();

    let resolved = svc.handle_resolve_path_ex(&path("/a/b/c"), 0).unwrap().unwrap();
    match resolved.item {
        FsMetaResolvePathItem::Inode { inode_id, .. } => assert_eq!(inode_id, c.inode_id),
        _ => panic!("expected Inode result"),
    }

    let b2 = create_dir_node(20);
    svc.handle_set_inode(b2.clone(), None).unwrap();
    upsert_dentry_auto(
        &svc,
        a.inode_id,
        "b".to_string(),
        DentryTarget::IndexNodeId(b2.inode_id),
        None,
    )
    .unwrap();

    let resolved2 = svc.handle_resolve_path_ex(&path("/a/b/c"), 0).unwrap();
    assert!(resolved2.is_none());
}

#[test]
fn test_resolve_path_cache_invalidate_on_commit() {
    let svc = create_test_service();
    let root = svc.handle_root_dir().unwrap();

    let a = create_dir_node(30);
    let b1 = create_dir_node(31);
    let c = create_dir_node(32);
    svc.handle_set_inode(a.clone(), None).unwrap();
    svc.handle_set_inode(b1.clone(), None).unwrap();
    svc.handle_set_inode(c.clone(), None).unwrap();

    upsert_dentry_auto(
        &svc,
        root,
        "a".to_string(),
        DentryTarget::IndexNodeId(a.inode_id),
        None,
    )
    .unwrap();
    upsert_dentry_auto(
        &svc,
        a.inode_id,
        "b".to_string(),
        DentryTarget::IndexNodeId(b1.inode_id),
        None,
    )
    .unwrap();
    upsert_dentry_auto(
        &svc,
        b1.inode_id,
        "c".to_string(),
        DentryTarget::IndexNodeId(c.inode_id),
        None,
    )
    .unwrap();

    let resolved = svc.handle_resolve_path_ex(&path("/a/b/c"), 0).unwrap().unwrap();
    match resolved.item {
        FsMetaResolvePathItem::Inode { inode_id, .. } => assert_eq!(inode_id, c.inode_id),
        _ => panic!("expected Inode result"),
    }

    let txid = svc.handle_begin_txn().unwrap();
    let b2 = create_dir_node(40);
    svc.handle_set_inode(b2.clone(), Some(txid.clone())).unwrap();
    upsert_dentry_auto(
        &svc,
        a.inode_id,
        "b".to_string(),
        DentryTarget::IndexNodeId(b2.inode_id),
        Some(txid.clone()),
    )
    .unwrap();
    svc.handle_commit(Some(txid)).unwrap();

    let resolved2 = svc.handle_resolve_path_ex(&path("/a/b/c"), 0).unwrap();
    assert!(resolved2.is_none());
}

#[test]
fn test_create_dir_materializes_overlay_chain_from_dir_object() {
    let svc = create_test_service_with_store();
    let root = svc.handle_root_dir().unwrap();

    let dir_c = DirObject::new(Some("c".to_string()));
    let (c_obj_id, c_obj_str) = dir_c.gen_obj_id();
    svc.put_object(&c_obj_id, &c_obj_str);

    let mut dir_b = DirObject::new(Some("b".to_string()));
    dir_b
        .add_directory("c".to_string(), c_obj_id.clone(), 0)
        .unwrap();
    let (b_obj_id, b_obj_str) = dir_b.gen_obj_id();
    svc.put_object(&b_obj_id, &b_obj_str);

    let mut dir_a = DirObject::new(Some("a".to_string()));
    dir_a
        .add_directory("b".to_string(), b_obj_id.clone(), 0)
        .unwrap();
    let (a_obj_id, a_obj_str) = dir_a.gen_obj_id();
    svc.put_object(&a_obj_id, &a_obj_str);

    upsert_dentry_auto(
        &svc,
        root,
        "a".to_string(),
        DentryTarget::ObjId(a_obj_id.clone()),
        None,
    )
    .unwrap();

    handle_create_dir_path(&svc, &path("/a/b/c/new"))
        .unwrap();

    let dentry_a = svc.handle_get_dentry(root, "a".to_string(), None).unwrap().unwrap();
    let inode_a = match dentry_a.target {
        DentryTarget::IndexNodeId(id) => id,
        _ => panic!("expected inode target for /a"),
    };
    let node_a = svc.handle_get_inode(inode_a, None).unwrap().unwrap();
    assert_eq!(node_a.base_obj_id, Some(a_obj_id));
    match node_a.state {
        NodeState::DirOverlay => {}
        _ => panic!("expected DirOverlay for /a"),
    }

    let dentry_b = svc.handle_get_dentry(inode_a, "b".to_string(), None).unwrap().unwrap();
    let inode_b = match dentry_b.target {
        DentryTarget::IndexNodeId(id) => id,
        _ => panic!("expected inode target for /a/b"),
    };
    let node_b = svc.handle_get_inode(inode_b, None).unwrap().unwrap();
    assert_eq!(node_b.base_obj_id, Some(b_obj_id));
    match node_b.state {
        NodeState::DirOverlay => {}
        _ => panic!("expected DirOverlay for /a/b"),
    }

    let dentry_c = svc.handle_get_dentry(inode_b, "c".to_string(), None).unwrap().unwrap();
    let inode_c = match dentry_c.target {
        DentryTarget::IndexNodeId(id) => id,
        _ => panic!("expected inode target for /a/b/c"),
    };
    let node_c = svc.handle_get_inode(inode_c, None).unwrap().unwrap();
    assert_eq!(node_c.base_obj_id, Some(c_obj_id));
    match node_c.state {
        NodeState::DirOverlay => {}
        _ => panic!("expected DirOverlay for /a/b/c"),
    }

    let dentry_new = svc.handle_get_dentry(inode_c, "new".to_string(), None).unwrap().unwrap();
    let inode_new = match dentry_new.target {
        DentryTarget::IndexNodeId(id) => id,
        _ => panic!("expected inode target for /a/b/c/new"),
    };
    let node_new = svc.handle_get_inode(inode_new, None).unwrap().unwrap();
    assert_eq!(node_new.base_obj_id, None);
    match node_new.state {
        NodeState::DirNormal => {}
        _ => panic!("expected DirNormal for /a/b/c/new"),
    }
}

#[test]
fn test_resolve_path_ex_reads_base_child_in_overlay_inode() {
    let svc = create_test_service_with_store();
    let root = svc.handle_root_dir().unwrap();

    let base_file = FileObject::new(
        "leaf.txt".to_string(),
        1,
        "sha256:00112233445566778899aabbccddeeff00112233445566778899aabbccddeeff".to_string(),
    );
    let mut base_dir = DirObject::new(Some("a".to_string()));
    base_dir
        .add_file("leaf".to_string(), base_file, 1)
        .unwrap();
    let expected_leaf_obj = {
        base_dir.get("leaf").unwrap()
    };
    let (base_dir_id, base_dir_str) = base_dir.gen_obj_id();
    svc.put_object(&base_dir_id, &base_dir_str);

    let overlay_inode = NodeRecord {
        inode_id: 910,
        ref_by: None,
        read_only: false,
        base_obj_id: Some(base_dir_id),
        state: NodeState::DirOverlay,
        rev: Some(0),
        meta: None,
        lease_client_session: None,
        lease_seq: None,
        lease_expire_at: None,
    };
    svc.handle_set_inode(overlay_inode, None).unwrap();
    upsert_dentry_auto(
        &svc,
        root,
        "a".to_string(),
        DentryTarget::IndexNodeId(910),
        None,
    )
    .unwrap();

    let resolved = svc.handle_resolve_path_ex(&path("/a/leaf"), 0).unwrap().unwrap();
    match resolved.item {
        FsMetaResolvePathItem::ObjId(obj_id) => assert_eq!(obj_id, expected_leaf_obj),
        _ => panic!("expected ObjId from base child"),
    }
    assert_eq!(resolved.inner_path, None);
}

#[test]
fn test_create_dir_rejects_non_dir_child_in_base_dir_object() {
    let svc = create_test_service_with_store();
    let root = svc.handle_root_dir().unwrap();

    let file_obj = FileObject::new(
        "leaf.txt".to_string(),
        1,
        "sha256:00112233445566778899aabbccddeeff00112233445566778899aabbccddeeff".to_string(),
    );
    let mut dir_a = DirObject::new(Some("a".to_string()));
    dir_a
        .add_file("leaf".to_string(), file_obj, 1)
        .unwrap();
    let (a_obj_id, a_obj_str) = dir_a.gen_obj_id();
    svc.put_object(&a_obj_id, &a_obj_str);

    upsert_dentry_auto(&svc, root, "a".to_string(), DentryTarget::ObjId(a_obj_id), None).unwrap();

    let err = handle_create_dir_path(&svc, &path("/a/leaf/new"))
        .unwrap_err();
    assert!(err.to_string().contains("not a directory"));
}

#[test]
fn test_set_file_rejects_existing_upper_entry() {
    let svc = create_test_service();

    handle_create_dir_path(&svc, &path("/a"))
        .unwrap();

    handle_set_file_path(&svc, &path("/a/file"), create_obj_id(11))
    .unwrap();

    let err = handle_set_file_path(&svc, &path("/a/file"), create_obj_id(12))
        .unwrap_err();
    assert!(err.to_string().contains("already exists"));
}

#[test]
fn test_set_dir_rejects_existing_upper_entry() {
    let svc = create_test_service();

    handle_create_dir_path(&svc, &path("/a"))
        .unwrap();

    let dir1 = DirObject::new(Some("d1".to_string()));
    let (dir1_id, _) = dir1.gen_obj_id();
    handle_set_dir_path(&svc, &path("/a/dir"), dir1_id)
        .unwrap();

    let dir2 = DirObject::new(Some("d2".to_string()));
    let (dir2_id, _) = dir2.gen_obj_id();
    let err = handle_set_dir_path(&svc, &path("/a/dir"), dir2_id)
        .unwrap_err();
    assert!(err.to_string().contains("already exists"));
}

#[test]
fn test_set_file_rejects_existing_base_entry() {
    let svc = create_test_service_with_store();
    let root = svc.handle_root_dir().unwrap();

    let file_obj = FileObject::new(
        "leaf.txt".to_string(),
        1,
        "sha256:00112233445566778899aabbccddeeff00112233445566778899aabbccddeeff".to_string(),
    );
    let mut dir_a = DirObject::new(Some("a".to_string()));
    dir_a
        .add_file("leaf".to_string(), file_obj, 1)
        .unwrap();
    let (a_obj_id, a_obj_str) = dir_a.gen_obj_id();
    svc.put_object(&a_obj_id, &a_obj_str);
    upsert_dentry_auto(&svc, root, "a".to_string(), DentryTarget::ObjId(a_obj_id), None).unwrap();

    let err = handle_set_file_path(&svc, &path("/a/leaf"), create_obj_id(33))
        .unwrap_err();
    assert!(err.to_string().contains("already exists"));
}

#[test]
fn test_set_dir_rejects_existing_base_entry() {
    let svc = create_test_service_with_store();
    let root = svc.handle_root_dir().unwrap();

    let child_dir = DirObject::new(Some("sub".to_string()));
    let (child_id, child_str) = child_dir.gen_obj_id();
    svc.put_object(&child_id, &child_str);

    let mut dir_a = DirObject::new(Some("a".to_string()));
    dir_a.add_directory("sub".to_string(), child_id, 0).unwrap();
    let (a_obj_id, a_obj_str) = dir_a.gen_obj_id();
    svc.put_object(&a_obj_id, &a_obj_str);
    upsert_dentry_auto(&svc, root, "a".to_string(), DentryTarget::ObjId(a_obj_id), None).unwrap();

    let dir_new = DirObject::new(Some("new".to_string()));
    let (dir_new_id, _) = dir_new.gen_obj_id();
    let err = handle_set_dir_path(&svc, &path("/a/sub"), dir_new_id)
        .unwrap_err();
    assert!(err.to_string().contains("already exists"));
}

#[test]
fn test_open_file_writer_rejects_upper_dir_object() {
    let svc = create_test_service_with_buffer();
    let root = svc.handle_root_dir().unwrap();

    let dir_obj = DirObject::new(Some("a".to_string()));
    let (dir_obj_id, _) = dir_obj.gen_obj_id();
    upsert_dentry_auto(
        &svc,
        root,
        "a".to_string(),
        DentryTarget::ObjId(dir_obj_id),
        None,
    )
    .unwrap();

    let err = handle_open_file_writer_path(
        &svc,
        &path("/a"),
        OpenWriteFlag::CreateOrTruncate,
        None,
    )
    .unwrap_err();
    assert!(err.to_string().contains("directory"));
}

#[test]
fn test_open_file_writer_rejects_existing_base_file_on_create_exclusive() {
    let svc = create_test_service_with_store_and_buffer();
    let root = svc.handle_root_dir().unwrap();

    let file_obj = FileObject::new(
        "leaf.txt".to_string(),
        1,
        "sha256:00112233445566778899aabbccddeeff00112233445566778899aabbccddeeff".to_string(),
    );
    let mut dir_a = DirObject::new(Some("a".to_string()));
    dir_a
        .add_file("leaf".to_string(), file_obj, 1)
        .unwrap();
    let (a_obj_id, a_obj_str) = dir_a.gen_obj_id();
    svc.put_object(&a_obj_id, &a_obj_str);
    upsert_dentry_auto(&svc, root, "a".to_string(), DentryTarget::ObjId(a_obj_id), None).unwrap();

    let err = handle_open_file_writer_path(
        &svc,
        &path("/a/leaf"),
        OpenWriteFlag::CreateExclusive,
        None,
    )
    .unwrap_err();
    assert!(err.to_string().contains("already exists"));
}

#[test]
fn test_open_file_writer_continue_write_treats_base_file_as_existing() {
    let svc = create_test_service_with_store_and_buffer();
    let root = svc.handle_root_dir().unwrap();

    let file_obj = FileObject::new(
        "leaf.txt".to_string(),
        1,
        "sha256:00112233445566778899aabbccddeeff00112233445566778899aabbccddeeff".to_string(),
    );
    let mut dir_a = DirObject::new(Some("a".to_string()));
    dir_a
        .add_file("leaf".to_string(), file_obj, 1)
        .unwrap();
    let (a_obj_id, a_obj_str) = dir_a.gen_obj_id();
    svc.put_object(&a_obj_id, &a_obj_str);
    upsert_dentry_auto(&svc, root, "a".to_string(), DentryTarget::ObjId(a_obj_id), None).unwrap();

    let err = handle_open_file_writer_path(
        &svc,
        &path("/a/leaf"),
        OpenWriteFlag::ContinueWrite,
        None,
    )
    .unwrap_err();

    let err_msg = err.to_string();
    assert!(!err_msg.contains("file not found"), "err={}", err_msg);
}

#[test]
fn test_open_file_writer_create_exclusive_new_file_succeeds() {
    let svc = create_test_service_with_buffer();

    let handle = handle_open_file_writer_path(
        &svc,
        &path("/new_file"),
        OpenWriteFlag::CreateExclusive,
        None,
    )
    .unwrap();
    assert!(!handle.is_empty());
}

#[test]
fn test_move_path_overwrites_existing_target_same_parent() {
    let svc = create_test_service();
    let root = svc.handle_root_dir().unwrap();

    let src_obj = create_obj_id(61);
    let dst_obj = create_obj_id(62);
    upsert_dentry_auto(
        &svc,
        root,
        "src".to_string(),
        DentryTarget::ObjId(src_obj.clone()),
        None,
    )
    .unwrap();
    upsert_dentry_auto(
        &svc,
        root,
        "dst".to_string(),
        DentryTarget::ObjId(dst_obj),
        None,
    )
    .unwrap();

    let rev0 = parent_rev(&svc, root, None);
    svc.handle_move_path(root, "src".to_string(), root, "dst".to_string())
    .unwrap();

    let rev1 = parent_rev(&svc, root, None);
    assert_eq!(rev1, rev0 + 2);

    let src = svc.handle_get_dentry(root, "src".to_string(), None).unwrap().unwrap();
    assert!(matches!(src.target, DentryTarget::Tombstone));

    let dst = svc.handle_get_dentry(root, "dst".to_string(), None).unwrap().unwrap();
    assert!(matches!(dst.target, DentryTarget::ObjId(obj) if obj == src_obj));
}

#[test]
fn test_move_path_cross_parent_overwrite_updates_both_revs() {
    let svc = create_test_service();

    handle_create_dir_path(&svc, &path("/left"))
        .unwrap();
    handle_create_dir_path(&svc, &path("/right"))
        .unwrap();
    let left = svc.ensure_dir_inode(&path("/left")).unwrap();
    let right = svc.ensure_dir_inode(&path("/right")).unwrap();

    let src_obj = create_obj_id(71);
    let dst_obj = create_obj_id(72);
    upsert_dentry_auto(
        &svc,
        right,
        "src".to_string(),
        DentryTarget::ObjId(src_obj.clone()),
        None,
    )
    .unwrap();
    upsert_dentry_auto(
        &svc,
        left,
        "dst".to_string(),
        DentryTarget::ObjId(dst_obj),
        None,
    )
    .unwrap();

    let left_rev0 = parent_rev(&svc, left, None);
    let right_rev0 = parent_rev(&svc, right, None);

    svc.handle_move_path(right, "src".to_string(), left, "dst".to_string())
    .unwrap();

    let left_rev1 = parent_rev(&svc, left, None);
    let right_rev1 = parent_rev(&svc, right, None);
    assert_eq!(left_rev1, left_rev0 + 1);
    assert_eq!(right_rev1, right_rev0 + 1);

    let src = svc.handle_get_dentry(right, "src".to_string(), None).unwrap().unwrap();
    assert!(matches!(src.target, DentryTarget::Tombstone));

    let dst = svc.handle_get_dentry(left, "dst".to_string(), None).unwrap().unwrap();
    assert!(matches!(dst.target, DentryTarget::ObjId(obj) if obj == src_obj));
}

#[test]
fn test_strong_tree_unique_inode_target_constraint() {
    let svc = create_test_service();
    let root = svc.handle_root_dir().unwrap();

    let child = create_dir_node(920);
    svc.handle_set_inode(child, None).unwrap();
    upsert_dentry_auto(
        &svc,
        root,
        "left".to_string(),
        DentryTarget::IndexNodeId(920),
        None,
    )
    .unwrap();

    let err = upsert_dentry_auto(
        &svc,
        root,
        "right".to_string(),
        DentryTarget::IndexNodeId(920),
        None,
    )
    .unwrap_err();
    assert!(err.to_string().contains("UNIQUE"));
}

fn refusal<T>(r: Result<T, String>) -> String {
    match r {
        Ok(_) => panic!("was not refused"),
        Err(e) => e,
    }
}

fn dir_obj_id(name: &str) -> ObjId {
    DirObject::new(Some(name.to_string())).gen_obj_id().0
}

#[test]
fn entry_requests_say_why_they_are_refused() {
    let svc = create_test_service();
    let target = DentryTarget::IndexNodeId(5);
    let name = || "n".to_string();
    assert_eq!(
        refusal(svc.handle_create_dentry(99, name(), target.clone(), 0, None)),
        "parent inode not found"
    );
    assert_eq!(
        refusal(svc.handle_create_dentry(1, name(), target.clone(), 0, None)),
        "inode not found"
    );
    svc.handle_set_inode(create_dir_node(5), None).unwrap();
    svc.handle_create_dentry(1, name(), target.clone(), 0, None).unwrap();
    assert_eq!(
        refusal(svc.handle_create_dentry(1, name(), target.clone(), 1, None)),
        "dentry already exists"
    );
    assert_eq!(
        refusal(svc.handle_replace_target(1, "m".to_string(), target.clone(), target, 1, None)),
        "dentry not found"
    );
    assert_eq!(refusal(svc.handle_delete_dentry(1, name(), 7, None)), "rev mismatch");
    assert_eq!(refusal(svc.handle_bump_dir_rev(1, 7, None)), "rev mismatch or inode not found");
    assert_eq!(
        refusal(svc.handle_create_dentry(
            1,
            "o".to_string(),
            DentryTarget::IndexNodeId(5),
            1,
            None
        )),
        "db error: UNIQUE constraint failed: dentries.target_inode_id"
    );
}

#[test]
fn inode_requests_say_why_they_are_refused() {
    let svc = create_test_service();
    assert_eq!(refusal(svc.handle_remove_inode(1)), "cannot remove root inode");
    assert_eq!(refusal(svc.handle_remove_inode(8)), "inode not found");
    svc.handle_set_inode(create_file_node_working(8, "fb"), None).unwrap();
    assert_eq!(
        refusal(svc.handle_update_inode_state(
            8,
            NodeState::FileNormal,
            NodeState::FileNormal,
            None
        )),
        "inode state conflict"
    );
    assert_eq!(
        refusal(svc.handle_update_inode_state(
            9,
            NodeState::FileNormal,
            NodeState::FileNormal,
            None
        )),
        "inode not found"
    );
    assert_eq!(
        refusal(svc.handle_alloc_inode(create_dir_node(8), None)),
        "db error: UNIQUE constraint failed: nodes.inode_id"
    );
    svc.handle_remove_inode(8).unwrap();
    assert_eq!(svc.handle_get_inode(8, None), Ok(None));
}

#[test]
fn path_requests_say_why_they_are_refused() {
    let svc = create_test_service();
    let empty = || "".to_string();
    let x = || "x".to_string();
    let file = create_obj_id(1);
    assert_eq!(refusal(svc.handle_set_file(1, empty(), file.clone())), "invalid path");
    assert_eq!(refusal(svc.handle_create_dir(1, empty())), "invalid path");
    assert_eq!(refusal(svc.handle_delete(1, empty())), "invalid path");
    assert_eq!(refusal(svc.handle_delete(77, x())), "inode not found");
    assert_eq!(refusal(svc.handle_symlink(1, empty(), x())), "invalid link path");
    assert_eq!(refusal(svc.handle_symlink(1, x(), empty())), "invalid target path");
    assert_eq!(
        refusal(svc.handle_set_dir(1, x(), file.clone())),
        "set_dir requires a DirObject id"
    );
    assert_eq!(
        refusal(svc.handle_set_file(77, x(), file.clone())),
        "parent directory not found"
    );
    svc.handle_set_inode(create_file_node_working(8, "fb"), None).unwrap();
    assert_eq!(
        refusal(svc.handle_set_file(8, x(), file.clone())),
        "parent is not a directory"
    );
    let closed = NodeRecord { read_only: true, ..create_dir_node(9) };
    svc.handle_set_inode(closed, None).unwrap();
    assert_eq!(refusal(svc.handle_set_file(9, x(), file.clone())), "parent is read-only");
    svc.handle_set_file(1, x(), file.clone()).unwrap();
    assert_eq!(refusal(svc.handle_set_file(1, x(), file)), "path #1/x already exists");
    assert_eq!(refusal(svc.handle_create_dir(1, x())), "path #1/x already exists");
}

#[test]
fn moves_say_why_they_are_refused() {
    let svc = create_test_service();
    let name = |s: &str| s.to_string();
    assert_eq!(refusal(svc.handle_move_path(1, name(""), 1, name("b"))), "invalid name");
    assert_eq!(refusal(svc.handle_move_path(1, name("a"), 1, name("b"))), "not found");
    svc.handle_create_dir(1, name("a")).unwrap();
    let a = svc.inode_at("/a");
    assert_eq!(refusal(svc.handle_move_path(1, name("a"), a, name("b"))), "invalid name");
    assert_eq!(refusal(svc.handle_move_path(1, name("a"), 77, name("b"))), "not found");
    let closed = NodeRecord { read_only: true, ..create_dir_node(9) };
    svc.handle_set_inode(closed, None).unwrap();
    assert_eq!(refusal(svc.handle_move_path(1, name("a"), 9, name("b"))), "read only");
    let rev = parent_rev(&svc, 1, None);
    svc.handle_move_path(1, name("a"), 1, name("a")).unwrap();
    assert_eq!(parent_rev(&svc, 1, None), rev);
    svc.handle_move_path(1, name("a"), 1, name("b")).unwrap();
    assert_eq!(svc.inode_at("/b"), a);
    assert_eq!(svc.handle_resolve_path_ex(&path("/a"), 0), Ok(None));
}

#[test]
fn a_deleted_name_is_free_again() {
    let svc = create_test_service();
    svc.handle_set_file(1, "f".to_string(), create_obj_id(1)).unwrap();
    svc.handle_delete(1, "f".to_string()).unwrap();
    assert_eq!(svc.handle_resolve_path_ex(&path("/f"), 0), Ok(None));
    svc.handle_set_file(1, "f".to_string(), create_obj_id(2)).unwrap();
    let found = svc.handle_resolve_path_ex(&path("/f"), 0).unwrap().unwrap();
    assert_eq!(found.item, FsMetaResolvePathItem::ObjId(create_obj_id(2)));
}

#[test]
fn set_file_counts_a_reference() {
    let svc = create_test_service();
    svc.handle_set_file(1, "f".to_string(), create_obj_id(1)).unwrap();
    svc.handle_set_file(1, "g".to_string(), create_obj_id(1)).unwrap();
    let stat = svc.handle_obj_stat_get(create_obj_id(1)).unwrap().unwrap();
    assert_eq!(stat.ref_count, 2);
    assert_eq!(
        refusal(svc.handle_obj_stat_bump(create_obj_id(1), -3, None)),
        "ref_count would be negative"
    );
}

#[test]
fn idle_objects_are_listed_longest_idle_first() {
    let svc = create_test_service();
    for seed in [3u8, 1, 2] {
        svc.handle_obj_stat_bump(create_obj_id(seed), 1, None).unwrap();
        svc.handle_obj_stat_bump(create_obj_id(seed), -1, None).unwrap();
        svc.pass(10);
    }
    let before = svc.now();
    let all = svc.handle_obj_stat_list_zero(before, 10).unwrap();
    assert_eq!(all, vec![create_obj_id(3), create_obj_id(1), create_obj_id(2)]);
    assert_eq!(svc.handle_obj_stat_list_zero(before, 2).unwrap(), all[..2].to_vec());
    assert!(svc.handle_obj_stat_list_zero(0, 10).unwrap().is_empty());
}

#[test]
fn an_open_transaction_keeps_others_out() {
    let svc = create_test_service();
    let tx = svc.handle_begin_txn().unwrap();
    assert_eq!(refusal(svc.handle_begin_txn()), "begin txn failed: database is locked");
    assert_eq!(
        refusal(svc.handle_set_inode(create_dir_node(5), None)),
        "db error: database is locked"
    );
    svc.handle_set_inode(create_dir_node(5), Some(tx.clone())).unwrap();
    assert_eq!(svc.handle_get_inode(5, None), Ok(None));
    assert!(svc.handle_get_inode(5, Some(tx.clone())).unwrap().is_some());
    svc.handle_rollback(Some(tx.clone())).unwrap();
    assert_eq!(refusal(svc.handle_commit(Some(tx.clone()))), "txid not found");
    assert_eq!(refusal(svc.handle_get_inode(5, Some(tx))), "txid not found");
    svc.handle_set_inode(create_dir_node(5), None).unwrap();
}

#[test]
fn a_closing_transaction_takes_no_more_requests() {
    let svc = create_test_service();
    let tx = svc.handle_begin_txn().unwrap();
    svc.inner.borrow_mut().start_commit(&tx).unwrap();
    assert_eq!(
        refusal(svc.handle_set_inode(create_dir_node(5), Some(tx.clone()))),
        "transaction is closing"
    );
    assert_eq!(
        refusal(text(svc.inner.borrow_mut().start_commit(&tx))),
        "transaction already closing"
    );
    svc.inner.borrow_mut().finish_commit(&tx);
    assert_eq!(refusal(svc.handle_commit(Some(tx))), "txid not found");
}

#[test]
fn a_transaction_that_nobody_uses_is_given_up() {
    let svc = create_test_service();
    let tx = svc.handle_begin_txn().unwrap();
    svc.handle_set_inode(create_dir_node(5), Some(tx.clone())).unwrap();
    svc.clock.set(svc.now() + 300);
    assert_eq!(svc.inner.borrow_mut().drop_stale_txns(svc.now()), 0);
    svc.clock.set(svc.now() + 1);
    assert_eq!(svc.inner.borrow_mut().drop_stale_txns(svc.now()), 1);
    assert_eq!(refusal(svc.handle_commit(Some(tx))), "txid not found");
    assert_eq!(svc.handle_get_inode(5, None), Ok(None));
}

#[test]
fn the_fence_rises_with_every_new_holder() {
    let svc = create_test_service();
    svc.handle_set_inode(create_file_node_working(5, "fb"), None).unwrap();
    let lease = |who: &str, secs| {
        svc.handle_acquire_file_lease(5, SessionId(who.to_string()), Duration::from_secs(secs))
    };
    assert_eq!(lease("a", 10), Ok(1));
    assert_eq!(refusal(lease("b", 10)), "lease conflict");
    svc.clock.set(svc.now() + 11);
    assert_eq!(lease("b", 10), Ok(2));
    assert_eq!(
        refusal(svc.handle_release_file_lease(5, SessionId("a".to_string()), 1)),
        "lease mismatch"
    );
    svc.handle_release_file_lease(5, SessionId("b".to_string()), 2).unwrap();
    assert_eq!(lease("a", 10), Ok(3));
}

#[test]
fn a_writer_has_the_file_to_itself_until_it_closes() {
    let svc = create_test_service_with_buffer();
    let open = |flag| svc.handle_open_file_writer(1, "f".to_string(), flag, None);
    assert_eq!(
        refusal(open(OpenWriteFlag::Append)),
        "file not found for Append: #1/f"
    );
    assert_eq!(
        refusal(open(OpenWriteFlag::ContinueWrite)),
        "file not found for ContinueWrite: #1/f"
    );
    let first = open(OpenWriteFlag::CreateExclusive).unwrap();
    let file = svc.inode_at("/f");
    assert_eq!(
        refusal(open(OpenWriteFlag::CreateOrTruncate)),
        "file is already being written"
    );
    assert_eq!(refusal(open(OpenWriteFlag::CreateExclusive)), "file already exists: #1/f");
    assert_eq!(
        svc.handle_open_file_reader(&path("/f")),
        Ok(OpenFileReaderResp::FileBufferId(first.clone()))
    );
    svc.pass(1);
    svc.handle_close_file_writer(file).unwrap();
    let node = svc.handle_get_inode(file, None).unwrap().unwrap();
    assert!(matches!(node.state, NodeState::Cooling(s) if s.fb_handle == first));
    assert!(node.lease_client_session.is_none());
    assert_eq!(open(OpenWriteFlag::ContinueWrite), Ok(first.clone()));
    svc.handle_close_file_writer(file).unwrap();
    assert_ne!(open(OpenWriteFlag::Append).unwrap(), first);
}

#[test]
fn writers_say_why_they_are_refused() {
    let bare = create_test_service();
    let open = |svc: &Svc, name: &str, flag| {
        svc.handle_open_file_writer(1, name.to_string(), flag, None)
    };
    assert_eq!(
        refusal(open(&bare, "f", OpenWriteFlag::CreateOrAppend)),
        "buffer service not configured"
    );
    let svc = create_test_service_with_buffer();
    assert_eq!(
        refusal(svc.handle_open_file_writer(
            77,
            "f".to_string(),
            OpenWriteFlag::CreateOrAppend,
            None
        )),
        "parent not found"
    );
    svc.handle_create_dir(1, "d".to_string()).unwrap();
    assert_eq!(
        refusal(open(&svc, "d", OpenWriteFlag::CreateOrAppend)),
        "path is a directory"
    );
    svc.handle_symlink(1, "l".to_string(), "/d".to_string()).unwrap();
    assert_eq!(
        refusal(open(&svc, "l", OpenWriteFlag::CreateOrAppend)),
        "path is a symbolic link"
    );
    let d = svc.inode_at("/d");
    assert_eq!(refusal(svc.handle_close_file_writer(d)), "not a file");
    assert_eq!(refusal(svc.handle_close_file_writer(77)), "inode not found");
    svc.handle_set_inode(create_file_node_working(50, "fb-none"), None).unwrap();
    assert_eq!(
        refusal(svc.handle_close_file_writer(50)),
        "failed to get buffer: buffer not found: fb-none"
    );
    let plain = NodeRecord { state: NodeState::FileNormal, ..create_dir_node(51) };
    svc.handle_set_inode(plain, None).unwrap();
    assert_eq!(refusal(svc.handle_close_file_writer(51)), "file is not writable");
    let target = DentryTarget::IndexNodeId(51);
    let rev = svc.handle_get_inode(1, None).unwrap().unwrap().rev.unwrap();
    svc.handle_create_dentry(1, "plain".to_string(), target, rev, None).unwrap();
    assert_eq!(
        refusal(open(&svc, "plain", OpenWriteFlag::ContinueWrite)),
        "ContinueWrite requires Working or Cooling state, current: FileNormal"
    );
    let linked = NodeState::Linked(FileLinkedState {
        obj_id: ObjId::new("cyfile".to_string(), "aa".to_string()),
        qcid: ObjId::new("qcid".to_string(), "bb".to_string()),
        filebuffer_id: "fb \"7\"".to_string(),
        linked_at: 9,
    });
    svc.handle_set_inode(NodeRecord { state: linked, ..create_dir_node(51) }, None).unwrap();
    assert_eq!(
        refusal(open(&svc, "plain", OpenWriteFlag::ContinueWrite)),
        "ContinueWrite requires Working or Cooling state, current: Linked(FileLinkedState { \
         obj_id: ObjId { obj_type: \"cyfile\", obj_hash: \"aa\" }, \
         qcid: ObjId { obj_type: \"qcid\", obj_hash: \"bb\" }, \
         filebuffer_id: \"fb \\\"7\\\"\", linked_at: 9 })"
    );
    let done = NodeState::Finalized(FinalizedObjState {
        obj_id: ObjId::new("cyfile".to_string(), "aa".to_string()),
        finalized_at: 10,
    });
    let e = MetaError::NotResumable { state: done };
    assert!(e.message().ends_with(
        "Finalized(FinalizedObjState { obj_id: ObjId { obj_type: \"cyfile\", \
         obj_hash: \"aa\" }, finalized_at: 10 })"
    ));
}

#[test]
fn failures_of_the_buffer_service_are_passed_on() {
    let mut s = FSMetaService::new().with_buffer("inst".to_string());
    let flag = OpenWriteFlag::CreateExclusive;
    let mut open =
        |answers: &BufferAnswers| s.handle_open_file_writer(1, "f".to_string(), flag, None, answers, 5);
    let asked = match open(&no_answers()) {
        Err(Stop::Ask(q)) => q,
        _ => panic!("nothing was asked"),
    };
    let (file_id, session, lease_seq) = match asked.clone() {
        Question::AllocBuffer { file_id, session, lease_seq, .. } => (file_id, session, lease_seq),
        _ => panic!("something else was asked"),
    };
    assert_eq!(session.0, format!("inst:{}", file_id));
    // A buffer that was made for another inode, session or lease does not count.
    for (id, who, seq) in [
        (file_id + 1, session.clone(), lease_seq),
        (file_id, SessionId("other".to_string()), lease_seq),
        (file_id, session.clone(), lease_seq + 1),
    ] {
        let made = Ok("fb-x".to_string());
        let other = AllocAnswer { file_id: id, session: who, lease_seq: seq, made };
        let answers = BufferAnswers { allocated: Some(other), ..no_answers() };
        assert_eq!(open(&answers), Err(Stop::Ask(asked.clone())));
    }
    let made = Err("disk full".to_string());
    let refused = AllocAnswer { file_id, session, lease_seq, made };
    let r = open(&BufferAnswers { allocated: Some(refused), ..no_answers() });
    let cause = "disk full".to_string();
    assert_eq!(r, Err(Stop::Refused(MetaError::AllocBufferFailed { cause })));
    s.handle_set_inode(create_file_node_working(50, "fb"), None, 5).unwrap();
    let answers = BufferAnswers {
        found: Some(HandleAnswer { handle: "fb".to_string(), said: Ok(()) }),
        closed: Some(HandleAnswer {
            handle: "fb".to_string(),
            said: Err("still flushing".to_string()),
        }),
        ..no_answers()
    };
    match s.handle_close_file_writer(50, &answers, 5) {
        Err(Stop::Refused(e)) => {
            assert_eq!(e.message(), "failed to close buffer: still flushing")
        }
        _ => panic!("the writer was closed"),
    }
}

#[test]
fn failures_of_the_object_store_are_passed_on() {
    let mut s = FSMetaService::new().with_named_store();
    let base = dir_obj_id("gone");
    let over = NodeRecord {
        base_obj_id: Some(base.clone()),
        state: NodeState::DirOverlay,
        ..create_dir_node(9)
    };
    s.handle_set_inode(over, None, 5).unwrap();
    s.handle_create_dentry(1, "d".to_string(), DentryTarget::IndexNodeId(9), 0, None, 5).unwrap();
    let failed = BaseReply::Failed("timed out".to_string());
    s.rest.base.learn(base.clone(), "x".to_string(), failed);
    match s.handle_resolve_path_ex(&path("/d/x"), 0) {
        Err(Stop::Refused(e)) => assert_eq!(
            e.message(),
            "failed to lookup base child: failed to lookup base DirObject child: timed out"
        ),
        _ => panic!("the path was resolved"),
    }
    for (step, said, said_in_finalize) in [
        (
            LoadStep::Load,
            "failed to load base DirObject: broken",
            "failed to load base DirObject: broken",
        ),
        (
            LoadStep::Parse,
            "failed to parse base DirObject: broken",
            "failed to parse base DirObject: broken",
        ),
        (
            LoadStep::Child,
            "invalid base child entry: broken",
            "invalid base child: broken",
        ),
        (
            LoadStep::Keep,
            "failed to cache embedded child object: broken",
            "failed to cache embedded base child object: broken",
        ),
    ] {
        let reply = DirReply::Failed(step, "broken".to_string());
        s.rest.base.learn_children(base.clone(), reply);
        match s.handle_start_list(9, None, 5) {
            Err(Stop::Refused(e)) => assert_eq!(e.message(), said),
            _ => panic!("the directory was listed"),
        }
        match s.plan_finalize_dir(&path("/d"), 5) {
            Err(Stop::Refused(e)) => assert_eq!(e.message(), said_in_finalize),
            _ => panic!("the directory was taken"),
        }
    }
}

#[test]
fn a_write_cut_off_by_its_lease_is_taken_up_again() {
    let svc = create_test_service_with_buffer();
    let open = |flag| svc.handle_open_file_writer(1, "f".to_string(), flag, None);
    let handle = open(OpenWriteFlag::CreateExclusive).unwrap();
    let file = svc.inode_at("/f");
    let state = || svc.handle_get_inode(file, None).unwrap().unwrap().state;
    svc.pass(299);
    assert!(matches!(state(), NodeState::Working(_)));
    svc.pass(1);
    let cut_at = svc.now();
    assert_eq!(
        state(),
        NodeState::Cooling(FileCoolingState { fb_handle: handle.clone(), closed_at: cut_at })
    );
    svc.clock.set(cut_at + 7);
    assert_eq!(open(OpenWriteFlag::ContinueWrite), Ok(handle.clone()));
    assert_eq!(
        state(),
        NodeState::Working(FileWorkingState {
            fb_handle: handle.clone(),
            last_write_at: cut_at + 7,
        })
    );
    svc.pass(300);
    svc.handle_close_file_writer(file).unwrap();
    assert_eq!(
        state(),
        NodeState::Cooling(FileCoolingState { fb_handle: handle, closed_at: svc.now() })
    );
}

#[test]
fn a_cut_off_write_without_its_buffer_is_lost() {
    let mut s = FSMetaService::new().with_buffer("inst".to_string());
    s.handle_set_inode(create_file_node_working(50, "fb"), None, 5).unwrap();
    s.handle_create_dentry(1, "f".to_string(), DentryTarget::IndexNodeId(50), 0, None, 5).unwrap();
    let session = SessionId("inst:50".to_string());
    s.handle_acquire_file_lease(50, session, 10, 5).unwrap();
    assert_eq!(s.reclaim_expired_write_leases(15), Ok(1));
    let swept = |handle: &str| BufferAnswers {
        found: Some(HandleAnswer {
            handle: handle.to_string(),
            said: Err("swept".to_string()),
        }),
        ..no_answers()
    };
    let flag = OpenWriteFlag::ContinueWrite;
    let r = s.handle_open_file_writer(1, "f".to_string(), flag, None, &swept("fb-other"), 20);
    assert_eq!(r, Err(Stop::Ask(Question::GetBuffer { handle: "fb".to_string() })));
    let r = s.handle_open_file_writer(1, "f".to_string(), flag, None, &swept("fb"), 20);
    assert_eq!(r, Err(Stop::Refused(MetaError::BufferGone { handle: "fb".to_string() })));
}

#[test]
fn reading_settles_a_request_while_nobody_can_write() {
    let svc = create_test_service();
    let obj = DentryTarget::ObjId(create_obj_id(1));
    svc.handle_create_dentry(1, "o".to_string(), obj.clone(), 0, None).unwrap();
    svc.handle_delete(1, "gone".to_string()).unwrap();
    let before = svc.handle_get_inode(1, None).unwrap();
    let tx = svc.handle_begin_txn().unwrap();
    let o = || "o".to_string();
    // An entry that points there already, and a name that is hidden already.
    assert_eq!(svc.handle_replace_target(1, o(), obj.clone(), obj.clone(), 2, None), Ok(()));
    assert_eq!(svc.handle_delete(1, "gone".to_string()), Ok(()));
    assert_eq!(svc.handle_move_path(1, o(), 1, o()), Ok(()));
    // Refusals that need nothing but a look.
    assert_eq!(
        refusal(svc.handle_create_dentry(1, o(), DentryTarget::Tombstone, 2, None)),
        "dentry already exists"
    );
    assert_eq!(refusal(svc.handle_delete_dentry(1, o(), 7, None)), "rev mismatch");
    assert_eq!(refusal(svc.handle_set_file(1, String::new(), create_obj_id(2))), "invalid path");
    assert_eq!(refusal(svc.handle_move_path(1, "no".to_string(), 1, o())), "not found");
    assert_eq!(refusal(svc.handle_remove_inode(1)), "cannot remove root inode");
    // Whatever writes, or begins a transaction of its own, is kept out first.
    let locked = "db error: database is locked";
    let begin = "begin txn failed: database is locked";
    let other = DentryTarget::Tombstone;
    assert_eq!(
        refusal(svc.handle_replace_target(1, o(), obj.clone(), other, 2, None)),
        locked
    );
    assert_eq!(refusal(svc.handle_delete(1, o())), locked);
    assert_eq!(refusal(svc.handle_remove_inode(77)), locked);
    assert_eq!(refusal(svc.handle_bump_dir_rev(1, 99, None)), locked);
    assert_eq!(refusal(svc.handle_set_file(77, o(), create_obj_id(2))), begin);
    assert_eq!(refusal(svc.handle_create_dir(1, o())), begin);
    assert_eq!(refusal(svc.handle_move_path(1, o(), 1, "p".to_string())), begin);
    svc.handle_rollback(Some(tx)).unwrap();
    assert_eq!(svc.handle_get_inode(1, None).unwrap(), before);
}

#[test]
fn a_revision_is_counted_up_as_long_as_a_number_follows() {
    let svc = create_test_service();
    let high = (1u64 << 63) + 5;
    for (id, rev) in [(40, high), (41, i64::MAX as u64), (42, u64::MAX)] {
        svc.handle_set_inode(NodeRecord { rev: Some(rev), ..create_dir_node(id) }, None).unwrap();
        assert_eq!(svc.handle_delete_dentry(id, "none".to_string(), rev, None), Ok(()));
    }
    let x = || "x".to_string();
    let create = |id, rev| svc.handle_create_dentry(id, x(), DentryTarget::Tombstone, rev, None);
    assert_eq!(create(40, high), Ok(()));
    assert_eq!(svc.handle_get_inode(40, None).unwrap().unwrap().rev, Some(high + 1));
    assert_eq!(svc.handle_bump_dir_rev(40, high + 1, None), Ok(high + 2));
    assert_eq!(refusal(create(41, i64::MAX as u64)), "db error: integer overflow");
    assert_eq!(refusal(create(42, u64::MAX)), "db error: integer overflow");
    assert_eq!(
        refusal(svc.handle_bump_dir_rev(41, i64::MAX as u64, None)),
        "db error: integer overflow"
    );
}

#[test]
fn a_path_resolves_to_what_a_commit_has_published() {
    let svc = create_test_service();
    let a = svc.ensure_dir_inode(&path("/a")).unwrap();
    let b = svc.ensure_dir_inode(&path("/a/b")).unwrap();
    let deep = svc.ensure_dir_inode(&path("/a/b/c")).unwrap();
    assert_eq!(svc.inode_at("/a/b/c"), deep);
    let tx = svc.handle_begin_txn().unwrap();
    let rev = svc.handle_get_inode(a, Some(tx.clone())).unwrap().unwrap().rev.unwrap();
    let link = DentryTarget::SymLink("/elsewhere".to_string());
    let old = DentryTarget::IndexNodeId(b);
    svc.handle_replace_target(a, "b".to_string(), old, link, rev, Some(tx.clone())).unwrap();
    assert_eq!(svc.inode_at("/a/b/c"), deep);
    svc.handle_commit(Some(tx.clone())).unwrap();
    let resp = svc.handle_resolve_path_ex(&path("/a/b/c"), 0).unwrap().unwrap();
    assert_eq!(resp.item, FsMetaResolvePathItem::SymLink("/elsewhere".to_string()));
    assert_eq!(resp.inner_path, Some("/c".to_string()));
    assert_eq!(refusal(svc.handle_commit(Some(tx))), "txid not found");
    assert_eq!(svc.handle_commit(None), Ok(()));
}

#[test]
fn a_fresh_service_knows_nothing_but_its_root() {
    let mut s = FSMetaService::new();
    assert_eq!(s.store.cache.len(), 0);
    assert_eq!(s.store.tables.nodes.rows.len(), 1);
    assert!(s.rest.lists.sessions.rows.is_empty());
    assert!(s.rest.finalize_queue.is_empty());
    let resp = s.handle_resolve_path_ex(&path("/"), 0).unwrap().unwrap();
    assert!(matches!(resp.item, FsMetaResolvePathItem::Inode { inode_id: 1, .. }));
    assert_eq!(s.handle_resolve_path_ex(&path("/x"), 0), Ok(None));
}

#[test]
fn an_inode_that_cannot_be_read_is_refused_alone() {
    let mut t = MetaTables::new();
    let root = t.get_inode(1).unwrap().unwrap();
    let mut rows = vec![to_row(root.clone(), 1), to_row(root.clone(), 2), to_row(root, 3)];
    rows[1].cols.state = 99;
    let entry = |id: u64, name: &str| DentryRecord {
        id,
        parent: 1,
        name: name.to_string(),
        target: DentryTarget::IndexNodeId(id + 1),
        mtime: None,
    };
    t = MetaTables::load(rows, vec![entry(1, "bad"), entry(2, "good")], Vec::new(), 3, 1)
        .ok()
        .unwrap();
    let mut s = FSMetaService::new_with_timeout(t, 10);
    let refused = Stop::Refused(MetaError::InvalidNodeState);
    let met = Stop::Refused(MetaError::At {
        stage: Stage::Inode,
        cause: Box::new(MetaError::InvalidNodeState),
    });
    assert_eq!(s.handle_get_inode(2, None, 5), Err(MetaError::InvalidNodeState));
    assert_eq!(s.handle_resolve_path_ex(&path("/bad"), 0), Err(met.clone()));
    assert_eq!(s.handle_resolve_path_ex(&path("/bad/x"), 0), Err(met));
    // Nothing is hidden in, or made under, a directory that cannot be read.
    let tables = s.store.tables.copy();
    let e = Some(MetaError::InvalidNodeState);
    assert_eq!(tables.get_inode_rev(2).err(), e);
    assert_eq!(tables.create_dir_under_parent(2, &"x".to_string(), 5).err(), e);
    let o = dir_obj_id("o");
    assert_eq!(tables.materialize_dir_from_obj(2, "x".to_string(), &o, 5).err(), e);
    assert_eq!(s.handle_delete(2, "x".to_string(), 5), Err(refused.clone()));
    assert_eq!(s.handle_get_dentry(2, "x".to_string(), None, 5), Ok(None));
    assert_eq!(s.handle_start_list(1, None, 5), Err(refused));
    assert!(matches!(s.handle_resolve_path_ex(&path("/good"), 0), Ok(Some(_))));
    assert!(s.handle_start_list(3, None, 5).is_ok());
    let target = s.handle_get_dentry(1, "bad".to_string(), None, 5).unwrap().unwrap().target;
    assert_eq!(target, DentryTarget::IndexNodeId(2));

    let mut s = s.with_named_store();
    s.handle_symlink(3, "l".to_string(), "/bad".to_string(), 6).unwrap();
    let e = match s.plan_finalize_dir(&path("/good"), 7) {
        Err(Stop::Refused(e)) => e,
        _ => panic!("the link leads nowhere"),
    };
    assert_eq!(e.message(), "resolve symlink child failed: failed to get inode: invalid node state");
}

#[test]
fn readers_are_told_where_the_content_is() {
    let svc = create_test_service();
    svc.handle_set_file(1, "f".to_string(), create_obj_id(1)).unwrap();
    let read = |p: &str| svc.handle_open_file_reader(&path(p));
    assert_eq!(read("/f"), Ok(OpenFileReaderResp::Object(create_obj_id(1), None)));
    assert_eq!(
        read("/f/in/side"),
        Ok(OpenFileReaderResp::Object(create_obj_id(1), Some("/in/side".to_string())))
    );
    assert_eq!(refusal(read("/")), "path is a directory");
    assert_eq!(refusal(read("/none")), "path not found");
    svc.handle_create_dir(1, "d".to_string()).unwrap();
    assert_eq!(refusal(read("/d")), "path is a directory");
}

#[test]
fn a_finished_directory_becomes_an_object() {
    let svc = create_test_service_with_store();
    svc.handle_create_dir(1, "d".to_string()).unwrap();
    let d = svc.inode_at("/d");
    svc.handle_set_file(d, "b".to_string(), create_obj_id(2)).unwrap();
    svc.handle_set_file(d, "a".to_string(), create_obj_id(1)).unwrap();
    let plan = match svc.plan_finalize_dir(&path("/d")).unwrap() {
        FinalizeStep::Build(plan) => plan,
        _ => panic!("nothing to build"),
    };
    assert_eq!(
        plan.children.rows,
        vec![("a".to_string(), create_obj_id(1)), ("b".to_string(), create_obj_id(2))]
    );
    let obj = dir_obj_id("d");
    let done = svc.inner.borrow_mut().finish_finalize_dir(&plan, obj.clone(), svc.now());
    assert_eq!(done, Ok(true));
    let found = svc.handle_resolve_path_ex(&path("/d"), 0).unwrap().unwrap();
    assert_eq!(found.item, FsMetaResolvePathItem::ObjId(obj));
    assert!(matches!(svc.plan_finalize_dir(&path("/d")).unwrap(), FinalizeStep::Done));
}

#[test]
fn a_plan_is_void_once_the_directory_has_changed() {
    let svc = create_test_service_with_store();
    svc.handle_create_dir(1, "d".to_string()).unwrap();
    let d = svc.inode_at("/d");
    let plan = match svc.plan_finalize_dir(&path("/d")).unwrap() {
        FinalizeStep::Build(plan) => plan,
        _ => panic!("nothing to build"),
    };
    svc.handle_set_file(d, "late".to_string(), create_obj_id(1)).unwrap();
    let r = svc.inner.borrow_mut().finish_finalize_dir(&plan, dir_obj_id("d"), svc.now());
    assert_eq!(refusal(text(r)), "directory rev changed during finalize");
    let plan = match svc.plan_finalize_dir(&path("/d")).unwrap() {
        FinalizeStep::Build(plan) => plan,
        _ => panic!("nothing to build"),
    };
    svc.handle_create_dir(1, "other".to_string()).unwrap();
    let r = svc.inner.borrow_mut().finish_finalize_dir(&plan, dir_obj_id("d"), svc.now());
    assert_eq!(refusal(text(r)), "parent rev changed during finalize");
}

#[test]
fn directories_below_are_finalized_first() {
    let svc = create_test_service_with_store();
    svc.ensure_dir_inode(&path("/d/e")).unwrap();
    match svc.plan_finalize_dir(&path("/d")).unwrap() {
        FinalizeStep::Queue(paths) => {
            assert_eq!(paths, vec!["/d/e".to_string(), "/d".to_string()])
        }
        _ => panic!("nothing to wait for"),
    }
    assert_eq!(
        refusal(svc.plan_finalize_dir(&path("/"))),
        "finalize root directory is not supported"
    );
}

#[test]
fn a_directory_is_made_once() {
    let svc = create_test_service();
    let b = svc.ensure_dir_inode(&path("/a/b")).unwrap();
    assert_eq!(svc.ensure_dir_inode(&path("/a/b")), Ok(b));
    assert_eq!(svc.ensure_dir_inode(&path("//a//b/")), Ok(b));
    assert_eq!(svc.ensure_dir_inode(&path("/")), Ok(1));
    svc.handle_set_file(1, "f".to_string(), create_obj_id(1)).unwrap();
    assert!(svc.ensure_dir_inode(&path("/f/x")).is_err());
}

#[test]
fn links_are_followed_as_often_as_allowed() {
    let svc = create_test_service();
    svc.handle_create_dir(1, "d".to_string()).unwrap();
    svc.handle_symlink(1, "one".to_string(), "/d".to_string()).unwrap();
    svc.handle_symlink(1, "two".to_string(), "/one".to_string()).unwrap();
    let get = |p: &str, n| svc.handle_resolve_path_ex(&path(p), n).unwrap().unwrap().item;
    assert_eq!(get("/two", 0), FsMetaResolvePathItem::SymLink("/one".to_string()));
    assert_eq!(get("/two", 1), FsMetaResolvePathItem::SymLink("/d".to_string()));
    assert!(matches!(get("/two", 2), FsMetaResolvePathItem::Inode { .. }));
    svc.handle_symlink(1, "self".to_string(), "/self".to_string()).unwrap();
    assert_eq!(get("/self", 40), FsMetaResolvePathItem::SymLink("/self".to_string()));
}

#[test]
fn a_cached_answer_is_the_answer_of_the_tables() {
    let svc = create_test_service();
    svc.ensure_dir_inode(&path("/a/b/c")).unwrap();
    let first = svc.handle_resolve_path_ex(&path("/a/b/c"), 0).unwrap();
    let second = svc.handle_resolve_path_ex(&path("/a/b/c"), 0).unwrap();
    assert_eq!(first, second);
    let a = svc.inode_at("/a");
    svc.handle_delete(a, "b".to_string()).unwrap();
    assert_eq!(svc.handle_resolve_path_ex(&path("/a/b/c"), 0), Ok(None));
}

#[test]
fn a_directory_is_made_where_its_parent_is() {
    let svc = create_test_service();
    let make = |p: &str, locked: bool| {
        let s = &mut *svc.inner.borrow_mut();
        s.store.create_dir_internal(&s.rest.base, &path(p), When { now: 5, locked })
    };
    assert_eq!(make("/", false), Err(Stop::Refused(MetaError::InvalidPath)));
    assert!(make("/a/b", false).is_err());
    assert_eq!(make("/a", false), Ok(()));
    assert_eq!(make("/a/b", false), Ok(()));
    let b = svc.inode_at("/a/b");
    assert_eq!(make("/a/b", false), Ok(()));
    assert_eq!(svc.inode_at("/a/b"), b);
    assert!(make("/c", true).is_err());
}

#[test]
fn closing_waits_for_requests_under_way() {
    let mut s = FSMetaService::new();
    let tx = s.handle_begin_txn(10).unwrap();
    assert_eq!(s.enter_txn(&tx), Ok(()));
    assert_eq!(s.enter_txn(&"none".to_string()), Err(MetaError::TxidNotFound));
    assert_eq!(s.start_commit(&tx), Ok(()));
    assert!(s.must_wait(&tx, 30, 30));
    assert!(!s.must_wait(&tx, 31, 30));
    assert_eq!(s.enter_txn(&tx), Err(MetaError::TxnClosing));
    s.leave_txn(&tx);
    assert!(!s.must_wait(&tx, 0, 30));
    s.finish_commit(&tx);
    assert!(!s.is_busy());
}

#[test]
fn only_the_root_has_no_components() {
    assert!(path("/").is_root());
    assert!(path("").is_root());
    assert!(path("//").is_root());
    assert!(!path("/a").is_root());
}

#[test]
fn a_new_buffer_is_asked_for_under_its_path_and_session() {
    let mut s = FSMetaService::new().with_buffer("inst".to_string());
    let asked = s.handle_open_file_writer(
        1,
        "f".to_string(),
        OpenWriteFlag::CreateExclusive,
        Some(7),
        &no_answers(),
        10,
    );
    assert_eq!(
        asked,
        Err(Stop::Ask(Question::AllocBuffer {
            file_id: 2,
            path: "/__inode_parent_1/f".to_string(),
            session: SessionId("inst:2".to_string()),
            lease_seq: 1,
            expected_size: Some(7),
        }))
    );
}
