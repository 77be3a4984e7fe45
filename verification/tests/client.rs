//! A client's tasks, run against the service itself.

use cyfs_meta::client::{
    is_retryable_conflict, parent_and_name_for_path, plan_move_request, prefix_path, Call,
    ClientError, EnsureDir, Failure, MoveRefusal, PlaceDir, Progress, Reply,
};
use cyfs_meta::client_paths::{DirRequest, FsMetaClient, PathError, PathProgress, PathTask};
use cyfs_meta::outside::{BaseReply, DirReply, Question, Stop};
use cyfs_meta::paths::NfsPath;
use cyfs_meta::records::{DentryTarget, NodeState, ObjId, OpenWriteFlag};
use cyfs_meta::service::FSMetaService;

struct Peer {
    svc: FSMetaService,
    now: u64,
    calls: Vec<String>,
    /// Answers that are given in place of the service's, by the name of the call.
    spoiled: Vec<(String, Failure)>,
}

impl Peer {
    fn new() -> Self {
        Peer { svc: FSMetaService::new(), now: 10, calls: Vec::new(), spoiled: Vec::new() }
    }

    fn learn(&mut self, q: Question) {
        match q {
            Question::BaseChild { dir, name } => {
                let reply = if name == "sub" {
                    BaseReply::Found(dir_obj("sub"))
                } else {
                    BaseReply::Missing
                };
                self.svc.rest.base.learn(dir, name, reply);
            }
            Question::BaseChildren { dir } => {
                self.svc.rest.base.learn_children(dir, DirReply::Children(Vec::new()));
            }
            _ => panic!("no such question here"),
        }
    }

    fn spoil(&mut self, call: &str, failure: Failure) {
        self.spoiled.push((call.to_string(), failure));
    }

    fn answer(&mut self, call: Call, comps: &Vec<String>) -> Reply {
        let name = match &call {
            Call::RootDir => "root_dir",
            Call::GetDentry { .. } => "get_dentry",
            Call::GetInode { .. } => "get_inode",
            Call::ResolvePrefix { .. } => "resolve",
            Call::BeginTxn => "begin",
            Call::AllocInode { .. } => "alloc_inode",
            Call::ReplaceTarget { .. } => "replace",
            Call::CreateDentry { .. } => "create",
            Call::Commit { .. } => "commit",
            Call::Rollback { .. } => "rollback",
        };
        self.calls.push(name.to_string());
        let spoiled = self.spoiled.iter().position(|s| s.0 == name);
        if let Some(i) = spoiled {
            return Reply::Failed(self.spoiled.remove(i).1);
        }
        let now = self.now;
        let svc = &mut self.svc;
        let done = |r: Result<(), cyfs_meta::errors::MetaError>| match r {
            Ok(_) => Reply::Done,
            Err(e) => Reply::Failed(Failure::Reason(e.message())),
        };
        match call {
            Call::RootDir => Reply::Id(svc.handle_root_dir()),
            Call::GetDentry { parent, name, txid } => {
                match svc.handle_get_dentry(parent, name, txid, now) {
                    Ok(d) => Reply::Dentry(d),
                    Err(e) => Reply::Failed(Failure::Reason(e.message())),
                }
            }
            Call::GetInode { id, txid } => match svc.handle_get_inode(id, txid, now) {
                Ok(n) => Reply::Inode(n),
                Err(e) => Reply::Failed(Failure::Reason(e.message())),
            },
            Call::ResolvePrefix { depth, sym_count } => {
                let path = NfsPath::new(prefix_path(comps, depth));
                loop {
                    match self.svc.handle_resolve_path_ex(&path, sym_count) {
                        Ok(r) => return Reply::Resolved(r),
                        Err(Stop::Refused(e)) => return Reply::Failed(Failure::Reason(e.message())),
                        Err(Stop::Ask(q)) => self.learn(q),
                    }
                }
            }
            Call::BeginTxn => match svc.handle_begin_txn(now) {
                Ok(t) => Reply::Txid(t),
                Err(e) => Reply::Failed(Failure::Reason(e.message())),
            },
            Call::AllocInode { node, txid } => {
                match svc.handle_alloc_inode(node, Some(txid), now) {
                    Ok(id) => Reply::Id(id),
                    Err(e) => Reply::Failed(Failure::Reason(e.message())),
                }
            }
            Call::ReplaceTarget {
                parent,
                name,
                expected_old_target,
                new_target,
                expected_parent_rev,
                txid,
            } => done(svc.handle_replace_target(
                parent,
                name,
                expected_old_target,
                new_target,
                expected_parent_rev,
                Some(txid),
                now,
            )),
            Call::CreateDentry { parent, name, target, expected_parent_rev, txid } => {
                let rev = expected_parent_rev;
                done(svc.handle_create_dentry(parent, name, target, rev, Some(txid), now))
            }
            Call::Commit { txid } => done(svc.handle_commit(Some(txid))),
            Call::Rollback { txid } => done(svc.handle_rollback(Some(txid))),
        }
    }

    fn ensure(&mut self, path: &str) -> Result<u64, ClientError> {
        let path = NfsPath::new(path.to_string());
        let comps = path.components();
        let (mut task, mut progress) = EnsureDir::ensure_dir_inode(&path);
        loop {
            match progress {
                Progress::End(r) => return r,
                Progress::Call(call) => {
                    let reply = self.answer(call, &comps);
                    let next = task.step(reply);
                    task = next.0;
                    progress = next.1;
                }
            }
        }
    }

    fn place(&mut self, started: (PlaceDir, Progress)) -> Result<u64, ClientError> {
        let (mut task, mut progress) = started;
        loop {
            match progress {
                Progress::End(r) => return r,
                Progress::Call(call) => {
                    let reply = self.answer(call, &Vec::new());
                    let next = task.step(reply);
                    task = next.0;
                    progress = next.1;
                }
            }
        }
    }
}

/// What came of a request at a path.
type Outcome = Result<Result<(), String>, PathError>;

impl Peer {
    fn apply(&mut self, request: DirRequest) -> Result<(), String> {
        let now = self.now;
        loop {
            let svc = &mut self.svc;
            let r = match &request {
                DirRequest::SetFile { parent, name, obj_id } => {
                    svc.handle_set_file(*parent, name.clone(), obj_id.clone(), now).map(|_| ())
                }
                DirRequest::SetDir { parent, name, obj_id } => {
                    svc.handle_set_dir(*parent, name.clone(), obj_id.clone(), now).map(|_| ())
                }
                DirRequest::Delete { parent, name } => svc.handle_delete(*parent, name.clone(), now),
                DirRequest::Symlink { parent, name, target } => {
                    svc.handle_symlink(*parent, name.clone(), target.clone(), now)
                }
                DirRequest::CreateDir { parent, name } => {
                    svc.handle_create_dir(*parent, name.clone(), now)
                }
                DirRequest::MovePath { src_parent, src_name, dst_parent, dst_name } => svc
                    .handle_move_path(
                        *src_parent,
                        src_name.clone(),
                        *dst_parent,
                        dst_name.clone(),
                        now,
                    ),
                DirRequest::OpenFileWriter { .. } => return Err("not run here".to_string()),
            };
            match r {
                Ok(()) => return Ok(()),
                Err(Stop::Refused(e)) => return Err(e.message()),
                Err(Stop::Ask(q)) => self.learn(q),
            }
        }
    }

    /// The directories to look for, in the order in which they are needed.
    fn run(&mut self, started: (PathTask, PathProgress), dirs: &[&str]) -> Outcome {
        let (mut task, mut progress) = started;
        let mut roots = 0;
        loop {
            match progress {
                PathProgress::End(e) => return Err(e),
                PathProgress::Apply(request) => return Ok(self.apply(request)),
                PathProgress::Call(call) => {
                    if matches!(call, Call::RootDir) {
                        roots += 1;
                    }
                    let comps = NfsPath::new(dirs[roots - 1].to_string()).components();
                    let reply = self.answer(call, &comps);
                    let next = task.step(reply);
                    task = next.0;
                    progress = next.1;
                }
            }
        }
    }

    fn at(
        &mut self,
        path: &str,
        start: impl Fn(FsMetaClient, &NfsPath) -> (PathTask, PathProgress),
    ) -> Outcome {
        let path = NfsPath::new(path.to_string());
        let dir = match parent_and_name_for_path(&path) {
            Some((parent, _)) => parent.as_str().to_string(),
            None => "/".to_string(),
        };
        let started = start(FsMetaClient::new_in_process(), &path);
        self.run(started, &[&dir])
    }

    fn move_path(&mut self, from: &str, to: &str) -> Outcome {
        let from = NfsPath::new(from.to_string());
        let to = NfsPath::new(to.to_string());
        let started = FsMetaClient::new_in_process().move_path(&from, &to);
        let of = |p: &NfsPath| match parent_and_name_for_path(p) {
            Some((parent, _)) => parent.as_str().to_string(),
            None => "/".to_string(),
        };
        let (a, b) = (of(&from), of(&to));
        self.run(started, &[&a, &b])
    }

    fn target_at(&mut self, path: &str) -> Option<DentryTarget> {
        let (parent, name) = parent_and_name_for_path(&NfsPath::new(path.to_string())).unwrap();
        let dir = self.ensure(parent.as_str()).unwrap();
        self.svc.handle_get_dentry(dir, name, None, 10).unwrap().map(|d| d.target)
    }
}

fn dir_obj(seed: &str) -> ObjId {
    ObjId::new("cydir".to_string(), seed.to_string())
}

fn file_obj(seed: &str) -> ObjId {
    ObjId::new("cyfile".to_string(), seed.to_string())
}

#[test]
fn a_directory_is_found_or_made() {
    let mut p = Peer::new();
    let b = p.ensure("/a/b").unwrap();
    assert_eq!(p.ensure("/a/b"), Ok(b));
    assert_eq!(p.ensure("/"), Ok(1));
    assert!(!p.svc.is_busy());
    let node = p.svc.handle_get_inode(b, None, 10).unwrap().unwrap();
    assert_eq!(node.state, NodeState::DirNormal);
}

#[test]
fn a_placing_is_one_transaction() {
    let mut p = Peer::new();
    let id = p.place(PlaceDir::create_dir_under_parent(1, "d".to_string())).unwrap();
    assert_eq!(p.calls, ["begin", "get_inode", "get_dentry", "alloc_inode", "create", "commit"]);
    p.calls.clear();
    assert_eq!(p.place(PlaceDir::create_dir_under_parent(1, "d".to_string())), Ok(id));
    assert_eq!(p.calls.first().unwrap(), "begin");
    assert!(!p.calls.contains(&"alloc_inode".to_string()));
    assert!(!p.svc.is_busy());
}

#[test]
fn a_conflict_is_tried_again() {
    let mut p = Peer::new();
    p.spoil("create", Failure::Reason("rev mismatch".to_string()));
    p.spoil("create", Failure::Reason("dentry already exists".to_string()));
    p.place(PlaceDir::create_dir_under_parent(1, "d".to_string())).unwrap();
    let begun = p.calls.iter().filter(|c| *c == "begin").count();
    let given_up = p.calls.iter().filter(|c| *c == "rollback").count();
    assert_eq!((begun, given_up), (3, 2));
}

#[test]
fn conflicts_are_not_tried_for_ever() {
    let mut p = Peer::new();
    for _ in 0..8 {
        p.spoil("create", Failure::Reason("rev mismatch".to_string()));
    }
    let r = p.place(PlaceDir::create_dir_under_parent(1, "d".to_string()));
    assert_eq!(r, Err(ClientError::ConflictCreating));
    assert_eq!(p.calls.iter().filter(|c| *c == "begin").count(), 8);
    assert!(!p.svc.is_busy());

    for _ in 0..8 {
        p.spoil("create", Failure::Reason("conflict".to_string()));
    }
    let start = PlaceDir::materialize_dir_from_obj(1, "m".to_string(), dir_obj("m"));
    assert_eq!(p.place(start), Err(ClientError::ConflictMaterializing));
}

#[test]
fn other_failures_end_the_placing() {
    let mut p = Peer::new();
    p.spoil("alloc_inode", Failure::Reason("disk is full".to_string()));
    let r = p.place(PlaceDir::create_dir_under_parent(1, "d".to_string()));
    assert_eq!(r, Err(ClientError::Service(Failure::Reason("disk is full".to_string()))));
    assert_eq!(p.calls.last().unwrap(), "rollback");
    assert!(!p.svc.is_busy());
    let r = p.place(PlaceDir::create_dir_under_parent(77, "d".to_string()));
    assert_eq!(r, Err(ClientError::ParentDirNotFound));
}

#[test]
fn an_object_gets_an_inode_laid_over_it() {
    let mut p = Peer::new();
    let start = PlaceDir::materialize_dir_from_obj(1, "m".to_string(), dir_obj("m"));
    let id = p.place(start).unwrap();
    let node = p.svc.handle_get_inode(id, None, 10).unwrap().unwrap();
    assert_eq!(node.state, NodeState::DirOverlay);
    assert_eq!(node.base_obj_id, Some(dir_obj("m")));
}

#[test]
fn directories_inside_objects_are_materialized_on_the_way() {
    let mut p = Peer::new();
    p.svc = FSMetaService::new().with_named_store();
    let target = DentryTarget::ObjId(dir_obj("o"));
    p.svc.handle_create_dentry(1, "o".to_string(), target, 0, None, 10).unwrap();
    let id = p.ensure("/o/sub/new").unwrap();
    let node = p.svc.handle_get_inode(id, None, 10).unwrap().unwrap();
    assert_eq!(node.state, NodeState::DirNormal);
    let o = p.ensure("/o").unwrap();
    let over = p.svc.handle_get_inode(o, None, 10).unwrap().unwrap();
    assert_eq!(over.base_obj_id, Some(dir_obj("o")));
    let sub = p.ensure("/o/sub").unwrap();
    let over = p.svc.handle_get_inode(sub, None, 10).unwrap().unwrap();
    assert_eq!(over.base_obj_id, Some(dir_obj("sub")));
}

#[test]
fn a_file_in_the_way_is_an_error() {
    let mut p = Peer::new();
    let target = DentryTarget::ObjId(file_obj("f"));
    p.svc.handle_create_dentry(1, "f".to_string(), target, 0, None, 10).unwrap();
    assert!(p.ensure("/f/x").is_err());
    assert!(!p.svc.is_busy());
}

#[test]
fn only_some_messages_speak_of_conflicts() {
    let reason = |text: &str| is_retryable_conflict(&Failure::Reason(text.to_string()));
    assert!(reason("rev mismatch"));
    assert!(reason("path #1/x already exists"));
    assert!(reason("lease conflict"));
    assert!(!reason("inode not found"));
    assert!(!reason(""));
    assert!(!is_retryable_conflict(&Failure::Other("rev mismatch".to_string())));
}

#[test]
fn what_goes_wrong_on_the_way_is_not_tried_again() {
    let mut p = Peer::new();
    let lost = Failure::Other("conflict in the stream".to_string());
    p.spoil("create", lost.clone());
    let r = p.place(PlaceDir::create_dir_under_parent(1, "d".to_string()));
    assert_eq!(r, Err(ClientError::Service(lost)));
    assert_eq!(p.calls.iter().filter(|c| *c == "begin").count(), 1);
}

#[test]
fn paths_are_taken_apart() {
    let path = |s: &str| NfsPath::new(s.to_string());
    let (parent, name) = parent_and_name_for_path(&path("/a/b/c")).unwrap();
    assert_eq!((parent.as_str(), name.as_str()), ("/a/b", "c"));
    let (parent, name) = parent_and_name_for_path(&path("/a")).unwrap();
    assert_eq!((parent.as_str(), name.as_str()), ("/", "a"));
    assert!(parent_and_name_for_path(&path("/")).is_none());
}

#[test]
fn a_move_into_itself_is_seen_beforehand() {
    let path = |s: &str| NfsPath::new(s.to_string());
    let plan = |a: &str, b: &str| plan_move_request(&path(a), &path(b));
    assert!(plan("/a", "/a/b").ok().unwrap().into_itself);
    assert!(!plan("/a", "/ab").ok().unwrap().into_itself);
    assert!(!plan("/a", "/b").ok().unwrap().into_itself);
    assert_eq!(plan("/", "/b").err(), Some(MoveRefusal::InvalidSource));
    assert_eq!(plan("/a", "/").err(), Some(MoveRefusal::InvalidDestination));
}

#[test]
fn requests_at_paths_make_the_directories_they_need() {
    let mut p = Peer::new();
    assert_eq!(p.at("/a/b/f", |c, p| c.set_file(p, file_obj("f"))), Ok(Ok(())));
    assert_eq!(p.target_at("/a/b/f"), Some(DentryTarget::ObjId(file_obj("f"))));
    assert_eq!(p.at("/a/d", |c, p| c.set_dir(p, dir_obj("d"))), Ok(Ok(())));
    assert_eq!(p.target_at("/a/d"), Some(DentryTarget::ObjId(dir_obj("d"))));
    let to = || NfsPath::new("../b/f".to_string());
    assert_eq!(p.at("/a/l", |c, p| c.symlink(p, to())), Ok(Ok(())));
    assert_eq!(p.target_at("/a/l"), Some(DentryTarget::SymLink("../b/f".to_string())));
    assert_eq!(p.at("/x/y", |c, p| c.create_dir(p)), Ok(Ok(())));
    let again = p.at("/x/y", |c, p| c.create_dir(p)).unwrap();
    assert!(again.unwrap_err().contains("already exists"));
    assert_eq!(p.at("/a/b/f", |c, p| c.delete(p)), Ok(Ok(())));
    assert_eq!(p.target_at("/a/b/f"), Some(DentryTarget::Tombstone));
}

#[test]
fn a_move_between_paths_carries_the_target() {
    let mut p = Peer::new();
    p.at("/a/f", |c, p| c.set_file(p, file_obj("f"))).unwrap().unwrap();
    assert_eq!(p.move_path("/a/f", "/new/place/g"), Ok(Ok(())));
    assert_eq!(p.target_at("/new/place/g"), Some(DentryTarget::ObjId(file_obj("f"))));
    assert_eq!(p.move_path("/new", "/new/place/below"), Err(PathError::IntoItself));
    assert_eq!(p.move_path("/", "/b"), Err(PathError::InvalidSource));
    assert_eq!(p.move_path("/a", "/"), Err(PathError::InvalidDestination));
}

#[test]
fn the_network_client_only_opens_writers() {
    let path = NfsPath::new("/a/f".to_string());
    let c = FsMetaClient::new_krpc();
    for started in [
        c.delete(&path),
        c.create_dir(&path),
        c.set_file(&path, file_obj("f")),
        c.set_dir(&path, dir_obj("d")),
        c.symlink(&path, NfsPath::new("x".to_string())),
        c.move_path(&path, &path),
    ] {
        match started.1 {
            PathProgress::End(e) => assert_eq!(
                e.message("delete", &Vec::new()),
                "delete is not supported in kRPC client"
            ),
            _ => panic!("must be refused"),
        }
    }
    let write = c.open_file_writer(&path, OpenWriteFlag::Append, None).1;
    assert!(matches!(write, PathProgress::Call(Call::RootDir)));
    assert_eq!(c.open_file_reader(), Err(PathError::Unsupported));
    assert_eq!(c.close_file_writer(), Err(PathError::Unsupported));
    let near = FsMetaClient::new_in_process();
    assert_eq!(near.open_file_reader(), Ok(()));
    assert_eq!(near.close_file_writer(), Ok(()));
}

#[test]
fn failures_at_paths_say_what_was_asked() {
    let mut p = Peer::new();
    let e = p.at("/", |c, p| c.delete(p)).unwrap_err();
    assert_eq!(e.message("delete", &Vec::new()), "delete failed: invalid path");
    p.at("/f", |c, p| c.set_file(p, file_obj("f"))).unwrap().unwrap();
    let e = p.at("/f/x", |c, p| c.create_dir(p)).unwrap_err();
    let comps = NfsPath::new("/f".to_string()).components();
    assert_eq!(e.message("create_dir", &comps), "create_dir failed: /f is not a directory");
    p.spoil("root_dir", Failure::Reason("no root".to_string()));
    let e = p.at("/g", |c, p| c.create_dir(p)).unwrap_err();
    let failure = Failure::Reason("no root".to_string());
    assert_eq!(e, PathError::Directory(ClientError::Service(failure)));
}
