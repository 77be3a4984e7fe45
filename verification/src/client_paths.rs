//! What a client does with a path: it finds or makes the directory, then asks
//! for the change in it.

use vstd::prelude::*;
use crate::client::{
    ensure_rank, ensure_step, law_search_ends, parent_and_name_for_path, plan_move_request, Call,
    ClientError, EnsureDir, EnsureState, MoveRefusal, Progress, Reply, ENSURE_DIR_RETRY_LIMIT,
};
use crate::finalize::holder_path;
use crate::paths::{is_below, path_parts, NfsPath};
use crate::records::{ObjId, OpenWriteFlag};
use crate::text::{joined, view_all};

verus! {

/// A client of the metadata service, by the way on which it reaches it.
#[derive(Debug, Clone, Copy, PartialEq, Eq, Structural)]
pub enum FsMetaClient {
    InProcess,
    /// Over the network, where only some requests are known.
    KRPC,
}

/// What is to be done at a path.
pub enum PathOp {
    OpenFileWriter { flag: OpenWriteFlag, expected_size: Option<u64> },
    SetFile { obj_id: ObjId },
    SetDir { obj_id: ObjId },
    Delete,
    Symlink { target: String },
    CreateDir,
    /// The new place: its directory, its name, and whether it lies below the
    /// path that is moved.
    MoveTo { parent: NfsPath, name: String, into_itself: bool },
}

/// The same as a request about a name in a directory that is known.
#[derive(Debug, Clone)]
pub enum DirRequest {
    OpenFileWriter {
        parent: u64,
        name: String,
        flag: OpenWriteFlag,
        expected_size: Option<u64>,
    },
    SetFile { parent: u64, name: String, obj_id: ObjId },
    SetDir { parent: u64, name: String, obj_id: ObjId },
    Delete { parent: u64, name: String },
    Symlink { parent: u64, name: String, target: String },
    CreateDir { parent: u64, name: String },
    MovePath { src_parent: u64, src_name: String, dst_parent: u64, dst_name: String },
}

/// Why a request at a path has failed before it was made.
#[derive(Debug, Clone, PartialEq, Eq)]
pub enum PathError {
    /// The request does not go over the network.
    Unsupported,
    InvalidPath,
    InvalidSource,
    InvalidDestination,
    /// A directory cannot be moved below itself.
    IntoItself,
    /// A directory on the way could be neither found nor made.
    Directory(ClientError),
}

impl PathError {
    /// What the error says of the request named `op`; `p` are the components of
    /// the directory that was looked for.
    pub open spec fn text(&self, op: Seq<char>, p: Seq<Seq<char>>) -> Seq<char> {
        match *self {
            PathError::Unsupported => op + " is not supported in kRPC client"@,
            PathError::InvalidPath => op + (" failed: "@ + "invalid path"@),
            PathError::InvalidSource => "invalid source path"@,
            PathError::InvalidDestination => "invalid destination path"@,
            PathError::IntoItself => "invalid name"@,
            PathError::Directory(e) => op + (" failed: "@ + e.text(p)),
        }
    }

    pub fn message(&self, op: &str, comps: &Vec<String>) -> (r: String)
        requires
            *self matches PathError::Directory(ClientError::NotDirectory { depth }) ==> depth
                <= comps@.len(),
            *self matches PathError::Directory(ClientError::NotDirectoryInode { depth }) ==> depth
                <= comps@.len(),
        ensures
            r@ == self.text(op@, view_all(comps@)),
    {
        match self {
            PathError::Unsupported => joined(op, " is not supported in kRPC client"),
            PathError::InvalidPath => joined(op, joined(" failed: ", "invalid path").as_str()),
            PathError::InvalidSource => "invalid source path".to_owned(),
            PathError::InvalidDestination => "invalid destination path".to_owned(),
            PathError::IntoItself => "invalid name".to_owned(),
            PathError::Directory(e) => joined(
                op,
                joined(" failed: ", e.message(comps).as_str()).as_str(),
            ),
        }
    }
}

pub enum PathProgress {
    Call(Call),
    /// The request to make; its answer is the answer to the whole.
    Apply(DirRequest),
    End(PathError),
}

pub enum PathAt {
    /// The directory of the path is looked for.
    First { task: EnsureDir },
    /// The directory that a move goes to is looked for.
    Second { src_parent: u64, task: EnsureDir },
    Over,
}

pub struct PathTask {
    pub op: PathOp,
    pub name: String,
    pub at: PathAt,
}

/// Only writers are opened over the network.
pub open spec fn supported(kind: FsMetaClient, op: PathOp) -> bool {
    kind == FsMetaClient::InProcess || op is OpenFileWriter
}

/// The request about `name` in `parent` that `op` stands for.  A move has none
/// until both directories are known.
pub open spec fn request_in(op: PathOp, parent: u64, name: String) -> Option<DirRequest> {
    match op {
        PathOp::OpenFileWriter { flag, expected_size } => Some(
            DirRequest::OpenFileWriter { parent, name, flag, expected_size },
        ),
        PathOp::SetFile { obj_id } => Some(DirRequest::SetFile { parent, name, obj_id }),
        PathOp::SetDir { obj_id } => Some(DirRequest::SetDir { parent, name, obj_id }),
        PathOp::Delete => Some(DirRequest::Delete { parent, name }),
        PathOp::Symlink { target } => Some(DirRequest::Symlink { parent, name, target }),
        PathOp::CreateDir => Some(DirRequest::CreateDir { parent, name }),
        PathOp::MoveTo { .. } => None,
    }
}

/// The search for the directory at `path` begins.
pub open spec fn searches(task: EnsureDir, path: Seq<char>) -> bool {
    &&& view_all(task.comps@) == path_parts(path)
    &&& task.i == 0
    &&& task.at is Root
    &&& task.wf()
}

/// `r` follows the reply to the task `t`.
pub open spec fn path_stepped(t: PathTask, reply: Reply, r: (PathTask, PathProgress)) -> bool {
    &&& r.0.name == t.name
    &&& match t.at {
        PathAt::First { task } => match ensure_step(task, reply) {
            (next, Progress::Call(c)) => r == (
                PathTask { at: PathAt::First { task: next }, ..t },
                PathProgress::Call(c),
            ),
            (_, Progress::End(Err(e))) => r == (
                PathTask { at: PathAt::Over, ..t },
                PathProgress::End(PathError::Directory(e)),
            ),
            (_, Progress::End(Ok(id))) => match t.op {
                PathOp::MoveTo { parent, .. } => {
                    &&& r.1 == PathProgress::Call(Call::RootDir)
                    &&& r.0.op == t.op
                    &&& r.0.at matches PathAt::Second { src_parent, task: second } && src_parent
                        == id && searches(second, parent.0@)
                },
                _ => r.0.at is Over && r.1 == PathProgress::Apply(
                    request_in(t.op, id, t.name)->0,
                ),
            },
        },
        PathAt::Second { src_parent, task } => match ensure_step(task, reply) {
            (next, Progress::Call(c)) => r == (
                PathTask { at: PathAt::Second { src_parent, task: next }, ..t },
                PathProgress::Call(c),
            ),
            (_, Progress::End(Err(e))) => r == (
                PathTask { at: PathAt::Over, ..t },
                PathProgress::End(PathError::Directory(e)),
            ),
            (_, Progress::End(Ok(id))) => r.0.at is Over && match t.op {
                PathOp::MoveTo { name, into_itself, .. } => if into_itself {
                    r.1 == PathProgress::End(PathError::IntoItself)
                } else {
                    r.1 == PathProgress::Apply(
                        DirRequest::MovePath {
                            src_parent,
                            src_name: t.name,
                            dst_parent: id,
                            dst_name: name,
                        },
                    )
                },
                _ => r.1 == PathProgress::End(PathError::InvalidPath),
            },
        },
        PathAt::Over => r.0.at is Over && r.1 == PathProgress::End(PathError::InvalidPath),
    }
}

/// `r` is how a request at `path`, other than a move, starts.
pub open spec fn starts(
    kind: FsMetaClient,
    path: Seq<char>,
    op: PathOp,
    r: (PathTask, PathProgress),
) -> bool {
    let p = path_parts(path);
    &&& r.0.wf()
    &&& if !supported(kind, op) {
        r.1 == PathProgress::End(PathError::Unsupported)
    } else if p.len() == 0 {
        r.1 == PathProgress::End(PathError::InvalidPath)
    } else {
        &&& r.1 == PathProgress::Call(Call::RootDir)
        &&& r.0.op == op
        &&& r.0.name@ == p.last()
        &&& r.0.at matches PathAt::First { task } && searches(task, holder_path(p))
    }
}

/// `r` is how a move from `old_path` to `new_path` starts.
pub open spec fn starts_move(
    kind: FsMetaClient,
    old_path: Seq<char>,
    new_path: Seq<char>,
    r: (PathTask, PathProgress),
) -> bool {
    let p = path_parts(old_path);
    let q = path_parts(new_path);
    &&& r.0.wf()
    &&& if kind != FsMetaClient::InProcess {
        r.1 == PathProgress::End(PathError::Unsupported)
    } else if p.len() == 0 {
        r.1 == PathProgress::End(PathError::InvalidSource)
    } else if q.len() == 0 {
        r.1 == PathProgress::End(PathError::InvalidDestination)
    } else {
        &&& r.1 == PathProgress::Call(Call::RootDir)
        &&& r.0.name@ == p.last()
        &&& r.0.at matches PathAt::First { task } && searches(task, holder_path(p))
        &&& r.0.op matches PathOp::MoveTo { parent, name, into_itself } && parent.0@ == holder_path(
            q,
        ) && name@ == q.last() && into_itself == is_below(new_path, old_path)
    }
}

impl FsMetaClient {
    pub fn new_in_process() -> (r: Self)
        ensures
            r == FsMetaClient::InProcess,
    {
        FsMetaClient::InProcess
    }

    pub fn new_krpc() -> (r: Self)
        ensures
            r == FsMetaClient::KRPC,
    {
        FsMetaClient::KRPC
    }

    /// Starts to open the file at `path` for writing.
    pub fn open_file_writer(
        self,
        path: &NfsPath,
        flag: OpenWriteFlag,
        expected_size: Option<u64>,
    ) -> (r: (PathTask, PathProgress))
        ensures
            starts(self, path.0@, PathOp::OpenFileWriter { flag, expected_size }, r),
    {
        PathTask::start(self, path, PathOp::OpenFileWriter { flag, expected_size })
    }

    /// Starts to put a file object at `path`.
    pub fn set_file(self, path: &NfsPath, obj_id: ObjId) -> (r: (PathTask, PathProgress))
        ensures
            starts(self, path.0@, PathOp::SetFile { obj_id }, r),
    {
        PathTask::start(self, path, PathOp::SetFile { obj_id })
    }

    /// Starts to put a directory object at `path`.
    pub fn set_dir(self, path: &NfsPath, dir_obj_id: ObjId) -> (r: (PathTask, PathProgress))
        ensures
            starts(self, path.0@, PathOp::SetDir { obj_id: dir_obj_id }, r),
    {
        PathTask::start(self, path, PathOp::SetDir { obj_id: dir_obj_id })
    }

    /// Starts to delete what is at `path`.
    pub fn delete(self, path: &NfsPath) -> (r: (PathTask, PathProgress))
        ensures
            starts(self, path.0@, PathOp::Delete, r),
    {
        PathTask::start(self, path, PathOp::Delete)
    }

    /// Starts to put a symbolic link to `target` at `link_path`.
    pub fn symlink(self, link_path: &NfsPath, target: NfsPath) -> (r: (PathTask, PathProgress))
        ensures
            starts(self, link_path.0@, PathOp::Symlink { target: target.0 }, r),
    {
        PathTask::start(self, link_path, PathOp::Symlink { target: target.0 })
    }

    /// Starts to make a directory at `path`.
    pub fn create_dir(self, path: &NfsPath) -> (r: (PathTask, PathProgress))
        ensures
            starts(self, path.0@, PathOp::CreateDir, r),
    {
        PathTask::start(self, path, PathOp::CreateDir)
    }

    /// Starts to move what is at `old_path` to `new_path`.
    pub fn move_path(self, old_path: &NfsPath, new_path: &NfsPath) -> (r: (PathTask, PathProgress))
        ensures
            starts_move(self, old_path.0@, new_path.0@, r),
    {
        PathTask::start_move(self, old_path, new_path)
    }

    /// Whether a writer can be closed.
    pub fn close_file_writer(self) -> (r: Result<(), PathError>)
        ensures
            r == in_process_only(self),
    {
        if self == FsMetaClient::InProcess {
            Ok(())
        } else {
            Err(PathError::Unsupported)
        }
    }

    /// Whether a reader can be asked for.
    pub fn open_file_reader(self) -> (r: Result<(), PathError>)
        ensures
            r == in_process_only(self),
    {
        self.close_file_writer()
    }
}

/// The verdict on a request that does not go over the network.
pub open spec fn in_process_only(client: FsMetaClient) -> Result<(), PathError> {
    if client == FsMetaClient::InProcess {
        Ok(())
    } else {
        Err(PathError::Unsupported)
    }
}

impl PathTask {
    pub open spec fn wf(&self) -> bool {
        match self.at {
            PathAt::First { task } => task.wf(),
            PathAt::Second { task, .. } => task.wf(),
            PathAt::Over => true,
        }
    }

    fn over(op: PathOp, error: PathError) -> (r: (Self, PathProgress))
        ensures
            r.0.wf(),
            r.0.at is Over,
            r.1 == PathProgress::End(error),
    {
        (PathTask { op, name: String::new(), at: PathAt::Over }, PathProgress::End(error))
    }

    /// Starts a request at `path`, other than a move.
    fn start(kind: FsMetaClient, path: &NfsPath, op: PathOp) -> (r: (Self, PathProgress))
        requires
            !(op is MoveTo),
        ensures
            starts(kind, path.0@, op, r),
    {
        let known: bool = matches!(op, PathOp::OpenFileWriter { .. });
        if kind != FsMetaClient::InProcess && !known {
            return Self::over(op, PathError::Unsupported);
        }
        match parent_and_name_for_path(path) {
            None => Self::over(op, PathError::InvalidPath),
            Some((parent, name)) => {
                let (task, _) = EnsureDir::ensure_dir_inode(&parent);
                (PathTask { op, name, at: PathAt::First { task } }, PathProgress::Call(Call::RootDir))
            },
        }
    }

    fn start_move(kind: FsMetaClient, old_path: &NfsPath, new_path: &NfsPath) -> (r: (
        Self,
        PathProgress,
    ))
        ensures
            starts_move(kind, old_path.0@, new_path.0@, r),
    {
        if kind != FsMetaClient::InProcess {
            return Self::over(PathOp::Delete, PathError::Unsupported);
        }
        match plan_move_request(old_path, new_path) {
            Err(MoveRefusal::InvalidDestination) => Self::over(
                PathOp::Delete,
                PathError::InvalidDestination,
            ),
            Err(_) => Self::over(PathOp::Delete, PathError::InvalidSource),
            Ok(m) => {
                let (task, _) = EnsureDir::ensure_dir_inode(&m.src_parent);
                let op = PathOp::MoveTo {
                    parent: m.dst_parent,
                    name: m.dst_name,
                    into_itself: m.into_itself,
                };
                (
                    PathTask { op, name: m.src_name, at: PathAt::First { task } },
                    PathProgress::Call(Call::RootDir),
                )
            },
        }
    }

    /// Goes on after the reply to the last call.
    pub fn step(self, reply: Reply) -> (r: (Self, PathProgress))
        requires
            self.wf(),
        ensures
            r.0.wf(),
            path_stepped(self, reply, r),
    {
        let PathTask { op, name, at } = self;
        match at {
            PathAt::First { task } => {
                let (next, progress): (EnsureDir, Progress) = task.step(reply);
                match progress {
                    Progress::Call(c) => (
                        PathTask { op, name, at: PathAt::First { task: next } },
                        PathProgress::Call(c),
                    ),
                    Progress::End(Err(e)) => (
                        PathTask { op, name, at: PathAt::Over },
                        PathProgress::End(PathError::Directory(e)),
                    ),
                    Progress::End(Ok(id)) => Self::first_found(op, name, id),
                }
            },
            PathAt::Second { src_parent, task } => {
                let (next, progress): (EnsureDir, Progress) = task.step(reply);
                match progress {
                    Progress::Call(c) => (
                        PathTask { op, name, at: PathAt::Second { src_parent, task: next } },
                        PathProgress::Call(c),
                    ),
                    Progress::End(Err(e)) => (
                        PathTask { op, name, at: PathAt::Over },
                        PathProgress::End(PathError::Directory(e)),
                    ),
                    Progress::End(Ok(id)) => Self::second_found(op, name, src_parent, id),
                }
            },
            PathAt::Over => (
                PathTask { op, name, at: PathAt::Over },
                PathProgress::End(PathError::InvalidPath),
            ),
        }
    }

    /// The directory of the path is `id`.
    fn first_found(op: PathOp, name: String, id: u64) -> (r: (Self, PathProgress))
        ensures
            r.0.wf(),
            r.0.name == name,
            match op {
                PathOp::MoveTo { parent, .. } => {
                    &&& r.1 == PathProgress::Call(Call::RootDir)
                    &&& r.0.op == op
                    &&& r.0.at matches PathAt::Second { src_parent, task: second } && src_parent
                        == id && searches(second, parent.0@)
                },
                _ => r.0.at is Over && r.1 == PathProgress::Apply(request_in(op, id, name)->0),
            },
    {
        let kept: String = name.clone();
        let request: DirRequest = match op {
            PathOp::MoveTo { parent, name: dst_name, into_itself } => {
                let (task, _) = EnsureDir::ensure_dir_inode(&parent);
                return (
                    PathTask {
                        op: PathOp::MoveTo { parent, name: dst_name, into_itself },
                        name,
                        at: PathAt::Second { src_parent: id, task },
                    },
                    PathProgress::Call(Call::RootDir),
                );
            },
            PathOp::OpenFileWriter { flag, expected_size } => DirRequest::OpenFileWriter {
                parent: id,
                name,
                flag,
                expected_size,
            },
            PathOp::SetFile { obj_id } => DirRequest::SetFile { parent: id, name, obj_id },
            PathOp::SetDir { obj_id } => DirRequest::SetDir { parent: id, name, obj_id },
            PathOp::Delete => DirRequest::Delete { parent: id, name },
            PathOp::Symlink { target } => DirRequest::Symlink { parent: id, name, target },
            PathOp::CreateDir => DirRequest::CreateDir { parent: id, name },
        };
        (
            PathTask { op: PathOp::Delete, name: kept, at: PathAt::Over },
            PathProgress::Apply(request),
        )
    }

    /// The directory that a move goes to is `id`.
    fn second_found(op: PathOp, name: String, src_parent: u64, id: u64) -> (r: (
        Self,
        PathProgress,
    ))
        ensures
            r.0.wf(),
            r.0.name == name,
            r.0.at is Over,
            match op {
                PathOp::MoveTo { name: dst_name, into_itself, .. } => if into_itself {
                    r.1 == PathProgress::End(PathError::IntoItself)
                } else {
                    r.1 == PathProgress::Apply(
                        DirRequest::MovePath {
                            src_parent,
                            src_name: name,
                            dst_parent: id,
                            dst_name,
                        },
                    )
                },
                _ => r.1 == PathProgress::End(PathError::InvalidPath),
            },
    {
        let kept: String = name.clone();
        let over = PathTask { op: PathOp::Delete, name: kept, at: PathAt::Over };
        match op {
            PathOp::MoveTo { name: dst_name, into_itself, .. } => {
                if into_itself {
                    return (over, PathProgress::End(PathError::IntoItself));
                }
                (
                    over,
                    PathProgress::Apply(
                        DirRequest::MovePath {
                            src_parent,
                            src_name: name,
                            dst_parent: id,
                            dst_name,
                        },
                    ),
                )
            },
            _ => (over, PathProgress::End(PathError::InvalidPath)),
        }
    }
}

/// A move below itself is never asked for, whatever the service replies.
pub proof fn law_no_move_into_itself(t: PathTask, reply: Reply, r: (PathTask, PathProgress))
    requires
        path_stepped(t, reply, r),
        t.op matches PathOp::MoveTo { into_itself, .. } && into_itself,
    ensures
        !(r.1 is Apply),
        r.1 is Call ==> r.0.op == t.op,
{
}

/// A request is made only in a directory that the search has found, and under
/// the name at the end of the path.
pub proof fn law_request_is_about_the_path(t: PathTask, reply: Reply, r: (PathTask, PathProgress))
    requires
        path_stepped(t, reply, r),
        r.1 is Apply,
    ensures
        match t.at {
            PathAt::First { task } => ensure_step(task, reply).1 matches Progress::End(Ok(id))
                && request_in(t.op, id, t.name) == Some(r.1->Apply_0),
            PathAt::Second { src_parent, task } => ensure_step(task, reply).1 matches Progress::End(
                Ok(id),
            ) && r.1->Apply_0 matches DirRequest::MovePath {
                src_parent: s,
                src_name,
                dst_parent,
                ..
            } && s == src_parent && src_name == t.name && dst_parent == id,
            PathAt::Over => false,
        },
{
}

/// How far a request is from being made at most.
pub open spec fn path_rank(t: PathTask) -> int {
    match t.at {
        PathAt::First { task } => ensure_rank(task) + match t.op {
            PathOp::MoveTo { parent, .. } => path_parts(parent.0@).len() * 100 + 95,
            _ => 0,
        },
        PathAt::Second { task, .. } => ensure_rank(task),
        PathAt::Over => 0,
    }
}

/// The search in `t` is under way.
pub open spec fn searching(t: PathTask) -> bool {
    let task = match t.at {
        PathAt::First { task } => task,
        PathAt::Second { task, .. } => task,
        PathAt::Over => arbitrary(),
    };
    &&& !(t.at is Over)
    &&& task.wf()
    &&& !(task.at is Over)
    &&& task.at matches EnsureState::Place { task } ==> task.tries <= ENSURE_DIR_RETRY_LIMIT && !(
    task.at is Over)
}

/// Whatever the service replies, a request at a path is made or given up.
pub proof fn law_path_task_ends(t: PathTask, reply: Reply, r: (PathTask, PathProgress))
    requires
        searching(t),
        path_stepped(t, reply, r),
        r.1 is Call,
    ensures
        searching(r.0),
        0 <= path_rank(r.0) < path_rank(t),
{
    match t.at {
        PathAt::First { task } => {
            law_search_ends(task, reply);
            crate::client::lemma_call_goes_on(task, reply);
        },
        PathAt::Second { task, .. } => {
            law_search_ends(task, reply);
            crate::client::lemma_call_goes_on(task, reply);
        },
        PathAt::Over => {},
    }
    if let PathAt::Second { task: second, .. } = r.0.at {
        assert(view_all(second.comps@).len() == second.comps@.len());
    }
}

} // verus!
