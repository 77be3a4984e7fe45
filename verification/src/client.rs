//! What a client of the metadata service decides between its calls.
//!
//! Each call goes to the service, in process or over the network, and its reply
//! comes back; a task says which call is next or that it has ended.

use vstd::prelude::*;
use crate::paths::{
    is_below, is_descendant_path, join_components, path_parts, slashed, NfsPath,
};
use crate::records::{
    kind_of, DentryRecord, DentryTarget, FsMetaResolvePathItem, FsMetaResolvePathResp, NodeKind,
    NodeRecord, NodeState, ObjId,
};
use crate::table::Dup;
use crate::tables::{fresh_dir_record, new_dir_record, rev_or_zero};
use crate::text::{contains_text, has_piece, joined, view_all};

verus! {

/// How many symbolic links a client has followed for it.
pub const DEFAULT_CLIENT_SYMLINK_COUNT: u32 = 40;

/// How often placing a directory is tried.
pub const ENSURE_DIR_RETRY_LIMIT: u8 = 8;

/// Why a call has failed.
#[derive(Debug, Clone, PartialEq, Eq)]
pub enum Failure {
    /// The service refused it, for this reason.
    Reason(String),
    /// It went wrong on the way there or back.
    Other(String),
}

impl Failure {
    pub open spec fn text(&self) -> Seq<char> {
        match *self {
            Failure::Reason(s) => s@,
            Failure::Other(s) => s@,
        }
    }

    pub fn message(&self) -> (r: String)
        ensures
            r@ == self.text(),
    {
        match self {
            Failure::Reason(s) => s.clone(),
            Failure::Other(s) => s.clone(),
        }
    }
}

/// Why a task has failed.
#[derive(Debug, Clone, PartialEq, Eq)]
pub enum ClientError {
    /// A call failed.
    Service(Failure),
    BadReply,
    ParentDirNotFound,
    ParentNotDir,
    ParentReadOnly,
    InodeNotFound,
    PathNotDir,
    PathNotFound,
    ConflictCreating,
    ConflictMaterializing,
    /// The first components of the path lead to something that is no directory.
    NotDirectory { depth: usize },
    /// They lead into a directory object, not to a directory.
    NotDirectoryInode { depth: usize },
}

impl ClientError {
    /// What the error says; `p` are the components of the path concerned.
    pub open spec fn text(&self, p: Seq<Seq<char>>) -> Seq<char> {
        match *self {
            ClientError::Service(f) => f.text(),
            ClientError::BadReply => "unexpected reply"@,
            ClientError::ParentDirNotFound => "parent directory not found"@,
            ClientError::ParentNotDir => "parent is not a directory"@,
            ClientError::ParentReadOnly => "parent is read-only"@,
            ClientError::InodeNotFound => "inode not found"@,
            ClientError::PathNotDir => "path is not a directory"@,
            ClientError::PathNotFound => "path not found"@,
            ClientError::ConflictCreating => "conflict while creating directory"@,
            ClientError::ConflictMaterializing => "conflict while materializing directory"@,
            ClientError::NotDirectory { depth } => slashed(p.take(depth as int))
                + " is not a directory"@,
            ClientError::NotDirectoryInode { depth } => slashed(p.take(depth as int))
                + " is not a directory inode"@,
        }
    }

    pub fn message(&self, comps: &Vec<String>) -> (r: String)
        requires
            *self matches ClientError::NotDirectory { depth } ==> depth <= comps@.len(),
            *self matches ClientError::NotDirectoryInode { depth } ==> depth <= comps@.len(),
        ensures
            r@ == self.text(view_all(comps@)),
    {
        match self {
            ClientError::Service(f) => f.message(),
            ClientError::BadReply => "unexpected reply".to_owned(),
            ClientError::ParentDirNotFound => "parent directory not found".to_owned(),
            ClientError::ParentNotDir => "parent is not a directory".to_owned(),
            ClientError::ParentReadOnly => "parent is read-only".to_owned(),
            ClientError::InodeNotFound => "inode not found".to_owned(),
            ClientError::PathNotDir => "path is not a directory".to_owned(),
            ClientError::PathNotFound => "path not found".to_owned(),
            ClientError::ConflictCreating => "conflict while creating directory".to_owned(),
            ClientError::ConflictMaterializing =>
                "conflict while materializing directory".to_owned(),
            ClientError::NotDirectory { depth } => joined(
                prefix_path(comps, *depth).as_str(),
                " is not a directory",
            ),
            ClientError::NotDirectoryInode { depth } => joined(
                prefix_path(comps, *depth).as_str(),
                " is not a directory inode",
            ),
        }
    }
}

/// The path made of the first `n` components.
pub fn prefix_path(comps: &Vec<String>, n: usize) -> (r: String)
    requires
        n <= comps@.len(),
    ensures
        r@ == slashed(view_all(comps@).take(n as int)),
{
    let head: Vec<String> = crate::resolve::first_texts(comps, n);
    match join_components(&head) {
        Some(s) => s,
        None => {
            assert(view_all(head@).len() == 0);
            String::new()
        },
    }
}

/// The failure may go away when the attempt is repeated.
pub open spec fn retryable(text: Seq<char>) -> bool {
    has_piece(text, "rev mismatch"@) || has_piece(text, "already exists"@) || has_piece(
        text,
        "conflict"@,
    )
}

/// The failure is a conflict with somebody else: only what the service refused
/// can be one.
pub open spec fn is_conflict(f: Failure) -> bool {
    match f {
        Failure::Reason(s) => retryable(s@),
        Failure::Other(_) => false,
    }
}

/// Whether a failed call is worth another attempt.
pub fn is_retryable_conflict(f: &Failure) -> (r: bool)
    ensures
        r == is_conflict(*f),
{
    match f {
        Failure::Reason(s) => contains_text(s.as_str(), "rev mismatch") || contains_text(
            s.as_str(),
            "already exists",
        ) || contains_text(s.as_str(), "conflict"),
        Failure::Other(_) => false,
    }
}

/// The same for whatever an attempt failed with: what a task says itself counts
/// as a reason.
pub open spec fn may_go_away(error: ClientError) -> bool {
    match error {
        ClientError::Service(f) => is_conflict(f),
        _ => retryable(error.text(Seq::empty())),
    }
}

/// A call to the service.
pub enum Call {
    RootDir,
    GetDentry { parent: u64, name: String, txid: Option<String> },
    GetInode { id: u64, txid: Option<String> },
    /// Resolves the path made of the first `depth` components.
    ResolvePrefix { depth: usize, sym_count: u32 },
    BeginTxn,
    AllocInode { node: NodeRecord, txid: String },
    ReplaceTarget {
        parent: u64,
        name: String,
        expected_old_target: DentryTarget,
        new_target: DentryTarget,
        expected_parent_rev: u64,
        txid: String,
    },
    CreateDentry {
        parent: u64,
        name: String,
        target: DentryTarget,
        expected_parent_rev: u64,
        txid: String,
    },
    Commit { txid: String },
    Rollback { txid: String },
}

/// The reply of the service to a call.
pub enum Reply {
    Id(u64),
    Dentry(Option<DentryRecord>),
    Inode(Option<NodeRecord>),
    Resolved(Option<FsMetaResolvePathResp>),
    Txid(String),
    Done,
    Failed(Failure),
}

pub enum Progress {
    Call(Call),
    End(Result<u64, ClientError>),
}

/// Where the placing of a directory stands: which reply it waits for.
pub enum PlaceState {
    Begin,
    Parent { txid: String },
    Dentry { txid: String, rev: u64 },
    Child { txid: String, id: u64 },
    Alloc { txid: String, rev: u64, old_target: Option<DentryTarget> },
    Link { txid: String, id: u64 },
    Commit { txid: String, id: u64 },
    Rollback { txid: String, error: ClientError },
    Over,
}

/// Finding or making the directory `name` in `parent`, in one transaction.
/// With a base, the directory is laid over that object where there is no entry.
pub struct PlaceDir {
    pub parent: u64,
    pub name: String,
    pub base: Option<ObjId>,
    pub tries: u8,
    pub at: PlaceState,
}

pub open spec fn place_at(t: PlaceDir, at: PlaceState, call: Call) -> (PlaceDir, Progress) {
    (PlaceDir { at, ..t }, Progress::Call(call))
}

pub open spec fn place_end(t: PlaceDir, r: Result<u64, ClientError>) -> (PlaceDir, Progress) {
    (PlaceDir { at: PlaceState::Over, ..t }, Progress::End(r))
}

/// Gives the attempt up: first the transaction is rolled back.
pub open spec fn place_fail(t: PlaceDir, txid: String, error: ClientError) -> (PlaceDir, Progress) {
    place_at(t, PlaceState::Rollback { txid, error }, Call::Rollback { txid })
}

/// Asks for a new directory inode.
pub open spec fn place_alloc(
    t: PlaceDir,
    txid: String,
    rev: u64,
    old_target: Option<DentryTarget>,
    base: Option<ObjId>,
) -> (PlaceDir, Progress) {
    let node = match base {
        Some(o) => fresh_dir_record(NodeState::DirOverlay, Some(o)),
        None => fresh_dir_record(NodeState::DirNormal, None),
    };
    place_at(
        t,
        PlaceState::Alloc { txid, rev, old_target },
        Call::AllocInode { node, txid },
    )
}

/// What follows once it is known what stands under the name.
pub open spec fn place_on(t: PlaceDir, txid: String, rev: u64, there: Option<DentryRecord>) -> (
    PlaceDir,
    Progress,
) {
    match there {
        Some(d) => match d.target {
            DentryTarget::IndexNodeId(id) => place_at(
                t,
                PlaceState::Child { txid, id },
                Call::GetInode { id, txid: Some(txid) },
            ),
            DentryTarget::ObjId(o) => if !o.is_dir() {
                place_fail(t, txid, ClientError::PathNotDir)
            } else {
                place_alloc(t, txid, rev, Some(DentryTarget::ObjId(o)), Some(o))
            },
            DentryTarget::Tombstone => if t.base is Some {
                place_fail(t, txid, ClientError::PathNotFound)
            } else {
                place_alloc(t, txid, rev, Some(DentryTarget::Tombstone), None)
            },
            DentryTarget::SymLink(_) => place_fail(t, txid, ClientError::PathNotDir),
        },
        None => place_alloc(t, txid, rev, None, t.base),
    }
}

/// The next attempt after a conflict, if one is left.
pub open spec fn place_again(t: PlaceDir, error: ClientError) -> (PlaceDir, Progress) {
    if !may_go_away(error) {
        place_end(t, Err(error))
    } else if t.tries <= 1 {
        place_end(
            t,
            Err(
                if t.base is Some {
                    ClientError::ConflictMaterializing
                } else {
                    ClientError::ConflictCreating
                },
            ),
        )
    } else {
        (
            PlaceDir { at: PlaceState::Begin, tries: (t.tries - 1) as u8, ..t },
            Progress::Call(Call::BeginTxn),
        )
    }
}

/// How placing goes on after a reply.
pub open spec fn place_step(t: PlaceDir, reply: Reply) -> (PlaceDir, Progress) {
    match t.at {
        PlaceState::Begin => match reply {
            Reply::Txid(txid) => place_at(
                t,
                PlaceState::Parent { txid },
                Call::GetInode { id: t.parent, txid: Some(txid) },
            ),
            Reply::Failed(m) => place_end(t, Err(ClientError::Service(m))),
            _ => place_end(t, Err(ClientError::BadReply)),
        },
        PlaceState::Parent { txid } => match reply {
            Reply::Inode(Some(node)) => if kind_of(node.state) != NodeKind::Dir {
                place_fail(t, txid, ClientError::ParentNotDir)
            } else if node.read_only {
                place_fail(t, txid, ClientError::ParentReadOnly)
            } else {
                place_at(
                    t,
                    PlaceState::Dentry { txid, rev: rev_or_zero(node.rev) },
                    Call::GetDentry { parent: t.parent, name: t.name, txid: Some(txid) },
                )
            },
            Reply::Inode(None) => place_fail(t, txid, ClientError::ParentDirNotFound),
            Reply::Failed(m) => place_fail(t, txid, ClientError::Service(m)),
            _ => place_fail(t, txid, ClientError::BadReply),
        },
        PlaceState::Dentry { txid, rev } => match reply {
            Reply::Dentry(there) => place_on(t, txid, rev, there),
            Reply::Failed(m) => place_fail(t, txid, ClientError::Service(m)),
            _ => place_fail(t, txid, ClientError::BadReply),
        },
        PlaceState::Child { txid, id } => match reply {
            Reply::Inode(Some(node)) => if kind_of(node.state) != NodeKind::Dir {
                place_fail(t, txid, ClientError::PathNotDir)
            } else {
                place_at(t, PlaceState::Commit { txid, id }, Call::Commit { txid })
            },
            Reply::Inode(None) => place_fail(t, txid, ClientError::InodeNotFound),
            Reply::Failed(m) => place_fail(t, txid, ClientError::Service(m)),
            _ => place_fail(t, txid, ClientError::BadReply),
        },
        PlaceState::Alloc { txid, rev, old_target } => match reply {
            Reply::Id(id) => place_at(
                t,
                PlaceState::Link { txid, id },
                match old_target {
                    Some(old_target) => Call::ReplaceTarget {
                        parent: t.parent,
                        name: t.name,
                        expected_old_target: old_target,
                        new_target: DentryTarget::IndexNodeId(id),
                        expected_parent_rev: rev,
                        txid,
                    },
                    None => Call::CreateDentry {
                        parent: t.parent,
                        name: t.name,
                        target: DentryTarget::IndexNodeId(id),
                        expected_parent_rev: rev,
                        txid,
                    },
                },
            ),
            Reply::Failed(m) => place_fail(t, txid, ClientError::Service(m)),
            _ => place_fail(t, txid, ClientError::BadReply),
        },
        PlaceState::Link { txid, id } => match reply {
            Reply::Done => place_at(t, PlaceState::Commit { txid, id }, Call::Commit { txid }),
            Reply::Failed(m) => place_fail(t, txid, ClientError::Service(m)),
            _ => place_fail(t, txid, ClientError::BadReply),
        },
        PlaceState::Commit { txid, id } => match reply {
            Reply::Done => place_end(t, Ok(id)),
            Reply::Failed(m) => place_end(t, Err(ClientError::Service(m))),
            _ => place_end(t, Err(ClientError::BadReply)),
        },
        PlaceState::Rollback { txid, error } => place_again(t, error),
        PlaceState::Over => place_end(t, Err(ClientError::BadReply)),
    }
}

impl PlaceDir {
    /// A directory to be found or made.
    pub fn create_dir_under_parent(parent: u64, name: String) -> (r: (Self, Progress))
        ensures
            r.0 == (PlaceDir {
                parent,
                name,
                base: None,
                tries: ENSURE_DIR_RETRY_LIMIT,
                at: PlaceState::Begin,
            }),
            r.1 == Progress::Call(Call::BeginTxn),
    {
        (
            PlaceDir {
                parent,
                name,
                base: None,
                tries: ENSURE_DIR_RETRY_LIMIT,
                at: PlaceState::Begin,
            },
            Progress::Call(Call::BeginTxn),
        )
    }

    /// A directory object that is to get an inode laid over it.
    pub fn materialize_dir_from_obj(parent: u64, name: String, base_obj_id: ObjId) -> (r: (
        Self,
        Progress,
    ))
        ensures
            r.0 == (PlaceDir {
                parent,
                name,
                base: Some(base_obj_id),
                tries: ENSURE_DIR_RETRY_LIMIT,
                at: if base_obj_id.is_dir() {
                    PlaceState::Begin
                } else {
                    PlaceState::Over
                },
            }),
            r.1 == (if base_obj_id.is_dir() {
                Progress::Call(Call::BeginTxn)
            } else {
                Progress::End(Err(ClientError::PathNotDir))
            }),
    {
        let is_dir: bool = base_obj_id.is_dir_object();
        let t = PlaceDir {
            parent,
            name,
            base: Some(base_obj_id),
            tries: ENSURE_DIR_RETRY_LIMIT,
            at: if is_dir {
                PlaceState::Begin
            } else {
                PlaceState::Over
            },
        };
        if is_dir {
            (t, Progress::Call(Call::BeginTxn))
        } else {
            (t, Progress::End(Err(ClientError::PathNotDir)))
        }
    }

    fn go(self, at: PlaceState, call: Call) -> (r: (Self, Progress))
        ensures
            r == place_at(self, at, call),
    {
        (PlaceDir { at, ..self }, Progress::Call(call))
    }

    fn end(self, result: Result<u64, ClientError>) -> (r: (Self, Progress))
        ensures
            r == place_end(self, result),
    {
        (PlaceDir { at: PlaceState::Over, ..self }, Progress::End(result))
    }

    fn fail(self, txid: String, error: ClientError) -> (r: (Self, Progress))
        ensures
            r == place_fail(self, txid, error),
    {
        let call = Call::Rollback { txid: txid.clone() };
        self.go(PlaceState::Rollback { txid, error }, call)
    }

    fn ask_inode(
        self,
        txid: String,
        rev: u64,
        old_target: Option<DentryTarget>,
        base: Option<ObjId>,
    ) -> (r: (Self, Progress))
        ensures
            r == place_alloc(self, txid, rev, old_target, base),
    {
        let node: NodeRecord = match base {
            Some(o) => new_dir_record(NodeState::DirOverlay, Some(o)),
            None => new_dir_record(NodeState::DirNormal, None),
        };
        let call = Call::AllocInode { node, txid: txid.clone() };
        self.go(PlaceState::Alloc { txid, rev, old_target }, call)
    }

    fn on(self, txid: String, rev: u64, there: Option<DentryRecord>) -> (r: (Self, Progress))
        ensures
            r == place_on(self, txid, rev, there),
    {
        match there {
            Some(d) => match d.target {
                DentryTarget::IndexNodeId(id) => {
                    let call = Call::GetInode { id, txid: Some(txid.clone()) };
                    self.go(PlaceState::Child { txid, id }, call)
                },
                DentryTarget::ObjId(o) => {
                    if !o.is_dir_object() {
                        self.fail(txid, ClientError::PathNotDir)
                    } else {
                        self.ask_inode(txid, rev, Some(DentryTarget::ObjId(o.dup())), Some(o))
                    }
                },
                DentryTarget::Tombstone => {
                    if self.base.is_some() {
                        self.fail(txid, ClientError::PathNotFound)
                    } else {
                        self.ask_inode(txid, rev, Some(DentryTarget::Tombstone), None)
                    }
                },
                DentryTarget::SymLink(_) => self.fail(txid, ClientError::PathNotDir),
            },
            None => {
                let base: Option<ObjId> = crate::records::dup_obj(&self.base);
                self.ask_inode(txid, rev, None, base)
            },
        }
    }

    fn again(self, error: ClientError) -> (r: (Self, Progress))
        requires
            !(error is NotDirectory),
            !(error is NotDirectoryInode),
        ensures
            r == place_again(self, error),
    {
        let again: bool = match &error {
            ClientError::Service(f) => is_retryable_conflict(f),
            own => {
                let none: Vec<String> = Vec::new();
                assert(view_all(none@) =~= Seq::empty());
                is_retryable_conflict(&Failure::Reason(own.message(&none)))
            },
        };
        if !again {
            return self.end(Err(error));
        }
        if self.tries <= 1 {
            let e: ClientError = if self.base.is_some() {
                ClientError::ConflictMaterializing
            } else {
                ClientError::ConflictCreating
            };
            return self.end(Err(e));
        }
        let tries: u8 = self.tries - 1;
        (PlaceDir { at: PlaceState::Begin, tries, ..self }, Progress::Call(Call::BeginTxn))
    }

    /// Errors met inside an attempt never speak of a path.
    pub open spec fn wf(&self) -> bool {
        self.at matches PlaceState::Rollback { txid, error } ==> !(error is NotDirectory) && !(
        error is NotDirectoryInode)
    }

    /// Goes on after a reply.
    pub fn step(self, reply: Reply) -> (r: (Self, Progress))
        requires
            self.wf(),
        ensures
            r == place_step(self, reply),
            r.0.wf(),
            r.1 matches Progress::End(Err(e)) ==> !(e is NotDirectory) && !(e is NotDirectoryInode),
    {
        let PlaceDir { parent, name, base, tries, at } = self;
        match at {
            PlaceState::Begin => {
                let t = PlaceDir { parent, name, base, tries, at: PlaceState::Begin };
                match reply {
                    Reply::Txid(txid) => {
                        let call = Call::GetInode { id: parent, txid: Some(txid.clone()) };
                        t.go(PlaceState::Parent { txid }, call)
                    },
                    Reply::Failed(m) => t.end(Err(ClientError::Service(m))),
                    _ => t.end(Err(ClientError::BadReply)),
                }
            },
            PlaceState::Parent { txid } => {
                let n: String = name.clone();
                let t = PlaceDir { parent, name, base, tries, at: PlaceState::Over };
                match reply {
                    Reply::Inode(Some(node)) => {
                        if !matches!(node.get_node_kind(), NodeKind::Dir) {
                            return t.fail(txid, ClientError::ParentNotDir);
                        }
                        if node.read_only {
                            return t.fail(txid, ClientError::ParentReadOnly);
                        }
                        let rev: u64 = match node.rev {
                            Some(x) => x,
                            None => 0,
                        };
                        let call = Call::GetDentry { parent, name: n, txid: Some(txid.clone()) };
                        t.go(PlaceState::Dentry { txid, rev }, call)
                    },
                    Reply::Inode(None) => t.fail(txid, ClientError::ParentDirNotFound),
                    Reply::Failed(m) => t.fail(txid, ClientError::Service(m)),
                    _ => t.fail(txid, ClientError::BadReply),
                }
            },
            PlaceState::Dentry { txid, rev } => {
                let t = PlaceDir { parent, name, base, tries, at: PlaceState::Over };
                match reply {
                    Reply::Dentry(there) => t.on(txid, rev, there),
                    Reply::Failed(m) => t.fail(txid, ClientError::Service(m)),
                    _ => t.fail(txid, ClientError::BadReply),
                }
            },
            PlaceState::Child { txid, id } => {
                let t = PlaceDir { parent, name, base, tries, at: PlaceState::Over };
                match reply {
                    Reply::Inode(Some(node)) => {
                        if !matches!(node.get_node_kind(), NodeKind::Dir) {
                            t.fail(txid, ClientError::PathNotDir)
                        } else {
                            let call = Call::Commit { txid: txid.clone() };
                            t.go(PlaceState::Commit { txid, id }, call)
                        }
                    },
                    Reply::Inode(None) => t.fail(txid, ClientError::InodeNotFound),
                    Reply::Failed(m) => t.fail(txid, ClientError::Service(m)),
                    _ => t.fail(txid, ClientError::BadReply),
                }
            },
            PlaceState::Alloc { txid, rev, old_target } => {
                let n: String = name.clone();
                let t = PlaceDir { parent, name, base, tries, at: PlaceState::Over };
                match reply {
                    Reply::Id(id) => {
                        let call = match old_target {
                            Some(old_target) => Call::ReplaceTarget {
                                parent,
                                name: n,
                                expected_old_target: old_target,
                                new_target: DentryTarget::IndexNodeId(id),
                                expected_parent_rev: rev,
                                txid: txid.clone(),
                            },
                            None => Call::CreateDentry {
                                parent,
                                name: n,
                                target: DentryTarget::IndexNodeId(id),
                                expected_parent_rev: rev,
                                txid: txid.clone(),
                            },
                        };
                        t.go(PlaceState::Link { txid, id }, call)
                    },
                    Reply::Failed(m) => t.fail(txid, ClientError::Service(m)),
                    _ => t.fail(txid, ClientError::BadReply),
                }
            },
            PlaceState::Link { txid, id } => {
                let t = PlaceDir { parent, name, base, tries, at: PlaceState::Over };
                match reply {
                    Reply::Done => {
                        let call = Call::Commit { txid: txid.clone() };
                        t.go(PlaceState::Commit { txid, id }, call)
                    },
                    Reply::Failed(m) => t.fail(txid, ClientError::Service(m)),
                    _ => t.fail(txid, ClientError::BadReply),
                }
            },
            PlaceState::Commit { txid: _, id } => {
                let t = PlaceDir { parent, name, base, tries, at: PlaceState::Over };
                match reply {
                    Reply::Done => t.end(Ok(id)),
                    Reply::Failed(m) => t.end(Err(ClientError::Service(m))),
                    _ => t.end(Err(ClientError::BadReply)),
                }
            },
            PlaceState::Rollback { txid: _, error } => {
                let t = PlaceDir { parent, name, base, tries, at: PlaceState::Over };
                t.again(error)
            },
            PlaceState::Over => {
                let t = PlaceDir { parent, name, base, tries, at: PlaceState::Over };
                t.end(Err(ClientError::BadReply))
            },
        }
    }
}

/// Where looking for a directory along a path stands.
pub enum EnsureState {
    Root,
    Dentry,
    Inode { id: u64 },
    Resolve,
    Place { task: PlaceDir },
    Over,
}

/// Finding or making the directory at a path, component by component.
pub struct EnsureDir {
    pub comps: Vec<String>,
    pub i: usize,
    pub cur: u64,
    pub at: EnsureState,
}

pub open spec fn ensure_end(t: EnsureDir, r: Result<u64, ClientError>) -> (EnsureDir, Progress) {
    (EnsureDir { at: EnsureState::Over, ..t }, Progress::End(r))
}

/// The directory for component `i` (or the root) is `cur`: what is next?
pub open spec fn ensure_from(t: EnsureDir, i: usize, cur: u64) -> (EnsureDir, Progress) {
    if i >= t.comps@.len() {
        ensure_end(EnsureDir { i, cur, ..t }, Ok(cur))
    } else {
        (
            EnsureDir { i, cur, at: EnsureState::Dentry, ..t },
            Progress::Call(Call::GetDentry { parent: cur, name: t.comps@[i as int], txid: None }),
        )
    }
}

pub open spec fn ensure_next(t: EnsureDir, id: u64) -> (EnsureDir, Progress) {
    ensure_from(t, (t.i + 1) as usize, id)
}

/// The component reached is no directory.
pub open spec fn ensure_not_dir(t: EnsureDir) -> (EnsureDir, Progress) {
    ensure_end(t, Err(ClientError::NotDirectory { depth: (t.i + 1) as usize }))
}

/// A directory has to be made for the component, or laid over an object.
pub open spec fn ensure_place(t: EnsureDir, base: Option<ObjId>) -> (EnsureDir, Progress) {
    (
        EnsureDir {
            at: EnsureState::Place {
                task: PlaceDir {
                    parent: t.cur,
                    name: t.comps@[t.i as int],
                    base,
                    tries: ENSURE_DIR_RETRY_LIMIT,
                    at: PlaceState::Begin,
                },
            },
            ..t
        },
        Progress::Call(Call::BeginTxn),
    )
}

/// How the search goes on after a reply.
pub open spec fn ensure_step(t: EnsureDir, reply: Reply) -> (EnsureDir, Progress) {
    match t.at {
        EnsureState::Root => match reply {
            Reply::Id(id) => ensure_from(t, 0, id),
            Reply::Failed(m) => ensure_end(t, Err(ClientError::Service(m))),
            _ => ensure_end(t, Err(ClientError::BadReply)),
        },
        EnsureState::Dentry => match reply {
            Reply::Dentry(Some(d)) => match d.target {
                DentryTarget::IndexNodeId(id) => (
                    EnsureDir { at: EnsureState::Inode { id }, ..t },
                    Progress::Call(Call::GetInode { id, txid: None }),
                ),
                DentryTarget::ObjId(o) => if o.is_dir() {
                    ensure_place(t, Some(o))
                } else {
                    ensure_not_dir(t)
                },
                DentryTarget::Tombstone => ensure_place(t, None),
                DentryTarget::SymLink(_) => ensure_not_dir(t),
            },
            Reply::Dentry(None) => (
                EnsureDir { at: EnsureState::Resolve, ..t },
                Progress::Call(
                    Call::ResolvePrefix {
                        depth: (t.i + 1) as usize,
                        sym_count: DEFAULT_CLIENT_SYMLINK_COUNT,
                    },
                ),
            ),
            Reply::Failed(m) => ensure_end(t, Err(ClientError::Service(m))),
            _ => ensure_end(t, Err(ClientError::BadReply)),
        },
        EnsureState::Inode { id } => match reply {
            Reply::Inode(Some(node)) => if kind_of(node.state) != NodeKind::Dir {
                ensure_not_dir(t)
            } else {
                ensure_next(t, id)
            },
            Reply::Inode(None) => ensure_end(t, Err(ClientError::InodeNotFound)),
            Reply::Failed(m) => ensure_end(t, Err(ClientError::Service(m))),
            _ => ensure_end(t, Err(ClientError::BadReply)),
        },
        EnsureState::Resolve => match reply {
            Reply::Resolved(Some(resp)) => match resp.item {
                FsMetaResolvePathItem::Inode { inode_id, inode } => if kind_of(inode.state)
                    != NodeKind::Dir {
                    ensure_not_dir(t)
                } else {
                    ensure_next(t, inode_id)
                },
                FsMetaResolvePathItem::ObjId(o) => if !o.is_dir() {
                    ensure_not_dir(t)
                } else if resp.inner_path is Some {
                    ensure_end(
                        t,
                        Err(ClientError::NotDirectoryInode { depth: (t.i + 1) as usize }),
                    )
                } else {
                    ensure_place(t, Some(o))
                },
                FsMetaResolvePathItem::SymLink(_) => ensure_not_dir(t),
            },
            Reply::Resolved(None) => ensure_place(t, None),
            Reply::Failed(m) => ensure_end(t, Err(ClientError::Service(m))),
            _ => ensure_end(t, Err(ClientError::BadReply)),
        },
        EnsureState::Place { task } => {
            let (next, progress) = place_step(task, reply);
            match progress {
                Progress::Call(call) => (
                    EnsureDir { at: EnsureState::Place { task: next }, ..t },
                    Progress::Call(call),
                ),
                Progress::End(Ok(id)) => ensure_next(t, id),
                Progress::End(Err(e)) => ensure_end(t, Err(e)),
            }
        },
        EnsureState::Over => ensure_end(t, Err(ClientError::BadReply)),
    }
}

impl EnsureDir {
    /// Between its first call and its end the task stands at a component.
    pub open spec fn wf(&self) -> bool {
        match self.at {
            EnsureState::Root => true,
            EnsureState::Over => true,
            EnsureState::Place { task } => task.wf() && self.i < self.comps@.len(),
            _ => self.i < self.comps@.len(),
        }
    }

    /// Starts with the root directory.
    pub fn ensure_dir_inode(path: &NfsPath) -> (r: (Self, Progress))
        ensures
            r.0.wf(),
            view_all(r.0.comps@) == path_parts(path.0@),
            r.0.i == 0,
            r.0.at is Root,
            r.1 == Progress::Call(Call::RootDir),
    {
        (
            EnsureDir { comps: path.components(), i: 0, cur: 0, at: EnsureState::Root },
            Progress::Call(Call::RootDir),
        )
    }

    fn end(self, result: Result<u64, ClientError>) -> (r: (Self, Progress))
        ensures
            r == ensure_end(self, result),
    {
        (EnsureDir { at: EnsureState::Over, ..self }, Progress::End(result))
    }

    fn from(self, i: usize, cur: u64) -> (r: (Self, Progress))
        ensures
            r == ensure_from(self, i, cur),
            r.0.wf(),
    {
        if i >= self.comps.len() {
            return (
                EnsureDir { comps: self.comps, i, cur, at: EnsureState::Over },
                Progress::End(Ok(cur)),
            );
        }
        let name: String = self.comps[i].clone();
        (
            EnsureDir { comps: self.comps, i, cur, at: EnsureState::Dentry },
            Progress::Call(Call::GetDentry { parent: cur, name, txid: None }),
        )
    }

    fn next(self, id: u64) -> (r: (Self, Progress))
        requires
            self.i < self.comps@.len(),
        ensures
            r == ensure_next(self, id),
            r.0.wf(),
    {
        let n: usize = self.comps.len();
        let i: usize = self.i + 1;
        self.from(i, id)
    }

    fn not_dir(self) -> (r: (Self, Progress))
        requires
            self.i < self.comps@.len(),
        ensures
            r == ensure_not_dir(self),
    {
        let n: usize = self.comps.len();
        let depth: usize = self.i + 1;
        self.end(Err(ClientError::NotDirectory { depth }))
    }

    fn place(self, base: Option<ObjId>) -> (r: (Self, Progress))
        requires
            self.i < self.comps@.len(),
        ensures
            r == ensure_place(self, base),
            r.0.wf(),
    {
        let name: String = self.comps[self.i].clone();
        let task = PlaceDir {
            parent: self.cur,
            name,
            base,
            tries: ENSURE_DIR_RETRY_LIMIT,
            at: PlaceState::Begin,
        };
        (
            EnsureDir { at: EnsureState::Place { task }, ..self },
            Progress::Call(Call::BeginTxn),
        )
    }

    /// Goes on after a reply.
    pub fn step(self, reply: Reply) -> (r: (Self, Progress))
        requires
            self.wf(),
        ensures
            r == ensure_step(self, reply),
            r.0.wf(),
            r.0.comps@ == self.comps@,
            r.1 matches Progress::End(Err(ClientError::NotDirectory { depth })) ==> depth
                <= self.comps@.len(),
            r.1 matches Progress::End(Err(ClientError::NotDirectoryInode { depth })) ==> depth
                <= self.comps@.len(),
    {
        let EnsureDir { comps, i, cur, at } = self;
        let n: usize = comps.len();
        match at {
            EnsureState::Root => {
                let t = EnsureDir { comps, i, cur, at: EnsureState::Over };
                match reply {
                    Reply::Id(id) => t.from(0, id),
                    Reply::Failed(m) => t.end(Err(ClientError::Service(m))),
                    _ => t.end(Err(ClientError::BadReply)),
                }
            },
            EnsureState::Dentry => {
                let t = EnsureDir { comps, i, cur, at: EnsureState::Over };
                match reply {
                    Reply::Dentry(Some(d)) => match d.target {
                        DentryTarget::IndexNodeId(id) => (
                            EnsureDir { at: EnsureState::Inode { id }, ..t },
                            Progress::Call(Call::GetInode { id, txid: None }),
                        ),
                        DentryTarget::ObjId(o) => {
                            if o.is_dir_object() {
                                t.place(Some(o))
                            } else {
                                t.not_dir()
                            }
                        },
                        DentryTarget::Tombstone => t.place(None),
                        DentryTarget::SymLink(_) => t.not_dir(),
                    },
                    Reply::Dentry(None) => (
                        EnsureDir { at: EnsureState::Resolve, ..t },
                        Progress::Call(
                            Call::ResolvePrefix {
                                depth: i + 1,
                                sym_count: DEFAULT_CLIENT_SYMLINK_COUNT,
                            },
                        ),
                    ),
                    Reply::Failed(m) => t.end(Err(ClientError::Service(m))),
                    _ => t.end(Err(ClientError::BadReply)),
                }
            },
            EnsureState::Inode { id } => {
                let t = EnsureDir { comps, i, cur, at: EnsureState::Over };
                match reply {
                    Reply::Inode(Some(node)) => {
                        if !matches!(node.get_node_kind(), NodeKind::Dir) {
                            t.not_dir()
                        } else {
                            t.next(id)
                        }
                    },
                    Reply::Inode(None) => t.end(Err(ClientError::InodeNotFound)),
                    Reply::Failed(m) => t.end(Err(ClientError::Service(m))),
                    _ => t.end(Err(ClientError::BadReply)),
                }
            },
            EnsureState::Resolve => {
                let t = EnsureDir { comps, i, cur, at: EnsureState::Over };
                match reply {
                    Reply::Resolved(Some(resp)) => match resp.item {
                        FsMetaResolvePathItem::Inode { inode_id, inode } => {
                            if !matches!(inode.get_node_kind(), NodeKind::Dir) {
                                t.not_dir()
                            } else {
                                t.next(inode_id)
                            }
                        },
                        FsMetaResolvePathItem::ObjId(o) => {
                            if !o.is_dir_object() {
                                t.not_dir()
                            } else if resp.inner_path.is_some() {
                                t.end(Err(ClientError::NotDirectoryInode { depth: i + 1 }))
                            } else {
                                t.place(Some(o))
                            }
                        },
                        FsMetaResolvePathItem::SymLink(_) => t.not_dir(),
                    },
                    Reply::Resolved(None) => t.place(None),
                    Reply::Failed(m) => t.end(Err(ClientError::Service(m))),
                    _ => t.end(Err(ClientError::BadReply)),
                }
            },
            EnsureState::Place { task } => {
                let t = EnsureDir { comps, i, cur, at: EnsureState::Over };
                let (next, progress): (PlaceDir, Progress) = task.step(reply);
                match progress {
                    Progress::Call(call) => (
                        EnsureDir { at: EnsureState::Place { task: next }, ..t },
                        Progress::Call(call),
                    ),
                    Progress::End(Ok(id)) => t.next(id),
                    Progress::End(Err(e)) => t.end(Err(e)),
                }
            },
            EnsureState::Over => {
                let t = EnsureDir { comps, i, cur, at: EnsureState::Over };
                t.end(Err(ClientError::BadReply))
            },
        }
    }
}

/// The directory and the name in it that a request on `path` concerns; the
/// directory has then to be found or made.
pub fn parent_and_name_for_path(path: &NfsPath) -> (r: Option<(NfsPath, String)>)
    ensures
        match r {
            None => path_parts(path.0@).len() == 0,
            Some((parent, name)) => {
                let p = path_parts(path.0@);
                &&& p.len() > 0
                &&& name@ == p.last()
                &&& parent.0@ == crate::finalize::holder_path(p)
            },
        },
{
    path.split_parent_name()
}

/// Why a move cannot be asked for.
#[derive(Debug, Clone, Copy, PartialEq, Eq)]
pub enum MoveRefusal {
    InvalidSource,
    InvalidDestination,
    /// The new place lies below the old one; this is found once both
    /// directories have been found or made.
    IntoItself,
}

/// A move between the directories at two paths.
pub struct MoveRequest {
    pub src_parent: NfsPath,
    pub src_name: String,
    pub dst_parent: NfsPath,
    pub dst_name: String,
    pub into_itself: bool,
}

/// Takes both paths of a move apart.
pub fn plan_move_request(old_path: &NfsPath, new_path: &NfsPath) -> (r: Result<
    MoveRequest,
    MoveRefusal,
>)
    ensures
        ({
            let p = path_parts(old_path.0@);
            let q = path_parts(new_path.0@);
            match r {
                Err(e) => if p.len() == 0 {
                    e == MoveRefusal::InvalidSource
                } else {
                    q.len() == 0 && e == MoveRefusal::InvalidDestination
                },
                Ok(m) => {
                    &&& p.len() > 0
                    &&& q.len() > 0
                    &&& m.src_name@ == p.last()
                    &&& m.dst_name@ == q.last()
                    &&& m.src_parent.0@ == crate::finalize::holder_path(p)
                    &&& m.dst_parent.0@ == crate::finalize::holder_path(q)
                    &&& m.into_itself == is_below(new_path.0@, old_path.0@)
                },
            }
        }),
{
    let (src_parent, src_name): (NfsPath, String) = match old_path.split_parent_name() {
        Some(x) => x,
        None => {
            return Err(MoveRefusal::InvalidSource);
        },
    };
    let (dst_parent, dst_name): (NfsPath, String) = match new_path.split_parent_name() {
        Some(x) => x,
        None => {
            return Err(MoveRefusal::InvalidDestination);
        },
    };
    let into_itself: bool = is_descendant_path(new_path, old_path);
    Ok(MoveRequest { src_parent, src_name, dst_parent, dst_name, into_itself })
}

/// The transaction that a placing has open while it waits.
pub open spec fn open_txid(t: PlaceDir) -> Option<String> {
    match t.at {
        PlaceState::Begin => None,
        PlaceState::Over => None,
        PlaceState::Parent { txid } => Some(txid),
        PlaceState::Dentry { txid, .. } => Some(txid),
        PlaceState::Child { txid, .. } => Some(txid),
        PlaceState::Alloc { txid, .. } => Some(txid),
        PlaceState::Link { txid, .. } => Some(txid),
        PlaceState::Commit { txid, .. } => Some(txid),
        PlaceState::Rollback { txid, .. } => Some(txid),
    }
}

/// The transaction that a call belongs to.
pub open spec fn call_txid(c: Call) -> Option<String> {
    match c {
        Call::GetDentry { txid, .. } => txid,
        Call::GetInode { txid, .. } => txid,
        Call::AllocInode { txid, .. } => Some(txid),
        Call::ReplaceTarget { txid, .. } => Some(txid),
        Call::CreateDentry { txid, .. } => Some(txid),
        Call::Commit { txid } => Some(txid),
        Call::Rollback { txid } => Some(txid),
        _ => None,
    }
}

/// Every call of an attempt belongs to the transaction of that attempt, and
/// changes only what it has read in it: the entry under the name, at the
/// revision of the directory that was read.
pub proof fn law_attempt_stays_in_its_txn(t: PlaceDir, reply: Reply)
    ensures
        ({
            let (n, p) = place_step(t, reply);
            &&& p matches Progress::Call(c) ==> call_txid(c) == open_txid(n)
            &&& open_txid(t) is Some && open_txid(n) is Some ==> open_txid(n) == open_txid(t)
            &&& n.parent == t.parent && n.name == t.name && n.base == t.base
        }),
{
}

/// A transaction that was begun is never left open: the task ends only after
/// it has asked for a commit or a rollback, and succeeds only when the commit
/// was done.
pub proof fn law_no_txn_left_open(t: PlaceDir, reply: Reply)
    ensures
        ({
            let (n, p) = place_step(t, reply);
            &&& p is End ==> t.at is Begin || t.at is Commit || t.at is Rollback || t.at is Over
            &&& p matches Progress::End(Ok(id)) ==> t.at matches PlaceState::Commit { txid, id: x }
                && x == id && reply is Done
            &&& open_txid(t) is Some && open_txid(n) is None ==> t.at is Commit || t.at is Rollback
        }),
{
}

/// How far a placing is from its end at most.
pub open spec fn place_rank(t: PlaceDir) -> nat {
    t.tries as nat * 8 + match t.at {
        PlaceState::Begin => 7nat,
        PlaceState::Parent { .. } => 6,
        PlaceState::Dentry { .. } => 5,
        PlaceState::Child { .. } => 4,
        PlaceState::Alloc { .. } => 4,
        PlaceState::Link { .. } => 3,
        PlaceState::Commit { .. } => 2,
        PlaceState::Rollback { .. } => 1,
        PlaceState::Over => 0,
    }
}

/// Whatever the service replies, placing comes to an end: each reply takes it
/// closer, and no more than eight transactions are begun.
pub proof fn law_placing_ends(t: PlaceDir, reply: Reply)
    requires
        !(t.at is Over),
    ensures
        place_rank(place_step(t, reply).0) < place_rank(t),
        place_step(t, reply).1 == Progress::Call(Call::BeginTxn) ==> place_step(t, reply).0.tries
            < t.tries,
{
}

/// How far a search is from its end at most.
pub open spec fn ensure_rank(t: EnsureDir) -> int {
    let left = (t.comps@.len() - t.i) * 100;
    match t.at {
        EnsureState::Root => (t.comps@.len() * 100 + 95) as int,
        EnsureState::Dentry => left + 90,
        EnsureState::Resolve => left + 80,
        EnsureState::Place { task } => left + 1 + place_rank(task),
        EnsureState::Inode { .. } => left + 1,
        EnsureState::Over => 0,
    }
}

/// A search that has a call to make is not over.
pub proof fn lemma_call_goes_on(t: EnsureDir, reply: Reply)
    requires
        t.wf(),
    ensures
        ensure_step(t, reply).1 is Call ==> !(ensure_step(t, reply).0.at is Over),
        ensure_step(t, reply).1 is Call ==> ensure_step(t, reply).0.wf(),
{
    assert(t.comps.len() == t.comps@.len());
}

/// Whatever the service replies, the search along a path comes to an end.
pub proof fn law_search_ends(t: EnsureDir, reply: Reply)
    requires
        t.wf(),
        !(t.at is Over),
        t.at matches EnsureState::Place { task } ==> task.tries <= ENSURE_DIR_RETRY_LIMIT && !(
        task.at is Over),
    ensures
        0 <= ensure_rank(ensure_step(t, reply).0) < ensure_rank(t),
        ensure_step(t, reply).0.at matches EnsureState::Place { task } ==> task.tries
            <= ENSURE_DIR_RETRY_LIMIT && !(task.at is Over),
{
    assert(t.comps.len() == t.comps@.len());
    if let EnsureState::Place { task } = t.at {
        law_placing_ends(task, reply);
        law_no_txn_left_open(task, reply);
    }
}

} // verus!
