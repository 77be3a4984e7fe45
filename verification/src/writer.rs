//! Opening a file for writing, closing it, and finding its content for reading.

use vstd::prelude::*;
use crate::errors::MetaError;
use crate::leases::{acquire_after, held_by, lease_runs, release_after, seq_or_zero};
use crate::ops::{alloc_under_after, lift, refuse, writable_dir};
use crate::outside::{base_child, BaseChildLookup, BaseStore, BaseStoreView, Question, Stop};
use crate::records::{
    cols_state, dup_obj, kind_of, DentryRecord, DentryTarget, FileCoolingState, FileWorkingState,
    FsMetaResolvePathItem, FsMetaResolvePathResp, NodeKind, NodeRecord, NodeState, ObjId,
    OpenFileReaderResp, OpenWriteFlag, SessionId,
};
use crate::table::Dup;
use crate::tables::{record_row, rev_or_zero, update_inode_state_after, MetaTables, TablesView};
use crate::text::{decimal, decimal_text, joined, same_text};

verus! {

/// How long a writer holds its file unless it renews the lease.
pub const WRITE_LEASE_TTL_SECS: u64 = 300;

/// What the service needs around it to write files.
pub struct WriterSetup {
    pub buffer_configured: bool,
    pub instance: Option<String>,
}

/// What the buffer service said of the buffer with a handle.
#[derive(Debug, PartialEq, Eq)]
pub struct HandleAnswer {
    pub handle: String,
    pub said: Result<(), String>,
}

/// The buffer that was made for an inode under a lease: its handle, or why there
/// is none.
#[derive(Debug, PartialEq, Eq)]
pub struct AllocAnswer {
    pub file_id: u64,
    pub session: SessionId,
    pub lease_seq: u64,
    pub made: Result<String, String>,
}

/// The answers of the buffer service, as far as they are known.  Each counts
/// only for the question that it answers.
pub struct BufferAnswers {
    /// That the buffer asked for is there, or why it is not.
    pub found: Option<HandleAnswer>,
    /// The new buffer.
    pub allocated: Option<AllocAnswer>,
    /// That the buffer was closed, or why it was not.
    pub closed: Option<HandleAnswer>,
}

/// What was said of the buffer with this very handle, if anything.
pub open spec fn said_of(a: Option<HandleAnswer>, handle: String) -> Option<Result<(), String>> {
    match a {
        Some(x) => if x.handle@ == handle@ {
            Some(x.said)
        } else {
            None
        },
        None => None,
    }
}

fn what_was_said(a: &Option<HandleAnswer>, handle: &String) -> (r: Option<Result<(), String>>)
    ensures
        r == said_of(*a, *handle),
{
    match a {
        Some(x) => if same_text(x.handle.as_str(), handle.as_str()) {
            match &x.said {
                Ok(unit) => Some(Ok(*unit)),
                Err(cause) => Some(Err(cause.clone())),
            }
        } else {
            None
        },
        None => None,
    }
}

/// The buffer made for this very inode and lease, if one was asked for.
pub open spec fn made_for(
    a: Option<AllocAnswer>,
    file_id: u64,
    session: SessionId,
    lease_seq: u64,
) -> Option<Result<String, String>> {
    match a {
        Some(x) => if x.file_id == file_id && x.session.0@ == session.0@ && x.lease_seq
            == lease_seq {
            Some(x.made)
        } else {
            None
        },
        None => None,
    }
}

fn what_was_made(
    a: &Option<AllocAnswer>,
    file_id: u64,
    session: &SessionId,
    lease_seq: u64,
) -> (r: Option<Result<String, String>>)
    ensures
        r == made_for(*a, file_id, *session, lease_seq),
{
    match a {
        Some(x) => {
            if x.file_id == file_id && same_text(x.session.0.as_str(), session.0.as_str())
                && x.lease_seq == lease_seq {
                match &x.made {
                    Ok(handle) => Some(Ok(handle.clone())),
                    Err(cause) => Some(Err(cause.clone())),
                }
            } else {
                None
            }
        },
        None => None,
    }
}

/// The session under which an instance writes an inode.
pub open spec fn session_text(instance: Seq<char>, file_id: u64) -> Seq<char> {
    instance + ":"@ + decimal(file_id as nat)
}

pub open spec fn is_writer_session(s: SessionId, instance: Seq<char>, file_id: u64) -> bool {
    s.0@ == session_text(instance, file_id)
}

pub fn writer_session(instance: &str, file_id: u64) -> (r: SessionId)
    ensures
        is_writer_session(r, instance@, file_id),
{
    let mut s: String = joined(instance, ":");
    s.append(decimal_text(file_id).as_str());
    SessionId(s)
}

/// The path under which the buffer of a new file is filed.
pub open spec fn buffer_path_text(parent: u64, name: Seq<char>) -> Seq<char> {
    "/__inode_parent_"@ + decimal(parent as nat) + "/"@ + name
}

pub fn buffer_path(parent: u64, name: &str) -> (r: String)
    ensures
        r@ == buffer_path_text(parent, name@),
{
    let mut s: String = joined("/__inode_parent_", decimal_text(parent).as_str());
    s.append("/");
    s.append(name);
    s
}

/// Who opens a writer: the session that leases the file, and the path under
/// which its buffer is filed.
#[derive(Debug, Clone, PartialEq, Eq)]
pub struct Writer {
    pub session: SessionId,
    pub path: String,
}

pub open spec fn is_writer(
    who: Writer,
    instance: Seq<char>,
    file_id: u64,
    parent: u64,
    name: Seq<char>,
) -> bool {
    is_writer_session(who.session, instance, file_id) && who.path@ == buffer_path_text(parent, name)
}

/// A file inode before it has an id.
pub open spec fn fresh_file_record(base: Option<ObjId>) -> NodeRecord {
    NodeRecord {
        inode_id: 0,
        ref_by: None,
        state: NodeState::FileNormal,
        read_only: false,
        base_obj_id: base,
        rev: None,
        meta: None,
        lease_client_session: None,
        lease_seq: None,
        lease_expire_at: None,
    }
}

fn new_file_record(base: Option<ObjId>) -> (r: NodeRecord)
    ensures
        r == fresh_file_record(base),
{
    NodeRecord {
        inode_id: 0,
        ref_by: None,
        state: NodeState::FileNormal,
        read_only: false,
        base_obj_id: base,
        rev: None,
        meta: None,
        lease_client_session: None,
        lease_seq: None,
        lease_expire_at: None,
    }
}

/// The inode to be written, in tables that hold it.
pub struct WriterTargetView {
    pub tables: TablesView,
    pub file_id: u64,
    pub base: Option<ObjId>,
    pub state: NodeState,
}

/// The object that shows through from the base where there is no entry.
pub open spec fn visible_base(
    v: TablesView,
    base: BaseStoreView,
    parent: u64,
    node: NodeRecord,
    name: String,
) -> Result<Option<ObjId>, Stop> {
    if v.dentry(parent, name@) is Some {
        Ok(None)
    } else {
        match base_child(base, node, name) {
            Err(s) => Err(s),
            Ok(BaseChildLookup::Missing) => Ok(None),
            Ok(BaseChildLookup::DirObj(_)) => refuse(MetaError::PathIsDir),
            Ok(BaseChildLookup::NonDirObj(o)) => Ok(Some(o)),
        }
    }
}

/// The flag does not fit a file that exists, or does not exist.
pub open spec fn flag_error(
    flag: OpenWriteFlag,
    exists_now: bool,
    parent: u64,
    name: String,
) -> Option<MetaError> {
    match flag {
        OpenWriteFlag::Append | OpenWriteFlag::ContinueWrite => if exists_now {
            None
        } else {
            Some(MetaError::FileNotFound { resume: flag is ContinueWrite, parent, name })
        },
        OpenWriteFlag::CreateExclusive => if exists_now {
            Some(MetaError::FileExists { parent, name })
        } else {
            None
        },
        OpenWriteFlag::CreateOrTruncate | OpenWriteFlag::CreateOrAppend => None,
    }
}

/// The flag does not fit the state of an inode.
pub open spec fn state_error(flag: OpenWriteFlag, state: NodeState) -> Option<MetaError> {
    match (flag, state) {
        (OpenWriteFlag::ContinueWrite, NodeState::Working(_)) => None,
        (OpenWriteFlag::ContinueWrite, NodeState::Cooling(_)) => None,
        (OpenWriteFlag::ContinueWrite, _) => Some(MetaError::NotResumable { state }),
        (_, NodeState::Working(_)) => Some(MetaError::AlreadyWriting),
        _ => None,
    }
}

/// A fresh file inode under `name`, with the content of `base` if there is one.
pub open spec fn fresh_target(
    v: TablesView,
    parent: u64,
    name: String,
    base: Option<ObjId>,
    rev: u64,
    now: u64,
) -> Result<WriterTargetView, Stop> {
    match alloc_under_after(v, parent, name, fresh_file_record(base), rev, now) {
        Err(e) => refuse(e),
        Ok((w, id)) => Ok(
            WriterTargetView { tables: w, file_id: id, base, state: NodeState::FileNormal },
        ),
    }
}

/// The inode that a request to write `name` is about.
pub open spec fn writer_target(
    v: TablesView,
    base: BaseStoreView,
    parent: u64,
    name: String,
    flag: OpenWriteFlag,
    now: u64,
) -> Result<WriterTargetView, Stop> {
    match writable_dir(v, parent, MetaError::ParentNotFound) {
        Err(e) => refuse(e),
        Ok(node) => match visible_base(v, base, parent, node, name) {
            Err(s) => Err(s),
            Ok(shown) => {
                let dentry = v.dentry(parent, name@);
                let exists_now = shown is Some || (dentry is Some && !(
                dentry->0.target is Tombstone));
                let rev = rev_or_zero(node.rev);
                match flag_error(flag, exists_now, parent, name) {
                    Some(e) => refuse(e),
                    None => match dentry {
                        None => fresh_target(v, parent, name, shown, rev, now),
                        Some(d) => match d.target {
                            DentryTarget::Tombstone => fresh_target(
                                v,
                                parent,
                                name,
                                None,
                                rev,
                                now,
                            ),
                            DentryTarget::SymLink(_) => refuse(MetaError::PathIsSymlink),
                            DentryTarget::ObjId(o) => if o.is_dir() {
                                refuse(MetaError::PathIsDir)
                            } else {
                                fresh_target(v, parent, name, Some(o), rev, now)
                            },
                            DentryTarget::IndexNodeId(id) => match v.read(id) {
                                Err(e) => refuse(e),
                                Ok(None) => refuse(MetaError::InodeNotFound),
                                Ok(Some(file)) => if kind_of(file.state) == NodeKind::Dir {
                                    refuse(MetaError::PathIsDir)
                                } else if kind_of(file.state) != NodeKind::File {
                                    refuse(MetaError::PathNotFile)
                                } else {
                                    match state_error(flag, file.state) {
                                        Some(e) => refuse(e),
                                        None => Ok(
                                            WriterTargetView {
                                                tables: v,
                                                file_id: id,
                                                base: file.base_obj_id,
                                                state: file.state,
                                            },
                                        ),
                                    }
                                },
                            },
                        },
                    },
                }
            },
        },
    }
}

/// The buffer to go on with, for a writer that resumes.
pub open spec fn resume_handle(flag: OpenWriteFlag, state: NodeState) -> Result<
    Option<String>,
    MetaError,
> {
    if flag == OpenWriteFlag::ContinueWrite {
        match state {
            NodeState::Working(s) => Ok(Some(s.fb_handle)),
            NodeState::Cooling(s) => Ok(Some(s.fb_handle)),
            _ => Err(MetaError::UnexpectedContinueState),
        }
    } else {
        Ok(None)
    }
}

pub open spec fn drops_content(flag: OpenWriteFlag) -> bool {
    flag == OpenWriteFlag::CreateExclusive || flag == OpenWriteFlag::CreateOrTruncate
}

/// The inode forgets its base object.
pub open spec fn without_base(v: TablesView, id: u64) -> TablesView {
    v.with_row(record_row(NodeRecord { base_obj_id: None, ..v.inode(id)->0 }, id))
}

/// Marks the inode as being written through `handle`.
pub open spec fn start_working(
    v: TablesView,
    id: u64,
    handle: String,
    expected: NodeState,
    now: u64,
) -> Result<(TablesView, String), Stop> {
    match update_inode_state_after(
        v,
        id,
        NodeState::Working(FileWorkingState { fb_handle: handle, last_write_at: now }),
        expected,
    ) {
        Err(e) => refuse(e),
        Ok(w) => Ok((w, handle)),
    }
}

/// Leases the inode and binds it to a buffer: the old one for a writer that
/// resumes, a new one otherwise.
pub open spec fn start_writer(
    t: WriterTargetView,
    flag: OpenWriteFlag,
    expected_size: Option<u64>,
    who: Writer,
    found: Option<HandleAnswer>,
    allocated: Option<AllocAnswer>,
    now: u64,
) -> Result<(TablesView, String), Stop> {
    match resume_handle(flag, t.state) {
        Err(e) => refuse(e),
        Ok(Some(handle)) => match said_of(found, handle) {
            None => Err(Stop::Ask(Question::GetBuffer { handle })),
            Some(Err(_)) => refuse(MetaError::BufferGone { handle }),
            Some(Ok(_)) => match acquire_after(
                t.tables,
                t.file_id,
                who.session,
                WRITE_LEASE_TTL_SECS,
                now,
            ) {
                Err(e) => refuse(e),
                Ok((w, _)) => start_working(w, t.file_id, handle, t.state, now),
            },
        },
        Ok(None) => match acquire_after(
            t.tables,
            t.file_id,
            who.session,
            WRITE_LEASE_TTL_SECS,
            now,
        ) {
            Err(e) => refuse(e),
            Ok((w, lease_seq)) => match made_for(allocated, t.file_id, who.session, lease_seq) {
                None => Err(
                    Stop::Ask(
                        Question::AllocBuffer {
                            file_id: t.file_id,
                            path: who.path,
                            session: who.session,
                            lease_seq,
                            expected_size,
                        },
                    ),
                ),
                Some(Err(cause)) => refuse(MetaError::AllocBufferFailed { cause }),
                Some(Ok(handle)) => if drops_content(flag) && t.base is Some {
                    match w.read(t.file_id) {
                        Err(e) => refuse(e),
                        Ok(_) => start_working(
                            without_base(w, t.file_id),
                            t.file_id,
                            handle,
                            t.state,
                            now,
                        ),
                    }
                } else {
                    start_working(w, t.file_id, handle, t.state, now)
                },
            },
        },
    }
}

pub open spec fn setup_error(setup: WriterSetup, name: Seq<char>) -> Option<MetaError> {
    if !setup.buffer_configured {
        Some(MetaError::BufferNotConfigured)
    } else if setup.instance is None {
        Some(MetaError::InstanceNotConfigured)
    } else if name.len() == 0 {
        Some(MetaError::InvalidPath)
    } else {
        None
    }
}

/// The setup of the service, or the name, does not admit a writer.
pub(crate) fn check_setup(setup: &WriterSetup, name: &str) -> (r: Option<MetaError>)
    ensures
        r == setup_error(*setup, name@),
{
    if !setup.buffer_configured {
        Some(MetaError::BufferNotConfigured)
    } else if setup.instance.is_none() {
        Some(MetaError::InstanceNotConfigured)
    } else if name.is_empty() {
        Some(MetaError::InvalidPath)
    } else {
        None
    }
}

/// What closing a writer answers before it looks at the tables.
pub open spec fn close_writer_seen(buffer_configured: bool) -> Option<Result<(), MetaError>> {
    if buffer_configured {
        None
    } else {
        Some(Err(MetaError::BufferNotConfigured))
    }
}

pub(crate) fn see_close_writer(buffer_configured: bool) -> (r: Option<Result<(), MetaError>>)
    ensures
        r == close_writer_seen(buffer_configured),
{
    if buffer_configured {
        None
    } else {
        Some(Err(MetaError::BufferNotConfigured))
    }
}

pub open spec fn writer_agrees(
    r: Result<(MetaTables, String), Stop>,
    after: Result<(TablesView, String), Stop>,
) -> bool {
    match r {
        Ok((t, h)) => t.wf() && after == Ok::<(TablesView, String), Stop>((t@, h)),
        Err(s) => after == Err::<(TablesView, String), Stop>(s),
    }
}

/// A chosen inode together with the tables that hold it.
pub struct WriterTarget {
    pub tables: MetaTables,
    pub file_id: u64,
    pub base: Option<ObjId>,
    pub state: NodeState,
}

impl WriterTarget {
    pub open spec fn model(&self) -> WriterTargetView {
        WriterTargetView {
            tables: self.tables@,
            file_id: self.file_id,
            base: self.base,
            state: self.state,
        }
    }
}

/// What becomes of a file when its writer is done.
pub open spec fn close_writer_after(
    v: TablesView,
    file_id: u64,
    buffer_configured: bool,
    found: Option<HandleAnswer>,
    closed: Option<HandleAnswer>,
    now: u64,
) -> Result<TablesView, Stop> {
    if !buffer_configured {
        refuse(MetaError::BufferNotConfigured)
    } else {
        match v.read(file_id) {
            Err(e) => refuse(e),
            Ok(None) => refuse(MetaError::InodeNotFound),
            Ok(Some(node)) => if kind_of(node.state) != NodeKind::File {
                refuse(MetaError::NotAFile)
            } else {
                match bound_handle(node.state) {
                    None => refuse(MetaError::NotWritable),
                    Some(handle) => match (said_of(found, handle), said_of(closed, handle)) {
                        (None, _) => Err(Stop::Ask(Question::GetBuffer { handle })),
                        (Some(Err(cause)), _) => refuse(MetaError::GetBufferFailed { cause }),
                        (Some(Ok(_)), None) => Err(Stop::Ask(Question::CloseBuffer { handle })),
                        (Some(Ok(_)), Some(Err(cause))) => refuse(
                            MetaError::CloseBufferFailed { cause },
                        ),
                        (Some(Ok(_)), Some(Ok(_))) => match update_inode_state_after(
                            v,
                            file_id,
                            NodeState::Cooling(
                                FileCoolingState { fb_handle: handle, closed_at: now },
                            ),
                            node.state,
                        ) {
                            Err(e) => refuse(e),
                            Ok(w) => match (node.lease_client_session, node.lease_seq) {
                                (Some(s), Some(seq)) => lift(
                                    release_after(w, file_id, s.0@, seq),
                                ),
                                _ => Ok(w),
                            },
                        },
                    },
                }
            },
        }
    }
}

/// The buffer that an open or cooling file is bound to.
pub open spec fn bound_handle(state: NodeState) -> Option<String> {
    match state {
        NodeState::Working(s) => Some(s.fb_handle),
        NodeState::Cooling(s) => Some(s.fb_handle),
        _ => None,
    }
}

/// Where the content of a resolved path is read from.
pub open spec fn reader_source(resp: FsMetaResolvePathResp) -> Result<OpenFileReaderResp, MetaError> {
    match resp.item {
        FsMetaResolvePathItem::SymLink(_) => Err(MetaError::PathIsSymlink),
        FsMetaResolvePathItem::ObjId(o) => Ok(OpenFileReaderResp::Object(o, resp.inner_path)),
        FsMetaResolvePathItem::Inode { inode_id, inode } => if kind_of(inode.state)
            == NodeKind::Dir {
            Err(MetaError::PathIsDir)
        } else {
            match inode.state {
                NodeState::Working(s) => Ok(OpenFileReaderResp::FileBufferId(s.fb_handle)),
                NodeState::Cooling(s) => Ok(OpenFileReaderResp::FileBufferId(s.fb_handle)),
                NodeState::Linked(s) => Ok(OpenFileReaderResp::Object(s.obj_id, None)),
                NodeState::Finalized(s) => Ok(OpenFileReaderResp::Object(s.obj_id, None)),
                _ => match inode.base_obj_id {
                    Some(o) => Ok(OpenFileReaderResp::Object(o, None)),
                    None => Err(MetaError::NoReadableContent),
                },
            }
        },
    }
}

/// Decides where to read a resolved path.
pub fn reader_for(resp: FsMetaResolvePathResp) -> (r: Result<OpenFileReaderResp, MetaError>)
    ensures
        r == reader_source(resp),
{
    match resp.item {
        FsMetaResolvePathItem::SymLink(_) => Err(MetaError::PathIsSymlink),
        FsMetaResolvePathItem::ObjId(o) => Ok(OpenFileReaderResp::Object(o, resp.inner_path)),
        FsMetaResolvePathItem::Inode { inode_id, inode } => {
            if matches!(inode.get_node_kind(), NodeKind::Dir) {
                return Err(MetaError::PathIsDir);
            }
            match inode.state {
                NodeState::Working(s) => Ok(OpenFileReaderResp::FileBufferId(s.fb_handle)),
                NodeState::Cooling(s) => Ok(OpenFileReaderResp::FileBufferId(s.fb_handle)),
                NodeState::Linked(s) => Ok(OpenFileReaderResp::Object(s.obj_id, None)),
                NodeState::Finalized(s) => Ok(OpenFileReaderResp::Object(s.obj_id, None)),
                NodeState::DirNormal | NodeState::DirOverlay | NodeState::FileNormal => {
                    match inode.base_obj_id {
                        Some(o) => Ok(OpenFileReaderResp::Object(o, None)),
                        None => Err(MetaError::NoReadableContent),
                    }
                },
            }
        },
    }
}

fn check_flag(flag: OpenWriteFlag, exists_now: bool, parent: u64, name: &String) -> (r: Option<
    MetaError,
>)
    ensures
        r == flag_error(flag, exists_now, parent, *name),
{
    match flag {
        OpenWriteFlag::Append | OpenWriteFlag::ContinueWrite => if exists_now {
            None
        } else {
            Some(
                MetaError::FileNotFound {
                    resume: matches!(flag, OpenWriteFlag::ContinueWrite),
                    parent,
                    name: name.clone(),
                },
            )
        },
        OpenWriteFlag::CreateExclusive => if exists_now {
            Some(MetaError::FileExists { parent, name: name.clone() })
        } else {
            None
        },
        OpenWriteFlag::CreateOrTruncate | OpenWriteFlag::CreateOrAppend => None,
    }
}

fn check_state(flag: OpenWriteFlag, state: &NodeState) -> (r: Option<MetaError>)
    ensures
        r == state_error(flag, *state),
{
    match (flag, state) {
        (OpenWriteFlag::ContinueWrite, NodeState::Working(_)) => None,
        (OpenWriteFlag::ContinueWrite, NodeState::Cooling(_)) => None,
        (OpenWriteFlag::ContinueWrite, _) => Some(
            MetaError::NotResumable { state: state.dup() },
        ),
        (_, NodeState::Working(_)) => Some(MetaError::AlreadyWriting),
        _ => None,
    }
}

impl MetaTables {
    fn fresh_file(
        &self,
        parent: u64,
        name: &String,
        base: Option<ObjId>,
        rev: u64,
        now: u64,
    ) -> (r: Result<WriterTarget, Stop>)
        requires
            self.wf(),
        ensures
            match r {
                Ok(t) => t.tables.wf() && fresh_target(self@, parent, *name, base, rev, now)
                    == Ok::<WriterTargetView, Stop>(t.model()),
                Err(s) => fresh_target(self@, parent, *name, base, rev, now) == Err::<
                    WriterTargetView,
                    Stop,
                >(s),
            },
    {
        let mut t: MetaTables = self.copy();
        let record: NodeRecord = new_file_record(dup_obj(&base));
        match t.alloc_under(parent, name.clone(), record, rev, now) {
            Err(e) => Err(Stop::Refused(e)),
            Ok(id) => Ok(
                WriterTarget { tables: t, file_id: id, base, state: NodeState::FileNormal },
            ),
        }
    }

    /// Finds or makes the inode that `name` is to be written as.
    pub fn choose_writer_target(
        &self,
        base: &BaseStore,
        parent: u64,
        name: &String,
        flag: OpenWriteFlag,
        now: u64,
    ) -> (r: Result<WriterTarget, Stop>)
        requires
            self.wf(),
            base.wf(),
        ensures
            match r {
                Ok(t) => t.tables.wf() && writer_target(self@, base@, parent, *name, flag, now)
                    == Ok::<WriterTargetView, Stop>(t.model()),
                Err(s) => writer_target(self@, base@, parent, *name, flag, now) == Err::<
                    WriterTargetView,
                    Stop,
                >(s),
            },
    {
        let node: NodeRecord = match self.open_dir_for_write(parent, MetaError::ParentNotFound) {
            Ok(node) => node,
            Err(e) => {
                return Err(Stop::Refused(e));
            },
        };
        let dentry: Option<DentryRecord> = self.get_dentry(parent, name.as_str());
        let mut shown: Option<ObjId> = None;
        if dentry.is_none() {
            match base.lookup_base_dirobj_child(&node, name) {
                Err(s) => {
                    return Err(s);
                },
                Ok(BaseChildLookup::Missing) => {},
                Ok(BaseChildLookup::DirObj(_)) => {
                    return Err(Stop::Refused(MetaError::PathIsDir));
                },
                Ok(BaseChildLookup::NonDirObj(o)) => {
                    shown = Some(o);
                },
            }
        }
        let entered: bool = match &dentry {
            Some(d) => match d.target {
                DentryTarget::Tombstone => false,
                _ => true,
            },
            None => false,
        };
        if let Some(e) = check_flag(flag, shown.is_some() || entered, parent, name) {
            return Err(Stop::Refused(e));
        }
        let rev: u64 = match node.rev {
            Some(x) => x,
            None => 0,
        };
        match dentry {
            None => self.fresh_file(parent, name, shown, rev, now),
            Some(d) => match d.target {
                DentryTarget::Tombstone => self.fresh_file(parent, name, None, rev, now),
                DentryTarget::SymLink(_) => Err(Stop::Refused(MetaError::PathIsSymlink)),
                DentryTarget::ObjId(o) => {
                    if o.is_dir_object() {
                        Err(Stop::Refused(MetaError::PathIsDir))
                    } else {
                        self.fresh_file(parent, name, Some(o), rev, now)
                    }
                },
                DentryTarget::IndexNodeId(id) => {
                    let file: NodeRecord = match self.get_inode(id) {
                        Ok(Some(file)) => file,
                        Ok(None) => {
                            return Err(Stop::Refused(MetaError::InodeNotFound));
                        },
                        Err(e) => {
                            return Err(Stop::Refused(e));
                        },
                    };
                    match file.get_node_kind() {
                        NodeKind::Dir => {
                            return Err(Stop::Refused(MetaError::PathIsDir));
                        },
                        NodeKind::Object => {
                            return Err(Stop::Refused(MetaError::PathNotFile));
                        },
                        NodeKind::File => {},
                    }
                    if let Some(e) = check_state(flag, &file.state) {
                        return Err(Stop::Refused(e));
                    }
                    Ok(
                        WriterTarget {
                            tables: self.copy(),
                            file_id: id,
                            base: file.base_obj_id,
                            state: file.state,
                        },
                    )
                },
            },
        }
    }

    fn work_on(
        &mut self,
        id: u64,
        handle: &String,
        expected: &NodeState,
        now: u64,
    ) -> (r: Result<(), MetaError>)
        requires
            old(self).wf(),
        ensures
            final(self).wf(),
            match r {
                Ok(_) => start_working(old(self)@, id, *handle, *expected, now) == Ok::<
                    (TablesView, String),
                    Stop,
                >((final(self)@, *handle)),
                Err(e) => start_working(old(self)@, id, *handle, *expected, now) == Err::<
                    (TablesView, String),
                    Stop,
                >(Stop::Refused(e)),
            },
    {
        let working = NodeState::Working(
            FileWorkingState { fb_handle: handle.clone(), last_write_at: now },
        );
        self.update_inode_state(id, &working, expected)
    }

    fn drop_base(&mut self, id: u64) -> (r: Result<(), MetaError>)
        requires
            old(self).wf(),
            old(self)@.nodes.contains_key(id),
        ensures
            final(self).wf(),
            match r {
                Ok(_) => old(self)@.read(id) is Ok && final(self)@ == without_base(old(self)@, id),
                Err(e) => old(self)@.read(id) == Err::<Option<NodeRecord>, MetaError>(e),
            },
    {
        match self.get_inode(id) {
            Err(e) => {
                return Err(e);
            },
            Ok(None) => {},
            Ok(Some(node)) => {
                let mut n: NodeRecord = node;
                n.base_obj_id = None;
                self.set_inode(n);
            },
        }
        Ok(())
    }

    /// Closes the writer of a file: the file starts to cool and its lease ends.
    pub fn close_file_writer(
        &self,
        file_inode_id: u64,
        buffer_configured: bool,
        answers: &BufferAnswers,
        now: u64,
    ) -> (r: Result<MetaTables, Stop>)
        requires
            self.wf(),
        ensures
            crate::ops::agrees(
                r,
                close_writer_after(
                    self@,
                    file_inode_id,
                    buffer_configured,
                    answers.found,
                    answers.closed,
                    now,
                ),
            ),
    {
        if !buffer_configured {
            return Err(Stop::Refused(MetaError::BufferNotConfigured));
        }
        let node: NodeRecord = match self.get_inode(file_inode_id) {
            Ok(Some(node)) => node,
            Ok(None) => {
                return Err(Stop::Refused(MetaError::InodeNotFound));
            },
            Err(e) => {
                return Err(Stop::Refused(e));
            },
        };
        if !matches!(node.get_node_kind(), NodeKind::File) {
            return Err(Stop::Refused(MetaError::NotAFile));
        }
        let handle: String = match &node.state {
            NodeState::Working(s) => s.fb_handle.clone(),
            NodeState::Cooling(s) => s.fb_handle.clone(),
            _ => {
                return Err(Stop::Refused(MetaError::NotWritable));
            },
        };
        match what_was_said(&answers.found, &handle) {
            None => {
                return Err(Stop::Ask(Question::GetBuffer { handle }));
            },
            Some(Err(cause)) => {
                return Err(Stop::Refused(MetaError::GetBufferFailed { cause }));
            },
            Some(Ok(_)) => {},
        }
        match what_was_said(&answers.closed, &handle) {
            None => {
                return Err(Stop::Ask(Question::CloseBuffer { handle }));
            },
            Some(Err(cause)) => {
                return Err(Stop::Refused(MetaError::CloseBufferFailed { cause }));
            },
            Some(Ok(_)) => {},
        }
        let mut t: MetaTables = self.copy();
        let cooling = NodeState::Cooling(FileCoolingState { fb_handle: handle, closed_at: now });
        match t.update_inode_state(file_inode_id, &cooling, &node.state) {
            Ok(_) => {},
            Err(e) => {
                return Err(Stop::Refused(e));
            },
        }
        match (node.lease_client_session, node.lease_seq) {
            (Some(s), Some(seq)) => {
                let session = SessionId(s.0);
                match t.release_file_lease(file_inode_id, &session, seq) {
                    Ok(_) => Ok(t),
                    Err(e) => Err(Stop::Refused(e)),
                }
            },
            _ => Ok(t),
        }
    }

    /// Opens `name` for writing and returns the handle of the buffer to write to.
    pub fn open_file_writer(
        &self,
        base: &BaseStore,
        setup: &WriterSetup,
        parent: u64,
        name: &String,
        flag: OpenWriteFlag,
        expected_size: Option<u64>,
        answers: &BufferAnswers,
        now: u64,
    ) -> (r: Result<(MetaTables, String), Stop>)
        requires
            self.wf(),
            base.wf(),
        ensures
            match setup_error(*setup, name@) {
                Some(e) => writer_agrees(r, refuse(e)),
                None => match writer_target(self@, base@, parent, *name, flag, now) {
                    Err(s) => writer_agrees(r, Err(s)),
                    Ok(t) => exists|who: Writer| #[trigger]
                        is_writer(who, setup.instance->0@, t.file_id, parent, name@)
                            && writer_agrees(
                            r,
                            start_writer(
                                t,
                                flag,
                                expected_size,
                                who,
                                answers.found,
                                answers.allocated,
                                now,
                            ),
                        ),
                },
            },
    {
        if !setup.buffer_configured {
            return Err(Stop::Refused(MetaError::BufferNotConfigured));
        }
        let instance: &String = match &setup.instance {
            Some(instance) => instance,
            None => {
                return Err(Stop::Refused(MetaError::InstanceNotConfigured));
            },
        };
        if name.as_str().is_empty() {
            return Err(Stop::Refused(MetaError::InvalidPath));
        }
        let target: WriterTarget = match self.choose_writer_target(
            base,
            parent,
            name,
            flag,
            now,
        ) {
            Ok(t) => t,
            Err(s) => {
                return Err(s);
            },
        };
        let who = Writer {
            session: writer_session(instance.as_str(), target.file_id),
            path: buffer_path(parent, name.as_str()),
        };
        let ghost model = target.model();
        let ghost given = who;
        assert(is_writer(given, setup.instance->0@, model.file_id, parent, name@));
        begin_writing(target, flag, expected_size, who, answers, now)
    }
}

/// Leases a chosen inode and binds it to its buffer.
pub fn begin_writing(
    target: WriterTarget,
    flag: OpenWriteFlag,
    expected_size: Option<u64>,
    who: Writer,
    answers: &BufferAnswers,
    now: u64,
) -> (r: Result<(MetaTables, String), Stop>)
    requires
        target.tables.wf(),
    ensures
        writer_agrees(
            r,
            start_writer(
                target.model(),
                flag,
                expected_size,
                who,
                answers.found,
                answers.allocated,
                now,
            ),
        ),
{
    let mut t: MetaTables = target.tables;
    let resume: Option<String> = match flag {
        OpenWriteFlag::ContinueWrite => match &target.state {
            NodeState::Working(s) => Some(s.fb_handle.clone()),
            NodeState::Cooling(s) => Some(s.fb_handle.clone()),
            _ => {
                return Err(Stop::Refused(MetaError::UnexpectedContinueState));
            },
        },
        _ => None,
    };
    match resume {
        Some(handle) => {
            match what_was_said(&answers.found, &handle) {
                None => {
                    return Err(Stop::Ask(Question::GetBuffer { handle }));
                },
                Some(Err(_)) => {
                    return Err(Stop::Refused(MetaError::BufferGone { handle }));
                },
                Some(Ok(_)) => {},
            }
            match t.acquire_file_lease(target.file_id, who.session, WRITE_LEASE_TTL_SECS, now) {
                Err(e) => {
                    return Err(Stop::Refused(e));
                },
                Ok(_) => {},
            }
            match t.work_on(target.file_id, &handle, &target.state, now) {
                Err(e) => Err(Stop::Refused(e)),
                Ok(_) => Ok((t, handle)),
            }
        },
        None => {
            let asked = SessionId(who.session.0.clone());
            let lease_seq: u64 = match t.acquire_file_lease(
                target.file_id,
                who.session,
                WRITE_LEASE_TTL_SECS,
                now,
            ) {
                Err(e) => {
                    return Err(Stop::Refused(e));
                },
                Ok(seq) => seq,
            };
            let handle: String = match what_was_made(
                &answers.allocated,
                target.file_id,
                &asked,
                lease_seq,
            ) {
                None => {
                    return Err(
                        Stop::Ask(
                            Question::AllocBuffer {
                                file_id: target.file_id,
                                path: who.path,
                                session: asked,
                                lease_seq,
                                expected_size,
                            },
                        ),
                    );
                },
                Some(Err(cause)) => {
                    return Err(Stop::Refused(MetaError::AllocBufferFailed { cause }));
                },
                Some(Ok(handle)) => handle,
            };
            let truncate: bool = match flag {
                OpenWriteFlag::CreateExclusive | OpenWriteFlag::CreateOrTruncate => true,
                _ => false,
            };
            if truncate && target.base.is_some() {
                if let Err(e) = t.drop_base(target.file_id) {
                    return Err(Stop::Refused(e));
                }
            }
            match t.work_on(target.file_id, &handle, &target.state, now) {
                Err(e) => Err(Stop::Refused(e)),
                Ok(_) => Ok((t, handle)),
            }
        },
    }
}

/// An open writer holds the lease, and its file is being written through the
/// handle that the writer got.
pub proof fn law_open_writer_holds_file(
    t: WriterTargetView,
    flag: OpenWriteFlag,
    expected_size: Option<u64>,
    who: Writer,
    found: Option<HandleAnswer>,
    allocated: Option<AllocAnswer>,
    now: u64,
)
    requires
        t.tables.inv(),
        now < i64::MAX,
    ensures
        start_writer(t, flag, expected_size, who, found, allocated, now) matches Ok((w, handle))
            ==> {
            &&& w.nodes.contains_key(t.file_id)
            &&& held_by(w.nodes[t.file_id], who.session.0@)
            &&& lease_runs(w.nodes[t.file_id], now)
            &&& cols_state(w.nodes[t.file_id].cols) == Ok::<NodeState, MetaError>(
                NodeState::Working(FileWorkingState { fb_handle: handle, last_write_at: now }),
            )
        },
{
    if let Ok((x, n)) = acquire_after(t.tables, t.file_id, who.session, WRITE_LEASE_TTL_SECS, now) {
        let row = x.nodes[t.file_id];
        assert(lease_runs(row, now));
        assert(held_by(row, who.session.0@));
    }
}

/// A writer that does not resume writes to a buffer that was made for its very
/// file, under the session and the number of the lease that it now holds.
pub proof fn law_new_buffer_is_for_its_file(
    t: WriterTargetView,
    flag: OpenWriteFlag,
    expected_size: Option<u64>,
    who: Writer,
    found: Option<HandleAnswer>,
    allocated: Option<AllocAnswer>,
    now: u64,
)
    requires
        t.tables.inv(),
        flag != OpenWriteFlag::ContinueWrite,
    ensures
        start_writer(t, flag, expected_size, who, found, allocated, now) matches Ok((w, handle))
            ==> {
            &&& allocated matches Some(a)
            &&& a.file_id == t.file_id
            &&& a.session.0@ == who.session.0@
            &&& seq_or_zero(w.nodes[t.file_id]) == a.lease_seq
            &&& a.made == Ok::<String, String>(handle)
        },
{
}

/// A file that is being written is not opened a second time.
pub proof fn law_no_second_writer(
    v: TablesView,
    base: BaseStoreView,
    parent: u64,
    name: String,
    flag: OpenWriteFlag,
    now: u64,
    id: u64,
)
    requires
        v.dentry(parent, name@) matches Some(d) && d.target == DentryTarget::IndexNodeId(id),
        v.inode(id) matches Some(n) && n.state is Working,
        flag != OpenWriteFlag::ContinueWrite,
    ensures
        writer_target(v, base, parent, name, flag, now) is Err,
{
}

/// Closing an open writer frees its lease, keeps its buffer and starts the cooling.
pub proof fn law_close_frees_file(
    v: TablesView,
    file_id: u64,
    found: Option<HandleAnswer>,
    closed: Option<HandleAnswer>,
    now: u64,
)
    requires
        v.inv(),
    ensures
        close_writer_after(v, file_id, true, found, closed, now) matches Ok(w) ==> {
            &&& w.inode(file_id)->0.state matches NodeState::Cooling(c) && bound_handle(
                v.inode(file_id)->0.state,
            ) == Some(c.fb_handle) && c.closed_at == now
            &&& v.inode(file_id)->0.lease_client_session is Some && v.inode(
                file_id,
            )->0.lease_seq is Some ==> w.nodes[file_id].lease_client_session is None
                && w.nodes[file_id].lease_expire_at is None
        },
{
}

} // verus!
