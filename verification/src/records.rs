//! The records that the metadata engine stores and hands out.

use vstd::prelude::*;
use crate::errors::{MetaError, StateColumn};
use crate::table::{Dup, Key};
use crate::text::same_text;

verus! {

pub type IndexNodeId = u64;

/// A content-addressed object: its type and the hex form of its hash.
#[derive(Debug, Clone, PartialEq, Eq)]
pub struct ObjId {
    pub obj_type: String,
    pub obj_hash: String,
}

impl ObjId {
    pub open spec fn is_dir(&self) -> bool {
        self.obj_type@ == "cydir"@
    }

    pub open spec fn is_file(&self) -> bool {
        self.obj_type@ == "cyfile"@
    }

    pub fn new(obj_type: String, obj_hash: String) -> (r: Self)
        ensures
            r == (ObjId { obj_type, obj_hash }),
    {
        ObjId { obj_type, obj_hash }
    }

    /// Whether this names a directory object.
    pub fn is_dir_object(&self) -> (r: bool)
        ensures
            r == self.is_dir(),
    {
        same_text(self.obj_type.as_str(), "cydir")
    }

    /// Whether this names a file object.
    pub fn is_file_object(&self) -> (r: bool)
        ensures
            r == self.is_file(),
    {
        same_text(self.obj_type.as_str(), "cyfile")
    }
}

impl Key for ObjId {
    type Model = (Seq<char>, Seq<char>);

    open spec fn model(&self) -> (Seq<char>, Seq<char>) {
        (self.obj_type@, self.obj_hash@)
    }

    fn same_key(&self, other: &Self) -> (r: bool) {
        same_text(self.obj_type.as_str(), other.obj_type.as_str()) && same_text(
            self.obj_hash.as_str(),
            other.obj_hash.as_str(),
        )
    }
}

impl Dup for ObjId {
    fn dup(&self) -> (r: Self) {
        ObjId { obj_type: self.obj_type.clone(), obj_hash: self.obj_hash.clone() }
    }
}

#[derive(Debug, Clone, PartialEq, Eq)]
pub struct SessionId(pub String);

#[derive(Debug, Clone, PartialEq, Eq)]
pub struct ClientSessionId(pub String);

/// How a file is to be opened for writing.
#[derive(Debug, Clone, Copy, PartialEq, Eq, Structural)]
pub enum OpenWriteFlag {
    /// The file must exist; writing goes on at its end.
    Append,
    /// Takes up an earlier write session: the file must be `Working` or `Cooling`.
    ContinueWrite,
    /// The file must not exist.
    CreateExclusive,
    /// Creates the file, or drops its content.
    CreateOrTruncate,
    /// Creates the file, or goes on at its end.
    CreateOrAppend,
}

#[derive(Debug, Clone, Copy, PartialEq, Eq, Structural)]
pub enum NodeKind {
    File,
    Dir,
    Object,
}

#[derive(Debug, Clone, PartialEq, Eq)]
pub struct FileWorkingState {
    pub fb_handle: String,
    pub last_write_at: u64,
}

#[derive(Debug, Clone, PartialEq, Eq)]
pub struct FileCoolingState {
    pub fb_handle: String,
    pub closed_at: u64,
}

#[derive(Debug, Clone, PartialEq, Eq)]
pub struct FileLinkedState {
    pub obj_id: ObjId,
    pub qcid: ObjId,
    pub filebuffer_id: String,
    pub linked_at: u64,
}

#[derive(Debug, Clone, PartialEq, Eq)]
pub struct FinalizedObjState {
    pub obj_id: ObjId,
    pub finalized_at: u64,
}

/// What an inode is at the moment.
#[derive(Debug, Clone, PartialEq, Eq)]
pub enum NodeState {
    DirNormal,
    /// A directory whose entries lie over those of a base object.
    DirOverlay,
    FileNormal,
    /// Open for writing, bound to a buffer.
    Working(FileWorkingState),
    /// Closed, waiting to settle.
    Cooling(FileCoolingState),
    /// Hashed and published by an external link.
    Linked(FileLinkedState),
    /// Moved into the object store.
    Finalized(FinalizedObjState),
}

impl Dup for NodeState {
    fn dup(&self) -> (r: Self) {
        match self {
            NodeState::DirNormal => NodeState::DirNormal,
            NodeState::DirOverlay => NodeState::DirOverlay,
            NodeState::FileNormal => NodeState::FileNormal,
            NodeState::Working(s) => NodeState::Working(
                FileWorkingState { fb_handle: s.fb_handle.clone(), last_write_at: s.last_write_at },
            ),
            NodeState::Cooling(s) => NodeState::Cooling(
                FileCoolingState { fb_handle: s.fb_handle.clone(), closed_at: s.closed_at },
            ),
            NodeState::Linked(s) => NodeState::Linked(
                FileLinkedState {
                    obj_id: s.obj_id.dup(),
                    qcid: s.qcid.dup(),
                    filebuffer_id: s.filebuffer_id.clone(),
                    linked_at: s.linked_at,
                },
            ),
            NodeState::Finalized(s) => NodeState::Finalized(
                FinalizedObjState { obj_id: s.obj_id.dup(), finalized_at: s.finalized_at },
            ),
        }
    }
}

/// The kind of node that an object id stands for.
pub open spec fn object_kind(id: ObjId) -> NodeKind {
    if id.is_dir() {
        NodeKind::Dir
    } else if id.is_file() {
        NodeKind::File
    } else {
        NodeKind::Object
    }
}

pub open spec fn kind_of(state: NodeState) -> NodeKind {
    match state {
        NodeState::DirNormal | NodeState::DirOverlay => NodeKind::Dir,
        NodeState::FileNormal | NodeState::Working(_) | NodeState::Cooling(_) => NodeKind::File,
        NodeState::Linked(s) => object_kind(s.obj_id),
        NodeState::Finalized(s) => object_kind(s.obj_id),
    }
}

fn kind_of_object(id: &ObjId) -> (r: NodeKind)
    ensures
        r == object_kind(*id),
{
    if id.is_dir_object() {
        NodeKind::Dir
    } else if id.is_file_object() {
        NodeKind::File
    } else {
        NodeKind::Object
    }
}

/// An inode as callers see it.  `meta` is JSON text.
#[derive(Debug, Clone, PartialEq, Eq)]
pub struct NodeRecord {
    pub inode_id: IndexNodeId,
    pub ref_by: Option<u64>,
    pub state: NodeState,
    pub read_only: bool,
    pub base_obj_id: Option<ObjId>,
    pub rev: Option<u64>,
    pub meta: Option<String>,
    pub lease_client_session: Option<ClientSessionId>,
    pub lease_seq: Option<u64>,
    pub lease_expire_at: Option<u64>,
}

impl NodeRecord {
    /// File, directory or other object.
    pub fn get_node_kind(&self) -> (r: NodeKind)
        ensures
            r == kind_of(self.state),
    {
        match &self.state {
            NodeState::DirNormal | NodeState::DirOverlay => NodeKind::Dir,
            NodeState::FileNormal | NodeState::Working(_) | NodeState::Cooling(_) => NodeKind::File,
            NodeState::Linked(s) => kind_of_object(&s.obj_id),
            NodeState::Finalized(s) => kind_of_object(&s.obj_id),
        }
    }
}

pub fn dup_session(s: &Option<ClientSessionId>) -> (r: Option<ClientSessionId>)
    ensures
        r == *s,
{
    match s {
        Some(v) => Some(ClientSessionId(v.0.clone())),
        None => None,
    }
}

pub fn dup_obj(s: &Option<ObjId>) -> (r: Option<ObjId>)
    ensures
        r == *s,
{
    match s {
        Some(v) => Some(v.dup()),
        None => None,
    }
}

pub fn dup_text(s: &Option<String>) -> (r: Option<String>)
    ensures
        r == *s,
{
    match s {
        Some(v) => Some(v.clone()),
        None => None,
    }
}

impl Dup for NodeRecord {
    fn dup(&self) -> (r: Self) {
        NodeRecord {
            inode_id: self.inode_id,
            ref_by: self.ref_by,
            state: self.state.dup(),
            read_only: self.read_only,
            base_obj_id: dup_obj(&self.base_obj_id),
            rev: self.rev,
            meta: dup_text(&self.meta),
            lease_client_session: dup_session(&self.lease_client_session),
            lease_seq: self.lease_seq,
            lease_expire_at: self.lease_expire_at,
        }
    }
}

/// What a directory entry points to.
#[derive(Debug, Clone, PartialEq, Eq)]
pub enum DentryTarget {
    IndexNodeId(IndexNodeId),
    SymLink(String),
    ObjId(ObjId),
    /// Hides an entry of the base directory.
    Tombstone,
}

/// Two targets are stored alike.
pub open spec fn same_target(a: DentryTarget, b: DentryTarget) -> bool {
    match (a, b) {
        (DentryTarget::IndexNodeId(x), DentryTarget::IndexNodeId(y)) => x == y,
        (DentryTarget::SymLink(x), DentryTarget::SymLink(y)) => x@ == y@,
        (DentryTarget::ObjId(x), DentryTarget::ObjId(y)) => x.model() == y.model(),
        (DentryTarget::Tombstone, DentryTarget::Tombstone) => true,
        _ => false,
    }
}

pub fn target_eq(a: &DentryTarget, b: &DentryTarget) -> (r: bool)
    ensures
        r == same_target(*a, *b),
{
    match (a, b) {
        (DentryTarget::IndexNodeId(x), DentryTarget::IndexNodeId(y)) => *x == *y,
        (DentryTarget::SymLink(x), DentryTarget::SymLink(y)) => same_text(x.as_str(), y.as_str()),
        (DentryTarget::ObjId(x), DentryTarget::ObjId(y)) => x.same_key(y),
        (DentryTarget::Tombstone, DentryTarget::Tombstone) => true,
        _ => false,
    }
}

impl Dup for DentryTarget {
    fn dup(&self) -> (r: Self) {
        match self {
            DentryTarget::IndexNodeId(id) => DentryTarget::IndexNodeId(*id),
            DentryTarget::SymLink(p) => DentryTarget::SymLink(p.clone()),
            DentryTarget::ObjId(o) => DentryTarget::ObjId(o.dup()),
            DentryTarget::Tombstone => DentryTarget::Tombstone,
        }
    }
}

#[derive(Debug, Clone, PartialEq, Eq)]
pub struct DentryRecord {
    pub id: u64,
    pub parent: IndexNodeId,
    pub name: String,
    pub target: DentryTarget,
    pub mtime: Option<u64>,
}

impl Dup for DentryRecord {
    fn dup(&self) -> (r: Self) {
        DentryRecord {
            id: self.id,
            parent: self.parent,
            name: self.name.clone(),
            target: self.target.dup(),
            mtime: self.mtime,
        }
    }
}

/// One line of a directory listing; `inode` is filled for inode targets.
#[derive(Debug, Clone, PartialEq, Eq)]
pub struct FsMetaListEntry {
    pub name: String,
    pub target: DentryTarget,
    pub inode: Option<NodeRecord>,
}

impl Dup for FsMetaListEntry {
    fn dup(&self) -> (r: Self) {
        FsMetaListEntry {
            name: self.name.clone(),
            target: self.target.dup(),
            inode: match &self.inode {
                Some(n) => Some(n.dup()),
                None => None,
            },
        }
    }
}

/// How often an object is referred to.
#[derive(Debug, Clone, PartialEq, Eq)]
pub struct ObjStat {
    pub obj_id: ObjId,
    pub ref_count: u64,
    pub zero_since: Option<u64>,
    pub updated_at: u64,
}

impl Dup for ObjStat {
    fn dup(&self) -> (r: Self) {
        ObjStat {
            obj_id: self.obj_id.dup(),
            ref_count: self.ref_count,
            zero_since: self.zero_since,
            updated_at: self.updated_at,
        }
    }
}

/// Where a reader finds the content of a file.
#[derive(Debug, Clone, PartialEq, Eq)]
pub enum OpenFileReaderResp {
    Object(ObjId, Option<String>),
    FileBufferId(String),
}

#[derive(Debug, Clone, PartialEq, Eq)]
pub enum FsMetaResolvePathItem {
    Inode { inode_id: IndexNodeId, inode: NodeRecord },
    ObjId(ObjId),
    SymLink(String),
}

#[derive(Debug, Clone, PartialEq, Eq)]
pub struct FsMetaResolvePathResp {
    pub item: FsMetaResolvePathItem,
    pub inner_path: Option<String>,
}

/// The edge from a directory to one of its names.
#[derive(Debug, Clone, PartialEq, Eq)]
pub struct Edge {
    pub parent: IndexNodeId,
    pub name: String,
}

impl Key for Edge {
    type Model = (u64, Seq<char>);

    open spec fn model(&self) -> (u64, Seq<char>) {
        (self.parent, self.name@)
    }

    fn same_key(&self, other: &Self) -> (r: bool) {
        self.parent == other.parent && same_text(self.name.as_str(), other.name.as_str())
    }
}

impl Dup for Edge {
    fn dup(&self) -> (r: Self) {
        Edge { parent: self.parent, name: self.name.clone() }
    }
}

pub const NODE_STATE_DIR_NORMAL: i64 = 0;

pub const NODE_STATE_DIR_OVERLAY: i64 = 1;

pub const NODE_STATE_WORKING: i64 = 2;

pub const NODE_STATE_COOLING: i64 = 3;

pub const NODE_STATE_LINKED: i64 = 4;

pub const NODE_STATE_FINALIZED: i64 = 5;

pub const NODE_STATE_FILE_NORMAL: i64 = 6;

/// The columns that a node row spends on its state.
#[derive(Debug, Clone, PartialEq, Eq)]
pub struct NodeStateCols {
    pub state: i64,
    pub fb_handle: Option<String>,
    pub last_write_at: Option<u64>,
    pub closed_at: Option<u64>,
    pub linked_obj_id: Option<ObjId>,
    pub linked_qcid: Option<ObjId>,
    pub linked_filebuffer_id: Option<String>,
    pub linked_at: Option<u64>,
    pub finalized_obj_id: Option<ObjId>,
    pub finalized_at: Option<u64>,
}

/// All state columns empty but for the state number.
pub open spec fn bare_cols(state: i64) -> NodeStateCols {
    NodeStateCols {
        state,
        fb_handle: None,
        last_write_at: None,
        closed_at: None,
        linked_obj_id: None,
        linked_qcid: None,
        linked_filebuffer_id: None,
        linked_at: None,
        finalized_obj_id: None,
        finalized_at: None,
    }
}

pub open spec fn state_cols(state: NodeState) -> NodeStateCols {
    match state {
        NodeState::DirNormal => bare_cols(NODE_STATE_DIR_NORMAL),
        NodeState::DirOverlay => bare_cols(NODE_STATE_DIR_OVERLAY),
        NodeState::FileNormal => bare_cols(NODE_STATE_FILE_NORMAL),
        NodeState::Working(s) => NodeStateCols {
            fb_handle: Some(s.fb_handle),
            last_write_at: Some(s.last_write_at),
            ..bare_cols(NODE_STATE_WORKING)
        },
        NodeState::Cooling(s) => NodeStateCols {
            fb_handle: Some(s.fb_handle),
            closed_at: Some(s.closed_at),
            ..bare_cols(NODE_STATE_COOLING)
        },
        NodeState::Linked(s) => NodeStateCols {
            linked_obj_id: Some(s.obj_id),
            linked_qcid: Some(s.qcid),
            linked_filebuffer_id: Some(s.filebuffer_id),
            linked_at: Some(s.linked_at),
            ..bare_cols(NODE_STATE_LINKED)
        },
        NodeState::Finalized(s) => NodeStateCols {
            finalized_obj_id: Some(s.obj_id),
            finalized_at: Some(s.finalized_at),
            ..bare_cols(NODE_STATE_FINALIZED)
        },
    }
}

/// A state that cannot be read for want of a column.
pub open spec fn missing(column: StateColumn) -> Result<NodeState, MetaError> {
    Err(MetaError::MissingColumn { column })
}

/// The state that the columns spell, or why they spell none.
pub open spec fn cols_state(cols: NodeStateCols) -> Result<NodeState, MetaError> {
    if cols.state == NODE_STATE_DIR_NORMAL {
        Ok(NodeState::DirNormal)
    } else if cols.state == NODE_STATE_DIR_OVERLAY {
        Ok(NodeState::DirOverlay)
    } else if cols.state == NODE_STATE_FILE_NORMAL {
        Ok(NodeState::FileNormal)
    } else if cols.state == NODE_STATE_WORKING {
        match (cols.fb_handle, cols.last_write_at) {
            (Some(fb_handle), Some(last_write_at)) => Ok(
                NodeState::Working(FileWorkingState { fb_handle, last_write_at }),
            ),
            (None, _) => missing(StateColumn::FbHandle),
            (Some(_), None) => missing(StateColumn::LastWriteAt),
        }
    } else if cols.state == NODE_STATE_COOLING {
        match (cols.fb_handle, cols.closed_at) {
            (Some(fb_handle), Some(closed_at)) => Ok(
                NodeState::Cooling(FileCoolingState { fb_handle, closed_at }),
            ),
            (None, _) => missing(StateColumn::FbHandle),
            (Some(_), None) => missing(StateColumn::ClosedAt),
        }
    } else if cols.state == NODE_STATE_LINKED {
        match (cols.linked_obj_id, cols.linked_qcid, cols.linked_filebuffer_id, cols.linked_at) {
            (Some(obj_id), Some(qcid), Some(filebuffer_id), Some(linked_at)) => Ok(
                NodeState::Linked(FileLinkedState { obj_id, qcid, filebuffer_id, linked_at }),
            ),
            (None, _, _, _) => missing(StateColumn::LinkedObjId),
            (Some(_), None, _, _) => missing(StateColumn::LinkedQcid),
            (Some(_), Some(_), None, _) => missing(StateColumn::LinkedFilebufferId),
            (Some(_), Some(_), Some(_), None) => missing(StateColumn::LinkedAt),
        }
    } else if cols.state == NODE_STATE_FINALIZED {
        match (cols.finalized_obj_id, cols.finalized_at) {
            (Some(obj_id), Some(finalized_at)) => Ok(
                NodeState::Finalized(FinalizedObjState { obj_id, finalized_at }),
            ),
            (None, _) => missing(StateColumn::FinalizedObjId),
            (Some(_), None) => missing(StateColumn::FinalizedAt),
        }
    } else {
        Err(MetaError::InvalidNodeState)
    }
}

/// Writing a state to its columns and reading it back gives the same state.
pub proof fn law_state_columns_round_trip(state: NodeState)
    ensures
        cols_state(state_cols(state)) == Ok::<NodeState, MetaError>(state),
{
}

fn empty_cols(state: i64) -> (r: NodeStateCols)
    ensures
        r == bare_cols(state),
{
    NodeStateCols {
        state,
        fb_handle: None,
        last_write_at: None,
        closed_at: None,
        linked_obj_id: None,
        linked_qcid: None,
        linked_filebuffer_id: None,
        linked_at: None,
        finalized_obj_id: None,
        finalized_at: None,
    }
}

/// Spreads a state over its columns.
pub fn node_state_cols(state: &NodeState) -> (r: NodeStateCols)
    ensures
        r == state_cols(*state),
{
    match state {
        NodeState::DirNormal => empty_cols(NODE_STATE_DIR_NORMAL),
        NodeState::DirOverlay => empty_cols(NODE_STATE_DIR_OVERLAY),
        NodeState::FileNormal => empty_cols(NODE_STATE_FILE_NORMAL),
        NodeState::Working(s) => {
            let mut c: NodeStateCols = empty_cols(NODE_STATE_WORKING);
            c.fb_handle = Some(s.fb_handle.clone());
            c.last_write_at = Some(s.last_write_at);
            c
        },
        NodeState::Cooling(s) => {
            let mut c: NodeStateCols = empty_cols(NODE_STATE_COOLING);
            c.fb_handle = Some(s.fb_handle.clone());
            c.closed_at = Some(s.closed_at);
            c
        },
        NodeState::Linked(s) => {
            let mut c: NodeStateCols = empty_cols(NODE_STATE_LINKED);
            c.linked_obj_id = Some(s.obj_id.dup());
            c.linked_qcid = Some(s.qcid.dup());
            c.linked_filebuffer_id = Some(s.filebuffer_id.clone());
            c.linked_at = Some(s.linked_at);
            c
        },
        NodeState::Finalized(s) => {
            let mut c: NodeStateCols = empty_cols(NODE_STATE_FINALIZED);
            c.finalized_obj_id = Some(s.obj_id.dup());
            c.finalized_at = Some(s.finalized_at);
            c
        },
    }
}

/// Reads the state back from its columns.
pub fn parse_node_state(cols: &NodeStateCols) -> (r: Result<NodeState, MetaError>)
    ensures
        r == cols_state(*cols),
{
    if cols.state == NODE_STATE_DIR_NORMAL {
        Ok(NodeState::DirNormal)
    } else if cols.state == NODE_STATE_DIR_OVERLAY {
        Ok(NodeState::DirOverlay)
    } else if cols.state == NODE_STATE_FILE_NORMAL {
        Ok(NodeState::FileNormal)
    } else if cols.state == NODE_STATE_WORKING {
        match (&cols.fb_handle, &cols.last_write_at) {
            (Some(fb_handle), Some(at)) => Ok(
                NodeState::Working(
                    FileWorkingState { fb_handle: fb_handle.clone(), last_write_at: *at },
                ),
            ),
            (None, _) => Err(MetaError::MissingColumn { column: StateColumn::FbHandle }),
            (Some(_), None) => Err(MetaError::MissingColumn { column: StateColumn::LastWriteAt }),
        }
    } else if cols.state == NODE_STATE_COOLING {
        match (&cols.fb_handle, &cols.closed_at) {
            (Some(fb_handle), Some(at)) => Ok(
                NodeState::Cooling(
                    FileCoolingState { fb_handle: fb_handle.clone(), closed_at: *at },
                ),
            ),
            (None, _) => Err(MetaError::MissingColumn { column: StateColumn::FbHandle }),
            (Some(_), None) => Err(MetaError::MissingColumn { column: StateColumn::ClosedAt }),
        }
    } else if cols.state == NODE_STATE_LINKED {
        match (
            &cols.linked_obj_id,
            &cols.linked_qcid,
            &cols.linked_filebuffer_id,
            &cols.linked_at,
        ) {
            (Some(obj_id), Some(qcid), Some(fb), Some(at)) => Ok(
                NodeState::Linked(
                    FileLinkedState {
                        obj_id: obj_id.dup(),
                        qcid: qcid.dup(),
                        filebuffer_id: fb.clone(),
                        linked_at: *at,
                    },
                ),
            ),
            (None, _, _, _) => Err(MetaError::MissingColumn { column: StateColumn::LinkedObjId }),
            (Some(_), None, _, _) => Err(MetaError::MissingColumn { column: StateColumn::LinkedQcid }),
            (Some(_), Some(_), None, _) => Err(
                MetaError::MissingColumn { column: StateColumn::LinkedFilebufferId },
            ),
            (Some(_), Some(_), Some(_), None) => Err(MetaError::MissingColumn { column: StateColumn::LinkedAt }),
        }
    } else if cols.state == NODE_STATE_FINALIZED {
        match (&cols.finalized_obj_id, &cols.finalized_at) {
            (Some(obj_id), Some(at)) => Ok(
                NodeState::Finalized(
                    FinalizedObjState { obj_id: obj_id.dup(), finalized_at: *at },
                ),
            ),
            (None, _) => Err(MetaError::MissingColumn { column: StateColumn::FinalizedObjId }),
            (Some(_), None) => Err(MetaError::MissingColumn { column: StateColumn::FinalizedAt }),
        }
    } else {
        Err(MetaError::InvalidNodeState)
    }
}

pub open spec fn same_opt_text(a: Option<String>, b: Option<String>) -> bool {
    match (a, b) {
        (Some(x), Some(y)) => x@ == y@,
        (None, None) => true,
        _ => false,
    }
}

pub open spec fn same_opt_obj(a: Option<ObjId>, b: Option<ObjId>) -> bool {
    match (a, b) {
        (Some(x), Some(y)) => x.model() == y.model(),
        (None, None) => true,
        _ => false,
    }
}

pub fn opt_text_eq(a: &Option<String>, b: &Option<String>) -> (r: bool)
    ensures
        r == same_opt_text(*a, *b),
{
    match (a, b) {
        (Some(x), Some(y)) => same_text(x.as_str(), y.as_str()),
        (None, None) => true,
        _ => false,
    }
}

pub fn opt_obj_eq(a: &Option<ObjId>, b: &Option<ObjId>) -> (r: bool)
    ensures
        r == same_opt_obj(*a, *b),
{
    match (a, b) {
        (Some(x), Some(y)) => x.same_key(y),
        (None, None) => true,
        _ => false,
    }
}

pub fn opt_u64_eq(a: &Option<u64>, b: &Option<u64>) -> (r: bool)
    ensures
        r == (*a == *b),
{
    match (a, b) {
        (Some(x), Some(y)) => *x == *y,
        (None, None) => true,
        _ => false,
    }
}

/// The columns hold the same values, one by one.
pub open spec fn same_cols(a: NodeStateCols, b: NodeStateCols) -> bool {
    &&& a.state == b.state
    &&& same_opt_text(a.fb_handle, b.fb_handle)
    &&& a.last_write_at == b.last_write_at
    &&& a.closed_at == b.closed_at
    &&& same_opt_obj(a.linked_obj_id, b.linked_obj_id)
    &&& same_opt_obj(a.linked_qcid, b.linked_qcid)
    &&& same_opt_text(a.linked_filebuffer_id, b.linked_filebuffer_id)
    &&& a.linked_at == b.linked_at
    &&& same_opt_obj(a.finalized_obj_id, b.finalized_obj_id)
    &&& a.finalized_at == b.finalized_at
}

pub fn cols_eq(a: &NodeStateCols, b: &NodeStateCols) -> (r: bool)
    ensures
        r == same_cols(*a, *b),
{
    a.state == b.state && opt_text_eq(&a.fb_handle, &b.fb_handle) && opt_u64_eq(
        &a.last_write_at,
        &b.last_write_at,
    ) && opt_u64_eq(&a.closed_at, &b.closed_at) && opt_obj_eq(&a.linked_obj_id, &b.linked_obj_id)
        && opt_obj_eq(&a.linked_qcid, &b.linked_qcid) && opt_text_eq(
        &a.linked_filebuffer_id,
        &b.linked_filebuffer_id,
    ) && opt_u64_eq(&a.linked_at, &b.linked_at) && opt_obj_eq(
        &a.finalized_obj_id,
        &b.finalized_obj_id,
    ) && opt_u64_eq(&a.finalized_at, &b.finalized_at)
}

impl Dup for NodeStateCols {
    fn dup(&self) -> (r: Self) {
        NodeStateCols {
            state: self.state,
            fb_handle: dup_text(&self.fb_handle),
            last_write_at: self.last_write_at,
            closed_at: self.closed_at,
            linked_obj_id: dup_obj(&self.linked_obj_id),
            linked_qcid: dup_obj(&self.linked_qcid),
            linked_filebuffer_id: dup_text(&self.linked_filebuffer_id),
            linked_at: self.linked_at,
            finalized_obj_id: dup_obj(&self.finalized_obj_id),
            finalized_at: self.finalized_at,
        }
    }
}

} // verus!
