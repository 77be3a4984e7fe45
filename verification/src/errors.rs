//! Reasons for which the metadata engine turns a request down.

use vstd::prelude::*;
use crate::records::{NodeState, ObjId};
use crate::table::Dup;
use crate::text::{decimal, decimal_text, joined, quote, quoted};

verus! {

/// What went wrong with the directory object under a directory.
#[derive(Debug, Clone, Copy, PartialEq, Eq, Structural)]
pub enum LoadStep {
    Load,
    Parse,
    Child,
    Keep,
}

impl LoadStep {
    pub open spec fn text(&self) -> Seq<char> {
        match *self {
            LoadStep::Load => "failed to load base DirObject: "@,
            LoadStep::Parse => "failed to parse base DirObject: "@,
            LoadStep::Child => "invalid base child entry: "@,
            LoadStep::Keep => "failed to cache embedded child object: "@,
        }
    }

    /// The same, where the children go into a new directory object.
    pub open spec fn text_in_finalize(&self) -> Seq<char> {
        match *self {
            LoadStep::Load => "failed to load base DirObject: "@,
            LoadStep::Parse => "failed to parse base DirObject: "@,
            LoadStep::Child => "invalid base child: "@,
            LoadStep::Keep => "failed to cache embedded base child object: "@,
        }
    }

    pub fn message(&self) -> (r: String)
        ensures
            r@ == self.text(),
    {
        match self {
            LoadStep::Load => "failed to load base DirObject: ".to_owned(),
            LoadStep::Parse => "failed to parse base DirObject: ".to_owned(),
            LoadStep::Child => "invalid base child entry: ".to_owned(),
            LoadStep::Keep => "failed to cache embedded child object: ".to_owned(),
        }
    }

    pub fn message_in_finalize(&self) -> (r: String)
        ensures
            r@ == self.text_in_finalize(),
    {
        match self {
            LoadStep::Load => "failed to load base DirObject: ".to_owned(),
            LoadStep::Parse => "failed to parse base DirObject: ".to_owned(),
            LoadStep::Child => "invalid base child: ".to_owned(),
            LoadStep::Keep => "failed to cache embedded base child object: ".to_owned(),
        }
    }
}

/// The step of a request at which another refusal came up.
#[derive(Debug, Clone, Copy, PartialEq, Eq, Structural)]
pub enum Stage {
    RootInode,
    Inode,
    BaseChild,
    AllocInode,
    UpsertTarget,
    SymlinkChild,
}

impl Stage {
    pub open spec fn text(&self) -> Seq<char> {
        match *self {
            Stage::RootInode => "failed to get root inode: "@,
            Stage::Inode => "failed to get inode: "@,
            Stage::BaseChild => "failed to lookup base child: "@,
            Stage::AllocInode => "failed to alloc inode: "@,
            Stage::UpsertTarget => "failed to upsert dentry target: "@,
            Stage::SymlinkChild => "resolve symlink child failed: "@,
        }
    }

    pub fn message(&self) -> (r: String)
        ensures
            r@ == self.text(),
    {
        match self {
            Stage::RootInode => "failed to get root inode: ".to_owned(),
            Stage::Inode => "failed to get inode: ".to_owned(),
            Stage::BaseChild => "failed to lookup base child: ".to_owned(),
            Stage::AllocInode => "failed to alloc inode: ".to_owned(),
            Stage::UpsertTarget => "failed to upsert dentry target: ".to_owned(),
            Stage::SymlinkChild => "resolve symlink child failed: ".to_owned(),
        }
    }
}

/// The refusal `e`, met at `stage`.
pub open spec fn at_stage(stage: Stage, e: MetaError) -> MetaError {
    MetaError::At { stage, cause: Box::new(e) }
}

/// A column of a node row that its state needs.
#[derive(Debug, Clone, Copy, PartialEq, Eq, Structural)]
pub enum StateColumn {
    FbHandle,
    LastWriteAt,
    ClosedAt,
    LinkedObjId,
    LinkedQcid,
    LinkedFilebufferId,
    LinkedAt,
    FinalizedObjId,
    FinalizedAt,
}

impl StateColumn {
    /// Its place among the columns that are read, and its name.
    pub open spec fn text(&self) -> Seq<char> {
        match *self {
            StateColumn::FbHandle => "9, name: fb_handle"@,
            StateColumn::LastWriteAt => "10, name: last_write_at"@,
            StateColumn::ClosedAt => "11, name: closed_at"@,
            StateColumn::LinkedObjId => "12, name: linked_obj_id"@,
            StateColumn::LinkedQcid => "13, name: linked_qcid"@,
            StateColumn::LinkedFilebufferId => "14, name: linked_filebuffer_id"@,
            StateColumn::LinkedAt => "15, name: linked_at"@,
            StateColumn::FinalizedObjId => "16, name: finalized_obj_id"@,
            StateColumn::FinalizedAt => "17, name: finalized_at"@,
        }
    }

    pub fn message(&self) -> (r: String)
        ensures
            r@ == self.text(),
    {
        match self {
            StateColumn::FbHandle => "9, name: fb_handle".to_owned(),
            StateColumn::LastWriteAt => "10, name: last_write_at".to_owned(),
            StateColumn::ClosedAt => "11, name: closed_at".to_owned(),
            StateColumn::LinkedObjId => "12, name: linked_obj_id".to_owned(),
            StateColumn::LinkedQcid => "13, name: linked_qcid".to_owned(),
            StateColumn::LinkedFilebufferId => "14, name: linked_filebuffer_id".to_owned(),
            StateColumn::LinkedAt => "15, name: linked_at".to_owned(),
            StateColumn::FinalizedObjId => "16, name: finalized_obj_id".to_owned(),
            StateColumn::FinalizedAt => "17, name: finalized_at".to_owned(),
        }
    }
}

/// An object id as it is shown in messages.
pub open spec fn obj_text(id: ObjId) -> Seq<char> {
    "ObjId { obj_type: "@ + quoted(id.obj_type@) + ", obj_hash: "@ + quoted(id.obj_hash@) + " }"@
}

fn message_of_obj(id: &ObjId) -> (r: String)
    ensures
        r@ == obj_text(*id),
{
    let mut out: String = joined("ObjId { obj_type: ", quote(&id.obj_type).as_str());
    out.append(", obj_hash: ");
    out.append(quote(&id.obj_hash).as_str());
    out.append(" }");
    out
}

/// A state as it is shown in messages, with all that it holds.
pub open spec fn state_text(state: NodeState) -> Seq<char> {
    match state {
        NodeState::DirNormal => "DirNormal"@,
        NodeState::DirOverlay => "DirOverlay"@,
        NodeState::FileNormal => "FileNormal"@,
        NodeState::Working(s) => "Working(FileWorkingState { fb_handle: "@ + quoted(s.fb_handle@)
            + ", last_write_at: "@ + decimal(s.last_write_at as nat) + " })"@,
        NodeState::Cooling(s) => "Cooling(FileCoolingState { fb_handle: "@ + quoted(s.fb_handle@)
            + ", closed_at: "@ + decimal(s.closed_at as nat) + " })"@,
        NodeState::Linked(s) => "Linked(FileLinkedState { obj_id: "@ + obj_text(s.obj_id)
            + ", qcid: "@ + obj_text(s.qcid) + ", filebuffer_id: "@ + quoted(s.filebuffer_id@)
            + ", linked_at: "@ + decimal(s.linked_at as nat) + " })"@,
        NodeState::Finalized(s) => "Finalized(FinalizedObjState { obj_id: "@ + obj_text(s.obj_id)
            + ", finalized_at: "@ + decimal(s.finalized_at as nat) + " })"@,
    }
}

fn message_of_state(state: &NodeState) -> (r: String)
    ensures
        r@ == state_text(*state),
{
    match state {
        NodeState::DirNormal => "DirNormal".to_owned(),
        NodeState::DirOverlay => "DirOverlay".to_owned(),
        NodeState::FileNormal => "FileNormal".to_owned(),
        NodeState::Working(s) => {
            let mut out: String = joined(
                "Working(FileWorkingState { fb_handle: ",
                quote(&s.fb_handle).as_str(),
            );
            out.append(", last_write_at: ");
            out.append(decimal_text(s.last_write_at).as_str());
            out.append(" })");
            out
        },
        NodeState::Cooling(s) => {
            let mut out: String = joined(
                "Cooling(FileCoolingState { fb_handle: ",
                quote(&s.fb_handle).as_str(),
            );
            out.append(", closed_at: ");
            out.append(decimal_text(s.closed_at).as_str());
            out.append(" })");
            out
        },
        NodeState::Linked(s) => {
            let mut out: String = joined(
                "Linked(FileLinkedState { obj_id: ",
                message_of_obj(&s.obj_id).as_str(),
            );
            out.append(", qcid: ");
            out.append(message_of_obj(&s.qcid).as_str());
            out.append(", filebuffer_id: ");
            out.append(quote(&s.filebuffer_id).as_str());
            out.append(", linked_at: ");
            out.append(decimal_text(s.linked_at).as_str());
            out.append(" })");
            out
        },
        NodeState::Finalized(s) => {
            let mut out: String = joined(
                "Finalized(FinalizedObjState { obj_id: ",
                message_of_obj(&s.obj_id).as_str(),
            );
            out.append(", finalized_at: ");
            out.append(decimal_text(s.finalized_at).as_str());
            out.append(" })");
            out
        },
    }
}

/// Why a request was refused.  [`MetaError::message`] gives the text that goes
/// to the caller.
#[derive(Debug, PartialEq, Eq)]
pub enum MetaError {
    InvalidNodeState,
    InvalidMetaJson { cause: String },
    MissingColumn { column: StateColumn },
    MissingTargetInode,
    MissingTargetObj,
    MissingSymlinkPath,
    InvalidSymlinkBytes { cause: String },
    InvalidDentryTarget,
    UniqueInodeTarget,
    InodeIdTaken,
    InodeIdsExhausted,
    DentryIdsExhausted,
    CounterOverflow,
    TxidNotFound,
    TxnClosing,
    TxnAlreadyClosing,
    TxnBusy,
    TxnBeginBusy,
    ParentInodeNotFound,
    RevMismatch,
    DentryExists,
    InodeNotFound,
    InodeReferenced,
    DentryNotFound,
    TargetMismatch,
    RevMismatchOrMissing,
    StateConflict,
    LeaseConflict,
    LeaseMismatch,
    RefCountNegative,
    CannotRemoveRoot,
    InvalidPath,
    InvalidName,
    InvalidLinkPath,
    InvalidTargetPath,
    ParentDirNotFound,
    ParentNotFound,
    ParentNotDir,
    ParentReadOnly,
    PathExists { parent: u64, name: String },
    NotDirObject,
    NotFound,
    ReadOnly,
    Conflict,
    BufferNotConfigured,
    InstanceNotConfigured,
    StoreNotConfigured,
    NoStoreForBase,
    InvalidBaseType { obj_type: String },
    BaseLookupFailed { cause: String },
    BaseLoadFailed { step: LoadStep, cause: String },
    BaseTakeFailed { step: LoadStep, cause: String },
    PathIsDir,
    PathNotFile,
    PathIsSymlink,
    PathNotFound,
    PathNotDir,
    FileNotFound { resume: bool, parent: u64, name: String },
    FileExists { parent: u64, name: String },
    AlreadyWriting,
    NotResumable { state: NodeState },
    UnexpectedContinueState,
    BufferGone { handle: String },
    AllocBufferFailed { cause: String },
    GetBufferFailed { cause: String },
    CloseBufferFailed { cause: String },
    NotAFile,
    NotWritable,
    NoReadableContent,
    ExistingInodeNotFound,
    ExistsNotDir { name: String },
    NotDirectory { what: String },
    NotDirObjectComponent { name: String },
    FinalizeRoot,
    DirectoryNotFound,
    DirectoryInodeNotFound,
    ChildInodeNotFound { id: u64 },
    BuildDirObjectFailed { cause: String },
    StoreDirObjectFailed { cause: String },
    ParentGoneDuringFinalize,
    ParentRevChanged,
    DentryGoneDuringFinalize,
    TargetChangedDuringFinalize,
    DirGoneDuringFinalize,
    DirRevChanged,
    ListSessionNotFound,
    /// Another refusal, met at a step of the request.
    At { stage: Stage, cause: Box<MetaError> },
}

impl Clone for MetaError {
    fn clone(&self) -> (r: Self)
        ensures
            r == *self,
        decreases self,
    {
        match self {
            MetaError::InvalidNodeState => MetaError::InvalidNodeState,
            MetaError::InvalidMetaJson { cause } => MetaError::InvalidMetaJson {
                cause: cause.clone(),
            },
            MetaError::MissingColumn { column } => MetaError::MissingColumn { column: *column },
            MetaError::MissingTargetInode => MetaError::MissingTargetInode,
            MetaError::MissingTargetObj => MetaError::MissingTargetObj,
            MetaError::MissingSymlinkPath => MetaError::MissingSymlinkPath,
            MetaError::InvalidSymlinkBytes { cause } => MetaError::InvalidSymlinkBytes {
                cause: cause.clone(),
            },
            MetaError::InvalidDentryTarget => MetaError::InvalidDentryTarget,
            MetaError::UniqueInodeTarget => MetaError::UniqueInodeTarget,
            MetaError::InodeIdTaken => MetaError::InodeIdTaken,
            MetaError::InodeIdsExhausted => MetaError::InodeIdsExhausted,
            MetaError::DentryIdsExhausted => MetaError::DentryIdsExhausted,
            MetaError::CounterOverflow => MetaError::CounterOverflow,
            MetaError::TxidNotFound => MetaError::TxidNotFound,
            MetaError::TxnClosing => MetaError::TxnClosing,
            MetaError::TxnAlreadyClosing => MetaError::TxnAlreadyClosing,
            MetaError::TxnBusy => MetaError::TxnBusy,
            MetaError::TxnBeginBusy => MetaError::TxnBeginBusy,
            MetaError::ParentInodeNotFound => MetaError::ParentInodeNotFound,
            MetaError::RevMismatch => MetaError::RevMismatch,
            MetaError::DentryExists => MetaError::DentryExists,
            MetaError::InodeNotFound => MetaError::InodeNotFound,
            MetaError::InodeReferenced => MetaError::InodeReferenced,
            MetaError::DentryNotFound => MetaError::DentryNotFound,
            MetaError::TargetMismatch => MetaError::TargetMismatch,
            MetaError::RevMismatchOrMissing => MetaError::RevMismatchOrMissing,
            MetaError::StateConflict => MetaError::StateConflict,
            MetaError::LeaseConflict => MetaError::LeaseConflict,
            MetaError::LeaseMismatch => MetaError::LeaseMismatch,
            MetaError::RefCountNegative => MetaError::RefCountNegative,
            MetaError::CannotRemoveRoot => MetaError::CannotRemoveRoot,
            MetaError::InvalidPath => MetaError::InvalidPath,
            MetaError::InvalidName => MetaError::InvalidName,
            MetaError::InvalidLinkPath => MetaError::InvalidLinkPath,
            MetaError::InvalidTargetPath => MetaError::InvalidTargetPath,
            MetaError::ParentDirNotFound => MetaError::ParentDirNotFound,
            MetaError::ParentNotFound => MetaError::ParentNotFound,
            MetaError::ParentNotDir => MetaError::ParentNotDir,
            MetaError::ParentReadOnly => MetaError::ParentReadOnly,
            MetaError::PathExists { parent, name } => MetaError::PathExists {
                parent: *parent,
                name: name.clone(),
            },
            MetaError::NotDirObject => MetaError::NotDirObject,
            MetaError::NotFound => MetaError::NotFound,
            MetaError::ReadOnly => MetaError::ReadOnly,
            MetaError::Conflict => MetaError::Conflict,
            MetaError::BufferNotConfigured => MetaError::BufferNotConfigured,
            MetaError::InstanceNotConfigured => MetaError::InstanceNotConfigured,
            MetaError::StoreNotConfigured => MetaError::StoreNotConfigured,
            MetaError::NoStoreForBase => MetaError::NoStoreForBase,
            MetaError::InvalidBaseType { obj_type } => MetaError::InvalidBaseType {
                obj_type: obj_type.clone(),
            },
            MetaError::BaseLookupFailed { cause } => MetaError::BaseLookupFailed {
                cause: cause.clone(),
            },
            MetaError::BaseLoadFailed { step, cause } => MetaError::BaseLoadFailed {
                step: *step,
                cause: cause.clone(),
            },
            MetaError::BaseTakeFailed { step, cause } => MetaError::BaseTakeFailed {
                step: *step,
                cause: cause.clone(),
            },
            MetaError::PathIsDir => MetaError::PathIsDir,
            MetaError::PathNotFile => MetaError::PathNotFile,
            MetaError::PathIsSymlink => MetaError::PathIsSymlink,
            MetaError::PathNotFound => MetaError::PathNotFound,
            MetaError::PathNotDir => MetaError::PathNotDir,
            MetaError::FileNotFound { resume, parent, name } => MetaError::FileNotFound {
                resume: *resume,
                parent: *parent,
                name: name.clone(),
            },
            MetaError::FileExists { parent, name } => MetaError::FileExists {
                parent: *parent,
                name: name.clone(),
            },
            MetaError::AlreadyWriting => MetaError::AlreadyWriting,
            MetaError::NotResumable { state } => MetaError::NotResumable { state: state.dup() },
            MetaError::UnexpectedContinueState => MetaError::UnexpectedContinueState,
            MetaError::BufferGone { handle } => MetaError::BufferGone { handle: handle.clone() },
            MetaError::AllocBufferFailed { cause } => MetaError::AllocBufferFailed {
                cause: cause.clone(),
            },
            MetaError::GetBufferFailed { cause } => MetaError::GetBufferFailed {
                cause: cause.clone(),
            },
            MetaError::CloseBufferFailed { cause } => MetaError::CloseBufferFailed {
                cause: cause.clone(),
            },
            MetaError::NotAFile => MetaError::NotAFile,
            MetaError::NotWritable => MetaError::NotWritable,
            MetaError::NoReadableContent => MetaError::NoReadableContent,
            MetaError::ExistingInodeNotFound => MetaError::ExistingInodeNotFound,
            MetaError::ExistsNotDir { name } => MetaError::ExistsNotDir { name: name.clone() },
            MetaError::NotDirectory { what } => MetaError::NotDirectory { what: what.clone() },
            MetaError::NotDirObjectComponent { name } => MetaError::NotDirObjectComponent {
                name: name.clone(),
            },
            MetaError::FinalizeRoot => MetaError::FinalizeRoot,
            MetaError::DirectoryNotFound => MetaError::DirectoryNotFound,
            MetaError::DirectoryInodeNotFound => MetaError::DirectoryInodeNotFound,
            MetaError::ChildInodeNotFound { id } => MetaError::ChildInodeNotFound { id: *id },
            MetaError::BuildDirObjectFailed { cause } => MetaError::BuildDirObjectFailed {
                cause: cause.clone(),
            },
            MetaError::StoreDirObjectFailed { cause } => MetaError::StoreDirObjectFailed {
                cause: cause.clone(),
            },
            MetaError::ParentGoneDuringFinalize => MetaError::ParentGoneDuringFinalize,
            MetaError::ParentRevChanged => MetaError::ParentRevChanged,
            MetaError::DentryGoneDuringFinalize => MetaError::DentryGoneDuringFinalize,
            MetaError::TargetChangedDuringFinalize => MetaError::TargetChangedDuringFinalize,
            MetaError::DirGoneDuringFinalize => MetaError::DirGoneDuringFinalize,
            MetaError::DirRevChanged => MetaError::DirRevChanged,
            MetaError::ListSessionNotFound => MetaError::ListSessionNotFound,
            MetaError::At { stage, cause } => MetaError::At {
                stage: *stage,
                cause: Box::new((&**cause).clone()),
            },
        }
    }
}

/// `#parent/name`, the way an entry is named in messages.
pub open spec fn entry_text(parent: u64, name: Seq<char>) -> Seq<char> {
    "#"@ + decimal(parent as nat) + "/"@ + name
}

pub fn entry_label(parent: u64, name: &str) -> (r: String)
    ensures
        r@ == entry_text(parent, name@),
{
    let mut out: String = joined("#", decimal_text(parent).as_str());
    out.append("/");
    out.append(name);
    out
}

impl MetaError {
    pub open spec fn text(&self) -> Seq<char>
        decreases self,
    {
        match *self {
            MetaError::InvalidNodeState => "invalid node state"@,
            MetaError::InvalidMetaJson { cause } => "invalid meta json: "@ + cause@,
            MetaError::MissingColumn { column } =>
                "db error: Invalid column type Null at index: "@ + column.text(),
            MetaError::MissingTargetInode => "missing target_inode_id"@,
            MetaError::MissingTargetObj => "missing target_obj_id"@,
            MetaError::MissingSymlinkPath => "missing symlink target path"@,
            MetaError::InvalidSymlinkBytes { cause } => "invalid symlink path bytes: "@ + cause@,
            MetaError::InvalidDentryTarget => "invalid dentry target"@,
            MetaError::UniqueInodeTarget =>
                "db error: UNIQUE constraint failed: dentries.target_inode_id"@,
            MetaError::InodeIdTaken => "db error: UNIQUE constraint failed: nodes.inode_id"@,
            MetaError::InodeIdsExhausted => "db error: inode ids exhausted"@,
            MetaError::DentryIdsExhausted => "db error: database or disk is full"@,
            MetaError::CounterOverflow => "db error: integer overflow"@,
            MetaError::TxidNotFound => "txid not found"@,
            MetaError::TxnClosing => "transaction is closing"@,
            MetaError::TxnAlreadyClosing => "transaction already closing"@,
            MetaError::TxnBusy => "db error: database is locked"@,
            MetaError::TxnBeginBusy => "begin txn failed: database is locked"@,
            MetaError::ParentInodeNotFound => "parent inode not found"@,
            MetaError::RevMismatch => "rev mismatch"@,
            MetaError::DentryExists => "dentry already exists"@,
            MetaError::InodeNotFound => "inode not found"@,
            MetaError::InodeReferenced => "inode already referenced by another dentry"@,
            MetaError::DentryNotFound => "dentry not found"@,
            MetaError::TargetMismatch => "dentry target mismatch"@,
            MetaError::RevMismatchOrMissing => "rev mismatch or inode not found"@,
            MetaError::StateConflict => "inode state conflict"@,
            MetaError::LeaseConflict => "lease conflict"@,
            MetaError::LeaseMismatch => "lease mismatch"@,
            MetaError::RefCountNegative => "ref_count would be negative"@,
            MetaError::CannotRemoveRoot => "cannot remove root inode"@,
            MetaError::InvalidPath => "invalid path"@,
            MetaError::InvalidName => "invalid name"@,
            MetaError::InvalidLinkPath => "invalid link path"@,
            MetaError::InvalidTargetPath => "invalid target path"@,
            MetaError::ParentDirNotFound => "parent directory not found"@,
            MetaError::ParentNotFound => "parent not found"@,
            MetaError::ParentNotDir => "parent is not a directory"@,
            MetaError::ParentReadOnly => "parent is read-only"@,
            MetaError::PathExists { parent, name } => "path "@ + entry_text(parent, name@)
                + " already exists"@,
            MetaError::NotDirObject => "set_dir requires a DirObject id"@,
            MetaError::NotFound => "not found"@,
            MetaError::ReadOnly => "read only"@,
            MetaError::Conflict => "conflict"@,
            MetaError::BufferNotConfigured => "buffer service not configured"@,
            MetaError::InstanceNotConfigured => "instance not configured"@,
            MetaError::StoreNotConfigured => "named store manager not configured"@,
            MetaError::NoStoreForBase =>
                "named store manager not configured for DirObject traversal"@,
            MetaError::InvalidBaseType { obj_type } =>
                "invalid base_obj_id type for directory inode: "@ + obj_type@,
            MetaError::BaseLookupFailed { cause } => "failed to lookup base DirObject child: "@ + cause@,
            MetaError::BaseLoadFailed { step, cause } => step.text() + cause@,
            MetaError::BaseTakeFailed { step, cause } => step.text_in_finalize() + cause@,
            MetaError::PathIsDir => "path is a directory"@,
            MetaError::PathNotFile => "path is not a file"@,
            MetaError::PathIsSymlink => "path is a symbolic link"@,
            MetaError::PathNotFound => "path not found"@,
            MetaError::PathNotDir => "path is not a directory"@,
            MetaError::FileNotFound { resume, parent, name } => (if resume {
                "file not found for ContinueWrite: "@
            } else {
                "file not found for Append: "@
            }) + entry_text(parent, name@),
            MetaError::FileExists { parent, name } => "file already exists: "@ + entry_text(
                parent,
                name@,
            ),
            MetaError::AlreadyWriting => "file is already being written"@,
            MetaError::NotResumable { state } =>
                "ContinueWrite requires Working or Cooling state, current: "@ + state_text(state),
            MetaError::UnexpectedContinueState => "unexpected state for ContinueWrite"@,
            MetaError::BufferGone { handle } => "buffer "@ + handle@
                + " not found for ContinueWrite, may have been cleaned up"@,
            MetaError::AllocBufferFailed { cause } => "failed to alloc buffer: "@ + cause@,
            MetaError::GetBufferFailed { cause } => "failed to get buffer: "@ + cause@,
            MetaError::CloseBufferFailed { cause } => "failed to close buffer: "@ + cause@,
            MetaError::NotAFile => "not a file"@,
            MetaError::NotWritable => "file is not writable"@,
            MetaError::NoReadableContent => "no readable content"@,
            MetaError::ExistingInodeNotFound => "existing inode not found"@,
            MetaError::ExistsNotDir { name } => name@ + " exists and is not a directory"@,
            MetaError::NotDirectory { what } => what@ + " is not a directory"@,
            MetaError::NotDirObjectComponent { name } => "path component "@ + name@
                + " points to non-directory object"@,
            MetaError::FinalizeRoot => "finalize root directory is not supported"@,
            MetaError::DirectoryNotFound => "directory not found"@,
            MetaError::DirectoryInodeNotFound => "directory inode not found"@,
            MetaError::ChildInodeNotFound { id } => "child inode "@ + decimal(id as nat)
                + " not found"@,
            MetaError::BuildDirObjectFailed { cause } => "build dir object failed: "@ + cause@,
            MetaError::StoreDirObjectFailed { cause } => "store dir object failed: "@ + cause@,
            MetaError::ParentGoneDuringFinalize => "parent inode missing during finalize"@,
            MetaError::ParentRevChanged => "parent rev changed during finalize"@,
            MetaError::DentryGoneDuringFinalize => "directory dentry missing during finalize"@,
            MetaError::TargetChangedDuringFinalize => "directory target changed during finalize"@,
            MetaError::DirGoneDuringFinalize => "directory inode missing during finalize"@,
            MetaError::DirRevChanged => "directory rev changed during finalize"@,
            MetaError::ListSessionNotFound => "list session not found"@,
            MetaError::At { stage, cause } => stage.text() + cause.text(),
        }
    }

    /// The text reported to the caller.
    pub fn message(&self) -> (r: String)
        ensures
            r@ == self.text(),
        decreases self,
    {
        match self {
            MetaError::InvalidNodeState => "invalid node state".to_owned(),
            MetaError::InvalidMetaJson { cause } => joined("invalid meta json: ", cause.as_str()),
            MetaError::MissingColumn { column } => joined(
                "db error: Invalid column type Null at index: ",
                column.message().as_str(),
            ),
            MetaError::MissingTargetInode => "missing target_inode_id".to_owned(),
            MetaError::MissingTargetObj => "missing target_obj_id".to_owned(),
            MetaError::MissingSymlinkPath => "missing symlink target path".to_owned(),
            MetaError::InvalidSymlinkBytes { cause } => joined(
                "invalid symlink path bytes: ",
                cause.as_str(),
            ),
            MetaError::InvalidDentryTarget => "invalid dentry target".to_owned(),
            MetaError::UniqueInodeTarget =>
                "db error: UNIQUE constraint failed: dentries.target_inode_id".to_owned(),
            MetaError::InodeIdTaken =>
                "db error: UNIQUE constraint failed: nodes.inode_id".to_owned(),
            MetaError::InodeIdsExhausted => "db error: inode ids exhausted".to_owned(),
            MetaError::DentryIdsExhausted => "db error: database or disk is full".to_owned(),
            MetaError::CounterOverflow => "db error: integer overflow".to_owned(),
            MetaError::TxidNotFound => "txid not found".to_owned(),
            MetaError::TxnClosing => "transaction is closing".to_owned(),
            MetaError::TxnAlreadyClosing => "transaction already closing".to_owned(),
            MetaError::TxnBusy => "db error: database is locked".to_owned(),
            MetaError::TxnBeginBusy => "begin txn failed: database is locked".to_owned(),
            MetaError::ParentInodeNotFound => "parent inode not found".to_owned(),
            MetaError::RevMismatch => "rev mismatch".to_owned(),
            MetaError::DentryExists => "dentry already exists".to_owned(),
            MetaError::InodeNotFound => "inode not found".to_owned(),
            MetaError::InodeReferenced => "inode already referenced by another dentry".to_owned(),
            MetaError::DentryNotFound => "dentry not found".to_owned(),
            MetaError::TargetMismatch => "dentry target mismatch".to_owned(),
            MetaError::RevMismatchOrMissing => "rev mismatch or inode not found".to_owned(),
            MetaError::StateConflict => "inode state conflict".to_owned(),
            MetaError::LeaseConflict => "lease conflict".to_owned(),
            MetaError::LeaseMismatch => "lease mismatch".to_owned(),
            MetaError::RefCountNegative => "ref_count would be negative".to_owned(),
            MetaError::CannotRemoveRoot => "cannot remove root inode".to_owned(),
            MetaError::InvalidPath => "invalid path".to_owned(),
            MetaError::InvalidName => "invalid name".to_owned(),
            MetaError::InvalidLinkPath => "invalid link path".to_owned(),
            MetaError::InvalidTargetPath => "invalid target path".to_owned(),
            MetaError::ParentDirNotFound => "parent directory not found".to_owned(),
            MetaError::ParentNotFound => "parent not found".to_owned(),
            MetaError::ParentNotDir => "parent is not a directory".to_owned(),
            MetaError::ParentReadOnly => "parent is read-only".to_owned(),
            MetaError::PathExists { parent, name } => {
                let mut out: String = joined("path ", entry_label(*parent, name.as_str()).as_str());
                out.append(" already exists");
                out
            },
            MetaError::NotDirObject => "set_dir requires a DirObject id".to_owned(),
            MetaError::NotFound => "not found".to_owned(),
            MetaError::ReadOnly => "read only".to_owned(),
            MetaError::Conflict => "conflict".to_owned(),
            MetaError::BufferNotConfigured => "buffer service not configured".to_owned(),
            MetaError::InstanceNotConfigured => "instance not configured".to_owned(),
            MetaError::StoreNotConfigured => "named store manager not configured".to_owned(),
            MetaError::NoStoreForBase =>
                "named store manager not configured for DirObject traversal".to_owned(),
            MetaError::InvalidBaseType { obj_type } => joined(
                "invalid base_obj_id type for directory inode: ",
                obj_type.as_str(),
            ),
            MetaError::BaseLookupFailed { cause } => joined(
                "failed to lookup base DirObject child: ",
                cause.as_str(),
            ),
            MetaError::BaseLoadFailed { step, cause } => joined(
                step.message().as_str(),
                cause.as_str(),
            ),
            MetaError::BaseTakeFailed { step, cause } => joined(
                step.message_in_finalize().as_str(),
                cause.as_str(),
            ),
            MetaError::PathIsDir => "path is a directory".to_owned(),
            MetaError::PathNotFile => "path is not a file".to_owned(),
            MetaError::PathIsSymlink => "path is a symbolic link".to_owned(),
            MetaError::PathNotFound => "path not found".to_owned(),
            MetaError::PathNotDir => "path is not a directory".to_owned(),
            MetaError::FileNotFound { resume, parent, name } => joined(
                if *resume {
                    "file not found for ContinueWrite: "
                } else {
                    "file not found for Append: "
                },
                entry_label(*parent, name.as_str()).as_str(),
            ),
            MetaError::FileExists { parent, name } => joined(
                "file already exists: ",
                entry_label(*parent, name.as_str()).as_str(),
            ),
            MetaError::AlreadyWriting => "file is already being written".to_owned(),
            MetaError::NotResumable { state } => joined(
                "ContinueWrite requires Working or Cooling state, current: ",
                message_of_state(state).as_str(),
            ),
            MetaError::UnexpectedContinueState => "unexpected state for ContinueWrite".to_owned(),
            MetaError::BufferGone { handle } => {
                let mut out: String = joined("buffer ", handle.as_str());
                out.append(" not found for ContinueWrite, may have been cleaned up");
                out
            },
            MetaError::AllocBufferFailed { cause } => joined(
                "failed to alloc buffer: ",
                cause.as_str(),
            ),
            MetaError::GetBufferFailed { cause } => joined(
                "failed to get buffer: ",
                cause.as_str(),
            ),
            MetaError::CloseBufferFailed { cause } => joined(
                "failed to close buffer: ",
                cause.as_str(),
            ),
            MetaError::NotAFile => "not a file".to_owned(),
            MetaError::NotWritable => "file is not writable".to_owned(),
            MetaError::NoReadableContent => "no readable content".to_owned(),
            MetaError::ExistingInodeNotFound => "existing inode not found".to_owned(),
            MetaError::ExistsNotDir { name } => joined(
                name.as_str(),
                " exists and is not a directory",
            ),
            MetaError::NotDirectory { what } => joined(what.as_str(), " is not a directory"),
            MetaError::NotDirObjectComponent { name } => {
                let mut out: String = joined("path component ", name.as_str());
                out.append(" points to non-directory object");
                out
            },
            MetaError::FinalizeRoot => "finalize root directory is not supported".to_owned(),
            MetaError::DirectoryNotFound => "directory not found".to_owned(),
            MetaError::DirectoryInodeNotFound => "directory inode not found".to_owned(),
            MetaError::ChildInodeNotFound { id } => {
                let mut out: String = joined("child inode ", decimal_text(*id).as_str());
                out.append(" not found");
                out
            },
            MetaError::BuildDirObjectFailed { cause } => joined(
                "build dir object failed: ",
                cause.as_str(),
            ),
            MetaError::StoreDirObjectFailed { cause } => joined(
                "store dir object failed: ",
                cause.as_str(),
            ),
            MetaError::ParentGoneDuringFinalize =>
                "parent inode missing during finalize".to_owned(),
            MetaError::ParentRevChanged => "parent rev changed during finalize".to_owned(),
            MetaError::DentryGoneDuringFinalize =>
                "directory dentry missing during finalize".to_owned(),
            MetaError::TargetChangedDuringFinalize =>
                "directory target changed during finalize".to_owned(),
            MetaError::DirGoneDuringFinalize =>
                "directory inode missing during finalize".to_owned(),
            MetaError::DirRevChanged => "directory rev changed during finalize".to_owned(),
            MetaError::ListSessionNotFound => "list session not found".to_owned(),
            MetaError::At { stage, cause } => joined(
                stage.message().as_str(),
                cause.message().as_str(),
            ),
        }
    }
}

} // verus!
