//! Naming a buffer's content and moving it into the object store.
//!
//! Hashing, the store, the metadata service and the disk are outside.  A
//! [`NameTask`] says which of them is to be asked next, and the functions beside
//! it say with what.

use vstd::prelude::*;
use crate::buffer::{
    BufferError, BuffersView, ChunkId, DiffView, FileBufferRecord, LocalFileBufferService,
    RecordView,
};
use crate::buffer_layout::{content_id, ChunkSegment, ContentLayout};
use crate::records::{FileLinkedState, FinalizedObjState, NodeState, ObjId};
use crate::table::Dup;
use crate::text::{decimal, decimal_text, joined};

verus! {

/// The file object under which the content of an inode is published.
#[derive(Debug, Clone, PartialEq, Eq)]
pub struct FileObject {
    pub name: String,
    pub size: u64,
    pub content: ObjId,
}

/// The file object of `inode` with this content.
pub fn file_object(inode: u64, size: u64, layout: &ContentLayout) -> (r: FileObject)
    ensures
        r.name@ == "inode-"@ + decimal(inode as nat),
        r.size == size,
        r.content == content_id(layout@),
{
    FileObject {
        name: joined("inode-", decimal_text(inode).as_str()),
        size,
        content: layout.content_obj_id(),
    }
}

/// All that is known of a buffer's content once it has a name.
#[derive(Debug, Clone, PartialEq, Eq)]
pub struct FinalizeData {
    pub file_inode_id: u64,
    pub file_size: u64,
    pub diff_file_path: String,
    pub content_layout: ContentLayout,
    pub file_obj_id: ObjId,
    pub qcid: ChunkId,
    pub linked_at: u64,
}

/// When the content counts as linked: a link made before keeps its time.
pub open spec fn link_time(existing_linked_at: Option<u64>, now: u64) -> u64 {
    match existing_linked_at {
        Some(at) => at,
        None => now,
    }
}

/// Gathers what was computed.  `sample` is the sampled id of the file, which
/// only files of some size have that lie on no earlier version; for the others
/// the first chunk stands in.
pub fn build_finalize_data(
    fb: &FileBufferRecord,
    file_size: u64,
    content_layout: ContentLayout,
    file_obj_id: ObjId,
    sample: Option<ChunkId>,
    existing_linked_at: Option<u64>,
    now: u64,
) -> (r: Result<FinalizeData, BufferError>)
    ensures
        match r {
            Ok(d) => {
                &&& sample is Some || content_layout@.segments.len() > 0
                &&& d.file_inode_id == fb.file_inode_id
                &&& d.file_size == file_size
                &&& d.diff_file_path@ == fb.diff_file_path@
                &&& d.content_layout == content_layout
                &&& d.file_obj_id == file_obj_id
                &&& d.qcid == if sample is Some {
                    sample->0
                } else {
                    content_layout@.segments[0].chunk_id
                }
                &&& d.linked_at == link_time(existing_linked_at, now)
            },
            Err(e) => {
                &&& sample is None && content_layout@.segments.len() == 0
                &&& e == if fb@.base is Some {
                    BufferError::EmptyListForQcid
                } else {
                    BufferError::EmptyListForFallback
                }
            },
        },
{
    let qcid: ChunkId = match sample {
        Some(id) => id,
        None => match content_layout.qcid_from_content_layout() {
            Ok(id) => id,
            Err(e) => {
                return Err(
                    if fb.base_reader.is_overlay() {
                        e
                    } else {
                        BufferError::EmptyListForFallback
                    },
                );
            },
        },
    };
    let linked_at: u64 = match existing_linked_at {
        Some(at) => at,
        None => now,
    };
    Ok(
        FinalizeData {
            file_inode_id: fb.file_inode_id,
            file_size,
            diff_file_path: fb.diff_file_path.clone(),
            content_layout,
            file_obj_id,
            qcid,
            linked_at,
        },
    )
}

/// The part of the buffer's file that holds a chunk.
pub fn link_range(segment: &ChunkSegment) -> (r: (u64, u64))
    requires
        segment.offset + segment.size <= u64::MAX,
    ensures
        r == (segment.offset, (segment.offset + segment.size) as u64),
{
    (segment.offset, segment.offset + segment.size)
}

/// How to read the next chunk: where to go first, if anywhere, and how much to take.
#[derive(Debug, Clone, Copy, PartialEq, Eq, Structural)]
pub struct ChunkRead {
    pub seek: Option<u64>,
    pub len: u64,
}

pub open spec fn put_after(cursor: u64, segment: ChunkSegment, have: bool) -> (
    u64,
    Option<ChunkRead>,
) {
    if have {
        (cursor, None)
    } else {
        (
            if segment.offset + segment.size > u64::MAX {
                u64::MAX
            } else {
                (segment.offset + segment.size) as u64
            },
            Some(
                ChunkRead {
                    seek: if cursor == segment.offset {
                        None
                    } else {
                        Some(segment.offset)
                    },
                    len: segment.size,
                },
            ),
        )
    }
}

/// Decides what to read for one chunk when the file stands at `cursor`; a chunk
/// that the store has is passed over.  Gives the new place in the file.
pub fn put_step(cursor: u64, segment: &ChunkSegment, have: bool) -> (r: (u64, Option<ChunkRead>))
    ensures
        r == put_after(cursor, *segment, have),
{
    if have {
        return (cursor, None);
    }
    let seek: Option<u64> = if cursor != segment.offset {
        Some(segment.offset)
    } else {
        None
    };
    (segment.offset.saturating_add(segment.size), Some(ChunkRead { seek, len: segment.size }))
}

/// The buffer once its content is published by links to its file.
pub open spec fn linked(fb: RecordView, d: FinalizeData) -> RecordView {
    RecordView {
        diff: DiffView {
            linked_obj_id: Some(d.file_obj_id),
            linked_qcid: Some(d.qcid),
            linked_at: Some(d.linked_at),
            finalized_at: None,
            ..fb.diff
        },
        ..fb
    }
}

/// The buffer once its content is in the store.
pub open spec fn finalized(fb: RecordView, d: FinalizeData, now: u64) -> RecordView {
    RecordView {
        read_only: true,
        diff: DiffView {
            linked_obj_id: Some(d.file_obj_id),
            linked_qcid: Some(d.qcid),
            linked_at: Some(d.linked_at),
            finalized_at: Some(now),
            ..fb.diff
        },
        ..fb
    }
}

/// The state that the metadata service is told of a linked file.
pub fn linked_state(d: &FinalizeData, handle_id: &String) -> (r: NodeState)
    ensures
        r == NodeState::Linked(
            FileLinkedState {
                obj_id: d.file_obj_id,
                qcid: d.qcid.obj_id,
                filebuffer_id: *handle_id,
                linked_at: d.linked_at,
            },
        ),
{
    NodeState::Linked(
        FileLinkedState {
            obj_id: d.file_obj_id.dup(),
            qcid: d.qcid.to_obj_id(),
            filebuffer_id: handle_id.clone(),
            linked_at: d.linked_at,
        },
    )
}

/// The state that the metadata service is told of a finalized file.
pub fn finalized_state(d: &FinalizeData, finalized_at: u64) -> (r: NodeState)
    ensures
        r == NodeState::Finalized(FinalizedObjState { obj_id: d.file_obj_id, finalized_at }),
{
    NodeState::Finalized(FinalizedObjState { obj_id: d.file_obj_id.dup(), finalized_at })
}

impl LocalFileBufferService {
    /// Marks a buffer as linked.  The record in the index follows, where there is
    /// one; the caller's copy is marked in any case.
    pub fn mark_linked(&mut self, fb: &FileBufferRecord, d: &FinalizeData) -> (r: FileBufferRecord)
        requires
            old(self).inv(),
        ensures
            final(self).inv(),
            r@ == linked(fb@, *d),
            final(self)@ == (BuffersView {
                records: if old(self)@.records.contains_key(fb@.handle_id) {
                    old(self)@.records.insert(
                        fb@.handle_id,
                        linked(old(self)@.records[fb@.handle_id], *d),
                    )
                } else {
                    old(self)@.records
                },
                ..old(self)@
            }),
    {
        if let Ok(rec) = self.get_record(&fb.handle_id) {
            let marked: FileBufferRecord = rec.with_link(d);
            let ghost mv = marked@;
            self.records.put(fb.handle_id.clone(), marked);
            assert(self@.records =~= old(self)@.records.insert(fb@.handle_id, mv));
        }
        fb.with_link(d)
    }

    /// Marks the buffer `handle_id` as finalized and closes it for writing.
    /// Gives the record that is to be stored.
    pub fn do_finalize(&mut self, handle_id: &String, d: &FinalizeData, now: u64) -> (r: Result<
        FileBufferRecord,
        BufferError,
    >)
        requires
            old(self).inv(),
        ensures
            final(self).inv(),
            match r {
                Ok(rec) => {
                    &&& old(self)@.records.contains_key(handle_id@)
                    &&& rec@ == finalized(old(self)@.records[handle_id@], *d, now)
                    &&& final(self)@ == (BuffersView {
                        records: old(self)@.records.insert(handle_id@, rec@),
                        ..old(self)@
                    })
                },
                Err(e) => {
                    &&& !old(self)@.records.contains_key(handle_id@)
                    &&& e == (BufferError::NotFound { handle: *handle_id })
                    &&& final(self)@ == old(self)@
                },
            },
    {
        let rec: FileBufferRecord = self.get_record(handle_id)?;
        let mut marked: FileBufferRecord = rec.with_link(d);
        marked.read_only = true;
        marked.diff_state.finalized_at = Some(now);
        let ghost mv = marked@;
        let out: FileBufferRecord = marked.copy();
        self.records.put(handle_id.clone(), marked);
        assert(mv == finalized(old(self)@.records[handle_id@], *d, now));
        assert(self@.records =~= old(self)@.records.insert(handle_id@, mv));
        Ok(out)
    }
}

impl FileBufferRecord {
    fn with_link(&self, d: &FinalizeData) -> (r: Self)
        ensures
            r@ == linked(self@, *d),
    {
        let mut rec: FileBufferRecord = self.copy();
        rec.diff_state.linked_obj_id = Some(d.file_obj_id.dup());
        rec.diff_state.linked_qcid = Some(d.qcid.dup());
        rec.diff_state.linked_at = Some(d.linked_at);
        rec.diff_state.finalized_at = None;
        rec
    }
}

/// The sizes that decide how content is named: of a chunk, and from which size
/// on a file has a sampled id.
#[derive(Debug, Clone, Copy, PartialEq, Eq, Structural)]
pub struct ChunkLimits {
    pub chunk_size: u64,
    pub min_sample_size: u64,
}

/// Up to two chunks go straight into the store.
pub open spec fn is_direct(limits: ChunkLimits, file_size: u64) -> bool {
    file_size <= 2 * limits.chunk_size
}

/// What the driver is to do next for a buffer.
#[derive(Debug, Clone, Copy, PartialEq, Eq, Structural)]
pub enum BufferCall {
    /// Bring the file and the record to disk.
    Flush,
    /// Cut and hash the buffer's own file; the reply tells its size.
    HashFile,
    /// Merge the buffer with the chunks under it; the reply tells the size.
    MergeOverlay,
    /// Take the sampled id of the file.
    SampleFile,
    /// Copy the chunks (of an overlay: those written) into the store.
    PutChunks,
    /// Link the chunks (of an overlay: those written) to the buffer's file.
    PutLinks,
    /// Store the chunk list, if there is one, and the file object.
    PutObjects,
    /// Mark the buffer as linked and store its record.
    StoreLinked,
    /// Mark the buffer as finalized and store its record.
    StoreFinalized,
    /// Read the inode's state from the metadata service and move it on to the
    /// linked state.
    TellLinked,
    /// The same with the finalized state.
    TellFinalized,
    /// Give the bytes of the buffer's file back and delete it.
    DropFile,
}

/// How a call went.
#[derive(Debug, Clone, Copy, PartialEq, Eq, Structural)]
pub enum BufferReply {
    Done,
    Size(u64),
    Failed,
}

/// How a task stands: a call to make, or its end.
#[derive(Debug, Clone, Copy, PartialEq, Eq, Structural)]
pub enum BufferProgress {
    Call(BufferCall),
    /// The content has a name; `finalized` says whether it is in the store.
    Named { finalized: bool },
    /// The last call failed, and its error is the task's.
    Stopped,
}

/// Naming a buffer (`cacl_name`) or moving a named one into the store
/// (`finalize`).
#[derive(Debug, Clone, Copy, PartialEq, Eq, Structural)]
pub struct NameTask {
    pub limits: ChunkLimits,
    pub has_store: bool,
    pub has_meta: bool,
    /// The task was asked to finalize, whatever the size.
    pub must_finalize: bool,
    pub is_overlay: bool,
    pub was_linked: bool,
    pub was_finalized: bool,
    /// The size of the content, once known.
    pub size: u64,
    /// The call that was made last.
    pub last: BufferCall,
}

/// Whether the content goes straight into the store.
pub open spec fn goes_direct(t: NameTask) -> bool {
    t.must_finalize || is_direct(t.limits, t.size)
}

pub open spec fn asks(t: NameTask, call: BufferCall) -> (NameTask, BufferProgress) {
    (NameTask { last: call, ..t }, BufferProgress::Call(call))
}

pub open spec fn ends(t: NameTask, finalized: bool) -> (NameTask, BufferProgress) {
    (t, BufferProgress::Named { finalized })
}

/// What follows once the content is hashed.
pub open spec fn after_hash(t: NameTask) -> (NameTask, BufferProgress) {
    if !t.has_store {
        after_objects(t)
    } else if goes_direct(t) {
        asks(t, BufferCall::PutChunks)
    } else {
        asks(t, BufferCall::PutLinks)
    }
}

/// What follows once the store has what it needs.
pub open spec fn after_objects(t: NameTask) -> (NameTask, BufferProgress) {
    if goes_direct(t) {
        asks(t, BufferCall::StoreFinalized)
    } else {
        asks(t, BufferCall::StoreLinked)
    }
}

/// What follows a call that went well.
pub open spec fn after_call(t: NameTask, size: Option<u64>) -> (NameTask, BufferProgress) {
    match t.last {
        BufferCall::Flush => if t.was_finalized {
            ends(t, true)
        } else if t.was_linked {
            ends(t, false)
        } else if t.is_overlay {
            asks(t, BufferCall::MergeOverlay)
        } else {
            asks(t, BufferCall::HashFile)
        },
        BufferCall::HashFile | BufferCall::MergeOverlay => match size {
            None => (t, BufferProgress::Stopped),
            Some(size) => {
                let t = NameTask { size, ..t };
                if t.last == BufferCall::HashFile && size >= t.limits.min_sample_size {
                    asks(t, BufferCall::SampleFile)
                } else {
                    after_hash(t)
                }
            },
        },
        BufferCall::SampleFile => after_hash(t),
        BufferCall::PutChunks | BufferCall::PutLinks => asks(t, BufferCall::PutObjects),
        BufferCall::PutObjects => after_objects(t),
        BufferCall::StoreLinked => if t.has_meta {
            asks(t, BufferCall::TellLinked)
        } else {
            ends(t, false)
        },
        BufferCall::TellLinked => ends(t, false),
        BufferCall::StoreFinalized => if t.has_meta {
            asks(t, BufferCall::TellFinalized)
        } else {
            asks(t, BufferCall::DropFile)
        },
        BufferCall::TellFinalized => asks(t, BufferCall::DropFile),
        BufferCall::DropFile => ends(t, true),
    }
}

/// One step of a task, on the reply to its last call.
pub open spec fn name_step(t: NameTask, reply: BufferReply) -> (NameTask, BufferProgress) {
    match reply {
        BufferReply::Failed => (t, BufferProgress::Stopped),
        BufferReply::Done => after_call(t, None),
        BufferReply::Size(n) => after_call(t, Some(n)),
    }
}

/// The task that names the content of `fb`.
pub open spec fn naming(v: BuffersView, fb: RecordView, limits: ChunkLimits) -> NameTask {
    NameTask {
        limits,
        has_store: v.has_store,
        has_meta: v.has_meta,
        must_finalize: false,
        is_overlay: fb.base is Some,
        was_linked: fb.diff.linked_obj_id is Some,
        was_finalized: fb.diff.finalized_at is Some,
        size: 0,
        last: BufferCall::Flush,
    }
}

/// The task that finalizes `fb`, and its first step.
pub open spec fn finalizing(v: BuffersView, fb: RecordView, limits: ChunkLimits) -> (
    NameTask,
    BufferProgress,
) {
    let t = NameTask { must_finalize: true, ..naming(v, fb, limits) };
    if t.was_finalized {
        ends(t, true)
    } else if t.is_overlay {
        asks(t, BufferCall::MergeOverlay)
    } else {
        asks(t, BufferCall::HashFile)
    }
}

impl LocalFileBufferService {
    /// Starts naming a buffer.  Its record is flushed first.
    pub fn cacl_name(&self, fb: &FileBufferRecord, limits: ChunkLimits) -> (r: (
        NameTask,
        BufferProgress,
    ))
        ensures
            r == asks(naming(self@, fb@, limits), BufferCall::Flush),
    {
        let task: NameTask = NameTask {
            limits,
            has_store: self.has_store,
            has_meta: self.has_meta,
            must_finalize: false,
            is_overlay: fb.base_reader.is_overlay(),
            was_linked: fb.diff_state.linked_obj_id.is_some(),
            was_finalized: fb.diff_state.finalized_at.is_some(),
            size: 0,
            last: BufferCall::Flush,
        };
        (task, BufferProgress::Call(BufferCall::Flush))
    }

    /// Starts finalizing the buffer `handle_id`.  One that is finalized already
    /// is left as it is.
    pub fn finalize(&self, handle_id: &String, limits: ChunkLimits) -> (r: Result<
        (NameTask, BufferProgress),
        BufferError,
    >)
        requires
            self.inv(),
        ensures
            match r {
                Ok(step) => {
                    &&& self@.records.contains_key(handle_id@)
                    &&& step == finalizing(self@, self@.records[handle_id@], limits)
                },
                Err(e) => {
                    &&& !self@.records.contains_key(handle_id@)
                    &&& e == (BufferError::NotFound { handle: *handle_id })
                },
            },
    {
        let fb: FileBufferRecord = self.get_record(handle_id)?;
        let (started, _) = self.cacl_name(&fb, limits);
        let mut task: NameTask = started;
        task.must_finalize = true;
        if task.was_finalized {
            return Ok((task, BufferProgress::Named { finalized: true }));
        }
        if task.is_overlay {
            Ok(task.ask(BufferCall::MergeOverlay))
        } else {
            Ok(task.ask(BufferCall::HashFile))
        }
    }
}

impl NameTask {
    fn ask(self, call: BufferCall) -> (r: (NameTask, BufferProgress))
        ensures
            r == asks(self, call),
    {
        let mut t: NameTask = self;
        t.last = call;
        (t, BufferProgress::Call(call))
    }

    fn direct(&self) -> (r: bool)
        ensures
            r == goes_direct(*self),
    {
        self.must_finalize || self.size <= self.limits.chunk_size || self.size
            - self.limits.chunk_size <= self.limits.chunk_size
    }

    fn then_store(self) -> (r: (NameTask, BufferProgress))
        ensures
            r == after_objects(self),
    {
        if self.direct() {
            self.ask(BufferCall::StoreFinalized)
        } else {
            self.ask(BufferCall::StoreLinked)
        }
    }

    fn then_put(self) -> (r: (NameTask, BufferProgress))
        ensures
            r == after_hash(self),
    {
        if !self.has_store {
            self.then_store()
        } else if self.direct() {
            self.ask(BufferCall::PutChunks)
        } else {
            self.ask(BufferCall::PutLinks)
        }
    }

    /// Takes the reply to the last call and says what comes next.
    pub fn step(self, reply: BufferReply) -> (r: (NameTask, BufferProgress))
        ensures
            r == name_step(self, reply),
    {
        let size: Option<u64> = match reply {
            BufferReply::Failed => {
                return (self, BufferProgress::Stopped);
            },
            BufferReply::Done => None,
            BufferReply::Size(n) => Some(n),
        };
        match self.last {
            BufferCall::Flush => {
                if self.was_finalized {
                    (self, BufferProgress::Named { finalized: true })
                } else if self.was_linked {
                    (self, BufferProgress::Named { finalized: false })
                } else if self.is_overlay {
                    self.ask(BufferCall::MergeOverlay)
                } else {
                    self.ask(BufferCall::HashFile)
                }
            },
            BufferCall::HashFile => match size {
                None => (self, BufferProgress::Stopped),
                Some(n) => {
                    let mut t: NameTask = self;
                    t.size = n;
                    if n >= t.limits.min_sample_size {
                        t.ask(BufferCall::SampleFile)
                    } else {
                        t.then_put()
                    }
                },
            },
            BufferCall::MergeOverlay => match size {
                None => (self, BufferProgress::Stopped),
                Some(n) => {
                    let mut t: NameTask = self;
                    t.size = n;
                    t.then_put()
                },
            },
            BufferCall::SampleFile => self.then_put(),
            BufferCall::PutChunks | BufferCall::PutLinks => self.ask(BufferCall::PutObjects),
            BufferCall::PutObjects => self.then_store(),
            BufferCall::StoreLinked => {
                if self.has_meta {
                    self.ask(BufferCall::TellLinked)
                } else {
                    (self, BufferProgress::Named { finalized: false })
                }
            },
            BufferCall::TellLinked => (self, BufferProgress::Named { finalized: false }),
            BufferCall::StoreFinalized => {
                if self.has_meta {
                    self.ask(BufferCall::TellFinalized)
                } else {
                    self.ask(BufferCall::DropFile)
                }
            },
            BufferCall::TellFinalized => self.ask(BufferCall::DropFile),
            BufferCall::DropFile => (self, BufferProgress::Named { finalized: true }),
        }
    }
}

} // verus!
