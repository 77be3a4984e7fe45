//! Write buffers: the record of each buffer, how a service keeps them, and how
//! much they may hold.

use vstd::prelude::*;
use vstd::utf8::encode_utf8;
use crate::records::{dup_obj, ObjId};
use crate::service::next_seq;
use crate::table::{Dup, Table};
use crate::text::{decimal, decimal_text, joined};

verus! {

/// A chunk of content: its object id, and its length where the id carries it.
#[derive(Debug, Clone, PartialEq, Eq)]
pub struct ChunkId {
    pub obj_id: ObjId,
    pub length: Option<u64>,
}

impl Dup for ChunkId {
    fn dup(&self) -> (r: Self) {
        ChunkId { obj_id: self.obj_id.dup(), length: self.length }
    }
}

impl ChunkId {
    pub fn get_length(&self) -> (r: Option<u64>)
        ensures
            r == self.length,
    {
        self.length
    }

    pub fn to_obj_id(&self) -> (r: ObjId)
        ensures
            r == self.obj_id,
    {
        self.obj_id.dup()
    }
}

pub fn dup_chunk(s: &Option<ChunkId>) -> (r: Option<ChunkId>)
    ensures
        r == *s,
{
    match s {
        Some(v) => Some(v.dup()),
        None => None,
    }
}

/// An exact copy, element by element.
pub fn dup_all<T: Dup>(v: &Vec<T>) -> (r: Vec<T>)
    ensures
        r@ == v@,
{
    let mut out: Vec<T> = Vec::new();
    let mut i: usize = 0;
    while i < v.len()
        invariant
            0 <= i <= v.len(),
            out@ =~= v@.take(i as int),
        decreases v.len() - i,
    {
        out.push(v[i].dup());
        i = i + 1;
    }
    assert(out@ =~= v@);
    out
}

/// Why a buffer request was turned down.
#[derive(Debug, Clone, PartialEq, Eq)]
pub enum BufferError {
    ReadOnly,
    AppendOverBase,
    CapacityExceeded,
    NotFound { handle: String },
    OverlaySizeMissing,
    BaseSizeMissing,
    NoBaseList,
    ListSizeMismatch { expect: u64, got: u64 },
    MergedCountMismatch { sizes: u64, ids: u64 },
    MergedEmpty,
    EmptyListForQcid,
    EmptyListForFallback,
}

impl BufferError {
    pub open spec fn text(self) -> Seq<char> {
        match self {
            BufferError::ReadOnly => "file buffer is read-only"@,
            BufferError::AppendOverBase =>
                "append with base chunk list is handled by DiffChunkListWriter"@,
            BufferError::CapacityExceeded => "buffer capacity exceeded"@,
            BufferError::NotFound { handle } => "buffer not found: "@ + handle@,
            BufferError::OverlaySizeMissing =>
                "overlay chunk size missing in diff_state and base chunk id"@,
            BufferError::BaseSizeMissing =>
                "overlay base chunk size missing in diff_state and base chunk id"@,
            BufferError::NoBaseList => "overlay finalize context requires base chunk list"@,
            BufferError::ListSizeMismatch { expect, got } =>
                "chunk list total size mismatch, expect "@ + decimal(expect as nat) + " got "@
                    + decimal(got as nat),
            BufferError::MergedCountMismatch { sizes, ids } =>
                "overlay merged chunk size count "@ + decimal(sizes as nat)
                    + " mismatch chunk id count "@ + decimal(ids as nat),
            BufferError::MergedEmpty => "overlay merged chunk list is empty"@,
            BufferError::EmptyListForQcid => "empty chunk list for qcid"@,
            BufferError::EmptyListForFallback => "empty chunk list for qcid fallback"@,
        }
    }

    /// The text reported to the caller.
    pub fn message(&self) -> (r: String)
        ensures
            r@ == self.text(),
    {
        match self {
            BufferError::ReadOnly => "file buffer is read-only".to_owned(),
            BufferError::AppendOverBase =>
                "append with base chunk list is handled by DiffChunkListWriter".to_owned(),
            BufferError::CapacityExceeded => "buffer capacity exceeded".to_owned(),
            BufferError::NotFound { handle } => joined("buffer not found: ", handle.as_str()),
            BufferError::OverlaySizeMissing =>
                "overlay chunk size missing in diff_state and base chunk id".to_owned(),
            BufferError::BaseSizeMissing =>
                "overlay base chunk size missing in diff_state and base chunk id".to_owned(),
            BufferError::NoBaseList =>
                "overlay finalize context requires base chunk list".to_owned(),
            BufferError::ListSizeMismatch { expect, got } => {
                let mut out: String = joined(
                    "chunk list total size mismatch, expect ",
                    decimal_text(*expect).as_str(),
                );
                out.append(" got ");
                out.append(decimal_text(*got).as_str());
                out
            },
            BufferError::MergedCountMismatch { sizes, ids } => {
                let mut out: String = joined(
                    "overlay merged chunk size count ",
                    decimal_text(*sizes).as_str(),
                );
                out.append(" mismatch chunk id count ");
                out.append(decimal_text(*ids).as_str());
                out
            },
            BufferError::MergedEmpty => "overlay merged chunk list is empty".to_owned(),
            BufferError::EmptyListForQcid => "empty chunk list for qcid".to_owned(),
            BufferError::EmptyListForFallback => "empty chunk list for qcid fallback".to_owned(),
        }
    }
}

/// What has been written into a buffer, and what became of it.
#[derive(Debug, Clone, PartialEq, Eq)]
pub struct FileBufferDiffState {
    pub chunk_indices: Vec<u64>,
    pub diff_chunk_sizes: Vec<u64>,
    pub base_chunk_sizes: Vec<u64>,
    pub merged_chunk_sizes: Vec<u64>,
    pub position: u64,
    pub total_size: u64,
    pub auto_cache: bool,
    pub local_mode: bool,
    pub fixed_chunk_size: Option<u64>,
    pub append_merge_last_chunk: bool,
    pub linked_obj_id: Option<ObjId>,
    pub linked_qcid: Option<ChunkId>,
    pub linked_at: Option<u64>,
    pub finalized_at: Option<u64>,
}

#[verifier::ext_equal]
pub ghost struct DiffView {
    pub chunk_indices: Seq<u64>,
    pub diff_chunk_sizes: Seq<u64>,
    pub base_chunk_sizes: Seq<u64>,
    pub merged_chunk_sizes: Seq<u64>,
    pub position: u64,
    pub total_size: u64,
    pub auto_cache: bool,
    pub local_mode: bool,
    pub fixed_chunk_size: Option<u64>,
    pub append_merge_last_chunk: bool,
    pub linked_obj_id: Option<ObjId>,
    pub linked_qcid: Option<ChunkId>,
    pub linked_at: Option<u64>,
    pub finalized_at: Option<u64>,
}

/// The state of a buffer to which nothing was written.
pub open spec fn fresh_diff() -> DiffView {
    DiffView {
        chunk_indices: Seq::empty(),
        diff_chunk_sizes: Seq::empty(),
        base_chunk_sizes: Seq::empty(),
        merged_chunk_sizes: Seq::empty(),
        position: 0,
        total_size: 0,
        auto_cache: false,
        local_mode: false,
        fixed_chunk_size: None,
        append_merge_last_chunk: false,
        linked_obj_id: None,
        linked_qcid: None,
        linked_at: None,
        finalized_at: None,
    }
}

impl View for FileBufferDiffState {
    type V = DiffView;

    open spec fn view(&self) -> DiffView {
        DiffView {
            chunk_indices: self.chunk_indices@,
            diff_chunk_sizes: self.diff_chunk_sizes@,
            base_chunk_sizes: self.base_chunk_sizes@,
            merged_chunk_sizes: self.merged_chunk_sizes@,
            position: self.position,
            total_size: self.total_size,
            auto_cache: self.auto_cache,
            local_mode: self.local_mode,
            fixed_chunk_size: self.fixed_chunk_size,
            append_merge_last_chunk: self.append_merge_last_chunk,
            linked_obj_id: self.linked_obj_id,
            linked_qcid: self.linked_qcid,
            linked_at: self.linked_at,
            finalized_at: self.finalized_at,
        }
    }
}

impl Default for FileBufferDiffState {
    fn default() -> (r: Self)
        ensures
            r@ == fresh_diff(),
    {
        FileBufferDiffState {
            chunk_indices: Vec::new(),
            diff_chunk_sizes: Vec::new(),
            base_chunk_sizes: Vec::new(),
            merged_chunk_sizes: Vec::new(),
            position: 0,
            total_size: 0,
            auto_cache: false,
            local_mode: false,
            fixed_chunk_size: None,
            append_merge_last_chunk: false,
            linked_obj_id: None,
            linked_qcid: None,
            linked_at: None,
            finalized_at: None,
        }
    }
}

impl FileBufferDiffState {
    pub fn copy(&self) -> (r: Self)
        ensures
            r@ == self@,
    {
        FileBufferDiffState {
            chunk_indices: dup_all(&self.chunk_indices),
            diff_chunk_sizes: dup_all(&self.diff_chunk_sizes),
            base_chunk_sizes: dup_all(&self.base_chunk_sizes),
            merged_chunk_sizes: dup_all(&self.merged_chunk_sizes),
            position: self.position,
            total_size: self.total_size,
            auto_cache: self.auto_cache,
            local_mode: self.local_mode,
            fixed_chunk_size: self.fixed_chunk_size,
            append_merge_last_chunk: self.append_merge_last_chunk,
            linked_obj_id: dup_obj(&self.linked_obj_id),
            linked_qcid: dup_chunk(&self.linked_qcid),
            linked_at: self.linked_at,
            finalized_at: self.finalized_at,
        }
    }
}

/// What lies under a buffer: nothing, or the chunks of the file as it was.
#[derive(Debug, Clone, PartialEq, Eq)]
pub enum FileBufferBaseReader {
    NoBase,
    BaseChunkList(Vec<ChunkId>),
}

/// The chunks under the buffer, where there are any.
pub open spec fn base_chunks(reader: FileBufferBaseReader) -> Option<Seq<ChunkId>> {
    match reader {
        FileBufferBaseReader::NoBase => None,
        FileBufferBaseReader::BaseChunkList(ids) => Some(ids@),
    }
}

impl Default for FileBufferBaseReader {
    fn default() -> (r: Self)
        ensures
            r is NoBase,
    {
        FileBufferBaseReader::NoBase
    }
}

impl FileBufferBaseReader {
    pub fn copy(&self) -> (r: Self)
        ensures
            base_chunks(r) == base_chunks(*self),
    {
        match self {
            FileBufferBaseReader::NoBase => FileBufferBaseReader::NoBase,
            FileBufferBaseReader::BaseChunkList(ids) => FileBufferBaseReader::BaseChunkList(
                dup_all(ids),
            ),
        }
    }

    /// Whether the buffer lies over chunks of an earlier version.
    pub fn is_overlay(&self) -> (r: bool)
        ensures
            r == base_chunks(*self) is Some,
    {
        match self {
            FileBufferBaseReader::NoBase => false,
            FileBufferBaseReader::BaseChunkList(_) => true,
        }
    }
}

/// A buffer as it is kept on disk.
#[derive(Debug, Clone, PartialEq, Eq)]
pub struct FileBufferRecordMeta {
    pub handle_id: String,
    pub file_inode_id: u64,
    pub base_reader: FileBufferBaseReader,
    pub read_only: bool,
    pub diff_file_path: String,
    pub diff_state: FileBufferDiffState,
}

/// A buffer as the service keeps it in memory.
#[derive(Debug, Clone, PartialEq, Eq)]
pub struct FileBufferRecord {
    pub handle_id: String,
    pub file_inode_id: u64,
    pub base_reader: FileBufferBaseReader,
    pub read_only: bool,
    pub diff_file_path: String,
    pub diff_state: FileBufferDiffState,
}

#[verifier::ext_equal]
pub ghost struct RecordView {
    pub handle_id: Seq<char>,
    pub file_inode_id: u64,
    pub base: Option<Seq<ChunkId>>,
    pub read_only: bool,
    pub diff_file_path: Seq<char>,
    pub diff: DiffView,
}

impl View for FileBufferRecordMeta {
    type V = RecordView;

    open spec fn view(&self) -> RecordView {
        RecordView {
            handle_id: self.handle_id@,
            file_inode_id: self.file_inode_id,
            base: base_chunks(self.base_reader),
            read_only: self.read_only,
            diff_file_path: self.diff_file_path@,
            diff: self.diff_state@,
        }
    }
}

impl View for FileBufferRecord {
    type V = RecordView;

    open spec fn view(&self) -> RecordView {
        RecordView {
            handle_id: self.handle_id@,
            file_inode_id: self.file_inode_id,
            base: base_chunks(self.base_reader),
            read_only: self.read_only,
            diff_file_path: self.diff_file_path@,
            diff: self.diff_state@,
        }
    }
}

impl FileBufferRecord {
    /// The form that goes to disk; nothing is lost on the way.
    pub fn to_meta(&self) -> (r: FileBufferRecordMeta)
        ensures
            r@ == self@,
    {
        FileBufferRecordMeta {
            handle_id: self.handle_id.clone(),
            file_inode_id: self.file_inode_id,
            base_reader: self.base_reader.copy(),
            read_only: self.read_only,
            diff_file_path: self.diff_file_path.clone(),
            diff_state: self.diff_state.copy(),
        }
    }

    /// The record that was stored as `meta`.
    pub fn from_meta(meta: FileBufferRecordMeta) -> (r: Self)
        ensures
            r@ == meta@,
    {
        FileBufferRecord {
            handle_id: meta.handle_id,
            file_inode_id: meta.file_inode_id,
            base_reader: meta.base_reader,
            read_only: meta.read_only,
            diff_file_path: meta.diff_file_path,
            diff_state: meta.diff_state,
        }
    }

    pub fn copy(&self) -> (r: Self)
        ensures
            r@ == self@,
    {
        FileBufferRecord {
            handle_id: self.handle_id.clone(),
            file_inode_id: self.file_inode_id,
            base_reader: self.base_reader.copy(),
            read_only: self.read_only,
            diff_file_path: self.diff_file_path.clone(),
            diff_state: self.diff_state.copy(),
        }
    }

    /// Whether the buffer may still be changed.
    pub fn ensure_writable(&self) -> (r: Result<(), BufferError>)
        ensures
            r == (if self.read_only {
                Err::<(), BufferError>(BufferError::ReadOnly)
            } else {
                Ok(())
            }),
    {
        if self.read_only {
            return Err(BufferError::ReadOnly);
        }
        Ok(())
    }

    /// Whether bytes may be added at the end of the buffer's file.  Over a list
    /// of base chunks the chunk writer does that.
    pub fn check_append(&self) -> (r: Result<(), BufferError>)
        ensures
            r == append_verdict(self@),
    {
        self.ensure_writable()?;
        if self.base_reader.is_overlay() {
            return Err(BufferError::AppendOverBase);
        }
        Ok(())
    }
}

pub open spec fn append_verdict(fb: RecordView) -> Result<(), BufferError> {
    if fb.read_only {
        Err(BufferError::ReadOnly)
    } else if fb.base is Some {
        Err(BufferError::AppendOverBase)
    } else {
        Ok(())
    }
}

/// How a caller names a buffer.
#[derive(Debug, Clone, PartialEq, Eq)]
pub struct FileBufferId {
    pub handle_id: String,
    pub base_chunk_list: Vec<ChunkId>,
    pub size: Option<u64>,
}

/// The 64-bit FNV-1a hash of `bytes`, started at `seed`.
pub open spec fn fnv1a(seed: u64, bytes: Seq<u8>) -> u64
    decreases bytes.len(),
{
    if bytes.len() == 0 {
        seed
    } else {
        let h = fnv1a(seed, bytes.drop_last()) ^ (bytes.last() as u64);
        ((h * 0x100000001b3) % 0x1_0000_0000_0000_0000) as u64
    }
}

pub const FNV_SEED: u64 = 0xcbf29ce484222325;

pub open spec fn hex_digit(d: int) -> char {
    if d < 10 {
        (48 + d) as char
    } else {
        (87 + d) as char
    }
}

/// The directory in which a buffer's file lies: two hex digits of the hash of
/// its handle.
pub open spec fn prefix_of(handle: Seq<char>) -> Seq<char> {
    let b = (fnv1a(FNV_SEED, encode_utf8(handle)) % 256) as int;
    seq![hex_digit(b / 16), hex_digit(b % 16)]
}

fn hex_text(d: u64) -> (r: &'static str)
    requires
        d < 16,
    ensures
        r@ == seq![hex_digit(d as int)],
{
    proof {
        reveal_strlit("0");
        reveal_strlit("1");
        reveal_strlit("2");
        reveal_strlit("3");
        reveal_strlit("4");
        reveal_strlit("5");
        reveal_strlit("6");
        reveal_strlit("7");
        reveal_strlit("8");
        reveal_strlit("9");
        reveal_strlit("a");
        reveal_strlit("b");
        reveal_strlit("c");
        reveal_strlit("d");
        reveal_strlit("e");
        reveal_strlit("f");
    }
    let r: &'static str = match d {
        0 => "0",
        1 => "1",
        2 => "2",
        3 => "3",
        4 => "4",
        5 => "5",
        6 => "6",
        7 => "7",
        8 => "8",
        9 => "9",
        10 => "a",
        11 => "b",
        12 => "c",
        13 => "d",
        14 => "e",
        _ => "f",
    };
    assert(r@ =~= seq![hex_digit(d as int)]);
    r
}

pub fn buffer_prefix(handle_id: &str) -> (r: String)
    ensures
        r@ == prefix_of(handle_id@),
{
    let bytes: &[u8] = handle_id.as_bytes();
    let mut hash: u64 = FNV_SEED;
    let mut i: usize = 0;
    while i < bytes.len()
        invariant
            0 <= i <= bytes@.len(),
            hash == fnv1a(FNV_SEED, bytes@.take(i as int)),
        decreases bytes@.len() - i,
    {
        proof {
            assert(bytes@.take(i + 1).drop_last() =~= bytes@.take(i as int));
            assert(bytes@.take(i + 1).last() == bytes@[i as int]);
        }
        hash = hash ^ (bytes[i] as u64);
        hash = hash.wrapping_mul(0x100000001b3);
        i = i + 1;
    }
    assert(bytes@.take(i as int) =~= bytes@);
    let low: u64 = hash % 256;
    let mut out: String = hex_text(low / 16).to_owned();
    out.append(hex_text(low % 16));
    assert(out@ =~= prefix_of(handle_id@));
    out
}

/// The file of the buffer `handle` under the directory `dir`.
pub open spec fn buffer_path_of(dir: Seq<char>, handle: Seq<char>) -> Seq<char> {
    dir + "/"@ + prefix_of(handle) + "/"@ + handle + ".buf"@
}

pub fn buffer_path_by_id(dir: &str, handle_id: &str) -> (r: String)
    ensures
        r@ == buffer_path_of(dir@, handle_id@),
{
    let mut out: String = joined(dir, "/");
    out.append(buffer_prefix(handle_id).as_str());
    out.append("/");
    out.append(handle_id);
    out.append(".buf");
    out
}

/// The handle made at `millis` as number `seq`.
pub open spec fn handle_of(millis: u64, seq: u64) -> Seq<char> {
    "fb-"@ + decimal(millis as nat) + "-"@ + decimal(seq as nat)
}

/// Numbers the buffers of all services in a process.
pub struct HandleCounter {
    pub next: u64,
}

impl HandleCounter {
    pub fn new() -> (r: Self)
        ensures
            r.next == 1,
    {
        HandleCounter { next: 1 }
    }

    /// The next handle: from the clock and the counter, which goes up by one and
    /// starts over behind the last number.
    fn next_handle_id(&mut self, now_millis: u64) -> (r: String)
        ensures
            final(self).next == next_seq(old(self).next),
            r@ == handle_of(now_millis, old(self).next),
    {
        let mut out: String = joined("fb-", decimal_text(now_millis).as_str());
        out.append("-");
        out.append(decimal_text(self.next).as_str());
        self.next = if self.next == u64::MAX {
            0
        } else {
            self.next + 1
        };
        out
    }
}

/// Where the buffers of a service lie, and how much they may hold.
pub struct LocalFileBufferService {
    pub base_dir: String,
    pub size_limit: u64,
    pub size_used: u64,
    pub has_store: bool,
    pub has_meta: bool,
    pub records: Table<String, FileBufferRecord>,
}

#[verifier::ext_equal]
pub ghost struct BuffersView {
    pub base_dir: Seq<char>,
    pub size_limit: u64,
    pub size_used: u64,
    pub has_store: bool,
    pub has_meta: bool,
    pub records: Map<Seq<char>, RecordView>,
}

impl View for LocalFileBufferService {
    type V = BuffersView;

    open spec fn view(&self) -> BuffersView {
        BuffersView {
            base_dir: self.base_dir@,
            size_limit: self.size_limit,
            size_used: self.size_used,
            has_store: self.has_store,
            has_meta: self.has_meta,
            records: self.records@.map_values(|r: FileBufferRecord| r@),
        }
    }
}

/// The directory of the buffer files.
pub open spec fn buffer_dir_of(base_dir: Seq<char>) -> Seq<char> {
    base_dir + "/buffers"@
}

/// A new record with its file under `dir`: nothing written, over `base` unless
/// that is empty.
pub open spec fn new_record(
    dir: Seq<char>,
    handle: Seq<char>,
    inode: u64,
    base: Seq<ChunkId>,
) -> RecordView {
    RecordView {
        handle_id: handle,
        file_inode_id: inode,
        base: if base.len() == 0 {
            None
        } else {
            Some(base)
        },
        read_only: false,
        diff_file_path: buffer_path_of(dir, handle),
        diff: fresh_diff(),
    }
}

fn make_record(
    buffer_dir: &str,
    handle_id: String,
    file_inode_id: u64,
    base_chunk_list: Vec<ChunkId>,
) -> (r: FileBufferRecord)
    ensures
        r@ == new_record(buffer_dir@, handle_id@, file_inode_id, base_chunk_list@),
{
    let file_path: String = buffer_path_by_id(buffer_dir, handle_id.as_str());
    let base_reader: FileBufferBaseReader = if base_chunk_list.len() == 0 {
        FileBufferBaseReader::NoBase
    } else {
        FileBufferBaseReader::BaseChunkList(base_chunk_list)
    };
    FileBufferRecord {
        handle_id,
        file_inode_id,
        base_reader,
        read_only: false,
        diff_file_path: file_path,
        diff_state: FileBufferDiffState::default(),
    }
}

/// The bytes in use once `expected` more are set aside; none when they do not fit.
pub open spec fn reserved(v: BuffersView, expected: Option<u64>) -> Option<u64> {
    match expected {
        Some(e) if v.size_limit > 0 => if v.size_used + e > v.size_limit {
            None
        } else {
            Some((v.size_used + e) as u64)
        },
        _ => Some(v.size_used),
    }
}

/// The records under their own handles, the later of two with one handle.
pub open spec fn keyed(records: Seq<RecordView>) -> Map<Seq<char>, RecordView>
    decreases records.len(),
{
    if records.len() == 0 {
        Map::empty()
    } else {
        keyed(records.drop_last()).insert(records.last().handle_id, records.last())
    }
}

pub open spec fn record_views(records: Seq<FileBufferRecord>) -> Seq<RecordView> {
    records.map_values(|r: FileBufferRecord| r@)
}

impl LocalFileBufferService {
    pub open spec fn inv(&self) -> bool {
        self.records.wf()
    }

    /// A service over the records that were stored, the oldest first.
    pub fn new(base_dir: String, size_limit: u64, loaded: Vec<FileBufferRecord>) -> (r: Self)
        ensures
            r.inv(),
            r@ == (BuffersView {
                base_dir: base_dir@,
                size_limit,
                size_used: 0,
                has_store: false,
                has_meta: false,
                records: keyed(record_views(loaded@)),
            }),
    {
        let mut records: Table<String, FileBufferRecord> = Table::new();
        let mut i: usize = 0;
        let ghost all = record_views(loaded@);
        proof {
            assert(records@.map_values(|r: FileBufferRecord| r@) =~= keyed(all.take(0)));
        }
        while i < loaded.len()
            invariant
                0 <= i <= loaded@.len(),
                all == record_views(loaded@),
                records.wf(),
                records@.map_values(|r: FileBufferRecord| r@) == keyed(all.take(i as int)),
            decreases loaded@.len() - i,
        {
            let ghost before = records@;
            let rec: FileBufferRecord = loaded[i].copy();
            let ghost rv = rec@;
            records.put(rec.handle_id.clone(), rec);
            proof {
                assert(all.take(i + 1).drop_last() =~= all.take(i as int));
                assert(all.take(i + 1).last() == rv);
                assert(records@.map_values(|r: FileBufferRecord| r@)
                    =~= before.map_values(|r: FileBufferRecord| r@).insert(rv.handle_id, rv));
            }
            i = i + 1;
        }
        assert(all.take(i as int) =~= all);
        LocalFileBufferService {
            base_dir,
            size_limit,
            size_used: 0,
            has_store: false,
            has_meta: false,
            records,
        }
    }

    pub fn set_named_store_mgr(&mut self)
        requires
            old(self).inv(),
        ensures
            final(self).inv(),
            final(self)@ == (BuffersView { has_store: true, ..old(self)@ }),
    {
        self.has_store = true;
    }

    pub fn set_fsmeta_client(&mut self)
        requires
            old(self).inv(),
        ensures
            final(self).inv(),
            final(self)@ == (BuffersView { has_meta: true, ..old(self)@ }),
    {
        self.has_meta = true;
    }

    pub fn with_named_store_mgr(self) -> (r: Self)
        requires
            self.inv(),
        ensures
            r.inv(),
            r@ == (BuffersView { has_store: true, ..self@ }),
    {
        let mut s: LocalFileBufferService = self;
        s.set_named_store_mgr();
        s
    }

    pub fn with_fsmeta_client(self) -> (r: Self)
        requires
            self.inv(),
        ensures
            r.inv(),
            r@ == (BuffersView { has_meta: true, ..self@ }),
    {
        let mut s: LocalFileBufferService = self;
        s.set_fsmeta_client();
        s
    }

    pub fn buffer_dir(&self) -> (r: String)
        ensures
            r@ == buffer_dir_of(self@.base_dir),
    {
        joined(self.base_dir.as_str(), "/buffers")
    }

    /// The bytes in use once the expected ones are set aside, if they fit.
    fn reserve(&self, expected_size: Option<u64>) -> (r: Option<u64>)
        ensures
            r == reserved(self@, expected_size),
    {
        match expected_size {
            Some(expect) if self.size_limit > 0 => {
                if expect > self.size_limit || self.size_used > self.size_limit - expect {
                    None
                } else {
                    Some(self.size_used + expect)
                }
            },
            _ => Some(self.size_used),
        }
    }

    /// Sets bytes aside for a new buffer and makes its record.  The record
    /// counts once its file exists and [`LocalFileBufferService::insert_record`]
    /// has taken it.
    pub fn alloc_buffer(
        &mut self,
        handles: &mut HandleCounter,
        file_inode_id: u64,
        base_chunk_list: Vec<ChunkId>,
        expected_size: Option<u64>,
        now_millis: u64,
    ) -> (r: Result<FileBufferRecord, BufferError>)
        requires
            old(self).inv(),
        ensures
            final(self).inv(),
            match r {
                Err(e) => {
                    &&& final(self)@ == old(self)@
                    &&& final(handles).next == old(handles).next
                    &&& reserved(old(self)@, expected_size) is None
                    &&& e == BufferError::CapacityExceeded
                },
                Ok(rec) => {
                    &&& reserved(old(self)@, expected_size) is Some
                    &&& final(self)@ == (BuffersView {
                        size_used: reserved(old(self)@, expected_size)->0,
                        ..old(self)@
                    })
                    &&& final(handles).next == next_seq(old(handles).next)
                    &&& rec@ == new_record(
                        buffer_dir_of(old(self)@.base_dir),
                        handle_of(now_millis, old(handles).next),
                        file_inode_id,
                        base_chunk_list@,
                    )
                },
            },
    {
        let used: u64 = match self.reserve(expected_size) {
            Some(used) => used,
            None => {
                return Err(BufferError::CapacityExceeded);
            },
        };
        self.size_used = used;
        let handle_id: String = handles.next_handle_id(now_millis);
        let dir: String = self.buffer_dir();
        Ok(make_record(dir.as_str(), handle_id, file_inode_id, base_chunk_list))
    }

    /// Takes a record into the index, in place of one with the same handle.
    pub fn insert_record(&mut self, record: FileBufferRecord)
        requires
            old(self).inv(),
        ensures
            final(self).inv(),
            final(self)@ == (BuffersView {
                records: old(self)@.records.insert(record@.handle_id, record@),
                ..old(self)@
            }),
    {
        let ghost rv = record@;
        self.records.put(record.handle_id.clone(), record);
        assert(self@.records =~= old(self)@.records.insert(rv.handle_id, rv));
    }

    /// The record of a handle, where the index holds it.
    pub fn get_record(&self, handle_id: &String) -> (r: Result<FileBufferRecord, BufferError>)
        requires
            self.inv(),
        ensures
            match r {
                Ok(rec) => self@.records.contains_key(handle_id@) && rec@
                    == self@.records[handle_id@],
                Err(e) => !self@.records.contains_key(handle_id@) && e == (BufferError::NotFound {
                    handle: *handle_id,
                }),
            },
    {
        match self.records.get(handle_id) {
            Some(rec) => Ok(rec.copy()),
            None => Err(BufferError::NotFound { handle: handle_id.clone() }),
        }
    }

    fn remove_record(&mut self, handle_id: &String)
        requires
            old(self).inv(),
        ensures
            final(self).inv(),
            final(self)@ == (BuffersView {
                records: old(self)@.records.remove(handle_id@),
                ..old(self)@
            }),
    {
        let _ = self.records.remove(handle_id);
        assert(self@.records =~= old(self)@.records.remove(handle_id@));
    }

    /// Gives back the bytes of a file that is about to go.
    pub fn release(&mut self, file_len: Option<u64>)
        requires
            old(self).inv(),
        ensures
            final(self).inv(),
            final(self)@ == released(old(self)@, file_len),
    {
        if let Some(len) = file_len {
            self.size_used = self.size_used.saturating_sub(len);
        }
    }

    /// Forgets a buffer; `file_len` is the length of its file, where there is one.
    pub fn remove(&mut self, handle_id: &String, file_len: Option<u64>)
        requires
            old(self).inv(),
        ensures
            final(self).inv(),
            final(self)@ == released(
                BuffersView { records: old(self)@.records.remove(handle_id@), ..old(self)@ },
                file_len,
            ),
    {
        self.remove_record(handle_id);
        self.release(file_len);
    }

    /// Notes that bytes were added and the buffer's file is now `file_len` long.
    pub fn note_appended(&mut self, handle_id: &String, file_len: u64) -> (r: Result<
        (),
        BufferError,
    >)
        requires
            old(self).inv(),
        ensures
            final(self).inv(),
            match r {
                Ok(_) => {
                    &&& old(self)@.records.contains_key(handle_id@)
                    &&& final(self)@ == (BuffersView {
                        records: old(self)@.records.insert(
                            handle_id@,
                            appended(old(self)@.records[handle_id@], file_len),
                        ),
                        ..old(self)@
                    })
                },
                Err(e) => {
                    &&& !old(self)@.records.contains_key(handle_id@)
                    &&& e == (BufferError::NotFound { handle: *handle_id })
                    &&& final(self)@ == old(self)@
                },
            },
    {
        let mut rec: FileBufferRecord = self.get_record(handle_id)?;
        rec.diff_state.total_size = file_len;
        rec.diff_state.position = file_len;
        let ghost rv = rec@;
        self.records.put(handle_id.clone(), rec);
        assert(rv == appended(old(self)@.records[handle_id@], file_len));
        assert(self@.records =~= old(self)@.records.insert(handle_id@, rv));
        Ok(())
    }
}

pub open spec fn released(v: BuffersView, file_len: Option<u64>) -> BuffersView {
    match file_len {
        None => v,
        Some(len) => BuffersView {
            size_used: if len >= v.size_used {
                0
            } else {
                (v.size_used - len) as u64
            },
            ..v
        },
    }
}

pub open spec fn appended(fb: RecordView, file_len: u64) -> RecordView {
    RecordView { diff: DiffView { total_size: file_len, position: file_len, ..fb.diff }, ..fb }
}

} // verus!
