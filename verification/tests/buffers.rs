//! Write buffers, with a disk in memory and a toy hash in place of the real ones.

use cyfs_meta::buffer::{
    buffer_path_by_id, buffer_prefix, BufferError, ChunkId, FileBufferBaseReader,
    FileBufferDiffState, FileBufferRecord, FileBufferRecordMeta, HandleCounter,
    LocalFileBufferService,
};
use cyfs_meta::buffer_layout::{
    calculate_content_layout, chunk_cuts, overlay_base_sizes, overlay_chunk_sizes,
    overlay_content_layout, overlay_writer_state, simple_chunk_list_from_ids_with_sizes,
    sum_sizes, ChunkSegment, ContentLayout,
};
use cyfs_meta::buffer_publish::{
    build_finalize_data, file_object, finalized_state, link_range, linked_state, put_step,
    BufferCall, BufferProgress, BufferReply, ChunkLimits, ChunkRead, FileObject, FinalizeData,
    NameTask,
};
use cyfs_meta::records::{NodeState, ObjId};
use std::collections::HashMap;

const LIMITS: ChunkLimits = ChunkLimits { chunk_size: 64, min_sample_size: 100 };

fn chunk_of(bytes: &[u8]) -> ChunkId {
    let mut h: u64 = 17;
    for b in bytes {
        h = h.wrapping_mul(31).wrapping_add(*b as u64 + 1);
    }
    ChunkId {
        obj_id: ObjId::new("mix256".to_string(), format!("{:016x}", h)),
        length: Some(bytes.len() as u64),
    }
}

fn list_id(ids: &[ChunkId]) -> ObjId {
    let hashes: Vec<String> = ids.iter().map(|c| c.obj_id.obj_hash.clone()).collect();
    ObjId::new("clist".to_string(), hashes.join("+"))
}

fn file_obj_id(f: &FileObject) -> ObjId {
    ObjId::new("cyfile".to_string(), format!("{}|{}|{}", f.name, f.size, f.content.obj_hash))
}

struct Bench {
    svc: LocalFileBufferService,
    handles: HandleCounter,
    files: HashMap<String, Vec<u8>>,
    db: HashMap<String, FileBufferRecordMeta>,
    now: u64,
    calls: Vec<BufferCall>,
}

impl Bench {
    fn new(size_limit: u64) -> Self {
        Bench {
            svc: LocalFileBufferService::new("/data".to_string(), size_limit, Vec::new()),
            handles: HandleCounter::new(),
            files: HashMap::new(),
            db: HashMap::new(),
            now: 1000,
            calls: Vec::new(),
        }
    }

    fn alloc_sized(
        &mut self,
        inode: u64,
        base: Vec<ChunkId>,
        expected: Option<u64>,
    ) -> Result<String, BufferError> {
        let rec =
            self.svc.alloc_buffer(&mut self.handles, inode, base, expected, self.now)?;
        let handle = rec.handle_id.clone();
        self.files.insert(rec.diff_file_path.clone(), Vec::new());
        self.db.insert(handle.clone(), rec.to_meta());
        self.svc.insert_record(rec);
        Ok(handle)
    }

    fn open(&mut self, inode: u64, base: Vec<ChunkId>) -> String {
        self.alloc_sized(inode, base, None).unwrap()
    }

    fn record(&self, handle: &String) -> FileBufferRecord {
        self.svc.get_record(handle).unwrap()
    }

    fn change(&mut self, handle: &String, f: impl Fn(&mut FileBufferDiffState)) {
        let mut rec = self.record(handle);
        f(&mut rec.diff_state);
        self.svc.insert_record(rec);
    }

    fn append(&mut self, handle: &String, data: &[u8]) -> Result<(), BufferError> {
        let rec = self.record(handle);
        rec.check_append()?;
        let file = self.files.entry(rec.diff_file_path.clone()).or_default();
        file.extend_from_slice(data);
        let len = file.len() as u64;
        self.svc.note_appended(handle, len)
    }

    fn flush(&mut self, handle: &String) {
        let meta = self.record(handle).to_meta();
        self.db.insert(handle.clone(), meta);
    }

    fn reloaded(&self) -> LocalFileBufferService {
        let rows = self.db.values().cloned().map(FileBufferRecord::from_meta).collect();
        LocalFileBufferService::new("/data".to_string(), 0, rows)
    }

    fn has_file(&self, handle: &String) -> bool {
        self.files.contains_key(&self.record(handle).diff_file_path)
    }

    fn cacl_name(&mut self, handle: &String) -> bool {
        let rec = self.record(handle);
        let (task, progress) = self.svc.cacl_name(&rec, LIMITS);
        self.drive(handle, task, progress, None)
    }

    fn finalize(&mut self, handle: &String) -> bool {
        let linked_at = self.record(handle).diff_state.linked_at;
        let (task, progress) = self.svc.finalize(handle, LIMITS).unwrap();
        self.drive(handle, task, progress, linked_at)
    }

    fn merged(&self, rec: &FileBufferRecord) -> (Vec<ChunkId>, Vec<u64>) {
        let base = match &rec.base_reader {
            FileBufferBaseReader::BaseChunkList(ids) => ids.clone(),
            FileBufferBaseReader::NoBase => panic!("no base"),
        };
        let sizes = overlay_base_sizes(&base, &rec.diff_state).unwrap();
        let w = overlay_writer_state(rec, Some(sum_sizes(&sizes)), list_id(&base)).unwrap();
        let file = self.files[&w.diff_file_path].clone();
        let mut ids = base.clone();
        let mut at = 0usize;
        for (k, index) in w.chunk_indices.iter().enumerate() {
            let len = w.diff_chunk_sizes[k] as usize;
            ids[*index as usize] = chunk_of(&file[at..at + len]);
            at += len;
        }
        (ids, w.merged_chunk_sizes)
    }

    fn drive(
        &mut self,
        handle: &String,
        mut task: NameTask,
        mut progress: BufferProgress,
        linked_at: Option<u64>,
    ) -> bool {
        let rec = self.record(handle);
        let mut layout: Option<ContentLayout> = None;
        let mut sample: Option<ChunkId> = None;
        let mut data: Option<FinalizeData> = None;
        let mut size = 0u64;
        loop {
            let call = match progress {
                BufferProgress::Call(c) => c,
                BufferProgress::Named { finalized } => return finalized,
                BufferProgress::Stopped => panic!("stopped"),
            };
            self.calls.push(call);
            let mut reply = BufferReply::Done;
            match call {
                BufferCall::Flush => self.flush(handle),
                BufferCall::HashFile => {
                    let bytes = self.files[&rec.diff_file_path].clone();
                    size = bytes.len() as u64;
                    let mut ids = Vec::new();
                    let mut at = 0usize;
                    for len in chunk_cuts(size, LIMITS.chunk_size) {
                        ids.push(chunk_of(&bytes[at..at + len as usize]));
                        at += len as usize;
                    }
                    let list = list_id(&ids);
                    let made = calculate_content_layout(&ids, size, LIMITS.chunk_size, list);
                    layout = Some(made.unwrap());
                    reply = BufferReply::Size(size);
                }
                BufferCall::MergeOverlay => {
                    let (ids, sizes) = self.merged(&rec);
                    size = sum_sizes(&sizes);
                    let list = list_id(&ids);
                    layout = Some(overlay_content_layout(&ids, &sizes, list).unwrap());
                    reply = BufferReply::Size(size);
                }
                BufferCall::SampleFile => {
                    sample = Some(chunk_of(b"sample"));
                }
                BufferCall::StoreLinked | BufferCall::StoreFinalized => {
                    let l = layout.clone().unwrap();
                    let id = file_obj_id(&file_object(rec.file_inode_id, size, &l));
                    let s = sample.clone();
                    let d = build_finalize_data(&rec, size, l, id, s, linked_at, self.now);
                    let d = d.unwrap();
                    if call == BufferCall::StoreLinked {
                        self.svc.mark_linked(&rec, &d);
                    } else {
                        self.svc.do_finalize(handle, &d, self.now + 5).unwrap();
                    }
                    self.flush(handle);
                    data = Some(d);
                }
                BufferCall::TellLinked => {
                    let state = linked_state(data.as_ref().unwrap(), handle);
                    assert!(matches!(state, NodeState::Linked(s) if s.filebuffer_id == *handle));
                }
                BufferCall::TellFinalized => {
                    let state = finalized_state(data.as_ref().unwrap(), self.now + 5);
                    assert!(matches!(state, NodeState::Finalized(s) if s.finalized_at == 1005));
                }
                BufferCall::DropFile => {
                    let len = self.files.get(&rec.diff_file_path).map(|f| f.len() as u64);
                    self.svc.release(len);
                    self.files.remove(&rec.diff_file_path);
                }
                BufferCall::PutChunks | BufferCall::PutLinks | BufferCall::PutObjects => {}
            }
            let next = task.step(reply);
            task = next.0;
            progress = next.1;
        }
    }
}

#[test]
fn test_alloc_get_flush_reload_diff_state() {
    let mut b = Bench::new(0);
    let fb = b.open(100, vec![]);
    b.change(&fb, |state| {
        state.chunk_indices = vec![1, 3];
        state.diff_chunk_sizes = vec![128, 256];
        state.base_chunk_sizes = vec![1024, 1024, 1024, 1024];
        state.merged_chunk_sizes = vec![1024, 1024, 1024, 1024];
        state.total_size = 4096;
        state.position = 384;
        state.append_merge_last_chunk = true;
    });
    b.flush(&fb);

    let loaded = b.reloaded().get_record(&fb).unwrap();
    assert_eq!(loaded.diff_state.chunk_indices, vec![1, 3]);
    assert_eq!(loaded.diff_state.diff_chunk_sizes, vec![128, 256]);
    assert_eq!(loaded.diff_state.total_size, 4096);
    assert_eq!(loaded.diff_state.position, 384);
    assert!(loaded.diff_state.append_merge_last_chunk);
}

#[test]
fn test_append_for_none_base_reader() {
    let mut b = Bench::new(0);
    let fb = b.open(101, vec![]);
    b.append(&fb, b"hello").unwrap();
    b.append(&fb, b" world").unwrap();
    b.flush(&fb);

    let rec = b.record(&fb);
    assert_eq!(b.files[&rec.diff_file_path], b"hello world");
    assert_eq!(rec.diff_state.total_size, 11);
    assert_eq!(rec.diff_state.position, 11);
}

#[test]
fn test_remove_cleans_file_and_db() {
    let mut b = Bench::new(0);
    let fb = b.open(102, vec![]);
    let rec = b.record(&fb);
    assert!(b.has_file(&fb));
    let len = b.files.remove(&rec.diff_file_path).map(|f| f.len() as u64);
    b.svc.remove(&fb, len);
    b.db.remove(&fb);
    assert!(!b.files.contains_key(&rec.diff_file_path));
    assert_eq!(b.svc.get_record(&fb), Err(BufferError::NotFound { handle: fb.clone() }));
    assert!(b.reloaded().get_record(&fb).is_err());
}

#[test]
fn test_cacl_name_and_finalize_for_none_base_reader() {
    let mut b = Bench::new(0);
    let fb = b.open(103, vec![]);
    b.append(&fb, b"linked-data").unwrap();
    b.flush(&fb);

    assert!(b.cacl_name(&fb));

    let record = b.record(&fb);
    assert!(record.diff_state.linked_obj_id.is_some());
    assert!(record.diff_state.linked_qcid.is_some());
    assert!(record.diff_state.linked_at.is_some());
    assert!(record.diff_state.finalized_at.is_some());
    assert!(record.read_only);
    assert!(!b.has_file(&fb));

    b.calls.clear();
    assert!(b.finalize(&fb));
    assert!(b.calls.is_empty());
}

#[test]
fn test_cacl_name_supports_overlay_mode_with_dirty_diff() {
    let mut b = Bench::new(0);
    let base_chunk = chunk_of(b"base-chunk");
    let dirty_chunk_bytes = b"diff-chunk";
    let fb = b.open(104, vec![base_chunk.clone()]);

    let path = b.record(&fb).diff_file_path;
    b.files.insert(path, dirty_chunk_bytes.to_vec());
    let len = dirty_chunk_bytes.len() as u64;
    let base_len = base_chunk.get_length().unwrap();
    b.change(&fb, |state| {
        state.chunk_indices = vec![0];
        state.diff_chunk_sizes = vec![len];
        state.base_chunk_sizes = vec![base_len];
        state.merged_chunk_sizes = vec![len];
        state.total_size = len;
        state.position = state.total_size;
    });
    b.flush(&fb);

    assert!(b.cacl_name(&fb));

    let record = b.record(&fb);
    assert!(record.diff_state.finalized_at.is_some());
    assert!(record.read_only);
    assert!(!b.has_file(&fb));

    let expected = FileObject {
        name: format!("inode-{}", record.file_inode_id),
        size: len,
        content: chunk_of(dirty_chunk_bytes).to_obj_id(),
    };
    assert_eq!(record.diff_state.linked_obj_id.unwrap(), file_obj_id(&expected));
}

#[test]
fn test_overlay_cacl_name_linked_then_finalize() {
    let mut b = Bench::new(0);
    let huge_size = LIMITS.chunk_size * 2 + 1;
    let mut base_chunk = chunk_of(b"huge");
    base_chunk.length = Some(huge_size);
    let fb = b.open(107, vec![base_chunk]);

    assert!(!b.cacl_name(&fb));

    let linked = b.record(&fb);
    assert!(linked.diff_state.linked_obj_id.is_some());
    assert!(linked.diff_state.linked_qcid.is_some());
    assert!(linked.diff_state.linked_at.is_some());
    assert!(linked.diff_state.finalized_at.is_none());
    assert!(b.has_file(&fb));

    assert!(b.finalize(&fb));
    let finalized = b.record(&fb);
    assert!(finalized.diff_state.finalized_at.is_some());
    assert!(!b.has_file(&fb));
    assert!(finalized.read_only);
}

#[test]
fn test_cacl_name_uses_chunk_list_when_file_exceeds_default_chunk_size() {
    let mut b = Bench::new(0);
    let fb = b.open(105, vec![]);
    let first = vec![0x11u8; LIMITS.chunk_size as usize];
    let second = vec![0x22u8; 19];
    b.append(&fb, &first).unwrap();
    b.append(&fb, &second).unwrap();
    b.flush(&fb);

    assert!(b.cacl_name(&fb));
    let linked = b.record(&fb);
    let linked_obj_id = linked.diff_state.linked_obj_id.clone().unwrap();
    assert!(linked.diff_state.finalized_at.is_some());

    let expected = FileObject {
        name: format!("inode-{}", linked.file_inode_id),
        size: (first.len() + second.len()) as u64,
        content: list_id(&[chunk_of(&first), chunk_of(&second)]),
    };
    assert_eq!(linked_obj_id, file_obj_id(&expected));
}

#[test]
fn test_cacl_name_enters_linked_state_when_file_exceeds_direct_finalize_limit() {
    let mut b = Bench::new(0);
    let fb = b.open(106, vec![]);
    let first = vec![0x31u8; LIMITS.chunk_size as usize];
    let second = vec![0x32u8; LIMITS.chunk_size as usize];
    let third = vec![0x33u8; 19];
    assert!((first.len() + second.len() + third.len()) as u64 > LIMITS.chunk_size * 2);
    b.append(&fb, &first).unwrap();
    b.append(&fb, &second).unwrap();
    b.append(&fb, &third).unwrap();
    b.flush(&fb);

    assert!(!b.cacl_name(&fb));

    let linked = b.record(&fb);
    assert!(linked.diff_state.linked_obj_id.is_some());
    assert!(linked.diff_state.linked_qcid.is_some());
    assert!(linked.diff_state.linked_at.is_some());
    assert!(linked.diff_state.finalized_at.is_none());
    assert!(b.has_file(&fb));
}

#[test]
fn a_file_of_exactly_two_chunks_is_finalized_at_once() {
    let mut b = Bench::new(0);
    let fb = b.open(1, vec![]);
    b.append(&fb, &vec![1u8; 128]).unwrap();
    assert!(b.cacl_name(&fb));
}

#[test]
fn an_empty_file_is_one_empty_chunk() {
    let mut b = Bench::new(0);
    let fb = b.open(1, vec![]);
    assert!(b.cacl_name(&fb));
    assert_eq!(b.record(&fb).diff_state.linked_qcid, Some(chunk_of(b"")));
}

#[test]
fn the_first_chunk_stands_for_small_files_and_a_sample_for_others() {
    let mut b = Bench::new(0);
    let small = b.open(1, vec![]);
    b.append(&small, &[7u8; 99]).unwrap();
    b.cacl_name(&small);
    assert_eq!(b.record(&small).diff_state.linked_qcid, Some(chunk_of(&[7u8; 64])));

    let large = b.open(2, vec![]);
    b.append(&large, &[7u8; 100]).unwrap();
    b.cacl_name(&large);
    assert_eq!(b.record(&large).diff_state.linked_qcid, Some(chunk_of(b"sample")));
}

#[test]
fn with_store_and_metadata_service_every_step_is_taken_in_order() {
    let mut b = Bench::new(0);
    let svc = LocalFileBufferService::new("/data".to_string(), 0, Vec::new());
    b.svc = svc.with_named_store_mgr().with_fsmeta_client();
    let fb = b.open(1, vec![]);
    b.append(&fb, b"abc").unwrap();
    assert!(b.cacl_name(&fb));
    assert_eq!(
        b.calls,
        vec![
            BufferCall::Flush,
            BufferCall::HashFile,
            BufferCall::PutChunks,
            BufferCall::PutObjects,
            BufferCall::StoreFinalized,
            BufferCall::TellFinalized,
            BufferCall::DropFile,
        ]
    );

    b.calls.clear();
    let big = b.open(2, vec![]);
    b.append(&big, &[1u8; 200]).unwrap();
    assert!(!b.cacl_name(&big));
    assert_eq!(
        b.calls,
        vec![
            BufferCall::Flush,
            BufferCall::HashFile,
            BufferCall::SampleFile,
            BufferCall::PutLinks,
            BufferCall::PutObjects,
            BufferCall::StoreLinked,
            BufferCall::TellLinked,
        ]
    );
}

#[test]
fn a_link_keeps_its_time_when_the_buffer_is_finalized() {
    let mut b = Bench::new(0);
    let fb = b.open(1, vec![]);
    b.append(&fb, &[1u8; 200]).unwrap();
    b.cacl_name(&fb);
    b.now = 2000;
    b.finalize(&fb);
    let state = b.record(&fb).diff_state;
    assert_eq!(state.linked_at, Some(1000));
    assert_eq!(state.finalized_at, Some(2005));
}

#[test]
fn a_failed_step_stops_naming() {
    let mut b = Bench::new(0);
    let fb = b.open(1, vec![]);
    let rec = b.record(&fb);
    let (task, progress) = b.svc.cacl_name(&rec, LIMITS);
    assert_eq!(progress, BufferProgress::Call(BufferCall::Flush));
    let (task, progress) = task.step(BufferReply::Failed);
    assert_eq!(progress, BufferProgress::Stopped);
    assert_eq!(task.last, BufferCall::Flush);
}

#[test]
fn finalizing_an_unknown_buffer_is_refused() {
    let b = Bench::new(0);
    let gone = "fb-1-1".to_string();
    assert!(b.svc.finalize(&gone, LIMITS).is_err());
    assert_eq!(
        b.svc.get_record(&gone).unwrap_err().message(),
        "buffer not found: fb-1-1"
    );
}

#[test]
fn buffers_are_allowed_only_within_the_limit() {
    let mut b = Bench::new(100);
    let first = b.alloc_sized(1, vec![], Some(60)).unwrap();
    assert_eq!(b.alloc_sized(2, vec![], Some(41)), Err(BufferError::CapacityExceeded));
    assert_eq!(BufferError::CapacityExceeded.message(), "buffer capacity exceeded");
    let second = b.alloc_sized(2, vec![], Some(40)).unwrap();
    assert_ne!(first, second);
    assert_eq!(b.svc.size_used, 100);
    assert!(b.alloc_sized(3, vec![], Some(u64::MAX)).is_err());
    assert!(b.alloc_sized(3, vec![], None).is_ok());
    b.svc.remove(&first, Some(60));
    assert_eq!(b.svc.size_used, 40);
    b.svc.remove(&second, Some(1000));
    assert_eq!(b.svc.size_used, 0);
}

#[test]
fn without_a_limit_nothing_is_counted() {
    let mut b = Bench::new(0);
    b.alloc_sized(1, vec![], Some(u64::MAX)).unwrap();
    assert_eq!(b.svc.size_used, 0);
}

#[test]
fn handles_and_paths_have_their_form() {
    let mut b = Bench::new(0);
    let fb = b.open(1, vec![]);
    assert_eq!(fb, "fb-1000-1");
    assert_eq!(b.open(1, vec![]), "fb-1000-2");
    let prefix = buffer_prefix("fb-1000-1");
    assert_eq!(b.record(&fb).diff_file_path, format!("/data/buffers/{}/fb-1000-1.buf", prefix));
    assert_eq!(buffer_path_by_id("/x", "h"), format!("/x/{}/h.buf", buffer_prefix("h")));
}

#[test]
fn the_prefix_is_the_low_byte_of_the_hash() {
    assert_eq!(buffer_prefix(""), "25");
    assert_eq!(buffer_prefix("a"), "8c");
    assert_eq!(buffer_prefix("foobar"), "e8");
}

#[test]
fn a_closed_or_overlaid_buffer_takes_no_bytes() {
    let mut b = Bench::new(0);
    let over = b.open(1, vec![chunk_of(b"x")]);
    assert_eq!(b.append(&over, b"y"), Err(BufferError::AppendOverBase));
    let fb = b.open(2, vec![]);
    b.cacl_name(&fb);
    assert_eq!(b.append(&fb, b"y"), Err(BufferError::ReadOnly));
    assert_eq!(BufferError::ReadOnly.message(), "file buffer is read-only");
    assert_eq!(
        BufferError::AppendOverBase.message(),
        "append with base chunk list is handled by DiffChunkListWriter"
    );
}

#[test]
fn cuts_are_full_chunks_and_a_rest() {
    assert_eq!(chunk_cuts(0, 10), vec![0]);
    assert_eq!(chunk_cuts(10, 10), vec![10]);
    assert_eq!(chunk_cuts(11, 10), vec![10, 1]);
    assert_eq!(chunk_cuts(30, 10), vec![10, 10, 10]);
}

#[test]
fn segments_lie_one_behind_the_other() {
    let ids = vec![chunk_of(b"a"), chunk_of(b"b"), chunk_of(b"c")];
    let layout = overlay_content_layout(&ids, &vec![5, 0, 7], list_id(&ids)).unwrap();
    let places: Vec<(u64, u64)> = layout.segments().iter().map(|s| (s.offset, s.size)).collect();
    assert_eq!(places, vec![(0, 5), (5, 0), (5, 7)]);
    assert_eq!(layout.content_obj_id(), list_id(&ids));
    assert_eq!(layout.qcid_from_content_layout(), Ok(chunk_of(b"a")));
}

#[test]
fn one_merged_chunk_needs_no_list() {
    let ids = vec![chunk_of(b"a")];
    let layout = overlay_content_layout(&ids, &vec![1], list_id(&ids)).unwrap();
    assert!(matches!(layout, ContentLayout::Single { .. }));
    assert_eq!(layout.content_obj_id(), chunk_of(b"a").obj_id);
}

#[test]
fn merged_chunks_need_their_sizes() {
    let ids = vec![chunk_of(b"a"), chunk_of(b"b")];
    let e = overlay_content_layout(&ids, &vec![1], list_id(&ids)).unwrap_err();
    assert_eq!(e.message(), "overlay merged chunk size count 1 mismatch chunk id count 2");
    let e = overlay_content_layout(&vec![], &vec![], list_id(&[])).unwrap_err();
    assert_eq!(e.message(), "overlay merged chunk list is empty");
    let empty = ContentLayout::ChunkList { segments: vec![], chunk_list_obj_id: list_id(&[]) };
    let e = empty.qcid_from_content_layout().unwrap_err();
    assert_eq!(e.message(), "empty chunk list for qcid");
    let mut b = Bench::new(0);
    for (base, said) in [
        (vec![chunk_of(b"a")], "empty chunk list for qcid"),
        (vec![], "empty chunk list for qcid fallback"),
    ] {
        let fb = b.open(9, base);
        let e = build_finalize_data(
            &b.record(&fb),
            0,
            empty.clone(),
            list_id(&[]),
            None,
            None,
            5,
        );
        assert_eq!(e.unwrap_err().message(), said);
    }
}

#[test]
fn sizes_come_from_the_state_before_the_ids() {
    let mut ids = vec![chunk_of(b"abc"), chunk_of(b"de")];
    let mut state = FileBufferDiffState::default();
    assert_eq!(overlay_chunk_sizes(&ids, &state), Ok(vec![3, 2]));
    state.base_chunk_sizes = vec![8, 9];
    assert_eq!(overlay_chunk_sizes(&ids, &state), Ok(vec![8, 9]));
    state.merged_chunk_sizes = vec![1];
    assert_eq!(overlay_chunk_sizes(&ids, &state), Ok(vec![1]));
    assert_eq!(overlay_base_sizes(&ids, &state), Ok(vec![8, 9]));
    ids[1].length = None;
    let bare = FileBufferDiffState::default();
    let e = overlay_chunk_sizes(&ids, &bare).unwrap_err();
    assert_eq!(e.message(), "overlay chunk size missing in diff_state and base chunk id");
    let e = overlay_base_sizes(&ids, &bare).unwrap_err();
    assert_eq!(e.message(), "overlay base chunk size missing in diff_state and base chunk id");
}

#[test]
fn a_writer_takes_up_where_the_buffer_stands() {
    let mut b = Bench::new(0);
    let fb = b.open(1, vec![chunk_of(b"abc"), chunk_of(b"de")]);
    b.change(&fb, |s| {
        s.position = 50;
        s.auto_cache = true;
    });
    let rec = b.record(&fb);
    let list = list_id(&[chunk_of(b"abc"), chunk_of(b"de")]);
    let w = overlay_writer_state(&rec, Some(5), list.clone()).unwrap();
    assert_eq!(w.total_size, 5);
    assert_eq!(w.position, 5);
    assert_eq!(w.base_chunk_sizes, vec![3, 2]);
    assert_eq!(w.merged_chunk_sizes, vec![3, 2]);
    assert_eq!(w.base_chunk_list, list);
    assert!(w.auto_cache);
    assert!(!w.local_mode);
    assert!(overlay_writer_state(&rec, None, list.clone()).is_ok());
    let e = overlay_writer_state(&rec, Some(6), list.clone()).unwrap_err();
    assert_eq!(e.message(), "chunk list total size mismatch, expect 5 got 6");

    let plain = b.open(2, vec![]);
    let e = overlay_writer_state(&b.record(&plain), None, list).unwrap_err();
    assert_eq!(e.message(), "overlay finalize context requires base chunk list");
}

#[test]
fn a_chunk_list_is_checked_against_its_sizes() {
    assert_eq!(simple_chunk_list_from_ids_with_sizes(Some(7), &vec![3, 4]), Ok(7));
    assert_eq!(simple_chunk_list_from_ids_with_sizes(None, &vec![3, 4]), Ok(7));
    assert!(simple_chunk_list_from_ids_with_sizes(Some(8), &vec![3, 4]).is_err());
}

#[test]
fn chunks_that_the_store_has_are_not_read() {
    let seg = ChunkSegment { chunk_id: chunk_of(b"a"), offset: 10, size: 5 };
    assert_eq!(put_step(3, &seg, true), (3, None));
    assert_eq!(put_step(10, &seg, false), (15, Some(ChunkRead { seek: None, len: 5 })));
    assert_eq!(put_step(3, &seg, false), (15, Some(ChunkRead { seek: Some(10), len: 5 })));
    assert_eq!(link_range(&seg), (10, 15));
}

#[test]
fn two_services_of_a_process_share_the_numbers() {
    let mut handles = HandleCounter::new();
    let mut a = LocalFileBufferService::new("/a".to_string(), 0, Vec::new());
    let mut b = LocalFileBufferService::new("/b".to_string(), 0, Vec::new());
    let mut next = |svc: &mut LocalFileBufferService| {
        svc.alloc_buffer(&mut handles, 7, Vec::new(), None, 1000).unwrap().handle_id
    };
    assert_eq!(next(&mut a), "fb-1000-1");
    assert_eq!(next(&mut b), "fb-1000-2");
    assert_eq!(next(&mut a), "fb-1000-3");
    let mut last = HandleCounter { next: u64::MAX };
    let rec = a.alloc_buffer(&mut last, 7, Vec::new(), None, 5).unwrap();
    assert_eq!(rec.handle_id, "fb-5-18446744073709551615");
    assert_eq!(last.next, 0);
}

#[test]
fn a_buffer_that_does_not_fit_uses_no_number() {
    let mut handles = HandleCounter::new();
    let mut svc = LocalFileBufferService::new("/a".to_string(), 10, Vec::new());
    let r = svc.alloc_buffer(&mut handles, 7, Vec::new(), Some(11), 1000);
    assert_eq!(r.err(), Some(BufferError::CapacityExceeded));
    assert_eq!(handles.next, 1);
}
