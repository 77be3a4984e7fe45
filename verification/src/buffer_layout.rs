//! How the content of a buffer is cut into chunks and what is published of it.

use vstd::prelude::*;
use crate::buffer::{
    dup_all, BufferError, ChunkId, DiffView, FileBufferBaseReader, FileBufferDiffState,
    FileBufferRecord, RecordView,
};
use crate::records::ObjId;
use crate::table::Dup;

verus! {

/// The sum of all sizes.
pub open spec fn total(sizes: Seq<u64>) -> nat
    decreases sizes.len(),
{
    if sizes.len() == 0 {
        0
    } else {
        total(sizes.drop_last()) + sizes.last() as nat
    }
}

/// No prefix sums to more than the whole.
pub proof fn lemma_total_take(sizes: Seq<u64>, n: int)
    requires
        0 <= n <= sizes.len(),
    ensures
        total(sizes.take(n)) <= total(sizes),
    decreases sizes.len() - n,
{
    if n < sizes.len() {
        lemma_total_step(sizes, n);
        lemma_total_take(sizes, n + 1);
    } else {
        assert(sizes.take(n) =~= sizes);
    }
}

/// One more size adds itself to the sum.
pub proof fn lemma_total_step(sizes: Seq<u64>, n: int)
    requires
        0 <= n < sizes.len(),
    ensures
        total(sizes.take(n + 1)) == total(sizes.take(n)) + sizes[n],
{
    assert(sizes.take(n + 1).drop_last() =~= sizes.take(n));
    assert(sizes.take(n + 1).last() == sizes[n]);
}

pub fn sum_sizes(sizes: &Vec<u64>) -> (r: u64)
    requires
        total(sizes@) <= u64::MAX,
    ensures
        r == total(sizes@),
{
    let mut sum: u64 = 0;
    let mut i: usize = 0;
    while i < sizes.len()
        invariant
            0 <= i <= sizes@.len(),
            total(sizes@) <= u64::MAX,
            sum == total(sizes@.take(i as int)),
        decreases sizes@.len() - i,
    {
        proof {
            lemma_total_step(sizes@, i as int);
            lemma_total_take(sizes@, i + 1);
        }
        sum = sum + sizes[i];
        i = i + 1;
    }
    assert(sizes@.take(i as int) =~= sizes@);
    sum
}

/// `sizes` cut `size` bytes into chunks of `chunk`: all of them full but the
/// last, which is empty only when it is the only one.
pub open spec fn is_cut(sizes: Seq<u64>, size: u64, chunk: u64) -> bool {
    &&& sizes.len() > 0
    &&& total(sizes) == size
    &&& forall|i: int| 0 <= i < sizes.len() - 1 ==> #[trigger] sizes[i] == chunk
    &&& sizes.last() <= chunk
    &&& sizes.len() > 1 ==> sizes.last() > 0
}

/// The sizes of the chunks of a file of `file_size` bytes.
pub fn chunk_cuts(file_size: u64, chunk_size: u64) -> (r: Vec<u64>)
    requires
        chunk_size > 0,
    ensures
        is_cut(r@, file_size, chunk_size),
{
    let mut sizes: Vec<u64> = Vec::new();
    let mut remaining: u64 = file_size;
    assert(total(sizes@) == 0);
    while remaining > chunk_size
        invariant
            chunk_size > 0,
            remaining <= file_size,
            total(sizes@) + remaining == file_size,
            forall|i: int| 0 <= i < sizes@.len() ==> #[trigger] sizes@[i] == chunk_size,
            sizes@.len() > 0 ==> remaining > 0,
        decreases remaining,
    {
        let ghost before = sizes@;
        sizes.push(chunk_size);
        remaining = remaining - chunk_size;
        assert(sizes@.drop_last() =~= before);
    }
    let ghost before = sizes@;
    sizes.push(remaining);
    assert(sizes@.drop_last() =~= before);
    sizes
}

/// A piece of a file that is one chunk.
#[derive(Debug, Clone, PartialEq, Eq)]
pub struct ChunkSegment {
    pub chunk_id: ChunkId,
    pub offset: u64,
    pub size: u64,
}

impl Dup for ChunkSegment {
    fn dup(&self) -> (r: Self) {
        ChunkSegment { chunk_id: self.chunk_id.dup(), offset: self.offset, size: self.size }
    }
}

pub open spec fn capped(n: nat) -> u64 {
    if n > u64::MAX {
        u64::MAX
    } else {
        n as u64
    }
}

/// The segments that chunks of these sizes make, one behind the other.
pub open spec fn segments_of(ids: Seq<ChunkId>, sizes: Seq<u64>) -> Seq<ChunkSegment> {
    Seq::new(
        ids.len(),
        |i: int|
            ChunkSegment {
                chunk_id: ids[i],
                offset: capped(total(sizes.take(i))),
                size: sizes[i],
            },
    )
}

/// The content of a file: one chunk, or a list of them under an id of its own.
#[derive(Debug, Clone, PartialEq, Eq)]
pub enum ContentLayout {
    Single { segment: ChunkSegment },
    ChunkList { segments: Vec<ChunkSegment>, chunk_list_obj_id: ObjId },
}

#[verifier::ext_equal]
pub ghost struct LayoutView {
    pub segments: Seq<ChunkSegment>,
    pub list: Option<ObjId>,
}

impl View for ContentLayout {
    type V = LayoutView;

    open spec fn view(&self) -> LayoutView {
        match self {
            ContentLayout::Single { segment } => LayoutView {
                segments: seq![*segment],
                list: None,
            },
            ContentLayout::ChunkList { segments, chunk_list_obj_id } => LayoutView {
                segments: segments@,
                list: Some(*chunk_list_obj_id),
            },
        }
    }
}

/// The id of the content: of the list, or of the one chunk.
pub open spec fn content_id(layout: LayoutView) -> ObjId {
    match layout.list {
        Some(id) => id,
        None => layout.segments[0].chunk_id.obj_id,
    }
}

impl ContentLayout {
    pub fn content_obj_id(&self) -> (r: ObjId)
        ensures
            r == content_id(self@),
    {
        match self {
            ContentLayout::Single { segment } => segment.chunk_id.to_obj_id(),
            ContentLayout::ChunkList { chunk_list_obj_id, .. } => chunk_list_obj_id.dup(),
        }
    }

    pub fn segments(&self) -> (r: Vec<ChunkSegment>)
        ensures
            r@ == self@.segments,
    {
        match self {
            ContentLayout::Single { segment } => {
                let mut out: Vec<ChunkSegment> = Vec::new();
                out.push(segment.dup());
                out
            },
            ContentLayout::ChunkList { segments, .. } => dup_all(segments),
        }
    }

    pub fn copy(&self) -> (r: Self)
        ensures
            r@ == self@,
    {
        match self {
            ContentLayout::Single { segment } => ContentLayout::Single { segment: segment.dup() },
            ContentLayout::ChunkList { segments, chunk_list_obj_id } => ContentLayout::ChunkList {
                segments: dup_all(segments),
                chunk_list_obj_id: chunk_list_obj_id.dup(),
            },
        }
    }

    /// The first chunk, which stands for the file where it has no sample of its own.
    pub fn qcid_from_content_layout(&self) -> (r: Result<ChunkId, BufferError>)
        ensures
            match r {
                Ok(id) => self@.segments.len() > 0 && id == self@.segments[0].chunk_id,
                Err(e) => self@.segments.len() == 0 && e == BufferError::EmptyListForQcid,
            },
    {
        match self {
            ContentLayout::Single { segment } => Ok(segment.chunk_id.dup()),
            ContentLayout::ChunkList { segments, .. } => {
                if segments.len() == 0 {
                    Err(BufferError::EmptyListForQcid)
                } else {
                    Ok(segments[0].chunk_id.dup())
                }
            },
        }
    }
}

/// The layout of chunks with these sizes, of which a list would have the id `list`.
pub open spec fn layout_of(ids: Seq<ChunkId>, sizes: Seq<u64>, list: ObjId) -> LayoutView {
    LayoutView {
        segments: segments_of(ids, sizes),
        list: if ids.len() == 1 {
            None
        } else {
            Some(list)
        },
    }
}

pub open spec fn layout_verdict(ids: nat, sizes: nat) -> Option<BufferError> {
    if ids != sizes {
        Some(BufferError::MergedCountMismatch { sizes: capped(sizes), ids: capped(ids) })
    } else if ids == 0 {
        Some(BufferError::MergedEmpty)
    } else {
        None
    }
}

/// The layout of a file over an earlier version, from its chunks and their sizes.
pub fn overlay_content_layout(
    merged_ids: &Vec<ChunkId>,
    merged_chunk_sizes: &Vec<u64>,
    chunk_list_obj_id: ObjId,
) -> (r: Result<ContentLayout, BufferError>)
    ensures
        match r {
            Ok(layout) => {
                &&& layout_verdict(merged_ids@.len(), merged_chunk_sizes@.len()) is None
                &&& layout@ == layout_of(merged_ids@, merged_chunk_sizes@, chunk_list_obj_id)
            },
            Err(e) => layout_verdict(merged_ids@.len(), merged_chunk_sizes@.len()) == Some(e),
        },
{
    let n: usize = merged_ids.len();
    if n != merged_chunk_sizes.len() {
        return Err(
            BufferError::MergedCountMismatch {
                sizes: merged_chunk_sizes.len() as u64,
                ids: n as u64,
            },
        );
    }
    if n == 0 {
        return Err(BufferError::MergedEmpty);
    }
    let mut segments: Vec<ChunkSegment> = Vec::new();
    let mut offset: u64 = 0;
    let mut i: usize = 0;
    while i < n
        invariant
            0 <= i <= n,
            n == merged_ids@.len(),
            n == merged_chunk_sizes@.len(),
            offset == capped(total(merged_chunk_sizes@.take(i as int))),
            segments@ =~= segments_of(merged_ids@, merged_chunk_sizes@).take(i as int),
        decreases n - i,
    {
        proof {
            lemma_total_step(merged_chunk_sizes@, i as int);
        }
        segments.push(
            ChunkSegment { chunk_id: merged_ids[i].dup(), offset, size: merged_chunk_sizes[i] },
        );
        offset = offset.saturating_add(merged_chunk_sizes[i]);
        i = i + 1;
    }
    assert(segments@ =~= segments_of(merged_ids@, merged_chunk_sizes@));
    if n == 1 {
        let layout: ContentLayout = ContentLayout::Single { segment: segments[0].dup() };
        assert(layout@ =~= layout_of(merged_ids@, merged_chunk_sizes@, chunk_list_obj_id));
        return Ok(layout);
    }
    Ok(ContentLayout::ChunkList { segments, chunk_list_obj_id })
}

/// The layout of a file of its own, from the ids of its cuts: one chunk when it
/// fits in one, a list otherwise.
pub fn calculate_content_layout(
    chunk_ids: &Vec<ChunkId>,
    file_size: u64,
    chunk_size: u64,
    chunk_list_obj_id: ObjId,
) -> (r: Result<ContentLayout, BufferError>)
    requires
        chunk_size > 0,
    ensures
        exists|sizes: Seq<u64>| #[trigger]
            is_cut(sizes, file_size, chunk_size) && match r {
                Ok(layout) => {
                    &&& chunk_ids@.len() == sizes.len()
                    &&& layout@ == layout_of(chunk_ids@, sizes, chunk_list_obj_id)
                },
                Err(e) => layout_verdict(chunk_ids@.len(), sizes.len()) == Some(e),
            },
{
    let sizes: Vec<u64> = chunk_cuts(file_size, chunk_size);
    let r: Result<ContentLayout, BufferError> = overlay_content_layout(
        chunk_ids,
        &sizes,
        chunk_list_obj_id,
    );
    assert(is_cut(sizes@, file_size, chunk_size));
    r
}

/// Checks the sizes against what a list of the same chunks adds up to, where
/// such a list can be made, and gives the size of the whole.
pub fn simple_chunk_list_from_ids_with_sizes(list_total: Option<u64>, chunk_sizes: &Vec<u64>) -> (r:
    Result<u64, BufferError>)
    requires
        total(chunk_sizes@) <= u64::MAX,
    ensures
        r == list_verdict(list_total, total(chunk_sizes@) as u64),
{
    let total_size: u64 = sum_sizes(chunk_sizes);
    match list_total {
        Some(got) if got != total_size => Err(
            BufferError::ListSizeMismatch { expect: total_size, got },
        ),
        _ => Ok(total_size),
    }
}

pub open spec fn list_verdict(list_total: Option<u64>, sum: u64) -> Result<u64, BufferError> {
    if list_total is Some && list_total->0 != sum {
        Err(BufferError::ListSizeMismatch { expect: sum, got: list_total->0 })
    } else {
        Ok(sum)
    }
}

/// The lengths that the ids themselves carry.
pub open spec fn own_lengths(ids: Seq<ChunkId>) -> Seq<u64> {
    ids.map_values(|id: ChunkId| id.length->0)
}

pub open spec fn all_have_lengths(ids: Seq<ChunkId>) -> bool {
    forall|i: int| 0 <= i < ids.len() ==> (#[trigger] ids[i]).length is Some
}

fn lengths_of(ids: &Vec<ChunkId>) -> (r: Option<Vec<u64>>)
    ensures
        match r {
            Some(sizes) => all_have_lengths(ids@) && sizes@ == own_lengths(ids@),
            None => !all_have_lengths(ids@),
        },
{
    let mut sizes: Vec<u64> = Vec::new();
    let mut i: usize = 0;
    while i < ids.len()
        invariant
            0 <= i <= ids@.len(),
            sizes@ =~= own_lengths(ids@).take(i as int),
            forall|j: int| 0 <= j < i ==> (#[trigger] ids@[j]).length is Some,
        decreases ids@.len() - i,
    {
        match ids[i].get_length() {
            Some(len) => sizes.push(len),
            None => {
                assert(ids@[i as int].length is None);
                return None;
            },
        }
        i = i + 1;
    }
    assert(sizes@ =~= own_lengths(ids@));
    Some(sizes)
}

/// The sizes of the chunks under the buffer: as noted, else as the ids say.
pub open spec fn base_sizes(ids: Seq<ChunkId>, state: DiffView) -> Option<Seq<u64>> {
    if state.base_chunk_sizes.len() > 0 {
        Some(state.base_chunk_sizes)
    } else if all_have_lengths(ids) {
        Some(own_lengths(ids))
    } else {
        None
    }
}

/// The sizes of the chunks of the whole: as noted, else those underneath.
pub open spec fn merged_sizes(ids: Seq<ChunkId>, state: DiffView) -> Option<Seq<u64>> {
    if state.merged_chunk_sizes.len() > 0 {
        Some(state.merged_chunk_sizes)
    } else {
        base_sizes(ids, state)
    }
}

pub fn overlay_base_sizes(base_chunk_ids: &Vec<ChunkId>, diff_state: &FileBufferDiffState) -> (r:
    Result<Vec<u64>, BufferError>)
    ensures
        match r {
            Ok(sizes) => base_sizes(base_chunk_ids@, diff_state@) == Some(sizes@),
            Err(e) => base_sizes(base_chunk_ids@, diff_state@) is None && e
                == BufferError::BaseSizeMissing,
        },
{
    if diff_state.base_chunk_sizes.len() > 0 {
        return Ok(dup_all(&diff_state.base_chunk_sizes));
    }
    match lengths_of(base_chunk_ids) {
        Some(sizes) => Ok(sizes),
        None => Err(BufferError::BaseSizeMissing),
    }
}

pub fn overlay_chunk_sizes(base_chunk_ids: &Vec<ChunkId>, diff_state: &FileBufferDiffState) -> (r:
    Result<Vec<u64>, BufferError>)
    ensures
        match r {
            Ok(sizes) => merged_sizes(base_chunk_ids@, diff_state@) == Some(sizes@),
            Err(e) => merged_sizes(base_chunk_ids@, diff_state@) is None && e
                == BufferError::OverlaySizeMissing,
        },
{
    if diff_state.merged_chunk_sizes.len() > 0 {
        return Ok(dup_all(&diff_state.merged_chunk_sizes));
    }
    match overlay_base_sizes(base_chunk_ids, diff_state) {
        Ok(sizes) => Ok(sizes),
        Err(_) => Err(BufferError::OverlaySizeMissing),
    }
}

/// Where the chunk writer takes up its work.
#[derive(Debug, Clone, PartialEq, Eq)]
pub struct DiffChunkListWriterState {
    pub base_chunk_list: ObjId,
    pub diff_file_path: String,
    pub chunk_indices: Vec<u64>,
    pub diff_chunk_sizes: Vec<u64>,
    pub base_chunk_sizes: Vec<u64>,
    pub merged_chunk_sizes: Vec<u64>,
    pub position: u64,
    pub total_size: u64,
    pub auto_cache: bool,
    pub local_mode: bool,
    pub fixed_chunk_size: Option<u64>,
    pub append_merge_last_chunk: bool,
}

/// The size of the whole: as noted, else the sum of its chunks.
pub open spec fn whole_size(state: DiffView, merged: Seq<u64>) -> nat {
    if state.total_size > 0 {
        state.total_size as nat
    } else {
        total(merged)
    }
}

/// `w` takes up the work of the buffer `fb` over the list `list`.
pub open spec fn resumes(w: DiffChunkListWriterState, fb: RecordView, list: ObjId) -> bool {
    let base = base_sizes(fb.base->0, fb.diff);
    let merged = merged_sizes(fb.base->0, fb.diff);
    &&& base == Some(w.base_chunk_sizes@)
    &&& merged == Some(w.merged_chunk_sizes@)
    &&& w.base_chunk_list == list
    &&& w.diff_file_path@ == fb.diff_file_path
    &&& w.chunk_indices@ == fb.diff.chunk_indices
    &&& w.diff_chunk_sizes@ == fb.diff.diff_chunk_sizes
    &&& w.total_size == whole_size(fb.diff, merged->0)
    &&& w.position == if fb.diff.position <= w.total_size {
        fb.diff.position
    } else {
        w.total_size
    }
    &&& w.auto_cache == fb.diff.auto_cache
    &&& w.local_mode == fb.diff.local_mode
    &&& w.fixed_chunk_size == fb.diff.fixed_chunk_size
    &&& w.append_merge_last_chunk == fb.diff.append_merge_last_chunk
}

/// Why no writer can take up the work of `fb`, if none can.
pub open spec fn writer_verdict(fb: RecordView, list_total: Option<u64>) -> Option<BufferError> {
    match fb.base {
        None => Some(BufferError::NoBaseList),
        Some(ids) => match base_sizes(ids, fb.diff) {
            None => Some(BufferError::BaseSizeMissing),
            Some(sizes) => match list_verdict(list_total, total(sizes) as u64) {
                Err(e) => Some(e),
                Ok(_) => None,
            },
        },
    }
}

/// Neither list of sizes of the buffer adds up to more than a file can hold.
pub open spec fn sizes_fit(fb: RecordView) -> bool {
    match fb.base {
        None => true,
        Some(ids) => {
            &&& base_sizes(ids, fb.diff) matches Some(s) ==> total(s) <= u64::MAX
            &&& merged_sizes(ids, fb.diff) matches Some(s) ==> total(s) <= u64::MAX
        },
    }
}

/// The state of the chunk writer over the base list with the id `base_list`.
/// `list_total` is what a list of the base chunks adds up to, where one can be
/// made.
pub fn overlay_writer_state(
    fb: &FileBufferRecord,
    list_total: Option<u64>,
    base_list: ObjId,
) -> (r: Result<DiffChunkListWriterState, BufferError>)
    requires
        sizes_fit(fb@),
    ensures
        match r {
            Ok(w) => writer_verdict(fb@, list_total) is None && resumes(w, fb@, base_list),
            Err(e) => writer_verdict(fb@, list_total) == Some(e),
        },
{
    let ids: &Vec<ChunkId> = match &fb.base_reader {
        FileBufferBaseReader::NoBase => {
            return Err(BufferError::NoBaseList);
        },
        FileBufferBaseReader::BaseChunkList(ids) => ids,
    };
    let state: &FileBufferDiffState = &fb.diff_state;
    let base_chunk_sizes: Vec<u64> = overlay_base_sizes(ids, state)?;
    let merged_chunk_sizes: Vec<u64> = overlay_chunk_sizes(ids, state)?;
    let total_size: u64 = if state.total_size > 0 {
        state.total_size
    } else {
        sum_sizes(&merged_chunk_sizes)
    };
    let _ = simple_chunk_list_from_ids_with_sizes(list_total, &base_chunk_sizes)?;
    let position: u64 = if state.position <= total_size {
        state.position
    } else {
        total_size
    };
    Ok(
        DiffChunkListWriterState {
            base_chunk_list: base_list,
            diff_file_path: fb.diff_file_path.clone(),
            chunk_indices: dup_all(&state.chunk_indices),
            diff_chunk_sizes: dup_all(&state.diff_chunk_sizes),
            base_chunk_sizes,
            merged_chunk_sizes,
            position,
            total_size,
            auto_cache: state.auto_cache,
            local_mode: state.local_mode,
            fixed_chunk_size: state.fixed_chunk_size,
            append_merge_last_chunk: state.append_merge_last_chunk,
        },
    )
}

} // verus!
