//! What becomes of the content of a write buffer: where it is kept, when it is
//! linked and when it is moved into the store.

use vstd::prelude::*;
use crate::buffer::{
    append_verdict, appended, buffer_path_of, keyed, new_record, prefix_of, released, reserved,
    BufferError, BuffersView, ChunkId, DiffView, RecordView,
};
use crate::buffer_layout::{
    base_sizes, content_id, layout_of, layout_verdict, merged_sizes, resumes, total, writer_verdict,
    DiffChunkListWriterState,
};
use crate::buffer_laws::{calls_made, is_start, law_size_decides, stands_at};
use crate::buffer_publish::{
    finalized, finalizing, link_time, linked, name_step, naming, BufferCall, BufferProgress,
    BufferReply, ChunkLimits, FinalizeData, NameTask,
};
use crate::records::ObjId;

verus! {

/// Bytes can be set aside for a buffer where there is no limit, where it does not
/// say how many it needs, and where they fit; they are then counted as used.
pub proof fn law_room_is_set_aside(v: BuffersView, n: u64)
    ensures
        reserved(v, None) == Some(v.size_used),
        v.size_limit == 0 ==> reserved(v, Some(n)) == Some(v.size_used),
        v.size_limit > 0 && v.size_used + n <= v.size_limit ==> reserved(v, Some(n)) == Some(
            (v.size_used + n) as u64,
        ),
        v.size_limit > 0 && v.size_used + n > v.size_limit ==> reserved(v, Some(n)) is None,
{
}

/// Bytes that are given back are not counted any more; all else stays.
pub proof fn law_room_is_given_back(v: BuffersView, n: u64)
    ensures
        released(v, None) == v,
        n <= v.size_used ==> released(v, Some(n)) == (BuffersView {
            size_used: (v.size_used - n) as u64,
            ..v
        }),
        n > v.size_used ==> released(v, Some(n)) == (BuffersView { size_used: 0, ..v }),
{
}

/// A new buffer holds nothing, can be written, is bound to its file, and lies over
/// the chunks it was given, if there are any.
pub proof fn law_new_buffer_holds_nothing(
    dir: Seq<char>,
    handle: Seq<char>,
    inode: u64,
    base: Seq<ChunkId>,
)
    ensures
        ({
            let fb = new_record(dir, handle, inode, base);
            &&& fb.handle_id == handle && fb.file_inode_id == inode && !fb.read_only
            &&& base.len() > 0 ==> fb.base == Some(base)
            &&& base.len() == 0 ==> fb.base is None
            &&& fb.diff.total_size == 0 && fb.diff.position == 0
            &&& fb.diff.chunk_indices.len() == 0 && fb.diff.diff_chunk_sizes.len() == 0
            &&& fb.diff.linked_obj_id is None && fb.diff.linked_at is None
            &&& fb.diff.finalized_at is None && fb.diff.linked_qcid is None
            &&& base.len() == 0 ==> append_verdict(fb) is Ok
        }),
{
}

/// Two buffers never share a file.
pub proof fn law_buffers_have_files_of_their_own(dir: Seq<char>, a: Seq<char>, b: Seq<char>)
    requires
        buffer_path_of(dir, a) == buffer_path_of(dir, b),
    ensures
        a == b,
{
    reveal_strlit("/");
    reveal_strlit(".buf");
    let p = buffer_path_of(dir, a);
    let q = buffer_path_of(dir, b);
    let k = dir.len() + 4;
    assert(prefix_of(a).len() == 2 && prefix_of(b).len() == 2);
    assert(p.len() == k + a.len() + 4);
    assert(q.len() == k + b.len() + 4);
    assert forall|i: int| 0 <= i < a.len() implies a[i] == b[i] by {
        assert(p[k + i] == a[i]);
        assert(q[k + i] == b[i]);
    }
    assert(a =~= b);
}

/// Bytes are added to a buffer that is open and lies over nothing; a closed one,
/// and one over chunks, takes none this way.
pub proof fn law_open_buffer_takes_bytes(fb: RecordView, file_len: u64)
    ensures
        !fb.read_only && fb.base is None ==> append_verdict(fb) is Ok,
        fb.read_only ==> append_verdict(fb) == Err::<(), BufferError>(BufferError::ReadOnly),
        !fb.read_only && fb.base is Some ==> append_verdict(fb) == Err::<(), BufferError>(
            BufferError::AppendOverBase,
        ),
        appended(fb, file_len).diff.total_size == file_len,
        appended(fb, file_len).diff.position == file_len,
        appended(appended(fb, 0), fb.diff.total_size) == appended(fb, fb.diff.total_size),
        append_verdict(appended(fb, file_len)) == append_verdict(fb),
        appended(fb, file_len).diff.linked_obj_id == fb.diff.linked_obj_id,
        appended(fb, file_len).diff.finalized_at == fb.diff.finalized_at,
        appended(fb, file_len).file_inode_id == fb.file_inode_id,
        appended(fb, file_len).handle_id == fb.handle_id,
        appended(fb, file_len).diff_file_path == fb.diff_file_path,
{
}

/// Of the records that were stored under one handle the last counts.
pub proof fn law_last_record_counts(records: Seq<RecordView>, handle: Seq<char>, i: int)
    requires
        0 <= i < records.len(),
    ensures
        keyed(records).contains_key(records[i].handle_id),
        records[i].handle_id == handle && (forall|j: int|
            i < j < records.len() ==> (#[trigger] records[j]).handle_id != handle) ==> keyed(
            records,
        )[handle] == records[i],
        (forall|j: int| 0 <= j < records.len() ==> (#[trigger] records[j]).handle_id != handle)
            ==> !keyed(records).contains_key(handle),
    decreases records.len(),
{
    let init = records.drop_last();
    if i < records.len() - 1 {
        assert(init[i] == records[i]);
        law_last_record_counts(init, handle, i);
        if records[i].handle_id == handle && (forall|j: int|
            i < j < records.len() ==> (#[trigger] records[j]).handle_id != handle) {
            assert(records[records.len() - 1].handle_id != handle);
            assert forall|j: int| i < j < init.len() implies (#[trigger] init[j]).handle_id
                != handle by {
                assert(init[j] == records[j]);
            }
        }
    }
    if forall|j: int| 0 <= j < records.len() ==> (#[trigger] records[j]).handle_id != handle {
        assert(records[records.len() - 1].handle_id != handle);
        if init.len() > 0 {
            assert forall|j: int| 0 <= j < init.len() implies (#[trigger] init[j]).handle_id
                != handle by {
                assert(init[j] == records[j]);
            }
            law_last_record_counts(init, handle, 0);
        }
    }
}

/// A linked buffer names the object its content was published as and since when;
/// it stays as open as it was, and so does all that was written.
pub proof fn law_link_names_the_object(fb: RecordView, d: FinalizeData)
    ensures
        ({
            let l = linked(fb, d);
            &&& l.diff.linked_obj_id == Some(d.file_obj_id)
            &&& l.diff.linked_qcid == Some(d.qcid)
            &&& l.diff.linked_at == Some(d.linked_at)
            &&& l.diff.finalized_at is None
            &&& l.read_only == fb.read_only
            &&& l == (RecordView {
                diff: DiffView {
                    linked_obj_id: l.diff.linked_obj_id,
                    linked_qcid: l.diff.linked_qcid,
                    linked_at: l.diff.linked_at,
                    finalized_at: None,
                    ..fb.diff
                },
                ..fb
            })
        }),
{
}

/// A finalized buffer names its object too, is closed and says since when; all
/// that was written stays noted.
pub proof fn law_finalizing_closes_the_buffer(fb: RecordView, d: FinalizeData, now: u64)
    ensures
        ({
            let f = finalized(fb, d, now);
            &&& f.read_only
            &&& f.diff.finalized_at == Some(now)
            &&& f == (RecordView {
                read_only: true,
                diff: DiffView { finalized_at: Some(now), ..linked(fb, d).diff },
                ..linked(fb, d)
            })
        }),
{
}

/// A call that fails ends the task, and nothing else does: while the calls go
/// well, and tell the size where they are asked for it, the task goes on.
pub proof fn law_only_failures_stop(t: NameTask, reply: BufferReply)
    ensures
        reply is Failed ==> name_step(t, reply).1 is Stopped,
        reply is Size ==> !(name_step(t, reply).1 is Stopped),
        reply is Done && t.last != BufferCall::HashFile && t.last != BufferCall::MergeOverlay
            ==> !(name_step(t, reply).1 is Stopped),
{
}

/// The size of the content is what the hashing told; a file of its own that is
/// large enough is sampled, one over chunks never is.
pub proof fn law_large_files_are_sampled(t: NameTask, n: u64)
    ensures
        t.last == BufferCall::HashFile || t.last == BufferCall::MergeOverlay ==> {
            &&& name_step(t, BufferReply::Size(n)).0.size == n
            &&& name_step(t, BufferReply::Size(n)).1 == BufferProgress::Call(BufferCall::SampleFile)
                <==> t.last == BufferCall::HashFile && n >= t.limits.min_sample_size
        },
        t.last != BufferCall::HashFile && t.last != BufferCall::MergeOverlay ==> name_step(
            t,
            BufferReply::Done,
        ).0.size == t.size,
{
}

/// What lies on chunks is merged with them, and what does not is hashed by itself;
/// what was published before is not published again.
pub proof fn law_content_is_named_once(v: BuffersView, fb: RecordView, limits: ChunkLimits)
    ensures
        ({
            let first = name_step(naming(v, fb, limits), BufferReply::Done).1;
            let done = fb.diff.finalized_at is Some;
            let half = fb.diff.linked_obj_id is Some;
            &&& done ==> first == (BufferProgress::Named { finalized: true })
            &&& !done && half ==> first == (BufferProgress::Named { finalized: false })
            &&& !done && !half && fb.base is Some ==> first == BufferProgress::Call(
                BufferCall::MergeOverlay,
            )
            &&& !done && !half && fb.base is None ==> first == BufferProgress::Call(
                BufferCall::HashFile,
            )
            &&& !done && fb.base is Some ==> finalizing(v, fb, limits).1 == BufferProgress::Call(
                BufferCall::MergeOverlay,
            )
            &&& !done && fb.base is None ==> finalizing(v, fb, limits).1 == BufferProgress::Call(
                BufferCall::HashFile,
            )
        }),
{
}

/// Content of up to two chunks, and all content that is to be finalized, goes into
/// the store; what is larger is linked to the file of its buffer.
pub proof fn law_two_chunks_go_into_the_store(
    start: (NameTask, BufferProgress),
    replies: Seq<BufferReply>,
    finalized: bool,
)
    requires
        is_start(start),
        !start.0.was_linked,
        !start.0.was_finalized,
        stands_at(start, replies).1 == (BufferProgress::Named { finalized }),
    ensures
        ({
            let t = stands_at(start, replies).0;
            &&& finalized <==> t.must_finalize || t.size <= 2 * t.limits.chunk_size
            &&& finalized ==> calls_made(start, replies).contains(BufferCall::StoreFinalized)
            &&& !finalized ==> calls_made(start, replies).contains(BufferCall::StoreLinked)
        }),
{
    law_size_decides(start, replies, finalized);
}

/// Where there is a store it gets the chunks, or links to them, and then the
/// objects; where there is a metadata service it is told, before the file goes.
pub proof fn law_calls_follow_one_another(t: NameTask)
    ensures
        ({
            let next = name_step(t, BufferReply::Done).1;
            let whole = t.must_finalize || t.size <= 2 * t.limits.chunk_size;
            match t.last {
                BufferCall::SampleFile => next == BufferProgress::Call(
                    if !t.has_store {
                        if whole {
                            BufferCall::StoreFinalized
                        } else {
                            BufferCall::StoreLinked
                        }
                    } else if whole {
                        BufferCall::PutChunks
                    } else {
                        BufferCall::PutLinks
                    },
                ),
                BufferCall::PutChunks => next == BufferProgress::Call(BufferCall::PutObjects),
                BufferCall::PutLinks => next == BufferProgress::Call(BufferCall::PutObjects),
                BufferCall::PutObjects => next == BufferProgress::Call(
                    if whole {
                        BufferCall::StoreFinalized
                    } else {
                        BufferCall::StoreLinked
                    },
                ),
                BufferCall::StoreFinalized => next == BufferProgress::Call(
                    if t.has_meta {
                        BufferCall::TellFinalized
                    } else {
                        BufferCall::DropFile
                    },
                ),
                BufferCall::TellFinalized => next == BufferProgress::Call(BufferCall::DropFile),
                BufferCall::DropFile => next == (BufferProgress::Named { finalized: true }),
                BufferCall::StoreLinked => t.has_meta ==> next == BufferProgress::Call(
                    BufferCall::TellLinked,
                ),
                BufferCall::TellLinked => next == (BufferProgress::Named { finalized: false }),
                _ => true,
            }
        }),
{
}

/// Content of one chunk goes by the id of that chunk, any other by the id of its
/// list; the chunks are those it is made of, in their order.
pub proof fn law_content_goes_by_its_chunks(ids: Seq<ChunkId>, sizes: Seq<u64>, list: ObjId, i: int)
    requires
        ids.len() > 0,
        ids.len() == sizes.len(),
        0 <= i < ids.len(),
    ensures
        ids.len() == 1 ==> content_id(layout_of(ids, sizes, list)) == ids[0].obj_id,
        ids.len() > 1 ==> content_id(layout_of(ids, sizes, list)) == list,
        layout_of(ids, sizes, list).segments.len() == ids.len(),
        layout_of(ids, sizes, list).segments[i].chunk_id == ids[i],
        layout_of(ids, sizes, list).segments[i].size == sizes[i],
        layout_verdict(ids.len(), sizes.len()) is None,
        layout_verdict(ids.len(), sizes.len() + 1) is Some,
        layout_verdict(0, 0) is Some,
{
}

/// The sizes of chunks are those that were noted, and those that the ids carry
/// where none were; the sizes of the whole are those of the chunks underneath
/// where nothing was written.
pub proof fn law_noted_sizes_come_first(ids: Seq<ChunkId>, state: DiffView, i: int)
    ensures
        state.base_chunk_sizes.len() > 0 ==> base_sizes(ids, state) == Some(state.base_chunk_sizes),
        state.merged_chunk_sizes.len() > 0 ==> merged_sizes(ids, state) == Some(
            state.merged_chunk_sizes,
        ),
        state.merged_chunk_sizes.len() == 0 ==> merged_sizes(ids, state) == base_sizes(ids, state),
        state.base_chunk_sizes.len() == 0 && 0 <= i < ids.len() && ids[i].length is None
            ==> base_sizes(ids, state) is None,
        state.base_chunk_sizes.len() == 0 && 0 <= i < ids.len() && (base_sizes(ids, state)
            matches Some(s) && true) ==> base_sizes(ids, state)->0.len() == ids.len()
            && ids[i].length == Some(base_sizes(ids, state)->0[i]),
        state.base_chunk_sizes.len() == 0 && (forall|j: int|
            0 <= j < ids.len() ==> (#[trigger] ids[j]).length is Some) ==> base_sizes(ids, state)
            is Some,
{
    if state.base_chunk_sizes.len() == 0 && 0 <= i < ids.len() && ids[i].length is None {
        assert(!crate::buffer_layout::all_have_lengths(ids));
    }
}

/// A chunk writer takes up where the last one stopped: at the place it had come
/// to, never behind the end, with all that was written noted.
pub proof fn law_chunk_writer_goes_on(
    w: DiffChunkListWriterState,
    fb: RecordView,
    list: ObjId,
)
    requires
        resumes(w, fb, list),
    ensures
        w.base_chunk_list == list,
        w.chunk_indices@ == fb.diff.chunk_indices,
        w.diff_chunk_sizes@ == fb.diff.diff_chunk_sizes,
        w.position <= w.total_size,
        fb.diff.total_size > 0 ==> w.total_size == fb.diff.total_size,
        fb.diff.total_size == 0 ==> w.total_size == total(w.merged_chunk_sizes@),
        fb.diff.position <= w.total_size ==> w.position == fb.diff.position,
        fb.diff.position > w.total_size ==> w.position == w.total_size,
        w.diff_file_path@ == fb.diff_file_path,
        w.fixed_chunk_size == fb.diff.fixed_chunk_size,
        w.append_merge_last_chunk == fb.diff.append_merge_last_chunk,
        w.auto_cache == fb.diff.auto_cache,
        w.local_mode == fb.diff.local_mode,
{
}

/// Once content is linked it keeps the moment of its first link.
pub proof fn law_first_link_counts(at: u64, now: u64)
    ensures
        link_time(Some(at), now) == at,
        link_time(None, now) == now,
        link_time(Some(link_time(None, at)), now) == at,
{
}

/// A chunk writer can take up a buffer that lies over chunks whose sizes are
/// known and add up to what their list says, where it says it.
pub proof fn law_chunk_writer_needs_its_base(fb: RecordView, list_total: Option<u64>)
    ensures
        fb.base is None ==> writer_verdict(fb, list_total) == Some(BufferError::NoBaseList),
        fb.base matches Some(ids) ==> match base_sizes(ids, fb.diff) {
            None => writer_verdict(fb, list_total) == Some(BufferError::BaseSizeMissing),
            Some(sizes) => total(sizes) <= u64::MAX ==> {
                &&& list_total is None || list_total->0 == total(sizes) ==> writer_verdict(
                    fb,
                    list_total,
                ) is None
                &&& list_total is Some && list_total->0 != total(sizes) ==> writer_verdict(
                    fb,
                    list_total,
                ) == Some(
                    BufferError::ListSizeMismatch {
                        expect: total(sizes) as u64,
                        got: list_total->0,
                    },
                )
            },
        },
{
}

} // verus!
