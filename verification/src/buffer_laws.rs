//! What holds of write buffers as a whole.

use vstd::prelude::*;
use crate::buffer::{
    append_verdict, handle_of, released, reserved, BufferError, BuffersView, ChunkId, RecordView,
};
use crate::buffer_layout::{
    is_cut, lemma_total_step, lemma_total_take, segments_of, total, ChunkSegment,
};
use crate::buffer_publish::{
    asks, finalized, finalizing, goes_direct, link_time, linked, name_step, naming, put_after,
    BufferCall, BufferProgress, BufferReply, ChunkLimits, ChunkRead, FinalizeData, NameTask,
};
use crate::text::{decimal, digit_char};

verus! {

/// A file has one cut only.
pub proof fn law_cut_is_unique(a: Seq<u64>, b: Seq<u64>, size: u64, chunk: u64)
    requires
        chunk > 0,
        is_cut(a, size, chunk),
        is_cut(b, size, chunk),
    ensures
        a == b,
    decreases a.len(),
{
    if a.len() == 1 && b.len() == 1 {
        assert(a.drop_last() =~= Seq::<u64>::empty());
        assert(b.drop_last() =~= Seq::<u64>::empty());
        assert(total(a.drop_last()) == 0 && total(b.drop_last()) == 0);
        assert(a =~= b);
    } else if a.len() == 1 {
        lemma_long_cut(b, size, chunk);
        assert(a.drop_last() =~= Seq::<u64>::empty());
        assert(total(a.drop_last()) == 0);
    } else if b.len() == 1 {
        lemma_long_cut(a, size, chunk);
        assert(b.drop_last() =~= Seq::<u64>::empty());
        assert(total(b.drop_last()) == 0);
    } else {
        lemma_long_cut(a, size, chunk);
        lemma_long_cut(b, size, chunk);
        law_cut_is_unique(a.drop_first(), b.drop_first(), (size - chunk) as u64, chunk);
        assert(a[0] == chunk && b[0] == chunk);
        assert(a =~= seq![chunk] + a.drop_first());
        assert(b =~= seq![chunk] + b.drop_first());
    }
}

/// What is left of a cut behind its first chunk is a cut of the rest.
proof fn lemma_long_cut(a: Seq<u64>, size: u64, chunk: u64)
    requires
        chunk > 0,
        is_cut(a, size, chunk),
        a.len() > 1,
    ensures
        size > chunk,
        is_cut(a.drop_first(), (size - chunk) as u64, chunk),
{
    let rest = a.drop_first();
    assert(a[0] == chunk);
    lemma_total_first(a);
    assert(rest.last() == a.last());
    assert(total(rest) == total(rest.drop_last()) + rest.last());
    assert forall|i: int| 0 <= i < rest.len() - 1 implies #[trigger] rest[i] == chunk by {
        assert(rest[i] == a[i + 1]);
    }
}

proof fn lemma_total_first(a: Seq<u64>)
    requires
        a.len() > 0,
    ensures
        total(a) == a[0] + total(a.drop_first()),
    decreases a.len(),
{
    if a.len() == 1 {
        assert(a.drop_last() =~= Seq::<u64>::empty());
        assert(a.drop_first() =~= Seq::<u64>::empty());
        assert(total(a.drop_last()) == 0 && total(a.drop_first()) == 0);
    } else {
        lemma_total_first(a.drop_last());
        assert(a.drop_last().drop_first() =~= a.drop_first().drop_last());
        assert(a.drop_first().last() == a.last());
    }
}

/// A file is one chunk exactly when it fits in one.
pub proof fn law_one_chunk_when_it_fits(sizes: Seq<u64>, size: u64, chunk: u64)
    requires
        chunk > 0,
        is_cut(sizes, size, chunk),
    ensures
        sizes.len() == 1 <==> size <= chunk,
{
    if sizes.len() > 1 {
        lemma_long_cut(sizes, size, chunk);
    } else {
        assert(sizes.drop_last() =~= Seq::<u64>::empty());
        assert(total(sizes.drop_last()) == 0);
    }
}

/// Segments follow one another without a gap or an overlap, from the start of
/// the file to its end.
pub proof fn law_segments_cover_file(ids: Seq<ChunkId>, sizes: Seq<u64>, i: int)
    requires
        ids.len() == sizes.len(),
        total(sizes) <= u64::MAX,
        0 <= i < ids.len(),
    ensures
        segments_of(ids, sizes)[0].offset == 0,
        i + 1 < ids.len() ==> segments_of(ids, sizes)[i + 1].offset == segments_of(
            ids,
            sizes,
        )[i].offset + segments_of(ids, sizes)[i].size,
        i + 1 == ids.len() ==> segments_of(ids, sizes)[i].offset + segments_of(ids, sizes)[i].size
            == total(sizes),
        segments_of(ids, sizes)[i].chunk_id == ids[i],
{
    assert(sizes.take(0) =~= Seq::<u64>::empty());
    assert(total(sizes.take(0)) == 0);
    lemma_total_step(sizes, i);
    lemma_total_take(sizes, i);
    lemma_total_take(sizes, i + 1);
    assert(sizes.take(sizes.len() as int) =~= sizes);
}

/// Reading for the store takes exactly the bytes of the chunk: the file stands
/// at its start when the read begins, and the noted place is where it ends.
pub proof fn law_read_takes_the_chunk(cursor: u64, segment: ChunkSegment)
    requires
        segment.offset + segment.size <= u64::MAX,
    ensures
        ({
            let (after, read) = put_after(cursor, segment, false);
            &&& read is Some
            &&& (if read->0.seek is Some {
                read->0.seek->0
            } else {
                cursor
            }) == segment.offset
            &&& read->0.len == segment.size
            &&& after == segment.offset + segment.size
        }),
        put_after(cursor, segment, true) == (cursor, None::<ChunkRead>),
{
}

/// The bytes set aside never pass the limit: neither a new buffer nor the end
/// of one brings them over it.
pub proof fn law_capacity_is_kept(v: BuffersView, expected: Option<u64>, file_len: Option<u64>)
    requires
        v.size_limit > 0,
        v.size_used <= v.size_limit,
    ensures
        reserved(v, expected) matches Some(used) ==> used <= v.size_limit,
        released(v, file_len).size_used <= v.size_limit,
{
}

/// What was set aside and is given back leaves the account as it was.
pub proof fn law_release_undoes_reserve(v: BuffersView, expected: u64)
    requires
        v.size_limit > 0,
        reserved(v, Some(expected)) is Some,
    ensures
        released(
            BuffersView { size_used: reserved(v, Some(expected))->0, ..v },
            Some(expected),
        ).size_used == v.size_used,
{
}

/// Nothing can be added to a finalized buffer.
pub proof fn law_finalized_buffer_is_closed(fb: RecordView, d: FinalizeData, now: u64)
    ensures
        append_verdict(finalized(fb, d, now)) == Err::<(), BufferError>(BufferError::ReadOnly),
{
}

/// Finalizing again does nothing, and naming again only flushes.
pub proof fn law_finalize_is_idempotent(
    v: BuffersView,
    fb: RecordView,
    d: FinalizeData,
    now: u64,
    limits: ChunkLimits,
)
    ensures
        finalizing(v, finalized(fb, d, now), limits).1 == (BufferProgress::Named {
            finalized: true,
        }),
        name_step(naming(v, finalized(fb, d, now), limits), BufferReply::Done).1 == (
        BufferProgress::Named { finalized: true }),
{
}

/// Naming a linked buffer again only flushes it; finalizing it goes on to the
/// end.
pub proof fn law_linked_buffer_keeps_its_name(
    v: BuffersView,
    fb: RecordView,
    d: FinalizeData,
    limits: ChunkLimits,
)
    ensures
        name_step(naming(v, linked(fb, d), limits), BufferReply::Done).1 == (
        BufferProgress::Named { finalized: false }),
        finalizing(v, linked(fb, d), limits).1 is Call,
        goes_direct(finalizing(v, linked(fb, d), limits).0),
{
}

/// How far a call is from the end of its task.
pub open spec fn calls_left(call: BufferCall) -> nat {
    match call {
        BufferCall::Flush => 8,
        BufferCall::HashFile => 7,
        BufferCall::MergeOverlay => 6,
        BufferCall::SampleFile => 6,
        BufferCall::PutChunks => 5,
        BufferCall::PutLinks => 5,
        BufferCall::PutObjects => 4,
        BufferCall::StoreLinked => 3,
        BufferCall::StoreFinalized => 3,
        BufferCall::TellLinked => 2,
        BufferCall::TellFinalized => 2,
        BufferCall::DropFile => 1,
    }
}

/// Every step brings a task nearer to its end.
pub proof fn law_naming_ends(t: NameTask, reply: BufferReply)
    ensures
        name_step(t, reply).1 matches BufferProgress::Call(next) ==> calls_left(next) < calls_left(
            t.last,
        ),
{
}

/// The calls of a task that began at `start`, on these replies.
pub open spec fn calls_made(
    start: (NameTask, BufferProgress),
    replies: Seq<BufferReply>,
) -> Seq<BufferCall>
    decreases replies.len(),
{
    if replies.len() == 0 {
        match start.1 {
            BufferProgress::Call(c) => seq![c],
            _ => Seq::empty(),
        }
    } else {
        let before = calls_made(start, replies.drop_last());
        match (
            stands_at(start, replies.drop_last()).1,
            stands_at(start, replies).1,
        ) {
            (BufferProgress::Call(_), BufferProgress::Call(c)) => before.push(c),
            _ => before,
        }
    }
}

/// How a task that began at `start` stands after these replies.  Replies behind
/// its end change nothing.
pub open spec fn stands_at(
    start: (NameTask, BufferProgress),
    replies: Seq<BufferReply>,
) -> (NameTask, BufferProgress)
    decreases replies.len(),
{
    if replies.len() == 0 {
        start
    } else {
        let before = stands_at(start, replies.drop_last());
        match before.1 {
            BufferProgress::Call(_) => name_step(before.0, replies.last()),
            _ => before,
        }
    }
}

/// `start` is the beginning of naming or of finalizing some buffer.
pub open spec fn is_start(start: (NameTask, BufferProgress)) -> bool {
    exists|v: BuffersView, fb: RecordView, limits: ChunkLimits|
        #![trigger naming(v, fb, limits)]
        start == asks(naming(v, fb, limits), BufferCall::Flush) || start == finalizing(
            v,
            fb,
            limits,
        )
}

/// The store has been given the content before `calls` end.
spec fn stored(t: NameTask, calls: Seq<BufferCall>) -> bool {
    t.has_store ==> {
        &&& calls.contains(BufferCall::PutObjects)
        &&& goes_direct(t) ==> calls.contains(BufferCall::PutChunks)
        &&& !goes_direct(t) ==> calls.contains(BufferCall::PutLinks)
    }
}

spec fn in_order(s: (NameTask, BufferProgress), calls: Seq<BufferCall>) -> bool {
    let t = s.0;
    match s.1 {
        BufferProgress::Call(c) => {
            &&& t.last == c
            &&& calls.len() > 0 && calls.last() == c
            &&& c == BufferCall::PutChunks ==> goes_direct(t)
            &&& c == BufferCall::PutLinks ==> !goes_direct(t)
            &&& c == BufferCall::PutObjects ==> stored(t, calls)
            &&& c == BufferCall::StoreLinked || c == BufferCall::TellLinked ==> !goes_direct(t)
                && stored(t, calls)
            &&& c == BufferCall::StoreFinalized || c == BufferCall::TellFinalized || c
                == BufferCall::DropFile ==> goes_direct(t) && stored(t, calls)
            &&& c == BufferCall::TellFinalized || c == BufferCall::DropFile ==> calls.contains(
                BufferCall::StoreFinalized,
            )
            &&& c == BufferCall::TellLinked ==> calls.contains(BufferCall::StoreLinked)
            &&& c == BufferCall::DropFile && t.has_meta ==> calls.contains(
                BufferCall::TellFinalized,
            )
        },
        BufferProgress::Named { finalized } => {
            ||| finalized && t.was_finalized
            ||| !finalized && t.was_linked && !t.was_finalized
            ||| {
                &&& finalized == goes_direct(t)
                &&& stored(t, calls)
                &&& finalized ==> calls.contains(BufferCall::StoreFinalized) && calls.contains(
                    BufferCall::DropFile,
                )
                &&& !finalized ==> calls.contains(BufferCall::StoreLinked)
                &&& t.has_meta && finalized ==> calls.contains(BufferCall::TellFinalized)
                &&& t.has_meta && !finalized ==> calls.contains(BufferCall::TellLinked)
            }
        },
        BufferProgress::Stopped => true,
    }
}

proof fn lemma_contains_push(calls: Seq<BufferCall>, c: BufferCall)
    ensures
        calls.push(c).contains(c),
        forall|x: BufferCall| calls.contains(x) ==> #[trigger] calls.push(c).contains(x),
{
    assert(calls.push(c)[calls.len() as int] == c);
    assert forall|x: BufferCall| calls.contains(x) implies #[trigger] calls.push(c).contains(
        x,
    ) by {
        let i = choose|i: int| 0 <= i < calls.len() && calls[i] == x;
        assert(calls.push(c)[i] == x);
    }
}

proof fn lemma_in_order(start: (NameTask, BufferProgress), replies: Seq<BufferReply>)
    requires
        is_start(start),
    ensures
        in_order(stands_at(start, replies), calls_made(start, replies)),
    decreases replies.len(),
{
    if replies.len() == 0 {
    } else {
        let rest = replies.drop_last();
        lemma_in_order(start, rest);
        let before = stands_at(start, rest);
        let calls = calls_made(start, rest);
        if let BufferProgress::Call(c) = before.1 {
            assert(calls[calls.len() - 1] == c);
            assert(calls.contains(c));
            if let BufferProgress::Call(next) = stands_at(start, replies).1 {
                lemma_contains_push(calls, next);
            }
        }
    }
}

/// The buffer's file goes only when nothing needs it any more: the store has the
/// chunks and the objects, where there is a store, the record says so on disk,
/// and the metadata service has taken the finalized state, where there is one.
pub proof fn law_file_goes_last(start: (NameTask, BufferProgress), replies: Seq<BufferReply>)
    requires
        is_start(start),
        stands_at(start, replies).1 == BufferProgress::Call(BufferCall::DropFile),
    ensures
        calls_made(start, replies).contains(BufferCall::StoreFinalized),
        start.0.has_store ==> calls_made(start, replies).contains(BufferCall::PutChunks)
            && calls_made(start, replies).contains(BufferCall::PutObjects),
        start.0.has_meta ==> calls_made(start, replies).contains(BufferCall::TellFinalized),
{
    lemma_in_order(start, replies);
    lemma_task_keeps(start, replies);
}

/// A task keeps what it was told of its surroundings.
proof fn lemma_task_keeps(start: (NameTask, BufferProgress), replies: Seq<BufferReply>)
    ensures
        stands_at(start, replies).0.has_store == start.0.has_store,
        stands_at(start, replies).0.has_meta == start.0.has_meta,
        stands_at(start, replies).0.limits == start.0.limits,
        stands_at(start, replies).0.must_finalize == start.0.must_finalize,
        stands_at(start, replies).0.was_linked == start.0.was_linked,
        stands_at(start, replies).0.was_finalized == start.0.was_finalized,
    decreases replies.len(),
{
    if replies.len() > 0 {
        lemma_task_keeps(start, replies.drop_last());
    }
}

/// A buffer that was neither linked nor finalized ends up in the store exactly
/// when it is small enough or when that was asked for; otherwise it is linked.
pub proof fn law_size_decides(
    start: (NameTask, BufferProgress),
    replies: Seq<BufferReply>,
    finalized: bool,
)
    requires
        is_start(start),
        !start.0.was_linked,
        !start.0.was_finalized,
        stands_at(start, replies).1 == (BufferProgress::Named { finalized }),
    ensures
        finalized == goes_direct(stands_at(start, replies).0),
        finalized ==> calls_made(start, replies).contains(BufferCall::StoreFinalized),
        !finalized ==> calls_made(start, replies).contains(BufferCall::StoreLinked),
{
    lemma_in_order(start, replies);
    lemma_task_keeps(start, replies);
}

pub proof fn lemma_decimal_digits(n: nat, i: int)
    requires
        0 <= i < decimal(n).len(),
    ensures
        48 <= decimal(n)[i] as int <= 57,
    decreases n,
{
    if n >= 10 {
        if i < decimal(n / 10).len() {
            lemma_decimal_digits(n / 10, i);
        }
    }
}

pub proof fn lemma_decimal_injective(a: nat, b: nat)
    requires
        decimal(a) == decimal(b),
    ensures
        a == b,
    decreases a,
{
    lemma_decimal_nonempty(a / 10);
    lemma_decimal_nonempty(b / 10);
    if a < 10 && b < 10 {
        assert(decimal(a)[0] == digit_char(a));
        assert(decimal(b)[0] == digit_char(b));
        assert(a == b);
    } else if a >= 10 && b >= 10 {
        assert(decimal(a).last() == digit_char(a % 10));
        assert(decimal(b).last() == digit_char(b % 10));
        assert(decimal(a).drop_last() =~= decimal(a / 10));
        assert(decimal(b).drop_last() =~= decimal(b / 10));
        lemma_decimal_injective(a / 10, b / 10);
        assert(a % 10 == b % 10);
    } else if a < 10 {
        assert(decimal(a).len() == 1);
        assert(decimal(b).len() == decimal(b / 10).len() + 1);
    } else {
        assert(decimal(b).len() == 1);
        assert(decimal(a).len() == decimal(a / 10).len() + 1);
    }
}

proof fn lemma_decimal_nonempty(n: nat)
    ensures
        decimal(n).len() > 0,
{
}

/// Two buffers made under different numbers have different handles, whenever
/// they were made.
pub proof fn law_handles_are_distinct(m1: u64, s1: u64, m2: u64, s2: u64)
    requires
        s1 != s2,
    ensures
        handle_of(m1, s1) != handle_of(m2, s2),
{
    if handle_of(m1, s1) == handle_of(m2, s2) {
        lemma_same_handle(m1, s1, m2, s2);
    }
}

proof fn lemma_same_handle(m1: u64, s1: u64, m2: u64, s2: u64)
    requires
        handle_of(m1, s1) == handle_of(m2, s2),
    ensures
        s1 == s2,
{
    reveal_strlit("-");
    reveal_strlit("fb-");
    let h = handle_of(m1, s1);
    let n = h.len();
    let a = decimal(s1 as nat);
    let b = decimal(s2 as nat);
    assert(h[n - a.len() - 1] == '-');
    assert(h[n - b.len() - 1] == '-');
    if a.len() < b.len() {
        let i = b.len() - a.len() - 1;
        lemma_decimal_digits(s2 as nat, i);
        assert(handle_of(m2, s2)[n - a.len() - 1] == b[i]);
    } else if b.len() < a.len() {
        let i = a.len() - b.len() - 1;
        lemma_decimal_digits(s1 as nat, i);
        assert(h[n - b.len() - 1] == a[i]);
    } else {
        assert forall|i: int| 0 <= i < a.len() implies a[i] == b[i] by {
            assert(h[n - a.len() + i] == a[i]);
            assert(handle_of(m2, s2)[n - a.len() + i] == b[i]);
        }
        assert(a =~= b);
        lemma_decimal_injective(s1 as nat, s2 as nat);
    }
}

/// A buffer that is finalized is closed, names its object and says when it was
/// finalized; where it was linked before, it keeps the moment of that.  Asking
/// for it again changes nothing.
pub proof fn law_finalized_buffer_keeps_its_link(
    v: BuffersView,
    fb: RecordView,
    d: FinalizeData,
    built_at: u64,
    now: u64,
    limits: ChunkLimits,
)
    requires
        d.linked_at == link_time(fb.diff.linked_at, built_at),
    ensures
        ({
            let done = finalized(fb, d, now);
            &&& done.read_only
            &&& done.diff.finalized_at == Some(now)
            &&& done.diff.linked_obj_id == Some(d.file_obj_id)
            &&& done.diff.linked_at == Some(d.linked_at)
            &&& fb.diff.linked_at is Some ==> done.diff.linked_at == fb.diff.linked_at
            &&& finalizing(v, done, limits).1 == (BufferProgress::Named { finalized: true })
        }),
{
}

} // verus!
