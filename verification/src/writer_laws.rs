//! What opening a file for writing, closing it and reading it promise: which
//! inode is written, what content it lies over, and where a reader finds it.

use vstd::prelude::*;
use crate::entry_laws::{
    base_has, has_inode_id, has_numbers, is_directory, is_free, is_open_dir, lemma_alloc_under,
    no_dangling, now_stands,
};
use crate::errors::MetaError;
use crate::lease_laws::{
    free_at, is_clock_time, law_free_inode_is_leased, leased_until, moment_after,
};
use crate::leases::acquire_after;
use crate::outside::{BaseStoreView, Question, Stop};
use crate::records::{
    law_state_columns_round_trip, state_cols, DentryTarget, FileCoolingState, FileWorkingState,
    FsMetaResolvePathItem, FsMetaResolvePathResp, NodeRecord, NodeState, ObjId, OpenFileReaderResp,
    OpenWriteFlag,
};
use crate::table_laws::other_rows_kept;
use crate::tables::{law_record_row_round_trip, NodeRow, TablesView};
use crate::writer::{
    close_writer_after, fresh_file_record, reader_source, start_writer, writer_target, AllocAnswer,
    HandleAnswer, Writer, WriterTargetView,
};

verus! {

/// A new file inode stands under the name, over this content, and is the one to
/// be written.
pub open spec fn new_file_stands(
    v: TablesView,
    t: WriterTargetView,
    at: (u64, Seq<char>),
    over: Option<ObjId>,
    now: u64,
) -> bool {
    &&& now_stands(v, t.tables, at, DentryTarget::IndexNodeId(t.file_id), now)
    &&& !v.nodes.contains_key(t.file_id)
    &&& t.tables.read(t.file_id) matches Ok(Some(n))
    &&& n.state is FileNormal
    &&& n.base_obj_id == over
    &&& !n.read_only
    &&& n.ref_by == Some(t.tables.dentries[at].id)
    &&& n.lease_client_session is None && n.lease_seq is None && n.lease_expire_at is None
    &&& t.base == over
    &&& t.state is FileNormal
    &&& forall|k: u64|
        v.nodes.contains_key(k) ==> t.tables.nodes.contains_key(k) && (#[trigger] t.tables.nodes[k])
            == (NodeRow {
            rev: t.tables.nodes[k].rev,
            ref_by: t.tables.nodes[k].ref_by,
            ..v.nodes[k]
        })
    &&& t.tables.stats == v.stats && t.tables.root == v.root
}

/// The object shows under the name: an entry points to it, or there is no entry
/// and the base of the directory has it.
pub open spec fn object_shows(
    v: TablesView,
    base: BaseStoreView,
    parent: u64,
    name: Seq<char>,
    o: ObjId,
) -> bool {
    if v.dentries.contains_key((parent, name)) {
        v.dentries[(parent, name)].target == DentryTarget::ObjId(o)
    } else {
        base_has(v, base, parent, name, o)
    }
}

/// What a directory has to be like for a file to be made in it under the name.
pub open spec fn takes_new_file(v: TablesView, parent: u64, name: Seq<char>) -> bool {
    &&& v.inv()
    &&& no_dangling(v)
    &&& is_open_dir(v, parent)
    &&& has_numbers(v, parent, name)
    &&& has_inode_id(v)
}

/// Where nothing stands under a name, a writer that may create makes a new, empty
/// file, and one that needs a file is refused.
pub proof fn law_writer_makes_an_empty_file(
    v: TablesView,
    base: BaseStoreView,
    parent: u64,
    name: String,
    flag: OpenWriteFlag,
    now: u64,
)
    requires
        takes_new_file(v, parent, name@),
        is_free(v, base, parent, name@),
    ensures
        flag is CreateExclusive || flag is CreateOrTruncate || flag is CreateOrAppend ==> (
        writer_target(v, base, parent, name, flag, now) matches Ok(t) && new_file_stands(
            v,
            t,
            (parent, name@),
            None,
            now,
        )),
        flag is Append || flag is ContinueWrite ==> writer_target(
            v,
            base,
            parent,
            name,
            flag,
            now,
        ) == Err::<WriterTargetView, Stop>(
            Stop::Refused(
                MetaError::FileNotFound { resume: flag is ContinueWrite, parent, name },
            ),
        ),
{
    lemma_alloc_under(v, parent, name, fresh_file_record(None), now);
}

/// Where a file object shows under a name, a writer gets a new inode over that
/// very object; only a writer that insists on a new file is refused.
pub proof fn law_writer_lies_over_the_object(
    v: TablesView,
    base: BaseStoreView,
    parent: u64,
    name: String,
    flag: OpenWriteFlag,
    o: ObjId,
    now: u64,
)
    requires
        takes_new_file(v, parent, name@),
        object_shows(v, base, parent, name@, o),
        o.obj_type@ != "cydir"@,
    ensures
        !(flag is CreateExclusive) ==> (writer_target(v, base, parent, name, flag, now) matches Ok(t)
            && new_file_stands(v, t, (parent, name@), Some(o), now)),
        flag is CreateExclusive ==> writer_target(v, base, parent, name, flag, now) == Err::<
            WriterTargetView,
            Stop,
        >(Stop::Refused(MetaError::FileExists { parent, name })),
{
    lemma_alloc_under(v, parent, name, fresh_file_record(Some(o)), now);
}

/// The state of a file: one in use, or one that stands for a file object.
pub open spec fn is_plain_file(state: NodeState) -> bool {
    match state {
        NodeState::FileNormal | NodeState::Working(_) | NodeState::Cooling(_) => true,
        NodeState::Linked(s) => s.obj_id.obj_type@ == "cyfile"@,
        NodeState::Finalized(s) => s.obj_id.obj_type@ == "cyfile"@,
        _ => false,
    }
}

/// Where an inode of a file stands under a name, that inode is written, as it is:
/// by a new writer unless one is at it, and by one that resumes if one was.
pub proof fn law_writer_takes_the_inode(
    v: TablesView,
    base: BaseStoreView,
    parent: u64,
    name: String,
    flag: OpenWriteFlag,
    id: u64,
    now: u64,
)
    requires
        is_open_dir(v, parent),
        v.dentries.contains_key((parent, name@)),
        v.dentries[(parent, name@)].target == DentryTarget::IndexNodeId(id),
        v.inode(id) matches Some(n) && is_plain_file(n.state),
    ensures
        ({
            let n = v.inode(id)->0;
            let fits = match flag {
                OpenWriteFlag::ContinueWrite => n.state is Working || n.state is Cooling,
                OpenWriteFlag::CreateExclusive => false,
                _ => !(n.state is Working),
            };
            if fits {
                writer_target(v, base, parent, name, flag, now) == Ok::<WriterTargetView, Stop>(
                    WriterTargetView {
                        tables: v,
                        file_id: id,
                        base: n.base_obj_id,
                        state: n.state,
                    },
                )
            } else {
                writer_target(v, base, parent, name, flag, now) is Err
            }
        }),
{
    reveal_strlit("cydir");
    reveal_strlit("cyfile");
    assert("cydir"@.len() != "cyfile"@.len());
}

/// A directory, a link, and a name in what is no open directory are not written,
/// whatever the flag.
pub proof fn law_only_files_are_written(
    v: TablesView,
    base: BaseStoreView,
    parent: u64,
    name: String,
    flag: OpenWriteFlag,
    o: ObjId,
    id: u64,
    now: u64,
)
    ensures
        !is_open_dir(v, parent) ==> writer_target(v, base, parent, name, flag, now) is Err,
        v.dentries.contains_key((parent, name@)) && v.dentries[(parent, name@)].target is SymLink
            ==> writer_target(v, base, parent, name, flag, now) is Err,
        object_shows(v, base, parent, name@, o) && o.obj_type@ == "cydir"@ ==> writer_target(
            v,
            base,
            parent,
            name,
            flag,
            now,
        ) is Err,
        v.dentries.contains_key((parent, name@)) && v.dentries[(parent, name@)].target
            == DentryTarget::IndexNodeId(id) && (v.inode(id) matches Some(n) ==> !is_plain_file(
            n.state,
        )) ==> writer_target(v, base, parent, name, flag, now) is Err,
{
}

/// A request to write that is refused says why.
pub proof fn law_refused_writers_say_why(
    v: TablesView,
    base: BaseStoreView,
    parent: u64,
    name: String,
    flag: OpenWriteFlag,
    o: ObjId,
    id: u64,
    now: u64,
)
    requires
        v.read(parent) is Ok,
        v.read(id) is Ok,
    ensures
        ({
            let r = writer_target(v, base, parent, name, flag, now);
            let at = (parent, name@);
            let points = v.dentries.contains_key(at) && v.dentries[at].target
                == DentryTarget::IndexNodeId(id);
            &&& !v.nodes.contains_key(parent) ==> r == refused(MetaError::ParentNotFound)
            &&& (v.inode(parent) matches Some(n) && !is_directory(n.state)) ==> r == refused(
                MetaError::ParentNotDir,
            )
            &&& (v.inode(parent) matches Some(n) && is_directory(n.state) && n.read_only) ==> r
                == refused(MetaError::ParentReadOnly)
            &&& is_open_dir(v, parent) && flag is CreateExclusive && points ==> r == refused(
                MetaError::FileExists { parent, name },
            )
            &&& is_open_dir(v, parent) && !(flag is CreateExclusive) ==> {
                &&& v.dentries.contains_key(at) && v.dentries[at].target is SymLink ==> r
                    == refused(MetaError::PathIsSymlink)
                &&& object_shows(v, base, parent, name@, o) && o.obj_type@ == "cydir"@ ==> r
                    == refused(MetaError::PathIsDir)
                &&& points && !v.nodes.contains_key(id) ==> r == refused(MetaError::InodeNotFound)
                &&& points && (v.inode(id) matches Some(n) && is_directory(n.state)) ==> r
                    == refused(MetaError::PathIsDir)
                &&& points && (v.inode(id) matches Some(n) && is_plain_file(n.state)) ==> {
                    let state = v.inode(id)->0.state;
                    &&& flag is ContinueWrite && !(state is Working) && !(state is Cooling) ==> r
                        == refused(MetaError::NotResumable { state })
                    &&& !(flag is ContinueWrite) && state is Working ==> r == refused(
                        MetaError::AlreadyWriting,
                    )
                }
            }
        }),
{
    reveal_strlit("cydir");
    reveal_strlit("cyfile");
    assert("cydir"@.len() != "cyfile"@.len());
}

pub open spec fn refused(e: MetaError) -> Result<WriterTargetView, Stop> {
    Err(Stop::Refused(e))
}

/// The inode to be written is there, as the choice says.
pub open spec fn is_chosen(t: WriterTargetView) -> bool {
    &&& t.tables.inv()
    &&& t.tables.inode(t.file_id) matches Some(n)
    &&& n.base_obj_id == t.base
    &&& n.state == t.state
    &&& t.tables.nodes[t.file_id].cols == state_cols(t.state)
}

/// The inode is being written through the buffer, under a lease of five minutes,
/// over this content; nothing else has changed.
pub open spec fn is_written(
    t: WriterTargetView,
    w: TablesView,
    who: Writer,
    lease_seq: u64,
    handle: String,
    over: Option<ObjId>,
    now: u64,
) -> bool {
    &&& w.read(t.file_id) matches Ok(Some(n))
    &&& n.state == NodeState::Working(FileWorkingState { fb_handle: handle, last_write_at: now })
    &&& n.base_obj_id == over
    &&& leased_until(w, t.file_id, who.session.0@, lease_seq, moment_after(now, 300))
    &&& n == (NodeRecord {
        state: n.state,
        base_obj_id: n.base_obj_id,
        lease_client_session: n.lease_client_session,
        lease_seq: n.lease_seq,
        lease_expire_at: n.lease_expire_at,
        ..t.tables.inode(t.file_id)->0
    })
    &&& other_rows_kept(t.tables, w, t.file_id, t.file_id)
    &&& w.dentries == t.tables.dentries && w.stats == t.tables.stats && w.root == t.tables.root
}

/// The inode that was chosen is the one that stands under the name.
pub proof fn law_chosen_inode_stands_under_the_name(
    v: TablesView,
    base: BaseStoreView,
    parent: u64,
    name: String,
    flag: OpenWriteFlag,
    now: u64,
)
    requires
        v.inv(),
    ensures
        writer_target(v, base, parent, name, flag, now) matches Ok(t)
            ==> t.tables.dentries.contains_key((parent, name@)) && t.tables.dentries[(
            parent,
            name@,
        )].target == DentryTarget::IndexNodeId(t.file_id) && t.tables.inv(),
{
}

/// Starting a writer moves no entry, and leaves the inode in writing through the
/// handle that is returned.
pub proof fn law_started_writer_is_at_work(
    t: WriterTargetView,
    flag: OpenWriteFlag,
    expected_size: Option<u64>,
    who: Writer,
    found: Option<HandleAnswer>,
    allocated: Option<AllocAnswer>,
    now: u64,
)
    requires
        t.tables.inv(),
    ensures
        start_writer(t, flag, expected_size, who, found, allocated, now) matches Ok((w, handle))
            ==> {
            &&& w.dentries == t.tables.dentries
            &&& w.nodes.contains_key(t.file_id)
            &&& w.nodes[t.file_id].cols == state_cols(
                NodeState::Working(FileWorkingState { fb_handle: handle, last_write_at: now }),
            )
        },
{
}

/// A writer of an inode that is not leased starts once a buffer was made for it:
/// the inode is then leased and bound to that buffer.  A writer that truncates
/// leaves it over nothing; every other keeps the object under it.
pub proof fn law_writer_starts(
    t: WriterTargetView,
    flag: OpenWriteFlag,
    expected_size: Option<u64>,
    who: Writer,
    found: Option<HandleAnswer>,
    made: AllocAnswer,
    handle: String,
    now: u64,
)
    requires
        is_chosen(t),
        is_clock_time(now),
        free_at(t.tables, t.file_id, now),
        t.tables.nodes[t.file_id].lease_seq matches Some(n) ==> n != 0x7fff_ffff_ffff_ffff && n
            != 0xffff_ffff_ffff_ffff,
        !(flag is ContinueWrite),
        made.file_id == t.file_id,
        made.session.0@ == who.session.0@,
        made.lease_seq == match t.tables.nodes[t.file_id].lease_seq {
            Some(m) => m + 1,
            None => 1,
        },
        made.made == Ok::<String, String>(handle),
    ensures
        start_writer(t, flag, expected_size, who, found, Some(made), now) matches Ok((w, h)) && {
            &&& h == handle
            &&& is_written(
                t,
                w,
                who,
                made.lease_seq,
                handle,
                if flag is CreateExclusive || flag is CreateOrTruncate {
                    None
                } else {
                    t.base
                },
                now,
            )
        },
{
    law_free_inode_is_leased(t.tables, t.file_id, who.session, 300, now);
    let x = acquire_after(t.tables, t.file_id, who.session, 300, now)->Ok_0.0;
    law_state_columns_round_trip(t.state);
    law_state_columns_round_trip(
        NodeState::Working(FileWorkingState { fb_handle: handle, last_write_at: now }),
    );
    law_record_row_round_trip(NodeRecord { base_obj_id: None, ..x.inode(t.file_id)->0 }, t.file_id);
}

/// A new writer asks for a buffer for its file, under the lease it would hold,
/// until one was made for just that; a buffer made for another file, session or
/// lease is none.
pub proof fn law_writer_asks_for_its_buffer(
    t: WriterTargetView,
    flag: OpenWriteFlag,
    expected_size: Option<u64>,
    who: Writer,
    found: Option<HandleAnswer>,
    made: Option<AllocAnswer>,
    now: u64,
)
    requires
        is_chosen(t),
        is_clock_time(now),
        free_at(t.tables, t.file_id, now),
        t.tables.nodes[t.file_id].lease_seq matches Some(n) ==> n != 0x7fff_ffff_ffff_ffff && n
            != 0xffff_ffff_ffff_ffff,
        !(flag is ContinueWrite),
    ensures
        ({
            let seq: int = match t.tables.nodes[t.file_id].lease_seq {
                Some(m) => m + 1,
                None => 1,
            };
            (made matches Some(a) ==> a.file_id != t.file_id || a.session.0@ != who.session.0@
                || a.lease_seq != seq) ==> start_writer(
                t,
                flag,
                expected_size,
                who,
                found,
                made,
                now,
            ) == Err::<(TablesView, String), Stop>(
                Stop::Ask(
                    Question::AllocBuffer {
                        file_id: t.file_id,
                        path: who.path,
                        session: who.session,
                        lease_seq: seq as u64,
                        expected_size,
                    },
                ),
            )
        }),
{
    law_free_inode_is_leased(t.tables, t.file_id, who.session, 300, now);
}

/// A writer that resumes goes on with the buffer the file is bound to, once that
/// is known to be there, and keeps the object under the file.
pub proof fn law_writer_resumes(
    t: WriterTargetView,
    expected_size: Option<u64>,
    who: Writer,
    found: Option<HandleAnswer>,
    allocated: Option<AllocAnswer>,
    handle: String,
    now: u64,
)
    requires
        is_chosen(t),
        is_clock_time(now),
        free_at(t.tables, t.file_id, now),
        t.tables.nodes[t.file_id].lease_seq matches Some(n) ==> n != 0x7fff_ffff_ffff_ffff && n
            != 0xffff_ffff_ffff_ffff,
        (t.state matches NodeState::Working(s) && s.fb_handle == handle) || (
        t.state matches NodeState::Cooling(s) && s.fb_handle == handle),
    ensures
        (found matches Some(a) && a.handle@ == handle@ && a.said is Ok) ==> (start_writer(
            t,
            OpenWriteFlag::ContinueWrite,
            expected_size,
            who,
            found,
            allocated,
            now,
        ) matches Ok((w, h)) && h == handle && is_written(
            t,
            w,
            who,
            match t.tables.nodes[t.file_id].lease_seq {
                Some(m) => (m + 1) as u64,
                None => 1,
            },
            handle,
            t.base,
            now,
        )),
        (found matches Some(a) && a.handle@ == handle@ && a.said is Err) ==> start_writer(
            t,
            OpenWriteFlag::ContinueWrite,
            expected_size,
            who,
            found,
            allocated,
            now,
        ) == Err::<(TablesView, String), Stop>(Stop::Refused(MetaError::BufferGone { handle })),
        (found matches Some(a) ==> a.handle@ != handle@) ==> start_writer(
            t,
            OpenWriteFlag::ContinueWrite,
            expected_size,
            who,
            found,
            allocated,
            now,
        ) == Err::<(TablesView, String), Stop>(Stop::Ask(Question::GetBuffer { handle })),
{
    law_free_inode_is_leased(t.tables, t.file_id, who.session, 300, now);
    law_state_columns_round_trip(t.state);
    law_state_columns_round_trip(
        NodeState::Working(FileWorkingState { fb_handle: handle, last_write_at: now }),
    );
}

/// A writer that does not truncate keeps the object under the file: where a file
/// object shows under the name and is opened to be appended to, the inode that
/// then stands under the name lies over that very object.
pub proof fn law_appending_keeps_the_object(
    v: TablesView,
    base: BaseStoreView,
    parent: u64,
    name: String,
    flag: OpenWriteFlag,
    o: ObjId,
    expected_size: Option<u64>,
    who: Writer,
    found: Option<HandleAnswer>,
    allocated: Option<AllocAnswer>,
    now: u64,
)
    requires
        takes_new_file(v, parent, name@),
        is_clock_time(now),
        object_shows(v, base, parent, name@, o),
        o.obj_type@ != "cydir"@,
        flag is Append || flag is CreateOrAppend,
    ensures
        writer_target(v, base, parent, name, flag, now) matches Ok(t) && (start_writer(
            t,
            flag,
            expected_size,
            who,
            found,
            allocated,
            now,
        ) matches Ok((w, handle)) ==> {
            &&& w.dentries.contains_key((parent, name@))
            &&& w.dentries[(parent, name@)].target matches DentryTarget::IndexNodeId(id)
            &&& w.read(id) matches Ok(Some(n))
            &&& n.base_obj_id == Some(o)
            &&& n.state matches NodeState::Working(s) && s.fb_handle == handle
        }),
{
    law_writer_lies_over_the_object(v, base, parent, name, flag, o, now);
    let t = writer_target(v, base, parent, name, flag, now)->Ok_0;
    law_state_columns_round_trip(t.state);
    if let Ok((w, handle)) = start_writer(t, flag, expected_size, who, found, allocated, now) {
        law_state_columns_round_trip(
            NodeState::Working(FileWorkingState { fb_handle: handle, last_write_at: now }),
        );
    }
}

/// A writer that is done leaves its file cooling in its buffer, over the content
/// it was over, free of its lease and otherwise as it was.
pub proof fn law_writer_is_closed(
    v: TablesView,
    id: u64,
    found: HandleAnswer,
    closed: HandleAnswer,
    handle: String,
    now: u64,
)
    requires
        v.inv(),
        v.inode(id) matches Some(n) && ((n.state matches NodeState::Working(s) && s.fb_handle
            == handle) || (n.state matches NodeState::Cooling(s) && s.fb_handle == handle)),
        v.nodes[id].cols == state_cols(v.inode(id)->0.state),
        found.handle@ == handle@,
        found.said is Ok,
        closed.handle@ == handle@,
        closed.said is Ok,
    ensures
        close_writer_after(v, id, true, Some(found), Some(closed), now) matches Ok(w) && {
            &&& w.read(id) matches Ok(Some(n))
            &&& n == (NodeRecord {
                state: NodeState::Cooling(FileCoolingState { fb_handle: handle, closed_at: now }),
                lease_client_session: n.lease_client_session,
                lease_expire_at: n.lease_expire_at,
                ..v.inode(id)->0
            })
            &&& v.nodes[id].lease_client_session is Some && v.nodes[id].lease_seq is Some ==> {
                &&& n.lease_client_session is None
                &&& n.lease_expire_at is None
            }
            &&& other_rows_kept(v, w, id, id)
            &&& w.dentries == v.dentries && w.stats == v.stats && w.root == v.root
        },
{
    law_state_columns_round_trip(v.inode(id)->0.state);
    law_state_columns_round_trip(
        NodeState::Cooling(FileCoolingState { fb_handle: handle, closed_at: now }),
    );
}

/// Closing goes step by step: it asks for the buffer the file is bound to, then
/// for that buffer to be closed, and fails where the buffer service does; a file
/// that is bound to none cannot be closed.
pub proof fn law_closing_asks_for_the_buffer(
    v: TablesView,
    id: u64,
    found: Option<HandleAnswer>,
    closed: Option<HandleAnswer>,
    handle: String,
    now: u64,
)
    ensures
        (v.inode(id) matches Some(n) && ((n.state matches NodeState::Working(s) && s.fb_handle
            == handle) || (n.state matches NodeState::Cooling(s) && s.fb_handle == handle))) ==> {
            &&& (found matches Some(a) ==> a.handle@ != handle@) ==> close_writer_after(
                v,
                id,
                true,
                found,
                closed,
                now,
            ) == Err::<TablesView, Stop>(Stop::Ask(Question::GetBuffer { handle }))
            &&& (found matches Some(a) && a.handle@ == handle@ && a.said is Ok) && (
            closed matches Some(c) ==> c.handle@ != handle@) ==> close_writer_after(
                v,
                id,
                true,
                found,
                closed,
                now,
            ) == Err::<TablesView, Stop>(Stop::Ask(Question::CloseBuffer { handle }))
            &&& (found matches Some(a) && a.handle@ == handle@ && a.said is Err)
                ==> close_writer_after(v, id, true, found, closed, now) == Err::<TablesView, Stop>(
                Stop::Refused(MetaError::GetBufferFailed { cause: found->0.said->Err_0 }),
            )
            &&& (found matches Some(a) && a.handle@ == handle@ && a.said is Ok) && (
            closed matches Some(c) && c.handle@ == handle@ && c.said is Err)
                ==> close_writer_after(v, id, true, found, closed, now) == Err::<TablesView, Stop>(
                Stop::Refused(MetaError::CloseBufferFailed { cause: closed->0.said->Err_0 }),
            )
        },
        v.read(id) matches Ok(None) ==> close_writer_after(v, id, true, found, closed, now)
            == Err::<TablesView, Stop>(Stop::Refused(MetaError::InodeNotFound)),
        (v.inode(id) matches Some(n) && is_directory(n.state)) ==> close_writer_after(
            v,
            id,
            true,
            found,
            closed,
            now,
        ) == Err::<TablesView, Stop>(Stop::Refused(MetaError::NotAFile)),
        close_writer_after(v, id, false, found, closed, now) == Err::<TablesView, Stop>(
            Stop::Refused(MetaError::BufferNotConfigured),
        ),
        (v.inode(id) matches Some(n) ==> !(n.state is Working) && !(n.state is Cooling))
            ==> close_writer_after(v, id, true, found, closed, now) is Err,
{
}

/// Where an inode is found, the reader is sent to the buffer while there is one,
/// then to the object it was published as, whatever it lies over, and to the
/// object it lies over before; a directory is not read.
pub proof fn law_reader_finds_the_content(
    inode_id: u64,
    node: NodeRecord,
    inner_path: Option<String>,
)
    ensures
        ({
            let resp = FsMetaResolvePathResp {
                item: FsMetaResolvePathItem::Inode { inode_id, inode: node },
                inner_path,
            };
            let r = reader_source(resp);
            match node.state {
                NodeState::Working(s) => r == Ok::<OpenFileReaderResp, MetaError>(
                    OpenFileReaderResp::FileBufferId(s.fb_handle),
                ),
                NodeState::Cooling(s) => r == Ok::<OpenFileReaderResp, MetaError>(
                    OpenFileReaderResp::FileBufferId(s.fb_handle),
                ),
                NodeState::Linked(s) => if s.obj_id.obj_type@ == "cydir"@ {
                    r == Err::<OpenFileReaderResp, MetaError>(MetaError::PathIsDir)
                } else {
                    r == Ok::<OpenFileReaderResp, MetaError>(
                        OpenFileReaderResp::Object(s.obj_id, None),
                    )
                },
                NodeState::Finalized(s) => if s.obj_id.obj_type@ == "cydir"@ {
                    r == Err::<OpenFileReaderResp, MetaError>(MetaError::PathIsDir)
                } else {
                    r == Ok::<OpenFileReaderResp, MetaError>(
                        OpenFileReaderResp::Object(s.obj_id, None),
                    )
                },
                NodeState::FileNormal => match node.base_obj_id {
                    Some(o) => r == Ok::<OpenFileReaderResp, MetaError>(
                        OpenFileReaderResp::Object(o, None),
                    ),
                    None => r is Err,
                },
                NodeState::DirNormal | NodeState::DirOverlay => r == Err::<
                    OpenFileReaderResp,
                    MetaError,
                >(MetaError::PathIsDir),
            }
        }),
{
}

/// Where an object is found, it is read, from the path inside it that is left;
/// a link that was not followed is not read.
pub proof fn law_reader_finds_the_object(o: ObjId, target: String, inner_path: Option<String>)
    ensures
        reader_source(
            FsMetaResolvePathResp { item: FsMetaResolvePathItem::ObjId(o), inner_path },
        ) == Ok::<OpenFileReaderResp, MetaError>(OpenFileReaderResp::Object(o, inner_path)),
        reader_source(
            FsMetaResolvePathResp { item: FsMetaResolvePathItem::SymLink(target), inner_path },
        ) == Err::<OpenFileReaderResp, MetaError>(MetaError::PathIsSymlink),
{
}

} // verus!
