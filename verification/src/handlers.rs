//! The requests of the metadata service.

use vstd::prelude::*;
use crate::cache_laws::{
    cache_true, keeps_base, keeps_kind, law_applied_keeps_cache_true,
    law_opened_writer_keeps_cache_true, law_reading_tells_the_tables,
    law_resolution_tells_the_tables, law_stored_keeps_cache_true, lemma_set_inode_fits,
};
use crate::cache_laws_dirs::{
    law_ensured_dir_keeps_cache_true, law_finishing_keeps_cache_true, one_resolution,
};
use crate::cache_room::has_room;
use crate::coherence_laws::base_under;
use crate::ensure::{dir_answer_is, ensures_dir, DirAnswer, When};
use crate::errors::MetaError;
use crate::finalize::{
    finish_committed, finishes, plan_is, plans_finalize, FinalizePlan, FinalizeStep, PlanView,
};
use crate::leases::{acquire_after, expired_ids, reclaim_after, release_after, renew_after};
use crate::list_cache::{cursor_after, next_page, ListSession};
use crate::listing::{first_unreadable, has_unreadable, is_entries, is_list, listable};
use crate::moves::{move_path_after, move_path_seen};
use crate::names::NameMap;
use crate::ops::{
    create_dir_after, delete_after, delete_seen, lift, see_set_dir, see_set_file, see_symlink,
    set_dir_after, set_dir_seen, set_file_after, set_file_seen, symlink_after, symlink_seen, After,
};
use crate::outside::Stop;
use crate::paths::{path_parts, NfsPath};
use crate::paths_kept::{
    fits, lemma_alloc_fits, lemma_create_fits, lemma_delete_fits, lemma_fits_kept,
    lemma_remove_fits, lemma_replace_fits, sound,
};
use crate::records::{
    DentryRecord, DentryTarget, FsMetaListEntry, FsMetaResolvePathResp, NodeRecord, NodeState, ObjId,
    ObjStat, OpenFileReaderResp, OpenWriteFlag, SessionId,
};
use crate::requests_fit::{
    lemma_bump_fits, lemma_close_fits, lemma_lease_requests_fit, lemma_move_fits,
    lemma_name_requests_fit, lemma_reclaim_fits, lemma_stat_bump_fits, lemma_state_fits,
};
use crate::resolve::{answer_is, reader_is, resolves, Answer};
use crate::resolve_laws::resolved;
use crate::service::{
    changes, opt_text, reads, stored, writes, FSMetaService, ServiceRest, ServiceView,
};
use crate::stats::{is_idle_list, stat_bump_after};
use crate::table::Key;
use crate::tables::{
    alloc_inode_after, bump_dir_rev_after, create_dentry_after, create_dentry_seen,
    delete_dentry_after, delete_dentry_seen, record_row, remove_inode_after, replace_target_after,
    replace_target_seen, update_inode_state_after, MetaTables, TablesView,
};
use crate::text::view_all;
use crate::writer::{
    check_setup, close_writer_after, close_writer_seen, is_writer, see_close_writer, setup_error,
    start_writer, writer_target, BufferAnswers, Writer, WriterSetup,
};

verus! {

/// An outcome without an answer of its own.
pub open spec fn plain<T>(r: Result<T, MetaError>) -> Result<(T, ()), MetaError> {
    match r {
        Ok(w) => Ok((w, ())),
        Err(e) => Err(e),
    }
}

/// A request outside any transaction that changes several rows at once, in a
/// transaction of its own.  `seen` is what it answers before it begins one.
pub open spec fn applies(
    s: ServiceView,
    seen: Option<Result<(), MetaError>>,
    after: After,
    t: ServiceView,
    r: Result<(), Stop>,
) -> bool {
    if s.busy() {
        t == s && r == match seen {
            Some(x) => lift(x),
            None => Err::<(), Stop>(Stop::Refused(MetaError::TxnBeginBusy)),
        }
    } else {
        match after {
            Err(x) => r == Err::<(), Stop>(x) && t == s,
            Ok(w) => r is Ok && stored(s, None, w, t),
        }
    }
}

/// Opening a writer where no transaction is open.
pub open spec fn opens(
    s: ServiceView,
    after: Result<(TablesView, String), Stop>,
    t: ServiceView,
    r: Result<String, Stop>,
) -> bool {
    match after {
        Err(x) => r == Err::<String, Stop>(x) && t == s,
        Ok(done) => r == Ok::<String, Stop>(done.1) && stored(s, None, done.0, t),
    }
}

/// The statistics of an object.
pub open spec fn stat_of(v: TablesView, obj_id: ObjId) -> Option<ObjStat> {
    if v.stats.contains_key(obj_id.model()) {
        Some(v.stats[obj_id.model()])
    } else {
        None
    }
}

/// The tables without the statistics of an object that nothing refers to, and
/// whether there were such.
pub open spec fn zero_dropped(v: TablesView, obj_id: ObjId) -> Result<(TablesView, bool), MetaError> {
    if v.stats.contains_key(obj_id.model()) && v.stats[obj_id.model()].ref_count == 0 {
        Ok((TablesView { stats: v.stats.remove(obj_id.model()), ..v }, true))
    } else {
        Ok((v, false))
    }
}

/// Resolving a path against the committed tables.
pub open spec fn resolves_path(
    a: FSMetaService,
    path: Seq<char>,
    sym_count: u32,
    b: FSMetaService,
    r: Result<Option<FsMetaResolvePathResp>, Stop>,
) -> bool {
    &&& b.rest == a.rest
    &&& b@ == (ServiceView { cache: b@.cache, ..a@ })
    &&& exists|answer: Answer| #[trigger]
        resolves(
            a@.tables,
            a.rest.base@,
            a@.cache,
            path_parts(path),
            sym_count as nat,
            b@.cache,
            answer,
        ) && answer_is(r, answer)
}

/// Listing the entries of a directory.
pub open spec fn lists_dentries(
    s: ServiceView,
    txid: Option<Seq<char>>,
    parent: u64,
    now: u64,
    t: ServiceView,
    r: Result<Vec<DentryRecord>, MetaError>,
) -> bool {
    match s.works_on(txid) {
        Err(e) => r == Err::<Vec<DentryRecord>, MetaError>(e) && t == s,
        Ok(v) => r matches Ok(out) && is_entries(v, parent, out@) && t == s.used(txid, now),
    }
}

/// Opening a list session.
pub open spec fn starts_list(
    a: FSMetaService,
    txid: Option<Seq<char>>,
    parent: u64,
    now: u64,
    b: FSMetaService,
    r: Result<u64, Stop>,
) -> bool {
    match a@.works_on(txid) {
        Err(e) => r == Err::<u64, Stop>(Stop::Refused(e)) && b.rest == a.rest && b@ == a@,
        Ok(v) => b@ == a@.used(txid, now) && match listable(v, a.rest.base@, parent) {
            Err(s) => r == Err::<u64, Stop>(s) && b.rest == a.rest,
            Ok(kids) => if has_unreadable(v, kids, parent) {
                b.rest == a.rest && (r matches Err(Stop::Refused(e)) && first_unreadable(
                    v,
                    kids,
                    parent,
                    e,
                ))
            } else {
                exists|m: NameMap<FsMetaListEntry>| #[trigger]
                    is_list(v, kids, parent, m@) && m.wf() && listed_in(a.rest, m, b.rest, r)
            },
        },
    }
}

/// Taking the next page of a list session.
pub open spec fn takes_page(
    a: ServiceRest,
    list_session_id: u64,
    page_size: u32,
    b: ServiceRest,
    r: Result<NameMap<FsMetaListEntry>, MetaError>,
) -> bool {
    let before = a.lists.sessions@;
    let after = b.lists.sessions@;
    &&& b == (ServiceRest { lists: b.lists, ..a })
    &&& b.lists.next_session_id == a.lists.next_session_id
    &&& match r {
        Err(e) => !before.contains_key(list_session_id) && e == MetaError::ListSessionNotFound
            && after == before,
        Ok(page) => before.contains_key(list_session_id) && ({
            let s = before[list_session_id]@;
            let t = after[list_session_id]@;
            &&& page.wf()
            &&& page.rows@ == next_page(s.rows, s.cursor, page_size)
            &&& t.rows == s.rows
            &&& t.cursor == cursor_after(page.rows@, s.cursor)
            &&& after == before.insert(list_session_id, after[list_session_id])
        }),
    }
}

/// Closing a list session.
pub open spec fn stops_list(a: ServiceRest, list_session_id: u64, b: ServiceRest) -> bool {
    &&& b.lists.sessions@ == a.lists.sessions@.remove(list_session_id)
    &&& b.lists.next_session_id == a.lists.next_session_id
    &&& b == (ServiceRest { lists: b.lists, ..a })
}

/// Deleting a name outside any transaction.
pub open spec fn deletes(
    s: ServiceView,
    parent: u64,
    name: String,
    now: u64,
    t: ServiceView,
    r: Result<(), Stop>,
) -> bool {
    &&& !(r matches Err(Stop::Ask(_)))
    &&& changes(
        s,
        None,
        now,
        |v: TablesView| delete_seen(v, parent, name@),
        |v: TablesView| plain(delete_after(v, parent, name, now)),
        t,
        match r {
            Ok(_) => Ok(()),
            Err(Stop::Refused(e)) => Err(e),
            Err(Stop::Ask(_)) => Ok(()),
        },
    )
}

/// The verdict in a result that also carries a text.
pub open spec fn without_text(r: Result<String, Stop>) -> Result<(), Stop> {
    match r {
        Ok(_) => Ok(()),
        Err(s) => Err(s),
    }
}

/// Entering a file object under a name; the text that comes back is empty.
pub open spec fn enters_file(
    a: FSMetaService,
    parent: u64,
    name: String,
    obj_id: ObjId,
    now: u64,
    b: FSMetaService,
    r: Result<String, Stop>,
) -> bool {
    &&& b.rest == a.rest
    &&& r matches Ok(text) ==> text@.len() == 0
    &&& applies(
        a@,
        set_file_seen(name@),
        set_file_after(a@.tables, a.rest.base@, parent, name, obj_id, now),
        b@,
        without_text(r),
    )
}

/// Entering a directory object under a name; the text that comes back is empty.
pub open spec fn enters_dir(
    a: FSMetaService,
    parent: u64,
    name: String,
    obj_id: ObjId,
    now: u64,
    b: FSMetaService,
    r: Result<String, Stop>,
) -> bool {
    &&& b.rest == a.rest
    &&& r matches Ok(text) ==> text@.len() == 0
    &&& applies(
        a@,
        set_dir_seen(name@, obj_id),
        set_dir_after(a@.tables, a.rest.base@, parent, name, obj_id, now),
        b@,
        without_text(r),
    )
}

/// Entering a link under a name.
pub open spec fn enters_link(
    a: FSMetaService,
    parent: u64,
    name: String,
    target: String,
    now: u64,
    b: FSMetaService,
    r: Result<(), Stop>,
) -> bool {
    &&& b.rest == a.rest
    &&& applies(
        a@,
        symlink_seen(name@, target@),
        symlink_after(a@.tables, a.rest.base@, parent, name, target, now),
        b@,
        r,
    )
}

/// Making a directory under a name.
pub open spec fn makes_dir(
    a: FSMetaService,
    parent: u64,
    name: String,
    now: u64,
    b: FSMetaService,
    r: Result<(), Stop>,
) -> bool {
    &&& b.rest == a.rest
    &&& applies(
        a@,
        set_file_seen(name@),
        create_dir_after(a@.tables, a.rest.base@, parent, name, now),
        b@,
        r,
    )
}

/// Moving an entry from one name to another.
pub open spec fn moves_entry(
    a: FSMetaService,
    src_parent: u64,
    src_name: String,
    dst_parent: u64,
    dst_name: String,
    now: u64,
    b: FSMetaService,
    r: Result<(), Stop>,
) -> bool {
    let v = a@.tables;
    &&& b.rest == a.rest
    &&& applies(
        a@,
        move_path_seen(v, src_parent, src_name, dst_parent, dst_name),
        lift(move_path_after(v, src_parent, src_name, dst_parent, dst_name, now)),
        b@,
        r,
    )
}

/// Ending the work of a writer.
pub open spec fn ends_writing(
    a: FSMetaService,
    file_id: u64,
    answers: BufferAnswers,
    now: u64,
    b: FSMetaService,
    r: Result<(), Stop>,
) -> bool {
    let ready = a.rest.has_buffer;
    &&& b.rest == a.rest
    &&& applies(
        a@,
        close_writer_seen(ready),
        close_writer_after(a@.tables, file_id, ready, answers.found, answers.closed, now),
        b@,
        r,
    )
}

/// Opening a reader on the file at the path `p`; only the cache may change.
pub open spec fn opens_reader(
    a: FSMetaService,
    p: Seq<Seq<char>>,
    b: FSMetaService,
    r: Result<OpenFileReaderResp, Stop>,
) -> bool {
    &&& b.rest == a.rest
    &&& b@ == (ServiceView { cache: b@.cache, ..a@ })
    &&& if p.len() == 0 {
        b@.cache == a@.cache && r == Err::<OpenFileReaderResp, Stop>(
            Stop::Refused(MetaError::PathIsDir),
        )
    } else {
        exists|x: Answer| #[trigger]
            resolves(a@.tables, a.rest.base@, a@.cache, p, 0, b@.cache, x) && reader_is(r, x)
    }
}

/// Removing an inode; the root stays.
pub open spec fn removes_inode(
    s: ServiceView,
    txid: Option<Seq<char>>,
    id: u64,
    now: u64,
    t: ServiceView,
    r: Result<(), MetaError>,
) -> bool {
    if id == s.tables.root {
        r == Err::<(), MetaError>(MetaError::CannotRemoveRoot) && t == s
    } else {
        writes(s, txid, now, |v: TablesView| plain(remove_inode_after(v, id)), t, r)
    }
}

/// Taking back the leases that have ended, outside any transaction.
pub open spec fn reclaims(
    s: ServiceView,
    now: u64,
    t: ServiceView,
    r: Result<usize, MetaError>,
) -> bool {
    writes(
        s,
        None,
        now,
        |v: TablesView| Ok((reclaim_after(v, now), expired_ids(v, now).len() as usize)),
        t,
        r,
    )
}

/// Finding the directory at a path, or making it.
pub open spec fn makes_way(
    a: FSMetaService,
    path: Seq<char>,
    now: u64,
    b: FSMetaService,
    r: Result<u64, Stop>,
) -> bool {
    &&& b.rest == a.rest
    &&& b@.txns == a@.txns
    &&& b@.txn_seq == a@.txn_seq
    &&& exists|x: DirAnswer| #[trigger]
        ensures_dir(
            a@.tables,
            a@.cache,
            a.rest.base@,
            path,
            (When { now, locked: a@.busy() }),
            b@.tables,
            b@.cache,
            x,
        ) && dir_answer_is(r, x)
}

/// Planning to finalize the directory at a path; the paths that have to be
/// finalized first join the queue.
pub open spec fn makes_plan(
    a: FSMetaService,
    path: Seq<char>,
    now: u64,
    b: FSMetaService,
    r: Result<FinalizeStep, Stop>,
) -> bool {
    &&& b.rest == (ServiceRest { finalize_queue: b.rest.finalize_queue, ..a.rest })
    &&& view_all(b.rest.finalize_queue@) == view_all(a.rest.finalize_queue@) + match r {
        Ok(FinalizeStep::Queue(paths)) => view_all(paths@),
        _ => Seq::empty(),
    }
    &&& b@.txns == a@.txns
    &&& b@.txn_seq == a@.txn_seq
    &&& exists|plan: PlanView| #[trigger]
        plans_finalize(
            a@.tables,
            a@.cache,
            a.rest.base@,
            path,
            (When { now, locked: a@.busy() }),
            b@.tables,
            b@.cache,
            plan,
        ) && plan_is(r, plan)
}

/// Putting a planned object in the place of its directory.
pub open spec fn carries_out(
    a: FSMetaService,
    plan: FinalizePlan,
    obj: ObjId,
    now: u64,
    b: FSMetaService,
    r: Result<bool, MetaError>,
) -> bool {
    &&& b.rest == a.rest
    &&& if a@.busy() {
        r == Err::<bool, MetaError>(MetaError::TxnBeginBusy) && b@ == a@
    } else {
        match r {
            Ok(done) => done && b@.txns == a@.txns && b@.txn_seq == a@.txn_seq && finish_committed(
                a.store,
                plan,
                obj,
                now,
                b.store,
            ),
            Err(e) => finishes(a@.tables, plan, obj, now, Err(e)) && b@ == a@,
        }
    }
}

/// Opening a writer on a file.
pub open spec fn opens_writer(
    a: FSMetaService,
    parent: u64,
    name: String,
    flag: OpenWriteFlag,
    expected_size: Option<u64>,
    answers: BufferAnswers,
    now: u64,
    b: FSMetaService,
    r: Result<String, Stop>,
) -> bool {
    let s = a@;
    let setup = WriterSetup { buffer_configured: a.rest.has_buffer, instance: a.rest.instance };
    &&& b.rest == a.rest
    &&& match setup_error(setup, name@) {
        Some(e) => r == Err::<String, Stop>(Stop::Refused(e)) && b@ == s,
        None => if s.busy() {
            r == Err::<String, Stop>(Stop::Refused(MetaError::TxnBeginBusy)) && b@ == s
        } else {
            match writer_target(s.tables, a.rest.base@, parent, name, flag, now) {
                Err(x) => opens(s, Err(x), b@, r),
                Ok(t) => exists|who: Writer| #[trigger]
                    is_writer(who, setup.instance->0@, t.file_id, parent, name@) && opens(
                        s,
                        start_writer(
                            t,
                            flag,
                            expected_size,
                            who,
                            answers.found,
                            answers.allocated,
                            now,
                        ),
                        b@,
                        r,
                    ),
            }
        },
    }
}

impl FSMetaService {
    pub fn handle_root_dir(&self) -> (r: u64)
        requires
            self.wf(),
        ensures
            r == self@.tables.root,
    {
        self.store.tables.root
    }

    /// Resolves a path against the committed tables.
    pub fn handle_resolve_path_ex(&mut self, path: &NfsPath, sym_count: u32) -> (r: Result<
        Option<FsMetaResolvePathResp>,
        Stop,
    >)
        requires
            old(self).wf(),
        ensures
            final(self).wf(),
            resolves_path(*old(self), path.0@, sym_count, *final(self), r),
            cache_true(*old(self)) ==> answer_is(
                r,
                resolved(
                    old(self)@.tables,
                    old(self).rest.base@,
                    path_parts(path.0@),
                    sym_count as nat,
                ),
            ),
            cache_true(*old(self)) && has_room(old(self)@.cache, sym_count as nat + 1)
                ==> cache_true(*final(self)),
    {
        let ghost s = self@;
        let r = self.store.tables.resolve_path_ex(
            &self.rest.base,
            &mut self.store.cache,
            path.components(),
            sym_count,
        );
        proof {
            let a = choose|a: Answer| #[trigger]
                resolves(
                    s.tables,
                    self.rest.base@,
                    s.cache,
                    path_parts(path.0@),
                    sym_count as nat,
                    self.store.cache@,
                    a,
                ) && answer_is(r, a);
            assert(resolves(
                s.tables,
                self.rest.base@,
                s.cache,
                path_parts(path.0@),
                sym_count as nat,
                self@.cache,
                a,
            ));
            if cache_true(*old(self)) {
                law_resolution_tells_the_tables(*old(self), path.0@, sym_count, *self, r);
            }
        }
        r
    }

    pub fn handle_get_inode(&mut self, id: u64, txid: Option<String>, now: u64) -> (r: Result<
        Option<NodeRecord>,
        MetaError,
    >)
        requires
            old(self).wf(),
        ensures
            final(self).wf(),
            final(self).rest == old(self).rest,
            reads(
                old(self)@,
                opt_text(txid),
                now,
                |v: TablesView| v.read(id),
                final(self)@,
                r,
            ),
            cache_true(*old(self)) ==> cache_true(*final(self)),
    {
        match self.open_tables(&txid) {
            Err(e) => Err(e),
            Ok(t) => {
                self.mark_used(&txid, now);
                t.get_inode(id)
            },
        }
    }

    pub fn handle_set_inode(&mut self, node: NodeRecord, txid: Option<String>, now: u64) -> (r: Result<
        (),
        MetaError,
    >)
        requires
            old(self).wf(),
        ensures
            final(self).wf(),
            final(self).rest == old(self).rest,
            writes(
                old(self)@,
                opt_text(txid),
                now,
                |v: TablesView| Ok((v.with_row(record_row(node, node.inode_id)), ())),
                final(self)@,
                r,
            ),
            cache_true(*old(self)) && (old(self)@.works_on(opt_text(txid)) matches Ok(v)
                ==> keeps_base(v, node)) ==> cache_true(*final(self)),
    {
        if self.locked_out(&txid) {
            return Err(MetaError::TxnBusy);
        }
        match self.open_tables(&txid) {
            Err(e) => Err(e),
            Ok(t) => {
                let mut t: MetaTables = t;
                self.mark_used(&txid, now);
                t.set_inode(node);
                let ghost w = t@;
                self.store_tables(&txid, t);
                proof {
                    let v = old(self)@.works_on(opt_text(txid))->Ok_0;
                    if cache_true(*old(self)) && sound(v) && keeps_base(v, node) {
                        lemma_set_inode_fits(v, node);
                        law_stored_keeps_cache_true(
                            old(self)@,
                            self.rest.base@,
                            opt_text(txid),
                            now,
                            w,
                            self@,
                        );
                    }
                }
                Ok(())
            },
        }
    }

    pub fn handle_update_inode_state(
        &mut self,
        node_id: u64,
        new_state: NodeState,
        old_state: NodeState,
        txid: Option<String>,
        now: u64,
    ) -> (r: Result<(), MetaError>)
        requires
            old(self).wf(),
        ensures
            final(self).wf(),
            final(self).rest == old(self).rest,
            writes(
                old(self)@,
                opt_text(txid),
                now,
                |v: TablesView| plain(update_inode_state_after(v, node_id, new_state, old_state)),
                final(self)@,
                r,
            ),
            cache_true(*old(self)) && (old(self)@.works_on(opt_text(txid)) matches Ok(v)
                ==> keeps_kind(v, node_id, new_state)) ==> cache_true(*final(self)),
    {
        if self.locked_out(&txid) {
            return Err(MetaError::TxnBusy);
        }
        match self.open_tables(&txid) {
            Err(e) => Err(e),
            Ok(t) => {
                let mut t: MetaTables = t;
                self.mark_used(&txid, now);
                match t.update_inode_state(node_id, &new_state, &old_state) {
                    Err(e) => Err(e),
                    Ok(_) => {
                        let ghost w = t@;
                        self.store_tables(&txid, t);
                        proof {
                            let v = old(self)@.works_on(opt_text(txid))->Ok_0;
                            if cache_true(*old(self)) && sound(v) && keeps_kind(v, node_id, new_state) {
                                lemma_state_fits(v, node_id, new_state, old_state);
                                law_stored_keeps_cache_true(
                                    old(self)@,
                                    self.rest.base@,
                                    opt_text(txid),
                                    now,
                                    w,
                                    self@,
                                );
                            }
                        }
                        Ok(())
                    },
                }
            },
        }
    }

    pub fn handle_alloc_inode(&mut self, node: NodeRecord, txid: Option<String>, now: u64) -> (r: Result<
        u64,
        MetaError,
    >)
        requires
            old(self).wf(),
        ensures
            final(self).wf(),
            final(self).rest == old(self).rest,
            writes(
                old(self)@,
                opt_text(txid),
                now,
                |v: TablesView| alloc_inode_after(v, node),
                final(self)@,
                r,
            ),
            cache_true(*old(self)) ==> cache_true(*final(self)),
    {
        if self.locked_out(&txid) {
            return Err(MetaError::TxnBusy);
        }
        match self.open_tables(&txid) {
            Err(e) => Err(e),
            Ok(t) => {
                let mut t: MetaTables = t;
                self.mark_used(&txid, now);
                match t.alloc_inode(node) {
                    Err(e) => Err(e),
                    Ok(id) => {
                        let ghost w = t@;
                        self.store_tables(&txid, t);
                        proof {
                            let v = old(self)@.works_on(opt_text(txid))->Ok_0;
                            if cache_true(*old(self)) && sound(v) {
                                lemma_alloc_fits(v, node);
                                law_stored_keeps_cache_true(
                                    old(self)@,
                                    self.rest.base@,
                                    opt_text(txid),
                                    now,
                                    w,
                                    self@,
                                );
                            }
                        }
                        Ok(id)
                    },
                }
            },
        }
    }

    pub fn handle_get_dentry(
        &mut self,
        parent: u64,
        name: String,
        txid: Option<String>,
        now: u64,
    ) -> (r: Result<Option<DentryRecord>, MetaError>)
        requires
            old(self).wf(),
        ensures
            final(self).wf(),
            final(self).rest == old(self).rest,
            reads(
                old(self)@,
                opt_text(txid),
                now,
                |v: TablesView| Ok(v.dentry(parent, name@)),
                final(self)@,
                r,
            ),
            cache_true(*old(self)) ==> cache_true(*final(self)),
    {
        match self.open_tables(&txid) {
            Err(e) => Err(e),
            Ok(t) => {
                self.mark_used(&txid, now);
                Ok(t.get_dentry(parent, name.as_str()))
            },
        }
    }

    /// The entries of a directory, in the order of their names.
    pub fn handle_list_dentries(&mut self, parent: u64, txid: Option<String>, now: u64) -> (r: Result<
        Vec<DentryRecord>,
        MetaError,
    >)
        requires
            old(self).wf(),
        ensures
            final(self).wf(),
            final(self).rest == old(self).rest,
            lists_dentries(old(self)@, opt_text(txid), parent, now, final(self)@, r),
            cache_true(*old(self)) ==> cache_true(*final(self)),
    {
        match self.open_tables(&txid) {
            Err(e) => Err(e),
            Ok(t) => {
                self.mark_used(&txid, now);
                Ok(t.list_dentries(parent))
            },
        }
    }

    /// Opens a list session on what a directory shows.
    pub fn handle_start_list(&mut self, parent: u64, txid: Option<String>, now: u64) -> (r: Result<
        u64,
        Stop,
    >)
        requires
            old(self).wf(),
        ensures
            final(self).wf(),
            starts_list(*old(self), opt_text(txid), parent, now, *final(self), r),
            cache_true(*old(self)) ==> cache_true(*final(self)),
    {
        match self.open_tables(&txid) {
            Err(e) => Err(Stop::Refused(e)),
            Ok(t) => {
                self.mark_used(&txid, now);
                match t.list_entries(&self.rest.base, parent) {
                    Err(s) => Err(s),
                    Ok(m) => {
                        let ghost kids = listable(t@, self.rest.base@, parent)->Ok_0;
                        assert(is_list(t@, kids, parent, m@));
                        Ok(self.rest.lists.start_session(m))
                    },
                }
            },
        }
    }

    /// The next page of a list session.
    pub fn handle_list_next(&mut self, list_session_id: u64, page_size: u32) -> (r: Result<
        NameMap<FsMetaListEntry>,
        MetaError,
    >)
        requires
            old(self).wf(),
        ensures
            final(self).wf(),
            final(self)@ == old(self)@,
            takes_page(old(self).rest, list_session_id, page_size, final(self).rest, r),
            cache_true(*old(self)) ==> cache_true(*final(self)),
    {
        match self.rest.lists.list_next(list_session_id, page_size) {
            None => Err(MetaError::ListSessionNotFound),
            Some(page) => Ok(page),
        }
    }

    /// Closes a list session, if there is such a session.
    pub fn handle_stop_list(&mut self, list_session_id: u64)
        requires
            old(self).wf(),
        ensures
            final(self).wf(),
            final(self)@ == old(self)@,
            stops_list(old(self).rest, list_session_id, final(self).rest),
            cache_true(*old(self)) ==> cache_true(*final(self)),
    {
        let _ = self.rest.lists.stop_session(list_session_id);
    }

    /// What a request answers that nobody lets write.
    fn while_locked(seen: Option<Result<(), MetaError>>) -> (r: Result<(), MetaError>)
        ensures
            r == match seen {
                Some(x) => x,
                None => Err::<(), MetaError>(MetaError::TxnBusy),
            },
    {
        match seen {
            Some(x) => x,
            None => Err(MetaError::TxnBusy),
        }
    }

    pub fn handle_create_dentry(
        &mut self,
        parent: u64,
        name: String,
        target: DentryTarget,
        expected_parent_rev: u64,
        txid: Option<String>,
        now: u64,
    ) -> (r: Result<(), MetaError>)
        requires
            old(self).wf(),
        ensures
            final(self).wf(),
            final(self).rest == old(self).rest,
            changes(
                old(self)@,
                opt_text(txid),
                now,
                |v: TablesView| create_dentry_seen(v, parent, name@, expected_parent_rev),
                |v: TablesView|
                    plain(create_dentry_after(v, parent, name, target, expected_parent_rev, now)),
                final(self)@,
                r,
            ),
            cache_true(*old(self)) && (old(self)@.works_on(opt_text(txid)) matches Ok(v)
                ==> target != DentryTarget::IndexNodeId(v.root)) ==> cache_true(*final(self)),
    {
        if self.locked_out(&txid) {
            let seen = self.store.tables.see_create_dentry(
                parent,
                name.as_str(),
                expected_parent_rev,
            );
            return Self::while_locked(seen);
        }
        match self.open_tables(&txid) {
            Err(e) => Err(e),
            Ok(t) => {
                let mut t: MetaTables = t;
                self.mark_used(&txid, now);
                match t.create_dentry(parent, name, target, expected_parent_rev, now) {
                    Err(e) => Err(e),
                    Ok(_) => {
                        let ghost w = t@;
                        self.store_tables(&txid, t);
                        proof {
                            let v = old(self)@.works_on(opt_text(txid))->Ok_0;
                            if cache_true(*old(self)) && sound(v) && target != DentryTarget::IndexNodeId(v.root) {
                                lemma_create_fits(v, parent, name, target, expected_parent_rev, now);
                                law_stored_keeps_cache_true(
                                    old(self)@,
                                    self.rest.base@,
                                    opt_text(txid),
                                    now,
                                    w,
                                    self@,
                                );
                            }
                        }
                        Ok(())
                    },
                }
            },
        }
    }

    pub fn handle_delete_dentry(
        &mut self,
        parent: u64,
        name: String,
        expected_parent_rev: u64,
        txid: Option<String>,
        now: u64,
    ) -> (r: Result<(), MetaError>)
        requires
            old(self).wf(),
        ensures
            final(self).wf(),
            final(self).rest == old(self).rest,
            changes(
                old(self)@,
                opt_text(txid),
                now,
                |v: TablesView| delete_dentry_seen(v, parent, expected_parent_rev),
                |v: TablesView| plain(delete_dentry_after(v, parent, name@, expected_parent_rev)),
                final(self)@,
                r,
            ),
            cache_true(*old(self)) ==> cache_true(*final(self)),
    {
        if self.locked_out(&txid) {
            let seen = self.store.tables.see_delete_dentry(parent, expected_parent_rev);
            return Self::while_locked(seen);
        }
        match self.open_tables(&txid) {
            Err(e) => Err(e),
            Ok(t) => {
                let mut t: MetaTables = t;
                self.mark_used(&txid, now);
                match t.delete_dentry(parent, name.as_str(), expected_parent_rev) {
                    Err(e) => Err(e),
                    Ok(_) => {
                        let ghost w = t@;
                        self.store_tables(&txid, t);
                        proof {
                            let v = old(self)@.works_on(opt_text(txid))->Ok_0;
                            if cache_true(*old(self)) && sound(v) {
                                lemma_delete_fits(v, parent, name, expected_parent_rev);
                                law_stored_keeps_cache_true(
                                    old(self)@,
                                    self.rest.base@,
                                    opt_text(txid),
                                    now,
                                    w,
                                    self@,
                                );
                            }
                        }
                        Ok(())
                    },
                }
            },
        }
    }

    pub fn handle_replace_target(
        &mut self,
        parent: u64,
        name: String,
        expected_old_target: DentryTarget,
        new_target: DentryTarget,
        expected_parent_rev: u64,
        txid: Option<String>,
        now: u64,
    ) -> (r: Result<(), MetaError>)
        requires
            old(self).wf(),
        ensures
            final(self).wf(),
            final(self).rest == old(self).rest,
            changes(
                old(self)@,
                opt_text(txid),
                now,
                |v: TablesView|
                    replace_target_seen(
                        v,
                        parent,
                        name@,
                        expected_old_target,
                        new_target,
                        expected_parent_rev,
                    ),
                |v: TablesView|
                    plain(
                        replace_target_after(
                            v,
                            parent,
                            name@,
                            expected_old_target,
                            new_target,
                            expected_parent_rev,
                            now,
                        ),
                    ),
                final(self)@,
                r,
            ),
            cache_true(*old(self)) && (old(self)@.works_on(opt_text(txid)) matches Ok(v)
                ==> new_target != DentryTarget::IndexNodeId(v.root)) ==> cache_true(*final(self)),
    {
        if self.locked_out(&txid) {
            let seen = self.store.tables.see_replace_target(
                parent,
                name.as_str(),
                &expected_old_target,
                &new_target,
                expected_parent_rev,
            );
            return Self::while_locked(seen);
        }
        match self.open_tables(&txid) {
            Err(e) => Err(e),
            Ok(t) => {
                let mut t: MetaTables = t;
                self.mark_used(&txid, now);
                match t.replace_target(
                    parent,
                    name.as_str(),
                    &expected_old_target,
                    new_target,
                    expected_parent_rev,
                    now,
                ) {
                    Err(e) => Err(e),
                    Ok(_) => {
                        let ghost w = t@;
                        self.store_tables(&txid, t);
                        proof {
                            let v = old(self)@.works_on(opt_text(txid))->Ok_0;
                            if cache_true(*old(self)) && sound(v) && new_target != DentryTarget::IndexNodeId(v.root) {
                                lemma_replace_fits(
                                    v,
                                    parent,
                                    name,
                                    expected_old_target,
                                    new_target,
                                    expected_parent_rev,
                                    now,
                                );
                                law_stored_keeps_cache_true(
                                    old(self)@,
                                    self.rest.base@,
                                    opt_text(txid),
                                    now,
                                    w,
                                    self@,
                                );
                            }
                        }
                        Ok(())
                    },
                }
            },
        }
    }

    pub fn handle_bump_dir_rev(
        &mut self,
        dir: u64,
        expected_rev: u64,
        txid: Option<String>,
        now: u64,
    ) -> (r: Result<u64, MetaError>)
        requires
            old(self).wf(),
        ensures
            final(self).wf(),
            final(self).rest == old(self).rest,
            writes(
                old(self)@,
                opt_text(txid),
                now,
                |v: TablesView|
                    match bump_dir_rev_after(v, dir, expected_rev) {
                        Ok(w) => Ok((w, (expected_rev + 1) as u64)),
                        Err(e) => Err(e),
                    },
                final(self)@,
                r,
            ),
            cache_true(*old(self)) ==> cache_true(*final(self)),
    {
        if self.locked_out(&txid) {
            return Err(MetaError::TxnBusy);
        }
        match self.open_tables(&txid) {
            Err(e) => Err(e),
            Ok(t) => {
                let mut t: MetaTables = t;
                self.mark_used(&txid, now);
                match t.bump_dir_rev(dir, expected_rev) {
                    Err(e) => Err(e),
                    Ok(rev) => {
                        let ghost w = t@;
                        self.store_tables(&txid, t);
                        proof {
                            let v = old(self)@.works_on(opt_text(txid))->Ok_0;
                            if cache_true(*old(self)) && sound(v) {
                                lemma_bump_fits(v, dir, expected_rev);
                                law_stored_keeps_cache_true(
                                    old(self)@,
                                    self.rest.base@,
                                    opt_text(txid),
                                    now,
                                    w,
                                    self@,
                                );
                            }
                        }
                        Ok(rev)
                    },
                }
            },
        }
    }

    pub fn handle_remove_inode(&mut self, inode_id: u64, txid: Option<String>, now: u64) -> (r: Result<
        (),
        MetaError,
    >)
        requires
            old(self).wf(),
        ensures
            final(self).wf(),
            final(self).rest == old(self).rest,
            removes_inode(old(self)@, opt_text(txid), inode_id, now, final(self)@, r),
            cache_true(*old(self)) && (old(self)@.works_on(opt_text(txid)) matches Ok(v)
                ==> base_under(v, inode_id) is None) ==> cache_true(*final(self)),
    {
        if inode_id == self.store.tables.root {
            return Err(MetaError::CannotRemoveRoot);
        }
        if self.locked_out(&txid) {
            return Err(MetaError::TxnBusy);
        }
        match self.open_tables(&txid) {
            Err(e) => Err(e),
            Ok(t) => {
                let mut t: MetaTables = t;
                self.mark_used(&txid, now);
                match t.remove_inode(inode_id) {
                    Err(e) => Err(e),
                    Ok(_) => {
                        let ghost w = t@;
                        self.store_tables(&txid, t);
                        proof {
                            let v = old(self)@.works_on(opt_text(txid))->Ok_0;
                            if cache_true(*old(self)) && sound(v) && base_under(v, inode_id) is None {
                                lemma_remove_fits(v, inode_id);
                                law_stored_keeps_cache_true(
                                    old(self)@,
                                    self.rest.base@,
                                    opt_text(txid),
                                    now,
                                    w,
                                    self@,
                                );
                            }
                        }
                        Ok(())
                    },
                }
            },
        }
    }

    pub fn handle_acquire_file_lease(
        &mut self,
        node_id: u64,
        session: SessionId,
        ttl_secs: u64,
        now: u64,
    ) -> (r: Result<u64, MetaError>)
        requires
            old(self).wf(),
        ensures
            final(self).wf(),
            final(self).rest == old(self).rest,
            writes(
                old(self)@,
                None,
                now,
                |v: TablesView| acquire_after(v, node_id, session, ttl_secs, now),
                final(self)@,
                r,
            ),
            cache_true(*old(self)) ==> cache_true(*final(self)),
    {
        if self.is_busy() {
            return Err(MetaError::TxnBusy);
        }
        let mut t: MetaTables = self.store.tables.copy();
        match t.acquire_file_lease(node_id, session, ttl_secs, now) {
            Err(e) => Err(e),
            Ok(seq) => {
                let ghost w = t@;
                self.store_tables(&None, t);
                proof {
                    let v = old(self)@.tables;
                    if cache_true(*old(self)) && sound(v) {
                        lemma_lease_requests_fit(v, node_id, session, session.0@, 0, ttl_secs, now);
                        law_stored_keeps_cache_true(
                            old(self)@,
                            self.rest.base@,
                            None,
                            now,
                            w,
                            self@,
                        );
                    }
                }
                Ok(seq)
            },
        }
    }

    pub fn handle_renew_file_lease(
        &mut self,
        node_id: u64,
        session: SessionId,
        lease_seq: u64,
        ttl_secs: u64,
        now: u64,
    ) -> (r: Result<(), MetaError>)
        requires
            old(self).wf(),
        ensures
            final(self).wf(),
            final(self).rest == old(self).rest,
            writes(
                old(self)@,
                None,
                now,
                |v: TablesView|
                    plain(renew_after(v, node_id, session.0@, lease_seq, ttl_secs, now)),
                final(self)@,
                r,
            ),
            cache_true(*old(self)) ==> cache_true(*final(self)),
    {
        if self.is_busy() {
            return Err(MetaError::TxnBusy);
        }
        let mut t: MetaTables = self.store.tables.copy();
        match t.renew_file_lease(node_id, &session, lease_seq, ttl_secs, now) {
            Err(e) => Err(e),
            Ok(_) => {
                let ghost w = t@;
                self.store_tables(&None, t);
                proof {
                    let v = old(self)@.tables;
                    if cache_true(*old(self)) && sound(v) {
                        lemma_lease_requests_fit(v, node_id, session, session.0@, lease_seq, ttl_secs, now);
                        law_stored_keeps_cache_true(
                            old(self)@,
                            self.rest.base@,
                            None,
                            now,
                            w,
                            self@,
                        );
                    }
                }
                Ok(())
            },
        }
    }

    pub fn handle_release_file_lease(
        &mut self,
        node_id: u64,
        session: SessionId,
        lease_seq: u64,
        now: u64,
    ) -> (r: Result<(), MetaError>)
        requires
            old(self).wf(),
        ensures
            final(self).wf(),
            final(self).rest == old(self).rest,
            writes(
                old(self)@,
                None,
                now,
                |v: TablesView| plain(release_after(v, node_id, session.0@, lease_seq)),
                final(self)@,
                r,
            ),
            cache_true(*old(self)) ==> cache_true(*final(self)),
    {
        if self.is_busy() {
            return Err(MetaError::TxnBusy);
        }
        let mut t: MetaTables = self.store.tables.copy();
        match t.release_file_lease(node_id, &session, lease_seq) {
            Err(e) => Err(e),
            Ok(_) => {
                let ghost w = t@;
                self.store_tables(&None, t);
                proof {
                    let v = old(self)@.tables;
                    if cache_true(*old(self)) && sound(v) {
                        lemma_lease_requests_fit(v, node_id, session, session.0@, lease_seq, 0, now);
                        law_stored_keeps_cache_true(
                            old(self)@,
                            self.rest.base@,
                            None,
                            now,
                            w,
                            self@,
                        );
                    }
                }
                Ok(())
            },
        }
    }

    /// Frees the leases that have run out, and says how many they were.
    pub fn reclaim_expired_write_leases(&mut self, now: u64) -> (r: Result<usize, MetaError>)
        requires
            old(self).wf(),
        ensures
            final(self).wf(),
            final(self).rest == old(self).rest,
            reclaims(old(self)@, now, final(self)@, r),
            cache_true(*old(self)) ==> cache_true(*final(self)),
    {
        if self.is_busy() {
            return Err(MetaError::TxnBusy);
        }
        let mut t: MetaTables = self.store.tables.copy();
        let n: usize = t.reclaim_expired_write_leases(now);
        self.store_tables(&None, t);
        proof {
            if cache_true(*old(self)) {
                lemma_reclaim_fits(old(self)@.tables, now);
                law_stored_keeps_cache_true(
                    old(self)@,
                    self.rest.base@,
                    None,
                    now,
                    reclaim_after(old(self)@.tables, now),
                    self@,
                );
            }
        }
        Ok(n)
    }

    pub fn handle_obj_stat_get(&self, obj_id: &ObjId) -> (r: Option<ObjStat>)
        requires
            self.wf(),
        ensures
            r == stat_of(self@.tables, *obj_id),
    {
        self.store.tables.obj_stat_get(obj_id)
    }

    pub fn handle_obj_stat_bump(
        &mut self,
        obj_id: ObjId,
        delta: i64,
        txid: Option<String>,
        now: u64,
    ) -> (r: Result<u64, MetaError>)
        requires
            old(self).wf(),
        ensures
            final(self).wf(),
            final(self).rest == old(self).rest,
            writes(
                old(self)@,
                opt_text(txid),
                now,
                |v: TablesView| stat_bump_after(v, obj_id, delta, now),
                final(self)@,
                r,
            ),
            cache_true(*old(self)) ==> cache_true(*final(self)),
    {
        if self.locked_out(&txid) {
            return Err(MetaError::TxnBusy);
        }
        match self.open_tables(&txid) {
            Err(e) => Err(e),
            Ok(t) => {
                let mut t: MetaTables = t;
                self.mark_used(&txid, now);
                match t.obj_stat_bump(obj_id, delta, now) {
                    Err(e) => Err(e),
                    Ok(n) => {
                        let ghost w = t@;
                        self.store_tables(&txid, t);
                        proof {
                            let v = old(self)@.works_on(opt_text(txid))->Ok_0;
                            if cache_true(*old(self)) && sound(v) {
                                lemma_stat_bump_fits(v, obj_id, delta, now);
                                law_stored_keeps_cache_true(
                                    old(self)@,
                                    self.rest.base@,
                                    opt_text(txid),
                                    now,
                                    w,
                                    self@,
                                );
                            }
                        }
                        Ok(n)
                    },
                }
            },
        }
    }

    pub fn handle_obj_stat_list_zero(&self, older_than_ts: u64, limit: u32) -> (r: Vec<ObjId>)
        requires
            self.wf(),
        ensures
            is_idle_list(self@.tables, older_than_ts, limit as nat, r@),
    {
        self.store.tables.obj_stat_list_zero(older_than_ts, limit)
    }

    pub fn handle_obj_stat_delete_if_zero(
        &mut self,
        obj_id: ObjId,
        txid: Option<String>,
        now: u64,
    ) -> (r: Result<bool, MetaError>)
        requires
            old(self).wf(),
        ensures
            final(self).wf(),
            final(self).rest == old(self).rest,
            writes(
                old(self)@,
                opt_text(txid),
                now,
                |v: TablesView| zero_dropped(v, obj_id),
                final(self)@,
                r,
            ),
            cache_true(*old(self)) ==> cache_true(*final(self)),
    {
        if self.locked_out(&txid) {
            return Err(MetaError::TxnBusy);
        }
        match self.open_tables(&txid) {
            Err(e) => Err(e),
            Ok(t) => {
                let mut t: MetaTables = t;
                self.mark_used(&txid, now);
                let zero: bool = t.obj_stat_delete_if_zero(&obj_id);
                let ghost w = t@;
                self.store_tables(&txid, t);
                proof {
                    let v = old(self)@.works_on(opt_text(txid))->Ok_0;
                    if cache_true(*old(self)) && sound(v) {
                        lemma_fits_kept(v, w);
                        law_stored_keeps_cache_true(
                            old(self)@,
                            self.rest.base@,
                            opt_text(txid),
                            now,
                            w,
                            self@,
                        );
                    }
                }
                Ok(zero)
            },
        }
    }

    fn apply(&mut self, seen: Option<Result<(), MetaError>>, done: Result<MetaTables, Stop>) -> (r: Result<
        (),
        Stop,
    >)
        requires
            old(self).wf(),
            done matches Ok(t) ==> t.wf(),
        ensures
            final(self).wf(),
            final(self).rest == old(self).rest,
            match done {
                Ok(t) => applies(old(self)@, seen, Ok(t@), final(self)@, r),
                Err(s) => applies(old(self)@, seen, Err(s), final(self)@, r),
            },
            cache_true(*old(self)) && (done matches Ok(t) ==> fits(old(self)@.tables, t@))
                ==> cache_true(*final(self)),
    {
        if self.is_busy() {
            return match seen {
                Some(Ok(_)) => Ok(()),
                Some(Err(e)) => Err(Stop::Refused(e)),
                None => Err(Stop::Refused(MetaError::TxnBeginBusy)),
            };
        }
        match done {
            Err(s) => Err(s),
            Ok(t) => {
                let ghost w = t@;
                self.store.install(t);
                proof {
                    if cache_true(*old(self)) && fits(old(self)@.tables, w) {
                        law_applied_keeps_cache_true(
                            old(self)@,
                            self.rest.base@,
                            seen,
                            Ok(w),
                            self@,
                            Ok(()),
                        );
                    }
                }
                Ok(())
            },
        }
    }

    /// Enters a file object under a new name and counts the reference to it.
    /// There is nothing to tell of it: the text is empty.
    pub fn handle_set_file(&mut self, parent: u64, name: String, obj_id: ObjId, now: u64) -> (r: Result<
        String,
        Stop,
    >)
        requires
            old(self).wf(),
        ensures
            final(self).wf(),
            final(self).rest == old(self).rest,
            enters_file(*old(self), parent, name, obj_id, now, *final(self), r),
            cache_true(*old(self)) ==> cache_true(*final(self)),
    {
        let seen = see_set_file(name.as_str());
        let done = self.store.tables.set_file(&self.rest.base, parent, name, obj_id, now);
        proof {
            if cache_true(*old(self)) {
                lemma_name_requests_fit(
                    old(self)@.tables,
                    self.rest.base@,
                    parent,
                    name,
                    obj_id,
                    name,
                    now,
                );
            }
        }
        self.apply(seen, done)?;
        Ok(String::new())
    }

    /// Enters a directory object under a new name.  The text is empty.
    pub fn handle_set_dir(
        &mut self,
        parent: u64,
        name: String,
        dir_obj_id: ObjId,
        now: u64,
    ) -> (r: Result<String, Stop>)
        requires
            old(self).wf(),
        ensures
            final(self).wf(),
            final(self).rest == old(self).rest,
            enters_dir(*old(self), parent, name, dir_obj_id, now, *final(self), r),
            cache_true(*old(self)) ==> cache_true(*final(self)),
    {
        let seen = see_set_dir(name.as_str(), &dir_obj_id);
        let done = self.store.tables.set_dir(&self.rest.base, parent, name, dir_obj_id, now);
        proof {
            if cache_true(*old(self)) {
                lemma_name_requests_fit(
                    old(self)@.tables,
                    self.rest.base@,
                    parent,
                    name,
                    dir_obj_id,
                    name,
                    now,
                );
            }
        }
        self.apply(seen, done)?;
        Ok(String::new())
    }

    /// Deletes a name by hiding it.
    pub fn handle_delete(&mut self, parent: u64, name: String, now: u64) -> (r: Result<(), Stop>)
        requires
            old(self).wf(),
        ensures
            final(self).wf(),
            final(self).rest == old(self).rest,
            deletes(old(self)@, parent, name, now, final(self)@, r),
            cache_true(*old(self)) ==> cache_true(*final(self)),
    {
        if self.is_busy() {
            let seen = self.store.tables.see_delete(parent, name.as_str());
            return match Self::while_locked(seen) {
                Ok(_) => Ok(()),
                Err(e) => Err(Stop::Refused(e)),
            };
        }
        match self.store.tables.delete(parent, name, now) {
            Ok(t) => {
                let ghost w = t@;
                self.store.install(t);
                proof {
                    if cache_true(*old(self)) {
                        lemma_name_requests_fit(
                            old(self)@.tables,
                            self.rest.base@,
                            parent,
                            name,
                            arbitrary(),
                            name,
                            now,
                        );
                        law_applied_keeps_cache_true(
                            old(self)@,
                            self.rest.base@,
                            None,
                            Ok(w),
                            self@,
                            Ok(()),
                        );
                    }
                }
                Ok(())
            },
            Err(e) => Err(Stop::Refused(e)),
        }
    }

    /// Moves an entry, over whatever stands at its new place.
    pub fn handle_move_path(
        &mut self,
        src_parent: u64,
        src_name: String,
        dst_parent: u64,
        dst_name: String,
        now: u64,
    ) -> (r: Result<(), Stop>)
        requires
            old(self).wf(),
        ensures
            final(self).wf(),
            final(self).rest == old(self).rest,
            moves_entry(
                *old(self),
                src_parent,
                src_name,
                dst_parent,
                dst_name,
                now,
                *final(self),
                r,
            ),
            cache_true(*old(self)) ==> cache_true(*final(self)),
    {
        let seen = self.store.tables.see_move_path(
            src_parent,
            &src_name,
            dst_parent,
            &dst_name,
        );
        let done: Result<MetaTables, Stop> = match self.store.tables.move_path(
            src_parent,
            &src_name,
            dst_parent,
            &dst_name,
            now,
        ) {
            Ok(t) => Ok(t),
            Err(e) => Err(Stop::Refused(e)),
        };
        proof {
            if cache_true(*old(self)) {
                lemma_move_fits(
                    old(self)@.tables,
                    src_parent,
                    src_name,
                    dst_parent,
                    dst_name,
                    now,
                );
            }
        }
        self.apply(seen, done)
    }

    /// Enters a symbolic link.
    pub fn handle_symlink(
        &mut self,
        link_parent: u64,
        link_name: String,
        target: String,
        now: u64,
    ) -> (r: Result<(), Stop>)
        requires
            old(self).wf(),
        ensures
            final(self).wf(),
            final(self).rest == old(self).rest,
            enters_link(*old(self), link_parent, link_name, target, now, *final(self), r),
            cache_true(*old(self)) ==> cache_true(*final(self)),
    {
        let seen = see_symlink(link_name.as_str(), target.as_str());
        let done = self.store.tables.symlink(
            &self.rest.base,
            link_parent,
            link_name,
            target,
            now,
        );
        proof {
            if cache_true(*old(self)) {
                lemma_name_requests_fit(
                    old(self)@.tables,
                    self.rest.base@,
                    link_parent,
                    link_name,
                    arbitrary(),
                    target,
                    now,
                );
            }
        }
        self.apply(seen, done)
    }

    /// Makes a directory under a new name.
    pub fn handle_create_dir(&mut self, parent: u64, name: String, now: u64) -> (r: Result<(), Stop>)
        requires
            old(self).wf(),
        ensures
            final(self).wf(),
            final(self).rest == old(self).rest,
            makes_dir(*old(self), parent, name, now, *final(self), r),
            cache_true(*old(self)) ==> cache_true(*final(self)),
    {
        let seen = see_set_file(name.as_str());
        let done = self.store.tables.create_dir(&self.rest.base, parent, name, now);
        proof {
            if cache_true(*old(self)) {
                lemma_name_requests_fit(
                    old(self)@.tables,
                    self.rest.base@,
                    parent,
                    name,
                    arbitrary(),
                    name,
                    now,
                );
            }
        }
        self.apply(seen, done)
    }

    /// Opens a file for writing; the handle of its buffer is returned.
    pub fn handle_open_file_writer(
        &mut self,
        parent: u64,
        name: String,
        flag: OpenWriteFlag,
        expected_size: Option<u64>,
        answers: &BufferAnswers,
        now: u64,
    ) -> (r: Result<String, Stop>)
        requires
            old(self).wf(),
        ensures
            final(self).wf(),
            opens_writer(
                *old(self),
                parent,
                name,
                flag,
                expected_size,
                *answers,
                now,
                *final(self),
                r,
            ),
            cache_true(*old(self)) ==> cache_true(*final(self)),
    {
        let setup = WriterSetup {
            buffer_configured: self.rest.has_buffer,
            instance: match &self.rest.instance {
                Some(s) => Some(s.clone()),
                None => None,
            },
        };
        if let Some(e) = check_setup(&setup, name.as_str()) {
            return Err(Stop::Refused(e));
        }
        if self.is_busy() {
            return Err(Stop::Refused(MetaError::TxnBeginBusy));
        }
        let done = self.store.tables.open_file_writer(
            &self.rest.base,
            &setup,
            parent,
            &name,
            flag,
            expected_size,
            answers,
            now,
        );
        let r = match done {
            Err(x) => Err(x),
            Ok((t, handle)) => {
                self.store.install(t);
                Ok(handle)
            },
        };
        proof {
            if cache_true(*old(self)) {
                law_opened_writer_keeps_cache_true(
                    *old(self),
                    parent,
                    name,
                    flag,
                    expected_size,
                    *answers,
                    now,
                    *self,
                    r,
                );
            }
        }
        r
    }

    /// Ends writing a file.
    pub fn handle_close_file_writer(
        &mut self,
        file_inode_id: u64,
        answers: &BufferAnswers,
        now: u64,
    ) -> (r: Result<(), Stop>)
        requires
            old(self).wf(),
        ensures
            final(self).wf(),
            final(self).rest == old(self).rest,
            ends_writing(*old(self), file_inode_id, *answers, now, *final(self), r),
            cache_true(*old(self)) ==> cache_true(*final(self)),
    {
        let seen = see_close_writer(self.rest.has_buffer);
        let done = self.store.tables.close_file_writer(
            file_inode_id,
            self.rest.has_buffer,
            answers,
            now,
        );
        proof {
            if cache_true(*old(self)) {
                lemma_close_fits(
                    old(self)@.tables,
                    file_inode_id,
                    self.rest.has_buffer,
                    answers.found,
                    answers.closed,
                    now,
                );
            }
        }
        self.apply(seen, done)
    }

    /// Where to read the file at `path`.
    pub fn handle_open_file_reader(&mut self, path: &NfsPath) -> (r: Result<OpenFileReaderResp, Stop>)
        requires
            old(self).wf(),
        ensures
            final(self).wf(),
            final(self).rest == old(self).rest,
            opens_reader(*old(self), path_parts(path.0@), *final(self), r),
            cache_true(*old(self)) && has_room(old(self)@.cache, 1) ==> cache_true(*final(self)),
            cache_true(*old(self)) && path_parts(path.0@).len() > 0 ==> reader_is(
                r,
                resolved(old(self)@.tables, old(self).rest.base@, path_parts(path.0@), 0),
            ),
    {
        let ghost s = self@;
        let r = self.store.tables.open_file_reader(&self.rest.base, &mut self.store.cache, path);
        proof {
            let p = path_parts(path.0@);
            if p.len() > 0 {
                let a = choose|a: Answer| #[trigger]
                    resolves(s.tables, self.rest.base@, s.cache, p, 0, self.store.cache@, a)
                        && reader_is(r, a);
                assert(resolves(s.tables, self.rest.base@, s.cache, p, 0, self@.cache, a));
                if cache_true(*old(self)) {
                    law_reading_tells_the_tables(s, self.rest.base@, p, 0, self@, a);
                }
            }
        }
        r
    }

    /// The inode of the directory at `path`, made where it is missing.
    pub fn ensure_dir_inode(&mut self, path: &NfsPath, now: u64) -> (r: Result<u64, Stop>)
        requires
            old(self).wf(),
        ensures
            final(self).wf(),
            makes_way(*old(self), path.0@, now, *final(self), r),
            cache_true(*old(self)) && has_room(old(self)@.cache, one_resolution()) ==> cache_true(
                *final(self),
            ),
    {
        let ghost s = self@;
        let locked: bool = self.is_busy();
        let at = When { now, locked };
        let r = self.store.ensure_dir_inode(&self.rest.base, path, at);
        proof {
            let base = self.rest.base@;
            let a = choose|a: DirAnswer| #[trigger]
                ensures_dir(
                    s.tables,
                    s.cache,
                    base,
                    path.0@,
                    at,
                    self.store.tables@,
                    self.store.cache@,
                    a,
                ) && dir_answer_is(r, a);
            assert(ensures_dir(
                s.tables,
                s.cache,
                base,
                path.0@,
                at,
                self@.tables,
                self@.cache,
                a,
            ));
            if cache_true(*old(self)) && has_room(s.cache, one_resolution()) {
                law_ensured_dir_keeps_cache_true(*old(self), path.0@, now, *self, a);
            }
        }
        r
    }

    /// Adds paths to the queue of directories and files to finalize.
    fn enqueue_finalize_tasks(&mut self, paths: &Vec<String>)
        requires
            old(self).wf(),
        ensures
            final(self).wf(),
            final(self)@ == old(self)@,
            view_all(final(self).rest.finalize_queue@) == view_all(
                old(self).rest.finalize_queue@,
            ) + view_all(paths@),
            final(self).rest == (ServiceRest {
                finalize_queue: final(self).rest.finalize_queue,
                ..old(self).rest
            }),
    {
        let ghost q0 = view_all(self.rest.finalize_queue@);
        let ghost all = view_all(paths@);
        let mut i: usize = 0;
        assert(q0 + all.take(0) =~= q0);
        while i < paths.len()
            invariant
                self.wf(),
                self@ == old(self)@,
                self.rest == (ServiceRest {
                    finalize_queue: self.rest.finalize_queue,
                    ..old(self).rest
                }),
                all == view_all(paths@),
                0 <= i <= paths@.len(),
                view_all(self.rest.finalize_queue@) == q0 + all.take(i as int),
            decreases paths@.len() - i,
        {
            let ghost before = self.rest.finalize_queue@;
            self.rest.finalize_queue.push(paths[i].clone());
            assert(view_all(self.rest.finalize_queue@) =~= view_all(before).push(all[i as int]));
            assert(q0 + all.take(i + 1) =~= (q0 + all.take(i as int)).push(all[i as int]));
            i = i + 1;
        }
        assert(all.take(i as int) =~= all);
    }

    /// The first half of turning the directory at `path` into an object: what
    /// has to be done.  Paths that have to come first are queued.
    pub fn plan_finalize_dir(&mut self, path: &NfsPath, now: u64) -> (r: Result<FinalizeStep, Stop>)
        requires
            old(self).wf(),
        ensures
            final(self).wf(),
            makes_plan(*old(self), path.0@, now, *final(self), r),
    {
        let ghost s = self@;
        let locked: bool = self.is_busy();
        let at = When { now, locked };
        let r = self.store.plan_finalize_dir(&self.rest.base, path, at);
        proof {
            let base = self.rest.base@;
            let plan = choose|plan: PlanView| #[trigger]
                plans_finalize(
                    s.tables,
                    s.cache,
                    base,
                    path.0@,
                    at,
                    self.store.tables@,
                    self.store.cache@,
                    plan,
                ) && plan_is(r, plan);
            assert(plans_finalize(
                s.tables,
                s.cache,
                base,
                path.0@,
                at,
                self@.tables,
                self@.cache,
                plan,
            ));
        }
        if let Ok(FinalizeStep::Queue(paths)) = &r {
            self.enqueue_finalize_tasks(paths);
        }
        proof {
            assert(view_all(old(self).rest.finalize_queue@) + Seq::<Seq<char>>::empty()
                =~= view_all(old(self).rest.finalize_queue@));
        }
        r
    }

    /// The second half: the object built from `plan` takes the directory's place.
    pub fn finish_finalize_dir(&mut self, plan: &FinalizePlan, obj: ObjId, now: u64) -> (r: Result<
        bool,
        MetaError,
    >)
        requires
            old(self).wf(),
        ensures
            final(self).wf(),
            carries_out(*old(self), *plan, obj, now, *final(self), r),
            cache_true(*old(self)) ==> cache_true(*final(self)),
    {
        if self.is_busy() {
            return Err(MetaError::TxnBeginBusy);
        }
        let r = self.store.finish_finalize_dir(plan, obj, now);
        proof {
            if cache_true(*old(self)) && r is Ok {
                law_finishing_keeps_cache_true(*old(self), *plan, obj, now, *self);
            }
        }
        r
    }
}

/// A session on `m` has been opened.
pub open spec fn listed_in(
    a: ServiceRest,
    m: NameMap<FsMetaListEntry>,
    b: ServiceRest,
    r: Result<u64, Stop>,
) -> bool {
    &&& r == Ok::<u64, Stop>(a.lists.next_session_id)
    &&& b.lists.sessions@ == a.lists.sessions@.insert(
        a.lists.next_session_id,
        ListSession { entries: m, cursor: None },
    )
    &&& b.lists.next_session_id == if a.lists.next_session_id == u64::MAX {
        u64::MAX as int
    } else {
        a.lists.next_session_id + 1
    }
    &&& b == (ServiceRest { lists: b.lists, ..a })
}

} // verus!
