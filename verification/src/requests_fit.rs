//! Every request puts the entries it changes on record and keeps the tables a
//! strict tree.

use vstd::prelude::*;
use crate::coherence_laws::base_under;
use crate::leases::{
    acquire_after, reclaim_after, reclaimed_row, release_after, renew_after,
};
use crate::moves::{move_path_after, move_plan, MoveSource};
use crate::ops::{
    alloc_under_after, create_dir_after, create_dir_under_after, delete_after, enter_after,
    materialize_after, new_dir_under_after, set_dir_after, set_file_after, symlink_after,
    upsert_after,
};
use crate::outside::{BaseStoreView, Stop};
use crate::paths_kept::{
    fits, lemma_alloc_fits, lemma_create_fits, lemma_fits_kept, lemma_fits_row, lemma_fits_same,
    lemma_fits_trans, lemma_replace_fits, sound,
};
use crate::records::{
    kind_of, law_state_columns_round_trip, same_cols, state_cols, DentryTarget,
    NodeKind, NodeRecord, NodeState, ObjId, OpenWriteFlag, SessionId,
};
use crate::stats::stat_bump_after;
use crate::tables::{
    alloc_inode_after, bump_dir_rev_after, fresh_dir_record, law_record_row_round_trip, record_row,
    update_inode_state_after, TablesView,
};
use crate::writer::{
    close_writer_after, start_working, start_writer, without_base, writer_target, AllocAnswer,
    HandleAnswer, Writer, WriterTargetView, WRITE_LEASE_TTL_SECS,
};

verus! {

pub proof fn lemma_upsert_fits(
    v: TablesView,
    parent: u64,
    name: String,
    target: DentryTarget,
    rev: u64,
    now: u64,
)
    requires
        sound(v),
        target != DentryTarget::IndexNodeId(v.root),
    ensures
        upsert_after(v, parent, name, target, rev, now) matches Ok(w) ==> fits(v, w) && w.root
            == v.root,
{
    match v.dentry(parent, name@) {
        Some(d) => {
            lemma_replace_fits(v, parent, name, d.target, target, rev, now);
        },
        None => {
            lemma_create_fits(v, parent, name, target, rev, now);
        },
    }
}

/// Counting references touches no path.
pub proof fn lemma_stat_bump_fits(v: TablesView, obj_id: ObjId, delta: i64, now: u64)
    requires
        sound(v),
    ensures
        stat_bump_after(v, obj_id, delta, now) matches Ok((w, _)) ==> fits(v, w),
{
    if let Ok((w, _)) = stat_bump_after(v, obj_id, delta, now) {
        lemma_fits_kept(v, w);
    }
}

pub proof fn lemma_alloc_under_fits(
    v: TablesView,
    parent: u64,
    name: String,
    node: NodeRecord,
    rev: u64,
    now: u64,
)
    requires
        sound(v),
    ensures
        alloc_under_after(v, parent, name, node, rev, now) matches Ok((w, id)) ==> fits(v, w)
            && !v.nodes.contains_key(id),
{
    lemma_alloc_fits(v, node);
    if let Ok((w, id)) = alloc_inode_after(v, node) {
        lemma_upsert_fits(w, parent, name, DentryTarget::IndexNodeId(id), rev, now);
        if let Ok(x) = upsert_after(w, parent, name, DentryTarget::IndexNodeId(id), rev, now) {
            lemma_fits_trans(v, w, x);
        }
    }
}

pub proof fn lemma_new_dir_fits(
    v: TablesView,
    parent: u64,
    name: String,
    state: NodeState,
    base: Option<ObjId>,
    now: u64,
)
    requires
        sound(v),
    ensures
        new_dir_under_after(v, parent, name, state, base, now) matches Ok((w, _)) ==> fits(v, w),
{
    let node = fresh_dir_record(state, base);
    lemma_alloc_fits(v, node);
    if let Ok((w, id)) = alloc_inode_after(v, node) {
        let target = DentryTarget::IndexNodeId(id);
        lemma_upsert_fits(w, parent, name, target, w.rev(parent), now);
        if let Ok(x) = upsert_after(w, parent, name, target, w.rev(parent), now) {
            lemma_fits_trans(v, w, x);
        }
    }
}

pub proof fn lemma_dir_made_fits(
    v: TablesView,
    parent: u64,
    name: String,
    dir_obj_id: ObjId,
    now: u64,
)
    requires
        sound(v),
    ensures
        create_dir_under_after(v, parent, name, now) matches Ok((w, _)) ==> fits(v, w),
        materialize_after(v, parent, name, dir_obj_id, now) matches Ok((w, _)) ==> fits(v, w),
{
    lemma_fits_same(v);
    lemma_new_dir_fits(v, parent, name, NodeState::DirNormal, None, now);
    lemma_new_dir_fits(v, parent, name, NodeState::DirOverlay, Some(dir_obj_id), now);
}

pub proof fn lemma_enter_fits(
    v: TablesView,
    base: BaseStoreView,
    parent: u64,
    name: String,
    target: DentryTarget,
    now: u64,
)
    requires
        sound(v),
        target != DentryTarget::IndexNodeId(v.root),
    ensures
        enter_after(v, base, parent, name, target, now) matches Ok(w) ==> fits(v, w),
{
    if let Ok(w) = enter_after(v, base, parent, name, target, now) {
        let rev = crate::tables::rev_or_zero(v.inode(parent)->0.rev);
        lemma_upsert_fits(v, parent, name, target, rev, now);
    }
}

/// The requests that enter, make and delete names.
pub proof fn lemma_name_requests_fit(
    v: TablesView,
    base: BaseStoreView,
    parent: u64,
    name: String,
    obj_id: ObjId,
    target: String,
    now: u64,
)
    requires
        sound(v),
    ensures
        set_file_after(v, base, parent, name, obj_id, now) matches Ok(w) ==> fits(v, w),
        set_dir_after(v, base, parent, name, obj_id, now) matches Ok(w) ==> fits(v, w),
        symlink_after(v, base, parent, name, target, now) matches Ok(w) ==> fits(v, w),
        create_dir_after(v, base, parent, name, now) matches Ok(w) ==> fits(v, w),
        delete_after(v, parent, name, now) matches Ok(w) ==> fits(v, w),
{
    lemma_enter_fits(v, base, parent, name, DentryTarget::ObjId(obj_id), now);
    lemma_enter_fits(v, base, parent, name, DentryTarget::SymLink(target), now);
    if let Ok(w) = enter_after(v, base, parent, name, DentryTarget::ObjId(obj_id), now) {
        lemma_stat_bump_fits(w, obj_id, 1, now);
        if let Ok((x, _)) = stat_bump_after(w, obj_id, 1, now) {
            lemma_fits_trans(v, w, x);
        }
    }
    if v.inode(parent) is Some {
        lemma_alloc_under_fits(
            v,
            parent,
            name,
            fresh_dir_record(NodeState::DirNormal, None),
            crate::tables::rev_or_zero(v.inode(parent)->0.rev),
            now,
        );
    }
    lemma_upsert_fits(v, parent, name, DentryTarget::Tombstone, v.rev(parent), now);
}

pub proof fn lemma_move_fits(
    v: TablesView,
    src_parent: u64,
    src_name: String,
    dst_parent: u64,
    dst_name: String,
    now: u64,
)
    requires
        sound(v),
    ensures
        move_path_after(v, src_parent, src_name, dst_parent, dst_name, now) matches Ok(w) ==> fits(
            v,
            w,
        ),
{
    lemma_fits_same(v);
    if let Ok(Some(plan)) = move_plan(v, src_parent, src_name, dst_parent, dst_name) {
        let MoveSource::Upper { target } = plan.source;
        assert(v.dentries.contains_key((src_parent, src_name@)));
        assert(target != DentryTarget::IndexNodeId(v.root));
        let hidden = DentryTarget::Tombstone;
        lemma_upsert_fits(v, src_parent, src_name, hidden, plan.src_rev0, now);
        if let Ok(w) = upsert_after(v, src_parent, src_name, hidden, plan.src_rev0, now) {
            let rev = if src_parent == dst_parent {
                crate::service::next_seq(plan.src_rev0)
            } else {
                plan.dst_rev0
            };
            lemma_upsert_fits(w, dst_parent, dst_name, target, rev, now);
            if let Ok(x) = upsert_after(w, dst_parent, dst_name, target, rev, now) {
                lemma_fits_trans(v, w, x);
            }
        }
    }
}

/// The requests on leases.
pub proof fn lemma_lease_requests_fit(
    v: TablesView,
    id: u64,
    session: SessionId,
    other: Seq<char>,
    seq: u64,
    ttl_secs: u64,
    now: u64,
)
    requires
        sound(v),
    ensures
        acquire_after(v, id, session, ttl_secs, now) matches Ok((w, _)) ==> fits(v, w),
        renew_after(v, id, other, seq, ttl_secs, now) matches Ok(w) ==> fits(v, w),
        release_after(v, id, other, seq) matches Ok(w) ==> fits(v, w),
{
    if let Ok((w, _)) = acquire_after(v, id, session, ttl_secs, now) {
        lemma_fits_row(v, w.nodes[id]);
        assert(w =~= v.with_row(w.nodes[id]));
    }
    if let Ok(w) = renew_after(v, id, other, seq, ttl_secs, now) {
        lemma_fits_row(v, w.nodes[id]);
        assert(w =~= v.with_row(w.nodes[id]));
    }
    if let Ok(w) = release_after(v, id, other, seq) {
        lemma_fits_row(v, w.nodes[id]);
        assert(w =~= v.with_row(w.nodes[id]));
    }
}

pub proof fn lemma_reclaim_fits(v: TablesView, now: u64)
    requires
        sound(v),
    ensures
        fits(v, reclaim_after(v, now)),
{
    let w = reclaim_after(v, now);
    assert(w.nodes.dom() =~= v.nodes.dom());
    assert forall|k: u64| #[trigger] w.nodes.contains_key(k) implies w.nodes[k].inode_id == k
        && base_under(w, k) == base_under(v, k) by {
        assert(v.nodes.contains_key(k));
        assert(w.nodes[k] == reclaimed_row(v.nodes[k], now));
    }
    assert forall|k: u64| #[trigger] base_under(v, k) is Some implies base_under(w, k)
        == base_under(v, k) by {
        assert(w.nodes.contains_key(k));
    }
    lemma_fits_kept(v, w);
}

/// A new state fits as long as a directory over a base stays a directory.
pub proof fn lemma_state_fits(v: TablesView, id: u64, new_state: NodeState, old_state: NodeState)
    requires
        sound(v),
        base_under(v, id) is None || kind_of(new_state) == NodeKind::Dir,
    ensures
        update_inode_state_after(v, id, new_state, old_state) matches Ok(w) ==> fits(v, w),
{
    if let Ok(w) = update_inode_state_after(v, id, new_state, old_state) {
        law_state_columns_round_trip(new_state);
        lemma_fits_row(v, w.nodes[id]);
        assert(w =~= v.with_row(w.nodes[id]));
    }
}

/// Columns that spell a state spell one of its kind only.
proof fn lemma_same_cols_kind(v: TablesView, id: u64, state: NodeState)
    requires
        v.inv(),
        v.nodes.contains_key(id),
        same_cols(v.nodes[id].cols, state_cols(state)),
        kind_of(state) != NodeKind::Dir,
    ensures
        base_under(v, id) is None,
{
}

pub proof fn lemma_bump_fits(v: TablesView, dir: u64, rev: u64)
    requires
        sound(v),
    ensures
        bump_dir_rev_after(v, dir, rev) matches Ok(w) ==> fits(v, w),
{
    if let Ok(w) = bump_dir_rev_after(v, dir, rev) {
        lemma_fits_row(v, w.nodes[dir]);
        assert(w =~= v.with_row(w.nodes[dir]));
    }
}

/// Closing a writer.
pub proof fn lemma_close_fits(
    v: TablesView,
    file_id: u64,
    buffer_configured: bool,
    found: Option<HandleAnswer>,
    closed: Option<HandleAnswer>,
    now: u64,
)
    requires
        sound(v),
    ensures
        close_writer_after(v, file_id, buffer_configured, found, closed, now) matches Ok(w) ==> fits(
            v,
            w,
        ),
{
    if let Ok(x) = close_writer_after(v, file_id, buffer_configured, found, closed, now) {
        let node = v.inode(file_id)->0;
        let handle = crate::writer::bound_handle(node.state)->0;
        let cooling = NodeState::Cooling(
            crate::records::FileCoolingState { fb_handle: handle, closed_at: now },
        );
        lemma_state_fits(v, file_id, cooling, node.state);
        let w = update_inode_state_after(v, file_id, cooling, node.state)->Ok_0;
        if let (Some(s), Some(seq)) = (node.lease_client_session, node.lease_seq) {
            lemma_lease_requests_fit(w, file_id, SessionId(s.0), s.0@, seq, 0, now);
            lemma_fits_trans(v, w, x);
        }
    }
}

/// The inode that a writer is about fits, and is a file.
pub proof fn lemma_target_fits(
    v: TablesView,
    base: BaseStoreView,
    parent: u64,
    name: String,
    flag: OpenWriteFlag,
    now: u64,
)
    requires
        sound(v),
    ensures
        writer_target(v, base, parent, name, flag, now) matches Ok(t) ==> fits(v, t.tables)
            && kind_of(t.state) != NodeKind::Dir,
{
    lemma_fits_same(v);
    if let Ok(t) = writer_target(v, base, parent, name, flag, now) {
        if t.tables != v {
            let rev = crate::tables::rev_or_zero(v.inode(parent)->0.rev);
            let fresh = crate::writer::fresh_file_record(t.base);
            lemma_alloc_under_fits(v, parent, name, fresh, rev, now);
        }
    }
}

proof fn lemma_working_fits(
    v: TablesView,
    id: u64,
    handle: String,
    expected: NodeState,
    now: u64,
)
    requires
        sound(v),
        kind_of(expected) != NodeKind::Dir,
    ensures
        start_working(v, id, handle, expected, now) matches Ok((w, _)) ==> fits(v, w),
{
    if start_working(v, id, handle, expected, now) is Ok {
        lemma_same_cols_kind(v, id, expected);
        lemma_state_fits(
            v,
            id,
            NodeState::Working(
                crate::records::FileWorkingState { fb_handle: handle, last_write_at: now },
            ),
            expected,
        );
    }
}

/// Opening a writer.
pub proof fn lemma_start_fits(
    t: WriterTargetView,
    flag: OpenWriteFlag,
    expected_size: Option<u64>,
    who: Writer,
    found: Option<HandleAnswer>,
    allocated: Option<AllocAnswer>,
    now: u64,
)
    requires
        sound(t.tables),
        kind_of(t.state) != NodeKind::Dir,
    ensures
        start_writer(t, flag, expected_size, who, found, allocated, now) matches Ok((w, _)) ==> fits(
            t.tables,
            w,
        ),
{
    let v = t.tables;
    if let Ok((x, handle)) = start_writer(t, flag, expected_size, who, found, allocated, now) {
        lemma_lease_requests_fit(
            v,
            t.file_id,
            who.session,
            Seq::empty(),
            0,
            WRITE_LEASE_TTL_SECS,
            now,
        );
        let w = acquire_after(v, t.file_id, who.session, WRITE_LEASE_TTL_SECS, now)->Ok_0.0;
        lemma_working_fits(w, t.file_id, handle, t.state, now);
        if start_working(w, t.file_id, handle, t.state, now) == Ok::<(TablesView, String), Stop>(
            (x, handle),
        ) {
            lemma_fits_trans(v, w, x);
        } else {
            let w2 = without_base(w, t.file_id);
            let forgot = NodeRecord { base_obj_id: None, ..w.inode(t.file_id)->0 };
            law_record_row_round_trip(forgot, t.file_id);
            assert(base_under(w, t.file_id) is None) by {
                assert(same_cols(w2.nodes[t.file_id].cols, state_cols(t.state)));
                assert(w2.nodes[t.file_id].cols == state_cols(forgot.state));
            }
            lemma_fits_row(w, record_row(forgot, t.file_id));
            lemma_fits_trans(v, w, w2);
            lemma_working_fits(w2, t.file_id, handle, t.state, now);
            lemma_fits_trans(v, w2, x);
        }
    }
}

} // verus!
