//! The path cache says what the tables say, whatever the service is asked.

use vstd::prelude::*;
use crate::cache_room::{
    has_room, knows_no_more, lemma_resolves_asks, lemma_resolves_keeps_edges,
};
use crate::coherence_laws::{
    base_under, edges_complete, law_change_then_invalidate, law_other_changes_keep_cache_true,
};
use crate::committed::{drops_edge, drops_edges, installs, settled};
use crate::errors::MetaError;
use crate::handlers::{applies, opens_writer, resolves_path, zero_dropped};
use crate::leases::{acquire_after, release_after, renew_after};
use crate::ops::After;
use crate::outside::{BaseReply, BaseStoreView, Stop};
use crate::path_cache::{CacheView, Path};
use crate::paths::path_parts;
use crate::paths_kept::{
    changed_along, edge_step, fits, lemma_alloc_fits, lemma_create_fits, lemma_delete_fits,
    lemma_fits_kept, lemma_fits_row, lemma_fits_same, lemma_fits_trans, lemma_replace_fits, sound,
};
use crate::records::{
    kind_of, DentryTarget, FsMetaResolvePathResp, NodeKind, NodeRecord, NodeState,
    ObjId, OpenWriteFlag,
};
use crate::requests_fit::{
    lemma_bump_fits, lemma_lease_requests_fit, lemma_start_fits, lemma_stat_bump_fits,
    lemma_state_fits, lemma_target_fits,
};
use crate::resolve::{answer_is, resolves, Answer};
use crate::resolve_laws::{coherent, law_cache_is_transparent, resolved};
use crate::rpc::{serves, RpcCall, Served};
use crate::service::{
    changes, commits, fresh_service, opt_text, rolls_back, stored, writes, FSMetaService,
    ServiceView,
};
use crate::table::Key;
use crate::tables::{record_row, root_tables, TablesView};
use crate::writer::{start_writer, writer_target, BufferAnswers, Writer};

verus! {

/// The cache is true of the tables and knows every edge it has to drop with a
/// change.
pub open spec fn pair_true(v: TablesView, base: BaseStoreView, c: CacheView) -> bool {
    &&& sound(v)
    &&& v.touched.len() == 0
    &&& c.inv()
    &&& c.lru.dom().finite()
    &&& coherent(v, base, c)
    &&& edges_complete(v, c)
}

/// The cache is true of the committed tables, and an open transaction has every
/// entry on record that it has changed.
pub open spec fn service_true(s: ServiceView, base: BaseStoreView) -> bool {
    &&& pair_true(s.tables, base, s.cache)
    &&& forall|k: Seq<char>, l: Seq<char>|
        #[trigger] s.txns.contains_key(k) && #[trigger] s.txns.contains_key(l) ==> k == l
    &&& forall|k: Seq<char>| #[trigger]
        s.txns.contains_key(k) ==> fits(s.tables, s.txns[k].tables)
}

/// The path cache of the service says nothing but what its tables hold.
pub open spec fn cache_true(a: FSMetaService) -> bool {
    service_true(a@, a.rest.base@)
}

/// Where the cache knew every edge it needed and was true of the tables before,
/// it is true of the tables that a commit has published.
pub proof fn law_commit_keeps_cache_true(
    v: TablesView,
    w: TablesView,
    base: BaseStoreView,
    edges: Seq<(u64, Seq<char>)>,
    c: CacheView,
    d: CacheView,
)
    requires
        c.inv(),
        c.lru.dom().finite(),
        coherent(v, base, c),
        edges_complete(v, c),
        changed_along(v, edges, w),
        drops_edges(c, edges, d),
    ensures
        d.inv(),
        d.lru.dom().finite(),
        d.lru.dom().len() <= c.lru.dom().len(),
        d.max_entries == c.max_entries,
        coherent(w, base, d),
        edges_complete(w, d),
    decreases edges.len(),
{
    if edges.len() == 0 {
        law_other_changes_keep_cache_true(v, w, base, c);
    } else {
        let (a, b) = choose|a: TablesView, b: TablesView|
            changed_along(v, edges.drop_last(), a) && #[trigger] edge_step(a, edges.last(), b, w);
        let m = choose|m: CacheView|
            drops_edges(c, edges.drop_last(), m) && #[trigger] drops_edge(m, edges.last(), d);
        law_commit_keeps_cache_true(v, a, base, edges.drop_last(), c, m);
        law_change_then_invalidate(a, b, base, edges.last().0, edges.last().1, m, d);
        lemma_drop_keeps_order(m, edges.last(), d);
        law_other_changes_keep_cache_true(b, w, base, d);
    }
}

proof fn lemma_drop_keeps_order(m: CacheView, edge: (u64, Seq<char>), d: CacheView)
    requires
        m.inv(),
        m.lru.dom().finite(),
        drops_edge(m, edge, d),
    ensures
        d.inv(),
        d.lru.dom().finite(),
        d.lru.dom().len() <= m.lru.dom().len(),
        d.max_entries == m.max_entries,
{
    if m.edges.contains_key(edge) {
        let p = m.edges[edge];
        if p.len() > 0 {
            crate::path_cache::lemma_invalidated_inv(m, d, p);
        } else {
            assert(d.inv()) by {
                assert forall|q: Path, k: int|
                    d.nodes.contains_key(q) && 0 <= k <= q.len() implies d.nodes.contains_key(
                    #[trigger] q.take(k),
                ) by {
                    assert(q.take(k) =~= q);
                }
            }
        }
    }
    assert(d.lru.dom().subset_of(m.lru.dom()));
    vstd::set_lib::lemma_len_subset(d.lru.dom(), m.lru.dom());
}

/// Tables with the root directory alone are sound.
pub proof fn law_root_tables_are_sound()
    ensures
        sound(root_tables()),
{
    crate::tables::law_record_row_round_trip(
        crate::tables::fresh_dir_record(crate::records::NodeState::DirNormal, None),
        1,
    );
}

/// A service that nothing has asked yet has a true cache.
pub proof fn law_fresh_service_is_true(v: TablesView, base: BaseStoreView)
    requires
        sound(v),
        v.touched.len() == 0,
    ensures
        service_true(fresh_service(v), base),
{
    let s = fresh_service(v);
    assert forall|q: Path, k: int|
        s.cache.nodes.contains_key(q) && 0 <= k <= q.len() implies s.cache.nodes.contains_key(
        #[trigger] q.take(k),
    ) by {
        assert(q.take(k) =~= q);
    }
}

/// Publishing tables that fit the committed ones keeps the cache true.
pub proof fn lemma_publish_pair(
    v: TablesView,
    base: BaseStoreView,
    c: CacheView,
    w: TablesView,
    d: CacheView,
)
    requires
        pair_true(v, base, c),
        fits(v, w),
        installs(c, w, d),
    ensures
        pair_true(settled(w), base, d),
        d.lru.dom().len() <= c.lru.dom().len(),
        d.max_entries == c.max_entries,
{
    assert(w.touched.skip(0) =~= w.touched);
    law_commit_keeps_cache_true(v, w, base, w.touched, c, d);
    law_other_changes_keep_cache_true(w, settled(w), base, d);
}

proof fn lemma_publish(s: ServiceView, base: BaseStoreView, w: TablesView, t: ServiceView)
    requires
        pair_true(s.tables, base, s.cache),
        forall|k: Seq<char>| !(#[trigger] s.txns.contains_key(k)),
        fits(s.tables, w),
        stored(s, None, w, t),
    ensures
        service_true(t, base),
{
    lemma_publish_pair(s.tables, base, s.cache, w, t.cache);
}

/// Storing tables that fit those that a request worked on keeps the cache true.
pub proof fn law_stored_keeps_cache_true(
    s: ServiceView,
    base: BaseStoreView,
    txid: Option<Seq<char>>,
    now: u64,
    w: TablesView,
    t: ServiceView,
)
    requires
        service_true(s, base),
        s.works_on(txid) matches Ok(v) && fits(v, w),
        txid is Some || !s.busy(),
        stored(s.used(txid, now), txid, w, t),
    ensures
        service_true(t, base),
{
    match txid {
        None => {
            lemma_publish(s, base, w, t);
        },
        Some(id) => {
            assert(s.txns.contains_key(id));
            lemma_fits_trans(s.tables, s.txns[id].tables, w);
        },
    }
}

/// A request that leaves behind what fits keeps the cache true.
pub proof fn law_writes_keep_cache_true<T>(
    s: ServiceView,
    base: BaseStoreView,
    txid: Option<Seq<char>>,
    now: u64,
    after: spec_fn(TablesView) -> Result<(TablesView, T), MetaError>,
    t: ServiceView,
    r: Result<T, MetaError>,
)
    requires
        service_true(s, base),
        writes(s, txid, now, after, t, r),
        s.works_on(txid) matches Ok(v) ==> (after(v) matches Ok(done) ==> fits(v, done.0)),
    ensures
        service_true(t, base),
{
    if let Ok(v) = s.works_on(txid) {
        if txid is Some || !s.busy() {
            if let Ok(done) = after(v) {
                law_stored_keeps_cache_true(s, base, txid, now, done.0, t);
            } else {
                lemma_used_is_true(s, base, txid, now);
            }
        }
    }
}

/// Marking a transaction as used changes nothing that paths depend on.
proof fn lemma_used_is_true(s: ServiceView, base: BaseStoreView, txid: Option<Seq<char>>, now: u64)
    requires
        service_true(s, base),
        s.works_on(txid) is Ok,
    ensures
        service_true(s.used(txid, now), base),
{
    if let Some(id) = txid {
        assert(s.txns.contains_key(id));
    }
}

/// The same for a request that reads before it writes.
pub proof fn law_changes_keep_cache_true<T>(
    s: ServiceView,
    base: BaseStoreView,
    txid: Option<Seq<char>>,
    now: u64,
    seen: spec_fn(TablesView) -> Option<Result<T, MetaError>>,
    after: spec_fn(TablesView) -> Result<(TablesView, T), MetaError>,
    t: ServiceView,
    r: Result<T, MetaError>,
)
    requires
        service_true(s, base),
        changes(s, txid, now, seen, after, t, r),
        s.works_on(txid) matches Ok(v) ==> (after(v) matches Ok(done) ==> fits(v, done.0)),
    ensures
        service_true(t, base),
{
    if !(txid is None && s.busy() && seen(s.tables) is Some) {
        law_writes_keep_cache_true(s, base, txid, now, after, t, r);
    }
}

/// The same for a request in a transaction of its own.
pub proof fn law_applied_keeps_cache_true(
    s: ServiceView,
    base: BaseStoreView,
    seen: Option<Result<(), MetaError>>,
    after: After,
    t: ServiceView,
    r: Result<(), Stop>,
)
    requires
        service_true(s, base),
        applies(s, seen, after, t, r),
        after matches Ok(w) ==> fits(s.tables, w),
    ensures
        service_true(t, base),
{
    if let Ok(w) = after {
        if !s.busy() {
            lemma_publish(s, base, w, t);
        }
    }
}

/// A commit publishes what the transaction did, and the cache is true of it.
pub proof fn law_commit_leaves_cache_true(
    s: ServiceView,
    base: BaseStoreView,
    txid: Option<Seq<char>>,
    t: ServiceView,
    r: Result<(), MetaError>,
)
    requires
        service_true(s, base),
        commits(s, txid, t, r),
    ensures
        service_true(t, base),
{
    if let Some(id) = txid {
        if s.txns.contains_key(id) && !s.txns[id].closing {
            let alone = ServiceView { txns: s.txns.remove(id), ..s };
            assert forall|k: Seq<char>| !(#[trigger] alone.txns.contains_key(k)) by {
                assert(s.txns.contains_key(id));
            }
            lemma_publish(alone, base, s.txns[id].tables, t);
        }
    }
}

/// Rolling back leaves the cache true.
pub proof fn law_rollback_leaves_cache_true(
    s: ServiceView,
    base: BaseStoreView,
    txid: Option<Seq<char>>,
    t: ServiceView,
    r: Result<(), MetaError>,
)
    requires
        service_true(s, base),
        rolls_back(s, txid, t, r),
    ensures
        service_true(t, base),
{
}

/// Giving up transactions that nobody uses leaves the cache true.
pub proof fn law_cleanup_leaves_cache_true(
    s: ServiceView,
    base: BaseStoreView,
    now: u64,
    timeout_secs: u64,
)
    requires
        service_true(s, base),
    ensures
        service_true(
            (ServiceView { txns: crate::service::live_txns(s.txns, now, timeout_secs), ..s }),
            base,
        ),
{
}

/// What the store says of a child does not change, unless it failed to say
/// anything: telling it again, or for the first time, leaves the cache true.
pub proof fn law_learning_keeps_cache_true(
    s: ServiceView,
    base: BaseStoreView,
    dir: ObjId,
    name: Seq<char>,
    reply: BaseReply,
)
    requires
        service_true(s, base),
        base.children.contains_key((dir.model(), name)) ==> base.children[(dir.model(), name)]
            is Failed || base.children[(dir.model(), name)] == reply,
    ensures
        service_true(
            s,
            (BaseStoreView {
                children: base.children.insert((dir.model(), name), reply),
                ..base
            }),
        ),
{
    let told = BaseStoreView { children: base.children.insert((dir.model(), name), reply), ..base };
    lemma_more_base_known(s.tables, base, told, s.cache);
}

/// A store that answers as before, and maybe more, leaves a true cache true.
pub proof fn lemma_more_base_known(
    v: TablesView,
    base: BaseStoreView,
    told: BaseStoreView,
    c: CacheView,
)
    requires
        c.inv(),
        coherent(v, base, c),
        base.configured ==> told.configured,
        forall|k: ((Seq<char>, Seq<char>), Seq<char>)| #[trigger]
            base.children.contains_key(k) ==> base.children[k] is Failed || (
            told.children.contains_key(k) && told.children[k] == base.children[k]),
    ensures
        coherent(v, told, c),
{
    assert forall|p: Path| #[trigger] c.nodes.contains_key(p) implies crate::resolve_laws::node_true(
        v,
        told,
        p,
        c.nodes[p],
    ) by {
        assert(crate::resolve_laws::node_true(v, base, p, c.nodes[p]));
        if crate::path_cache::terminal_of(c.nodes[p]) is Some {
            lemma_walk_told(v, base, told, p, 0, seq![v.root]);
        }
    }
}

proof fn lemma_walk_told(
    v: TablesView,
    base: BaseStoreView,
    told: BaseStoreView,
    p: Path,
    i: int,
    ids: Seq<u64>,
)
    requires
        base.configured ==> told.configured,
        forall|k: ((Seq<char>, Seq<char>), Seq<char>)| #[trigger]
            base.children.contains_key(k) ==> base.children[k] is Failed || (
            told.children.contains_key(k) && told.children[k] == base.children[k]),
        crate::resolve::walk(v, base, p, i, ids) is Terminal,
    ensures
        crate::resolve::walk(v, told, p, i, ids) == crate::resolve::walk(v, base, p, i, ids),
    decreases p.len() - i,
{
    if 0 <= i < p.len() {
        match crate::resolve::step(v, base, ids.last(), p[i]) {
            crate::resolve::Step::Target(DentryTarget::IndexNodeId(id)) => {
                if i < p.len() - 1 {
                    lemma_walk_told(v, base, told, p, i + 1, ids.push(id));
                }
            },
            _ => {},
        }
    }
}

/// A path resolves to what the tables hold, and the cache stays true, as long
/// as it has room.
pub proof fn law_resolution_tells_the_tables(
    a: FSMetaService,
    path: Seq<char>,
    sym_count: u32,
    b: FSMetaService,
    r: Result<Option<FsMetaResolvePathResp>, Stop>,
)
    requires
        cache_true(a),
        resolves_path(a, path, sym_count, b, r),
    ensures
        answer_is(r, resolved(a@.tables, a.rest.base@, path_parts(path), sym_count as nat)),
        has_room(a@.cache, sym_count as nat + 1) ==> cache_true(b),
{
    let answer = choose|answer: Answer| #[trigger]
        resolves(
            a@.tables,
            a.rest.base@,
            a@.cache,
            path_parts(path),
            sym_count as nat,
            b@.cache,
            answer,
        ) && answer_is(r, answer);
    law_cache_is_transparent(
        a@.tables,
        a.rest.base@,
        a@.cache,
        path_parts(path),
        sym_count as nat,
        b@.cache,
        answer,
    );
    if has_room(a@.cache, sym_count as nat + 1) {
        lemma_resolves_keeps_edges(
            a@.tables,
            a.rest.base@,
            a@.cache,
            path_parts(path),
            sym_count as nat,
            b@.cache,
            answer,
        );
    }
}

/// The call leaves alone what the cache is never told of: no entry leads back
/// to the root, and no directory loses the object under it.
pub open spec fn spares_paths(s: ServiceView, call: RpcCall) -> bool {
    match call {
        RpcCall::SetInode(q) => s.works_on(opt_text(q.txid)) matches Ok(v) ==> keeps_base(
            v,
            q.node,
        ),
        RpcCall::UpdateInodeState(q) => s.works_on(opt_text(q.txid)) matches Ok(v) ==> keeps_kind(
            v,
            q.node_id,
            q.new_state,
        ),
        RpcCall::CreateDentry(q) => s.works_on(opt_text(q.txid)) matches Ok(v) ==> q.target
            != DentryTarget::IndexNodeId(v.root),
        RpcCall::ReplaceTarget(q) => s.works_on(opt_text(q.txid)) matches Ok(v) ==> q.new_target
            != DentryTarget::IndexNodeId(v.root),
        _ => true,
    }
}

/// The directory that `node` is stored over keeps the object under it.
pub open spec fn keeps_base(v: TablesView, node: NodeRecord) -> bool {
    base_under(v, node.inode_id) is Some ==> kind_of(node.state) == NodeKind::Dir
        && node.base_obj_id == base_under(v, node.inode_id)
}

/// A directory over an object stays a directory.
pub open spec fn keeps_kind(v: TablesView, id: u64, new_state: NodeState) -> bool {
    base_under(v, id) is None || kind_of(new_state) == NodeKind::Dir
}

/// The cache has room for what the call may add to it.
pub open spec fn has_room_for(c: CacheView, call: RpcCall) -> bool {
    match call {
        RpcCall::ResolvePathEx(q) => has_room(c, q.sym_count as nat + 1),
        _ => true,
    }
}

proof fn lemma_works_on_sound(s: ServiceView, base: BaseStoreView, txid: Option<Seq<char>>)
    requires
        service_true(s, base),
    ensures
        s.works_on(txid) matches Ok(v) ==> sound(v) && fits(s.tables, v),
{
    lemma_fits_same(s.tables);
    if let Some(id) = txid {
        if s.txns.contains_key(id) {
            assert(fits(s.tables, s.txns[id].tables));
        }
    }
}

/// What an inode stored over another leaves behind fits.
pub proof fn lemma_set_inode_fits(v: TablesView, node: NodeRecord)
    requires
        sound(v),
        keeps_base(v, node),
    ensures
        fits(v, v.with_row(record_row(node, node.inode_id))),
{
    crate::tables::law_record_row_round_trip(node, node.inode_id);
    lemma_fits_row(v, record_row(node, node.inode_id));
}

/// Opening a writer keeps the cache true.
pub proof fn law_opened_writer_keeps_cache_true(
    a: FSMetaService,
    parent: u64,
    name: String,
    flag: OpenWriteFlag,
    expected_size: Option<u64>,
    answers: BufferAnswers,
    now: u64,
    b: FSMetaService,
    r: Result<String, Stop>,
)
    requires
        cache_true(a),
        opens_writer(a, parent, name, flag, expected_size, answers, now, b, r),
    ensures
        cache_true(b),
{
    let s = a@;
    let base = a.rest.base@;
    lemma_target_fits(s.tables, base, parent, name, flag, now);
    if !s.busy() && b@ != s {
        let t = writer_target(s.tables, base, parent, name, flag, now)->Ok_0;
        let who = choose|who: Writer| #[trigger]
            crate::writer::is_writer(who, a.rest.instance->0@, t.file_id, parent, name@)
                && crate::handlers::opens(
                s,
                start_writer(
                    t,
                    flag,
                    expected_size,
                    who,
                    answers.found,
                    answers.allocated,
                    now,
                ),
                b@,
                r,
            );
        lemma_start_fits(
            t,
            flag,
            expected_size,
            who,
            answers.found,
            answers.allocated,
            now,
        );
        let w = start_writer(
            t,
            flag,
            expected_size,
            who,
            answers.found,
            answers.allocated,
            now,
        )->Ok_0.0;
        lemma_fits_trans(s.tables, t.tables, w);
        lemma_publish(s, base, w, b@);
    }
}

/// Whatever call is served, the cache is true afterwards.
pub proof fn law_served_call_keeps_cache_true(
    a: FSMetaService,
    call: RpcCall,
    answers: BufferAnswers,
    now: u64,
    b: FSMetaService,
    x: Served,
)
    requires
        cache_true(a),
        serves(a, call, answers, now, b, x),
        spares_paths(a@, call),
        has_room_for(a@.cache, call),
    ensures
        cache_true(b),
{
    let s = a@;
    let base = a.rest.base@;
    match (call, x) {
        (RpcCall::ResolvePathEx(q), Served::Resolved(r)) => {
            law_resolution_tells_the_tables(a, q.path@, q.sym_count, b, r);
        },
        (RpcCall::BeginTxn(_), Served::Text(r)) => {
            lemma_fits_same(s.tables);
        },
        (RpcCall::GetInode(q), _) => {
            lemma_read_is_true(s, base, opt_text(q.txid), now, b@);
        },
        (RpcCall::GetDentry(q), _) => {
            lemma_read_is_true(s, base, opt_text(q.txid), now, b@);
        },
        (RpcCall::ListDentries(q), _) => {
            lemma_read_is_true(s, base, opt_text(q.txid), now, b@);
        },
        (RpcCall::StartList(q), _) => {
            lemma_read_is_true(s, base, opt_text(q.txid), now, b@);
        },
        (RpcCall::SetInode(q), Served::Done(r)) => {
            lemma_works_on_sound(s, base, opt_text(q.txid));
            if let Ok(v) = s.works_on(opt_text(q.txid)) {
                lemma_set_inode_fits(v, q.node);
            }
            law_writes_keep_cache_true(
                s,
                base,
                opt_text(q.txid),
                now,
                |v: TablesView| Ok((v.with_row(record_row(q.node, q.node.inode_id)), ())),
                b@,
                r,
            );
        },
        (RpcCall::UpdateInodeState(q), Served::Done(r)) => {
            lemma_works_on_sound(s, base, opt_text(q.txid));
            if let Ok(v) = s.works_on(opt_text(q.txid)) {
                lemma_state_fits(v, q.node_id, q.new_state, q.old_state);
            }
            law_writes_keep_cache_true(
                s,
                base,
                opt_text(q.txid),
                now,
                |v: TablesView|
                    crate::handlers::plain(
                        crate::tables::update_inode_state_after(
                            v,
                            q.node_id,
                            q.new_state,
                            q.old_state,
                        ),
                    ),
                b@,
                r,
            );
        },
        (RpcCall::AllocInode(q), Served::Id(r)) => {
            lemma_works_on_sound(s, base, opt_text(q.txid));
            if let Ok(v) = s.works_on(opt_text(q.txid)) {
                lemma_alloc_fits(v, q.node);
            }
            law_writes_keep_cache_true(
                s,
                base,
                opt_text(q.txid),
                now,
                |v: TablesView| crate::tables::alloc_inode_after(v, q.node),
                b@,
                r,
            );
        },
        (RpcCall::CreateDentry(q), Served::Done(r)) => {
            lemma_works_on_sound(s, base, opt_text(q.txid));
            if let Ok(v) = s.works_on(opt_text(q.txid)) {
                lemma_create_fits(v, q.parent, q.name, q.target, q.expected_parent_rev, now);
            }
            law_changes_keep_cache_true(
                s,
                base,
                opt_text(q.txid),
                now,
                |v: TablesView|
                    crate::tables::create_dentry_seen(v, q.parent, q.name@, q.expected_parent_rev),
                |v: TablesView|
                    crate::handlers::plain(
                        crate::tables::create_dentry_after(
                            v,
                            q.parent,
                            q.name,
                            q.target,
                            q.expected_parent_rev,
                            now,
                        ),
                    ),
                b@,
                r,
            );
        },
        (RpcCall::DeleteDentry(q), Served::Done(r)) => {
            lemma_works_on_sound(s, base, opt_text(q.txid));
            if let Ok(v) = s.works_on(opt_text(q.txid)) {
                lemma_delete_fits(v, q.parent, q.name, q.expected_parent_rev);
            }
            law_changes_keep_cache_true(
                s,
                base,
                opt_text(q.txid),
                now,
                |v: TablesView|
                    crate::tables::delete_dentry_seen(v, q.parent, q.expected_parent_rev),
                |v: TablesView|
                    crate::handlers::plain(
                        crate::tables::delete_dentry_after(
                            v,
                            q.parent,
                            q.name@,
                            q.expected_parent_rev,
                        ),
                    ),
                b@,
                r,
            );
        },
        (RpcCall::ReplaceTarget(q), Served::Done(r)) => {
            lemma_works_on_sound(s, base, opt_text(q.txid));
            if let Ok(v) = s.works_on(opt_text(q.txid)) {
                lemma_replace_fits(
                    v,
                    q.parent,
                    q.name,
                    q.expected_old_target,
                    q.new_target,
                    q.expected_parent_rev,
                    now,
                );
            }
            law_changes_keep_cache_true(
                s,
                base,
                opt_text(q.txid),
                now,
                |v: TablesView|
                    crate::tables::replace_target_seen(
                        v,
                        q.parent,
                        q.name@,
                        q.expected_old_target,
                        q.new_target,
                        q.expected_parent_rev,
                    ),
                |v: TablesView|
                    crate::handlers::plain(
                        crate::tables::replace_target_after(
                            v,
                            q.parent,
                            q.name@,
                            q.expected_old_target,
                            q.new_target,
                            q.expected_parent_rev,
                            now,
                        ),
                    ),
                b@,
                r,
            );
        },
        (RpcCall::BumpDirRev(q), Served::Id(r)) => {
            lemma_works_on_sound(s, base, opt_text(q.txid));
            if let Ok(v) = s.works_on(opt_text(q.txid)) {
                lemma_bump_fits(v, q.dir, q.expected_rev);
            }
            law_writes_keep_cache_true(
                s,
                base,
                opt_text(q.txid),
                now,
                |v: TablesView|
                    match crate::tables::bump_dir_rev_after(v, q.dir, q.expected_rev) {
                        Ok(w) => Ok((w, (q.expected_rev + 1) as u64)),
                        Err(e) => Err(e),
                    },
                b@,
                r,
            );
        },
        (RpcCall::Commit(q), Served::Done(r)) => {
            law_commit_leaves_cache_true(s, base, opt_text(q.txid), b@, r);
        },
        (RpcCall::Rollback(q), Served::Done(r)) => {
            law_rollback_leaves_cache_true(s, base, opt_text(q.txid), b@, r);
        },
        (RpcCall::AcquireFileLease(q), Served::Id(r)) => {
            lemma_lease_requests_fit(
                s.tables,
                q.node_id,
                q.session,
                q.session.0@,
                0,
                q.ttl.secs,
                now,
            );
            law_writes_keep_cache_true(
                s,
                base,
                None,
                now,
                |v: TablesView| acquire_after(v, q.node_id, q.session, q.ttl.secs, now),
                b@,
                r,
            );
        },
        (RpcCall::RenewFileLease(q), Served::Done(r)) => {
            lemma_lease_requests_fit(
                s.tables,
                q.node_id,
                q.session,
                q.session.0@,
                q.lease_seq,
                q.ttl.secs,
                now,
            );
            law_writes_keep_cache_true(
                s,
                base,
                None,
                now,
                |v: TablesView|
                    crate::handlers::plain(
                        renew_after(v, q.node_id, q.session.0@, q.lease_seq, q.ttl.secs, now),
                    ),
                b@,
                r,
            );
        },
        (RpcCall::ReleaseFileLease(q), Served::Done(r)) => {
            lemma_lease_requests_fit(
                s.tables,
                q.node_id,
                q.session,
                q.session.0@,
                q.lease_seq,
                0,
                now,
            );
            law_writes_keep_cache_true(
                s,
                base,
                None,
                now,
                |v: TablesView|
                    crate::handlers::plain(
                        release_after(v, q.node_id, q.session.0@, q.lease_seq),
                    ),
                b@,
                r,
            );
        },
        (RpcCall::ObjStatBump(q), Served::Id(r)) => {
            lemma_works_on_sound(s, base, opt_text(q.txid));
            if let Ok(v) = s.works_on(opt_text(q.txid)) {
                lemma_stat_bump_fits(v, q.obj_id, q.delta, now);
            }
            law_writes_keep_cache_true(
                s,
                base,
                opt_text(q.txid),
                now,
                |v: TablesView| crate::stats::stat_bump_after(v, q.obj_id, q.delta, now),
                b@,
                r,
            );
        },
        (RpcCall::ObjStatDeleteIfZero(q), Served::Flag(r)) => {
            lemma_works_on_sound(s, base, opt_text(q.txid));
            if let Ok(v) = s.works_on(opt_text(q.txid)) {
                lemma_fits_kept(v, zero_dropped(v, q.obj_id)->Ok_0.0);
            }
            law_writes_keep_cache_true(
                s,
                base,
                opt_text(q.txid),
                now,
                |v: TablesView| zero_dropped(v, q.obj_id),
                b@,
                r,
            );
        },
        (RpcCall::OpenFileWriter(q), Served::TextOrStop(r)) => {
            law_opened_writer_keeps_cache_true(
                a,
                q.parent,
                q.name,
                q.flag,
                q.expected_size,
                answers,
                now,
                b,
                r,
            );
        },
        _ => {},
    }
}

/// A request that reads leaves the cache true.
proof fn lemma_read_is_true(
    s: ServiceView,
    base: BaseStoreView,
    txid: Option<Seq<char>>,
    now: u64,
    t: ServiceView,
)
    requires
        service_true(s, base),
        t == s || (s.works_on(txid) is Ok && t == s.used(txid, now)),
    ensures
        service_true(t, base),
{
    if t != s {
        lemma_used_is_true(s, base, txid, now);
    }
}

/// A path that is read leads to what the tables hold, and the cache stays true
/// while it has room.
pub proof fn law_reading_tells_the_tables(
    s: ServiceView,
    base: BaseStoreView,
    p: Path,
    sym_count: nat,
    t: ServiceView,
    answer: Answer,
)
    requires
        service_true(s, base),
        resolves(s.tables, base, s.cache, p, sym_count, t.cache, answer),
        t == (ServiceView { cache: t.cache, ..s }),
    ensures
        answer == resolved(s.tables, base, p, sym_count),
        has_room(s.cache, sym_count + 1) ==> service_true(t, base),
{
    law_cache_is_transparent(s.tables, base, s.cache, p, sym_count, t.cache, answer);
    if has_room(s.cache, sym_count + 1) {
        lemma_resolves_keeps_edges(s.tables, base, s.cache, p, sym_count, t.cache, answer);
    }
}

/// What was learnt of the store may be forgotten: as long as the cache is true
/// of the store as it is, a path resolves to what tables and store hold, or the
/// store has to be asked; and the cache stays true while it has room.
pub proof fn law_forgotten_store_is_asked(
    s: ServiceView,
    base: BaseStoreView,
    world: BaseStoreView,
    p: Path,
    sym_count: nat,
    t: ServiceView,
    answer: Answer,
)
    requires
        service_true(s, world),
        knows_no_more(base, world),
        resolves(s.tables, base, s.cache, p, sym_count, t.cache, answer),
        t == (ServiceView { cache: t.cache, ..s }),
    ensures
        answer is AskChild || answer == resolved(s.tables, world, p, sym_count),
        has_room(s.cache, sym_count + 1) ==> service_true(t, world),
{
    lemma_resolves_asks(s.tables, base, world, s.cache, p, sym_count, t.cache, answer);
}

} // verus!
