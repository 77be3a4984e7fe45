//! What calls on transactions, leases and paths leave for the calls after them.

use vstd::prelude::*;
use crate::cache_laws::{cache_true, law_reading_tells_the_tables};
use crate::errors::MetaError;
use crate::lease_laws::{
    is_clock_time, law_released_lease_is_gone, law_renewal_counts_from_now, leased_until,
    moment_after,
};
use crate::outside::Stop;
use crate::paths::path_parts;
use crate::records::{
    DentryRecord, DentryTarget, FsMetaResolvePathItem, FsMetaResolvePathResp, NodeRecord, ObjId,
};
use crate::request_laws::{leads_to, lemma_idle_has_no_txn};
use crate::requests::{
    FsMetaBeginTxnReq, FsMetaCommitReq, FsMetaGetDentryReq, FsMetaGetInodeReq,
    FsMetaObjStatListZeroReq, FsMetaReleaseFileLeaseReq, FsMetaRenewFileLeaseReq,
    FsMetaResolvePathExReq, FsMetaRollbackReq, FsMetaRootDirReq,
};
use crate::resolve::{answer_is, resolves, Answer};
use crate::rpc::{serves, RpcCall, Served};
use crate::service::FSMetaService;
use crate::table::Key;
use crate::table_laws::law_unused_objects_are_listed;
use crate::txn_laws::has_no_txn;
use crate::walk_laws::law_path_leads_to_the_inode;
use crate::writer::BufferAnswers;

verus! {

/// A transaction begins with what is committed: what it reads first is what was
/// there.
pub proof fn law_begun_transaction_reads_what_is_there(
    a: FSMetaService,
    x: BufferAnswers,
    now: u64,
    b: FSMetaService,
    txid: String,
    id: u64,
    later: u64,
    c: FSMetaService,
    r: Result<Option<NodeRecord>, MetaError>,
)
    requires
        serves(a, RpcCall::BeginTxn(FsMetaBeginTxnReq), x, now, b, Served::Text(Ok(txid))),
        serves(
            b,
            RpcCall::GetInode(FsMetaGetInodeReq { id, txid: Some(txid) }),
            x,
            later,
            c,
            Served::Inode(r),
        ),
    ensures
        r == a@.tables.read(id),
        b@.tables == a@.tables,
        c@.tables == a@.tables,
{
}

/// Once a transaction is committed, everybody reads what it did.
pub proof fn law_committed_changes_are_got(
    a: FSMetaService,
    txid: String,
    x: BufferAnswers,
    now: u64,
    b: FSMetaService,
    r: Result<(), MetaError>,
    id: u64,
    name: String,
    later: u64,
    c: FSMetaService,
    node: Result<Option<NodeRecord>, MetaError>,
    d: FSMetaService,
    entry: Result<Option<DentryRecord>, MetaError>,
)
    requires
        a@.txns.contains_key(txid@),
        !a@.txns[txid@].closing,
        serves(
            a,
            RpcCall::Commit(FsMetaCommitReq { txid: Some(txid) }),
            x,
            now,
            b,
            Served::Done(r),
        ),
        serves(
            b,
            RpcCall::GetInode(FsMetaGetInodeReq { id, txid: None }),
            x,
            later,
            c,
            Served::Inode(node),
        ),
        serves(
            b,
            RpcCall::GetDentry(FsMetaGetDentryReq { parent: id, name, txid: None }),
            x,
            later,
            d,
            Served::Dentry(entry),
        ),
    ensures
        r is Ok,
        node == a@.txns[txid@].tables.read(id),
        entry == Ok::<Option<DentryRecord>, MetaError>(a@.txns[txid@].tables.dentry(id, name@)),
        !b@.txns.contains_key(txid@),
{
}

/// Once a transaction is rolled back, nobody reads what it did.
pub proof fn law_rolled_back_changes_are_not_got(
    a: FSMetaService,
    txid: String,
    x: BufferAnswers,
    now: u64,
    b: FSMetaService,
    r: Result<(), MetaError>,
    id: u64,
    name: String,
    later: u64,
    c: FSMetaService,
    node: Result<Option<NodeRecord>, MetaError>,
    d: FSMetaService,
    entry: Result<Option<DentryRecord>, MetaError>,
)
    requires
        a@.txns.contains_key(txid@),
        !a@.txns[txid@].closing,
        serves(
            a,
            RpcCall::Rollback(FsMetaRollbackReq { txid: Some(txid) }),
            x,
            now,
            b,
            Served::Done(r),
        ),
        serves(
            b,
            RpcCall::GetInode(FsMetaGetInodeReq { id, txid: None }),
            x,
            later,
            c,
            Served::Inode(node),
        ),
        serves(
            b,
            RpcCall::GetDentry(FsMetaGetDentryReq { parent: id, name, txid: None }),
            x,
            later,
            d,
            Served::Dentry(entry),
        ),
    ensures
        r is Ok,
        node == a@.tables.read(id),
        entry == Ok::<Option<DentryRecord>, MetaError>(a@.tables.dentry(id, name@)),
        !b@.txns.contains_key(txid@),
{
}

/// The holder of a lease can renew it while no transaction is open: it then ends
/// as much later as was asked, and nothing of the inode but that has changed.
pub proof fn law_renewed_lease_is_got(
    a: FSMetaService,
    q: FsMetaRenewFileLeaseReq,
    end: int,
    x: BufferAnswers,
    now: u64,
    b: FSMetaService,
    r: Result<(), MetaError>,
    later: u64,
    c: FSMetaService,
    node: NodeRecord,
)
    requires
        a@.tables.inv(),
        has_no_txn(a@),
        is_clock_time(now),
        is_clock_time(q.ttl.secs),
        leased_until(a@.tables, q.node_id, q.session.0@, q.lease_seq, end),
        serves(a, RpcCall::RenewFileLease(q), x, now, b, Served::Done(r)),
        serves(
            b,
            RpcCall::GetInode(FsMetaGetInodeReq { id: q.node_id, txid: None }),
            x,
            later,
            c,
            Served::Inode(Ok(Some(node))),
        ),
    ensures
        r is Ok,
        leased_until(
            b@.tables,
            q.node_id,
            q.session.0@,
            q.lease_seq,
            moment_after(now, q.ttl.secs),
        ),
        node.lease_expire_at matches Some(t) && t == moment_after(now, q.ttl.secs),
        node.lease_seq == Some(q.lease_seq),
        node.lease_client_session matches Some(s) && s.0@ == q.session.0@,
{
    lemma_idle_has_no_txn(a@);
    law_renewal_counts_from_now(
        a@.tables,
        q.node_id,
        q.session,
        q.lease_seq,
        end,
        q.ttl.secs,
        now,
    );
}

/// The holder of a lease can give it back while no transaction is open: the inode
/// is then read without one.
pub proof fn law_released_lease_is_not_got(
    a: FSMetaService,
    q: FsMetaReleaseFileLeaseReq,
    end: int,
    x: BufferAnswers,
    now: u64,
    b: FSMetaService,
    r: Result<(), MetaError>,
    later: u64,
    c: FSMetaService,
    node: NodeRecord,
)
    requires
        a@.tables.inv(),
        has_no_txn(a@),
        leased_until(a@.tables, q.node_id, q.session.0@, q.lease_seq, end),
        serves(a, RpcCall::ReleaseFileLease(q), x, now, b, Served::Done(r)),
        serves(
            b,
            RpcCall::GetInode(FsMetaGetInodeReq { id: q.node_id, txid: None }),
            x,
            later,
            c,
            Served::Inode(Ok(Some(node))),
        ),
    ensures
        r is Ok,
        node.lease_client_session is None,
        node.lease_expire_at is None,
        node.lease_seq == Some(q.lease_seq),
{
    lemma_idle_has_no_txn(a@);
    law_released_lease_is_gone(a@.tables, q.node_id, q.session.0@, q.lease_seq, end);
}

/// Objects are listed as unused only where nothing refers to them any more, and
/// where there is room all of them are.
pub proof fn law_listed_objects_are_unused(
    a: FSMetaService,
    q: FsMetaObjStatListZeroReq,
    x: BufferAnswers,
    now: u64,
    b: FSMetaService,
    out: Vec<ObjId>,
    obj_id: ObjId,
)
    requires
        serves(a, RpcCall::ObjStatListZero(q), x, now, b, Served::Objects(Ok(out))),
        q.older_than_ts <= i64::MAX,
        a@.tables.stats.contains_key(obj_id.model()),
        a@.tables.stats[obj_id.model()].zero_since matches Some(t) ==> t <= i64::MAX,
    ensures
        ({
            let s = a@.tables.stats[obj_id.model()];
            let unused = s.ref_count == 0 && (s.zero_since matches Some(t) && t <= q.older_than_ts);
            let listed = exists|k: int|
                0 <= k < out@.len() && (#[trigger] out@[k]).model() == obj_id.model();
            &&& listed ==> unused
            &&& unused && out@.len() < q.limit ==> listed
        }),
        out@.len() <= q.limit,
        b == a,
{
    law_unused_objects_are_listed(
        a@.tables,
        q.older_than_ts,
        q.limit as nat,
        out@,
        obj_id,
        0,
        0,
    );
}

/// The root is answered by its number, and a path is answered by the inode that
/// its entries lead to.
pub proof fn law_resolved_path_is_answered(
    a: FSMetaService,
    q: FsMetaResolvePathExReq,
    ids: Seq<u64>,
    id: u64,
    x: BufferAnswers,
    now: u64,
    b: FSMetaService,
    r: Result<Option<FsMetaResolvePathResp>, Stop>,
    c: FSMetaService,
    root: Result<u64, MetaError>,
)
    requires
        cache_true(a),
        serves(a, RpcCall::ResolvePathEx(q), x, now, b, Served::Resolved(r)),
        serves(a, RpcCall::RootDir(FsMetaRootDirReq), x, now, c, Served::Id(root)),
    ensures
        root == Ok::<u64, MetaError>(a@.tables.root),
        leads_to(a@.tables, path_parts(q.path@), ids, DentryTarget::IndexNodeId(id)) && (
        a@.tables.read(id) matches Ok(Some(_))) ==> (r matches Ok(Some(resp)) && resp.item
            == FsMetaResolvePathItem::Inode { inode_id: id, inode: a@.tables.read(id)->Ok_0->0 }
            && resp.inner_path is None),
        leads_to(a@.tables, path_parts(q.path@), ids, DentryTarget::IndexNodeId(id))
            && !a@.tables.nodes.contains_key(id) ==> r == Ok::<
            Option<FsMetaResolvePathResp>,
            Stop,
        >(None),
        b@.tables == a@.tables,
{
    let v = a@.tables;
    let base = a.rest.base@;
    let p = path_parts(q.path@);
    let y = choose|y: Answer| #[trigger]
        resolves(v, base, a@.cache, p, q.sym_count as nat, b@.cache, y) && answer_is(r, y);
    law_reading_tells_the_tables(a@, base, p, q.sym_count as nat, b@, y);
    if leads_to(v, p, ids, DentryTarget::IndexNodeId(id)) {
        law_path_leads_to_the_inode(v, base, p, ids, id, q.sym_count as nat);
    }
}

} // verus!
