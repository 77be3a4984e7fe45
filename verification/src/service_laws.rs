//! What transactions promise, and the guard that keeps the promise.

use vstd::prelude::*;
use crate::cache_laws::{
    cache_true, law_commit_leaves_cache_true, law_resolution_tells_the_tables,
};
use crate::committed::settled;
use crate::errors::MetaError;
use crate::handlers::resolves_path;
use crate::outside::Stop;
use crate::paths::path_parts;
use crate::records::FsMetaResolvePathResp;
use crate::resolve::answer_is;
use crate::resolve_laws::resolved;
use crate::service::{
    changes, commits, fresh_txn, opt_text, rolls_back, txid_text, writes, FSMetaService,
    ServiceView,
};
use crate::tables::TablesView;

verus! {

/// A transaction that is rolled back unless it has been committed.
pub struct TxnGuard {
    pub id: Option<String>,
}

impl TxnGuard {
    /// Begins a transaction.
    pub fn begin(service: &mut FSMetaService, now: u64) -> (r: Result<Self, MetaError>)
        requires
            old(service).wf(),
        ensures
            final(service).wf(),
            final(service).rest == old(service).rest,
            ({
                let s = old(service)@;
                match r {
                    Err(e) => s.busy() && e == MetaError::TxnBeginBusy && final(service)@.tables
                        == s.tables && final(service)@.txns == s.txns && final(service)@.cache
                        == s.cache,
                    Ok(g) => !s.busy() && opt_text(g.id) == Some(txid_text(now, s.txn_seq))
                        && final(service)@ == (ServiceView {
                        txn_seq: final(service)@.txn_seq,
                        ..s
                    }).with_txn(txid_text(now, s.txn_seq), fresh_txn(s.tables, now)),
                }
            }),
    {
        match service.handle_begin_txn(now) {
            Err(e) => Err(e),
            Ok(id) => Ok(TxnGuard { id: Some(id) }),
        }
    }

    /// The id under which requests join the transaction.
    pub fn txid(&self) -> (r: Option<String>)
        ensures
            r == self.id,
    {
        match &self.id {
            Some(s) => Some(s.clone()),
            None => None,
        }
    }

    /// Commits the transaction.
    pub fn commit(self, service: &mut FSMetaService) -> (r: Result<(), MetaError>)
        requires
            old(service).wf(),
        ensures
            final(service).wf(),
            final(service).rest == old(service).rest,
            commits(old(service)@, opt_text(self.id), final(service)@, r),
    {
        service.handle_commit(self.id)
    }

    /// Rolls the transaction back.
    pub fn rollback(self, service: &mut FSMetaService) -> (r: Result<(), MetaError>)
        requires
            old(service).wf(),
        ensures
            final(service).wf(),
            final(service).rest == old(service).rest,
            rolls_back(old(service)@, opt_text(self.id), final(service)@, r),
    {
        service.handle_rollback(self.id)
    }
}

/// Nobody outside a transaction sees what happens inside it.
pub proof fn law_txn_is_isolated<T>(
    s: ServiceView,
    id: Seq<char>,
    now: u64,
    after: spec_fn(TablesView) -> Result<(TablesView, T), MetaError>,
    t: ServiceView,
    r: Result<T, MetaError>,
)
    requires
        writes(s, Some(id), now, after, t, r),
    ensures
        t.tables == s.tables,
        t.cache == s.cache,
        t.works_on(None) == s.works_on(None),
{
}

/// While a transaction is open nobody else changes the committed tables; a
/// request that would is refused, unless reading alone settles it.
pub proof fn law_open_txn_keeps_others_out<T>(
    s: ServiceView,
    now: u64,
    seen: spec_fn(TablesView) -> Option<Result<T, MetaError>>,
    after: spec_fn(TablesView) -> Result<(TablesView, T), MetaError>,
    t: ServiceView,
    r: Result<T, MetaError>,
)
    requires
        s.busy(),
        changes(s, None, now, seen, after, t, r),
    ensures
        t == s,
        r == match seen(s.tables) {
            Some(x) => x,
            None => Err::<T, MetaError>(MetaError::TxnBusy),
        },
{
}

/// A transaction starts from the committed tables, and reads what it has written.
pub proof fn law_txn_reads_its_writes<T>(
    s: ServiceView,
    id: Seq<char>,
    now: u64,
    after: spec_fn(TablesView) -> Result<(TablesView, T), MetaError>,
    t: ServiceView,
    r: Result<T, MetaError>,
)
    requires
        writes(s, Some(id), now, after, t, r),
        r is Ok,
    ensures
        s.works_on(Some(id)) matches Ok(v) && after(v) matches Ok(done) && t.works_on(Some(id))
            == Ok::<TablesView, MetaError>(done.0),
{
}

/// Committing publishes exactly what the transaction did.
pub proof fn law_commit_publishes(s: ServiceView, id: Seq<char>, t: ServiceView, r: Result<(), MetaError>)
    requires
        commits(s, Some(id), t, r),
        r is Ok,
    ensures
        s.works_on(Some(id)) matches Ok(v) && t.tables == settled(v),
        !t.txns.contains_key(id),
{
}

/// Rolling back leaves no trace of the transaction.
pub proof fn law_rollback_restores(s: ServiceView, id: Seq<char>, t: ServiceView, r: Result<(), MetaError>)
    requires
        rolls_back(s, Some(id), t, r),
    ensures
        t.tables == s.tables,
        t.cache == s.cache,
        s.works_on(Some(id)) is Ok ==> r is Ok && !t.txns.contains_key(id),
{
}

/// A closed transaction admits no request, and cannot be committed again.
pub proof fn law_closed_txn_is_gone(s: ServiceView, id: Seq<char>, t: ServiceView, r: Result<(), MetaError>)
    requires
        commits(s, Some(id), t, r) || rolls_back(s, Some(id), t, r),
        r is Ok,
        s.txns.contains_key(id),
        !s.txns[id].closing,
    ensures
        t.works_on(Some(id)) == Err::<TablesView, MetaError>(MetaError::TxidNotFound),
{
}

/// Once a commit has gone through, requests outside any transaction work on what
/// the transaction did, and paths resolve to that; a second commit finds no such
/// transaction.
pub proof fn law_commit_is_seen(
    a: FSMetaService,
    id: Seq<char>,
    b: FSMetaService,
    path: Seq<char>,
    sym_count: u32,
    c: FSMetaService,
    r: Result<Option<FsMetaResolvePathResp>, Stop>,
    d: FSMetaService,
    again: Result<(), MetaError>,
)
    requires
        cache_true(a),
        b.rest == a.rest,
        commits(a@, Some(id), b@, Ok(())),
        resolves_path(b, path, sym_count, c, r),
        commits(b@, Some(id), d@, again),
    ensures
        a@.works_on(Some(id)) matches Ok(v) && b@.works_on(None) == Ok::<TablesView, MetaError>(
            settled(v),
        ) && answer_is(
            r,
            resolved(settled(v), a.rest.base@, path_parts(path), sym_count as nat),
        ),
        again == Err::<(), MetaError>(MetaError::TxidNotFound),
        d@ == b@,
{
    law_commit_leaves_cache_true(a@, a.rest.base@, Some(id), b@, Ok(()));
    law_resolution_tells_the_tables(b, path, sym_count, c, r);
}

/// Committing no transaction succeeds and changes nothing.
pub proof fn law_commit_of_none_is_idle(s: ServiceView, t: ServiceView, r: Result<(), MetaError>)
    requires
        commits(s, None, t, r),
    ensures
        r is Ok,
        t == s,
{
}

} // verus!
