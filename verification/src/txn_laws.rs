//! How transactions begin, live and end, and what requests inside and outside
//! of them change.

use vstd::prelude::*;
use crate::errors::MetaError;
use crate::handlers::applies;
use crate::ops::After;
use crate::outside::Stop;
use crate::service::{
    begins, changes, commits, enters, left, live_txns, reads, rolls_back, starts_closing,
    waits_for, writes, ServiceView, TxnView,
};
use crate::tables::TablesView;

verus! {

/// The transaction is open to requests and holds these tables.
pub open spec fn is_open_with(s: ServiceView, id: Seq<char>, v: TablesView) -> bool {
    s.txns.contains_key(id) && !s.txns[id].closing && s.txns[id].tables == v
}

/// No transaction is there.
pub open spec fn has_no_txn(s: ServiceView) -> bool {
    s.txns == Map::<Seq<char>, TxnView>::empty()
}

/// Every transaction but this one is as it was.
pub open spec fn other_txns_kept(s: ServiceView, t: ServiceView, id: Seq<char>) -> bool {
    forall|k: Seq<char>|
        k != id ==> (#[trigger] t.txns.contains_key(k) <==> s.txns.contains_key(k)) && (
        s.txns.contains_key(k) ==> t.txns[k] == s.txns[k])
}

/// Where none is open a transaction begins, on the tables as they are committed;
/// while one is open no other begins.
pub proof fn law_one_txn_at_a_time(
    s: ServiceView,
    now: u64,
    t: ServiceView,
    r: Result<String, MetaError>,
    k: Seq<char>,
)
    requires
        begins(s, now, t, r),
    ensures
        t.tables == s.tables,
        t.cache == s.cache,
        has_no_txn(s) ==> (r matches Ok(id) && is_open_with(t, id@, s.tables) && t.txns.dom()
            == set![id@] && t.txns[id@].last_used_at == now && t.txns[id@].in_flight == 0),
        s.txns.contains_key(k) ==> r == Err::<String, MetaError>(MetaError::TxnBeginBusy) && t.txns
            == s.txns,
{
    if has_no_txn(s) {
        assert(!s.busy());
        assert(t.txns.dom() =~= set![r->Ok_0@]);
    }
    if s.txns.contains_key(k) {
        assert(s.busy());
    }
}

/// A request that reads answers from the tables of its transaction, or from the
/// committed ones, and changes none; its transaction counts as used.
pub proof fn law_reading_changes_nothing<T>(
    s: ServiceView,
    txid: Option<Seq<char>>,
    now: u64,
    out: spec_fn(TablesView) -> Result<T, MetaError>,
    t: ServiceView,
    r: Result<T, MetaError>,
    v: TablesView,
)
    requires
        reads(s, txid, now, out, t, r),
        match txid {
            None => v == s.tables,
            Some(id) => is_open_with(s, id, v),
        },
    ensures
        r == out(v),
        t.tables == s.tables,
        t.cache == s.cache,
        txid is None ==> t.txns == s.txns,
        txid matches Some(id) ==> {
            &&& is_open_with(t, id, v)
            &&& t.txns[id].last_used_at == now
            &&& other_txns_kept(s, t, id)
        },
{
}

/// Inside a transaction a request that changes the tables changes those of the
/// transaction and nothing else; where it fails it changes none.
pub proof fn law_writing_in_a_txn_stays_there<T>(
    s: ServiceView,
    id: Seq<char>,
    now: u64,
    after: spec_fn(TablesView) -> Result<(TablesView, T), MetaError>,
    t: ServiceView,
    r: Result<T, MetaError>,
    v: TablesView,
)
    requires
        writes(s, Some(id), now, after, t, r),
        is_open_with(s, id, v),
    ensures
        t.tables == s.tables && t.cache == s.cache,
        other_txns_kept(s, t, id),
        t.txns[id].last_used_at == now,
        after(v) matches Ok(done) ==> r == Ok::<T, MetaError>(done.1) && is_open_with(
            t,
            id,
            done.0,
        ),
        after(v) matches Err(e) ==> r == Err::<T, MetaError>(e) && is_open_with(t, id, v),
{
}

/// Outside of any transaction, and while none is open, a request changes the
/// committed tables at once; where it fails it changes nothing at all.
pub proof fn law_writing_outside_is_committed<T>(
    s: ServiceView,
    now: u64,
    seen: spec_fn(TablesView) -> Option<Result<T, MetaError>>,
    after: spec_fn(TablesView) -> Result<(TablesView, T), MetaError>,
    t: ServiceView,
    r: Result<T, MetaError>,
)
    requires
        changes(s, None, now, seen, after, t, r) || writes(s, None, now, after, t, r),
        has_no_txn(s),
    ensures
        after(s.tables) matches Ok(done) ==> {
            &&& r == Ok::<T, MetaError>(done.1)
            &&& t.tables == (TablesView { touched: Seq::empty(), ..done.0 })
            &&& t.txns == s.txns
        },
        after(s.tables) matches Err(e) ==> r == Err::<T, MetaError>(e) && t == s,
{
    assert(!s.busy());
}

/// A request that changes several rows at once changes all of them or none.
pub proof fn law_changing_several_rows_is_one_step(
    s: ServiceView,
    seen: Option<Result<(), MetaError>>,
    after: After,
    t: ServiceView,
    r: Result<(), Stop>,
    k: Seq<char>,
)
    requires
        applies(s, seen, after, t, r),
    ensures
        has_no_txn(s) ==> match after {
            Ok(w) => r is Ok && t.tables == (TablesView { touched: Seq::empty(), ..w }) && t.txns
                == s.txns,
            Err(x) => r == Err::<(), Stop>(x) && t == s,
        },
        s.txns.contains_key(k) ==> t == s && (seen is None ==> r is Err),
{
    if has_no_txn(s) {
        assert(!s.busy());
    }
    if s.txns.contains_key(k) {
        assert(s.busy());
    }
}

/// An open transaction can be committed: what it did is then committed, the
/// transaction is gone and every other is as it was.
pub proof fn law_open_txn_is_committed(
    s: ServiceView,
    id: Seq<char>,
    t: ServiceView,
    r: Result<(), MetaError>,
    v: TablesView,
)
    requires
        commits(s, Some(id), t, r),
        is_open_with(s, id, v),
    ensures
        r is Ok,
        t.tables == (TablesView { touched: Seq::empty(), ..v }),
        !t.txns.contains_key(id),
        other_txns_kept(s, t, id),
{
}

/// An open transaction can be rolled back: the committed tables are as they were,
/// the transaction is gone and every other is as it was.
pub proof fn law_open_txn_is_rolled_back(
    s: ServiceView,
    id: Seq<char>,
    t: ServiceView,
    r: Result<(), MetaError>,
    v: TablesView,
)
    requires
        rolls_back(s, Some(id), t, r),
        is_open_with(s, id, v),
    ensures
        r is Ok,
        t.tables == s.tables,
        t.cache == s.cache,
        !t.txns.contains_key(id),
        other_txns_kept(s, t, id),
{
}

/// A transaction that is not there, or is being closed, takes no request, and is
/// not committed.
pub proof fn law_closed_txn_takes_no_request<T>(
    s: ServiceView,
    id: Seq<char>,
    now: u64,
    out: spec_fn(TablesView) -> Result<T, MetaError>,
    after: spec_fn(TablesView) -> Result<(TablesView, T), MetaError>,
    t: ServiceView,
    r: Result<T, MetaError>,
    u: ServiceView,
    c: Result<(), MetaError>,
)
    requires
        !s.txns.contains_key(id) || s.txns[id].closing,
        reads(s, Some(id), now, out, t, r) || writes(s, Some(id), now, after, t, r),
        commits(s, Some(id), u, c),
    ensures
        r is Err && t == s,
        c is Err && u == s,
{
}

/// There is nothing to commit or to roll back outside a transaction.  One that is
/// being closed is left to whoever closes it, and one that is not there cannot be
/// rolled back.
pub proof fn law_nothing_to_roll_back(
    s: ServiceView,
    id: Seq<char>,
    t: ServiceView,
    r: Result<(), MetaError>,
)
    ensures
        commits(s, None, t, r) || rolls_back(s, None, t, r) ==> r is Ok && t == s,
        rolls_back(s, Some(id), t, r) && s.txns.contains_key(id) && s.txns[id].closing ==> r is Ok
            && t == s,
        rolls_back(s, Some(id), t, r) && !s.txns.contains_key(id) ==> r is Err && t == s,
{
}

/// Transactions that nothing has used for longer than allowed are given up, and
/// no others; one that was used at a moment is kept for as long as is allowed
/// from then on.
pub proof fn law_idle_txns_are_given_up(
    m: Map<Seq<char>, TxnView>,
    now: u64,
    timeout_secs: u64,
    id: Seq<char>,
)
    ensures
        ({
            let left = live_txns(m, now, timeout_secs);
            &&& left.contains_key(id) ==> m.contains_key(id) && left[id] == m[id]
            &&& m.contains_key(id) && m[id].last_used_at + timeout_secs >= now
                ==> left.contains_key(id)
            &&& m.contains_key(id) && m[id].last_used_at + timeout_secs < now
                ==> !left.contains_key(id)
        }),
{
}

/// A request that enters a transaction is counted until it leaves, and leaving
/// undoes entering; while it is in, closing waits for it, up to the limit.
pub proof fn law_requests_are_counted_in_and_out(
    s: ServiceView,
    id: Seq<char>,
    v: TablesView,
    t: ServiceView,
    r: Result<(), MetaError>,
    waited_secs: u64,
    limit_secs: u64,
)
    requires
        is_open_with(s, id, v),
        s.txns[id].in_flight < u64::MAX,
        enters(s, id, t, r),
    ensures
        r is Ok,
        is_open_with(t, id, v),
        t.txns[id].in_flight == s.txns[id].in_flight + 1,
        t.tables == s.tables && other_txns_kept(s, t, id),
        waits_for(t, id, waited_secs, limit_secs) <==> waited_secs <= limit_secs,
        left(t, id) == s,
        s.txns[id].in_flight == 0 ==> !waits_for(s, id, waited_secs, limit_secs),
{
    assert(left(t, id).txns =~= s.txns);
}

/// A transaction that is being closed lets no further request in, and cannot be
/// closed again; those that are in it can still leave.
pub proof fn law_closing_txn_lets_nobody_in(
    s: ServiceView,
    id: Seq<char>,
    v: TablesView,
    t: ServiceView,
    r: Result<(), MetaError>,
    u: ServiceView,
    e: Result<(), MetaError>,
    w: ServiceView,
    again: Result<(), MetaError>,
)
    requires
        is_open_with(s, id, v),
        starts_closing(s, id, t, r),
        enters(t, id, u, e),
        starts_closing(t, id, w, again),
    ensures
        r is Ok,
        e == Err::<(), MetaError>(MetaError::TxnClosing) && u == t,
        again == Err::<(), MetaError>(MetaError::TxnAlreadyClosing) && w == t,
        t.tables == s.tables && t.txns[id].tables == v && other_txns_kept(s, t, id),
        t.txns[id].in_flight == s.txns[id].in_flight,
        s.txns[id].in_flight > 0 ==> left(t, id).txns[id].in_flight == s.txns[id].in_flight - 1
            && left(t, id).txns[id].closing,
{
}

} // verus!
