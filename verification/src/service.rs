//! The metadata service: committed tables, the path cache, transactions and
//! list sessions.
//!
//! A transaction works on tables of its own.  As long as one is open nothing
//! else can change the committed tables, and nobody sees what it does until it
//! is committed.

use vstd::prelude::*;
use crate::cache_laws::{
    cache_true, law_commit_leaves_cache_true, law_fresh_service_is_true, law_root_tables_are_sound,
    lemma_more_base_known,
};
use crate::coherence_laws::strict;
use crate::committed::{installs, settled, Committed};
use crate::errors::MetaError;
use crate::list_cache::{ListCache, ListSession};
use crate::outside::{BaseStore, BaseStoreView};
use crate::paths_kept::lemma_fits_same;
use crate::path_cache::{fresh_cache, CacheView, PathResolveCache, DEFAULT_MAX_ENTRIES};
use crate::table::{lemma_map_has_row, lemma_row_count, lemma_row_in_map, row_index, Table};
use crate::tables::{root_tables, MetaTables, TablesView};
use crate::text::{decimal, decimal_text, joined};

verus! {

/// After this many seconds without use a transaction is given up.
pub const TXN_TIMEOUT_SECS: u64 = 300;

/// How long closing waits for requests in flight before it goes on anyway.
pub const CLOSE_WAIT_SECS: u64 = 30;

/// How long giving up a transaction waits for requests in flight.
pub const CLEANUP_WAIT_SECS: u64 = 5;

pub struct TxnEntry {
    pub tables: MetaTables,
    pub created_at: u64,
    pub last_used_at: u64,
    pub closing: bool,
    pub in_flight: u64,
}

#[verifier::ext_equal]
pub struct TxnView {
    pub tables: TablesView,
    pub created_at: u64,
    pub last_used_at: u64,
    pub closing: bool,
    pub in_flight: u64,
}

impl View for TxnEntry {
    type V = TxnView;

    open spec fn view(&self) -> TxnView {
        TxnView {
            tables: self.tables@,
            created_at: self.created_at,
            last_used_at: self.last_used_at,
            closing: self.closing,
            in_flight: self.in_flight,
        }
    }
}

/// What stays beside tables and transactions.
pub struct ServiceRest {
    pub base: BaseStore,
    pub lists: ListCache,
    pub finalize_queue: Vec<String>,
    pub instance: Option<String>,
    pub has_buffer: bool,
    pub txn_timeout_secs: u64,
}

pub struct FSMetaService {
    pub store: Committed,
    pub txns: Table<String, TxnEntry>,
    pub txn_seq: u64,
    pub rest: ServiceRest,
}

/// What requests see and change.
#[verifier::ext_equal]
pub struct ServiceView {
    pub tables: TablesView,
    pub cache: CacheView,
    pub txns: Map<Seq<char>, TxnView>,
    pub txn_seq: u64,
}

pub open spec fn txn_views(m: Map<Seq<char>, TxnEntry>) -> Map<Seq<char>, TxnView> {
    Map::new(|k: Seq<char>| m.contains_key(k), |k: Seq<char>| m[k]@)
}

impl View for FSMetaService {
    type V = ServiceView;

    open spec fn view(&self) -> ServiceView {
        ServiceView {
            tables: self.store.tables@,
            cache: self.store.cache@,
            txns: txn_views(self.txns@),
            txn_seq: self.txn_seq,
        }
    }
}

pub open spec fn opt_text(s: Option<String>) -> Option<Seq<char>> {
    match s {
        Some(x) => Some(x@),
        None => None,
    }
}

impl ServiceView {
    /// A transaction is open.
    pub open spec fn busy(self) -> bool {
        exists|k: Seq<char>| #[trigger] self.txns.contains_key(k)
    }

    /// The tables that a request works on.
    pub open spec fn works_on(self, txid: Option<Seq<char>>) -> Result<TablesView, MetaError> {
        match txid {
            None => Ok(self.tables),
            Some(id) => if !self.txns.contains_key(id) {
                Err(MetaError::TxidNotFound)
            } else if self.txns[id].closing {
                Err(MetaError::TxnClosing)
            } else {
                Ok(self.txns[id].tables)
            },
        }
    }

    /// The transaction has been used at `now`.
    pub open spec fn used(self, txid: Option<Seq<char>>, now: u64) -> ServiceView {
        match txid {
            None => self,
            Some(id) => ServiceView {
                txns: self.txns.insert(id, TxnView { last_used_at: now, ..self.txns[id] }),
                ..self
            },
        }
    }

    pub open spec fn with_txn(self, id: Seq<char>, x: TxnView) -> ServiceView {
        ServiceView { txns: self.txns.insert(id, x), ..self }
    }
}

/// `t` is `s` once `v` has become the tables that requests of `txid` work on.
pub open spec fn stored(
    s: ServiceView,
    txid: Option<Seq<char>>,
    v: TablesView,
    t: ServiceView,
) -> bool {
    match txid {
        None => {
            &&& t.tables == settled(v)
            &&& installs(s.cache, v, t.cache)
            &&& t.txns == s.txns
            &&& t.txn_seq == s.txn_seq
        },
        Some(id) => t == s.with_txn(id, TxnView { tables: v, ..s.txns[id] }),
    }
}

/// A request that reads: `out` says what it answers from the tables.
pub open spec fn reads<T>(
    s: ServiceView,
    txid: Option<Seq<char>>,
    now: u64,
    out: spec_fn(TablesView) -> Result<T, MetaError>,
    t: ServiceView,
    r: Result<T, MetaError>,
) -> bool {
    match s.works_on(txid) {
        Err(e) => r == Err::<T, MetaError>(e) && t == s,
        Ok(v) => r == out(v) && t == s.used(txid, now),
    }
}

/// A request that changes the tables: `after` says to what, and what is
/// answered.  While a transaction is open nobody else can write.
pub open spec fn writes<T>(
    s: ServiceView,
    txid: Option<Seq<char>>,
    now: u64,
    after: spec_fn(TablesView) -> Result<(TablesView, T), MetaError>,
    t: ServiceView,
    r: Result<T, MetaError>,
) -> bool {
    match s.works_on(txid) {
        Err(e) => r == Err::<T, MetaError>(e) && t == s,
        Ok(v) => if txid is None && s.busy() {
            r == Err::<T, MetaError>(MetaError::TxnBusy) && t == s
        } else {
            match after(v) {
                Err(e) => r == Err::<T, MetaError>(e) && t == s.used(txid, now),
                Ok(done) => r == Ok::<T, MetaError>(done.1) && stored(
                    s.used(txid, now),
                    txid,
                    done.0,
                    t,
                ),
            }
        },
    }
}

/// A request that reads before it writes: what reading settles, it answers even
/// while nobody can write.
pub open spec fn changes<T>(
    s: ServiceView,
    txid: Option<Seq<char>>,
    now: u64,
    seen: spec_fn(TablesView) -> Option<Result<T, MetaError>>,
    after: spec_fn(TablesView) -> Result<(TablesView, T), MetaError>,
    t: ServiceView,
    r: Result<T, MetaError>,
) -> bool {
    if txid is None && s.busy() && seen(s.tables) is Some {
        r == seen(s.tables)->0 && t == s
    } else {
        writes(s, txid, now, after, t, r)
    }
}

/// The id of the transaction begun at `now` as number `seq`.
pub open spec fn txid_text(now: u64, seq: u64) -> Seq<char> {
    "tx-"@ + decimal(now as nat) + "-"@ + decimal(seq as nat)
}

fn txid_for(now: u64, seq: u64) -> (r: String)
    ensures
        r@ == txid_text(now, seq),
{
    let mut s: String = joined("tx-", decimal_text(now).as_str());
    s.append("-");
    s.append(decimal_text(seq).as_str());
    s
}

/// The number after `seq`; numbers wrap around.
pub open spec fn next_seq(seq: u64) -> u64 {
    if seq == u64::MAX {
        0
    } else {
        (seq + 1) as u64
    }
}

/// Beginning a transaction.  A number is used up in any case.
pub open spec fn begins(s: ServiceView, now: u64, t: ServiceView, r: Result<String, MetaError>) -> bool {
    let after = ServiceView { txn_seq: next_seq(s.txn_seq), ..s };
    if s.busy() {
        r == Err::<String, MetaError>(MetaError::TxnBeginBusy) && t == after
    } else {
        &&& r matches Ok(id) && id@ == txid_text(now, s.txn_seq)
        &&& t == after.with_txn(txid_text(now, s.txn_seq), fresh_txn(s.tables, now))
    }
}

/// A transaction just begun.
pub open spec fn fresh_txn(v: TablesView, now: u64) -> TxnView {
    TxnView { tables: v, created_at: now, last_used_at: now, closing: false, in_flight: 0 }
}

/// Nothing has used the transaction for longer than allowed.
pub open spec fn is_stale(x: TxnView, now: u64, timeout_secs: u64) -> bool {
    now - x.last_used_at > timeout_secs
}

/// A service on `v` that nothing has asked yet: nothing is cached, no
/// transaction is open.
pub open spec fn fresh_service(v: TablesView) -> ServiceView {
    ServiceView {
        tables: v,
        cache: fresh_cache(DEFAULT_MAX_ENTRIES),
        txns: Map::empty(),
        txn_seq: 1,
    }
}

/// No store, no buffer service, no list session, nothing to finalize.
pub open spec fn is_fresh_rest(r: ServiceRest, txn_timeout_secs: u64) -> bool {
    &&& r.base@ == (BaseStoreView {
        configured: false,
        children: Map::empty(),
        listings: Map::empty(),
    })
    &&& r.lists.sessions@ == Map::<u64, ListSession>::empty()
    &&& r.lists.next_session_id == 1
    &&& r.finalize_queue@ == Seq::<String>::empty()
    &&& r.instance is None
    &&& !r.has_buffer
    &&& r.txn_timeout_secs == txn_timeout_secs
}

impl FSMetaService {
    pub open spec fn wf(&self) -> bool {
        &&& self.store.wf()
        &&& self@.tables.touched.len() == 0
        &&& self.txns.wf()
        &&& forall|k: Seq<char>| #[trigger] self.txns@.contains_key(k) ==> self.txns@[k].tables.wf()
        &&& self.rest.base.wf()
        &&& self.rest.lists.wf()
    }

    /// A service on tables that hold the root directory only.
    pub fn new() -> (r: Self)
        ensures
            r.wf(),
            r@ == fresh_service(root_tables()),
            is_fresh_rest(r.rest, TXN_TIMEOUT_SECS),
            cache_true(r),
    {
        proof {
            law_root_tables_are_sound();
        }
        Self::new_with_timeout(MetaTables::new(), TXN_TIMEOUT_SECS)
    }

    /// A service on the given tables.
    pub fn new_with_timeout(tables: MetaTables, txn_timeout_secs: u64) -> (r: Self)
        requires
            tables.wf(),
        ensures
            r.wf(),
            r@ == fresh_service(settled(tables@)),
            is_fresh_rest(r.rest, txn_timeout_secs),
            strict(tables@) ==> cache_true(r),
    {
        proof {
            lemma_row_count(tables.nodes.rows@);
        }
        let mut tables: MetaTables = tables;
        tables.touched = Vec::new();
        assert(crate::tables::edge_models(tables.touched@) =~= Seq::empty());
        let r = FSMetaService {
            store: Committed { tables, cache: PathResolveCache::default() },
            txns: Table::new(),
            txn_seq: 1,
            rest: ServiceRest {
                base: BaseStore::new(false),
                lists: ListCache::new(),
                finalize_queue: Vec::new(),
                instance: None,
                has_buffer: false,
                txn_timeout_secs,
            },
        };
        assert(r@.txns =~= Map::<Seq<char>, TxnView>::empty());
        assert(r@ =~= fresh_service(settled(tables@)));
        proof {
            if strict(tables@) {
                law_fresh_service_is_true(settled(tables@), r.rest.base@);
            }
        }
        r
    }

    /// The service with a buffer service behind it, under the name `instance`.
    pub fn with_buffer(self, instance: String) -> (r: Self)
        requires
            self.wf(),
        ensures
            r.wf(),
            r@ == self@,
            r.rest == (ServiceRest { instance: Some(instance), has_buffer: true, ..self.rest }),
            cache_true(self) ==> cache_true(r),
    {
        let mut s = self;
        s.rest.instance = Some(instance);
        s.rest.has_buffer = true;
        s
    }

    /// The service with an object store behind it.
    pub fn with_named_store(self) -> (r: Self)
        requires
            self.wf(),
        ensures
            r.wf(),
            r@ == self@,
            r.rest == (ServiceRest {
                base: BaseStore { configured: true, ..self.rest.base },
                ..self.rest
            }),
            cache_true(self) ==> cache_true(r),
    {
        let mut s = self;
        s.rest.base.configured = true;
        proof {
            if cache_true(self) {
                lemma_more_base_known(s@.tables, self.rest.base@, s.rest.base@, s@.cache);
            }
        }
        s
    }

    /// Whether a transaction is open.
    pub fn is_busy(&self) -> (r: bool)
        requires
            self.wf(),
        ensures
            r == self@.busy(),
    {
        if self.txns.rows.len() > 0 {
            proof {
                lemma_row_in_map(self.txns.rows@, 0);
                assert(self@.txns.contains_key(self.txns.rows@[0].0@));
            }
            true
        } else {
            proof {
                assert forall|k: Seq<char>| !(#[trigger] self@.txns.contains_key(k)) by {
                    if self.txns@.contains_key(k) {
                        lemma_map_has_row(self.txns.rows@, k);
                    }
                }
            }
            false
        }
    }

    /// A copy of the tables that a request works on.
    pub(crate) fn open_tables(&self, txid: &Option<String>) -> (r: Result<MetaTables, MetaError>)
        requires
            self.wf(),
        ensures
            match r {
                Ok(t) => t.wf() && self@.works_on(opt_text(*txid)) == Ok::<TablesView, MetaError>(
                    t@,
                ),
                Err(e) => self@.works_on(opt_text(*txid)) == Err::<TablesView, MetaError>(e),
            },
    {
        match txid {
            None => Ok(self.store.tables.copy()),
            Some(id) => match self.txns.get(id) {
                None => Err(MetaError::TxidNotFound),
                Some(x) => {
                    assert(self.txns@.contains_key(id@));
                    if x.closing {
                        Err(MetaError::TxnClosing)
                    } else {
                        Ok(x.tables.copy())
                    }
                },
            },
        }
    }

    /// Puts the state of a transaction in the place of the former one.
    fn put_txn(&mut self, id: String, x: TxnEntry)
        requires
            old(self).wf(),
            x.tables.wf(),
        ensures
            final(self).wf(),
            final(self)@ == old(self)@.with_txn(id@, x@),
            final(self).rest == old(self).rest,
            final(self).store == old(self).store,
    {
        let ghost before = self.txns@;
        self.txns.put(id, x);
        assert(self@.txns =~= txn_views(before).insert(id@, x@));
        assert(self@ =~= old(self)@.with_txn(id@, x@));
    }

    fn copy_txn(x: &TxnEntry) -> (r: TxnEntry)
        requires
            x.tables.wf(),
        ensures
            r.tables.wf(),
            r@ == x@,
    {
        TxnEntry {
            tables: x.tables.copy(),
            created_at: x.created_at,
            last_used_at: x.last_used_at,
            closing: x.closing,
            in_flight: x.in_flight,
        }
    }

    /// Notes that a transaction has been used.
    pub(crate) fn mark_used(&mut self, txid: &Option<String>, now: u64)
        requires
            old(self).wf(),
            old(self)@.works_on(opt_text(*txid)) is Ok,
        ensures
            final(self).wf(),
            final(self)@ == old(self)@.used(opt_text(*txid), now),
            final(self).rest == old(self).rest,
            final(self).store == old(self).store,
    {
        match txid {
            None => {},
            Some(id) => {
                let found: Option<TxnEntry> = match self.txns.get(id) {
                    None => None,
                    Some(x) => {
                        assert(self.txns@.contains_key(id@));
                        Some(Self::copy_txn(x))
                    },
                };
                match found {
                    None => {},
                    Some(x) => {
                        let mut x: TxnEntry = x;
                        x.last_used_at = now;
                        self.put_txn(id.clone(), x);
                    },
                }
            },
        }
    }

    /// Whether an open transaction keeps the request from writing.
    pub(crate) fn locked_out(&self, txid: &Option<String>) -> (r: bool)
        requires
            self.wf(),
        ensures
            r == (opt_text(*txid) is None && self@.busy()),
    {
        match txid {
            None => self.is_busy(),
            Some(_) => false,
        }
    }

    /// Stores the tables that a request has worked out.
    pub(crate) fn store_tables(&mut self, txid: &Option<String>, t: MetaTables)
        requires
            old(self).wf(),
            t.wf(),
            old(self)@.works_on(opt_text(*txid)) is Ok,
        ensures
            final(self).wf(),
            final(self).rest == old(self).rest,
            stored(old(self)@, opt_text(*txid), t@, final(self)@),
    {
        match txid {
            None => {
                self.store.install(t);
            },
            Some(id) => {
                let found: Option<TxnEntry> = match self.txns.get(id) {
                    None => None,
                    Some(x) => Some(
                        TxnEntry {
                            tables: t,
                            created_at: x.created_at,
                            last_used_at: x.last_used_at,
                            closing: x.closing,
                            in_flight: x.in_flight,
                        },
                    ),
                };
                if let Some(x) = found {
                    self.put_txn(id.clone(), x);
                }
            },
        }
    }

    /// Begins a transaction; one at a time can be open.
    pub fn handle_begin_txn(&mut self, now: u64) -> (r: Result<String, MetaError>)
        requires
            old(self).wf(),
        ensures
            final(self).wf(),
            final(self).rest == old(self).rest,
            begins(old(self)@, now, final(self)@, r),
            cache_true(*old(self)) ==> cache_true(*final(self)),
    {
        proof {
            if cache_true(*old(self)) {
                lemma_fits_same(old(self)@.tables);
            }
        }
        let seq: u64 = self.txn_seq;
        self.txn_seq = if seq == u64::MAX {
            0
        } else {
            seq + 1
        };
        if self.is_busy() {
            return Err(MetaError::TxnBeginBusy);
        }
        let id: String = txid_for(now, seq);
        let x = TxnEntry {
            tables: self.store.tables.copy(),
            created_at: now,
            last_used_at: now,
            closing: false,
            in_flight: 0,
        };
        self.put_txn(id.clone(), x);
        Ok(id)
    }

    /// Marks a transaction as closing, so that no further request enters it.
    pub fn start_commit(&mut self, txid: &String) -> (r: Result<(), MetaError>)
        requires
            old(self).wf(),
        ensures
            final(self).wf(),
            final(self).rest == old(self).rest,
            starts_closing(old(self)@, txid@, final(self)@, r),
    {
        let found: Option<TxnEntry> = match self.txns.get(txid) {
            None => None,
            Some(x) => {
                assert(self.txns@.contains_key(txid@));
                Some(Self::copy_txn(x))
            },
        };
        match found {
            None => Err(MetaError::TxidNotFound),
            Some(x) => {
                if x.closing {
                    return Err(MetaError::TxnAlreadyClosing);
                }
                let mut x: TxnEntry = x;
                x.closing = true;
                self.put_txn(txid.clone(), x);
                Ok(())
            },
        }
    }

    /// Whether closing has to wait longer for requests that are still in the
    /// transaction.
    pub fn must_wait(&self, txid: &String, waited_secs: u64, limit_secs: u64) -> (r: bool)
        requires
            self.wf(),
        ensures
            r == waits_for(self@, txid@, waited_secs, limit_secs),
    {
        match self.txns.get(txid) {
            None => false,
            Some(x) => x.in_flight > 0 && waited_secs <= limit_secs,
        }
    }

    fn remove_txn(&mut self, txid: &String) -> (r: Option<TxnEntry>)
        requires
            old(self).wf(),
        ensures
            final(self).wf(),
            final(self).rest == old(self).rest,
            final(self).store == old(self).store,
            final(self)@ == (ServiceView { txns: old(self)@.txns.remove(txid@), ..old(self)@ }),
            match r {
                Some(x) => old(self)@.txns.contains_key(txid@) && x@ == old(self)@.txns[txid@]
                    && x.tables.wf(),
                None => !old(self)@.txns.contains_key(txid@),
            },
    {
        let ghost before = self.txns@;
        let r = self.txns.remove(txid);
        assert(self@.txns =~= txn_views(before).remove(txid@));
        assert(self@ =~= (ServiceView { txns: old(self)@.txns.remove(txid@), ..old(self)@ }));
        r
    }

    /// Publishes what a transaction has done and ends it.
    pub fn finish_commit(&mut self, txid: &String)
        requires
            old(self).wf(),
            old(self)@.txns.contains_key(txid@),
        ensures
            final(self).wf(),
            final(self).rest == old(self).rest,
            stored(
                (ServiceView { txns: old(self)@.txns.remove(txid@), ..old(self)@ }),
                None,
                old(self)@.txns[txid@].tables,
                final(self)@,
            ),
    {
        match self.remove_txn(txid) {
            None => {},
            Some(x) => {
                self.store.install(x.tables);
            },
        }
    }

    /// Commits a transaction; without one there is nothing to do.
    pub fn handle_commit(&mut self, txid: Option<String>) -> (r: Result<(), MetaError>)
        requires
            old(self).wf(),
        ensures
            final(self).wf(),
            final(self).rest == old(self).rest,
            commits(old(self)@, opt_text(txid), final(self)@, r),
            cache_true(*old(self)) ==> cache_true(*final(self)),
    {
        match txid {
            None => Ok(()),
            Some(id) => match self.start_commit(&id) {
                Err(e) => Err(e),
                Ok(_) => {
                    let ghost mid = self@;
                    self.finish_commit(&id);
                    assert(mid.txns.remove(id@) =~= old(self)@.txns.remove(id@));
                    proof {
                        if cache_true(*old(self)) {
                            law_commit_leaves_cache_true(
                                old(self)@,
                                self.rest.base@,
                                Some(id@),
                                self@,
                                Ok(()),
                            );
                        }
                    }
                    Ok(())
                },
            },
        }
    }

    /// Marks a transaction as closing for a rollback; false where it is being
    /// closed already.
    pub fn start_rollback(&mut self, txid: &String) -> (r: Result<bool, MetaError>)
        requires
            old(self).wf(),
        ensures
            final(self).wf(),
            final(self).rest == old(self).rest,
            ({
                let s = old(self)@;
                if !s.txns.contains_key(txid@) {
                    r == Err::<bool, MetaError>(MetaError::TxidNotFound) && final(self)@ == s
                } else if s.txns[txid@].closing {
                    r == Ok::<bool, MetaError>(false) && final(self)@ == s
                } else {
                    r == Ok::<bool, MetaError>(true) && final(self)@ == s.with_txn(
                        txid@,
                        TxnView { closing: true, ..s.txns[txid@] },
                    )
                }
            }),
    {
        match self.start_commit(txid) {
            Ok(_) => Ok(true),
            Err(MetaError::TxnAlreadyClosing) => Ok(false),
            Err(e) => Err(e),
        }
    }

    /// Forgets what a transaction has done and ends it.
    pub fn finish_rollback(&mut self, txid: &String)
        requires
            old(self).wf(),
        ensures
            final(self).wf(),
            final(self).rest == old(self).rest,
            final(self)@ == (ServiceView { txns: old(self)@.txns.remove(txid@), ..old(self)@ }),
    {
        let _ = self.remove_txn(txid);
    }

    /// Rolls a transaction back; without one there is nothing to do.
    pub fn handle_rollback(&mut self, txid: Option<String>) -> (r: Result<(), MetaError>)
        requires
            old(self).wf(),
        ensures
            final(self).wf(),
            final(self).rest == old(self).rest,
            rolls_back(old(self)@, opt_text(txid), final(self)@, r),
            cache_true(*old(self)) ==> cache_true(*final(self)),
    {
        match txid {
            None => Ok(()),
            Some(id) => match self.start_rollback(&id) {
                Err(e) => Err(e),
                Ok(mine) => {
                    if mine {
                        let ghost mid = self@;
                        self.finish_rollback(&id);
                        assert(mid.txns.remove(id@) =~= old(self)@.txns.remove(id@));
                    }
                    Ok(())
                },
            },
        }
    }

    /// Counts a request into a transaction.
    pub fn enter_txn(&mut self, txid: &String) -> (r: Result<(), MetaError>)
        requires
            old(self).wf(),
        ensures
            final(self).wf(),
            final(self).rest == old(self).rest,
            enters(old(self)@, txid@, final(self)@, r),
    {
        let found: Option<TxnEntry> = match self.txns.get(txid) {
            None => None,
            Some(x) => {
                assert(self.txns@.contains_key(txid@));
                Some(Self::copy_txn(x))
            },
        };
        match found {
            None => Err(MetaError::TxidNotFound),
            Some(x) => {
                if x.closing {
                    return Err(MetaError::TxnClosing);
                }
                if x.in_flight == u64::MAX {
                    return Err(MetaError::CounterOverflow);
                }
                let mut x: TxnEntry = x;
                x.in_flight = x.in_flight + 1;
                self.put_txn(txid.clone(), x);
                Ok(())
            },
        }
    }

    /// Counts a request out of a transaction, closing or not.
    pub fn leave_txn(&mut self, txid: &String)
        requires
            old(self).wf(),
        ensures
            final(self).wf(),
            final(self).rest == old(self).rest,
            final(self)@ == left(old(self)@, txid@),
    {
        let found: Option<TxnEntry> = match self.txns.get(txid) {
            None => None,
            Some(x) => {
                assert(self.txns@.contains_key(txid@));
                Some(Self::copy_txn(x))
            },
        };
        match found {
            None => {},
            Some(x) => {
                if x.in_flight > 0 {
                    let mut x: TxnEntry = x;
                    x.in_flight = x.in_flight - 1;
                    self.put_txn(txid.clone(), x);
                }
            },
        }
    }

    /// Gives up the transactions that nothing has used for too long, and says
    /// how many they were.
    pub fn drop_stale_txns(&mut self, now: u64) -> (r: usize)
        requires
            old(self).wf(),
        ensures
            final(self).wf(),
            final(self).rest == old(self).rest,
            final(self)@ == (ServiceView {
                txns: live_txns(old(self)@.txns, now, old(self).rest.txn_timeout_secs),
                ..old(self)@
            }),
            r == old(self)@.txns.dom().len() - final(self)@.txns.dom().len(),
            cache_true(*old(self)) ==> cache_true(*final(self)),
    {
        let ghost timeout = self.rest.txn_timeout_secs;
        let ghost s0 = self@;
        let ghost old_rows = self.txns.rows@;
        let mut kept: Table<String, TxnEntry> = Table::new();
        let total: usize = self.txns.rows.len();
        let mut i: usize = 0;
        while i < self.txns.rows.len()
            invariant
                self.wf(),
                self@ == s0,
                old_rows == self.txns.rows@,
                timeout == self.rest.txn_timeout_secs,
                self.store == old(self).store,
                self.rest == old(self).rest,
                self.txn_seq == old(self).txn_seq,
                0 <= i <= old_rows.len(),
                kept.wf(),
                forall|k: Seq<char>| #[trigger]
                    kept@.contains_key(k) ==> s0.txns.contains_key(k) && kept@[k]@ == s0.txns[k]
                        && kept@[k].tables.wf() && !is_stale(s0.txns[k], now, timeout),
                forall|j: int|
                    0 <= j < i && !is_stale((#[trigger] old_rows[j]).1@, now, timeout)
                        ==> kept@.contains_key(old_rows[j].0@),
            decreases old_rows.len() - i,
        {
            proof {
                lemma_row_in_map(old_rows, i as int);
                assert(self.txns@.contains_key(old_rows[i as int].0@));
            }
            let x: &TxnEntry = &self.txns.rows[i].1;
            let idle: u64 = if now > x.last_used_at {
                now - x.last_used_at
            } else {
                0
            };
            if idle <= self.rest.txn_timeout_secs {
                kept.put(self.txns.rows[i].0.clone(), Self::copy_txn(x));
            }
            i = i + 1;
        }
        proof {
            assert forall|k: Seq<char>|
                s0.txns.contains_key(k) && !is_stale(s0.txns[k], now, timeout) implies #[trigger] kept@.contains_key(
                k,
            ) by {
                lemma_map_has_row(old_rows, k);
                let j = row_index(old_rows, k);
                assert(old_rows[j].0@ == k);
            }
            lemma_row_count(old_rows);
            lemma_row_count(kept.rows@);
            assert(txn_views(kept@) =~= live_txns(s0.txns, now, timeout));
            assert(s0.txns.dom() =~= self.txns@.dom());
            assert(txn_views(kept@).dom() =~= kept@.dom());
            assert(txn_views(kept@).dom().subset_of(s0.txns.dom()));
            vstd::set_lib::lemma_len_subset(txn_views(kept@).dom(), s0.txns.dom());
        }
        let left: usize = kept.rows.len();
        self.txns = kept;
        total - left
    }
}

/// A transaction is marked as closing, which can be done once.
pub open spec fn starts_closing(
    s: ServiceView,
    id: Seq<char>,
    t: ServiceView,
    r: Result<(), MetaError>,
) -> bool {
    if !s.txns.contains_key(id) {
        r == Err::<(), MetaError>(MetaError::TxidNotFound) && t == s
    } else if s.txns[id].closing {
        r == Err::<(), MetaError>(MetaError::TxnAlreadyClosing) && t == s
    } else {
        r is Ok && t == s.with_txn(id, TxnView { closing: true, ..s.txns[id] })
    }
}

/// Closing waits longer for the requests that are still in the transaction.
pub open spec fn waits_for(s: ServiceView, id: Seq<char>, waited_secs: u64, limit_secs: u64) -> bool {
    s.txns.contains_key(id) && s.txns[id].in_flight > 0 && waited_secs <= limit_secs
}

/// A request is counted into a transaction.
pub open spec fn enters(s: ServiceView, id: Seq<char>, t: ServiceView, r: Result<(), MetaError>) -> bool {
    match s.works_on(Some(id)) {
        Err(e) => r == Err::<(), MetaError>(e) && t == s,
        Ok(_) => if s.txns[id].in_flight == u64::MAX {
            r == Err::<(), MetaError>(MetaError::CounterOverflow) && t == s
        } else {
            r is Ok && t == s.with_txn(
                id,
                TxnView { in_flight: (s.txns[id].in_flight + 1) as u64, ..s.txns[id] },
            )
        },
    }
}

/// A request is counted out of a transaction.
pub open spec fn left(s: ServiceView, id: Seq<char>) -> ServiceView {
    if s.txns.contains_key(id) && s.txns[id].in_flight > 0 {
        s.with_txn(id, TxnView { in_flight: (s.txns[id].in_flight - 1) as u64, ..s.txns[id] })
    } else {
        s
    }
}

/// The transactions that have been used recently enough.
pub open spec fn live_txns(m: Map<Seq<char>, TxnView>, now: u64, timeout_secs: u64) -> Map<
    Seq<char>,
    TxnView,
> {
    Map::new(
        |k: Seq<char>| m.contains_key(k) && !is_stale(m[k], now, timeout_secs),
        |k: Seq<char>| m[k],
    )
}

/// Committing `txid`.
pub open spec fn commits(
    s: ServiceView,
    txid: Option<Seq<char>>,
    t: ServiceView,
    r: Result<(), MetaError>,
) -> bool {
    match txid {
        None => r is Ok && t == s,
        Some(id) => if !s.txns.contains_key(id) {
            r == Err::<(), MetaError>(MetaError::TxidNotFound) && t == s
        } else if s.txns[id].closing {
            r == Err::<(), MetaError>(MetaError::TxnAlreadyClosing) && t == s
        } else {
            r is Ok && stored(
                (ServiceView { txns: s.txns.remove(id), ..s }),
                None,
                s.txns[id].tables,
                t,
            )
        },
    }
}

/// Rolling `txid` back.
pub open spec fn rolls_back(
    s: ServiceView,
    txid: Option<Seq<char>>,
    t: ServiceView,
    r: Result<(), MetaError>,
) -> bool {
    match txid {
        None => r is Ok && t == s,
        Some(id) => if !s.txns.contains_key(id) {
            r == Err::<(), MetaError>(MetaError::TxidNotFound) && t == s
        } else if s.txns[id].closing {
            r is Ok && t == s
        } else {
            r is Ok && t == (ServiceView { txns: s.txns.remove(id), ..s })
        },
    }
}

} // verus!
