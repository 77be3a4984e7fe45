//! Write leases: one writer at a time, a fencing number that never goes back.

use vstd::prelude::*;
use crate::errors::MetaError;
use crate::records::{
    cols_state, node_state_cols, parse_node_state, state_cols, ClientSessionId, FileCoolingState,
    NodeState, NodeStateCols, SessionId, NODE_STATE_COOLING, NODE_STATE_WORKING,
};
use crate::table::{lemma_map_has_row, lemma_row_in_map, Dup, Key, Table};
use crate::tables::{is_last, is_last_number, MetaTables, NodeRow, TablesView};
use crate::text::same_text;

verus! {

/// The sum, held within the range of a signed 64-bit number.
pub open spec fn sat_sum(a: i64, b: i64) -> i64 {
    if a + b > i64::MAX {
        i64::MAX
    } else if a + b < i64::MIN {
        i64::MIN
    } else {
        (a + b) as i64
    }
}

fn saturating_sum(a: i64, b: i64) -> (r: i64)
    ensures
        r == sat_sum(a, b),
{
    if b > 0 && a > i64::MAX - b {
        i64::MAX
    } else if b < 0 && a < i64::MIN - b {
        i64::MIN
    } else {
        a + b
    }
}

/// When a lease of `ttl_secs` taken at `now` runs out.
pub open spec fn lease_end(now: u64, ttl_secs: u64) -> i64 {
    sat_sum(now as i64, ttl_secs as i64)
}

fn lease_end_at(now: u64, ttl_secs: u64) -> (r: i64)
    ensures
        r == lease_end(now, ttl_secs),
{
    saturating_sum(now as i64, ttl_secs as i64)
}

/// The row is leased to `session`.
pub open spec fn held_by(row: NodeRow, session: Seq<char>) -> bool {
    match row.lease_client_session {
        Some(s) => s.0@ == session,
        None => false,
    }
}

/// The row carries a lease that runs beyond `now`.
pub open spec fn lease_runs(row: NodeRow, now: u64) -> bool {
    match row.lease_expire_at {
        Some(t) => t > (now as i64),
        None => false,
    }
}

pub open spec fn seq_or_zero(row: NodeRow) -> u64 {
    match row.lease_seq {
        Some(s) => s,
        None => 0,
    }
}

/// Takes the lease of an inode, or prolongs it for the session that holds it.
/// The number returned fences off earlier holders.
pub open spec fn acquire_after(
    v: TablesView,
    id: u64,
    session: SessionId,
    ttl_secs: u64,
    now: u64,
) -> Result<(TablesView, u64), MetaError> {
    if !v.nodes.contains_key(id) {
        Err(MetaError::InodeNotFound)
    } else {
        let row = v.nodes[id];
        let end = lease_end(now, ttl_secs);
        if lease_runs(row, now) {
            if held_by(row, session.0@) {
                Ok((v.with_row(NodeRow { lease_expire_at: Some(end), ..row }), seq_or_zero(row)))
            } else {
                Err(MetaError::LeaseConflict)
            }
        } else if is_last_number(seq_or_zero(row)) {
            Err(MetaError::CounterOverflow)
        } else {
            let seq = (seq_or_zero(row) + 1) as u64;
            Ok(
                (
                    v.with_row(
                        NodeRow {
                            lease_client_session: Some(ClientSessionId(session.0)),
                            lease_seq: Some(seq),
                            lease_expire_at: Some(end),
                            ..row
                        },
                    ),
                    seq,
                ),
            )
        }
    }
}

/// The lease of inode `id` is the one that `session` got under number `seq`.
pub open spec fn lease_error(v: TablesView, id: u64, session: Seq<char>, seq: u64) -> Option<
    MetaError,
> {
    if !v.nodes.contains_key(id) {
        Some(MetaError::InodeNotFound)
    } else if held_by(v.nodes[id], session) && v.nodes[id].lease_seq == Some(seq) {
        None
    } else {
        Some(MetaError::LeaseMismatch)
    }
}

pub open spec fn renew_after(
    v: TablesView,
    id: u64,
    session: Seq<char>,
    seq: u64,
    ttl_secs: u64,
    now: u64,
) -> Result<TablesView, MetaError> {
    match lease_error(v, id, session, seq) {
        Some(e) => Err(e),
        None => Ok(
            v.with_row(
                NodeRow { lease_expire_at: Some(lease_end(now, ttl_secs)), ..v.nodes[id] },
            ),
        ),
    }
}

pub open spec fn release_after(v: TablesView, id: u64, session: Seq<char>, seq: u64) -> Result<
    TablesView,
    MetaError,
> {
    match lease_error(v, id, session, seq) {
        Some(e) => Err(e),
        None => Ok(
            v.with_row(
                NodeRow { lease_client_session: None, lease_expire_at: None, ..v.nodes[id] },
            ),
        ),
    }
}

/// The row carries a lease that ended at `now` or before.
pub open spec fn lease_expired(row: NodeRow, now: u64) -> bool {
    match row.lease_expire_at {
        Some(t) => t <= (now as i64),
        None => false,
    }
}

/// The state of a file whose writer has lost it: a file that was being written
/// starts to cool down and keeps its buffer.  Columns that spell no state are
/// renumbered all the same.
pub open spec fn reclaimed_cols(cols: NodeStateCols, now: u64) -> NodeStateCols {
    match cols_state(cols) {
        Ok(NodeState::Working(w)) => state_cols(
            NodeState::Cooling(FileCoolingState { fb_handle: w.fb_handle, closed_at: now }),
        ),
        Err(_) if cols.state == NODE_STATE_WORKING => NodeStateCols {
            state: NODE_STATE_COOLING,
            closed_at: Some(now),
            ..cols
        },
        _ => cols,
    }
}

/// What an expired lease leaves behind: no holder, and no file in writing.
pub open spec fn reclaimed_row(row: NodeRow, now: u64) -> NodeRow {
    if !lease_expired(row, now) {
        row
    } else {
        NodeRow {
            lease_client_session: None,
            lease_expire_at: None,
            cols: reclaimed_cols(row.cols, now),
            ..row
        }
    }
}

pub open spec fn reclaim_after(v: TablesView, now: u64) -> TablesView {
    TablesView { nodes: v.nodes.map_values(|row: NodeRow| reclaimed_row(row, now)), ..v }
}

pub open spec fn expired_ids(v: TablesView, now: u64) -> Set<u64> {
    Set::new(|k: u64| v.nodes.contains_key(k) && lease_expired(v.nodes[k], now))
}

/// No lease request lowers the fencing number of any inode, and a lease that
/// was not merely prolonged comes with a higher number than any before.
pub proof fn law_fence_only_rises(
    v: TablesView,
    id: u64,
    session: SessionId,
    seq: u64,
    ttl_secs: u64,
    now: u64,
    other: u64,
)
    requires
        v.inv(),
        v.nodes.contains_key(other),
    ensures
        acquire_after(v, id, session, ttl_secs, now) matches Ok((w, n)) ==> seq_or_zero(
            w.nodes[other],
        ) >= seq_or_zero(v.nodes[other]) && n == seq_or_zero(w.nodes[id]) && (!lease_runs(
            v.nodes[id],
            now,
        ) ==> n > seq_or_zero(v.nodes[id])),
        renew_after(v, id, session.0@, seq, ttl_secs, now) matches Ok(w) ==> w.nodes[other].lease_seq
            == v.nodes[other].lease_seq,
        release_after(v, id, session.0@, seq) matches Ok(w) ==> w.nodes[other].lease_seq
            == v.nodes[other].lease_seq,
        reclaim_after(v, now).nodes[other].lease_seq == v.nodes[other].lease_seq,
{
}

/// While a lease runs, another session neither gets it, nor renews it, nor releases it.
pub proof fn law_single_writer(
    v: TablesView,
    id: u64,
    session: SessionId,
    seq: u64,
    ttl_secs: u64,
    now: u64,
)
    requires
        v.inv(),
        v.nodes.contains_key(id),
        lease_runs(v.nodes[id], now),
        !held_by(v.nodes[id], session.0@),
    ensures
        acquire_after(v, id, session, ttl_secs, now) == Err::<(TablesView, u64), MetaError>(
            MetaError::LeaseConflict,
        ),
        renew_after(v, id, session.0@, seq, ttl_secs, now) == Err::<TablesView, MetaError>(
            MetaError::LeaseMismatch,
        ),
        release_after(v, id, session.0@, seq) == Err::<TablesView, MetaError>(
            MetaError::LeaseMismatch,
        ),
{
}

/// The number handed out by an acquisition opens renewal and release to that session.
pub proof fn law_holder_can_renew_and_release(
    v: TablesView,
    id: u64,
    session: SessionId,
    ttl_secs: u64,
    later_ttl: u64,
    now: u64,
    later: u64,
)
    requires
        v.inv(),
        acquire_after(v, id, session, ttl_secs, now) is Ok,
        v.nodes[id].lease_seq is Some || !lease_runs(v.nodes[id], now),
    ensures
        ({
            let (w, n) = acquire_after(v, id, session, ttl_secs, now)->Ok_0;
            renew_after(w, id, session.0@, n, later_ttl, later) is Ok && release_after(
                w,
                id,
                session.0@,
                n,
            ) is Ok
        }),
{
}

/// After a release the inode can be leased by anyone, and the old number is dead.
pub proof fn law_release_frees(
    v: TablesView,
    id: u64,
    session: SessionId,
    seq: u64,
    next: SessionId,
    ttl_secs: u64,
    now: u64,
)
    requires
        v.inv(),
        release_after(v, id, session.0@, seq) is Ok,
        !is_last_number(seq),
    ensures
        ({
            let w = release_after(v, id, session.0@, seq)->Ok_0;
            &&& acquire_after(w, id, next, ttl_secs, now) is Ok
            &&& acquire_after(w, id, next, ttl_secs, now)->Ok_0.1 > seq
            &&& renew_after(w, id, session.0@, seq, ttl_secs, now) == Err::<TablesView, MetaError>(
                MetaError::LeaseMismatch,
            )
        }),
{
}

/// Reclaiming at `now` leaves no expired lease behind, so the next session gets in.
pub proof fn law_reclaim_clears_expired(v: TablesView, now: u64, id: u64)
    requires
        v.inv(),
        v.nodes.contains_key(id),
    ensures
        !lease_expired(reclaim_after(v, now).nodes[id], now),
        reclaim_after(reclaim_after(v, now), now) == reclaim_after(v, now),
{
    let w = reclaim_after(v, now);
    assert(reclaim_after(w, now).nodes =~= w.nodes);
}

impl MetaTables {
    /// Takes or prolongs the write lease of an inode.
    pub fn acquire_file_lease(
        &mut self,
        node_id: u64,
        session: SessionId,
        ttl_secs: u64,
        now: u64,
    ) -> (r: Result<u64, MetaError>)
        requires
            old(self).wf(),
        ensures
            final(self).wf(),
            match r {
                Ok(seq) => acquire_after(old(self)@, node_id, session, ttl_secs, now) == Ok::<
                    (TablesView, u64),
                    MetaError,
                >((final(self)@, seq)),
                Err(e) => acquire_after(old(self)@, node_id, session, ttl_secs, now) == Err::<
                    (TablesView, u64),
                    MetaError,
                >(e) && final(self)@ == old(self)@,
            },
    {
        let end: i64 = lease_end_at(now, ttl_secs);
        let mut row: NodeRow = match self.nodes.get(&node_id) {
            Some(row) => row.dup(),
            None => {
                return Err(MetaError::InodeNotFound);
            },
        };
        assert(self@.nodes.contains_key(node_id));
        let seq: u64 = match row.lease_seq {
            Some(s) => s,
            None => 0,
        };
        let runs: bool = match row.lease_expire_at {
            Some(t) => t > (now as i64),
            None => false,
        };
        if runs {
            let mine: bool = match &row.lease_client_session {
                Some(s) => same_text(s.0.as_str(), session.0.as_str()),
                None => false,
            };
            if !mine {
                return Err(MetaError::LeaseConflict);
            }
            row.lease_expire_at = Some(end);
            self.put_row(row);
            Ok(seq)
        } else {
            if is_last(seq) {
                return Err(MetaError::CounterOverflow);
            }
            row.lease_client_session = Some(ClientSessionId(session.0));
            row.lease_seq = Some(seq + 1);
            row.lease_expire_at = Some(end);
            self.put_row(row);
            Ok(seq + 1)
        }
    }

    fn check_lease(&self, node_id: u64, session: &SessionId, lease_seq: u64) -> (r: Result<
        NodeRow,
        MetaError,
    >)
        requires
            self.wf(),
        ensures
            match r {
                Ok(row) => lease_error(self@, node_id, session.0@, lease_seq) is None && row
                    == self@.nodes[node_id] && row.inode_id == node_id,
                Err(e) => lease_error(self@, node_id, session.0@, lease_seq) == Some(e),
            },
    {
        match self.nodes.get(&node_id) {
            None => Err(MetaError::InodeNotFound),
            Some(row) => {
                assert(self@.nodes.contains_key(node_id));
                let mine: bool = match &row.lease_client_session {
                    Some(s) => same_text(s.0.as_str(), session.0.as_str()),
                    None => false,
                };
                let current: bool = match row.lease_seq {
                    Some(s) => s == lease_seq,
                    None => false,
                };
                if mine && current {
                    Ok(row.dup())
                } else {
                    Err(MetaError::LeaseMismatch)
                }
            },
        }
    }

    /// Prolongs a lease.
    pub fn renew_file_lease(
        &mut self,
        node_id: u64,
        session: &SessionId,
        lease_seq: u64,
        ttl_secs: u64,
        now: u64,
    ) -> (r: Result<(), MetaError>)
        requires
            old(self).wf(),
        ensures
            final(self).wf(),
            match r {
                Ok(_) => renew_after(old(self)@, node_id, session.0@, lease_seq, ttl_secs, now)
                    == Ok::<TablesView, MetaError>(final(self)@),
                Err(e) => renew_after(old(self)@, node_id, session.0@, lease_seq, ttl_secs, now)
                    == Err::<TablesView, MetaError>(e) && final(self)@ == old(self)@,
            },
    {
        match self.check_lease(node_id, session, lease_seq) {
            Err(e) => Err(e),
            Ok(row) => {
                let mut row2: NodeRow = row;
                row2.lease_expire_at = Some(lease_end_at(now, ttl_secs));
                self.put_row(row2);
                Ok(())
            },
        }
    }

    /// Gives a lease back.
    pub fn release_file_lease(
        &mut self,
        node_id: u64,
        session: &SessionId,
        lease_seq: u64,
    ) -> (r: Result<(), MetaError>)
        requires
            old(self).wf(),
        ensures
            final(self).wf(),
            match r {
                Ok(_) => release_after(old(self)@, node_id, session.0@, lease_seq) == Ok::<
                    TablesView,
                    MetaError,
                >(final(self)@),
                Err(e) => release_after(old(self)@, node_id, session.0@, lease_seq) == Err::<
                    TablesView,
                    MetaError,
                >(e) && final(self)@ == old(self)@,
            },
    {
        match self.check_lease(node_id, session, lease_seq) {
            Err(e) => Err(e),
            Ok(row) => {
                let mut row2: NodeRow = row;
                row2.lease_client_session = None;
                row2.lease_expire_at = None;
                self.put_row(row2);
                Ok(())
            },
        }
    }

    /// Ends every lease that has run out by `now` and counts them.
    pub fn reclaim_expired_write_leases(&mut self, now: u64) -> (r: usize)
        requires
            old(self).wf(),
        ensures
            final(self).wf(),
            final(self)@ == reclaim_after(old(self)@, now),
            r == expired_ids(old(self)@, now).len(),
    {
        let mut count: usize = 0;
        let mut i: usize = 0;
        let mut nodes: Table<u64, NodeRow> = Table::new();
        let ghost mut done: Set<u64> = Set::empty();
        let ghost mut hit: Set<u64> = Set::empty();
        while i < self.nodes.rows.len()
            invariant
                0 <= i <= self.nodes.rows@.len(),
                self.wf(),
                self@ == old(self)@,
                nodes.wf(),
                count <= i,
                count == hit.len(),
                hit.finite(),
                forall|k: u64| #[trigger]
                    nodes@.contains_key(k) <==> exists|j: int|
                        0 <= j < i && (#[trigger] self.nodes.rows@[j]).0 == k,
                forall|k: u64| #[trigger]
                    nodes@.contains_key(k) ==> nodes@[k] == reclaimed_row(self@.nodes[k], now),
                forall|k: u64| #[trigger]
                    hit.contains(k) <==> nodes@.contains_key(k) && lease_expired(
                        self@.nodes[k],
                        now,
                    ),
            decreases self.nodes.rows@.len() - i,
        {
            let ghost before = nodes@;
            let key: u64 = self.nodes.rows[i].0;
            let mut row: NodeRow = self.nodes.rows[i].1.dup();
            proof {
                lemma_row_in_map(self.nodes.rows@, i as int);
                if before.contains_key(key) {
                    let j = choose|j: int|
                        0 <= j < i && (#[trigger] self.nodes.rows@[j]).0 == key;
                    assert(self.nodes.rows@[j].0.model() != self.nodes.rows@[i as int].0.model());
                }
            }
            let expired: bool = match row.lease_expire_at {
                Some(t) => t <= (now as i64),
                None => false,
            };
            if expired {
                row.lease_client_session = None;
                row.lease_expire_at = None;
                match parse_node_state(&row.cols) {
                    Ok(NodeState::Working(w)) => {
                        row.cols = node_state_cols(
                            &NodeState::Cooling(
                                FileCoolingState { fb_handle: w.fb_handle, closed_at: now },
                            ),
                        );
                    },
                    Ok(_) => {},
                    Err(_) => {
                        if row.cols.state == NODE_STATE_WORKING {
                            row.cols.state = NODE_STATE_COOLING;
                            row.cols.closed_at = Some(now);
                        }
                    },
                }
                count = count + 1;
                proof {
                    hit = hit.insert(key);
                }
            }
            nodes.put(key, row);
            i = i + 1;
            proof {
                assert forall|k: u64| #[trigger] nodes@.contains_key(k) <==> exists|j: int|
                    0 <= j < i && (#[trigger] self.nodes.rows@[j]).0 == k by {
                    if nodes@.contains_key(k) {
                        if k == key {
                            assert(self.nodes.rows@[i - 1].0 == k);
                        } else {
                            assert(before.contains_key(k));
                        }
                    }
                    if exists|j: int| 0 <= j < i && (#[trigger] self.nodes.rows@[j]).0 == k {
                        let j = choose|j: int| 0 <= j < i && (#[trigger] self.nodes.rows@[j]).0 == k;
                        if j < i - 1 {
                            assert(before.contains_key(k));
                        }
                    }
                }
            }
        }
        proof {
            assert forall|k: u64| nodes@.contains_key(k) <==> self@.nodes.contains_key(k) by {
                if nodes@.contains_key(k) {
                    let j = choose|j: int|
                        0 <= j < self.nodes.rows@.len() && (#[trigger] self.nodes.rows@[j]).0 == k;
                    lemma_row_in_map(self.nodes.rows@, j);
                }
                if self@.nodes.contains_key(k) {
                    lemma_map_has_row(self.nodes.rows@, k);
                }
            }
            assert(nodes@ =~= reclaim_after(self@, now).nodes);
            assert(hit =~= expired_ids(self@, now));
        }
        self.nodes = nodes;
        proof {
            assert forall|k: u64| #[trigger]
                self@.nodes.contains_key(k) implies self@.nodes[k].inode_id == k by {
                assert(old(self)@.nodes.contains_key(k));
            }
        }
        count
    }
}

} // verus!
