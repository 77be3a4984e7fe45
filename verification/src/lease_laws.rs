//! How long a lease keeps a file for its writer, and what becomes of it then.

use vstd::prelude::*;
use crate::errors::MetaError;
use crate::leases::{acquire_after, expired_ids, reclaim_after, release_after, renew_after};
use crate::records::{
    law_state_columns_round_trip, FileCoolingState, NodeRecord, NodeState, SessionId,
};
use crate::table_laws::other_rows_kept;
use crate::tables::{NodeRow, TablesView};

verus! {

/// The moment `ttl` seconds after `now`, or the last there is.
pub open spec fn moment_after(now: u64, ttl: u64) -> int {
    if now + ttl > i64::MAX {
        i64::MAX as int
    } else {
        now + ttl
    }
}

/// Times and spans as they come from a clock.
pub open spec fn is_clock_time(t: u64) -> bool {
    t <= i64::MAX
}

/// The inode is leased to `session` under the number `seq` until `end`.
pub open spec fn leased_until(v: TablesView, id: u64, session: Seq<char>, seq: u64, end: int) -> bool {
    &&& v.nodes.contains_key(id)
    &&& v.nodes[id].lease_client_session matches Some(s) && s.0@ == session
    &&& v.nodes[id].lease_seq == Some(seq)
    &&& v.nodes[id].lease_expire_at matches Some(t) && t == end
}

/// Only what the row says of its lease has changed, and no other row.
pub open spec fn only_lease_changed(v: TablesView, w: TablesView, id: u64) -> bool {
    &&& w.nodes.contains_key(id)
    &&& w.nodes[id] == (NodeRow {
        lease_client_session: w.nodes[id].lease_client_session,
        lease_seq: w.nodes[id].lease_seq,
        lease_expire_at: w.nodes[id].lease_expire_at,
        ..v.nodes[id]
    })
    &&& other_rows_kept(v, w, id, id)
    &&& w.dentries == v.dentries && w.stats == v.stats && w.root == v.root
}

/// The inode carries no lease at `now`: none at all, or one that has ended.
pub open spec fn free_at(v: TablesView, id: u64, now: u64) -> bool {
    v.nodes[id].lease_expire_at matches Some(t) ==> t <= now
}

/// A session gets the lease of an inode that carries none: for as long as it
/// asks, and under the number after the last.
pub proof fn law_free_inode_is_leased(
    v: TablesView,
    id: u64,
    session: SessionId,
    ttl: u64,
    now: u64,
)
    requires
        v.inv(),
        v.nodes.contains_key(id),
        is_clock_time(now),
        is_clock_time(ttl),
        free_at(v, id, now),
        v.nodes[id].lease_seq matches Some(n) ==> n != 0x7fff_ffff_ffff_ffff && n
            != 0xffff_ffff_ffff_ffff,
    ensures
        acquire_after(v, id, session, ttl, now) matches Ok((w, n)) && {
            &&& leased_until(w, id, session.0@, n, moment_after(now, ttl))
            &&& n == match v.nodes[id].lease_seq {
                Some(m) => m + 1,
                None => 1,
            }
            &&& only_lease_changed(v, w, id)
        },
{
}

/// The session that holds a lease can ask for it again: it keeps its number and
/// ends as much later as it asks now.
pub proof fn law_holder_prolongs(
    v: TablesView,
    id: u64,
    session: SessionId,
    seq: u64,
    end: int,
    ttl: u64,
    now: u64,
)
    requires
        v.inv(),
        is_clock_time(now),
        is_clock_time(ttl),
        leased_until(v, id, session.0@, seq, end),
        now < end,
    ensures
        acquire_after(v, id, session, ttl, now) matches Ok((w, n)) && {
            &&& n == seq
            &&& leased_until(w, id, session.0@, seq, moment_after(now, ttl))
            &&& only_lease_changed(v, w, id)
        },
{
}

/// A lease is renewed for the session and the number it was given under, ended
/// or not: from then on it ends as much later as was asked.
pub proof fn law_renewal_counts_from_now(
    v: TablesView,
    id: u64,
    session: SessionId,
    seq: u64,
    end: int,
    ttl: u64,
    now: u64,
)
    requires
        v.inv(),
        is_clock_time(now),
        is_clock_time(ttl),
        leased_until(v, id, session.0@, seq, end),
    ensures
        renew_after(v, id, session.0@, seq, ttl, now) matches Ok(w) && {
            &&& leased_until(w, id, session.0@, seq, moment_after(now, ttl))
            &&& only_lease_changed(v, w, id)
        },
{
}

/// Until it ends, a lease keeps its file: reclaiming passes it by, no other
/// session gets it, and nobody but the holder renews or releases it.
pub proof fn law_lease_lasts(
    v: TablesView,
    id: u64,
    session: Seq<char>,
    seq: u64,
    end: int,
    other: SessionId,
    other_seq: u64,
    ttl: u64,
    at: u64,
)
    requires
        v.inv(),
        leased_until(v, id, session, seq, end),
        is_clock_time(at),
        at < end,
    ensures
        reclaim_after(v, at).nodes.contains_key(id),
        reclaim_after(v, at).nodes[id] == v.nodes[id],
        !expired_ids(v, at).contains(id),
        other.0@ != session ==> acquire_after(v, id, other, ttl, at) == Err::<
            (TablesView, u64),
            MetaError,
        >(MetaError::LeaseConflict),
        other.0@ != session || other_seq != seq ==> renew_after(v, id, other.0@, other_seq, ttl, at)
            == Err::<TablesView, MetaError>(MetaError::LeaseMismatch) && release_after(
            v,
            id,
            other.0@,
            other_seq,
        ) == Err::<TablesView, MetaError>(MetaError::LeaseMismatch),
{
}

/// Once it has ended, a lease is taken away by reclaiming, and whoever asks gets
/// the file under a higher number.
pub proof fn law_lease_ends(
    v: TablesView,
    id: u64,
    session: Seq<char>,
    seq: u64,
    end: int,
    next: SessionId,
    ttl: u64,
    at: u64,
)
    requires
        v.inv(),
        leased_until(v, id, session, seq, end),
        is_clock_time(at),
        is_clock_time(ttl),
        end <= at,
        seq != 0x7fff_ffff_ffff_ffff,
        seq != 0xffff_ffff_ffff_ffff,
    ensures
        expired_ids(v, at).contains(id),
        ({
            let w = reclaim_after(v, at);
            &&& w.nodes[id].lease_client_session is None
            &&& w.nodes[id].lease_expire_at is None
            &&& w.nodes[id].lease_seq == Some(seq)
            &&& renew_after(w, id, session, seq, ttl, at) is Err
            &&& acquire_after(w, id, next, ttl, at) matches Ok((x, n)) && n == seq + 1
                && leased_until(x, id, next.0@, n, moment_after(at, ttl))
        }),
        acquire_after(v, id, next, ttl, at) matches Ok((x, n)) && n == seq + 1 && leased_until(
            x,
            id,
            next.0@,
            n,
            moment_after(at, ttl),
        ),
{
    let w = reclaim_after(v, at);
    assert(w.nodes.contains_key(id));
}

/// A lease is released by its holder: nobody holds the file then, and its number
/// is remembered.
pub proof fn law_released_lease_is_gone(
    v: TablesView,
    id: u64,
    session: Seq<char>,
    seq: u64,
    end: int,
)
    requires
        v.inv(),
        leased_until(v, id, session, seq, end),
    ensures
        release_after(v, id, session, seq) matches Ok(w) && {
            &&& w.nodes[id].lease_client_session is None
            &&& w.nodes[id].lease_expire_at is None
            &&& w.nodes[id].lease_seq == Some(seq)
            &&& only_lease_changed(v, w, id)
        },
{
}

/// Reclaiming touches only what has ended, and of that only the lease and a file
/// in writing: it starts to cool down with the buffer that it had.  A file in
/// any other state keeps it.
pub proof fn law_reclaiming_keeps_the_rest(v: TablesView, at: u64, id: u64)
    requires
        v.inv(),
        is_clock_time(at),
    ensures
        ({
            let w = reclaim_after(v, at);
            &&& w.nodes.contains_key(id) <==> v.nodes.contains_key(id)
            &&& v.nodes.contains_key(id) && (v.nodes[id].lease_expire_at is None || (
            v.nodes[id].lease_expire_at matches Some(t) && t > at)) ==> w.nodes[id] == v.nodes[id]
            &&& v.nodes.contains_key(id) && (v.nodes[id].lease_expire_at matches Some(t) && t <= at)
                ==> expired_ids(v, at).contains(id) && w.nodes[id].lease_expire_at is None
                && w.nodes[id].lease_client_session is None && match v.inode(id) {
                None => true,
                Some(n) => w.inode(id) == Some(
                    NodeRecord {
                        lease_client_session: None,
                        lease_expire_at: None,
                        state: match n.state {
                            NodeState::Working(s) => NodeState::Cooling(
                                FileCoolingState { fb_handle: s.fb_handle, closed_at: at },
                            ),
                            state => state,
                        },
                        ..n
                    },
                ),
            }
            &&& w.dentries == v.dentries && w.stats == v.stats && w.root == v.root
        }),
{
    if v.nodes.contains_key(id) {
        if let Some(n) = v.inode(id) {
            if let NodeState::Working(s) = n.state {
                law_state_columns_round_trip(
                    NodeState::Cooling(
                        FileCoolingState { fb_handle: s.fb_handle, closed_at: at },
                    ),
                );
            }
        }
    }
}

} // verus!
