//! The tables behind the file system: inodes, directory entries and object
//! statistics, and the single-row requests that change them.
//!
//! [`TablesView`] is the mathematical content.  Each request has a spec function
//! from content to content (or to the reason of refusal), and the executable
//! method is proved to do exactly that.

use vstd::prelude::*;
use crate::errors::MetaError;
use crate::records::{
    cols_eq, cols_state, dup_obj, dup_session, dup_text, law_state_columns_round_trip,
    node_state_cols, parse_node_state, same_cols, same_target, state_cols, target_eq,
    ClientSessionId, DentryRecord, DentryTarget, Edge, NodeRecord, NodeState, NodeStateCols, ObjId,
    ObjStat,
};
use crate::table::{lemma_map_has_row, lemma_row_in_map, Dup, Key, Table};

verus! {

/// A stored inode: the record with its state spread over columns.  `meta_fault`
/// says why metadata that came from the store cannot be read.
#[derive(Debug, Clone, PartialEq, Eq)]
pub struct NodeRow {
    pub inode_id: u64,
    pub ref_by: Option<u64>,
    pub cols: NodeStateCols,
    pub read_only: bool,
    pub base_obj_id: Option<ObjId>,
    pub rev: Option<u64>,
    pub meta: Option<String>,
    pub lease_client_session: Option<ClientSessionId>,
    pub lease_seq: Option<u64>,
    pub lease_expire_at: Option<i64>,
    pub meta_fault: Option<String>,
}

impl Dup for NodeRow {
    fn dup(&self) -> (r: Self) {
        NodeRow {
            inode_id: self.inode_id,
            ref_by: self.ref_by,
            cols: self.cols.dup(),
            read_only: self.read_only,
            base_obj_id: dup_obj(&self.base_obj_id),
            rev: self.rev,
            meta: dup_text(&self.meta),
            lease_client_session: dup_session(&self.lease_client_session),
            lease_seq: self.lease_seq,
            lease_expire_at: self.lease_expire_at,
            meta_fault: dup_text(&self.meta_fault),
        }
    }
}

pub open spec fn time_to_col(t: Option<u64>) -> Option<i64> {
    match t {
        Some(v) => Some(v as i64),
        None => None,
    }
}

pub open spec fn col_to_time(t: Option<i64>) -> Option<u64> {
    match t {
        Some(v) => Some(v as u64),
        None => None,
    }
}

pub proof fn lemma_time_col_round_trip(t: Option<u64>)
    ensures
        col_to_time(time_to_col(t)) == t,
{
    match t {
        Some(v) => {
            assert((v as i64) as u64 == v) by (bit_vector);
        },
        None => {},
    }
}

/// The row that stores `node` under the id `id`.
pub open spec fn record_row(node: NodeRecord, id: u64) -> NodeRow {
    NodeRow {
        inode_id: id,
        ref_by: node.ref_by,
        cols: state_cols(node.state),
        read_only: node.read_only,
        base_obj_id: node.base_obj_id,
        rev: node.rev,
        meta: node.meta,
        lease_client_session: node.lease_client_session,
        lease_seq: node.lease_seq,
        lease_expire_at: time_to_col(node.lease_expire_at),
        meta_fault: None,
    }
}

/// Why a stored row cannot be read, if it cannot.
pub open spec fn row_error(row: NodeRow) -> Option<MetaError> {
    match cols_state(row.cols) {
        Err(e) => Some(e),
        Ok(_) => match row.meta_fault {
            Some(cause) => Some(MetaError::InvalidMetaJson { cause }),
            None => None,
        },
    }
}

/// The record that a readable row stands for.
pub open spec fn row_record(row: NodeRow) -> NodeRecord {
    NodeRecord {
        inode_id: row.inode_id,
        ref_by: row.ref_by,
        state: cols_state(row.cols)->Ok_0,
        read_only: row.read_only,
        base_obj_id: row.base_obj_id,
        rev: row.rev,
        meta: row.meta,
        lease_client_session: row.lease_client_session,
        lease_seq: row.lease_seq,
        lease_expire_at: col_to_time(row.lease_expire_at),
    }
}

/// Storing a record and reading it back changes nothing but the id it is stored under.
pub proof fn law_record_row_round_trip(node: NodeRecord, id: u64)
    ensures
        row_record(record_row(node, id)) == (NodeRecord { inode_id: id, ..node }),
        row_error(record_row(node, id)) is None,
{
    law_state_columns_round_trip(node.state);
    lemma_time_col_round_trip(node.lease_expire_at);
}

pub fn to_row(node: NodeRecord, id: u64) -> (r: NodeRow)
    ensures
        r == record_row(node, id),
{
    let cols: NodeStateCols = node_state_cols(&node.state);
    NodeRow {
        inode_id: id,
        ref_by: node.ref_by,
        cols,
        read_only: node.read_only,
        base_obj_id: node.base_obj_id,
        rev: node.rev,
        meta: node.meta,
        lease_client_session: node.lease_client_session,
        lease_seq: node.lease_seq,
        lease_expire_at: match node.lease_expire_at {
            Some(v) => Some(v as i64),
            None => None,
        },
        meta_fault: None,
    }
}

/// Reads a stored row.
pub fn parse_node(row: &NodeRow) -> (r: Result<NodeRecord, MetaError>)
    ensures
        match r {
            Ok(n) => row_error(*row) is None && n == row_record(*row),
            Err(e) => row_error(*row) == Some(e),
        },
{
    let state: NodeState = match parse_node_state(&row.cols) {
        Ok(state) => state,
        Err(e) => {
            return Err(e);
        },
    };
    if let Some(cause) = &row.meta_fault {
        return Err(MetaError::InvalidMetaJson { cause: cause.clone() });
    }
    Ok(
        NodeRecord {
            inode_id: row.inode_id,
            ref_by: row.ref_by,
            state,
            read_only: row.read_only,
            base_obj_id: dup_obj(&row.base_obj_id),
            rev: row.rev,
            meta: dup_text(&row.meta),
            lease_client_session: dup_session(&row.lease_client_session),
            lease_seq: row.lease_seq,
            lease_expire_at: match row.lease_expire_at {
                Some(v) => Some(v as u64),
                None => None,
            },
        },
    )
}

/// What the tables hold.
#[verifier::ext_equal]
pub struct TablesView {
    pub nodes: Map<u64, NodeRow>,
    pub dentries: Map<(u64, Seq<char>), DentryRecord>,
    pub stats: Map<(Seq<char>, Seq<char>), ObjStat>,
    pub next_dentry: u64,
    pub root: u64,
    pub touched: Seq<(u64, Seq<char>)>,
}

impl TablesView {
    /// Rows are filed under their own keys, and the root directory is there.
    pub open spec fn inv(self) -> bool {
        &&& forall|k: u64| #[trigger]
            self.nodes.contains_key(k) ==> self.nodes[k].inode_id == k
        &&& forall|k: (u64, Seq<char>)| #[trigger]
            self.dentries.contains_key(k) ==> self.dentries[k].parent == k.0
                && self.dentries[k].name@ == k.1
        &&& forall|k: (Seq<char>, Seq<char>)| #[trigger]
            self.stats.contains_key(k) ==> self.stats[k].obj_id.model() == k
        &&& self.nodes.contains_key(self.root)
        &&& self.root <= i64::MAX
    }

    /// What reading the inode `id` gives: the inode, if there is one, or why its
    /// row cannot be read.
    pub open spec fn read(self, id: u64) -> Result<Option<NodeRecord>, MetaError> {
        if self.nodes.contains_key(id) && row_error(self.nodes[id]) is Some {
            Err(row_error(self.nodes[id])->0)
        } else {
            Ok(self.inode(id))
        }
    }

    /// The inode `id`, if there is one that can be read.
    pub open spec fn inode(self, id: u64) -> Option<NodeRecord> {
        if self.nodes.contains_key(id) && row_error(self.nodes[id]) is None {
            Some(row_record(self.nodes[id]))
        } else {
            None
        }
    }

    pub open spec fn dentry(self, parent: u64, name: Seq<char>) -> Option<DentryRecord> {
        if self.dentries.contains_key((parent, name)) {
            Some(self.dentries[(parent, name)])
        } else {
            None
        }
    }

    /// The revision of a directory; a missing value counts as zero.
    pub open spec fn rev(self, id: u64) -> u64 {
        rev_or_zero(self.nodes[id].rev)
    }

    /// Some entry other than `but` points to inode `id`.
    pub open spec fn targeted(self, id: u64, but: (u64, Seq<char>)) -> bool {
        exists|k: (u64, Seq<char>)|
            k != but && #[trigger] self.dentries.contains_key(k) && self.dentries[k].target
                == DentryTarget::IndexNodeId(id)
    }

    pub open spec fn with_row(self, row: NodeRow) -> TablesView {
        TablesView { nodes: self.nodes.insert(row.inode_id, row), ..self }
    }

    pub open spec fn with_dentry(self, d: DentryRecord) -> TablesView {
        TablesView { dentries: self.dentries.insert((d.parent, d.name@), d), ..self }
    }

    pub open spec fn touch(self, parent: u64, name: Seq<char>) -> TablesView {
        TablesView { touched: self.touched.push((parent, name)), ..self }
    }
}

/// Tables that hold the root directory, under the id 1, and nothing else.
pub open spec fn root_tables() -> TablesView {
    TablesView {
        nodes: Map::<u64, NodeRow>::empty().insert(
            1,
            record_row(fresh_dir_record(NodeState::DirNormal, None), 1),
        ),
        dentries: Map::empty(),
        stats: Map::empty(),
        next_dentry: 1,
        root: 1,
        touched: Seq::empty(),
    }
}

pub open spec fn rev_or_zero(rev: Option<u64>) -> u64 {
    match rev {
        Some(r) => r,
        None => 0,
    }
}

/// Inode `id` may be bound to entry `d`: it exists and no other entry holds it.
pub open spec fn bind_error(v: TablesView, id: u64, d: u64) -> Option<MetaError> {
    if !v.nodes.contains_key(id) {
        Some(MetaError::InodeNotFound)
    } else {
        match v.nodes[id].ref_by {
            Some(x) => if x != d {
                Some(MetaError::InodeReferenced)
            } else {
                None
            },
            None => None,
        }
    }
}

pub open spec fn bind(v: TablesView, id: u64, d: u64) -> TablesView {
    v.with_row(NodeRow { ref_by: Some(d), ..v.nodes[id] })
}

/// Unbinds inode `id` where it is bound to entry `d`.
pub open spec fn unbind(v: TablesView, id: u64, d: u64) -> TablesView {
    if v.nodes.contains_key(id) && v.nodes[id].ref_by == Some(d) {
        v.with_row(NodeRow { ref_by: None, ..v.nodes[id] })
    } else {
        v
    }
}

pub open spec fn bump(v: TablesView, id: u64) -> TablesView {
    v.with_row(NodeRow { rev: Some((v.rev(id) + 1) as u64), ..v.nodes[id] })
}

/// No number comes after `n`: counters are kept as signed 64-bit numbers, those
/// from 2^63 on as negative ones.
pub open spec fn is_last_number(n: u64) -> bool {
    n == i64::MAX || n == u64::MAX
}

pub(crate) fn is_last(n: u64) -> (r: bool)
    ensures
        r == is_last_number(n),
{
    n == i64::MAX as u64 || n == u64::MAX
}

pub open spec fn parent_error(v: TablesView, parent: u64, rev: u64) -> Option<MetaError> {
    if !v.nodes.contains_key(parent) {
        Some(MetaError::ParentInodeNotFound)
    } else if v.rev(parent) != rev {
        Some(MetaError::RevMismatch)
    } else {
        None
    }
}

/// Why inode `id` cannot become the target of entry `d` filed under `at`.
pub open spec fn retarget_error(
    v: TablesView,
    target: DentryTarget,
    at: (u64, Seq<char>),
    d: u64,
) -> Option<MetaError> {
    match target {
        DentryTarget::IndexNodeId(id) => if v.targeted(id, at) {
            Some(MetaError::UniqueInodeTarget)
        } else {
            bind_error(v, id, d)
        },
        _ => None,
    }
}

pub open spec fn bind_target(v: TablesView, target: DentryTarget, d: u64) -> TablesView {
    match target {
        DentryTarget::IndexNodeId(id) => bind(v, id, d),
        _ => v,
    }
}

pub open spec fn unbind_target(v: TablesView, target: DentryTarget, d: u64) -> TablesView {
    match target {
        DentryTarget::IndexNodeId(id) => unbind(v, id, d),
        _ => v,
    }
}

/// What reading alone tells of a request to create an entry: why it is refused,
/// if it is.
pub open spec fn create_dentry_seen(v: TablesView, parent: u64, name: Seq<char>, rev: u64) -> Option<
    Result<(), MetaError>,
> {
    match parent_error(v, parent, rev) {
        Some(e) => Some(Err(e)),
        None => if v.dentries.contains_key((parent, name)) {
            Some(Err(MetaError::DentryExists))
        } else {
            None
        },
    }
}

/// The same for a request to take an entry away.
pub open spec fn delete_dentry_seen(v: TablesView, parent: u64, rev: u64) -> Option<
    Result<(), MetaError>,
> {
    match parent_error(v, parent, rev) {
        Some(e) => Some(Err(e)),
        None => None,
    }
}

/// The same for a request to point an entry elsewhere, which is done where the
/// entry points there already.
pub open spec fn replace_target_seen(
    v: TablesView,
    parent: u64,
    name: Seq<char>,
    expected_old_target: DentryTarget,
    new_target: DentryTarget,
    rev: u64,
) -> Option<Result<(), MetaError>> {
    match parent_error(v, parent, rev) {
        Some(e) => Some(Err(e)),
        None => if !v.dentries.contains_key((parent, name)) {
            Some(Err(MetaError::DentryNotFound))
        } else if !same_target(v.dentries[(parent, name)].target, expected_old_target) {
            Some(Err(MetaError::TargetMismatch))
        } else if same_target(v.dentries[(parent, name)].target, new_target) {
            Some(Ok(()))
        } else {
            None
        },
    }
}

/// A new entry under a directory whose revision the caller knows.
pub open spec fn create_dentry_after(
    v: TablesView,
    parent: u64,
    name: String,
    target: DentryTarget,
    expected_parent_rev: u64,
    now: u64,
) -> Result<TablesView, MetaError> {
    match parent_error(v, parent, expected_parent_rev) {
        Some(e) => Err(e),
        None => if v.dentries.contains_key((parent, name@)) {
            Err(MetaError::DentryExists)
        } else if v.next_dentry >= i64::MAX {
            Err(MetaError::DentryIdsExhausted)
        } else {
            match retarget_error(v, target, (parent, name@), v.next_dentry) {
                Some(e) => Err(e),
                None => {
                    let d = DentryRecord {
                        id: v.next_dentry,
                        parent,
                        name,
                        target,
                        mtime: Some(now),
                    };
                    let v1 = TablesView {
                        next_dentry: (v.next_dentry + 1) as u64,
                        ..v.with_dentry(d)
                    };
                    if is_last_number(expected_parent_rev) {
                        Err(MetaError::CounterOverflow)
                    } else {
                        Ok(bump(bind_target(v1, target, d.id), parent).touch(parent, name@))
                    }
                },
            }
        },
    }
}

/// Takes an entry away; nothing happens where there is none.
pub open spec fn delete_dentry_after(
    v: TablesView,
    parent: u64,
    name: Seq<char>,
    expected_parent_rev: u64,
) -> Result<TablesView, MetaError> {
    match parent_error(v, parent, expected_parent_rev) {
        Some(e) => Err(e),
        None => if !v.dentries.contains_key((parent, name)) {
            Ok(v)
        } else if is_last_number(expected_parent_rev) {
            Err(MetaError::CounterOverflow)
        } else {
            let d = v.dentries[(parent, name)];
            let v1 = TablesView { dentries: v.dentries.remove((parent, name)), ..v };
            Ok(bump(unbind_target(v1, d.target, d.id), parent).touch(parent, name))
        },
    }
}

/// Points an entry elsewhere, provided it still points where the caller believes.
pub open spec fn replace_target_after(
    v: TablesView,
    parent: u64,
    name: Seq<char>,
    expected_old_target: DentryTarget,
    new_target: DentryTarget,
    expected_parent_rev: u64,
    now: u64,
) -> Result<TablesView, MetaError> {
    match parent_error(v, parent, expected_parent_rev) {
        Some(e) => Err(e),
        None => if !v.dentries.contains_key((parent, name)) {
            Err(MetaError::DentryNotFound)
        } else {
            let d = v.dentries[(parent, name)];
            if !same_target(d.target, expected_old_target) {
                Err(MetaError::TargetMismatch)
            } else if same_target(d.target, new_target) {
                Ok(v)
            } else {
                match retarget_error(v, new_target, (parent, name), d.id) {
                    Some(e) => Err(e),
                    None => {
                        let d2 = DentryRecord { target: new_target, mtime: Some(now), ..d };
                        let v1 = TablesView {
                            dentries: v.dentries.insert((parent, name), d2),
                            ..v
                        };
                        let v2 = unbind_target(v1, d.target, d.id);
                        if is_last_number(expected_parent_rev) {
                            Err(MetaError::CounterOverflow)
                        } else {
                            Ok(bump(bind_target(v2, new_target, d.id), parent).touch(parent, name))
                        }
                    },
                }
            }
        },
    }
}

/// `m` is the largest of the row ids that count upwards from one.
pub open spec fn is_top_id(nodes: Map<u64, NodeRow>, m: u64) -> bool {
    &&& nodes.contains_key(m)
    &&& m <= i64::MAX
    &&& forall|k: u64| #[trigger] nodes.contains_key(k) && k <= i64::MAX ==> k <= m
}

pub open spec fn top_id(nodes: Map<u64, NodeRow>) -> u64 {
    choose|m: u64| is_top_id(nodes, m)
}

/// A new inode, under the id it asks for or, where that is zero, under the next free one.
pub open spec fn alloc_inode_after(v: TablesView, node: NodeRecord) -> Result<
    (TablesView, u64),
    MetaError,
> {
    if node.inode_id == 0 {
        if top_id(v.nodes) >= i64::MAX {
            Err(MetaError::InodeIdsExhausted)
        } else {
            let id = (top_id(v.nodes) + 1) as u64;
            Ok((v.with_row(record_row(node, id)), id))
        }
    } else if v.nodes.contains_key(node.inode_id) {
        Err(MetaError::InodeIdTaken)
    } else {
        Ok((v.with_row(record_row(node, node.inode_id)), node.inode_id))
    }
}

pub open spec fn update_inode_state_after(
    v: TablesView,
    id: u64,
    new_state: NodeState,
    old_state: NodeState,
) -> Result<TablesView, MetaError> {
    if !v.nodes.contains_key(id) {
        Err(MetaError::InodeNotFound)
    } else if !same_cols(v.nodes[id].cols, state_cols(old_state)) {
        Err(MetaError::StateConflict)
    } else {
        Ok(v.with_row(NodeRow { cols: state_cols(new_state), ..v.nodes[id] }))
    }
}

pub open spec fn bump_dir_rev_after(v: TablesView, dir: u64, expected_rev: u64) -> Result<
    TablesView,
    MetaError,
> {
    if !v.nodes.contains_key(dir) || v.rev(dir) != expected_rev {
        Err(MetaError::RevMismatchOrMissing)
    } else if is_last_number(expected_rev) {
        Err(MetaError::CounterOverflow)
    } else {
        Ok(bump(v, dir))
    }
}

pub open spec fn remove_inode_after(v: TablesView, id: u64) -> Result<TablesView, MetaError> {
    if id == v.root {
        Err(MetaError::CannotRemoveRoot)
    } else if !v.nodes.contains_key(id) {
        Err(MetaError::InodeNotFound)
    } else {
        Ok(TablesView { nodes: v.nodes.remove(id), ..v })
    }
}

pub struct MetaTables {
    pub nodes: Table<u64, NodeRow>,
    pub dentries: Table<Edge, DentryRecord>,
    pub stats: Table<ObjId, ObjStat>,
    pub next_dentry: u64,
    pub root: u64,
    pub touched: Vec<Edge>,
}

pub open spec fn edge_models(s: Seq<Edge>) -> Seq<(u64, Seq<char>)> {
    s.map_values(|e: Edge| e.model())
}

impl View for MetaTables {
    type V = TablesView;

    open spec fn view(&self) -> TablesView {
        TablesView {
            nodes: self.nodes@,
            dentries: self.dentries@,
            stats: self.stats@,
            next_dentry: self.next_dentry,
            root: self.root,
            touched: edge_models(self.touched@),
        }
    }
}

impl MetaTables {
    pub open spec fn wf(&self) -> bool {
        &&& self.nodes.wf()
        &&& self.dentries.wf()
        &&& self.stats.wf()
        &&& self@.inv()
    }

    /// Tables that hold the root directory and nothing else.
    pub fn new() -> (r: Self)
        ensures
            r.wf(),
            r@ == root_tables(),
    {
        let mut nodes: Table<u64, NodeRow> = Table::new();
        let root: NodeRecord = new_dir_record(NodeState::DirNormal, None);
        proof {
            law_record_row_round_trip(root, 1);
        }
        nodes.put(1, to_row(root, 1));
        let r = MetaTables {
            nodes,
            dentries: Table::new(),
            stats: Table::new(),
            next_dentry: 1,
            root: 1,
            touched: Vec::new(),
        };
        assert(edge_models(r.touched@) =~= Seq::empty());
        r
    }

    /// Copies every table.
    pub fn copy(&self) -> (r: Self)
        requires
            self.wf(),
        ensures
            r.wf(),
            r@ == self@,
    {
        let mut touched: Vec<Edge> = Vec::new();
        let mut i: usize = 0;
        while i < self.touched.len()
            invariant
                0 <= i <= self.touched@.len(),
                touched@ =~= self.touched@.subrange(0, i as int),
            decreases self.touched@.len() - i,
        {
            touched.push(self.touched[i].dup());
            i = i + 1;
        }
        assert(touched@ =~= self.touched@);
        MetaTables {
            nodes: self.nodes.copy(),
            dentries: self.dentries.copy(),
            stats: self.stats.copy(),
            next_dentry: self.next_dentry,
            root: self.root,
            touched,
        }
    }

    /// The inode `id`, if there is one; fails where its row cannot be read.
    pub fn get_inode(&self, id: u64) -> (r: Result<Option<NodeRecord>, MetaError>)
        requires
            self.wf(),
        ensures
            r == self@.read(id),
    {
        match self.nodes.get(&id) {
            Some(row) => {
                assert(self@.nodes.contains_key(id));
                match parse_node(row) {
                    Ok(n) => Ok(Some(n)),
                    Err(e) => Err(e),
                }
            },
            None => Ok(None),
        }
    }

    /// The entry `name` of directory `parent`, if there is one.
    pub fn get_dentry(&self, parent: u64, name: &str) -> (r: Option<DentryRecord>)
        requires
            self.wf(),
        ensures
            r == self@.dentry(parent, name@),
    {
        let edge = Edge { parent, name: name.to_owned() };
        match self.dentries.get(&edge) {
            Some(d) => Some(d.dup()),
            None => None,
        }
    }

    fn targeted_elsewhere(&self, id: u64, at: &Edge) -> (r: bool)
        requires
            self.wf(),
        ensures
            r == self@.targeted(id, at.model()),
    {
        let mut i: usize = 0;
        while i < self.dentries.rows.len()
            invariant
                0 <= i <= self.dentries.rows@.len(),
                self.wf(),
                forall|j: int|
                    0 <= j < i ==> (#[trigger] self.dentries.rows@[j]).0.model() == at.model()
                        || self.dentries.rows@[j].1.target != DentryTarget::IndexNodeId(id),
            decreases self.dentries.rows@.len() - i,
        {
            let hit: bool = match self.dentries.rows[i].1.target {
                DentryTarget::IndexNodeId(x) => x == id,
                _ => false,
            };
            if hit && !self.dentries.rows[i].0.same_key(at) {
                proof {
                    lemma_row_in_map(self.dentries.rows@, i as int);
                    assert(self@.dentries.contains_key(self.dentries.rows@[i as int].0.model()));
                }
                return true;
            }
            i = i + 1;
        }
        proof {
            if self@.targeted(id, at.model()) {
                let k = choose|k: (u64, Seq<char>)|
                    k != at.model() && #[trigger] self@.dentries.contains_key(k)
                        && self@.dentries[k].target == DentryTarget::IndexNodeId(id);
                lemma_map_has_row(self.dentries.rows@, k);
            }
        }
        false
    }

    fn check_parent(&self, parent: u64, rev: u64) -> (r: Option<MetaError>)
        requires
            self.wf(),
        ensures
            r == parent_error(self@, parent, rev),
    {
        match self.nodes.get(&parent) {
            None => Some(MetaError::ParentInodeNotFound),
            Some(row) => {
                let current: u64 = match row.rev {
                    Some(x) => x,
                    None => 0,
                };
                if current != rev {
                    Some(MetaError::RevMismatch)
                } else {
                    None
                }
            },
        }
    }

    fn check_retarget(&self, target: &DentryTarget, at: &Edge, d: u64) -> (r: Option<MetaError>)
        requires
            self.wf(),
        ensures
            r == retarget_error(self@, *target, at.model(), d),
    {
        match target {
            DentryTarget::IndexNodeId(id) => {
                if self.targeted_elsewhere(*id, at) {
                    Some(MetaError::UniqueInodeTarget)
                } else {
                    match self.nodes.get(id) {
                        None => Some(MetaError::InodeNotFound),
                        Some(row) => match row.ref_by {
                            Some(x) => if x != d {
                                Some(MetaError::InodeReferenced)
                            } else {
                                None
                            },
                            None => None,
                        },
                    }
                }
            },
            _ => None,
        }
    }

    pub(crate) fn put_row(&mut self, row: NodeRow)
        requires
            old(self).wf(),
        ensures
            final(self).wf(),
            final(self)@ == old(self)@.with_row(row),
    {
        self.nodes.put(row.inode_id, row);
    }

    fn bind_to(&mut self, target: &DentryTarget, d: u64)
        requires
            old(self).wf(),
            target matches DentryTarget::IndexNodeId(id) ==> old(self)@.nodes.contains_key(*id),
        ensures
            final(self).wf(),
            final(self)@ == bind_target(old(self)@, *target, d),
    {
        if let DentryTarget::IndexNodeId(id) = target {
            if let Some(row) = self.nodes.get(id) {
                let mut row2: NodeRow = row.dup();
                assert(self@.nodes.contains_key(*id));
                row2.ref_by = Some(d);
                self.put_row(row2);
            }
        }
    }

    fn unbind_from(&mut self, target: &DentryTarget, d: u64)
        requires
            old(self).wf(),
        ensures
            final(self).wf(),
            final(self)@ == unbind_target(old(self)@, *target, d),
    {
        if let DentryTarget::IndexNodeId(id) = target {
            if let Some(row) = self.nodes.get(id) {
                let mut row2: NodeRow = row.dup();
                assert(self@.nodes.contains_key(*id));
                let held: bool = match row2.ref_by {
                    Some(x) => x == d,
                    None => false,
                };
                if held {
                    row2.ref_by = None;
                    self.put_row(row2);
                }
            }
        }
    }

    fn bump_rev(&mut self, id: u64)
        requires
            old(self).wf(),
            old(self)@.nodes.contains_key(id),
            old(self)@.rev(id) < u64::MAX,
        ensures
            final(self).wf(),
            final(self)@ == bump(old(self)@, id),
    {
        if let Some(row) = self.nodes.get(&id) {
            let mut row2: NodeRow = row.dup();
            assert(self@.nodes.contains_key(id));
            let current: u64 = match row2.rev {
                Some(x) => x,
                None => 0,
            };
            row2.rev = Some(current + 1);
            self.put_row(row2);
        }
    }

    fn note_touched(&mut self, edge: Edge)
        requires
            old(self).wf(),
        ensures
            final(self).wf(),
            final(self)@ == old(self)@.touch(edge.parent, edge.name@),
    {
        self.touched.push(edge);
        assert(edge_models(self.touched@) =~= edge_models(old(self).touched@).push(edge.model()));
    }

    /// What reading tells of a request to create an entry.
    pub(crate) fn see_create_dentry(&self, parent: u64, name: &str, rev: u64) -> (r: Option<
        Result<(), MetaError>,
    >)
        requires
            self.wf(),
        ensures
            r == create_dentry_seen(self@, parent, name@, rev),
    {
        if let Some(e) = self.check_parent(parent, rev) {
            return Some(Err(e));
        }
        if self.dentries.contains(&Edge { parent, name: name.to_owned() }) {
            return Some(Err(MetaError::DentryExists));
        }
        None
    }

    /// What reading tells of a request to take an entry away.
    pub(crate) fn see_delete_dentry(&self, parent: u64, rev: u64) -> (r: Option<
        Result<(), MetaError>,
    >)
        requires
            self.wf(),
        ensures
            r == delete_dentry_seen(self@, parent, rev),
    {
        match self.check_parent(parent, rev) {
            Some(e) => Some(Err(e)),
            None => None,
        }
    }

    /// What reading tells of a request to point an entry elsewhere.
    pub(crate) fn see_replace_target(
        &self,
        parent: u64,
        name: &str,
        expected_old_target: &DentryTarget,
        new_target: &DentryTarget,
        rev: u64,
    ) -> (r: Option<Result<(), MetaError>>)
        requires
            self.wf(),
        ensures
            r == replace_target_seen(
                self@,
                parent,
                name@,
                *expected_old_target,
                *new_target,
                rev,
            ),
    {
        if let Some(e) = self.check_parent(parent, rev) {
            return Some(Err(e));
        }
        match self.dentries.get(&Edge { parent, name: name.to_owned() }) {
            None => Some(Err(MetaError::DentryNotFound)),
            Some(d) => {
                assert(self@.dentries.contains_key((parent, name@)));
                if !target_eq(&d.target, expected_old_target) {
                    Some(Err(MetaError::TargetMismatch))
                } else if target_eq(&d.target, new_target) {
                    Some(Ok(()))
                } else {
                    None
                }
            },
        }
    }

    /// Adds the entry `name` to directory `parent`.
    pub fn create_dentry(
        &mut self,
        parent: u64,
        name: String,
        target: DentryTarget,
        expected_parent_rev: u64,
        now: u64,
    ) -> (r: Result<(), MetaError>)
        requires
            old(self).wf(),
        ensures
            final(self).wf(),
            match r {
                Ok(_) => create_dentry_after(
                    old(self)@,
                    parent,
                    name,
                    target,
                    expected_parent_rev,
                    now,
                ) == Ok::<TablesView, MetaError>(final(self)@),
                Err(e) => create_dentry_after(
                    old(self)@,
                    parent,
                    name,
                    target,
                    expected_parent_rev,
                    now,
                ) == Err::<TablesView, MetaError>(e) && final(self)@ == old(self)@,
            },
    {
        if let Some(e) = self.check_parent(parent, expected_parent_rev) {
            return Err(e);
        }
        let edge = Edge { parent, name: name.clone() };
        if self.dentries.contains(&edge) {
            return Err(MetaError::DentryExists);
        }
        if self.next_dentry >= i64::MAX as u64 {
            return Err(MetaError::DentryIdsExhausted);
        }
        if let Some(e) = self.check_retarget(&target, &edge, self.next_dentry) {
            return Err(e);
        }
        if is_last(expected_parent_rev) {
            return Err(MetaError::CounterOverflow);
        }
        let d: u64 = self.next_dentry;
        let record = DentryRecord {
            id: d,
            parent,
            name: name.clone(),
            target: target.dup(),
            mtime: Some(now),
        };
        self.dentries.put(edge.dup(), record);
        self.next_dentry = d + 1;
        self.bind_to(&target, d);
        self.bump_rev(parent);
        self.note_touched(edge);
        Ok(())
    }

    /// Removes the entry `name` of directory `parent`.
    pub fn delete_dentry(
        &mut self,
        parent: u64,
        name: &str,
        expected_parent_rev: u64,
    ) -> (r: Result<(), MetaError>)
        requires
            old(self).wf(),
        ensures
            final(self).wf(),
            match r {
                Ok(_) => delete_dentry_after(old(self)@, parent, name@, expected_parent_rev) == Ok::<
                    TablesView,
                    MetaError,
                >(final(self)@),
                Err(e) => delete_dentry_after(old(self)@, parent, name@, expected_parent_rev)
                    == Err::<TablesView, MetaError>(e) && final(self)@ == old(self)@,
            },
    {
        if let Some(e) = self.check_parent(parent, expected_parent_rev) {
            return Err(e);
        }
        let edge = Edge { parent, name: name.to_owned() };
        if is_last(expected_parent_rev) && self.dentries.contains(&edge) {
            return Err(MetaError::CounterOverflow);
        }
        let removed = self.dentries.remove(&edge);
        match removed {
            None => {
                assert(self@ =~= old(self)@);
                Ok(())
            },
            Some(d) => {
                self.unbind_from(&d.target, d.id);
                self.bump_rev(parent);
                self.note_touched(edge);
                Ok(())
            },
        }
    }

    /// Changes what the entry `name` of directory `parent` points to.
    pub fn replace_target(
        &mut self,
        parent: u64,
        name: &str,
        expected_old_target: &DentryTarget,
        new_target: DentryTarget,
        expected_parent_rev: u64,
        now: u64,
    ) -> (r: Result<(), MetaError>)
        requires
            old(self).wf(),
        ensures
            final(self).wf(),
            match r {
                Ok(_) => replace_target_after(
                    old(self)@,
                    parent,
                    name@,
                    *expected_old_target,
                    new_target,
                    expected_parent_rev,
                    now,
                ) == Ok::<TablesView, MetaError>(final(self)@),
                Err(e) => replace_target_after(
                    old(self)@,
                    parent,
                    name@,
                    *expected_old_target,
                    new_target,
                    expected_parent_rev,
                    now,
                ) == Err::<TablesView, MetaError>(e) && final(self)@ == old(self)@,
            },
    {
        if let Some(e) = self.check_parent(parent, expected_parent_rev) {
            return Err(e);
        }
        let edge = Edge { parent, name: name.to_owned() };
        let d: DentryRecord = match self.dentries.get(&edge) {
            Some(d) => d.dup(),
            None => {
                return Err(MetaError::DentryNotFound);
            },
        };
        assert(self@.dentries.contains_key((parent, name@)));
        if !target_eq(&d.target, expected_old_target) {
            return Err(MetaError::TargetMismatch);
        }
        if target_eq(&d.target, &new_target) {
            return Ok(());
        }
        if let Some(e) = self.check_retarget(&new_target, &edge, d.id) {
            return Err(e);
        }
        if is_last(expected_parent_rev) {
            return Err(MetaError::CounterOverflow);
        }
        let record = DentryRecord {
            id: d.id,
            parent: d.parent,
            name: d.name.clone(),
            target: new_target.dup(),
            mtime: Some(now),
        };
        self.dentries.put(edge.dup(), record);
        self.unbind_from(&d.target, d.id);
        self.bind_to(&new_target, d.id);
        self.bump_rev(parent);
        self.note_touched(edge);
        Ok(())
    }

    fn top(&self) -> (r: u64)
        requires
            self.wf(),
        ensures
            r == top_id(self@.nodes),
            is_top_id(self@.nodes, r),
    {
        let mut best: u64 = self.root;
        let mut i: usize = 0;
        while i < self.nodes.rows.len()
            invariant
                0 <= i <= self.nodes.rows@.len(),
                self.wf(),
                self@.nodes.contains_key(best),
                best <= i64::MAX,
                forall|j: int|
                    0 <= j < i && (#[trigger] self.nodes.rows@[j]).0 <= i64::MAX
                        ==> self.nodes.rows@[j].0 <= best,
            decreases self.nodes.rows@.len() - i,
        {
            let id: u64 = self.nodes.rows[i].0;
            if id <= i64::MAX as u64 && id > best {
                proof {
                    lemma_row_in_map(self.nodes.rows@, i as int);
                }
                best = id;
            }
            i = i + 1;
        }
        proof {
            assert forall|k: u64| #[trigger]
                self@.nodes.contains_key(k) && k <= i64::MAX implies k <= best by {
                lemma_map_has_row(self.nodes.rows@, k);
            }
            assert(is_top_id(self@.nodes, best));
            let t = top_id(self@.nodes);
            assert(is_top_id(self@.nodes, t));
        }
        best
    }

    /// Stores a new inode and returns its id.
    pub fn alloc_inode(&mut self, node: NodeRecord) -> (r: Result<u64, MetaError>)
        requires
            old(self).wf(),
        ensures
            final(self).wf(),
            match r {
                Ok(id) => alloc_inode_after(old(self)@, node) == Ok::<(TablesView, u64), MetaError>(
                    (final(self)@, id),
                ),
                Err(e) => alloc_inode_after(old(self)@, node) == Err::<(TablesView, u64), MetaError>(
                    e,
                ) && final(self)@ == old(self)@,
            },
    {
        let id: u64 = if node.inode_id == 0 {
            let top: u64 = self.top();
            if top >= i64::MAX as u64 {
                return Err(MetaError::InodeIdsExhausted);
            }
            top + 1
        } else {
            if self.nodes.contains(&node.inode_id) {
                return Err(MetaError::InodeIdTaken);
            }
            node.inode_id
        };
        proof {
            law_record_row_round_trip(node, id);
        }
        self.put_row(to_row(node, id));
        Ok(id)
    }

    /// Stores an inode, over whatever was there.
    pub fn set_inode(&mut self, node: NodeRecord)
        requires
            old(self).wf(),
        ensures
            final(self).wf(),
            final(self)@ == old(self)@.with_row(record_row(node, node.inode_id)),
    {
        proof {
            law_record_row_round_trip(node, node.inode_id);
        }
        let id: u64 = node.inode_id;
        self.put_row(to_row(node, id));
    }

    /// Moves an inode from one state to another, provided it is still in the first.
    pub fn update_inode_state(
        &mut self,
        node_id: u64,
        new_state: &NodeState,
        old_state: &NodeState,
    ) -> (r: Result<(), MetaError>)
        requires
            old(self).wf(),
        ensures
            final(self).wf(),
            match r {
                Ok(_) => update_inode_state_after(old(self)@, node_id, *new_state, *old_state)
                    == Ok::<TablesView, MetaError>(final(self)@),
                Err(e) => update_inode_state_after(old(self)@, node_id, *new_state, *old_state)
                    == Err::<TablesView, MetaError>(e) && final(self)@ == old(self)@,
            },
    {
        match self.nodes.get(&node_id) {
            None => Err(MetaError::InodeNotFound),
            Some(row) => {
                assert(self@.nodes.contains_key(node_id));
                if !cols_eq(&row.cols, &node_state_cols(old_state)) {
                    return Err(MetaError::StateConflict);
                }
                let mut row2: NodeRow = row.dup();
                row2.cols = node_state_cols(new_state);
                proof {
                    law_state_columns_round_trip(*new_state);
                }
                self.put_row(row2);
                Ok(())
            },
        }
    }

    /// Counts a directory's revision up by one.
    pub fn bump_dir_rev(&mut self, dir: u64, expected_rev: u64) -> (r: Result<u64, MetaError>)
        requires
            old(self).wf(),
        ensures
            final(self).wf(),
            match r {
                Ok(rev) => rev == expected_rev + 1 && bump_dir_rev_after(
                    old(self)@,
                    dir,
                    expected_rev,
                ) == Ok::<TablesView, MetaError>(final(self)@),
                Err(e) => bump_dir_rev_after(old(self)@, dir, expected_rev) == Err::<
                    TablesView,
                    MetaError,
                >(e) && final(self)@ == old(self)@,
            },
    {
        let current: u64 = match self.nodes.get(&dir) {
            Some(row) => match row.rev {
                Some(x) => x,
                None => 0,
            },
            None => {
                return Err(MetaError::RevMismatchOrMissing);
            },
        };
        if current != expected_rev {
            return Err(MetaError::RevMismatchOrMissing);
        }
        if is_last(expected_rev) {
            return Err(MetaError::CounterOverflow);
        }
        self.bump_rev(dir);
        Ok(expected_rev + 1)
    }

    /// Drops an inode; the root stays.
    pub fn remove_inode(&mut self, id: u64) -> (r: Result<(), MetaError>)
        requires
            old(self).wf(),
        ensures
            final(self).wf(),
            match r {
                Ok(_) => remove_inode_after(old(self)@, id) == Ok::<TablesView, MetaError>(
                    final(self)@,
                ),
                Err(e) => remove_inode_after(old(self)@, id) == Err::<TablesView, MetaError>(e)
                    && final(self)@ == old(self)@,
            },
    {
        if id == self.root {
            return Err(MetaError::CannotRemoveRoot);
        }
        match self.nodes.remove(&id) {
            Some(_) => Ok(()),
            None => {
                assert(self@ =~= old(self)@);
                Err(MetaError::InodeNotFound)
            },
        }
    }
}

/// A directory inode before it has an id.
pub open spec fn fresh_dir_record(state: NodeState, base: Option<ObjId>) -> NodeRecord {
    NodeRecord {
        inode_id: 0,
        ref_by: None,
        state,
        read_only: false,
        base_obj_id: base,
        rev: Some(0),
        meta: None,
        lease_client_session: None,
        lease_seq: None,
        lease_expire_at: None,
    }
}

pub fn new_dir_record(state: NodeState, base: Option<ObjId>) -> (r: NodeRecord)
    ensures
        r == fresh_dir_record(state, base),
{
    NodeRecord {
        inode_id: 0,
        ref_by: None,
        state,
        read_only: false,
        base_obj_id: base,
        rev: Some(0),
        meta: None,
        lease_client_session: None,
        lease_seq: None,
        lease_expire_at: None,
    }
}

} // verus!
