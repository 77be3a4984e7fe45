//! What the entry requests keep: a strict tree, revisions that count changes,
//! and nothing disturbed beside the entry concerned.

use vstd::prelude::*;
use crate::errors::MetaError;
use crate::json::{check_meta, meta_fault, opt_view};
use crate::records::{
    cols_state, same_target, DentryRecord, DentryTarget, Edge, NodeRecord, ObjStat,
};
use crate::table::{lemma_map_has_row, lemma_row_in_map, Dup, Key, Table};
use crate::tables::{
    create_dentry_after, delete_dentry_after, edge_models, replace_target_after, row_record,
    MetaTables, NodeRow, TablesView,
};

verus! {

/// Entries have ids of their own, and an inode that an entry points to knows
/// that entry; so no inode has two entries.
pub open spec fn tree_ok(v: TablesView) -> bool {
    &&& forall|k: (u64, Seq<char>)| #[trigger]
        v.dentries.contains_key(k) ==> v.dentries[k].id < v.next_dentry
    &&& forall|k: (u64, Seq<char>), l: (u64, Seq<char>)|
        #![trigger v.dentries.contains_key(k), v.dentries.contains_key(l)]
        v.dentries.contains_key(k) && v.dentries.contains_key(l) && k != l ==> v.dentries[k].id
            != v.dentries[l].id
    &&& forall|k: (u64, Seq<char>)| #[trigger]
        v.dentries.contains_key(k) ==> bound_to_target(v, v.dentries[k])
}

/// The inode that `d` points to, if any, is there and refers back to `d`.
pub open spec fn bound_to_target(v: TablesView, d: DentryRecord) -> bool {
    d.target matches DentryTarget::IndexNodeId(id) ==> v.nodes.contains_key(id)
        && v.nodes[id].ref_by == Some(d.id)
}

/// In a strict tree no inode is the target of two entries.
pub proof fn law_one_entry_per_inode(
    v: TablesView,
    k: (u64, Seq<char>),
    l: (u64, Seq<char>),
    id: u64,
)
    requires
        tree_ok(v),
        v.dentries.contains_key(k),
        v.dentries.contains_key(l),
        v.dentries[k].target == DentryTarget::IndexNodeId(id),
        v.dentries[l].target == DentryTarget::IndexNodeId(id),
    ensures
        k == l,
{
}

pub proof fn law_create_keeps_tree(
    v: TablesView,
    parent: u64,
    name: String,
    target: DentryTarget,
    rev: u64,
    now: u64,
)
    requires
        v.inv(),
        tree_ok(v),
    ensures
        create_dentry_after(v, parent, name, target, rev, now) matches Ok(w) ==> tree_ok(w),
{
    if let Ok(w) = create_dentry_after(v, parent, name, target, rev, now) {
        let at = (parent, name@);
        assert forall|k: (u64, Seq<char>)| #[trigger] w.dentries.contains_key(k) implies
            bound_to_target(w, w.dentries[k]) by {
            if k != at {
                assert(v.dentries.contains_key(k));
                assert(bound_to_target(v, v.dentries[k]));
            }
        }
    }
}

pub proof fn law_delete_keeps_tree(v: TablesView, parent: u64, name: Seq<char>, rev: u64)
    requires
        v.inv(),
        tree_ok(v),
    ensures
        delete_dentry_after(v, parent, name, rev) matches Ok(w) ==> tree_ok(w),
{
    if let Ok(w) = delete_dentry_after(v, parent, name, rev) {
        let at = (parent, name);
        assert forall|k: (u64, Seq<char>)| #[trigger] w.dentries.contains_key(k) implies
            bound_to_target(w, w.dentries[k]) by {
            assert(v.dentries.contains_key(k));
            assert(bound_to_target(v, v.dentries[k]));
            if v.dentries.contains_key(at) && k != at {
                assert(bound_to_target(v, v.dentries[at]));
            }
        }
    }
}

pub proof fn law_replace_keeps_tree(
    v: TablesView,
    parent: u64,
    name: Seq<char>,
    old_target: DentryTarget,
    new_target: DentryTarget,
    rev: u64,
    now: u64,
)
    requires
        v.inv(),
        tree_ok(v),
    ensures
        replace_target_after(v, parent, name, old_target, new_target, rev, now) matches Ok(w)
            ==> tree_ok(w),
{
    if let Ok(w) = replace_target_after(v, parent, name, old_target, new_target, rev, now) {
        let at = (parent, name);
        assert(bound_to_target(v, v.dentries[at]));
        assert forall|k: (u64, Seq<char>)| #[trigger] w.dentries.contains_key(k) implies
            bound_to_target(w, w.dentries[k]) by {
            if k != at {
                assert(v.dentries.contains_key(k));
                assert(bound_to_target(v, v.dentries[k]));
            }
        }
    }
}

/// A new entry can be read back, at the next id, and every other entry is as it was.
pub proof fn law_create_then_get(
    v: TablesView,
    parent: u64,
    name: String,
    target: DentryTarget,
    rev: u64,
    now: u64,
    other: (u64, Seq<char>),
)
    ensures
        create_dentry_after(v, parent, name, target, rev, now) matches Ok(w) ==> {
            &&& w.dentry(parent, name@) == Some(
                DentryRecord { id: v.next_dentry, parent, name, target, mtime: Some(now) },
            )
            &&& other != (parent, name@) ==> w.dentry(other.0, other.1) == v.dentry(
                other.0,
                other.1,
            )
        },
{
}

/// A deleted entry is gone, and every other entry is as it was.
pub proof fn law_delete_then_get(
    v: TablesView,
    parent: u64,
    name: Seq<char>,
    rev: u64,
    other: (u64, Seq<char>),
)
    ensures
        delete_dentry_after(v, parent, name, rev) matches Ok(w) ==> {
            &&& w.dentry(parent, name) is None
            &&& other != (parent, name) ==> w.dentry(other.0, other.1) == v.dentry(
                other.0,
                other.1,
            )
        },
{
}

/// A redirected entry keeps its id and points to the new target; every other
/// entry is as it was.
pub proof fn law_replace_then_get(
    v: TablesView,
    parent: u64,
    name: Seq<char>,
    old_target: DentryTarget,
    new_target: DentryTarget,
    rev: u64,
    now: u64,
    other: (u64, Seq<char>),
)
    ensures
        replace_target_after(v, parent, name, old_target, new_target, rev, now) matches Ok(w) ==> {
            &&& w.dentry(parent, name) matches Some(d) && same_target(d.target, new_target) && d.id
                == v.dentries[(parent, name)].id
            &&& other != (parent, name) ==> w.dentry(other.0, other.1) == v.dentry(
                other.0,
                other.1,
            )
        },
{
}

/// A revision counts the changes of its directory: a request that changes an
/// entry raises the parent's revision by one, one that changes nothing leaves
/// it, and no other directory's revision moves.
pub proof fn law_revision_counts_changes(
    v: TablesView,
    parent: u64,
    name: String,
    old_target: DentryTarget,
    target: DentryTarget,
    rev: u64,
    now: u64,
    dir: u64,
)
    requires
        v.inv(),
        v.nodes.contains_key(dir),
    ensures
        create_dentry_after(v, parent, name, target, rev, now) matches Ok(w) ==> w.rev(dir)
            == v.rev(dir) + (if dir == parent {
            1int
        } else {
            0
        }),
        delete_dentry_after(v, parent, name@, rev) matches Ok(w) ==> w.rev(dir) == v.rev(dir) + (
        if dir == parent && v.dentries.contains_key((parent, name@)) {
            1int
        } else {
            0
        }),
        replace_target_after(v, parent, name@, old_target, target, rev, now) matches Ok(w) ==> w.rev(
            dir,
        ) == v.rev(dir) + (if dir == parent && !same_target(
            v.dentries[(parent, name@)].target,
            target,
        ) {
            1int
        } else {
            0
        }),
{
}

/// Two writers that read the same revision: once the first has changed the
/// directory, the second is refused, whatever it asks for.
pub proof fn law_stale_writer_is_refused(
    v: TablesView,
    w: TablesView,
    parent: u64,
    rev: u64,
    name: String,
    old_target: DentryTarget,
    target: DentryTarget,
    now: u64,
)
    requires
        w.nodes.contains_key(parent),
        w.rev(parent) == v.rev(parent) + 1,
        v.rev(parent) == rev,
    ensures
        create_dentry_after(w, parent, name, target, rev, now) == Err::<TablesView, MetaError>(
            MetaError::RevMismatch,
        ),
        delete_dentry_after(w, parent, name@, rev) == Err::<TablesView, MetaError>(
            MetaError::RevMismatch,
        ),
        replace_target_after(w, parent, name@, old_target, target, rev, now) == Err::<
            TablesView,
            MetaError,
        >(MetaError::RevMismatch),
{
}

/// The id of the entry that points to inode `id`, if there is one.
pub open spec fn holder_of(v: TablesView, id: u64) -> Option<u64> {
    if exists|k: (u64, Seq<char>)| #[trigger]
        v.dentries.contains_key(k) && v.dentries[k].target == DentryTarget::IndexNodeId(id) {
        Some(
            v.dentries[choose|k: (u64, Seq<char>)| #[trigger]
                v.dentries.contains_key(k) && v.dentries[k].target == DentryTarget::IndexNodeId(
                    id,
                )].id,
        )
    } else {
        None
    }
}

/// No inode is the target of two entries.
pub open spec fn targets_unique(v: TablesView) -> bool {
    forall|k: (u64, Seq<char>), l: (u64, Seq<char>)|
        #![trigger v.dentries.contains_key(k), v.dentries.contains_key(l)]
        v.dentries.contains_key(k) && v.dentries.contains_key(l) && k != l ==> !(
        v.dentries[k].target is IndexNodeId && v.dentries[k].target == v.dentries[l].target)
}

/// Every inode refers to the entry that points to it, and to none where there is none.
pub open spec fn refs_rebuilt(v: TablesView) -> TablesView {
    TablesView {
        nodes: v.nodes.map_entries(
            |id: u64, row: NodeRow| NodeRow { ref_by: holder_of(v, id), ..row },
        ),
        ..v
    }
}

impl MetaTables {
    fn find_holder(&self, id: u64) -> (r: Option<u64>)
        requires
            self.wf(),
            targets_unique(self@),
        ensures
            r == holder_of(self@, id),
    {
        let mut i: usize = 0;
        while i < self.dentries.rows.len()
            invariant
                0 <= i <= self.dentries.rows@.len(),
                self.wf(),
                targets_unique(self@),
                forall|j: int|
                    0 <= j < i ==> (#[trigger] self.dentries.rows@[j]).1.target
                        != DentryTarget::IndexNodeId(id),
            decreases self.dentries.rows@.len() - i,
        {
            let hit: bool = match self.dentries.rows[i].1.target {
                DentryTarget::IndexNodeId(x) => x == id,
                _ => false,
            };
            if hit {
                proof {
                    lemma_row_in_map(self.dentries.rows@, i as int);
                    let k = self.dentries.rows@[i as int].0.model();
                    assert(self@.dentries.contains_key(k));
                }
                return Some(self.dentries.rows[i].1.id);
            }
            i = i + 1;
        }
        proof {
            if exists|k: (u64, Seq<char>)| #[trigger]
                self@.dentries.contains_key(k) && self@.dentries[k].target
                    == DentryTarget::IndexNodeId(id) {
                let k = choose|k: (u64, Seq<char>)| #[trigger]
                    self@.dentries.contains_key(k) && self@.dentries[k].target
                        == DentryTarget::IndexNodeId(id);
                lemma_map_has_row(self.dentries.rows@, k);
            }
        }
        None
    }

    /// Recomputes which entry each inode belongs to.
    pub fn rebuild_refs(&mut self)
        requires
            old(self).wf(),
            targets_unique(old(self)@),
        ensures
            final(self).wf(),
            final(self)@ == refs_rebuilt(old(self)@),
    {
        let mut nodes: Table<u64, NodeRow> = Table::new();
        let mut i: usize = 0;
        while i < self.nodes.rows.len()
            invariant
                0 <= i <= self.nodes.rows@.len(),
                self.wf(),
                targets_unique(self@),
                self@ == old(self)@,
                nodes.wf(),
                forall|k: u64| #[trigger]
                    nodes@.contains_key(k) ==> self@.nodes.contains_key(k) && nodes@[k] == (
                    NodeRow { ref_by: holder_of(self@, k), ..self@.nodes[k] }),
                forall|j: int|
                    0 <= j < i ==> nodes@.contains_key((#[trigger] self.nodes.rows@[j]).0),
            decreases self.nodes.rows@.len() - i,
        {
            proof {
                lemma_row_in_map(self.nodes.rows@, i as int);
            }
            let key: u64 = self.nodes.rows[i].0;
            let mut row: NodeRow = self.nodes.rows[i].1.dup();
            row.ref_by = self.find_holder(key);
            nodes.put(key, row);
            i = i + 1;
        }
        proof {
            assert forall|k: u64| #[trigger] self@.nodes.contains_key(k) implies nodes@.contains_key(
                k,
            ) by {
                lemma_map_has_row(self.nodes.rows@, k);
            }
            assert(nodes@ =~= refs_rebuilt(self@).nodes);
        }
        self.nodes = nodes;
    }

    /// Builds tables from stored rows.  The root directory must be among them; of
    /// two rows with one key the later counts.  A row that cannot be read is kept,
    /// and only reading it fails.
    pub fn load(
        nodes: Vec<NodeRow>,
        dentries: Vec<DentryRecord>,
        stats: Vec<ObjStat>,
        next_dentry: u64,
        root: u64,
    ) -> (r: Result<Self, MetaError>)
        ensures
            match r {
                Ok(t) => {
                    &&& load_verdict(nodes@, root) is None
                    &&& t.wf()
                    &&& t@.next_dentry == next_dentry
                    &&& t@.root == root
                    &&& t@.touched == Seq::<(u64, Seq<char>)>::empty()
                    &&& keeps_rows(nodes@, t@.nodes)
                    &&& t@.dentries == dentry_rows(dentries@)
                    &&& t@.stats == stat_rows(stats@)
                },
                Err(e) => load_verdict(nodes@, root) == Some(e),
            },
    {
        let mut node_table: Table<u64, NodeRow> = Table::new();
        let mut i: usize = 0;
        assert(nodes@.subrange(0, 0) =~= Seq::empty());
        while i < nodes.len()
            invariant
                0 <= i <= nodes@.len(),
                node_table.wf(),
                keeps_rows(nodes@.subrange(0, i as int), node_table@),
                forall|k: u64| #[trigger]
                    node_table@.contains_key(k) ==> node_table@[k].inode_id == k,
            decreases nodes@.len() - i,
        {
            proof {
                let s = nodes@.subrange(0, i + 1);
                assert(s.drop_last() =~= nodes@.subrange(0, i as int));
                assert(s.last() == nodes@[i as int]);
            }
            let mut row: NodeRow = nodes[i].dup();
            row.meta_fault = check_meta(&row.meta);
            node_table.put(nodes[i].inode_id, row);
            i = i + 1;
        }
        assert(nodes@.subrange(0, nodes@.len() as int) =~= nodes@);
        let mut dentry_table: Table<Edge, DentryRecord> = Table::new();
        let mut j: usize = 0;
        assert(dentries@.subrange(0, 0) =~= Seq::empty());
        while j < dentries.len()
            invariant
                0 <= j <= dentries@.len(),
                dentry_table.wf(),
                dentry_table@ == dentry_rows(dentries@.subrange(0, j as int)),
                forall|k: (u64, Seq<char>)| #[trigger]
                    dentry_table@.contains_key(k) ==> dentry_table@[k].parent == k.0
                        && dentry_table@[k].name@ == k.1,
            decreases dentries@.len() - j,
        {
            let edge = Edge { parent: dentries[j].parent, name: dentries[j].name.clone() };
            dentry_table.put(edge, dentries[j].dup());
            proof {
                let s = dentries@.subrange(0, j + 1);
                assert(s.drop_last() =~= dentries@.subrange(0, j as int));
                assert(s.last() == dentries@[j as int]);
            }
            j = j + 1;
        }
        assert(dentries@.subrange(0, dentries@.len() as int) =~= dentries@);
        let mut stat_table: Table<crate::records::ObjId, ObjStat> = Table::new();
        let mut n: usize = 0;
        assert(stats@.subrange(0, 0) =~= Seq::empty());
        while n < stats.len()
            invariant
                0 <= n <= stats@.len(),
                stat_table.wf(),
                stat_table@ == stat_rows(stats@.subrange(0, n as int)),
                forall|k: (Seq<char>, Seq<char>)| #[trigger]
                    stat_table@.contains_key(k) ==> stat_table@[k].obj_id.model() == k,
            decreases stats@.len() - n,
        {
            stat_table.put(stats[n].obj_id.dup(), stats[n].dup());
            proof {
                let s = stats@.subrange(0, n + 1);
                assert(s.drop_last() =~= stats@.subrange(0, n as int));
                assert(s.last() == stats@[n as int]);
            }
            n = n + 1;
        }
        assert(stats@.subrange(0, stats@.len() as int) =~= stats@);
        if !node_table.contains(&root) || root > i64::MAX as u64 {
            return Err(MetaError::InodeNotFound);
        }
        let r = MetaTables {
            nodes: node_table,
            dentries: dentry_table,
            stats: stat_table,
            next_dentry,
            root,
            touched: Vec::new(),
        };
        assert(edge_models(r.touched@) =~= Seq::empty());
        Ok(r)
    }
}

/// Why stored rows make no tables, if they make none.
pub open spec fn load_verdict(nodes: Seq<NodeRow>, root: u64) -> Option<MetaError> {
    if !node_rows(nodes).contains_key(root) || root > i64::MAX {
        Some(MetaError::InodeNotFound)
    } else {
        None
    }
}

/// `kept` is a stored row with a note of what is wrong with its metadata.
pub open spec fn is_kept_row(row: NodeRow, kept: NodeRow) -> bool {
    &&& kept == (NodeRow { meta_fault: kept.meta_fault, ..row })
    &&& opt_view(kept.meta_fault) == meta_fault(row.meta)
}

/// Rows filed by inode id, later rows over earlier ones.
pub open spec fn node_rows(rows: Seq<NodeRow>) -> Map<u64, NodeRow>
    decreases rows.len(),
{
    if rows.len() == 0 {
        Map::empty()
    } else {
        node_rows(rows.drop_last()).insert(rows.last().inode_id, rows.last())
    }
}

/// `kept` holds the stored rows, each filed by its inode id.
pub open spec fn keeps_rows(rows: Seq<NodeRow>, kept: Map<u64, NodeRow>) -> bool {
    &&& kept.dom() == node_rows(rows).dom()
    &&& forall|k: u64| #[trigger]
        kept.contains_key(k) ==> is_kept_row(node_rows(rows)[k], kept[k])
}

proof fn lemma_last_row_counts(rows: Seq<NodeRow>, i: int)
    requires
        0 <= i < rows.len(),
        forall|j: int| i < j < rows.len() ==> (#[trigger] rows[j]).inode_id != rows[i].inode_id,
    ensures
        node_rows(rows).contains_key(rows[i].inode_id),
        node_rows(rows)[rows[i].inode_id] == rows[i],
    decreases rows.len(),
{
    if i < rows.len() - 1 {
        lemma_last_row_counts(rows.drop_last(), i);
    }
}

/// Each stored row is read back as what it holds, or its reading fails for what
/// it holds; no other row has a part in that.
pub proof fn law_loaded_rows_are_read_apart(rows: Seq<NodeRow>, i: int, t: TablesView)
    requires
        0 <= i < rows.len(),
        forall|j: int| i < j < rows.len() ==> (#[trigger] rows[j]).inode_id != rows[i].inode_id,
        keeps_rows(rows, t.nodes),
    ensures
        match (cols_state(rows[i].cols), meta_fault(rows[i].meta)) {
            (Err(e), _) => t.read(rows[i].inode_id) == Err::<Option<NodeRecord>, MetaError>(e),
            (Ok(_), None) => t.read(rows[i].inode_id) == Ok::<Option<NodeRecord>, MetaError>(
                Some(row_record(rows[i])),
            ),
            (Ok(_), Some(fault)) => t.read(rows[i].inode_id) matches Err(e)
                && e matches MetaError::InvalidMetaJson { cause } && cause@ == fault,
        },
{
    lemma_last_row_counts(rows, i);
    assert(t.nodes.contains_key(rows[i].inode_id));
}

pub open spec fn dentry_rows(rows: Seq<DentryRecord>) -> Map<(u64, Seq<char>), DentryRecord>
    decreases rows.len(),
{
    if rows.len() == 0 {
        Map::empty()
    } else {
        dentry_rows(rows.drop_last()).insert(
            (rows.last().parent, rows.last().name@),
            rows.last(),
        )
    }
}

pub open spec fn stat_rows(rows: Seq<ObjStat>) -> Map<(Seq<char>, Seq<char>), ObjStat>
    decreases rows.len(),
{
    if rows.len() == 0 {
        Map::empty()
    } else {
        stat_rows(rows.drop_last()).insert(rows.last().obj_id.model(), rows.last())
    }
}

} // verus!
