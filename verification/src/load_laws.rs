//! What tables hold that were made from stored rows.

use vstd::prelude::*;
use crate::columns::{is_target_cols, reads_target, TargetCols};
use crate::errors::MetaError;
use crate::json::{json_fault, meta_fault};
use crate::records::{
    cols_state, state_cols, DentryRecord, DentryTarget, NodeState, NodeStateCols, ObjId, ObjStat,
};
use crate::table::Key;
use crate::tables::{NodeRow, TablesView};
use crate::text::decimal;
use crate::tree::{dentry_rows, load_verdict, refs_rebuilt, stat_rows, targets_unique};

verus! {

/// Every stored entry is found under its directory and name; of two the later
/// counts.
pub proof fn law_stored_entries_are_found(rows: Seq<DentryRecord>, i: int)
    requires
        0 <= i < rows.len(),
    ensures
        dentry_rows(rows).contains_key((rows[i].parent, rows[i].name@)),
        (forall|j: int|
            i < j < rows.len() ==> (#[trigger] rows[j]).parent != rows[i].parent || rows[j].name@
                != rows[i].name@) ==> dentry_rows(rows)[(rows[i].parent, rows[i].name@)] == rows[i],
    decreases rows.len(),
{
    let init = rows.drop_last();
    if i < rows.len() - 1 {
        assert(init[i] == rows[i]);
        law_stored_entries_are_found(init, i);
        if forall|j: int|
            i < j < rows.len() ==> (#[trigger] rows[j]).parent != rows[i].parent || rows[j].name@
                != rows[i].name@ {
            let last = rows[rows.len() - 1];
            assert(last.parent != rows[i].parent || last.name@ != rows[i].name@);
            assert forall|j: int| i < j < init.len() implies (#[trigger] init[j]).parent
                != init[i].parent || init[j].name@ != init[i].name@ by {
                assert(init[j] == rows[j]);
            }
        }
    }
}

/// There is no entry that was not stored.
pub proof fn law_only_stored_entries_are_found(rows: Seq<DentryRecord>, k: (u64, Seq<char>))
    requires
        dentry_rows(rows).contains_key(k),
    ensures
        exists|i: int|
            0 <= i < rows.len() && (#[trigger] rows[i]).parent == k.0 && rows[i].name@ == k.1
                && dentry_rows(rows)[k] == rows[i],
    decreases rows.len(),
{
    if rows.len() > 0 {
        let init = rows.drop_last();
        if k == (rows.last().parent, rows.last().name@) {
            assert(rows[rows.len() - 1] == rows.last());
        } else {
            law_only_stored_entries_are_found(init, k);
            let i = choose|i: int|
                0 <= i < init.len() && (#[trigger] init[i]).parent == k.0 && init[i].name@ == k.1
                    && dentry_rows(init)[k] == init[i];
            assert(rows[i] == init[i]);
        }
    }
}

/// Stored statistics are found under their object.
pub proof fn law_stored_statistics_are_found(rows: Seq<ObjStat>, i: int)
    requires
        0 <= i < rows.len(),
    ensures
        stat_rows(rows).contains_key(rows[i].obj_id.model()),
        (forall|j: int|
            i < j < rows.len() ==> (#[trigger] rows[j]).obj_id.model() != rows[i].obj_id.model())
            ==> stat_rows(rows)[rows[i].obj_id.model()] == rows[i],
    decreases rows.len(),
{
    let init = rows.drop_last();
    if i < rows.len() - 1 {
        assert(init[i] == rows[i]);
        law_stored_statistics_are_found(init, i);
        if forall|j: int|
            i < j < rows.len() ==> (#[trigger] rows[j]).obj_id.model() != rows[i].obj_id.model() {
            let last = rows[rows.len() - 1];
            assert(last.obj_id.model() != rows[i].obj_id.model());
            assert forall|j: int| i < j < init.len() implies (#[trigger] init[j]).obj_id.model()
                != init[i].obj_id.model() by {
                assert(init[j] == rows[j]);
            }
        }
    }
}

/// Stored rows make tables exactly where the root is among them, under a number
/// that a row can hold.
pub proof fn law_tables_need_their_root(nodes: Seq<NodeRow>, root: u64, i: int)
    ensures
        0 <= i < nodes.len() && nodes[i].inode_id == root && root <= 0x7fff_ffff_ffff_ffff
            ==> load_verdict(nodes, root) is None,
        root > 0x7fff_ffff_ffff_ffff ==> load_verdict(nodes, root) is Some,
        (forall|j: int| 0 <= j < nodes.len() ==> (#[trigger] nodes[j]).inode_id != root)
            ==> load_verdict(nodes, root) is Some,
    decreases nodes.len(),
{
    if nodes.len() > 0 {
        let init = nodes.drop_last();
        if i < nodes.len() - 1 {
            if 0 <= i {
                assert(init[i] == nodes[i]);
            }
            law_tables_need_their_root(init, root, i);
        } else {
            law_tables_need_their_root(init, root, 0);
        }
        if forall|j: int| 0 <= j < nodes.len() ==> (#[trigger] nodes[j]).inode_id != root {
            assert(nodes[nodes.len() - 1].inode_id != root);
            assert forall|j: int| 0 <= j < init.len() implies (#[trigger] init[j]).inode_id
                != root by {
                assert(init[j] == nodes[j]);
            }
        }
    }
}

/// Once the references are rebuilt, every inode knows the entry that points to it,
/// one to which none points knows none, and nothing else has changed.
pub proof fn law_rebuilt_references_are_right(v: TablesView, k: (u64, Seq<char>), id: u64)
    requires
        targets_unique(v),
    ensures
        v.dentries.contains_key(k) && v.dentries[k].target == DentryTarget::IndexNodeId(id)
            && v.nodes.contains_key(id) ==> refs_rebuilt(v).nodes[id].ref_by == Some(
            v.dentries[k].id,
        ),
        v.nodes.contains_key(id) && (forall|l: (u64, Seq<char>)| #[trigger]
            v.dentries.contains_key(l) ==> v.dentries[l].target != DentryTarget::IndexNodeId(id))
            ==> refs_rebuilt(v).nodes[id].ref_by is None,
        refs_rebuilt(v).nodes.contains_key(id) <==> v.nodes.contains_key(id),
        v.nodes.contains_key(id) ==> refs_rebuilt(v).nodes[id] == (NodeRow {
            ref_by: refs_rebuilt(v).nodes[id].ref_by,
            ..v.nodes[id]
        }),
        refs_rebuilt(v).dentries == v.dentries,
        refs_rebuilt(v).stats == v.stats,
{
    if v.dentries.contains_key(k) && v.dentries[k].target == DentryTarget::IndexNodeId(id) {
        let l = choose|l: (u64, Seq<char>)| #[trigger]
            v.dentries.contains_key(l) && v.dentries[l].target == DentryTarget::IndexNodeId(id);
        assert(v.dentries.contains_key(l));
        assert(l == k);
    }
}

/// Stored columns say by number where an entry points, and fill the column that
/// belongs to the number and no other.
pub proof fn law_targets_are_stored_by_number(target: DentryTarget, cols: TargetCols)
    requires
        is_target_cols(target, cols),
    ensures
        cols.target_type == match target {
            DentryTarget::IndexNodeId(_) => 0i64,
            DentryTarget::ObjId(_) => 1i64,
            DentryTarget::Tombstone => 2i64,
            DentryTarget::SymLink(_) => 3i64,
        },
        cols.target_inode_id is Some <==> target is IndexNodeId,
        cols.target_obj is Some <==> target is ObjId,
        cols.target_path is Some <==> target is SymLink,
        target matches DentryTarget::ObjId(o) ==> cols.target_obj == Some(o),
{
}

/// Where the column that belongs to the number is empty, or the number means
/// nothing, the columns are refused.  Only a link may have an inode in the place
/// of its path, and is then named after it.
pub proof fn law_empty_columns_point_nowhere(cols: TargetCols, r: Result<DentryTarget, MetaError>)
    requires
        reads_target(cols, r),
    ensures
        cols.target_type == 0 ==> (r is Ok <==> cols.target_inode_id is Some),
        cols.target_type == 1 ==> (r is Ok <==> cols.target_obj is Some),
        cols.target_type == 2 ==> r == Ok::<DentryTarget, MetaError>(DentryTarget::Tombstone),
        cols.target_type == 3 && cols.target_path is None ==> match cols.target_inode_id {
            None => r is Err,
            Some(id) => r matches Ok(DentryTarget::SymLink(s)) && s@ == "legacy-inode:"@ + (if id
                < 0 {
                "-"@ + decimal((-id) as nat)
            } else {
                decimal(id as nat)
            }),
        },
        cols.target_type < 0 || cols.target_type > 3 ==> r is Err,
{
}

/// Stored columns say by number in which state an inode is.
pub proof fn law_states_are_stored_by_number(state: NodeState)
    ensures
        state_cols(state).state == match state {
            NodeState::DirNormal => 0i64,
            NodeState::DirOverlay => 1i64,
            NodeState::Working(_) => 2i64,
            NodeState::Cooling(_) => 3i64,
            NodeState::Linked(_) => 4i64,
            NodeState::Finalized(_) => 5i64,
            NodeState::FileNormal => 6i64,
        },
        state_cols(state).fb_handle == match state {
            NodeState::Working(s) => Some(s.fb_handle),
            NodeState::Cooling(s) => Some(s.fb_handle),
            _ => None::<String>,
        },
        state_cols(state).linked_obj_id == match state {
            NodeState::Linked(s) => Some(s.obj_id),
            _ => None::<ObjId>,
        },
        state_cols(state).finalized_obj_id == match state {
            NodeState::Finalized(s) => Some(s.obj_id),
            _ => None::<ObjId>,
        },
{
}

/// A state can be read where its number means something and every column that
/// belongs to it is filled, and nowhere else.
pub proof fn law_empty_columns_spell_no_state(cols: NodeStateCols)
    ensures
        cols_state(cols) is Ok <==> match cols.state {
            0i64 | 1i64 | 6i64 => true,
            2i64 => cols.fb_handle is Some && cols.last_write_at is Some,
            3i64 => cols.fb_handle is Some && cols.closed_at is Some,
            4i64 => cols.linked_obj_id is Some && cols.linked_qcid is Some
                && cols.linked_filebuffer_id is Some && cols.linked_at is Some,
            5i64 => cols.finalized_obj_id is Some && cols.finalized_at is Some,
            _ => false,
        },
        cols_state(cols) matches Ok(s) ==> state_cols(s).state == cols.state,
{
}

/// Metadata that the parser finds nothing wrong with can be read, and so can none
/// at all; with any other goes what the parser says of it.
pub proof fn law_metadata_is_read_where_it_parses(text: String)
    ensures
        meta_fault(None) is None,
        meta_fault(Some(text)) == json_fault(text@),
{
}

} // verus!
