//! Where paths lead: what each kind of entry makes of the rest of a path.

use vstd::prelude::*;
use crate::entry_laws::{base_has, base_lacks, is_directory};
use crate::errors::MetaError;
use crate::outside::{BaseStoreView, Stop};
use crate::path_cache::Path;
use crate::paths::{expanded, slashed};
use crate::records::{
    law_state_columns_round_trip, DentryTarget, FinalizedObjState, FsMetaResolvePathItem,
    NodeRecord, NodeState, ObjId, OpenFileReaderResp,
};
use crate::resolve::{reader_is, Answer, RespView};
use crate::resolve_laws::{hop, lemma_walk_skips, resolved};
use crate::table::Key;
use crate::tables::{update_inode_state_after, TablesView};

verus! {

/// The directories along the first `n` components of the path, from the root on:
/// each entry points to the next inode.
pub open spec fn leads_through(v: TablesView, p: Path, n: int, ids: Seq<u64>) -> bool {
    &&& 0 <= n < p.len()
    &&& ids.len() == n + 1
    &&& ids[0] == v.root
    &&& forall|j: int|
        0 <= j < n ==> v.dentries.contains_key((ids[j], #[trigger] p[j])) && v.dentries[(
            ids[j],
            p[j],
        )].target == DentryTarget::IndexNodeId(ids[j + 1])
}

/// What is left of a path behind its first `n` components, as text.
pub open spec fn rest_of(p: Path, n: int) -> Option<Seq<char>> {
    if n < p.len() {
        Some(slashed(p.skip(n)))
    } else {
        None
    }
}

proof fn lemma_walk_to(v: TablesView, base: BaseStoreView, p: Path, n: int, ids: Seq<u64>)
    requires
        leads_through(v, p, n, ids),
    ensures
        crate::resolve::walk(v, base, p, 0, seq![v.root]) == crate::resolve::walk(
            v,
            base,
            p,
            n,
            ids,
        ),
        ids.last() == ids[n],
{
    assert forall|j: int| 0 <= j < n implies hop(v, ids[j], #[trigger] p[j]) == Some(
        ids[j + 1],
    ) by {}
    lemma_walk_skips(v, base, p, ids, 0, n);
    assert(ids.take(1) =~= seq![v.root]);
    assert(ids.take(n + 1) =~= ids);
}

/// The empty path leads to the root.
pub proof fn law_empty_path_is_the_root(v: TablesView, base: BaseStoreView, sym_count: nat, n: NodeRecord)
    requires
        v.read(v.root) == Ok::<Option<NodeRecord>, MetaError>(Some(n)),
    ensures
        resolved(v, base, Seq::empty(), sym_count) == Answer::Found(
            RespView {
                item: FsMetaResolvePathItem::Inode { inode_id: v.root, inode: n },
                inner: None,
            },
        ),
{
}

/// A path whose last entry points to an inode leads to that inode, as it is read;
/// where there is no such inode the path leads nowhere.
pub proof fn law_path_leads_to_the_inode(
    v: TablesView,
    base: BaseStoreView,
    p: Path,
    ids: Seq<u64>,
    id: u64,
    sym_count: nat,
)
    requires
        leads_through(v, p, p.len() - 1, ids),
        v.dentries.contains_key((ids.last(), p.last())),
        v.dentries[(ids.last(), p.last())].target == DentryTarget::IndexNodeId(id),
    ensures
        v.read(id) matches Ok(Some(n)) ==> resolved(v, base, p, sym_count) == Answer::Found(
            RespView { item: FsMetaResolvePathItem::Inode { inode_id: id, inode: n }, inner: None },
        ),
        !v.nodes.contains_key(id) ==> resolved(v, base, p, sym_count) is Absent,
        v.read(id) is Err ==> resolved(v, base, p, sym_count) is Refused,
{
    lemma_walk_to(v, base, p, p.len() - 1, ids);
}

/// An entry that was deleted ends every path through it, whatever the base has.
pub proof fn law_deleted_entry_ends_the_path(
    v: TablesView,
    base: BaseStoreView,
    p: Path,
    n: int,
    ids: Seq<u64>,
    sym_count: nat,
)
    requires
        leads_through(v, p, n, ids),
        v.dentries.contains_key((ids.last(), p[n])),
        v.dentries[(ids.last(), p[n])].target is Tombstone,
    ensures
        resolved(v, base, p, sym_count) is Absent,
{
    lemma_walk_to(v, base, p, n, ids);
}

/// A path that meets an object leads to that object, with the rest of the path
/// as the path inside it.  An entry comes before the base, and the base shows
/// where a directory has no entry.
pub proof fn law_path_leads_into_the_object(
    v: TablesView,
    base: BaseStoreView,
    p: Path,
    n: int,
    ids: Seq<u64>,
    o: ObjId,
    sym_count: nat,
)
    requires
        leads_through(v, p, n, ids),
        if v.dentries.contains_key((ids.last(), p[n])) {
            v.dentries[(ids.last(), p[n])].target == DentryTarget::ObjId(o)
        } else {
            (v.inode(ids.last()) matches Some(d) && is_directory(d.state)) && base_has(
                v,
                base,
                ids.last(),
                p[n],
                o,
            )
        },
    ensures
        resolved(v, base, p, sym_count) == Answer::Found(
            RespView { item: FsMetaResolvePathItem::ObjId(o), inner: rest_of(p, n + 1) },
        ),
{
    lemma_walk_to(v, base, p, n, ids);
    assert(p.skip(n + 1).len() == p.len() - (n + 1));
}

/// Where neither an entry nor the base has the name the path leads nowhere, and
/// so it does through what is no directory.  What the base has is asked for
/// where it is not known.
pub proof fn law_unknown_name_leads_nowhere(
    v: TablesView,
    base: BaseStoreView,
    p: Path,
    n: int,
    ids: Seq<u64>,
    sym_count: nat,
)
    requires
        leads_through(v, p, n, ids),
        !v.dentries.contains_key((ids.last(), p[n])),
        v.inode(ids.last()) is Some,
    ensures
        ({
            let d = v.inode(ids.last())->0;
            &&& !is_directory(d.state) || base_lacks(v, base, ids.last(), p[n]) ==> resolved(
                v,
                base,
                p,
                sym_count,
            ) is Absent
            &&& is_directory(d.state) && (d.base_obj_id matches Some(o) && o.obj_type@ == "cydir"@
                && base.configured && !base.children.contains_key((o.model(), p[n])))
                ==> resolved(v, base, p, sym_count) == Answer::AskChild(d.base_obj_id->0, p[n])
        }),
{
    lemma_walk_to(v, base, p, n, ids);
}

/// A link is followed as often as the caller allows: the path then leads where
/// the path with the link written out leads, with one link fewer to follow.  At
/// the end of the allowance the link itself is what the path leads to.
pub proof fn law_link_is_followed(
    v: TablesView,
    base: BaseStoreView,
    p: Path,
    n: int,
    ids: Seq<u64>,
    target: String,
    sym_count: nat,
)
    requires
        leads_through(v, p, n, ids),
        v.dentries.contains_key((ids.last(), p[n])),
        v.dentries[(ids.last(), p[n])].target == DentryTarget::SymLink(target),
    ensures
        sym_count > 0 ==> resolved(v, base, p, sym_count) == resolved(
            v,
            base,
            expanded(p.take(n), target@, p.skip(n + 1)),
            (sym_count - 1) as nat,
        ),
        sym_count == 0 ==> resolved(v, base, p, sym_count) == Answer::Found(
            RespView { item: FsMetaResolvePathItem::SymLink(target), inner: rest_of(p, n + 1) },
        ),
{
    lemma_walk_to(v, base, p, n, ids);
    assert(p.skip(n + 1).len() == p.len() - (n + 1));
}

/// What a file is published as is what readers of its path are given: once its
/// inode is finalized as an object, opening the path gives that object.
pub proof fn law_published_object_is_read(
    v: TablesView,
    base: BaseStoreView,
    p: Path,
    ids: Seq<u64>,
    id: u64,
    f: FinalizedObjState,
    old_state: NodeState,
    sym_count: nat,
    r: Result<OpenFileReaderResp, Stop>,
)
    requires
        v.inv(),
        leads_through(v, p, p.len() - 1, ids),
        v.dentries.contains_key((ids.last(), p.last())),
        v.dentries[(ids.last(), p.last())].target == DentryTarget::IndexNodeId(id),
        v.inode(id) is Some,
        f.obj_id.obj_type@ != "cydir"@,
        update_inode_state_after(v, id, NodeState::Finalized(f), old_state) is Ok,
        reader_is(
            r,
            resolved(
                update_inode_state_after(v, id, NodeState::Finalized(f), old_state)->Ok_0,
                base,
                p,
                sym_count,
            ),
        ),
    ensures
        r == Ok::<OpenFileReaderResp, Stop>(OpenFileReaderResp::Object(f.obj_id, None)),
{
    let w = update_inode_state_after(v, id, NodeState::Finalized(f), old_state)->Ok_0;
    law_state_columns_round_trip(NodeState::Finalized(f));
    assert(w.dentries == v.dentries);
    assert(leads_through(w, p, p.len() - 1, ids));
    law_path_leads_to_the_inode(w, base, p, ids, id, sym_count);
}

} // verus!
