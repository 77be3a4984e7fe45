//! What finding or making the directory at a path does with each component.

use vstd::prelude::*;
use crate::committed::{installs, settled};
use crate::ensure::{
    dir_answer_is, dir_step, ensures_dir, finds_parent, makes_dir_at, makes_dirs, makes_in,
    makes_named, step_made, DirAnswer, DirStep, MadeAnswer, When,
};
use crate::entry_laws::{
    base_lacks, has_inode_id, has_numbers, is_directory, lemma_alloc_under, new_dir_stands,
    no_dangling,
};
use crate::errors::MetaError;
use crate::listing::{is_merged, shows};
use crate::outside::{base_kids, BaseReply, BaseStoreView, Stop};
use crate::path_cache::{CacheView, Path};
use crate::paths::path_parts;
use crate::records::{
    DentryRecord, DentryTarget, FsMetaResolvePathItem, NodeRecord, NodeState, ObjId,
};
use crate::resolve::{Answer, RespView};
use crate::resolve_laws::{coherent, law_cache_is_transparent, resolved};
use crate::table::Key;
use crate::tables::{fresh_dir_record, TablesView};
use crate::text::{text_lt, view_all};
use crate::walk_laws::{
    law_deleted_entry_ends_the_path, law_path_leads_into_the_object, law_path_leads_to_the_inode,
    law_unknown_name_leads_nowhere, leads_through,
};
use crate::writer_laws::object_shows;

verus! {

/// A directory that stands under the next component is entered; nothing changes
/// on the way.
pub proof fn law_standing_directory_is_entered(
    v: TablesView,
    c: CacheView,
    base: BaseStoreView,
    comps: Seq<String>,
    i: int,
    cur: u64,
    id: u64,
    at: When,
    w: TablesView,
    d: CacheView,
    a: DirAnswer,
)
    requires
        0 <= i < comps.len(),
        v.dentries.contains_key((cur, comps[i]@)),
        v.dentries[(cur, comps[i]@)].target == DentryTarget::IndexNodeId(id),
        v.inode(id) matches Some(n) && is_directory(n.state),
        makes_dirs(v, c, base, comps, i, cur, at, w, d, a),
    ensures
        makes_dirs(v, c, base, comps, i + 1, id, at, w, d, a),
        i + 1 == comps.len() ==> w == v && d == c && a == DirAnswer::Dir(id),
{
    assert(view_all(comps)[i] == comps[i]@);
}

/// What a directory has to be like for another to be made in it
/// under the name.
pub open spec fn takes_new_dir(v: TablesView, cur: u64, name: Seq<char>, at: When) -> bool {
    &&& v.inv()
    &&& no_dangling(v)
    &&& v.inode(cur) matches Some(n) && is_directory(n.state)
    &&& has_numbers(v, cur, name)
    &&& has_inode_id(v)
    &&& !at.locked
}

/// Where nothing stands under the next component a directory over nothing is
/// made there, and the way goes on through it.
pub proof fn law_missing_directory_is_made(
    v: TablesView,
    c: CacheView,
    base: BaseStoreView,
    comps: Seq<String>,
    i: int,
    cur: u64,
    at: When,
    w: TablesView,
    d: CacheView,
    a: DirAnswer,
)
    requires
        0 <= i < comps.len(),
        takes_new_dir(v, cur, comps[i]@, at),
        if v.dentries.contains_key((cur, comps[i]@)) {
            v.dentries[(cur, comps[i]@)].target is Tombstone
        } else {
            base_lacks(v, base, cur, comps[i]@)
        },
        makes_dirs(v, c, base, comps, i, cur, at, w, d, a),
    ensures
        exists|x: TablesView, id: u64, m: CacheView|
            new_dir_stands(v, x, (cur, comps[i]@), id, NodeState::DirNormal, None, at.now)
                && #[trigger] makes_dirs(x, m, base, comps, i + 1, id, at, w, d, a),
        i + 1 == comps.len() ==> (a matches DirAnswer::Dir(id) && new_dir_stands(
            v,
            w,
            (cur, comps[i]@),
            id,
            NodeState::DirNormal,
            None,
            at.now,
        )),
{
    assert(view_all(comps)[i] == comps[i]@);
    lemma_alloc_under(v, cur, comps[i], fresh_dir_record(NodeState::DirNormal, None), at.now);
    let step = dir_step(v, base, view_all(comps), i, cur);
    assert(step is Make);
    let made = step_made(v, step, cur, comps[i], at)->Ok_0;
    let x = settled(made.0);
    let m = choose|m: CacheView| #[trigger]
        installs(c, made.0, m) && makes_dirs(x, m, base, comps, i + 1, made.1, at, w, d, a);
    assert(new_dir_stands(
        v,
        made.0,
        (cur, comps[i]@),
        made.1,
        NodeState::DirNormal,
        None,
        at.now,
    ));
    assert(new_dir_stands(v, x, (cur, comps[i]@), made.1, NodeState::DirNormal, None, at.now));
}

/// Where a directory object shows under the next component, an inode is laid over
/// that very object, and the way goes on through it.
pub proof fn law_directory_object_is_laid_over(
    v: TablesView,
    c: CacheView,
    base: BaseStoreView,
    comps: Seq<String>,
    i: int,
    cur: u64,
    o: ObjId,
    at: When,
    w: TablesView,
    d: CacheView,
    a: DirAnswer,
)
    requires
        0 <= i < comps.len(),
        takes_new_dir(v, cur, comps[i]@, at),
        object_shows(v, base, cur, comps[i]@, o),
        o.obj_type@ == "cydir"@,
        makes_dirs(v, c, base, comps, i, cur, at, w, d, a),
    ensures
        exists|x: TablesView, id: u64, m: CacheView|
            new_dir_stands(v, x, (cur, comps[i]@), id, NodeState::DirOverlay, Some(o), at.now)
                && #[trigger] makes_dirs(x, m, base, comps, i + 1, id, at, w, d, a),
        i + 1 == comps.len() ==> (a matches DirAnswer::Dir(id) && new_dir_stands(
            v,
            w,
            (cur, comps[i]@),
            id,
            NodeState::DirOverlay,
            Some(o),
            at.now,
        )),
{
    assert(view_all(comps)[i] == comps[i]@);
    lemma_alloc_under(v, cur, comps[i], fresh_dir_record(NodeState::DirOverlay, Some(o)), at.now);
    let step = dir_step(v, base, view_all(comps), i, cur);
    assert(step == DirStep::Lay(o));
    let made = step_made(v, step, cur, comps[i], at)->Ok_0;
    let x = settled(made.0);
    let m = choose|m: CacheView| #[trigger]
        installs(c, made.0, m) && makes_dirs(x, m, base, comps, i + 1, made.1, at, w, d, a);
    assert(new_dir_stands(
        v,
        made.0,
        (cur, comps[i]@),
        made.1,
        NodeState::DirOverlay,
        Some(o),
        at.now,
    ));
    assert(new_dir_stands(v, x, (cur, comps[i]@), made.1, NodeState::DirOverlay, Some(o), at.now));
}

/// The way ends, and nothing changes, where the next component is a file, a link
/// or an object that is no directory, and where something would have to be made
/// while a transaction is open.
pub proof fn law_way_ends_at_what_is_no_directory(
    v: TablesView,
    c: CacheView,
    base: BaseStoreView,
    comps: Seq<String>,
    i: int,
    cur: u64,
    o: ObjId,
    id: u64,
    at: When,
    w: TablesView,
    d: CacheView,
    a: DirAnswer,
)
    requires
        0 <= i < comps.len(),
        makes_dirs(v, c, base, comps, i, cur, at, w, d, a),
        v.inode(cur) matches Some(n) && is_directory(n.state),
        (v.dentries.contains_key((cur, comps[i]@)) && v.dentries[(cur, comps[i]@)].target
            is SymLink) || (object_shows(v, base, cur, comps[i]@, o) && (o.obj_type@ != "cydir"@
            || at.locked)) || (v.dentries.contains_key((cur, comps[i]@)) && v.dentries[(
            cur,
            comps[i]@,
        )].target == DentryTarget::IndexNodeId(id) && (v.inode(id) matches Some(n)
            ==> !is_directory(n.state))) || (at.locked && !v.dentries.contains_key(
            (cur, comps[i]@),
        ) && base_lacks(v, base, cur, comps[i]@)) || (at.locked && v.dentries.contains_key(
            (cur, comps[i]@),
        ) && v.dentries[(cur, comps[i]@)].target is Tombstone),
    ensures
        w == v,
        d == c,
        !(a is Dir),
{
    assert(view_all(comps)[i] == comps[i]@);
}

/// Where the path leads to a directory already that is the one that is found;
/// where it leads to a file, a link or an object that is no directory it is
/// refused.  Nothing changes either way.
pub proof fn law_existing_directory_is_found(
    v: TablesView,
    c: CacheView,
    base: BaseStoreView,
    path: Seq<char>,
    found: RespView,
    at: When,
    w: TablesView,
    d: CacheView,
    a: DirAnswer,
)
    requires
        c.inv(),
        coherent(v, base, c),
        path_parts(path).len() > 0,
        resolved(v, base, path_parts(path), 40) == Answer::Found(found),
        ensures_dir(v, c, base, path, at, w, d, a),
    ensures
        match found.item {
            FsMetaResolvePathItem::Inode { inode_id, inode } => w == v && a == if is_directory(
                inode.state,
            ) {
                DirAnswer::Dir(inode_id)
            } else {
                DirAnswer::NotDir(path)
            },
            FsMetaResolvePathItem::SymLink(_) => w == v && a == DirAnswer::NotDir(path),
            FsMetaResolvePathItem::ObjId(o) => o.obj_type@ != "cydir"@ ==> w == v && a
                == DirAnswer::NotDir(path),
        },
{
    let (mid, answer) = choose|mid: CacheView, answer: Answer| #[trigger]
        crate::resolve::resolves(v, base, c, path_parts(path), 40, mid, answer)
            && match crate::ensure::settled_by(answer, path) {
            Some(end) => w == v && d == mid && a == end,
            None => exists|comps: Seq<String>|
                view_all(comps) == path_parts(path) && #[trigger] makes_dirs(
                    v,
                    mid,
                    base,
                    comps,
                    0,
                    v.root,
                    at,
                    w,
                    d,
                    a,
                ),
        };
    law_cache_is_transparent(v, base, c, path_parts(path), 40, mid, answer);
}

/// A path without components is the root's.
pub proof fn law_root_is_found(
    v: TablesView,
    c: CacheView,
    base: BaseStoreView,
    path: Seq<char>,
    at: When,
    w: TablesView,
    d: CacheView,
    a: DirAnswer,
)
    requires
        path_parts(path).len() == 0,
        ensures_dir(v, c, base, path, at, w, d, a),
    ensures
        w == v,
        d == c,
        a == DirAnswer::Dir(v.root),
{
}

/// The directory that is found is what the caller gets, and what ends the way is
/// an error.
pub proof fn law_found_directory_is_answered(r: Result<u64, Stop>, a: DirAnswer, id: u64)
    requires
        dir_answer_is(r, a),
    ensures
        r == Ok::<u64, Stop>(id) <==> a == DirAnswer::Dir(id),
        !(a is Dir) <==> r is Err,
        a matches DirAnswer::Refused(e) ==> r == Err::<u64, Stop>(Stop::Refused(e)),
{
}

/// Making one directory at a path needs the directory it is to be in: where that
/// is found and nothing stands under the name, a directory over nothing is made
/// there; where something stands it is left alone.
pub proof fn law_one_directory_is_made(
    v: TablesView,
    c: CacheView,
    base: BaseStoreView,
    path: Seq<char>,
    parent: u64,
    n: NodeRecord,
    at: When,
    w: TablesView,
    d: CacheView,
    a: MadeAnswer,
)
    requires
        c.inv(),
        coherent(v, base, c),
        path_parts(path).len() > 0,
        is_directory(n.state),
        if path_parts(path).len() == 1 {
            parent == v.root
        } else {
            resolved(v, base, path_parts(path).drop_last(), 0) == Answer::Found(
                RespView {
                    item: FsMetaResolvePathItem::Inode { inode_id: parent, inode: n },
                    inner: None,
                },
            )
        },
        makes_dir_at(v, c, base, path, at, w, d, a),
    ensures
        ({
            let place = (parent, path_parts(path).last());
            let taken = v.dentries.contains_key(place) && !(v.dentries[place].target is Tombstone);
            &&& taken ==> w == v && a is Made
            &&& !taken && at.locked ==> w == v && a == MadeAnswer::Refused(MetaError::TxnBeginBusy)
            &&& !taken && takes_new_dir(v, parent, place.1, at) ==> a is Made && (
            w.dentries[place].target matches DentryTarget::IndexNodeId(id) && new_dir_stands(
                v,
                w,
                place,
                id,
                NodeState::DirNormal,
                None,
                at.now,
            ))
        }),
{
    let p = path_parts(path);
    let name = choose|name: String|
        name@ == p.last() && #[trigger] makes_named(v, c, base, p.drop_last(), name, at, w, d, a);
    let (mid, found) = choose|mid: CacheView, found: Result<u64, MadeAnswer>| #[trigger]
        finds_parent(v, c, base, p.drop_last(), mid, found) && match found {
            Err(end) => w == v && d == mid && a == end,
            Ok(id) => makes_in(v, mid, id, name, at, w, d, a),
        };
    if p.len() > 1 {
        let answer = choose|answer: Answer| #[trigger]
            crate::resolve::resolves(v, base, c, p.drop_last(), 0, mid, answer) && found
                == crate::ensure::parent_dir(answer);
        law_cache_is_transparent(v, base, c, p.drop_last(), 0, mid, answer);
    }
    assert(found == Ok::<u64, MadeAnswer>(parent));
    let place = (parent, p.last());
    let taken = v.dentries.contains_key(place) && !(v.dentries[place].target is Tombstone);
    if !taken && takes_new_dir(v, parent, p.last(), at) {
        lemma_alloc_under(v, parent, name, fresh_dir_record(NodeState::DirNormal, None), at.now);
        let made = step_made(v, DirStep::Make, parent, name, at)->Ok_0;
        assert(w == settled(made.0));
        assert(new_dir_stands(v, made.0, place, made.1, NodeState::DirNormal, None, at.now));
        assert(new_dir_stands(v, w, place, made.1, NodeState::DirNormal, None, at.now));
    }
}

/// Where there is no directory for it, none is made.
pub proof fn law_no_directory_without_parent(
    v: TablesView,
    c: CacheView,
    base: BaseStoreView,
    path: Seq<char>,
    at: When,
    w: TablesView,
    d: CacheView,
    a: MadeAnswer,
)
    requires
        c.inv(),
        coherent(v, base, c),
        makes_dir_at(v, c, base, path, at, w, d, a),
        path_parts(path).len() == 0 || (path_parts(path).len() > 1 && !(resolved(
            v,
            base,
            path_parts(path).drop_last(),
            0,
        ) matches Answer::Found(r) && (r.item matches FsMetaResolvePathItem::Inode { inode, .. }
            && is_directory(inode.state)))),
    ensures
        w == v,
        !(a is Made),
{
    let p = path_parts(path);
    if p.len() > 1 {
        let name = choose|name: String|
            name@ == p.last() && #[trigger] makes_named(
                v,
                c,
                base,
                p.drop_last(),
                name,
                at,
                w,
                d,
                a,
            );
        let (mid, found) = choose|mid: CacheView, found: Result<u64, MadeAnswer>| #[trigger]
            finds_parent(v, c, base, p.drop_last(), mid, found) && match found {
                Err(end) => w == v && d == mid && a == end,
                Ok(id) => makes_in(v, mid, id, name, at, w, d, a),
            };
        let answer = choose|answer: Answer| #[trigger]
            crate::resolve::resolves(v, base, c, p.drop_last(), 0, mid, answer) && found
                == crate::ensure::parent_dir(answer);
        law_cache_is_transparent(v, base, c, p.drop_last(), 0, mid, answer);
    }
}

/// A merged listing has each shown name once, in their order: an entry of the
/// directory as it is, and a child of the base as an entry that has neither id nor
/// time.
pub proof fn law_merged_listing_shows_each_name(
    v: TablesView,
    kids: Map<Seq<char>, ObjId>,
    dir: u64,
    r: Seq<DentryRecord>,
    name: Seq<char>,
    i: int,
    j: int,
)
    requires
        is_merged(v, kids, dir, r),
        0 <= i < r.len(),
    ensures
        i < j < r.len() ==> text_lt(r[i].name@, r[j].name@),
        v.dentries.contains_key((dir, r[i].name@)) ==> r[i] == v.dentries[(dir, r[i].name@)] && !(
        r[i].target is Tombstone),
        !v.dentries.contains_key((dir, r[i].name@)) ==> {
            &&& kids.contains_key(r[i].name@)
            &&& r[i].target == DentryTarget::ObjId(kids[r[i].name@])
            &&& r[i].id == 0 && r[i].parent == dir && r[i].mtime is None
        },
        v.dentries.contains_key((dir, name)) && !(v.dentries[(dir, name)].target is Tombstone)
            ==> exists|k: int| 0 <= k < r.len() && (#[trigger] r[k]).name@ == name,
        !v.dentries.contains_key((dir, name)) && kids.contains_key(name) ==> exists|k: int|
            0 <= k < r.len() && (#[trigger] r[k]).name@ == name,
{
    assert(shows(v, kids, dir, r[i].name@) == Some(r[i].target));
    if shows(v, kids, dir, name) is Some {
        assert(crate::listing::has_name(r, name));
    }
}

/// The store says the same of a directory object whether it is asked for one
/// child or for all of them.
pub open spec fn says_the_same(
    base: BaseStoreView,
    dir: ObjId,
    kids: Map<Seq<char>, ObjId>,
    name: Seq<char>,
) -> bool {
    base.children.contains_key((dir.model(), name)) && if kids.contains_key(name) {
        base.children[(dir.model(), name)] == BaseReply::Found(kids[name])
    } else {
        base.children[(dir.model(), name)] == BaseReply::Missing
    }
}

/// A directory shows a name exactly where the path to that name leads somewhere,
/// and shows it with the target that the path leads to.
pub proof fn law_shown_names_are_found(
    v: TablesView,
    base: BaseStoreView,
    kids: Map<Seq<char>, ObjId>,
    p: Path,
    ids: Seq<u64>,
)
    requires
        leads_through(v, p, p.len() - 1, ids),
        v.inode(ids.last()) matches Some(n) && is_directory(n.state),
        base_kids(base, v.inode(ids.last())->0) == Ok::<Map<Seq<char>, ObjId>, Stop>(kids),
        v.inode(ids.last())->0.base_obj_id matches Some(dir) ==> says_the_same(
            base,
            dir,
            kids,
            p.last(),
        ),
        shows(v, kids, ids.last(), p.last()) matches Some(DentryTarget::IndexNodeId(id))
            ==> v.inode(id) is Some,
    ensures
        shows(v, kids, ids.last(), p.last()) is None <==> resolved(v, base, p, 0) is Absent,
        shows(v, kids, ids.last(), p.last()) matches Some(t) ==> (resolved(
            v,
            base,
            p,
            0,
        ) matches Answer::Found(r) && r.inner is None && r.item == match t {
            DentryTarget::IndexNodeId(id) => FsMetaResolvePathItem::Inode {
                inode_id: id,
                inode: v.inode(id)->0,
            },
            DentryTarget::ObjId(o) => FsMetaResolvePathItem::ObjId(o),
            DentryTarget::SymLink(s) => FsMetaResolvePathItem::SymLink(s),
            DentryTarget::Tombstone => arbitrary(),
        }),
{
    let dir = ids.last();
    let name = p.last();
    let n = p.len() - 1;
    if v.dentries.contains_key((dir, name)) {
        match v.dentries[(dir, name)].target {
            DentryTarget::IndexNodeId(id) => {
                law_path_leads_to_the_inode(v, base, p, ids, id, 0);
            },
            DentryTarget::ObjId(o) => {
                law_path_leads_into_the_object(v, base, p, n, ids, o, 0);
            },
            DentryTarget::SymLink(s) => {
                crate::walk_laws::law_link_is_followed(v, base, p, n, ids, s, 0);
            },
            DentryTarget::Tombstone => {
                law_deleted_entry_ends_the_path(v, base, p, n, ids, 0);
            },
        }
    } else if kids.contains_key(name) {
        law_path_leads_into_the_object(v, base, p, n, ids, kids[name], 0);
    } else {
        law_unknown_name_leads_nowhere(v, base, p, n, ids, 0);
    }
}

} // verus!
