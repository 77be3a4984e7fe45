//! What holds of the mounted file system as a whole.

use vstd::prelude::*;
use crate::daemon::{child_of, DaemonView, FileType, PathKind, StatAnswer};
use crate::daemon_ops::{
    dots, entry_views, lines_of, listed_names, meta_changed, numbered_all, read_begun, reads_dir,
    rest_of, DirEntry, EntryView, ReadView, SetAttr,
};
use crate::errno::{Errno, NdnError};
use crate::inode_table::{
    lemma_moved_under, moved_path, paths_renamed, under, InodesView,
};
use crate::xattrs::{at, value_set, XattrMap};

verus! {

/// A renamed path keeps its number, and so does everything below it.
pub proof fn law_rename_keeps_numbers(v: InodesView, old: Seq<char>, new: Seq<char>, i: u64)
    requires
        v.paths.contains_key(i),
        under(old, v.paths[i]),
    ensures
        v.renamed(old, new).names(i, moved_path(v.paths[i], old, new)),
        v.paths[i] == old ==> v.renamed(old, new).names(i, new),
{
    let p = v.paths[i];
    assert(v.has_under(old));
    if p == old {
        assert(p.skip(old.len() as int) =~= Seq::<char>::empty());
        assert(moved_path(p, old, new) =~= new);
    }
}

/// What a rename replaces loses its number; what lies elsewhere is untouched.
pub proof fn law_rename_leaves_the_rest(v: InodesView, old: Seq<char>, new: Seq<char>, i: u64)
    requires
        v.paths.contains_key(i),
        !under(old, v.paths[i]),
        v.has_under(old),
    ensures
        under(new, v.paths[i]) ==> !v.renamed(old, new).paths.contains_key(i),
        !under(new, v.paths[i]) ==> v.renamed(old, new).names(i, v.paths[i]),
{
}

/// Renaming back undoes a rename that replaced nothing.
pub proof fn law_rename_back(v: InodesView, old: Seq<char>, new: Seq<char>)
    requires
        !v.has_under(new),
    ensures
        v.renamed(old, new).renamed(new, old) == v,
{
    let w = v.renamed(old, new);
    if v.has_under(old) {
        let j = choose|j: u64| v.paths.contains_key(j) && under(old, #[trigger] v.paths[j]);
        lemma_moved_under(v.paths[j], old, new);
        assert(w.paths.contains_key(j) && under(new, w.paths[j]));
        assert(w.has_under(new));
        let back = paths_renamed(w.paths, new, old);
        assert forall|i: u64| #[trigger] v.paths.contains_key(i) implies back.contains_key(i)
            && back[i] == v.paths[i] by {
            assert(!under(new, v.paths[i]));
            if under(old, v.paths[i]) {
                lemma_moved_under(v.paths[i], old, new);
                let tail = v.paths[i].skip(old.len() as int);
                assert((new + tail).skip(new.len() as int) =~= tail);
            }
        }
        assert(back =~= v.paths);
    }
}

/// A path that has a number keeps it however often it is asked for, and giving
/// one to another path does not change it.
pub proof fn law_numbers_are_stable(v: InodesView, path: Seq<char>, i: u64)
    requires
        v.inv(),
        v.paths.contains_key(i),
    ensures
        v.numbered(v.paths[i]) == (v, Some(i)),
        v.numbered(path).0.names(i, v.paths[i]),
        v.numbered(path).0.inv(),
{
    lemma_number_is(v, v.paths[i], i);
    lemma_numbered_inv(v, path);
}

pub proof fn lemma_number_is(v: InodesView, path: Seq<char>, i: u64)
    requires
        v.inv(),
        v.names(i, path),
    ensures
        v.numbered(path) == (v, Some(i)),
{
    assert(v.knows(path));
    let n = v.number_of(path);
    assert(v.names(n, path));
    assert(v.paths[n] == v.paths[i]);
}

pub proof fn lemma_numbered_inv(v: InodesView, path: Seq<char>)
    requires
        v.inv(),
    ensures
        v.numbered(path).0.inv(),
        v.numbered(path).1 matches Some(i) ==> v.numbered(path).0.names(i, path),
        forall|i: u64, p: Seq<char>| v.names(i, p) ==> #[trigger] v.numbered(path).0.names(i, p),
{
    let w = v.numbered(path).0;
    if v.knows(path) {
        assert(v.names(v.number_of(path), path));
    } else if v.next < u64::MAX {
        assert forall|a: u64, b: u64|
            w.paths.contains_key(a) && w.paths.contains_key(b) && #[trigger] w.paths[a]
                == #[trigger] w.paths[b] implies a == b by {
            if a == v.next && b != v.next {
                assert(v.names(b, path));
            }
            if b == v.next && a != v.next {
                assert(v.names(a, path));
            }
        }
    }
}

/// A number given anew was never in use.
pub proof fn law_new_number_is_new(v: InodesView, path: Seq<char>)
    requires
        v.inv(),
        !v.knows(path),
        v.next < u64::MAX,
    ensures
        v.numbered(path).1 == Some(v.next),
        !v.paths.contains_key(v.next),
        v.numbered(path).0.next > v.next,
{
}

/// What was removed has no number any more, nor has anything below it; all else
/// keeps its own.
pub proof fn law_removed_is_forgotten(v: InodesView, dir: Seq<char>, path: Seq<char>, i: u64)
    ensures
        under(dir, path) ==> !v.without(dir).knows(path),
        v.names(i, path) && !under(dir, path) ==> v.without(dir).names(i, path),
{
    if v.without(dir).knows(path) {
        let n = v.without(dir).number_of(path);
        assert(v.without(dir).names(n, path));
    }
}

/// A file that was moved is found under its new name with the number that it had.
pub proof fn law_moved_file_keeps_number(
    v: DaemonView,
    parent: u64,
    name: Seq<char>,
    newparent: u64,
    newname: Seq<char>,
    i: u64,
    a: StatAnswer,
)
    requires
        v.inodes.inv(),
        v.target(parent, name) is Some,
        v.target(newparent, newname) is Some,
        v.inodes.names(i, v.target(parent, name)->0),
        a.stat matches Ok(s) && s.kind != PathKind::NotFound,
    ensures
        ({
            let w = v.moved(parent, name, newparent, newname, Ok(())).0;
            &&& w.inodes.names(i, v.target(newparent, newname)->0)
            &&& w.target(newparent, newname) == v.target(newparent, newname) ==> {
                &&& w.looked_up(newparent, newname, a).1 is Ok
                &&& w.looked_up(newparent, newname, a).1->Ok_0.ino == i
            }
        }),
{
    let from = v.target(parent, name)->0;
    let to = v.target(newparent, newname)->0;
    law_rename_keeps_numbers(v.inodes, from, to, i);
    crate::inode_table::lemma_renamed_inv(v.inodes, from, to);
    let w = v.moved(parent, name, newparent, newname, Ok(())).0;
    lemma_number_is(w.inodes, to, i);
}

/// Nothing is kept of a file that was unlinked: no number, no attributes.
pub proof fn law_unlinked_file_is_forgotten(
    v: DaemonView,
    parent: u64,
    name: Seq<char>,
    i: u64,
    attr: Seq<u8>,
)
    requires
        v.target(parent, name) is Some,
        v.inodes.paths.contains_key(i),
        under(v.target(parent, name)->0, v.inodes.paths[i]),
    ensures
        ({
            let w = v.unlinked(parent, name, Ok(())).0;
            &&& !w.inodes.paths.contains_key(i)
            &&& !w.metas.contains_key(i)
            &&& at(w.xattrs, i, attr) is None
        }),
{
}

/// A request that fails leaves names, handles and extended attributes alone.
pub proof fn law_failed_request_changes_nothing(
    v: DaemonView,
    parent: u64,
    name: Seq<char>,
    newparent: u64,
    newname: Seq<char>,
    e: NdnError,
    a: StatAnswer,
)
    ensures
        v.made_dir(parent, name, Err(e), a).0 == v,
        v.created(parent, name, Err(e), a).0 == v,
        v.unlinked(parent, name, Err(e)).0 == v,
        v.moved(parent, name, newparent, newname, Err(e)).0 == v,
        v.looked_up(parent, name, StatAnswer { stat: Err(e), ..a }).0 == v,
{
}

pub proof fn lemma_numbered_all(v: InodesView, dir: Seq<char>, names: Seq<Seq<char>>)
    requires
        v.inv(),
    ensures
        numbered_all(v, dir, names).0.inv(),
        numbered_all(v, dir, names).1 matches Some(ids) ==> {
            &&& ids.len() == names.len()
            &&& forall|j: int|
                0 <= j < names.len() ==> numbered_all(v, dir, names).0.names(
                    #[trigger] ids[j],
                    child_of(dir, names[j]),
                )
        },
    decreases names.len(),
{
    if names.len() > 0 {
        let init = names.drop_last();
        lemma_numbered_all(v, dir, init);
        let (w, ids) = numbered_all(v, dir, init);
        lemma_numbered_inv(w, child_of(dir, names.last()));
        if let Some(ids) = ids {
            let (x, id) = w.numbered(child_of(dir, names.last()));
            if id is Some {
                let all = ids.push(id->0);
                assert forall|j: int| 0 <= j < names.len() implies x.names(
                    #[trigger] all[j],
                    child_of(dir, names[j]),
                ) by {
                    if j < init.len() {
                        assert(all[j] == ids[j]);
                        assert(w.names(ids[j], child_of(dir, init[j])));
                    }
                }
            }
        }
    }
}

proof fn lemma_numbered_again(
    w: InodesView,
    dir: Seq<char>,
    names: Seq<Seq<char>>,
    ids: Seq<u64>,
)
    requires
        w.inv(),
        ids.len() == names.len(),
        forall|j: int|
            0 <= j < names.len() ==> w.names(#[trigger] ids[j], child_of(dir, names[j])),
    ensures
        numbered_all(w, dir, names) == (w, Some(ids)),
    decreases names.len(),
{
    if names.len() == 0 {
        assert(ids =~= Seq::<u64>::empty());
    } else {
        let n = names.len() - 1;
        assert forall|j: int| 0 <= j < n implies w.names(
            #[trigger] ids.drop_last()[j],
            child_of(dir, names.drop_last()[j]),
        ) by {
            assert(ids.drop_last()[j] == ids[j]);
        }
        lemma_numbered_again(w, dir, names.drop_last(), ids.drop_last());
        lemma_number_is(w, child_of(dir, names.last()), ids[n]);
        assert(ids.drop_last().push(ids[n]) =~= ids);
    }
}

/// A listing that is taken up at a line goes on with the same lines that a
/// listing in one go has there.
pub proof fn law_listing_continues(
    v: InodesView,
    dir: Seq<char>,
    list: Seq<(String, PathKind)>,
    names: Seq<Seq<char>>,
    ids: Seq<u64>,
    m: int,
)
    requires
        v.inv(),
        names == crate::daemon_ops::listed_names(list),
        numbered_all(v, dir, names).1 == Some(ids),
        0 <= m <= list.len(),
    ensures
        numbered_all(numbered_all(v, dir, names).0, dir, names.skip(m)) == (
            numbered_all(v, dir, names).0,
            Some(ids.skip(m)),
        ),
        lines_of(list.skip(m), ids.skip(m), 2 + m) == lines_of(list, ids, 2).skip(m),
{
    lemma_numbered_all(v, dir, names);
    let w = numbered_all(v, dir, names).0;
    assert forall|j: int| 0 <= j < names.skip(m).len() implies w.names(
        #[trigger] ids.skip(m)[j],
        child_of(dir, names.skip(m)[j]),
    ) by {
        assert(ids.skip(m)[j] == ids[m + j]);
        assert(names.skip(m)[j] == names[m + j]);
    }
    lemma_numbered_again(w, dir, names.skip(m), ids.skip(m));
    assert(lines_of(list.skip(m), ids.skip(m), 2 + m) =~= lines_of(list, ids, 2).skip(m));
}

/// What a read has gathered when the stream has given `seen`.
pub open spec fn has_read(t: ReadView, offset: nat, size: nat, seen: Seq<u8>) -> bool {
    &&& t.size == size
    &&& t.inv()
    &&& if seen.len() < offset {
        t.skip == offset - seen.len() && t.out.len() == 0
    } else {
        t.skip == 0 && t.out == seen.skip(offset as int) && t.done == (t.out.len() == size)
    }
}

/// However the stream cuts the file, a read gathers exactly the bytes from
/// `offset` on, until it has `size` of them.
pub proof fn law_read_takes_the_piece(
    t: ReadView,
    offset: nat,
    size: nat,
    seen: Seq<u8>,
    data: Seq<u8>,
)
    requires
        has_read(t, offset, size, seen),
        !t.done,
        0 < data.len() <= t.wants(),
    ensures
        has_read(t.fed(data), offset, size, seen + data),
{
    if seen.len() < offset {
        if seen.len() + data.len() == offset {
            assert((seen + data).skip(offset as int) =~= Seq::<u8>::empty());
            assert(t.out =~= Seq::<u8>::empty());
        }
    } else {
        assert((seen + data).skip(offset as int) =~= seen.skip(offset as int) + data);
    }
}

/// A read begins with nothing gathered, and at the end of the stream it has
/// what the file holds behind `offset`.
pub proof fn law_read_begins_and_ends(
    offset: i64,
    size: u32,
    t: ReadView,
    seen: Seq<u8>,
)
    requires
        offset >= 0,
        has_read(t, offset as nat, size as nat, seen),
    ensures
        has_read(read_begun(offset, size), offset as nat, size as nat, Seq::empty()),
        t.fed(Seq::empty()).done,
        t.fed(Seq::empty()).out == if seen.len() < offset {
            Seq::<u8>::empty()
        } else {
            seen.skip(offset as int)
        },
{
    assert(Seq::<u8>::empty().skip(0) =~= Seq::<u8>::empty());
    if seen.len() < offset {
        assert(t.out =~= Seq::<u8>::empty());
    }
}

/// What a change of attributes asks for is what is shown afterwards.
pub proof fn law_changed_attributes_show(
    v: DaemonView,
    ino: u64,
    perm: u16,
    req: SetAttr,
    a: StatAnswer,
)
    ensures
        ({
            let (w, r) = v.change_done(ino, perm, req, Ok(()), a);
            let meta = meta_changed(v.meta_of(ino, perm, a.now), req, a.now);
            &&& w.metas[ino] == meta
            &&& r matches Ok(attr) ==> {
                &&& attr.perm == meta.perm
                &&& attr.uid == meta.uid
                &&& attr.gid == meta.gid
                &&& attr.atime == meta.atime
                &&& attr.mtime == meta.mtime
                &&& attr.ctime == meta.ctime
                &&& attr.crtime == meta.crtime
                &&& attr.flags == meta.flags
            }
        }),
{
}

/// An attribute reads back as it was set, and setting it touches no other.
pub proof fn law_set_attribute_reads_back(
    m: XattrMap,
    ino: u64,
    name: Seq<u8>,
    value: Seq<u8>,
    other: (u64, Seq<u8>),
)
    ensures
        at(m.insert((ino, name), value_set(at(m, ino, name), 0, value)), ino, name) == Some(value),
        other != (ino, name) ==> at(
            m.insert((ino, name), value_set(at(m, ino, name), 0, value)),
            other.0,
            other.1,
        ) == at(m, other.0, other.1),
        at(m.remove((ino, name)), ino, name) is None,
{
}

/// A listing in one go begins with the directory itself and its parent, numbers
/// its lines from one on, and a listing taken up behind any later line gives the
/// lines from there on.
pub proof fn law_listing_is_one(
    v: DaemonView,
    w: DaemonView,
    x: DaemonView,
    ino: u64,
    offset: int,
    list: Result<Vec<(String, PathKind)>, NdnError>,
    full: Result<Vec<DirEntry>, Errno>,
    part: Result<Vec<DirEntry>, Errno>,
)
    requires
        v.inodes.inv(),
        reads_dir(v, w, ino, 0, list, full),
        full is Ok,
        offset >= 2,
        reads_dir(w, x, ino, offset, list, part),
    ensures
        ({
            let all = entry_views(full->Ok_0@);
            &&& all.len() >= 2
            &&& all[0] == (EntryView {
                ino,
                kind: FileType::Directory,
                name: "."@,
                offset: 1,
            })
            &&& all[1] == (EntryView {
                ino,
                kind: FileType::Directory,
                name: ".."@,
                offset: 2,
            })
            &&& forall|i: int| 0 <= i < all.len() ==> (#[trigger] all[i]).offset == i + 1
            &&& x == w
            &&& part is Ok
            &&& entry_views(part->Ok_0@) == all.skip(if offset < all.len() {
                offset
            } else {
                all.len() as int
            })
        }),
{
    let l = list->Ok_0@;
    let dir = v.inodes.paths[ino];
    let names = listed_names(l);
    let all = entry_views(full->Ok_0@);
    assert(rest_of(l, 0) =~= l);
    let ids = numbered_all(v.inodes, dir, names).1->0;
    lemma_numbered_all(v.inodes, dir, names);
    assert(w.inodes.names(ino, dir)) by {
        lemma_numbering_keeps(v.inodes, dir, names, ino);
    }
    let m = if offset - 2 < l.len() {
        offset - 2
    } else {
        l.len() as int
    };
    assert(rest_of(l, offset) =~= l.skip(m));
    assert(listed_names(l.skip(m)) =~= names.skip(m));
    law_listing_continues(v.inodes, dir, l, names, ids, m);
    assert(all =~= dots(ino) + lines_of(l, ids, 2));
    if m < l.len() {
        assert(entry_views(part->Ok_0@) =~= all.skip(offset));
    } else {
        assert(entry_views(part->Ok_0@) =~= all.skip(all.len() as int));
    }
}

proof fn lemma_numbering_keeps(v: InodesView, dir: Seq<char>, names: Seq<Seq<char>>, ino: u64)
    requires
        v.inv(),
        v.paths.contains_key(ino),
    ensures
        numbered_all(v, dir, names).0.paths.contains_key(ino),
        numbered_all(v, dir, names).0.paths[ino] == v.paths[ino],
    decreases names.len(),
{
    if names.len() > 0 {
        lemma_numbering_keeps(v, dir, names.drop_last(), ino);
        lemma_numbered_all(v, dir, names.drop_last());
        let (w, ids) = numbered_all(v, dir, names.drop_last());
        if ids is Some {
            law_numbers_are_stable(w, child_of(dir, names.last()), ino);
        }
    }
}

} // verus!
