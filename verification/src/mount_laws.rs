//! What the kernel is shown of the mounted file system, and what each of its
//! requests leaves behind.

use vstd::prelude::*;
use crate::daemon::{
    child_of, create_mode, open_mode, DaemonView, FileAttr, InodeMeta, OpenBits, OpenHandle,
    PathKind, PathStat, StatAnswer, Time,
};
use crate::daemon_laws::{lemma_numbered_all, lemma_numbered_inv};
use crate::daemon_ops::{
    entry_views, listed_names, meta_changed, numbered_all, reads_dir, rest_of, size_step, DirEntry,
    SetAttr, SizeStep, TimeOrNow,
};
use crate::errno::{code_of, Errno, NdnError};
use crate::inode_table::{under, InodesView};
use crate::path_text_laws::{law_joined_paths_have_both_parts, law_name_is_one_part};
use crate::paths::{path_parts, plain_part, segments};
use crate::xattrs::{
    answers, at, attrs_without, joined_names, set_verdict, value_set, SetBits, XattrMap, XattrReply,
};

verus! {

/// The attributes of a file with this number: its size as the file system says it
/// or as it was counted, and the rest as it is kept.
pub open spec fn tells_of(attr: FileAttr, ino: u64, stat: PathStat, counted: Option<u64>, meta: InodeMeta) -> bool {
    &&& attr.ino == ino
    &&& stat.size matches Some(n) ==> attr.size == n
    &&& stat.size is None && (stat.kind is File || stat.kind is Object) ==> attr.size
        == match counted {
        Some(n) => n,
        None => 0,
    }
    &&& stat.size is None && !(stat.kind is File || stat.kind is Object) ==> attr.size == 0
    &&& attr.kind is Directory <==> stat.kind is Dir
    &&& attr.nlink == if stat.kind is Dir {
        2u32
    } else {
        1
    }
    &&& attr.perm == meta.perm && attr.uid == meta.uid && attr.gid == meta.gid
    &&& attr.atime == meta.atime && attr.mtime == meta.mtime
    &&& attr.ctime == meta.ctime && attr.crtime == meta.crtime
    &&& attr.flags == meta.flags && attr.blksize == 4096 && attr.blocks == 1 && attr.rdev == 0
}

/// What is kept of a file: what was kept before, and of one seen for the first
/// time the usual rights, the owner of the mount and the moment.
pub open spec fn is_kept(v: DaemonView, ino: u64, stat: PathStat, now: Time, meta: InodeMeta) -> bool {
    if v.metas.contains_key(ino) {
        meta == v.metas[ino]
    } else {
        &&& meta.perm == if stat.kind is Dir {
            0o755u16
        } else {
            0o644
        }
        &&& meta.uid == v.uid && meta.gid == v.gid && meta.flags == 0
        &&& meta.atime == now && meta.mtime == now && meta.ctime == now && meta.crtime == now
    }
}

/// The file is shown, and what is shown of it is kept; nothing is kept of any
/// other file that was not before.
pub open spec fn is_shown(
    v: DaemonView,
    w: DaemonView,
    ino: u64,
    stat: PathStat,
    a: StatAnswer,
    attr: FileAttr,
) -> bool {
    &&& w.metas.contains_key(ino)
    &&& is_kept(v, ino, stat, a.now, w.metas[ino])
    &&& tells_of(attr, ino, stat, a.counted, w.metas[ino])
    &&& w.metas == v.metas.insert(ino, w.metas[ino])
    &&& w.xattrs == v.xattrs && w.handles == v.handles && w.next_fh == v.next_fh
}

/// The path has a number, or one can be given to it.
pub open spec fn can_be_numbered(v: InodesView, path: Seq<char>) -> bool {
    v.next < u64::MAX || (exists|i: u64| v.paths.contains_key(i) && #[trigger] v.paths[i] == path)
}

proof fn lemma_numbers(v: InodesView, path: Seq<char>)
    requires
        v.inv(),
        can_be_numbered(v, path),
    ensures
        v.numbered(path).1 matches Some(i) && v.numbered(path).0.paths.contains_key(i)
            && v.numbered(path).0.paths[i] == path,
        forall|j: u64| #[trigger]
            v.paths.contains_key(j) ==> v.numbered(path).0.paths.contains_key(j)
                && v.numbered(path).0.paths[j] == v.paths[j],
{
    if v.next == u64::MAX {
        let i = choose|i: u64| v.paths.contains_key(i) && #[trigger] v.paths[i] == path;
        assert(v.names(i, path));
    }
    lemma_numbered_inv(v, path);
    let w = v.numbered(path).0;
    assert forall|j: u64| #[trigger] v.paths.contains_key(j) implies w.paths.contains_key(j)
        && w.paths[j] == v.paths[j] by {
        assert(v.names(j, v.paths[j]));
        assert(w.names(j, v.paths[j]));
    }
}

/// Looking up a name that the file system has shows it, under the number of its
/// path; a name it does not have is not found.
pub proof fn law_lookup_shows_the_file(
    v: DaemonView,
    parent: u64,
    name: Seq<char>,
    a: StatAnswer,
)
    requires
        v.inodes.inv(),
    ensures
        v.inodes.paths.contains_key(parent) && can_be_numbered(
            v.inodes,
            child_of(v.inodes.paths[parent], name),
        ) && (a.stat matches Ok(s) && !(s.kind is NotFound)) ==> {
            let (w, r) = v.looked_up(parent, name, a);
            &&& r matches Ok(attr)
            &&& w.inodes.paths.contains_key(attr.ino)
            &&& w.inodes.paths[attr.ino] == child_of(v.inodes.paths[parent], name)
            &&& is_shown(v, w, attr.ino, a.stat->Ok_0, a, attr)
            &&& forall|j: u64| #[trigger]
                v.inodes.paths.contains_key(j) ==> w.inodes.paths.contains_key(j)
                    && w.inodes.paths[j] == v.inodes.paths[j]
        },
        !v.inodes.paths.contains_key(parent) || (a.stat matches Ok(s) && s.kind is NotFound)
            ==> v.looked_up(parent, name, a) == (v, Err::<FileAttr, Errno>(Errno::Enoent)),
{
    if v.inodes.paths.contains_key(parent) && can_be_numbered(
        v.inodes,
        child_of(v.inodes.paths[parent], name),
    ) {
        lemma_numbers(v.inodes, child_of(v.inodes.paths[parent], name));
    }
}

/// The attributes of a number that stands for a path the file system has are
/// shown; a number that stands for none is not found.
pub proof fn law_attributes_are_shown(v: DaemonView, ino: u64, a: StatAnswer)
    ensures
        v.inodes.paths.contains_key(ino) && (a.stat matches Ok(s) && !(s.kind is NotFound)) ==> {
            let (w, r) = v.got_attr(ino, a);
            &&& r matches Ok(attr)
            &&& is_shown(v, w, ino, a.stat->Ok_0, a, attr)
            &&& w.inodes == v.inodes
        },
        !v.inodes.paths.contains_key(ino) || (a.stat matches Ok(s) && s.kind is NotFound)
            ==> v.got_attr(ino, a) == (v, Err::<FileAttr, Errno>(Errno::Enoent)),
{
}

/// A file that was created is shown and open: its handle is a new one and stands
/// for the inode that was opened.
pub proof fn law_created_file_is_open(
    v: DaemonView,
    parent: u64,
    name: Seq<char>,
    inode_id: u64,
    a: StatAnswer,
)
    requires
        v.inodes.inv(),
        v.inodes.paths.contains_key(parent),
        can_be_numbered(v.inodes, child_of(v.inodes.paths[parent], name)),
        a.stat is Ok,
        v.next_fh < u64::MAX,
        forall|h: u64| #[trigger] v.handles.contains_key(h) ==> h < v.next_fh,
    ensures
        ({
            let (w, r) = v.created(parent, name, Ok(inode_id), a);
            &&& r matches Ok((attr, fh))
            &&& !v.handles.contains_key(fh)
            &&& w.handles == v.handles.insert(fh, OpenHandle { inode_id })
            &&& forall|h: u64| #[trigger] w.handles.contains_key(h) ==> h < w.next_fh
            &&& w.inodes.paths.contains_key(attr.ino)
            &&& w.inodes.paths[attr.ino] == child_of(v.inodes.paths[parent], name)
            &&& is_kept(v, attr.ino, a.stat->Ok_0, a.now, w.metas[attr.ino])
            &&& tells_of(attr, attr.ino, a.stat->Ok_0, a.counted, w.metas[attr.ino])
        }),
{
    lemma_numbers(v.inodes, child_of(v.inodes.paths[parent], name));
}

/// A file that was opened stays open even where nothing can be told of it; where
/// it was not opened nothing changes.
pub proof fn law_failed_creation_says_why(
    v: DaemonView,
    parent: u64,
    name: Seq<char>,
    inode_id: u64,
    e: NdnError,
    a: StatAnswer,
)
    ensures
        !v.inodes.paths.contains_key(parent) ==> v.created(parent, name, Ok(inode_id), a) == (
            v,
            Err::<(FileAttr, u64), Errno>(Errno::Enoent),
        ),
        v.inodes.paths.contains_key(parent) ==> v.created(parent, name, Err(e), a) == (
            v,
            Err::<(FileAttr, u64), Errno>(code_of(e)),
        ),
        v.inodes.paths.contains_key(parent) && v.next_fh < u64::MAX && a.stat
            == Err::<PathStat, NdnError>(e) ==> {
            let (w, r) = v.created(parent, name, Ok(inode_id), a);
            &&& r == Err::<(FileAttr, u64), Errno>(code_of(e))
            &&& w.handles == v.handles.insert(v.next_fh, OpenHandle { inode_id })
            &&& w.inodes == v.inodes && w.metas == v.metas
        },
{
}

/// A directory that was made is shown under the number of its path.
pub proof fn law_made_directory_is_shown(
    v: DaemonView,
    parent: u64,
    name: Seq<char>,
    a: StatAnswer,
)
    requires
        v.inodes.inv(),
        v.inodes.paths.contains_key(parent),
        can_be_numbered(v.inodes, child_of(v.inodes.paths[parent], name)),
        a.stat is Ok,
    ensures
        ({
            let (w, r) = v.made_dir(parent, name, Ok(()), a);
            &&& r matches Ok(attr)
            &&& w.inodes.paths.contains_key(attr.ino)
            &&& w.inodes.paths[attr.ino] == child_of(v.inodes.paths[parent], name)
            &&& is_shown(v, w, attr.ino, a.stat->Ok_0, a, attr)
        }),
{
    lemma_numbers(v.inodes, child_of(v.inodes.paths[parent], name));
}

/// Unlinking a name forgets what is at its path and below, and nothing else.
pub proof fn law_unlinking_spares_the_rest(
    v: DaemonView,
    parent: u64,
    name: Seq<char>,
    i: u64,
    attr: Seq<u8>,
)
    requires
        v.inodes.paths.contains_key(parent),
    ensures
        ({
            let (w, r) = v.unlinked(parent, name, Ok(()));
            let path = child_of(v.inodes.paths[parent], name);
            &&& r is Ok
            &&& v.inodes.paths.contains_key(i) && !under(path, v.inodes.paths[i]) ==> {
                &&& w.inodes.paths.contains_key(i) && w.inodes.paths[i] == v.inodes.paths[i]
                &&& v.metas.contains_key(i) ==> w.metas.contains_key(i) && w.metas[i] == v.metas[i]
                &&& at(w.xattrs, i, attr) == at(v.xattrs, i, attr)
            }
            &&& v.inodes.paths.contains_key(i) && under(path, v.inodes.paths[i])
                ==> !w.inodes.paths.contains_key(i)
            &&& w.handles == v.handles && w.next_fh == v.next_fh && w.inodes.next == v.inodes.next
        }),
{
}

/// A move changes the paths that numbers stand for, and nothing else.
pub proof fn law_moving_keeps_what_is_kept(
    v: DaemonView,
    parent: u64,
    name: Seq<char>,
    newparent: u64,
    newname: Seq<char>,
)
    requires
        v.inodes.paths.contains_key(parent),
        v.inodes.paths.contains_key(newparent),
    ensures
        ({
            let (w, r) = v.moved(parent, name, newparent, newname, Ok(()));
            &&& r is Ok
            &&& w.metas == v.metas && w.xattrs == v.xattrs && w.handles == v.handles
            &&& w.next_fh == v.next_fh && w.uid == v.uid && w.gid == v.gid
        }),
{
}

/// The path of a child has the components of its directory and then the name, and
/// lies under the directory but not under a sibling.
pub proof fn law_child_lies_in_its_directory(dir: Seq<char>, name: Seq<char>, other: Seq<char>)
    requires
        plain_part(name),
        plain_part(other),
    ensures
        path_parts(child_of(dir, name)) == path_parts(dir).push(name),
        dir != "/"@ ==> under(dir, child_of(dir, name)),
        under(child_of(dir, other), child_of(dir, name)) ==> name == other,
{
    reveal_strlit("/");
    let slash = seq!['/'];
    let e = Seq::<char>::empty();
    assert("/"@ =~= slash);
    law_name_is_one_part(name);
    let head = if dir == "/"@ {
        e
    } else {
        dir
    };
    assert(child_of(dir, name) =~= head + slash + name);
    assert(child_of(dir, other) =~= head + slash + other);
    law_joined_paths_have_both_parts(head, name);
    if dir == "/"@ {
        law_joined_paths_have_both_parts(e, e);
        assert(dir =~= e + slash + e);
        assert(segments(e) =~= seq![e]);
        assert(seq![e].drop_last() =~= Seq::<Seq<char>>::empty());
        assert(crate::paths::nonempty(seq![e].drop_last()) =~= Seq::<Seq<char>>::empty());
        assert(crate::paths::nonempty(seq![e]) =~= Seq::<Seq<char>>::empty());
        assert(path_parts(e) =~= Seq::<Seq<char>>::empty());
        assert(path_parts(dir) =~= Seq::<Seq<char>>::empty());
    }
    assert(path_parts(head) + seq![name] =~= path_parts(dir).push(name));
    let p = child_of(dir, name);
    let q = child_of(dir, other);
    if dir != "/"@ {
        assert(p.subrange(0, (dir + "/"@).len() as int) =~= dir + "/"@);
    }
    if under(q, p) {
        let k = head.len() + 1;
        if p == q {
            assert(name =~= p.skip(k as int));
            assert(other =~= q.skip(k as int));
        } else {
            let s = q + "/"@;
            assert(p.subrange(0, s.len() as int)[s.len() - 1] == s[s.len() - 1]);
            assert(p[s.len() - 1] == '/');
            assert(name[s.len() - 1 - k] == '/');
            assert(name.contains('/'));
        }
    }
}

/// How a file is opened: emptied where that is asked for, appended to where only
/// that is asked for; opening never insists on a new file.
pub proof fn law_open_keeps_unless_told(bits: OpenBits)
    ensures
        open_mode(bits) is CreateOrTruncate <==> bits.truncate,
        open_mode(bits) is Append <==> bits.append && !bits.truncate,
        open_mode(bits) is CreateOrAppend <==> !bits.append && !bits.truncate,
        create_mode(bits) is CreateExclusive <==> bits.exclusive,
        create_mode(bits) is CreateOrTruncate <==> bits.truncate && !bits.exclusive,
        create_mode(bits) is CreateOrAppend <==> !bits.truncate && !bits.exclusive,
{
}

/// A change of attributes changes those it names, to what it names, and no other
/// but the time of the change.
pub proof fn law_only_named_attributes_change(meta: InodeMeta, req: SetAttr, now: Time)
    ensures
        ({
            let m = meta_changed(meta, req, now);
            &&& req.mode is None ==> m.perm == meta.perm
            &&& req.mode matches Some(mode) ==> m.perm == (mode & 0o7777) as u16
            &&& m.uid == match req.uid {
                Some(x) => x,
                None => meta.uid,
            }
            &&& m.gid == match req.gid {
                Some(x) => x,
                None => meta.gid,
            }
            &&& m.flags == match req.flags {
                Some(x) => x,
                None => meta.flags,
            }
            &&& m.atime == match req.atime {
                Some(TimeOrNow::SpecificTime(t)) => t,
                Some(TimeOrNow::Now) => now,
                None => meta.atime,
            }
            &&& m.mtime == match req.mtime {
                Some(TimeOrNow::SpecificTime(t)) => t,
                Some(TimeOrNow::Now) => now,
                None => meta.mtime,
            }
            &&& m.ctime == match req.ctime {
                Some(t) => t,
                None => now,
            }
            &&& m.crtime == match req.crtime {
                Some(t) => t,
                None => meta.crtime,
            }
        }),
{
}

/// A file keeps its content unless its size is set to nothing; another size is
/// taken only from a caller that has the file open, and never for a directory.
pub proof fn law_only_emptying_truncates(attr: FileAttr, req: SetAttr)
    ensures
        size_step(attr, req) == Ok::<SizeStep, Errno>(SizeStep::Truncate) <==> req.size == Some(
            0u64,
        ) && attr.size > 0 && attr.kind is RegularFile,
        req.size is None ==> size_step(attr, req) == Ok::<SizeStep, Errno>(SizeStep::Keep),
        req.size matches Some(n) && attr.kind is Directory ==> size_step(attr, req) == Err::<
            SizeStep,
            Errno,
        >(Errno::Eisdir),
        req.size matches Some(n) && attr.kind is RegularFile && n > 0 && n != attr.size
            ==> size_step(attr, req) == if req.has_handle {
            Ok::<SizeStep, Errno>(SizeStep::Keep)
        } else {
            Err::<SizeStep, Errno>(Errno::Einval)
        },
        attr.kind is RegularFile && req.size == Some(attr.size) ==> size_step(attr, req) == Ok::<
            SizeStep,
            Errno,
        >(SizeStep::Keep),
{
}

/// Changing attributes goes by the file as it is: it is shown first, its content
/// is dealt with, and what was changed is kept and shown.
pub proof fn law_attributes_are_changed(
    v: DaemonView,
    ino: u64,
    req: SetAttr,
    a: StatAnswer,
    e: NdnError,
)
    requires
        v.inodes.paths.contains_key(ino),
        a.stat matches Ok(s) && !(s.kind is NotFound),
        req.size is None,
    ensures
        ({
            let (w, r) = v.change_begun(ino, req, a);
            let shown = v.got_attr(ino, a).1->Ok_0;
            &&& r == Ok::<(SizeStep, u16), Errno>((SizeStep::Keep, shown.perm))
            &&& ({
                let (x, done) = w.change_done(ino, shown.perm, req, Ok(()), a);
                &&& done matches Ok(attr)
                &&& x.metas[ino] == meta_changed(w.metas[ino], req, a.now)
                &&& tells_of(attr, ino, a.stat->Ok_0, a.counted, x.metas[ino])
                &&& x.inodes == v.inodes && x.xattrs == v.xattrs && x.handles == v.handles
            })
            &&& w.change_done(ino, shown.perm, req, Err(e), a) == (
                w,
                Err::<FileAttr, Errno>(code_of(e)),
            )
        }),
{
}

/// Each failure of the file system keeps its meaning: what is not there, what is
/// there already, what has to wait, what is forbidden and what is not offered
/// have codes of their own; the caller's other mistakes share one, and so does
/// all that broke.
pub proof fn law_codes_keep_their_meaning(e: NdnError)
    ensures
        code_of(e) == Errno::Enoent <==> e is NotFound,
        code_of(e) == Errno::Eexist <==> e is AlreadyExists,
        code_of(e) == Errno::Eagain <==> e is NotReady,
        code_of(e) == Errno::Eperm <==> e is PermissionDenied,
        code_of(e) == Errno::Enosys <==> e is Unsupported,
        code_of(e) == Errno::Einval <==> e is InvalidParam || e is OffsetTooLarge
            || e is InvalidObjType || e is InvalidData || e is InvalidId || e is InvalidLink,
        code_of(e) == Errno::Eio <==> e is InvalidState || e is IoError || e is DbError
            || e is Internal || e is VerifyError || e is InComplete || e is RemoteError
            || e is DecodeError,
{
}

/// An attribute is set unless it may not be there and is, has to be there and is
/// not, or both was asked for.
pub proof fn law_attribute_is_set_unless_told(bits: SetBits, exists: bool)
    ensures
        set_verdict(bits, exists) is None <==> !(bits.create && exists) && !(bits.replace
            && !exists) && !(bits.create && bits.replace),
        bits.create && !bits.replace && exists ==> set_verdict(bits, exists) == Some(Errno::Eexist),
        bits.replace && !bits.create && !exists ==> set_verdict(bits, exists) == Some(
            Errno::NoAttr,
        ),
        bits.create && bits.replace ==> set_verdict(bits, exists) == Some(Errno::Einval),
{
}

/// Writing a part of an attribute changes just that part: what was before and
/// behind it stays, and a gap is filled with zeros.  From the start on an
/// attribute is set as a whole.
pub proof fn law_part_of_attribute_is_written(
    old: Option<Seq<u8>>,
    position: u32,
    value: Seq<u8>,
    i: int,
)
    ensures
        position == 0 ==> value_set(old, position, value) == value,
        position > 0 ==> {
            let before = match old {
                Some(s) => s,
                None => Seq::<u8>::empty(),
            };
            let after = value_set(old, position, value);
            let end = position + value.len();
            &&& after.len() == if before.len() > end {
                before.len() as int
            } else {
                end as int
            }
            &&& 0 <= i < value.len() ==> after[position + i] == value[i]
            &&& 0 <= i < before.len() && (i < position || i >= end) ==> after[i] == before[i]
            &&& before.len() <= i < position ==> after[i] == 0u8
        },
{
}

/// A request for an attribute without room is told how much there is; with too
/// little room it fails; with enough it gets the bytes.
pub proof fn law_attribute_needs_room(r: Result<XattrReply, Errno>, data: Seq<u8>, size: u32)
    requires
        answers(r, data, size),
        data.len() <= u32::MAX,
    ensures
        size == 0 ==> (r matches Ok(XattrReply::Size(n)) && n == data.len()),
        0 < size < data.len() ==> r == Err::<XattrReply, Errno>(Errno::Erange),
        size > 0 && size >= data.len() ==> (r matches Ok(XattrReply::Data(d)) && d@ == data),
{
}

/// A name holds no zero byte.
pub open spec fn zero_free(names: Seq<Seq<u8>>) -> bool {
    forall|i: int, j: int|
        0 <= i < names.len() && 0 <= j < names[i].len() ==> #[trigger] names[i][j] != 0u8
}

/// The names in a list of attributes can be told from it, in their order.
pub proof fn law_names_can_be_told_apart(a: Seq<Seq<u8>>, b: Seq<Seq<u8>>)
    requires
        zero_free(a),
        zero_free(b),
        joined_names(a) == joined_names(b),
    ensures
        a == b,
    decreases a.len(),
{
    let s = joined_names(a);
    if a.len() == 0 {
        if b.len() > 0 {
            assert(joined_names(b).len() > 0);
        }
        assert(a =~= b);
    } else if b.len() == 0 {
        assert(joined_names(a).len() > 0);
    } else {
        let la = a.last();
        let lb = b.last();
        let xa = joined_names(a.drop_last());
        let xb = joined_names(b.drop_last());
        let n = s.len() as int;
        lemma_ends_in_zero(a.drop_last());
        lemma_ends_in_zero(b.drop_last());
        assert(s == xa + la.push(0));
        assert(s == xb + lb.push(0));
        assert(n == xa.len() + la.len() + 1);
        assert(n == xb.len() + lb.len() + 1);
        if la.len() < lb.len() {
            assert(xa.len() > 0);
            assert(s[xa.len() - 1] == 0u8);
            let j = xa.len() - 1 - xb.len();
            assert(s[xa.len() - 1] == lb[j]);
            assert(b[b.len() - 1][j] != 0u8);
        } else if lb.len() < la.len() {
            assert(xb.len() > 0);
            assert(s[xb.len() - 1] == 0u8);
            let j = xb.len() - 1 - xa.len();
            assert(s[xb.len() - 1] == la[j]);
            assert(a[a.len() - 1][j] != 0u8);
        } else {
            assert(xa =~= s.take(xa.len() as int));
            assert(xb =~= s.take(xb.len() as int));
            assert forall|j: int| 0 <= j < la.len() implies la[j] == lb[j] by {
                assert(s[xa.len() + j] == la[j]);
                assert(s[xb.len() + j] == lb[j]);
            }
            assert(la =~= lb);
            assert(zero_free(a.drop_last())) by {
                assert forall|i: int, j: int|
                    0 <= i < a.drop_last().len() && 0 <= j < a.drop_last()[i].len() implies
                    #[trigger] a.drop_last()[i][j] != 0u8 by {
                    assert(a[i][j] != 0u8);
                }
            }
            assert(zero_free(b.drop_last())) by {
                assert forall|i: int, j: int|
                    0 <= i < b.drop_last().len() && 0 <= j < b.drop_last()[i].len() implies
                    #[trigger] b.drop_last()[i][j] != 0u8 by {
                    assert(b[i][j] != 0u8);
                }
            }
            law_names_can_be_told_apart(a.drop_last(), b.drop_last());
            assert(a =~= a.drop_last().push(la));
            assert(b =~= b.drop_last().push(lb));
        }
    }
}

proof fn lemma_ends_in_zero(names: Seq<Seq<u8>>)
    ensures
        joined_names(names).len() > 0 ==> joined_names(names).last() == 0u8,
{
}

/// The lines of a directory show its children in the order of the list: each by
/// its name, as a directory where it is one, and under the number of its path.
pub proof fn law_lines_show_the_children(
    v: DaemonView,
    w: DaemonView,
    ino: u64,
    list: Vec<(String, PathKind)>,
    r: Result<Vec<DirEntry>, Errno>,
    j: int,
)
    requires
        v.inodes.inv(),
        v.inodes.paths.contains_key(ino),
        reads_dir(v, w, ino, 0, Ok(list), r),
        r is Ok,
        0 <= j < list@.len(),
    ensures
        ({
            let all = entry_views(r->Ok_0@);
            &&& all.len() == list@.len() + 2
            &&& all[j + 2].name == list@[j].0@
            &&& all[j + 2].kind is Directory <==> list@[j].1 is Dir
            &&& w.inodes.paths.contains_key(all[j + 2].ino)
            &&& w.inodes.paths[all[j + 2].ino] == child_of(v.inodes.paths[ino], list@[j].0@)
        }),
{
    let l = list@;
    let dir = v.inodes.paths[ino];
    let names = listed_names(l);
    assert(rest_of(l, 0) =~= l);
    lemma_numbered_all(v.inodes, dir, names);
    let ids = numbered_all(v.inodes, dir, names).1->0;
    assert(w.inodes.names(ids[j], child_of(dir, names[j])));
}

/// While numbers are left a directory that the file system lists can be read.
pub proof fn law_listed_directory_is_read(
    v: DaemonView,
    w: DaemonView,
    ino: u64,
    offset: int,
    list: Vec<(String, PathKind)>,
    r: Result<Vec<DirEntry>, Errno>,
)
    requires
        v.inodes.inv(),
        v.inodes.paths.contains_key(ino),
        reads_dir(v, w, ino, offset, Ok(list), r),
        v.inodes.next + list@.len() < u64::MAX,
        offset >= 0,
    ensures
        r is Ok,
        w.metas == v.metas && w.xattrs == v.xattrs && w.handles == v.handles,
{
    lemma_enough_numbers(
        v.inodes,
        v.inodes.paths[ino],
        listed_names(rest_of(list@, offset)),
    );
}

proof fn lemma_enough_numbers(v: InodesView, dir: Seq<char>, names: Seq<Seq<char>>)
    requires
        v.next + names.len() < u64::MAX,
    ensures
        numbered_all(v, dir, names).1 is Some,
        numbered_all(v, dir, names).0.next <= v.next + names.len(),
    decreases names.len(),
{
    if names.len() > 0 {
        lemma_enough_numbers(v, dir, names.drop_last());
    }
}

/// The attributes of files that are gone go with them, and no others.
pub proof fn law_attributes_go_with_their_file(m: XattrMap, gone: Seq<u64>, ino: u64, name: Seq<u8>)
    ensures
        gone.contains(ino) ==> at(attrs_without(m, gone), ino, name) is None,
        !gone.contains(ino) ==> at(attrs_without(m, gone), ino, name) == at(m, ino, name),
{
}

/// A writer that was opened is kept under a new handle: through it the bytes are
/// written to the inode that was opened, until it is given up; then the handle
/// stands for nothing.  Other handles are not touched.
pub proof fn law_handle_stands_for_its_writer(
    v: DaemonView,
    inode_id: u64,
    len: usize,
    e: NdnError,
    other: u64,
)
    requires
        v.next_fh < u64::MAX,
        forall|h: u64| #[trigger] v.handles.contains_key(h) ==> h < v.next_fh,
    ensures
        ({
            let (w, r) = v.kept(Ok(inode_id));
            &&& r matches Ok(fh)
            &&& !v.handles.contains_key(fh)
            &&& w.writer_at(fh) == Ok::<OpenHandle, Errno>(OpenHandle { inode_id })
            &&& w.wrote(fh, len, Ok(())) == Ok::<usize, Errno>(len)
            &&& w.wrote(fh, len, Err(e)) == Err::<usize, Errno>(code_of(e))
            &&& w.gave_up(fh).1 == Some(OpenHandle { inode_id })
            &&& w.gave_up(fh).0.handles == v.handles
            &&& w.gave_up(fh).0.writer_at(fh) == Err::<OpenHandle, Errno>(Errno::Ebadf)
            &&& w.gave_up(fh).0.wrote(fh, len, Ok(())) == Err::<usize, Errno>(Errno::Ebadf)
            &&& w.inodes == v.inodes && w.metas == v.metas && w.xattrs == v.xattrs
            &&& v.handles.contains_key(other) ==> w.writer_at(other) == Ok::<OpenHandle, Errno>(
                v.handles[other],
            )
            &&& forall|h: u64| #[trigger] w.handles.contains_key(h) ==> h < w.next_fh
        }),
        v.kept(Err(e)) == (v, Err::<u64, Errno>(code_of(e))),
{
    let w = v.kept(Ok(inode_id)).0;
    assert(w.handles.remove(v.next_fh) =~= v.handles);
}

} // verus!
