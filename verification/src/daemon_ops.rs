//! Requests of the kernel that take more than one look at a path: listing,
//! reading, and changing attributes.

use vstd::prelude::*;
use crate::daemon::{
    child_of, child_path, type_of, Answered, DaemonView, FileAttr, FileType, FsDaemon, InodeMeta,
    PathKind, StatAnswer, Time,
};
use crate::errno::{code_of, map_ndn_err, Errno, NdnError};
use crate::inode_table::InodesView;

verus! {

/// A line of a directory listing.  `offset` is where the next one begins.
#[derive(Debug, Clone, PartialEq, Eq)]
pub struct DirEntry {
    pub ino: u64,
    pub kind: FileType,
    pub name: String,
    pub offset: i64,
}

#[verifier::ext_equal]
pub ghost struct EntryView {
    pub ino: u64,
    pub kind: FileType,
    pub name: Seq<char>,
    pub offset: int,
}

impl View for DirEntry {
    type V = EntryView;

    open spec fn view(&self) -> EntryView {
        EntryView {
            ino: self.ino,
            kind: self.kind,
            name: self.name@,
            offset: self.offset as int,
        }
    }
}

pub open spec fn entry_views(entries: Seq<DirEntry>) -> Seq<EntryView> {
    entries.map_values(|e: DirEntry| e@)
}

/// The table once every one of these children of `dir` has a number, and the
/// numbers; none when they have run out.
pub open spec fn numbered_all(v: InodesView, dir: Seq<char>, names: Seq<Seq<char>>) -> (
    InodesView,
    Option<Seq<u64>>,
)
    decreases names.len(),
{
    if names.len() == 0 {
        (v, Some(Seq::empty()))
    } else {
        let (w, ids) = numbered_all(v, dir, names.drop_last());
        match ids {
            None => (w, None),
            Some(ids) => {
                let (x, id) = w.numbered(child_of(dir, names.last()));
                (
                    x,
                    if id is Some {
                        Some(ids.push(id->0))
                    } else {
                        None
                    },
                )
            },
        }
    }
}

/// How many lines of the directory come before `offset`; the first two lines
/// are the directory itself and its parent.
pub open spec fn lines_before(offset: int) -> int {
    if offset > 2 {
        offset - 2
    } else {
        0
    }
}

pub open spec fn listed_names(list: Seq<(String, PathKind)>) -> Seq<Seq<char>> {
    list.map_values(|e: (String, PathKind)| e.0@)
}

/// The part of the list that follows `offset`.
pub open spec fn rest_of(list: Seq<(String, PathKind)>, offset: int) -> Seq<(String, PathKind)> {
    if lines_before(offset) >= list.len() {
        Seq::empty()
    } else {
        list.skip(lines_before(offset))
    }
}

pub open spec fn dots(ino: u64) -> Seq<EntryView> {
    seq![
        EntryView { ino, kind: FileType::Directory, name: "."@, offset: 1 },
        EntryView { ino, kind: FileType::Directory, name: ".."@, offset: 2 },
    ]
}

/// The lines that show `rest` with these numbers, behind the line `base`.
pub open spec fn lines_of(rest: Seq<(String, PathKind)>, ids: Seq<u64>, base: int) -> Seq<
    EntryView,
> {
    Seq::new(
        ids.len(),
        |j: int|
            EntryView {
                ino: ids[j],
                kind: type_of(rest[j].1),
                name: rest[j].0@,
                offset: base + 1 + j,
            },
    )
}

/// `r` and the table `after` answer a request for the lines of `ino` behind `offset`.
pub open spec fn reads_dir(
    before: DaemonView,
    after: DaemonView,
    ino: u64,
    offset: int,
    list: Result<Vec<(String, PathKind)>, NdnError>,
    r: Result<Vec<DirEntry>, Errno>,
) -> bool {
    if !before.inodes.paths.contains_key(ino) {
        after == before && r == Err::<Vec<DirEntry>, Errno>(Errno::Enoent)
    } else {
        match list {
            Err(e) => after == before && r == Err::<Vec<DirEntry>, Errno>(code_of(e)),
            Ok(list) => {
                let rest = rest_of(list@, offset);
                let (inodes, ids) = numbered_all(
                    before.inodes,
                    before.inodes.paths[ino],
                    listed_names(rest),
                );
                &&& after == DaemonView { inodes, ..before }
                &&& match ids {
                    None => r == Err::<Vec<DirEntry>, Errno>(Errno::Eio),
                    Some(ids) => {
                        &&& r is Ok
                        &&& entry_views(r->Ok_0@) == (if offset == 0 {
                            dots(ino) + lines_of(rest, ids, 2)
                        } else {
                            lines_of(rest, ids, offset)
                        })
                    },
                }
            },
        }
    }
}

/// A time, or the moment of the request.
#[derive(Debug, Clone, Copy, PartialEq, Eq, Structural)]
pub enum TimeOrNow {
    SpecificTime(Time),
    Now,
}

/// A request to change attributes; what is not named stays.
#[derive(Debug, Clone, Copy, PartialEq, Eq)]
pub struct SetAttr {
    pub mode: Option<u32>,
    pub uid: Option<u32>,
    pub gid: Option<u32>,
    pub size: Option<u64>,
    pub atime: Option<TimeOrNow>,
    pub mtime: Option<TimeOrNow>,
    pub ctime: Option<Time>,
    pub crtime: Option<Time>,
    pub flags: Option<u32>,
    /// The file is open under a handle of the caller.
    pub has_handle: bool,
}

pub open spec fn moment(t: TimeOrNow, now: Time) -> Time {
    match t {
        TimeOrNow::SpecificTime(t) => t,
        TimeOrNow::Now => now,
    }
}

/// The value named, or the one there was.
pub open spec fn or_kept<T>(new: Option<T>, old: T) -> T {
    match new {
        Some(v) => v,
        None => old,
    }
}

/// What is kept of a file once its attributes are changed.  A change leaves its
/// own time unless it names another.
pub open spec fn meta_changed(meta: InodeMeta, req: SetAttr, now: Time) -> InodeMeta {
    InodeMeta {
        perm: match req.mode {
            Some(mode) => (mode & 0o7777) as u16,
            None => meta.perm,
        },
        uid: or_kept(req.uid, meta.uid),
        gid: or_kept(req.gid, meta.gid),
        atime: match req.atime {
            Some(t) => moment(t, now),
            None => meta.atime,
        },
        mtime: match req.mtime {
            Some(t) => moment(t, now),
            None => meta.mtime,
        },
        ctime: or_kept(req.ctime, now),
        crtime: or_kept(req.crtime, meta.crtime),
        flags: or_kept(req.flags, meta.flags),
    }
}

/// What a new size asks for.
#[derive(Debug, Clone, Copy, PartialEq, Eq, Structural)]
pub enum SizeStep {
    /// Nothing is to be done to the content.
    Keep,
    /// The file is to be emptied.
    Truncate,
}

/// A file can be emptied; any other size is left to the writer of an open handle.
pub open spec fn size_step(attr: FileAttr, req: SetAttr) -> Result<SizeStep, Errno> {
    match req.size {
        None => Ok(SizeStep::Keep),
        Some(n) => if attr.kind == FileType::Directory {
            Err(Errno::Eisdir)
        } else if n == attr.size {
            Ok(SizeStep::Keep)
        } else if n == 0 {
            Ok(SizeStep::Truncate)
        } else if req.has_handle {
            Ok(SizeStep::Keep)
        } else {
            Err(Errno::Einval)
        },
    }
}

impl DaemonView {
    /// The first half of changing attributes: what is to be done to the content.
    pub open spec fn change_begun(self, ino: u64, req: SetAttr, a: StatAnswer) -> Answered<
        (SizeStep, u16),
    > {
        match self.got_attr(ino, a) {
            (v, Err(e)) => (v, Err(e)),
            (v, Ok(attr)) => match size_step(attr, req) {
                Err(e) => (v, Err(e)),
                Ok(step) => (v, Ok((step, attr.perm))),
            },
        }
    }

    /// The second half: the attributes themselves.
    pub open spec fn change_done(
        self,
        ino: u64,
        perm: u16,
        req: SetAttr,
        truncated: Result<(), NdnError>,
        a: StatAnswer,
    ) -> Answered<FileAttr> {
        match truncated {
            Err(e) => (self, Err(code_of(e))),
            Ok(_) => self.with_meta(
                ino,
                meta_changed(self.meta_of(ino, perm, a.now), req, a.now),
            ).got_attr(ino, a),
        }
    }
}

impl FsDaemon {
    /// The lines of the directory `ino` behind `offset`.  `list` is what the file
    /// system lists.
    pub fn readdir_entries(
        &mut self,
        ino: u64,
        offset: i64,
        list: Result<Vec<(String, PathKind)>, NdnError>,
    ) -> (r: Result<Vec<DirEntry>, Errno>)
        requires
            old(self).inv(),
            offset >= i64::MIN + 2,
            list matches Ok(l) ==> l@.len() + 2 <= i64::MAX,
        ensures
            final(self).inv(),
            reads_dir(old(self)@, final(self)@, ino, offset as int, list, r),
    {
        let path: String = match self.inodes.get_path(ino) {
            Some(p) => p,
            None => {
                return Err(Errno::Enoent);
            },
        };
        let entries: Vec<(String, PathKind)> = match list {
            Ok(l) => l,
            Err(e) => {
                return Err(map_ndn_err(e));
            },
        };
        let mut out: Vec<DirEntry> = Vec::new();
        let mut idx: i64 = offset;
        if offset == 0 {
            out.push(
                DirEntry { ino, kind: FileType::Directory, name: ".".to_owned(), offset: 1 },
            );
            out.push(
                DirEntry { ino, kind: FileType::Directory, name: "..".to_owned(), offset: 2 },
            );
            idx = 2;
        }
        let n: usize = entries.len();
        let mut k: usize = if idx <= 2 {
            0
        } else if (idx - 2) as u64 >= n as u64 {
            n
        } else {
            (idx - 2) as usize
        };
        let ghost first = k as int;
        let ghost base = idx as int;
        let ghost rest = rest_of(entries@, offset as int);
        let ghost head = entry_views(out@);
        let ghost mut ids: Seq<u64> = Seq::empty();
        proof {
            assert(rest =~= entries@.skip(first));
            assert(head =~= if offset == 0 {
                dots(ino)
            } else {
                Seq::<EntryView>::empty()
            });
            assert(listed_names(rest).take(0) =~= Seq::<Seq<char>>::empty());
            assert(entry_views(out@) =~= head + lines_of(rest, ids, base));
        }
        while k < n
            invariant
                self.inv(),
                n == entries@.len(),
                0 <= first <= k <= n,
                n + 2 <= i64::MAX,
                rest == entries@.skip(first),
                rest == rest_of(entries@, offset as int),
                list == Ok::<Vec<(String, PathKind)>, NdnError>(entries),
                base + (n - first) <= i64::MAX,
                base >= i64::MIN,
                idx == base + (k - first),
                old(self)@.inodes.names(ino, path@),
                self@ == (DaemonView { inodes: self@.inodes, ..old(self)@ }),
                (self@.inodes, Some(ids)) == numbered_all(
                    old(self)@.inodes,
                    path@,
                    listed_names(rest).take(k - first),
                ),
                ids.len() == k - first,
                entry_views(out@) == head + lines_of(rest, ids, base),
            decreases n - k,
        {
            let entry: &(String, PathKind) = &entries[k];
            let full: String = child_path(path.as_str(), entry.0.as_str());
            proof {
                let names = listed_names(rest);
                let j = k - first;
                assert(names.take(j + 1).drop_last() =~= names.take(j));
                assert(names.take(j + 1).last() == entry.0@);
                assert(rest[j] == *entry);
            }
            match self.inodes.get_or_create(full.as_str()) {
                None => {
                    proof {
                        lemma_run_out(old(self)@.inodes, path@, listed_names(rest), k - first + 1);
                    }
                    return Err(Errno::Eio);
                },
                Some(number) => {
                    let kind: FileType = if entry.1 == PathKind::Dir {
                        FileType::Directory
                    } else {
                        FileType::RegularFile
                    };
                    idx = idx + 1;
                    let ghost out0 = out@;
                    let ghost ids0 = ids;
                    out.push(DirEntry { ino: number, kind, name: entry.0.clone(), offset: idx });
                    proof {
                        ids = ids.push(number);
                        assert(entry_views(out@) =~= entry_views(out0).push(out@.last()@));
                        assert(lines_of(rest, ids, base) =~= lines_of(rest, ids0, base).push(
                            out@.last()@,
                        ));
                        assert(entry_views(out@) =~= head + lines_of(rest, ids, base));
                    }
                },
            }
            k = k + 1;
        }
        proof {
            assert(listed_names(rest).take(k - first) =~= listed_names(rest));
            assert(Seq::<EntryView>::empty() + lines_of(rest, ids, base) =~= lines_of(
                rest,
                ids,
                base,
            ));
        }
        Ok(out)
    }

    /// The first look at a change of attributes: whether it is allowed, and what
    /// it does to the content.  The other result goes to
    /// [`FsDaemon::setattr_finish`].
    pub fn setattr_start(&mut self, ino: u64, req: &SetAttr, a: &StatAnswer) -> (r: Result<
        (SizeStep, u16),
        Errno,
    >)
        requires
            old(self).inv(),
        ensures
            final(self).inv(),
            (final(self)@, r) == old(self)@.change_begun(ino, *req, *a),
    {
        let attr: FileAttr = self.getattr_entry(ino, a)?;
        if let Some(new_size) = req.size {
            if attr.kind == FileType::Directory {
                return Err(Errno::Eisdir);
            }
            if new_size != attr.size {
                if new_size == 0 {
                    return Ok((SizeStep::Truncate, attr.perm));
                } else if !req.has_handle {
                    return Err(Errno::Einval);
                }
            }
        }
        Ok((SizeStep::Keep, attr.perm))
    }

    /// Changes the attributes.  `truncated` is how emptying the file went, where
    /// that was asked for; `a` is what the file system says of the file now.
    pub fn setattr_finish(
        &mut self,
        ino: u64,
        perm: u16,
        req: &SetAttr,
        truncated: Result<(), NdnError>,
        a: &StatAnswer,
    ) -> (r: Result<FileAttr, Errno>)
        requires
            old(self).inv(),
        ensures
            final(self).inv(),
            (final(self)@, r) == old(self)@.change_done(ino, perm, *req, truncated, *a),
    {
        if let Err(e) = truncated {
            return Err(map_ndn_err(e));
        }
        self.update_meta(ino, perm, req, a.now);
        self.getattr_entry(ino, a)
    }

    fn update_meta(&mut self, ino: u64, default_perm: u16, req: &SetAttr, now: Time)
        requires
            old(self).inv(),
        ensures
            final(self).inv(),
            final(self)@ == old(self)@.with_meta(
                ino,
                meta_changed(old(self)@.meta_of(ino, default_perm, now), *req, now),
            ),
    {
        let mut meta: InodeMeta = match self.metas.get(&ino) {
            Some(m) => *m,
            None => InodeMeta {
                perm: default_perm,
                uid: self.uid,
                gid: self.gid,
                atime: now,
                mtime: now,
                ctime: now,
                crtime: now,
                flags: 0,
            },
        };
        if let Some(mode) = req.mode {
            meta.perm = (mode & 0o7777) as u16;
        }
        if let Some(uid) = req.uid {
            meta.uid = uid;
        }
        if let Some(gid) = req.gid {
            meta.gid = gid;
        }
        if let Some(atime) = req.atime {
            meta.atime = match atime {
                TimeOrNow::SpecificTime(t) => t,
                TimeOrNow::Now => now,
            };
        }
        if let Some(mtime) = req.mtime {
            meta.mtime = match mtime {
                TimeOrNow::SpecificTime(t) => t,
                TimeOrNow::Now => now,
            };
        }
        meta.ctime = match req.ctime {
            Some(t) => t,
            None => now,
        };
        if let Some(crtime) = req.crtime {
            meta.crtime = crtime;
        }
        if let Some(flags) = req.flags {
            meta.flags = flags;
        }
        self.metas.put(ino, meta);
    }
}

/// Once the numbers have run out on a prefix, they have run out on the whole.
proof fn lemma_run_out(v: InodesView, dir: Seq<char>, names: Seq<Seq<char>>, n: int)
    requires
        0 <= n <= names.len(),
        numbered_all(v, dir, names.take(n)).1 is None,
    ensures
        numbered_all(v, dir, names) == numbered_all(v, dir, names.take(n)),
    decreases names.len() - n,
{
    if n == names.len() {
        assert(names.take(n) =~= names);
    } else {
        assert(names.take(n + 1).drop_last() =~= names.take(n));
        lemma_run_out(v, dir, names, n + 1);
    }
}

/// Reading a piece of a file from a stream that starts at its beginning.
pub struct ReadTask {
    /// How much is still to be passed over.
    pub skip: u64,
    /// How much was asked for.
    pub size: usize,
    pub out: Vec<u8>,
    pub done: bool,
}

/// The most that is read at once while passing over the beginning.
pub const SKIP_STEP: usize = 8192;

#[verifier::ext_equal]
pub ghost struct ReadView {
    pub skip: nat,
    pub size: nat,
    pub out: Seq<u8>,
    pub done: bool,
}

impl View for ReadTask {
    type V = ReadView;

    open spec fn view(&self) -> ReadView {
        ReadView {
            skip: self.skip as nat,
            size: self.size as nat,
            out: self.out@,
            done: self.done,
        }
    }
}

impl ReadView {
    pub open spec fn inv(self) -> bool {
        &&& self.out.len() <= self.size
        &&& self.skip > 0 ==> self.out.len() == 0
        &&& self.done ==> self.skip == 0
        &&& !self.done && self.skip == 0 ==> self.out.len() < self.size
    }

    /// How much to read next; nothing when the piece is complete.
    pub open spec fn wants(self) -> nat {
        if self.done {
            0
        } else if self.skip > 0 {
            if self.skip < SKIP_STEP {
                self.skip
            } else {
                SKIP_STEP as nat
            }
        } else {
            (self.size - self.out.len()) as nat
        }
    }

    /// The stream gave `data`; no bytes at all mean that it has ended.
    pub open spec fn fed(self, data: Seq<u8>) -> ReadView {
        if self.done {
            self
        } else if data.len() == 0 {
            ReadView { skip: 0, done: true, ..self }
        } else if self.skip > 0 {
            let left = (self.skip - data.len()) as nat;
            ReadView { skip: left, done: left == 0 && self.size == 0, ..self }
        } else {
            let out = self.out + data;
            ReadView { out, done: out.len() == self.size, ..self }
        }
    }
}

pub open spec fn read_begun(offset: i64, size: u32) -> ReadView {
    ReadView {
        skip: if offset > 0 {
            offset as nat
        } else {
            0
        },
        size: size as nat,
        out: Seq::empty(),
        done: offset <= 0 && size == 0,
    }
}

impl ReadTask {
    /// Begins to read `size` bytes at `offset`.
    pub fn new(offset: i64, size: u32) -> (r: Self)
        requires
            size <= usize::MAX,
        ensures
            r@.inv(),
            r@ == read_begun(offset, size),
    {
        ReadTask {
            skip: if offset > 0 {
                offset as u64
            } else {
                0
            },
            size: size as usize,
            out: Vec::new(),
            done: offset <= 0 && size == 0,
        }
    }

    pub fn wants(&self) -> (r: usize)
        requires
            self@.inv(),
        ensures
            r == self@.wants(),
    {
        if self.done {
            0
        } else if self.skip > 0 {
            if self.skip < SKIP_STEP as u64 {
                self.skip as usize
            } else {
                SKIP_STEP
            }
        } else {
            self.size - self.out.len()
        }
    }

    /// Takes what the stream gave, which is at most what was wanted.
    pub fn feed(&mut self, data: &Vec<u8>)
        requires
            old(self)@.inv(),
            data@.len() <= old(self)@.wants(),
        ensures
            final(self)@.inv(),
            final(self)@ == old(self)@.fed(data@),
    {
        if self.done {
            return;
        }
        if data.len() == 0 {
            self.skip = 0;
            self.done = true;
            return;
        }
        if self.skip > 0 {
            self.skip = self.skip - data.len() as u64;
            self.done = self.skip == 0 && self.size == 0;
            return;
        }
        let ghost out0 = self.out@;
        let mut i: usize = 0;
        while i < data.len()
            invariant
                0 <= i <= data@.len(),
                *self == (ReadTask { out: self.out, ..*old(self) }),
                self.out@ == out0 + data@.take(i as int),
            decreases data@.len() - i,
        {
            self.out.push(data[i]);
            i = i + 1;
        }
        assert(data@.take(i as int) =~= data@);
        self.done = self.out.len() == self.size;
    }
}

} // verus!
