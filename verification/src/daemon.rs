//! The mounted file system: what each request from the kernel means.
//!
//! The file system behind the mount is outside.  A request first tells which
//! path it is about; the answers of the file system then come in as arguments.

use vstd::prelude::*;
use crate::errno::{code_of, map_ndn_err, Errno, NdnError};
use crate::inode_table::{InodeTable, InodesView};
use crate::records::OpenWriteFlag;
use crate::table::Table;
use crate::text::{joined, same_text};
use crate::xattrs::{XattrMap, Xattrs};

verus! {

pub const DIR_PERM: u16 = 0o755;

pub const FILE_PERM: u16 = 0o644;

/// A point in time.
#[derive(Debug, Clone, Copy, PartialEq, Eq, Structural)]
pub struct Time {
    pub secs: i64,
    pub nanos: u32,
}

/// What the file system says a path is.
#[derive(Debug, Clone, Copy, PartialEq, Eq, Structural)]
pub enum PathKind {
    File,
    Dir,
    Object,
    /// Anything else that exists.
    Other,
    NotFound,
}

#[derive(Debug, Clone, Copy, PartialEq, Eq, Structural)]
pub struct PathStat {
    pub kind: PathKind,
    pub size: Option<u64>,
}

/// What the kernel is told a path is.
#[derive(Debug, Clone, Copy, PartialEq, Eq, Structural)]
pub enum FileType {
    Directory,
    RegularFile,
}

#[derive(Debug, Clone, Copy, PartialEq, Eq, Structural)]
pub struct FileAttr {
    pub ino: u64,
    pub size: u64,
    pub blocks: u64,
    pub atime: Time,
    pub mtime: Time,
    pub ctime: Time,
    pub crtime: Time,
    pub kind: FileType,
    pub perm: u16,
    pub nlink: u32,
    pub uid: u32,
    pub gid: u32,
    pub rdev: u32,
    pub flags: u32,
    pub blksize: u32,
}

/// What is kept of a number beside its path.
#[derive(Debug, Clone, Copy, PartialEq, Eq, Structural)]
pub struct InodeMeta {
    pub perm: u16,
    pub uid: u32,
    pub gid: u32,
    pub atime: Time,
    pub mtime: Time,
    pub ctime: Time,
    pub crtime: Time,
    pub flags: u32,
}

/// An open writer: the inode that the file system opened for it.
#[derive(Debug, Clone, Copy, PartialEq, Eq, Structural)]
pub struct OpenHandle {
    pub inode_id: u64,
}

/// The flags of an `open` or `create` that matter here.
#[derive(Debug, Clone, Copy, PartialEq, Eq, Structural)]
pub struct OpenBits {
    pub write: bool,
    pub truncate: bool,
    pub append: bool,
    pub exclusive: bool,
}

/// Where the flags stand in the word that the system hands over.
#[derive(Debug, Clone, Copy, PartialEq, Eq, Structural)]
pub struct OpenMasks {
    /// The bits that tell reading from writing, and their two values for writing.
    pub access: i32,
    pub write_only: i32,
    pub read_write: i32,
    pub truncate: i32,
    pub append: i32,
    pub exclusive: i32,
}

/// Some bit of `mask` is set in `word`.
pub open spec fn has_bit(word: i32, mask: i32) -> bool {
    word & mask != 0
}

impl OpenBits {
    /// The flags in the word of an `open` or `create`.
    pub fn from_word(word: i32, masks: &OpenMasks) -> (r: Self)
        ensures
            r.write == (word & masks.access == masks.write_only || word & masks.access
                == masks.read_write),
            r.truncate == has_bit(word, masks.truncate),
            r.append == has_bit(word, masks.append),
            r.exclusive == has_bit(word, masks.exclusive),
    {
        let access: i32 = word & masks.access;
        OpenBits {
            write: access == masks.write_only || access == masks.read_write,
            truncate: word & masks.truncate != 0,
            append: word & masks.append != 0,
            exclusive: word & masks.exclusive != 0,
        }
    }
}

/// How `open` opens a file that exists.
pub open spec fn open_mode(bits: OpenBits) -> OpenWriteFlag {
    if bits.truncate {
        OpenWriteFlag::CreateOrTruncate
    } else if bits.append {
        OpenWriteFlag::Append
    } else {
        OpenWriteFlag::CreateOrAppend
    }
}

/// How `create` opens a file.
pub open spec fn create_mode(bits: OpenBits) -> OpenWriteFlag {
    if bits.exclusive {
        OpenWriteFlag::CreateExclusive
    } else if bits.truncate {
        OpenWriteFlag::CreateOrTruncate
    } else {
        OpenWriteFlag::CreateOrAppend
    }
}

pub fn open_flag(bits: OpenBits) -> (r: OpenWriteFlag)
    ensures
        r == open_mode(bits),
{
    if bits.truncate {
        OpenWriteFlag::CreateOrTruncate
    } else if bits.append {
        OpenWriteFlag::Append
    } else {
        OpenWriteFlag::CreateOrAppend
    }
}

pub fn create_flag(bits: OpenBits) -> (r: OpenWriteFlag)
    ensures
        r == create_mode(bits),
{
    if bits.exclusive {
        OpenWriteFlag::CreateExclusive
    } else if bits.truncate {
        OpenWriteFlag::CreateOrTruncate
    } else {
        OpenWriteFlag::CreateOrAppend
    }
}

/// The path of `name` in the directory `dir`.
pub open spec fn child_of(dir: Seq<char>, name: Seq<char>) -> Seq<char> {
    if dir == "/"@ {
        "/"@ + name
    } else {
        dir + "/"@ + name
    }
}

pub fn child_path(dir: &str, name: &str) -> (r: String)
    ensures
        r@ == child_of(dir@, name@),
{
    if same_text(dir, "/") {
        joined("/", name)
    } else {
        let mut out: String = joined(dir, "/");
        out.append(name);
        out
    }
}

/// The size shown for a path.  `counted` is what reading it to its end gave.
pub open spec fn shown_size(stat: PathStat, counted: Option<u64>) -> u64 {
    match stat.size {
        Some(n) => n,
        None => if (stat.kind == PathKind::File || stat.kind == PathKind::Object) && counted is Some {
            counted->0
        } else {
            0
        },
    }
}

/// Whether the size of a path can only be had by reading it.
pub fn must_count(stat: &PathStat) -> (r: bool)
    ensures
        r == (stat.size is None && (stat.kind == PathKind::File || stat.kind == PathKind::Object)),
        !r ==> forall|counted: Option<u64>| #[trigger]
            shown_size(*stat, counted) == shown_size(*stat, None),
{
    stat.size.is_none() && (stat.kind == PathKind::File || stat.kind == PathKind::Object)
}

pub fn resolve_attr_size(stat: &PathStat, counted: Option<u64>) -> (r: u64)
    ensures
        r == shown_size(*stat, counted),
{
    match stat.size {
        Some(n) => n,
        None => {
            if stat.kind == PathKind::File || stat.kind == PathKind::Object {
                match counted {
                    Some(n) => n,
                    None => 0,
                }
            } else {
                0
            }
        },
    }
}

pub open spec fn type_of(kind: PathKind) -> FileType {
    if kind == PathKind::Dir {
        FileType::Directory
    } else {
        FileType::RegularFile
    }
}

pub open spec fn perm_of(kind: PathKind) -> u16 {
    if kind == PathKind::Dir {
        DIR_PERM
    } else {
        FILE_PERM
    }
}

pub open spec fn fresh_meta(perm: u16, uid: u32, gid: u32, now: Time) -> InodeMeta {
    InodeMeta { perm, uid, gid, atime: now, mtime: now, ctime: now, crtime: now, flags: 0 }
}

/// What the kernel is told of a file.
pub open spec fn attr_of(ino: u64, stat: PathStat, counted: Option<u64>, meta: InodeMeta) -> FileAttr {
    FileAttr {
        ino,
        size: shown_size(stat, counted),
        blocks: 1,
        atime: meta.atime,
        mtime: meta.mtime,
        ctime: meta.ctime,
        crtime: meta.crtime,
        kind: type_of(stat.kind),
        perm: meta.perm,
        nlink: if stat.kind == PathKind::Dir {
            2
        } else {
            1
        },
        uid: meta.uid,
        gid: meta.gid,
        rdev: 0,
        flags: meta.flags,
        blksize: 4096,
    }
}

/// What was learned of a path: the file system's answer, and how long the file
/// turned out to be where it had to be read for that.
#[derive(Debug, Clone, Copy, PartialEq, Eq)]
pub struct StatAnswer {
    pub stat: Result<PathStat, NdnError>,
    pub counted: Option<u64>,
    pub now: Time,
}

pub struct FsDaemon {
    pub inodes: InodeTable,
    pub next_fh: u64,
    pub handles: Table<u64, OpenHandle>,
    pub xattrs: Xattrs,
    pub metas: Table<u64, InodeMeta>,
    pub uid: u32,
    pub gid: u32,
}

#[verifier::ext_equal]
pub ghost struct DaemonView {
    pub inodes: InodesView,
    pub next_fh: u64,
    pub handles: Map<u64, OpenHandle>,
    pub xattrs: XattrMap,
    pub metas: Map<u64, InodeMeta>,
    pub uid: u32,
    pub gid: u32,
}

impl View for FsDaemon {
    type V = DaemonView;

    open spec fn view(&self) -> DaemonView {
        DaemonView {
            inodes: self.inodes@,
            next_fh: self.next_fh,
            handles: self.handles@,
            xattrs: self.xattrs@,
            metas: self.metas@,
            uid: self.uid,
            gid: self.gid,
        }
    }
}

/// The state after an answer, and the answer.
pub type Answered<T> = (DaemonView, Result<T, Errno>);

impl DaemonView {
    /// The path of `name` in the directory with the number `parent`.
    pub open spec fn target(self, parent: u64, name: Seq<char>) -> Option<Seq<char>> {
        if self.inodes.paths.contains_key(parent) {
            Some(child_of(self.inodes.paths[parent], name))
        } else {
            None
        }
    }

    /// What is kept of `ino`, kept from now on if nothing was.
    pub open spec fn meta_of(self, ino: u64, perm: u16, now: Time) -> InodeMeta {
        if self.metas.contains_key(ino) {
            self.metas[ino]
        } else {
            fresh_meta(perm, self.uid, self.gid, now)
        }
    }

    pub open spec fn with_meta(self, ino: u64, meta: InodeMeta) -> DaemonView {
        DaemonView { metas: self.metas.insert(ino, meta), ..self }
    }

    /// Shows the file `ino`.
    pub open spec fn shown(self, ino: u64, stat: PathStat, a: StatAnswer) -> (
        DaemonView,
        FileAttr,
    ) {
        let meta = self.meta_of(ino, perm_of(stat.kind), a.now);
        (self.with_meta(ino, meta), attr_of(ino, stat, a.counted, meta))
    }

    /// Gives `path` a number and shows it.
    pub open spec fn shown_at(self, path: Seq<char>, stat: PathStat, a: StatAnswer) -> Answered<
        FileAttr,
    > {
        let (inodes, number) = self.inodes.numbered(path);
        match number {
            None => (self, Err(Errno::Eio)),
            Some(ino) => {
                let (v, attr) = DaemonView { inodes, ..self }.shown(ino, stat, a);
                (v, Ok(attr))
            },
        }
    }

    pub open spec fn looked_up(self, parent: u64, name: Seq<char>, a: StatAnswer) -> Answered<
        FileAttr,
    > {
        match self.target(parent, name) {
            None => (self, Err(Errno::Enoent)),
            Some(path) => match a.stat {
                Err(e) => (self, Err(code_of(e))),
                Ok(stat) => if stat.kind == PathKind::NotFound {
                    (self, Err(Errno::Enoent))
                } else {
                    self.shown_at(path, stat, a)
                },
            },
        }
    }

    pub open spec fn got_attr(self, ino: u64, a: StatAnswer) -> Answered<FileAttr> {
        if !self.inodes.paths.contains_key(ino) {
            (self, Err(Errno::Enoent))
        } else {
            match a.stat {
                Err(e) => (self, Err(code_of(e))),
                Ok(stat) => if stat.kind == PathKind::NotFound {
                    (self, Err(Errno::Enoent))
                } else {
                    let (v, attr) = self.shown(ino, stat, a);
                    (v, Ok(attr))
                },
            }
        }
    }

    /// Keeps an open writer under the next handle.
    pub open spec fn with_handle(self, inode_id: u64) -> (DaemonView, u64) {
        (
            DaemonView {
                next_fh: (self.next_fh + 1) as u64,
                handles: self.handles.insert(self.next_fh, OpenHandle { inode_id }),
                ..self
            },
            self.next_fh,
        )
    }

    /// Keeps the writer that was opened, if one was.
    pub open spec fn kept(self, opened: Result<u64, NdnError>) -> Answered<u64> {
        match opened {
            Err(e) => (self, Err(code_of(e))),
            Ok(inode_id) => if self.next_fh == u64::MAX {
                (self, Err(Errno::Eio))
            } else {
                (self.with_handle(inode_id).0, Ok(self.with_handle(inode_id).1))
            },
        }
    }

    /// The writer of an open handle.
    pub open spec fn writer_at(self, fh: u64) -> Result<OpenHandle, Errno> {
        if self.handles.contains_key(fh) {
            Ok(self.handles[fh])
        } else {
            Err(Errno::Ebadf)
        }
    }

    /// What a write of `len` bytes answers.
    pub open spec fn wrote(self, fh: u64, len: usize, written: Result<(), NdnError>) -> Result<
        usize,
        Errno,
    > {
        if !self.handles.contains_key(fh) {
            Err(Errno::Ebadf)
        } else {
            match written {
                Ok(_) => Ok(len),
                Err(e) => Err(code_of(e)),
            }
        }
    }

    /// Gives a handle up.
    pub open spec fn gave_up(self, fh: u64) -> (DaemonView, Option<OpenHandle>) {
        (
            DaemonView { handles: self.handles.remove(fh), ..self },
            if self.handles.contains_key(fh) {
                Some(self.handles[fh])
            } else {
                None
            },
        )
    }

    /// Something was made at `path`; the file system is asked what it is now.
    pub open spec fn made_at(self, path: Seq<char>, a: StatAnswer) -> Answered<FileAttr> {
        match a.stat {
            Err(e) => (self, Err(code_of(e))),
            Ok(stat) => self.shown_at(path, stat, a),
        }
    }

    pub open spec fn made_dir(
        self,
        parent: u64,
        name: Seq<char>,
        made: Result<(), NdnError>,
        a: StatAnswer,
    ) -> Answered<FileAttr> {
        match self.target(parent, name) {
            None => (self, Err(Errno::Enoent)),
            Some(path) => match made {
                Err(e) => (self, Err(code_of(e))),
                Ok(_) => self.made_at(path, a),
            },
        }
    }

    pub open spec fn created(
        self,
        parent: u64,
        name: Seq<char>,
        opened: Result<u64, NdnError>,
        a: StatAnswer,
    ) -> Answered<(FileAttr, u64)> {
        match self.target(parent, name) {
            None => (self, Err(Errno::Enoent)),
            Some(path) => match opened {
                Err(e) => (self, Err(code_of(e))),
                Ok(inode_id) => if self.next_fh == u64::MAX {
                    (self, Err(Errno::Eio))
                } else {
                    let (v, fh) = self.with_handle(inode_id);
                    match v.made_at(path, a) {
                        (w, Ok(attr)) => (w, Ok((attr, fh))),
                        (w, Err(e)) => (w, Err(e)),
                    }
                },
            },
        }
    }

    pub open spec fn unlinked(
        self,
        parent: u64,
        name: Seq<char>,
        deleted: Result<(), NdnError>,
    ) -> Answered<()> {
        match self.target(parent, name) {
            None => (self, Err(Errno::Enoent)),
            Some(path) => match deleted {
                Err(e) => (self, Err(code_of(e))),
                Ok(_) => (self.forgotten(path), Ok(())),
            },
        }
    }

    /// Nothing is kept of `path` and what lay below it.
    pub open spec fn forgotten(self, path: Seq<char>) -> DaemonView {
        let left = self.inodes.without(path);
        let gone = |i: u64| self.inodes.paths.contains_key(i) && !left.paths.contains_key(i);
        DaemonView {
            inodes: left,
            xattrs: self.xattrs.restrict(
                Set::new(|k: (u64, Seq<u8>)| self.xattrs.contains_key(k) && !gone(k.0)),
            ),
            metas: self.metas.restrict(
                Set::new(|i: u64| self.metas.contains_key(i) && !gone(i)),
            ),
            ..self
        }
    }

    pub open spec fn moved(
        self,
        parent: u64,
        name: Seq<char>,
        newparent: u64,
        newname: Seq<char>,
        done: Result<(), NdnError>,
    ) -> Answered<()> {
        match (self.target(parent, name), self.target(newparent, newname)) {
            (Some(from), Some(to)) => match done {
                Err(e) => (self, Err(code_of(e))),
                Ok(_) => (DaemonView { inodes: self.inodes.renamed(from, to), ..self }, Ok(())),
            },
            _ => (self, Err(Errno::Enoent)),
        }
    }
}

impl FsDaemon {
    pub open spec fn inv(&self) -> bool {
        &&& self.inodes.inv()
        &&& self.handles.wf()
        &&& self.xattrs.inv()
        &&& self.metas.wf()
    }

    /// A mount of which only the root is known.  Files without an owner of their
    /// own belong to `uid` and `gid`.
    pub fn new(uid: u32, gid: u32) -> (r: Self)
        ensures
            r.inv(),
            r@ == (DaemonView {
                inodes: InodesView {
                    next: crate::inode_table::FIRST_INODE,
                    paths: map![crate::inode_table::ROOT_INODE => "/"@],
                },
                next_fh: 1,
                handles: Map::empty(),
                xattrs: Map::empty(),
                metas: Map::empty(),
                uid,
                gid,
            }),
    {
        FsDaemon {
            inodes: InodeTable::new(),
            next_fh: 1,
            handles: Table::new(),
            xattrs: Xattrs::new(),
            metas: Table::new(),
            uid,
            gid,
        }
    }

    pub fn path_from_parent(&self, parent: u64, name: &str) -> (r: Option<String>)
        requires
            self.inv(),
        ensures
            match r {
                Some(p) => self@.target(parent, name@) == Some(p@),
                None => self@.target(parent, name@) is None,
            },
    {
        match self.inodes.get_path(parent) {
            Some(dir) => Some(child_path(dir.as_str(), name)),
            None => None,
        }
    }

    fn get_or_init_meta(&mut self, ino: u64, default_perm: u16, now: Time) -> (r: InodeMeta)
        requires
            old(self).inv(),
        ensures
            final(self).inv(),
            r == old(self)@.meta_of(ino, default_perm, now),
            final(self)@ == old(self)@.with_meta(ino, r),
    {
        let meta: InodeMeta = match self.metas.get(&ino) {
            Some(m) => *m,
            None => InodeMeta {
                perm: default_perm,
                uid: self.uid,
                gid: self.gid,
                atime: now,
                mtime: now,
                ctime: now,
                crtime: now,
                flags: 0,
            },
        };
        self.metas.put(ino, meta);
        meta
    }

    fn build_attr(&mut self, ino: u64, stat: &PathStat, a: &StatAnswer) -> (r: FileAttr)
        requires
            old(self).inv(),
        ensures
            final(self).inv(),
            (final(self)@, r) == old(self)@.shown(ino, *stat, *a),
    {
        let size: u64 = resolve_attr_size(stat, a.counted);
        let is_dir: bool = stat.kind == PathKind::Dir;
        let perm: u16 = if is_dir {
            DIR_PERM
        } else {
            FILE_PERM
        };
        let meta: InodeMeta = self.get_or_init_meta(ino, perm, a.now);
        FileAttr {
            ino,
            size,
            blocks: 1,
            atime: meta.atime,
            mtime: meta.mtime,
            ctime: meta.ctime,
            crtime: meta.crtime,
            kind: if is_dir {
                FileType::Directory
            } else {
                FileType::RegularFile
            },
            perm: meta.perm,
            nlink: if is_dir {
                2
            } else {
                1
            },
            uid: meta.uid,
            gid: meta.gid,
            rdev: 0,
            flags: meta.flags,
            blksize: 4096,
        }
    }

    fn show_path(&mut self, path: &str, stat: &PathStat, a: &StatAnswer) -> (r: Result<
        FileAttr,
        Errno,
    >)
        requires
            old(self).inv(),
        ensures
            final(self).inv(),
            (final(self)@, r) == old(self)@.shown_at(path@, *stat, *a),
    {
        match self.inodes.get_or_create(path) {
            None => Err(Errno::Eio),
            Some(ino) => Ok(self.build_attr(ino, stat, a)),
        }
    }

    fn ensure_exists(stat: &PathStat) -> (r: Result<(), Errno>)
        ensures
            r == (if stat.kind == PathKind::NotFound {
                Err::<(), Errno>(Errno::Enoent)
            } else {
                Ok(())
            }),
    {
        if stat.kind == PathKind::NotFound {
            return Err(Errno::Enoent);
        }
        Ok(())
    }

    /// Looks a name up in a directory.
    pub fn lookup_entry(&mut self, parent: u64, name: &str, a: &StatAnswer) -> (r: Result<
        FileAttr,
        Errno,
    >)
        requires
            old(self).inv(),
        ensures
            final(self).inv(),
            (final(self)@, r) == old(self)@.looked_up(parent, name@, *a),
    {
        let path: String = match self.path_from_parent(parent, name) {
            Some(p) => p,
            None => {
                return Err(Errno::Enoent);
            },
        };
        let stat: PathStat = match a.stat {
            Ok(s) => s,
            Err(e) => {
                return Err(map_ndn_err(e));
            },
        };
        Self::ensure_exists(&stat)?;
        self.show_path(path.as_str(), &stat, a)
    }

    /// The attributes of the file with the number `ino`.
    pub fn getattr_entry(&mut self, ino: u64, a: &StatAnswer) -> (r: Result<FileAttr, Errno>)
        requires
            old(self).inv(),
        ensures
            final(self).inv(),
            (final(self)@, r) == old(self)@.got_attr(ino, *a),
    {
        if self.inodes.get_path(ino).is_none() {
            return Err(Errno::Enoent);
        }
        let stat: PathStat = match a.stat {
            Ok(s) => s,
            Err(e) => {
                return Err(map_ndn_err(e));
            },
        };
        Self::ensure_exists(&stat)?;
        Ok(self.build_attr(ino, &stat, a))
    }

    /// What has to be opened for an `open`: nothing for reading, else a path and
    /// how.
    pub fn open_file(&self, ino: u64, bits: OpenBits) -> (r: Result<
        Option<(String, OpenWriteFlag)>,
        Errno,
    >)
        requires
            self.inv(),
        ensures
            match r {
                Ok(None) => !bits.write,
                Ok(Some(t)) => bits.write && self@.inodes.names(ino, t.0@) && t.1 == open_mode(bits),
                Err(e) => bits.write && !self@.inodes.paths.contains_key(ino) && e == Errno::Enoent,
            },
    {
        if !bits.write {
            return Ok(None);
        }
        match self.inodes.get_path(ino) {
            Some(path) => Ok(Some((path, open_flag(bits)))),
            None => Err(Errno::Enoent),
        }
    }

    /// Keeps a writer that the file system opened for the inode `inode_id`.
    pub fn keep_writer(&mut self, opened: Result<u64, NdnError>) -> (r: Result<u64, Errno>)
        requires
            old(self).inv(),
        ensures
            final(self).inv(),
            (final(self)@, r) == old(self)@.kept(opened),
    {
        match opened {
            Err(e) => Err(map_ndn_err(e)),
            Ok(inode_id) => {
                if self.next_fh == u64::MAX {
                    return Err(Errno::Eio);
                }
                let fh: u64 = self.next_fh;
                self.handles.put(fh, OpenHandle { inode_id });
                self.next_fh = fh + 1;
                Ok(fh)
            },
        }
    }

    /// Opens a new file.  `opened` is what the file system said to opening the
    /// path with [`create_flag`].
    pub fn create_file(
        &mut self,
        parent: u64,
        name: &str,
        opened: Result<u64, NdnError>,
        a: &StatAnswer,
    ) -> (r: Result<(FileAttr, u64), Errno>)
        requires
            old(self).inv(),
        ensures
            final(self).inv(),
            (final(self)@, r) == old(self)@.created(parent, name@, opened, *a),
    {
        let path: String = match self.path_from_parent(parent, name) {
            Some(p) => p,
            None => {
                return Err(Errno::Enoent);
            },
        };
        let fh: u64 = self.keep_writer(opened)?;
        match a.stat {
            Err(e) => Err(map_ndn_err(e)),
            Ok(stat) => match self.show_path(path.as_str(), &stat, a) {
                Ok(attr) => Ok((attr, fh)),
                Err(e) => Err(e),
            },
        }
    }

    /// Makes a directory.  `made` is what the file system said to making it.
    pub fn mkdir_path(
        &mut self,
        parent: u64,
        name: &str,
        made: Result<(), NdnError>,
        a: &StatAnswer,
    ) -> (r: Result<FileAttr, Errno>)
        requires
            old(self).inv(),
        ensures
            final(self).inv(),
            (final(self)@, r) == old(self)@.made_dir(parent, name@, made, *a),
    {
        let path: String = match self.path_from_parent(parent, name) {
            Some(p) => p,
            None => {
                return Err(Errno::Enoent);
            },
        };
        if let Err(e) = made {
            return Err(map_ndn_err(e));
        }
        match a.stat {
            Err(e) => Err(map_ndn_err(e)),
            Ok(stat) => self.show_path(path.as_str(), &stat, a),
        }
    }

    /// Removes a name.  `deleted` is what the file system said to deleting it.
    pub fn unlink_path(&mut self, parent: u64, name: &str, deleted: Result<(), NdnError>) -> (r:
        Result<(), Errno>)
        requires
            old(self).inv(),
        ensures
            final(self).inv(),
            (final(self)@, r) == old(self)@.unlinked(parent, name@, deleted),
    {
        let path: String = match self.path_from_parent(parent, name) {
            Some(p) => p,
            None => {
                return Err(Errno::Enoent);
            },
        };
        if let Err(e) = deleted {
            return Err(map_ndn_err(e));
        }
        let gone: Vec<u64> = self.inodes.remove_path_recursive(path.as_str());
        self.xattrs.forget(&gone);
        self.forget_metas(&gone);
        proof {
            let before = old(self)@;
            let after = before.forgotten(path@);
            assert forall|i: u64| gone@.contains(i) <==> before.inodes.paths.contains_key(i)
                && !before.inodes.without(path@).paths.contains_key(i) by {
                let p = before.inodes.paths[i];
            }
            assert(self@.xattrs =~= after.xattrs);
            assert(self@.metas =~= after.metas);
        }
        Ok(())
    }

    fn forget_metas(&mut self, gone: &Vec<u64>)
        requires
            old(self).inv(),
        ensures
            final(self).inv(),
            final(self)@ == (DaemonView {
                metas: old(self)@.metas.restrict(
                    Set::new(|i: u64| old(self)@.metas.contains_key(i) && !gone@.contains(i)),
                ),
                ..old(self)@
            }),
    {
        let mut k: usize = 0;
        while k < gone.len()
            invariant
                self.inv(),
                0 <= k <= gone@.len(),
                self@ == (DaemonView { metas: self@.metas, ..old(self)@ }),
                forall|i: u64| #[trigger]
                    self@.metas.contains_key(i) <==> old(self)@.metas.contains_key(i)
                        && !gone@.take(k as int).contains(i),
                forall|i: u64| #[trigger]
                    self@.metas.contains_key(i) ==> self@.metas[i] == old(self)@.metas[i],
            decreases gone@.len() - k,
        {
            let _ = self.metas.remove(&gone[k]);
            proof {
                let a = gone@.take(k as int);
                let b = gone@.take(k + 1);
                assert(b =~= a.push(gone@[k as int]));
                assert forall|i: u64| #[trigger] b.contains(i) <==> a.contains(i) || i
                    == gone@[k as int] by {
                    if a.contains(i) {
                        let j = choose|j: int| 0 <= j < a.len() && a[j] == i;
                        assert(b[j] == i);
                    }
                    if i == gone@[k as int] {
                        assert(b[k as int] == i);
                    }
                }
            }
            k = k + 1;
        }
        assert(gone@.take(k as int) =~= gone@);
        assert(self@.metas =~= old(self)@.metas.restrict(
            Set::new(|i: u64| old(self)@.metas.contains_key(i) && !gone@.contains(i)),
        ));
    }

    /// Moves a name.  `done` is what the file system said to moving it.
    pub fn rename_path(
        &mut self,
        parent: u64,
        name: &str,
        newparent: u64,
        newname: &str,
        done: Result<(), NdnError>,
    ) -> (r: Result<(), Errno>)
        requires
            old(self).inv(),
        ensures
            final(self).inv(),
            (final(self)@, r) == old(self)@.moved(parent, name@, newparent, newname@, done),
    {
        let from: String = match self.path_from_parent(parent, name) {
            Some(p) => p,
            None => {
                return Err(Errno::Enoent);
            },
        };
        let to: String = match self.path_from_parent(newparent, newname) {
            Some(p) => p,
            None => {
                return Err(Errno::Enoent);
            },
        };
        if let Err(e) = done {
            return Err(map_ndn_err(e));
        }
        self.inodes.rename_path_recursive(from.as_str(), to.as_str());
        Ok(())
    }

    /// The writer of an open handle.
    pub fn writer_of(&self, fh: u64) -> (r: Result<OpenHandle, Errno>)
        requires
            self.inv(),
        ensures
            r == self@.writer_at(fh),
    {
        match self.handles.get(&fh) {
            Some(h) => Ok(*h),
            None => Err(Errno::Ebadf),
        }
    }

    /// What a write of `len` bytes answers.  `written` is what the writer said.
    pub fn write_handle(&self, fh: u64, len: usize, written: Result<(), NdnError>) -> (r: Result<
        usize,
        Errno,
    >)
        requires
            self.inv(),
        ensures
            r == self@.wrote(fh, len, written),
    {
        let _ = self.writer_of(fh)?;
        match written {
            Ok(_) => Ok(len),
            Err(e) => Err(map_ndn_err(e)),
        }
    }

    /// Gives a handle up; the writer that it held is to be flushed and closed.
    pub fn release_handle(&mut self, fh: u64) -> (r: Option<OpenHandle>)
        requires
            old(self).inv(),
        ensures
            final(self).inv(),
            (final(self)@, r) == old(self)@.gave_up(fh),
    {
        self.handles.remove(&fh)
    }
}

} // verus!
