//! The mounted file system, over a file system in memory.

use cyfs_meta::daemon::{
    create_flag, must_count, open_flag, FileAttr, FileType, FsDaemon, OpenBits, OpenMasks, PathKind,
    PathStat, StatAnswer, Time,
};
use cyfs_meta::daemon_config::{
    FsDaemonServiceConfig, FsMetaServiceRunner, StoreConfigEntry, StoreLayoutConfigFile,
};
use cyfs_meta::daemon_ops::{DirEntry, ReadTask, SetAttr, SizeStep, TimeOrNow};
use cyfs_meta::errno::{map_ndn_err, Errno, NdnError};
use cyfs_meta::inode_table::InodeTable;
use cyfs_meta::records::OpenWriteFlag;
use cyfs_meta::service::FSMetaService;
use cyfs_meta::xattrs::{SetBits, XattrReply, Xattrs};
use std::collections::BTreeMap;

const NOW: Time = Time { secs: 100, nanos: 0 };

const NO_BITS: SetBits = SetBits { create: false, replace: false };

struct Mount {
    daemon: FsDaemon,
    /// Directories hold nothing.
    tree: BTreeMap<String, Option<Vec<u8>>>,
    /// What is open under which handle.
    writers: BTreeMap<u64, String>,
}

fn bits(write: bool) -> OpenBits {
    OpenBits { write, truncate: false, append: false, exclusive: false }
}

impl Mount {
    fn new() -> Self {
        let mut tree = BTreeMap::new();
        tree.insert("/".to_string(), None);
        Mount { daemon: FsDaemon::new(500, 600), tree, writers: BTreeMap::new() }
    }

    fn stat(&self, path: &Option<String>) -> StatAnswer {
        let kind_size = match path.as_ref().and_then(|p| self.tree.get(p)) {
            None => (PathKind::NotFound, None),
            Some(None) => (PathKind::Dir, None),
            Some(Some(bytes)) => (PathKind::File, Some(bytes.len() as u64)),
        };
        let stat = PathStat { kind: kind_size.0, size: None };
        StatAnswer { stat: Ok(stat), counted: kind_size.1, now: NOW }
    }

    fn mkdir_path(&mut self, parent: u64, name: &str) -> Result<FileAttr, Errno> {
        let path = self.daemon.path_from_parent(parent, name);
        if let Some(p) = &path {
            self.tree.insert(p.clone(), None);
        }
        let a = self.stat(&path);
        self.daemon.mkdir_path(parent, name, Ok(()), &a)
    }

    fn lookup_entry(&mut self, parent: u64, name: &str) -> Result<FileAttr, Errno> {
        let path = self.daemon.path_from_parent(parent, name);
        let a = self.stat(&path);
        self.daemon.lookup_entry(parent, name, &a)
    }

    fn getattr_entry(&mut self, ino: u64) -> Result<FileAttr, Errno> {
        let path = self.daemon.inodes.get_path(ino);
        let a = self.stat(&path);
        self.daemon.getattr_entry(ino, &a)
    }

    fn create_file(&mut self, parent: u64, name: &str) -> Result<(FileAttr, u64), Errno> {
        let path = self.daemon.path_from_parent(parent, name);
        assert_eq!(create_flag(bits(true)), OpenWriteFlag::CreateOrAppend);
        if let Some(p) = &path {
            self.tree.entry(p.clone()).or_insert(Some(Vec::new()));
        }
        let a = self.stat(&path);
        let made = self.daemon.create_file(parent, name, Ok(77), &a)?;
        self.writers.insert(made.1, path.unwrap());
        Ok(made)
    }

    fn write_handle(&mut self, fh: u64, offset: usize, data: &[u8]) -> Result<usize, Errno> {
        let n = self.daemon.write_handle(fh, data.len(), Ok(()))?;
        let file = self.tree.get_mut(&self.writers[&fh]).unwrap().as_mut().unwrap();
        file.resize(offset.max(file.len()), 0);
        file.truncate(offset);
        file.extend_from_slice(data);
        Ok(n)
    }

    fn read_path(&mut self, ino: u64, offset: i64, size: u32) -> Result<Vec<u8>, Errno> {
        let path = self.daemon.inodes.get_path(ino).ok_or(Errno::Enoent)?;
        let bytes = self.tree[&path].clone().unwrap();
        let mut task = ReadTask::new(offset, size);
        let mut at = 0usize;
        while task.wants() > 0 {
            let n = task.wants().min(3).min(bytes.len() - at);
            task.feed(&bytes[at..at + n].to_vec());
            at += n;
        }
        Ok(task.out)
    }

    fn rename_path(&mut self, from: u64, name: &str, to: u64, new: &str) -> Result<(), Errno> {
        let old = self.daemon.path_from_parent(from, name).unwrap();
        let dst = self.daemon.path_from_parent(to, new).unwrap();
        let moved: Vec<String> = self
            .tree
            .keys()
            .filter(|p| **p == old || p.starts_with(&format!("{}/", old)))
            .cloned()
            .collect();
        for p in moved {
            let what = self.tree.remove(&p).unwrap();
            self.tree.insert(format!("{}{}", dst, &p[old.len()..]), what);
        }
        self.daemon.rename_path(from, name, to, new, Ok(()))
    }

    fn unlink_path(&mut self, parent: u64, name: &str) -> Result<(), Errno> {
        let path = self.daemon.path_from_parent(parent, name).unwrap();
        self.tree.remove(&path);
        self.daemon.unlink_path(parent, name, Ok(()))
    }

    fn readdir_entries(&mut self, ino: u64, offset: i64) -> Result<Vec<DirEntry>, Errno> {
        let dir = self.daemon.inodes.get_path(ino).unwrap_or_default();
        let prefix = if dir == "/" { "/".to_string() } else { format!("{}/", dir) };
        let mut list = Vec::new();
        for (p, what) in &self.tree {
            if p.starts_with(&prefix) && p.len() > prefix.len() {
                let name = &p[prefix.len()..];
                if !name.contains('/') {
                    let kind = if what.is_none() { PathKind::Dir } else { PathKind::File };
                    list.push((name.to_string(), kind));
                }
            }
        }
        self.daemon.readdir_entries(ino, offset, Ok(list))
    }
}

#[test]
fn test_mkdir_and_lookup() {
    let mut m = Mount::new();
    let attr = m.mkdir_path(1, "alpha").expect("mkdir alpha");
    assert_eq!(attr.kind, FileType::Directory);
    let lookup_attr = m.lookup_entry(1, "alpha").expect("lookup alpha");
    assert_eq!(lookup_attr.kind, FileType::Directory);
}

#[test]
fn test_create_write_read_file() {
    let mut m = Mount::new();
    let (attr, fh) = m.create_file(1, "file.txt").expect("create file");
    m.write_handle(fh, 0, b"hello").expect("write");
    assert!(m.daemon.release_handle(fh).is_some());
    let data = m.read_path(attr.ino, 0, 5).expect("read");
    assert_eq!(data, b"hello");
}

#[test]
fn test_rename_file() {
    let mut m = Mount::new();
    let (_attr, fh) = m.create_file(1, "old.txt").expect("create old");
    m.daemon.release_handle(fh);

    m.rename_path(1, "old.txt", 1, "new.txt").expect("rename");
    assert!(m.lookup_entry(1, "old.txt").is_err());
    assert!(m.lookup_entry(1, "new.txt").is_ok());
}

#[test]
fn test_unlink_file() {
    let mut m = Mount::new();
    let (_attr, fh) = m.create_file(1, "delete.txt").expect("create delete");
    m.daemon.release_handle(fh);
    m.unlink_path(1, "delete.txt").expect("unlink");
    assert!(m.lookup_entry(1, "delete.txt").is_err());
}

#[test]
fn test_readdir_contains_entries() {
    let mut m = Mount::new();
    m.mkdir_path(1, "dir").expect("mkdir dir");
    let (_attr, fh) = m.create_file(1, "file").expect("create file");
    m.daemon.release_handle(fh);

    let entries = m.readdir_entries(1, 0).expect("readdir");
    let names: Vec<String> = entries.into_iter().map(|e| e.name).collect();
    assert!(names.contains(&"dir".to_string()));
    assert!(names.contains(&"file".to_string()));
}

#[test]
fn test_rename_keeps_inode_mapping() {
    let mut m = Mount::new();
    let (_attr, fh) = m.create_file(1, "temp.bin").expect("create temp.bin");
    m.write_handle(fh, 0, b"abc").expect("write");
    m.daemon.release_handle(fh);

    let old_ino = m.lookup_entry(1, "temp.bin").expect("lookup old").ino;
    m.rename_path(1, "temp.bin", 1, "final.bin").expect("rename");

    let new_ino = m.lookup_entry(1, "final.bin").expect("lookup new").ino;
    assert_eq!(new_ino, old_ino);
    assert!(m.getattr_entry(old_ino).is_ok());
}

#[test]
fn test_rename_dir_keeps_child_visible() {
    let mut m = Mount::new();
    let src_attr = m.mkdir_path(1, "src").expect("mkdir src");
    m.mkdir_path(src_attr.ino, "nested").expect("mkdir nested");

    m.rename_path(1, "src", 1, "dst").expect("rename dir");
    let dst_ino = m.lookup_entry(1, "dst").expect("lookup dst").ino;
    let child_attr = m.lookup_entry(dst_ino, "nested").expect("lookup child");
    assert_eq!(child_attr.kind, FileType::Directory);
}

#[test]
fn attributes_have_their_defaults() {
    let mut m = Mount::new();
    let dir = m.mkdir_path(1, "d").unwrap();
    assert_eq!((dir.perm, dir.nlink, dir.uid, dir.gid), (0o755, 2, 500, 600));
    assert_eq!((dir.ino, dir.blocks, dir.blksize, dir.size), (2_000_000, 1, 4096, 0));
    assert_eq!((dir.atime, dir.ctime), (NOW, NOW));
    let (file, fh) = m.create_file(1, "f").unwrap();
    assert_eq!((file.perm, file.nlink, file.ino, fh), (0o644, 1, 2_000_001, 1));
    m.write_handle(fh, 0, b"12345678").unwrap();
    assert_eq!(m.getattr_entry(file.ino).unwrap().size, 8);
}

#[test]
fn unknown_numbers_are_refused() {
    let mut m = Mount::new();
    assert_eq!(m.getattr_entry(42), Err(Errno::Enoent));
    assert_eq!(m.lookup_entry(42, "x"), Err(Errno::Enoent));
    assert_eq!(m.lookup_entry(1, "x"), Err(Errno::Enoent));
    assert_eq!(m.mkdir_path(42, "x"), Err(Errno::Enoent));
    assert_eq!(m.readdir_entries(42, 0), Err(Errno::Enoent));
    assert_eq!(m.write_handle(9, 0, b"x"), Err(Errno::Ebadf));
    assert_eq!(m.daemon.open_file(42, bits(true)), Err(Errno::Enoent));
    assert_eq!(m.daemon.open_file(42, bits(false)), Ok(None));
    assert!(m.daemon.release_handle(9).is_none());
    assert_eq!(m.daemon.rename_path(42, "a", 1, "b", Ok(())), Err(Errno::Enoent));
    assert_eq!(m.daemon.unlink_path(42, "a", Ok(())), Err(Errno::Enoent));
}

#[test]
fn failures_of_the_file_system_come_through_as_codes() {
    let mut m = Mount::new();
    let a = StatAnswer { stat: Err(NdnError::NotReady), counted: None, now: NOW };
    assert_eq!(m.daemon.lookup_entry(1, "x", &a), Err(Errno::Eagain));
    let made = m.daemon.mkdir_path(1, "x", Err(NdnError::AlreadyExists), &a);
    assert_eq!(made, Err(Errno::Eexist));
    assert_eq!(
        m.daemon.create_file(1, "x", Err(NdnError::PermissionDenied), &a),
        Err(Errno::Eperm)
    );
    assert_eq!(m.daemon.rename_path(1, "a", 1, "b", Err(NdnError::IoError)), Err(Errno::Eio));
    assert_eq!(
        m.daemon.unlink_path(1, "a", Err(NdnError::Unsupported)),
        Err(Errno::Enosys)
    );
    let list = m.daemon.readdir_entries(1, 0, Err(NdnError::InvalidParam));
    assert_eq!(list, Err(Errno::Einval));
    assert_eq!(m.daemon.keep_writer(Err(NdnError::DbError)), Err(Errno::Eio));
}

#[test]
fn every_failure_has_a_code() {
    let einval = [
        NdnError::InvalidParam,
        NdnError::OffsetTooLarge,
        NdnError::InvalidObjType,
        NdnError::InvalidData,
        NdnError::InvalidId,
        NdnError::InvalidLink,
    ];
    for e in einval {
        assert_eq!(map_ndn_err(e), Errno::Einval);
    }
    let eio = [
        NdnError::InvalidState,
        NdnError::IoError,
        NdnError::DbError,
        NdnError::Internal,
        NdnError::VerifyError,
        NdnError::InComplete,
        NdnError::RemoteError,
        NdnError::DecodeError,
    ];
    for e in eio {
        assert_eq!(map_ndn_err(e), Errno::Eio);
    }
    assert_eq!(map_ndn_err(NdnError::NotFound), Errno::Enoent);
}

#[test]
fn open_flags_choose_the_way_to_write() {
    let mut m = Mount::new();
    let (attr, _) = m.create_file(1, "f").unwrap();
    let open = |m: &Mount, b: OpenBits| m.daemon.open_file(attr.ino, b).unwrap().unwrap();
    assert_eq!(open(&m, bits(true)), ("/f".to_string(), OpenWriteFlag::CreateOrAppend));
    let append = OpenBits { append: true, ..bits(true) };
    assert_eq!(open(&m, append).1, OpenWriteFlag::Append);
    let both = OpenBits { truncate: true, ..append };
    assert_eq!(open(&m, both).1, OpenWriteFlag::CreateOrTruncate);
    assert_eq!(create_flag(both), OpenWriteFlag::CreateOrTruncate);
    assert_eq!(
        create_flag(OpenBits { exclusive: true, ..both }),
        OpenWriteFlag::CreateExclusive
    );
    assert_eq!(create_flag(append), OpenWriteFlag::CreateOrAppend);
}

#[test]
fn a_listing_goes_on_where_it_stopped() {
    let mut m = Mount::new();
    for name in ["a", "b", "c"] {
        m.mkdir_path(1, name).unwrap();
    }
    let all = m.readdir_entries(1, 0).unwrap();
    let shown: Vec<(String, i64)> = all.iter().map(|e| (e.name.clone(), e.offset)).collect();
    let expected = [(".", 1), ("..", 2), ("a", 3), ("b", 4), ("c", 5)];
    let expected: Vec<(String, i64)> =
        expected.iter().map(|e| (e.0.to_string(), e.1)).collect();
    assert_eq!(shown, expected);
    for k in 2..5usize {
        assert_eq!(m.readdir_entries(1, k as i64).unwrap(), all[k..].to_vec());
    }
    assert!(m.readdir_entries(1, 5).unwrap().is_empty());
    assert!(m.readdir_entries(1, 500).unwrap().is_empty());
}

#[test]
fn reads_take_the_piece_that_was_asked_for() {
    let mut m = Mount::new();
    let (attr, fh) = m.create_file(1, "f").unwrap();
    m.write_handle(fh, 0, b"0123456789").unwrap();
    assert_eq!(m.read_path(attr.ino, 0, 4).unwrap(), b"0123");
    assert_eq!(m.read_path(attr.ino, 4, 4).unwrap(), b"4567");
    assert_eq!(m.read_path(attr.ino, 8, 4).unwrap(), b"89");
    assert_eq!(m.read_path(attr.ino, 20, 4).unwrap(), b"");
    assert_eq!(m.read_path(attr.ino, 3, 0).unwrap(), b"");
    assert_eq!(m.read_path(attr.ino, -5, 2).unwrap(), b"01");
}

#[test]
fn sizes_are_counted_only_where_nothing_else_tells_them() {
    let stat = |kind, size| PathStat { kind, size };
    assert!(must_count(&stat(PathKind::File, None)));
    assert!(must_count(&stat(PathKind::Object, None)));
    assert!(!must_count(&stat(PathKind::File, Some(3))));
    assert!(!must_count(&stat(PathKind::Dir, None)));
}

fn no_change() -> SetAttr {
    SetAttr {
        mode: None,
        uid: None,
        gid: None,
        size: None,
        atime: None,
        mtime: None,
        ctime: None,
        crtime: None,
        flags: None,
        has_handle: false,
    }
}

#[test]
fn attributes_change_as_asked() {
    let mut m = Mount::new();
    let (attr, _) = m.create_file(1, "f").unwrap();
    let path = Some("/f".to_string());
    let later = Time { secs: 200, nanos: 7 };
    let req = SetAttr {
        mode: Some(0o100600),
        uid: Some(1),
        atime: Some(TimeOrNow::Now),
        mtime: Some(TimeOrNow::SpecificTime(Time { secs: 5, nanos: 0 })),
        flags: Some(9),
        ..no_change()
    };
    let a = StatAnswer { now: later, ..m.stat(&path) };
    let (step, perm) = m.daemon.setattr_start(attr.ino, &req, &a).unwrap();
    assert_eq!(step, SizeStep::Keep);
    let after = m.daemon.setattr_finish(attr.ino, perm, &req, Ok(()), &a).unwrap();
    assert_eq!((after.perm, after.uid, after.gid, after.flags), (0o600, 1, 600, 9));
    assert_eq!((after.atime, after.ctime, after.crtime), (later, later, NOW));
    assert_eq!(after.mtime, Time { secs: 5, nanos: 0 });
    assert_eq!(m.getattr_entry(attr.ino).unwrap().perm, 0o600);
}

#[test]
fn a_file_can_be_emptied_but_not_cut_without_a_handle() {
    let mut m = Mount::new();
    let (attr, fh) = m.create_file(1, "f").unwrap();
    m.write_handle(fh, 0, b"abc").unwrap();
    let path = Some("/f".to_string());
    let a = m.stat(&path);
    let sized = |n, has_handle| SetAttr { size: Some(n), has_handle, ..no_change() };
    let start = |m: &mut Mount, r: SetAttr| m.daemon.setattr_start(attr.ino, &r, &a);
    assert_eq!(start(&mut m, sized(0, false)).unwrap().0, SizeStep::Truncate);
    assert_eq!(start(&mut m, sized(3, false)).unwrap().0, SizeStep::Keep);
    assert_eq!(start(&mut m, sized(2, false)), Err(Errno::Einval));
    assert_eq!(start(&mut m, sized(2, true)).unwrap().0, SizeStep::Keep);
    let failed =
        m.daemon.setattr_finish(attr.ino, 0, &sized(0, false), Err(NdnError::IoError), &a);
    assert_eq!(failed, Err(Errno::Eio));

    let root = Some("/".to_string());
    let a = m.stat(&root);
    assert_eq!(m.daemon.setattr_start(1, &sized(0, false), &a), Err(Errno::Eisdir));
    assert_eq!(m.daemon.setattr_start(42, &no_change(), &a), Err(Errno::Enoent));
}

#[test]
fn numbers_survive_what_happens_elsewhere() {
    let mut t = InodeTable::new();
    assert_eq!(t.get_path(1), Some("/".to_string()));
    let a = t.get_or_create("/a").unwrap();
    let ab = t.get_or_create("/a/b").unwrap();
    let ax = t.get_or_create("/ax").unwrap();
    assert_eq!(t.get_or_create("/a"), Some(a));

    t.rename_path_recursive("/a", "/c");
    assert_eq!(t.get_path(a), Some("/c".to_string()));
    assert_eq!(t.get_path(ab), Some("/c/b".to_string()));
    assert_eq!(t.get_path(ax), Some("/ax".to_string()));

    t.rename_path_recursive("/nothing", "/ax");
    assert_eq!(t.get_path(ax), Some("/ax".to_string()));
    t.rename_path_recursive("/c", "/ax");
    assert_eq!(t.get_path(ax), None);
    assert_eq!(t.get_path(a), Some("/ax".to_string()));

    t.rename_path_recursive("/ax", "/a");
    let mut gone = t.remove_path_recursive("/a");
    gone.sort();
    assert_eq!(gone, vec![a, ab]);
    assert_eq!(t.get_path(a), None);
    let again = t.get_or_create("/a").unwrap();
    assert!(again > ax);
}

#[test]
fn nothing_is_kept_of_an_unlinked_file() {
    let mut m = Mount::new();
    let (attr, _) = m.create_file(1, "f").unwrap();
    let (other, _) = m.create_file(1, "g").unwrap();
    let x = &mut m.daemon.xattrs;
    x.setxattr(attr.ino, b"k".to_vec(), &b"v".to_vec(), NO_BITS, 0).unwrap();
    x.setxattr(other.ino, b"k".to_vec(), &b"w".to_vec(), NO_BITS, 0).unwrap();
    m.unlink_path(1, "f").unwrap();
    let gone = m.daemon.xattrs.getxattr(attr.ino, b"k".to_vec(), 10);
    assert_eq!(gone, Err(Errno::NoAttr));
    let kept = m.daemon.xattrs.getxattr(other.ino, b"k".to_vec(), 10);
    assert_eq!(kept, Ok(XattrReply::Data(b"w".to_vec())));
    assert_eq!(m.getattr_entry(attr.ino), Err(Errno::Enoent));
}

#[test]
fn extended_attributes_are_set_read_listed_and_removed() {
    let mut x = Xattrs::new();
    let set = |x: &mut Xattrs, name: &[u8], value: &[u8], create, replace, pos| {
        x.setxattr(7, name.to_vec(), &value.to_vec(), SetBits { create, replace }, pos)
    };
    assert_eq!(set(&mut x, b"a", b"1", true, true, 0), Err(Errno::Einval));
    assert_eq!(set(&mut x, b"a", b"1", false, true, 0), Err(Errno::NoAttr));
    assert_eq!(set(&mut x, b"a", b"123", true, false, 0), Ok(()));
    assert_eq!(set(&mut x, b"a", b"1", true, false, 0), Err(Errno::Eexist));
    assert_eq!(x.getxattr(7, b"a".to_vec(), 0), Ok(XattrReply::Size(3)));
    assert_eq!(x.getxattr(7, b"a".to_vec(), 2), Err(Errno::Erange));
    assert_eq!(x.getxattr(7, b"a".to_vec(), 3), Ok(XattrReply::Data(b"123".to_vec())));
    assert_eq!(x.getxattr(8, b"a".to_vec(), 3), Err(Errno::NoAttr));

    set(&mut x, b"a", b"XY", false, true, 2).unwrap();
    assert_eq!(x.getxattr(7, b"a".to_vec(), 9), Ok(XattrReply::Data(b"12XY".to_vec())));
    set(&mut x, b"b", b"Z", false, false, 2).unwrap();
    assert_eq!(x.getxattr(7, b"b".to_vec(), 9), Ok(XattrReply::Data(b"\0\0Z".to_vec())));

    assert_eq!(x.listxattr(7, 0), Ok(XattrReply::Size(4)));
    assert_eq!(x.listxattr(7, 4), Ok(XattrReply::Data(b"a\0b\0".to_vec())));
    assert_eq!(x.listxattr(7, 3), Err(Errno::Erange));
    x.removexattr(7, b"a".to_vec());
    x.removexattr(7, b"a".to_vec());
    assert_eq!(x.listxattr(7, 9), Ok(XattrReply::Data(b"b\0".to_vec())));
    assert_eq!(x.listxattr(9, 9), Ok(XattrReply::Data(Vec::new())));
}

#[test]
fn flags_are_read_from_their_words() {
    let masks = OpenMasks {
        access: 3,
        write_only: 1,
        read_write: 2,
        exclusive: 0o200,
        truncate: 0o1000,
        append: 0o2000,
    };
    let read = OpenBits::from_word(0, &masks);
    assert_eq!(read, bits(false));
    assert_eq!(OpenBits::from_word(1, &masks), bits(true));
    assert_eq!(OpenBits::from_word(2, &masks), bits(true));
    assert!(!OpenBits::from_word(3, &masks).write);
    let append = OpenBits::from_word(0o2001, &masks);
    assert!(append.write && append.append && !append.truncate);
    assert_eq!(open_flag(append), OpenWriteFlag::Append);
    let truncate = OpenBits::from_word(0o3002, &masks);
    assert_eq!(open_flag(truncate), OpenWriteFlag::CreateOrTruncate);
    let exclusive = OpenBits::from_word(0o1201, &masks);
    assert_eq!(create_flag(exclusive), OpenWriteFlag::CreateExclusive);

    assert_eq!(SetBits::from_word(0, 1, 2), NO_BITS);
    assert_eq!(SetBits::from_word(2, 1, 2), SetBits { create: false, replace: true });
    assert_eq!(SetBits::from_word(5, 1, 2), SetBits { create: true, replace: false });
}

#[test]
fn configurations_have_their_defaults() {
    let entry = StoreConfigEntry::default();
    assert_eq!((entry.readonly, entry.enabled, entry.weight), (false, true, 1));
    let service = FsDaemonServiceConfig::default();
    assert_eq!(service.instance_id, "default");
    assert_eq!(service.fs_buffer_dir, "/opt/buckyos/var/fs_buffer");
    assert_eq!(service.fs_meta_db_path, "/opt/buckyos/var/fs_meta/fs_meta.db");
    assert_eq!(service.fs_buffer_size_limit, 0);

    let mut layout = StoreLayoutConfigFile::default();
    assert_eq!(layout.epoch, 1);
    layout.stores = vec![entry.clone(), entry.clone()];
    assert_eq!(
        layout.check_stores("/etc/s.json"),
        Err("store config /etc/s.json must include at least 3 stores".to_string())
    );
    layout.stores.push(entry);
    assert_eq!(layout.check_stores("/etc/s.json"), Ok(()));
}

#[test]
fn the_service_is_started_once() {
    let runner = FsMetaServiceRunner::new(FSMetaService::new());
    assert!(runner.start_in_process().is_ok());
    let empty = FsMetaServiceRunner { service: None };
    match empty.start_in_process() {
        Err(text) => assert_eq!(text, "fs_meta runner already started"),
        Ok(_) => panic!("started twice"),
    }
}
