//! Requests that read and change several rows at once.  Each takes the tables
//! as they are and returns the tables as they shall be, so that a refusal
//! leaves nothing half done.

use vstd::prelude::*;
use crate::errors::{MetaError, Stage};
use crate::outside::{base_child, BaseChildLookup, BaseStore, BaseStoreView, Stop};
use crate::records::{kind_of, DentryTarget, NodeKind, NodeRecord, NodeState, ObjId};
use crate::stats::stat_bump_after;
use crate::table::Dup;
use crate::tables::{
    alloc_inode_after, create_dentry_after, fresh_dir_record, new_dir_record, replace_target_after,
    rev_or_zero, MetaTables, TablesView,
};

verus! {

pub type After = Result<TablesView, Stop>;

/// The tables returned are the ones described, or the refusal is the one described.
pub open spec fn agrees(r: Result<MetaTables, Stop>, after: After) -> bool {
    match r {
        Ok(t) => t.wf() && after == Ok::<TablesView, Stop>(t@),
        Err(s) => after == Err::<TablesView, Stop>(s),
    }
}

pub open spec fn refuse<T>(e: MetaError) -> Result<T, Stop> {
    Err(Stop::Refused(e))
}

/// Lifts a table request into one that may also stop for an answer.
pub open spec fn lift<T>(r: Result<T, MetaError>) -> Result<T, Stop> {
    match r {
        Ok(x) => Ok(x),
        Err(e) => Err(Stop::Refused(e)),
    }
}

/// The directory in which a name may be created, or why there is none.
pub open spec fn writable_dir(v: TablesView, parent: u64, missing: MetaError) -> Result<
    NodeRecord,
    MetaError,
> {
    match v.read(parent) {
        Err(e) => Err(e),
        Ok(None) => Err(missing),
        Ok(Some(node)) => if kind_of(node.state) != NodeKind::Dir {
            Err(MetaError::ParentNotDir)
        } else if node.read_only {
            Err(MetaError::ParentReadOnly)
        } else {
            Ok(node)
        },
    }
}

/// `name` is free in a directory: hidden by a tombstone, or neither among its
/// entries nor in its base.
pub open spec fn name_taken(
    v: TablesView,
    base: BaseStoreView,
    parent: u64,
    node: NodeRecord,
    name: String,
) -> Option<Stop> {
    match v.dentry(parent, name@) {
        Some(d) => if d.target is Tombstone {
            None
        } else {
            Some(Stop::Refused(MetaError::PathExists { parent, name }))
        },
        None => match base_child(base, node, name) {
            Err(s) => Some(s),
            Ok(BaseChildLookup::Missing) => None,
            Ok(_) => Some(Stop::Refused(MetaError::PathExists { parent, name })),
        },
    }
}

/// Points `name` to `target`, whether or not the entry exists.
pub open spec fn upsert_after(
    v: TablesView,
    parent: u64,
    name: String,
    target: DentryTarget,
    rev: u64,
    now: u64,
) -> Result<TablesView, MetaError> {
    match v.dentry(parent, name@) {
        Some(d) => replace_target_after(v, parent, name@, d.target, target, rev, now),
        None => create_dentry_after(v, parent, name, target, rev, now),
    }
}

/// Enters a new name into a directory that admits it.
pub open spec fn enter_after(
    v: TablesView,
    base: BaseStoreView,
    parent: u64,
    name: String,
    target: DentryTarget,
    now: u64,
) -> After {
    match writable_dir(v, parent, MetaError::ParentDirNotFound) {
        Err(e) => refuse(e),
        Ok(node) => match name_taken(v, base, parent, node, name) {
            Some(s) => Err(s),
            None => lift(upsert_after(v, parent, name, target, rev_or_zero(node.rev), now)),
        },
    }
}

pub open spec fn set_file_after(
    v: TablesView,
    base: BaseStoreView,
    parent: u64,
    name: String,
    obj_id: ObjId,
    now: u64,
) -> After {
    if name@.len() == 0 {
        refuse(MetaError::InvalidPath)
    } else {
        match enter_after(v, base, parent, name, DentryTarget::ObjId(obj_id), now) {
            Err(s) => Err(s),
            Ok(w) => match stat_bump_after(w, obj_id, 1, now) {
                Err(e) => refuse(e),
                Ok((x, _)) => Ok(x),
            },
        }
    }
}

pub open spec fn set_dir_after(
    v: TablesView,
    base: BaseStoreView,
    parent: u64,
    name: String,
    dir_obj_id: ObjId,
    now: u64,
) -> After {
    if name@.len() == 0 {
        refuse(MetaError::InvalidPath)
    } else if !dir_obj_id.is_dir() {
        refuse(MetaError::NotDirObject)
    } else {
        enter_after(v, base, parent, name, DentryTarget::ObjId(dir_obj_id), now)
    }
}

pub open spec fn symlink_after(
    v: TablesView,
    base: BaseStoreView,
    parent: u64,
    name: String,
    target: String,
    now: u64,
) -> After {
    if name@.len() == 0 {
        refuse(MetaError::InvalidLinkPath)
    } else if target@.len() == 0 {
        refuse(MetaError::InvalidTargetPath)
    } else {
        enter_after(v, base, parent, name, DentryTarget::SymLink(target), now)
    }
}

/// Allocates an inode and points `name` to it.
pub open spec fn alloc_under_after(
    v: TablesView,
    parent: u64,
    name: String,
    node: NodeRecord,
    rev: u64,
    now: u64,
) -> Result<(TablesView, u64), MetaError> {
    match alloc_inode_after(v, node) {
        Err(e) => Err(e),
        Ok((w, id)) => match upsert_after(
            w,
            parent,
            name,
            DentryTarget::IndexNodeId(id),
            rev,
            now,
        ) {
            Err(e) => Err(e),
            Ok(x) => Ok((x, id)),
        },
    }
}

pub open spec fn create_dir_after(
    v: TablesView,
    base: BaseStoreView,
    parent: u64,
    name: String,
    now: u64,
) -> After {
    if name@.len() == 0 {
        refuse(MetaError::InvalidPath)
    } else {
        match writable_dir(v, parent, MetaError::ParentDirNotFound) {
            Err(e) => refuse(e),
            Ok(node) => match name_taken(v, base, parent, node, name) {
                Some(s) => Err(s),
                None => match alloc_under_after(
                    v,
                    parent,
                    name,
                    fresh_dir_record(NodeState::DirNormal, None),
                    rev_or_zero(node.rev),
                    now,
                ) {
                    Err(e) => refuse(e),
                    Ok((w, _)) => Ok(w),
                },
            },
        }
    }
}

/// Hides `name` behind a tombstone, whether or not it exists.
pub open spec fn delete_after(v: TablesView, parent: u64, name: String, now: u64) -> Result<
    TablesView,
    MetaError,
> {
    if name@.len() == 0 {
        Err(MetaError::InvalidPath)
    } else {
        match inode_rev(v, parent) {
            Err(e) => Err(e),
            Ok(rev) => upsert_after(v, parent, name, DentryTarget::Tombstone, rev, now),
        }
    }
}

/// The revision of an inode, or why it cannot be had.
pub open spec fn inode_rev(v: TablesView, id: u64) -> Result<u64, MetaError> {
    match v.read(id) {
        Err(e) => Err(e),
        Ok(None) => Err(MetaError::InodeNotFound),
        Ok(Some(_)) => Ok(v.rev(id)),
    }
}

/// What a request to enter a file, or to make a directory, answers before it
/// looks at the tables.
pub open spec fn set_file_seen(name: Seq<char>) -> Option<Result<(), MetaError>> {
    if name.len() == 0 {
        Some(Err(MetaError::InvalidPath))
    } else {
        None
    }
}

pub(crate) fn see_set_file(name: &str) -> (r: Option<Result<(), MetaError>>)
    ensures
        r == set_file_seen(name@),
{
    if name.is_empty() {
        Some(Err(MetaError::InvalidPath))
    } else {
        None
    }
}

/// The same for a request to enter a directory object.
pub open spec fn set_dir_seen(name: Seq<char>, dir_obj_id: ObjId) -> Option<Result<(), MetaError>> {
    if name.len() == 0 {
        Some(Err(MetaError::InvalidPath))
    } else if !dir_obj_id.is_dir() {
        Some(Err(MetaError::NotDirObject))
    } else {
        None
    }
}

pub(crate) fn see_set_dir(name: &str, dir_obj_id: &ObjId) -> (r: Option<Result<(), MetaError>>)
    ensures
        r == set_dir_seen(name@, *dir_obj_id),
{
    if name.is_empty() {
        Some(Err(MetaError::InvalidPath))
    } else if !dir_obj_id.is_dir_object() {
        Some(Err(MetaError::NotDirObject))
    } else {
        None
    }
}

/// The same for a request to enter a link.
pub open spec fn symlink_seen(name: Seq<char>, target: Seq<char>) -> Option<Result<(), MetaError>> {
    if name.len() == 0 {
        Some(Err(MetaError::InvalidLinkPath))
    } else if target.len() == 0 {
        Some(Err(MetaError::InvalidTargetPath))
    } else {
        None
    }
}

pub(crate) fn see_symlink(name: &str, target: &str) -> (r: Option<Result<(), MetaError>>)
    ensures
        r == symlink_seen(name@, target@),
{
    if name.is_empty() {
        Some(Err(MetaError::InvalidLinkPath))
    } else if target.is_empty() {
        Some(Err(MetaError::InvalidTargetPath))
    } else {
        None
    }
}

/// What reading alone tells of a request to delete a name: it is done where the
/// name is hidden already.
pub open spec fn delete_seen(v: TablesView, parent: u64, name: Seq<char>) -> Option<
    Result<(), MetaError>,
> {
    if name.len() == 0 {
        Some(Err(MetaError::InvalidPath))
    } else {
        match (inode_rev(v, parent), v.dentry(parent, name)) {
            (Err(e), _) => Some(Err(e)),
            (Ok(_), Some(d)) => if d.target is Tombstone {
                Some(Ok(()))
            } else {
                None
            },
            (Ok(_), None) => None,
        }
    }
}

/// The inode of an existing directory under `name`, or a new one.
pub open spec fn create_dir_under_after(
    v: TablesView,
    parent: u64,
    name: String,
    now: u64,
) -> Result<(TablesView, u64), MetaError> {
    let existing = v.dentry(parent, name@);
    if existing is Some && existing->0.target is IndexNodeId {
        let id = existing->0.target->IndexNodeId_0;
        match v.read(id) {
            Err(e) => Err(e),
            Ok(None) => Err(MetaError::ExistingInodeNotFound),
            Ok(Some(node)) => if kind_of(node.state) != NodeKind::Dir {
                Err(MetaError::ExistsNotDir { name })
            } else {
                Ok((v, id))
            },
        }
    } else if existing is Some && !(existing->0.target is Tombstone) {
        Err(MetaError::ExistsNotDir { name })
    } else {
        match new_dir_under_after(v, parent, name, NodeState::DirNormal, None, now) {
            Err((_, e)) => Err(e),
            Ok(made) => Ok(made),
        }
    }
}

/// What of a new directory could not be had.
pub enum DirPart {
    Inode,
    Parent,
    Entry,
}

/// The refusal as it is reported where a directory object is laid out.
pub open spec fn part_error(part: DirPart, e: MetaError) -> MetaError {
    match part {
        DirPart::Inode => MetaError::At { stage: Stage::AllocInode, cause: Box::new(e) },
        DirPart::Parent => e,
        DirPart::Entry => MetaError::At { stage: Stage::UpsertTarget, cause: Box::new(e) },
    }
}

/// A new directory inode under `name`, at the parent's present revision.
pub open spec fn new_dir_under_after(
    v: TablesView,
    parent: u64,
    name: String,
    state: NodeState,
    base: Option<ObjId>,
    now: u64,
) -> Result<(TablesView, u64), (DirPart, MetaError)> {
    match alloc_inode_after(v, fresh_dir_record(state, base)) {
        Err(e) => Err((DirPart::Inode, e)),
        Ok((w, id)) => match inode_rev(w, parent) {
            Err(e) => Err((DirPart::Parent, e)),
            Ok(rev) => match upsert_after(
                w,
                parent,
                name,
                DentryTarget::IndexNodeId(id),
                rev,
                now,
            ) {
                Err(e) => Err((DirPart::Entry, e)),
                Ok(x) => Ok((x, id)),
            },
        },
    }
}

/// Gives a directory object an inode of its own, laid over the object.
pub open spec fn materialize_after(
    v: TablesView,
    parent: u64,
    name: String,
    dir_obj_id: ObjId,
    now: u64,
) -> Result<(TablesView, u64), MetaError> {
    match new_dir_under_after(v, parent, name, NodeState::DirOverlay, Some(dir_obj_id), now) {
        Err((part, e)) => Err(part_error(part, e)),
        Ok(made) => Ok(made),
    }
}

impl MetaTables {
    /// What reading tells of a request to delete a name.
    pub(crate) fn see_delete(&self, parent: u64, name: &str) -> (r: Option<Result<(), MetaError>>)
        requires
            self.wf(),
        ensures
            r == delete_seen(self@, parent, name@),
    {
        if name.is_empty() {
            return Some(Err(MetaError::InvalidPath));
        }
        if let Err(e) = self.get_inode_rev(parent) {
            return Some(Err(e));
        }
        match self.get_dentry(parent, name) {
            Some(d) => if matches!(d.target, DentryTarget::Tombstone) {
                Some(Ok(()))
            } else {
                None
            },
            None => None,
        }
    }

    /// The directory `parent`, if names may be created in it.
    pub fn open_dir_for_write(&self, parent: u64, missing: MetaError) -> (r: Result<
        NodeRecord,
        MetaError,
    >)
        requires
            self.wf(),
        ensures
            r == writable_dir(self@, parent, missing),
    {
        match self.get_inode(parent) {
            Err(e) => Err(e),
            Ok(None) => Err(missing),
            Ok(Some(node)) => {
                if !matches!(node.get_node_kind(), NodeKind::Dir) {
                    Err(MetaError::ParentNotDir)
                } else if node.read_only {
                    Err(MetaError::ParentReadOnly)
                } else {
                    Ok(node)
                }
            },
        }
    }

    /// Makes sure that `name` is free in a directory.
    pub fn ensure_name_absent_for_create(
        &self,
        base: &BaseStore,
        parent: u64,
        node: &NodeRecord,
        name: &String,
    ) -> (r: Result<(), Stop>)
        requires
            self.wf(),
            base.wf(),
        ensures
            match r {
                Ok(_) => name_taken(self@, base@, parent, *node, *name) is None,
                Err(s) => name_taken(self@, base@, parent, *node, *name) == Some(s),
            },
    {
        match self.get_dentry(parent, name.as_str()) {
            Some(d) => match d.target {
                DentryTarget::Tombstone => Ok(()),
                _ => Err(
                    Stop::Refused(MetaError::PathExists { parent, name: name.clone() }),
                ),
            },
            None => match base.lookup_base_dirobj_child(node, name) {
                Err(s) => Err(s),
                Ok(BaseChildLookup::Missing) => Ok(()),
                Ok(_) => Err(Stop::Refused(MetaError::PathExists { parent, name: name.clone() })),
            },
        }
    }

    /// Points the entry `name` to `target`, creating it where needed.
    pub fn upsert_dentry_with_parent_rev(
        &mut self,
        parent: u64,
        name: String,
        target: DentryTarget,
        expected_parent_rev: u64,
        now: u64,
    ) -> (r: Result<(), MetaError>)
        requires
            old(self).wf(),
        ensures
            final(self).wf(),
            match r {
                Ok(_) => upsert_after(old(self)@, parent, name, target, expected_parent_rev, now)
                    == Ok::<TablesView, MetaError>(final(self)@),
                Err(e) => upsert_after(old(self)@, parent, name, target, expected_parent_rev, now)
                    == Err::<TablesView, MetaError>(e) && final(self)@ == old(self)@,
            },
    {
        match self.get_dentry(parent, name.as_str()) {
            Some(d) => self.replace_target(
                parent,
                name.as_str(),
                &d.target,
                target,
                expected_parent_rev,
                now,
            ),
            None => self.create_dentry(parent, name, target, expected_parent_rev, now),
        }
    }

    /// Hides the entry `name` behind a tombstone.
    pub fn set_tombstone_with_parent_rev(
        &mut self,
        parent: u64,
        name: String,
        expected_parent_rev: u64,
        now: u64,
    ) -> (r: Result<(), MetaError>)
        requires
            old(self).wf(),
        ensures
            final(self).wf(),
            match r {
                Ok(_) => upsert_after(
                    old(self)@,
                    parent,
                    name,
                    DentryTarget::Tombstone,
                    expected_parent_rev,
                    now,
                ) == Ok::<TablesView, MetaError>(final(self)@),
                Err(e) => upsert_after(
                    old(self)@,
                    parent,
                    name,
                    DentryTarget::Tombstone,
                    expected_parent_rev,
                    now,
                ) == Err::<TablesView, MetaError>(e) && final(self)@ == old(self)@,
            },
    {
        self.upsert_dentry_with_parent_rev(
            parent,
            name,
            DentryTarget::Tombstone,
            expected_parent_rev,
            now,
        )
    }

    /// The revision of an inode.
    pub fn get_inode_rev(&self, inode_id: u64) -> (r: Result<u64, MetaError>)
        requires
            self.wf(),
        ensures
            r == inode_rev(self@, inode_id),
    {
        match self.get_inode(inode_id) {
            Err(e) => Err(e),
            Ok(None) => Err(MetaError::InodeNotFound),
            Ok(Some(node)) => Ok(
                match node.rev {
                    Some(x) => x,
                    None => 0,
                },
            ),
        }
    }

    fn enter(
        &self,
        base: &BaseStore,
        parent: u64,
        name: String,
        target: DentryTarget,
        now: u64,
    ) -> (r: Result<MetaTables, Stop>)
        requires
            self.wf(),
            base.wf(),
        ensures
            agrees(r, enter_after(self@, base@, parent, name, target, now)),
    {
        let node: NodeRecord = match self.open_dir_for_write(
            parent,
            MetaError::ParentDirNotFound,
        ) {
            Ok(node) => node,
            Err(e) => {
                return Err(Stop::Refused(e));
            },
        };
        match self.ensure_name_absent_for_create(base, parent, &node, &name) {
            Ok(_) => {},
            Err(s) => {
                return Err(s);
            },
        }
        let rev: u64 = match node.rev {
            Some(x) => x,
            None => 0,
        };
        let mut t: MetaTables = self.copy();
        match t.upsert_dentry_with_parent_rev(parent, name, target, rev, now) {
            Ok(_) => Ok(t),
            Err(e) => Err(Stop::Refused(e)),
        }
    }

    /// Enters a file object under a new name and counts the reference to it.
    pub fn set_file(
        &self,
        base: &BaseStore,
        parent: u64,
        name: String,
        obj_id: ObjId,
        now: u64,
    ) -> (r: Result<MetaTables, Stop>)
        requires
            self.wf(),
            base.wf(),
        ensures
            agrees(r, set_file_after(self@, base@, parent, name, obj_id, now)),
    {
        if name.as_str().is_empty() {
            return Err(Stop::Refused(MetaError::InvalidPath));
        }
        let mut t: MetaTables = match self.enter(
            base,
            parent,
            name,
            DentryTarget::ObjId(obj_id.dup()),
            now,
        ) {
            Ok(t) => t,
            Err(s) => {
                return Err(s);
            },
        };
        match t.obj_stat_bump(obj_id, 1, now) {
            Ok(_) => Ok(t),
            Err(e) => Err(Stop::Refused(e)),
        }
    }

    /// Enters a directory object under a new name.
    pub fn set_dir(
        &self,
        base: &BaseStore,
        parent: u64,
        name: String,
        dir_obj_id: ObjId,
        now: u64,
    ) -> (r: Result<MetaTables, Stop>)
        requires
            self.wf(),
            base.wf(),
        ensures
            agrees(r, set_dir_after(self@, base@, parent, name, dir_obj_id, now)),
    {
        if name.as_str().is_empty() {
            return Err(Stop::Refused(MetaError::InvalidPath));
        }
        if !dir_obj_id.is_dir_object() {
            return Err(Stop::Refused(MetaError::NotDirObject));
        }
        self.enter(base, parent, name, DentryTarget::ObjId(dir_obj_id), now)
    }

    /// Enters a symbolic link; the target path is kept as it is given.
    pub fn symlink(
        &self,
        base: &BaseStore,
        link_parent: u64,
        link_name: String,
        target: String,
        now: u64,
    ) -> (r: Result<MetaTables, Stop>)
        requires
            self.wf(),
            base.wf(),
        ensures
            agrees(r, symlink_after(self@, base@, link_parent, link_name, target, now)),
    {
        if link_name.as_str().is_empty() {
            return Err(Stop::Refused(MetaError::InvalidLinkPath));
        }
        if target.as_str().is_empty() {
            return Err(Stop::Refused(MetaError::InvalidTargetPath));
        }
        self.enter(base, link_parent, link_name, DentryTarget::SymLink(target), now)
    }

    /// Allocates `node` and points `name` to it.
    pub(crate) fn alloc_under(
        &mut self,
        parent: u64,
        name: String,
        node: NodeRecord,
        rev: u64,
        now: u64,
    ) -> (r: Result<u64, MetaError>)
        requires
            old(self).wf(),
        ensures
            final(self).wf(),
            match r {
                Ok(id) => alloc_under_after(old(self)@, parent, name, node, rev, now) == Ok::<
                    (TablesView, u64),
                    MetaError,
                >((final(self)@, id)),
                Err(e) => alloc_under_after(old(self)@, parent, name, node, rev, now) == Err::<
                    (TablesView, u64),
                    MetaError,
                >(e),
            },
    {
        match self.alloc_inode(node) {
            Err(e) => Err(e),
            Ok(id) => match self.upsert_dentry_with_parent_rev(
                parent,
                name,
                DentryTarget::IndexNodeId(id),
                rev,
                now,
            ) {
                Err(e) => Err(e),
                Ok(_) => Ok(id),
            },
        }
    }

    /// Makes a directory under a new name.
    pub fn create_dir(
        &self,
        base: &BaseStore,
        parent: u64,
        name: String,
        now: u64,
    ) -> (r: Result<MetaTables, Stop>)
        requires
            self.wf(),
            base.wf(),
        ensures
            agrees(r, create_dir_after(self@, base@, parent, name, now)),
    {
        if name.as_str().is_empty() {
            return Err(Stop::Refused(MetaError::InvalidPath));
        }
        let node: NodeRecord = match self.open_dir_for_write(
            parent,
            MetaError::ParentDirNotFound,
        ) {
            Ok(node) => node,
            Err(e) => {
                return Err(Stop::Refused(e));
            },
        };
        match self.ensure_name_absent_for_create(base, parent, &node, &name) {
            Ok(_) => {},
            Err(s) => {
                return Err(s);
            },
        }
        let rev: u64 = match node.rev {
            Some(x) => x,
            None => 0,
        };
        let mut t: MetaTables = self.copy();
        let fresh: NodeRecord = new_dir_record(NodeState::DirNormal, None);
        match t.alloc_under(parent, name, fresh, rev, now) {
            Ok(_) => Ok(t),
            Err(e) => Err(Stop::Refused(e)),
        }
    }

    /// Deletes a name by hiding it.
    pub fn delete(&self, parent: u64, name: String, now: u64) -> (r: Result<MetaTables, MetaError>)
        requires
            self.wf(),
        ensures
            match r {
                Ok(t) => t.wf() && delete_after(self@, parent, name, now) == Ok::<
                    TablesView,
                    MetaError,
                >(t@),
                Err(e) => delete_after(self@, parent, name, now) == Err::<TablesView, MetaError>(e),
            },
    {
        if name.as_str().is_empty() {
            return Err(MetaError::InvalidPath);
        }
        let rev: u64 = match self.get_inode_rev(parent) {
            Ok(rev) => rev,
            Err(e) => {
                return Err(e);
            },
        };
        let mut t: MetaTables = self.copy();
        match t.set_tombstone_with_parent_rev(parent, name, rev, now) {
            Ok(_) => Ok(t),
            Err(e) => Err(e),
        }
    }

    fn new_dir_under(
        &self,
        parent: u64,
        name: String,
        state: NodeState,
        base: Option<ObjId>,
        now: u64,
    ) -> (r: Result<(MetaTables, u64), (DirPart, MetaError)>)
        requires
            self.wf(),
        ensures
            match r {
                Ok((t, id)) => t.wf() && new_dir_under_after(self@, parent, name, state, base, now)
                    == Ok::<(TablesView, u64), (DirPart, MetaError)>((t@, id)),
                Err(e) => new_dir_under_after(self@, parent, name, state, base, now) == Err::<
                    (TablesView, u64),
                    (DirPart, MetaError),
                >(e),
            },
    {
        let mut t: MetaTables = self.copy();
        let id: u64 = match t.alloc_inode(new_dir_record(state, base)) {
            Ok(id) => id,
            Err(e) => {
                return Err((DirPart::Inode, e));
            },
        };
        let rev: u64 = match t.get_inode_rev(parent) {
            Ok(rev) => rev,
            Err(e) => {
                return Err((DirPart::Parent, e));
            },
        };
        match t.upsert_dentry_with_parent_rev(
            parent,
            name,
            DentryTarget::IndexNodeId(id),
            rev,
            now,
        ) {
            Ok(_) => Ok((t, id)),
            Err(e) => Err((DirPart::Entry, e)),
        }
    }

    /// Finds or makes the directory `name` in `parent`.
    pub fn create_dir_under_parent(&self, parent: u64, name: &String, now: u64) -> (r: Result<
        (MetaTables, u64),
        MetaError,
    >)
        requires
            self.wf(),
        ensures
            match r {
                Ok((t, id)) => t.wf() && create_dir_under_after(self@, parent, *name, now) == Ok::<
                    (TablesView, u64),
                    MetaError,
                >((t@, id)),
                Err(e) => create_dir_under_after(self@, parent, *name, now) == Err::<
                    (TablesView, u64),
                    MetaError,
                >(e),
            },
    {
        match self.get_dentry(parent, name.as_str()) {
            Some(d) => match d.target {
                DentryTarget::IndexNodeId(id) => {
                    return match self.get_inode(id) {
                        Err(e) => Err(e),
                        Ok(None) => Err(MetaError::ExistingInodeNotFound),
                        Ok(Some(node)) => if !matches!(node.get_node_kind(), NodeKind::Dir) {
                            Err(MetaError::ExistsNotDir { name: name.clone() })
                        } else {
                            Ok((self.copy(), id))
                        },
                    };
                },
                DentryTarget::Tombstone => {},
                DentryTarget::ObjId(_) | DentryTarget::SymLink(_) => {
                    return Err(MetaError::ExistsNotDir { name: name.clone() });
                },
            },
            None => {},
        }
        match self.new_dir_under(parent, name.clone(), NodeState::DirNormal, None, now) {
            Err((_, e)) => Err(e),
            Ok(made) => Ok(made),
        }
    }

    /// Turns a directory object under `name` into an overlay directory.
    pub fn materialize_dir_from_obj(
        &self,
        parent: u64,
        name: String,
        dir_obj_id: &ObjId,
        now: u64,
    ) -> (r: Result<(MetaTables, u64), MetaError>)
        requires
            self.wf(),
        ensures
            match r {
                Ok((t, id)) => t.wf() && materialize_after(self@, parent, name, *dir_obj_id, now)
                    == Ok::<(TablesView, u64), MetaError>((t@, id)),
                Err(e) => materialize_after(self@, parent, name, *dir_obj_id, now) == Err::<
                    (TablesView, u64),
                    MetaError,
                >(e),
            },
    {
        let base = Some(dir_obj_id.dup());
        match self.new_dir_under(parent, name, NodeState::DirOverlay, base, now) {
            Err((DirPart::Inode, e)) => Err(
                MetaError::At { stage: Stage::AllocInode, cause: Box::new(e) },
            ),
            Err((DirPart::Parent, e)) => Err(e),
            Err((DirPart::Entry, e)) => Err(
                MetaError::At { stage: Stage::UpsertTarget, cause: Box::new(e) },
            ),
            Ok(made) => Ok(made),
        }
    }
}

} // verus!
