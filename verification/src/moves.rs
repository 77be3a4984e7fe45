//! Moving an entry: plan it on what is there, then carry it out if both
//! directories are still as the plan found them.

use vstd::prelude::*;
use crate::errors::MetaError;
use crate::ops::upsert_after;
use crate::records::{kind_of, same_target, DentryTarget, NodeKind, NodeRecord};
use crate::service::next_seq;
use crate::tables::{rev_or_zero, MetaTables, TablesView};
use crate::text::same_text;
use crate::tree::tree_ok;

verus! {

/// What is moved.
#[derive(Debug, Clone, PartialEq, Eq)]
pub enum MoveSource {
    Upper { target: DentryTarget },
}

/// A move, with the revisions that both directories had when it was planned.
#[derive(Debug, Clone, PartialEq, Eq)]
pub struct MovePlan {
    pub src_parent: u64,
    pub src_name: String,
    pub dst_parent: u64,
    pub dst_name: String,
    pub src_rev0: u64,
    pub dst_rev0: u64,
    pub source: MoveSource,
}

/// What stands under `name`; only entries of the directory itself can be moved.
pub open spec fn move_source(v: TablesView, parent: u64, name: Seq<char>) -> Result<
    MoveSource,
    MetaError,
> {
    match v.dentry(parent, name) {
        None => Err(MetaError::NotFound),
        Some(d) => match d.target {
            DentryTarget::Tombstone => Err(MetaError::NotFound),
            DentryTarget::IndexNodeId(id) => match v.read(id) {
                Err(e) => Err(e),
                Ok(None) => Err(MetaError::NotFound),
                Ok(Some(_)) => Ok(MoveSource::Upper { target: d.target }),
            },
            _ => Ok(MoveSource::Upper { target: d.target }),
        },
    }
}

/// Why the source or the destination directory of a move cannot be had.
pub open spec fn dirs_error(v: TablesView, src: u64, dst: u64) -> Option<MetaError> {
    match (v.read(src), v.read(dst)) {
        (Err(e), _) => Some(e),
        (Ok(None), _) => Some(MetaError::NotFound),
        (Ok(Some(_)), Err(e)) => Some(e),
        (Ok(Some(_)), Ok(None)) => Some(MetaError::NotFound),
        (Ok(Some(_)), Ok(Some(_))) => None,
    }
}

/// The plan of a move; none where source and destination are the same entry.
pub open spec fn move_plan(
    v: TablesView,
    src_parent: u64,
    src_name: String,
    dst_parent: u64,
    dst_name: String,
) -> Result<Option<MovePlan>, MetaError> {
    if src_name@.len() == 0 || dst_name@.len() == 0 {
        Err(MetaError::InvalidName)
    } else if src_parent == dst_parent && src_name@ == dst_name@ {
        Ok(None)
    } else {
        let (src, dst) = (v.inode(src_parent)->0, v.inode(dst_parent)->0);
        match dirs_error(v, src_parent, dst_parent) {
            Some(e) => Err(e),
            None => if kind_of(src.state) != NodeKind::Dir || kind_of(dst.state)
                != NodeKind::Dir {
                Err(MetaError::NotFound)
            } else if src.read_only || dst.read_only {
                Err(MetaError::ReadOnly)
            } else {
                match move_source(v, src_parent, src_name@) {
                    Err(e) => Err(e),
                    Ok(source) => if moves_into_itself(v, source, dst_parent) {
                        Err(MetaError::InvalidName)
                    } else {
                        Ok(
                            Some(
                                MovePlan {
                                    src_parent,
                                    src_name,
                                    dst_parent,
                                    dst_name,
                                    src_rev0: rev_or_zero(src.rev),
                                    dst_rev0: rev_or_zero(dst.rev),
                                    source,
                                },
                            ),
                        )
                    },
                }
            },
        }
    }
}

/// The entry that is moved is the very directory that it is moved to.
pub open spec fn moves_into_itself(v: TablesView, source: MoveSource, dst_parent: u64) -> bool {
    match source {
        MoveSource::Upper { target } => match target {
            DentryTarget::IndexNodeId(id) => id == dst_parent && kind_of(v.inode(id)->0.state)
                == NodeKind::Dir,
            _ => false,
        },
    }
}

/// A directory of the plan is gone or has changed.
pub open spec fn dir_changed(v: TablesView, dir: u64, rev: u64) -> Option<MetaError> {
    if !v.nodes.contains_key(dir) {
        Some(MetaError::NotFound)
    } else if v.rev(dir) != rev {
        Some(MetaError::Conflict)
    } else {
        None
    }
}

/// Both directories, the lower inode id first, are as the plan found them.
pub open spec fn dirs_changed(v: TablesView, a: (u64, u64), b: (u64, u64)) -> Option<MetaError> {
    let (first, second) = if b.0 < a.0 {
        (b, a)
    } else {
        (a, b)
    };
    if a.0 == b.0 {
        dir_changed(v, a.0, a.1)
    } else {
        match dir_changed(v, first.0, first.1) {
            Some(e) => Some(e),
            None => dir_changed(v, second.0, second.1),
        }
    }
}

/// The tables after a planned move: a tombstone at the source, the target at
/// the destination.
pub open spec fn apply_move_after(v: TablesView, plan: MovePlan, now: u64) -> Result<
    TablesView,
    MetaError,
> {
    if dirs_error(v, plan.src_parent, plan.dst_parent) is Some {
        Err(dirs_error(v, plan.src_parent, plan.dst_parent)->0)
    } else if v.rev(plan.src_parent) != plan.src_rev0 || v.rev(plan.dst_parent) != plan.dst_rev0 {
        Err(MetaError::Conflict)
    } else {
        match upsert_after(
            v,
            plan.src_parent,
            plan.src_name,
            DentryTarget::Tombstone,
            plan.src_rev0,
            now,
        ) {
            Err(e) => Err(e),
            Ok(w) => {
                let rev = if plan.src_parent == plan.dst_parent {
                    next_seq(plan.src_rev0)
                } else {
                    plan.dst_rev0
                };
                let MoveSource::Upper { target } = plan.source;
                upsert_after(w, plan.dst_parent, plan.dst_name, target, rev, now)
            },
        }
    }
}

/// The move of an entry as a whole.
pub open spec fn move_path_after(
    v: TablesView,
    src_parent: u64,
    src_name: String,
    dst_parent: u64,
    dst_name: String,
    now: u64,
) -> Result<TablesView, MetaError> {
    match move_plan(v, src_parent, src_name, dst_parent, dst_name) {
        Err(e) => Err(e),
        Ok(None) => Ok(v),
        Ok(Some(plan)) => apply_move_after(v, plan, now),
    }
}

/// What the plan of a move settles before anything is written.
pub open spec fn move_path_seen(
    v: TablesView,
    src_parent: u64,
    src_name: String,
    dst_parent: u64,
    dst_name: String,
) -> Option<Result<(), MetaError>> {
    match move_plan(v, src_parent, src_name, dst_parent, dst_name) {
        Err(e) => Some(Err(e)),
        Ok(None) => Some(Ok(())),
        Ok(Some(_)) => None,
    }
}

/// After a move the source is hidden, the destination points where the source
/// pointed, and every other entry is as it was.
pub proof fn law_move_carries_target(
    v: TablesView,
    src_parent: u64,
    src_name: String,
    dst_parent: u64,
    dst_name: String,
    now: u64,
    other: (u64, Seq<char>),
)
    requires
        v.inv(),
        (src_parent, src_name@) != (dst_parent, dst_name@),
    ensures
        move_path_after(v, src_parent, src_name, dst_parent, dst_name, now) matches Ok(w) ==> {
            &&& w.dentry(src_parent, src_name@) matches Some(d) && d.target is Tombstone
            &&& w.dentry(dst_parent, dst_name@) matches Some(d) && same_target(
                d.target,
                v.dentries[(src_parent, src_name@)].target,
            )
            &&& other != (src_parent, src_name@) && other != (dst_parent, dst_name@) ==> w.dentry(
                other.0,
                other.1,
            ) == v.dentry(other.0, other.1)
        },
{
}

/// A move keeps the tree strict.
pub proof fn law_move_keeps_tree(
    v: TablesView,
    src_parent: u64,
    src_name: String,
    dst_parent: u64,
    dst_name: String,
    now: u64,
)
    requires
        v.inv(),
        tree_ok(v),
    ensures
        move_path_after(v, src_parent, src_name, dst_parent, dst_name, now) matches Ok(w)
            ==> tree_ok(w),
{
    if let Ok(Some(plan)) = move_plan(v, src_parent, src_name, dst_parent, dst_name) {
        lemma_upsert_keeps_tree(
            v,
            plan.src_parent,
            plan.src_name,
            DentryTarget::Tombstone,
            plan.src_rev0,
            now,
        );
        if let Ok(w) = upsert_after(
            v,
            plan.src_parent,
            plan.src_name,
            DentryTarget::Tombstone,
            plan.src_rev0,
            now,
        ) {
            let rev = if plan.src_parent == plan.dst_parent {
                (plan.src_rev0 + 1) as u64
            } else {
                plan.dst_rev0
            };
            let MoveSource::Upper { target } = plan.source;
            lemma_upsert_keeps_tree(w, plan.dst_parent, plan.dst_name, target, rev, now);
        }
    }
}

/// Pointing an entry somewhere keeps the tables in order and the tree strict.
pub proof fn lemma_upsert_keeps_tree(
    v: TablesView,
    parent: u64,
    name: String,
    target: DentryTarget,
    rev: u64,
    now: u64,
)
    requires
        v.inv(),
        tree_ok(v),
    ensures
        upsert_after(v, parent, name, target, rev, now) matches Ok(w) ==> w.inv() && tree_ok(w),
{
    crate::tree::law_create_keeps_tree(v, parent, name, target, rev, now);
    match v.dentry(parent, name@) {
        Some(d) => {
            crate::tree::law_replace_keeps_tree(v, parent, name@, d.target, target, rev, now);
        },
        None => {},
    }
}

/// The revisions of both directories go up: by one each where they differ, by
/// two in all where they are one, unless the destination already pointed there.
pub proof fn law_move_counts_in_both_dirs(
    v: TablesView,
    src_parent: u64,
    src_name: String,
    dst_parent: u64,
    dst_name: String,
    now: u64,
)
    requires
        v.inv(),
        move_path_after(v, src_parent, src_name, dst_parent, dst_name, now) is Ok,
        (src_parent, src_name@) != (dst_parent, dst_name@),
        v.dentry(dst_parent, dst_name@) matches Some(d) ==> !same_target(
            d.target,
            v.dentries[(src_parent, src_name@)].target,
        ),
    ensures
        ({
            let w = move_path_after(v, src_parent, src_name, dst_parent, dst_name, now)->Ok_0;
            if src_parent == dst_parent {
                w.rev(src_parent) == v.rev(src_parent) + 2
            } else {
                w.rev(src_parent) == v.rev(src_parent) + 1 && w.rev(dst_parent) == v.rev(dst_parent)
                    + 1
            }
        }),
{
}

impl MetaTables {
    /// Looks up what is to be moved.
    pub fn plan_move_source(&self, src_parent: u64, src_name: &str) -> (r: Result<
        MoveSource,
        MetaError,
    >)
        requires
            self.wf(),
        ensures
            r == move_source(self@, src_parent, src_name@),
    {
        match self.get_dentry(src_parent, src_name) {
            None => Err(MetaError::NotFound),
            Some(d) => match d.target {
                DentryTarget::Tombstone => Err(MetaError::NotFound),
                DentryTarget::IndexNodeId(id) => match self.get_inode(id) {
                    Err(e) => Err(e),
                    Ok(None) => Err(MetaError::NotFound),
                    Ok(Some(_)) => Ok(MoveSource::Upper { target: DentryTarget::IndexNodeId(id) }),
                },
                DentryTarget::SymLink(p) => Ok(
                    MoveSource::Upper { target: DentryTarget::SymLink(p) },
                ),
                DentryTarget::ObjId(o) => Ok(MoveSource::Upper { target: DentryTarget::ObjId(o) }),
            },
        }
    }

    fn get_dirs(&self, src: u64, dst: u64) -> (r: Result<(NodeRecord, NodeRecord), MetaError>)
        requires
            self.wf(),
        ensures
            match r {
                Ok((a, b)) => dirs_error(self@, src, dst) is None && self@.inode(src) == Some(a)
                    && self@.inode(dst) == Some(b),
                Err(e) => dirs_error(self@, src, dst) == Some(e),
            },
    {
        match self.get_inode(src) {
            Err(e) => Err(e),
            Ok(None) => Err(MetaError::NotFound),
            Ok(Some(a)) => match self.get_inode(dst) {
                Err(e) => Err(e),
                Ok(None) => Err(MetaError::NotFound),
                Ok(Some(b)) => Ok((a, b)),
            },
        }
    }

    /// Plans a move.
    pub fn plan_move(
        &self,
        src_parent: u64,
        src_name: &String,
        dst_parent: u64,
        dst_name: &String,
    ) -> (r: Result<Option<MovePlan>, MetaError>)
        requires
            self.wf(),
        ensures
            r == move_plan(self@, src_parent, *src_name, dst_parent, *dst_name),
    {
        if src_name.as_str().is_empty() || dst_name.as_str().is_empty() {
            return Err(MetaError::InvalidName);
        }
        if src_parent == dst_parent && same_text(src_name.as_str(), dst_name.as_str()) {
            return Ok(None);
        }
        let (src, dst): (NodeRecord, NodeRecord) = match self.get_dirs(src_parent, dst_parent) {
            Ok(dirs) => dirs,
            Err(e) => {
                return Err(e);
            },
        };
        if !matches!(src.get_node_kind(), NodeKind::Dir) || !matches!(
            dst.get_node_kind(),
            NodeKind::Dir
        ) {
            return Err(MetaError::NotFound);
        }
        if src.read_only || dst.read_only {
            return Err(MetaError::ReadOnly);
        }
        let source: MoveSource = match self.plan_move_source(src_parent, src_name.as_str()) {
            Ok(source) => source,
            Err(e) => {
                return Err(e);
            },
        };
        let MoveSource::Upper { target } = &source;
        if let DentryTarget::IndexNodeId(id) = target {
            if *id == dst_parent {
                return Err(MetaError::InvalidName);
            }
        }
        let src_rev0: u64 = match src.rev {
            Some(x) => x,
            None => 0,
        };
        let dst_rev0: u64 = match dst.rev {
            Some(x) => x,
            None => 0,
        };
        Ok(
            Some(
                MovePlan {
                    src_parent,
                    src_name: src_name.clone(),
                    dst_parent,
                    dst_name: dst_name.clone(),
                    src_rev0,
                    dst_rev0,
                    source,
                },
            ),
        )
    }

    fn check_dir(&self, dir: u64, rev: u64) -> (r: Option<MetaError>)
        requires
            self.wf(),
        ensures
            r == dir_changed(self@, dir, rev),
    {
        match self.nodes.get(&dir) {
            None => Some(MetaError::NotFound),
            Some(row) => {
                let current: u64 = match row.rev {
                    Some(x) => x,
                    None => 0,
                };
                if current != rev {
                    Some(MetaError::Conflict)
                } else {
                    None
                }
            },
        }
    }

    /// Checks both directories of a move, always in the order of their ids.
    pub fn lock_move_parents_in_order(
        &self,
        src_parent: u64,
        src_rev0: u64,
        dst_parent: u64,
        dst_rev0: u64,
    ) -> (r: Result<(), MetaError>)
        requires
            self.wf(),
        ensures
            match r {
                Ok(_) => dirs_changed(
                    self@,
                    (src_parent, src_rev0),
                    (dst_parent, dst_rev0),
                ) is None,
                Err(e) => dirs_changed(self@, (src_parent, src_rev0), (dst_parent, dst_rev0))
                    == Some(e),
            },
    {
        let mut ordered: Vec<(u64, u64)> = Vec::new();
        if dst_parent == src_parent {
            ordered.push((src_parent, src_rev0));
        } else if dst_parent < src_parent {
            ordered.push((dst_parent, dst_rev0));
            ordered.push((src_parent, src_rev0));
        } else {
            ordered.push((src_parent, src_rev0));
            ordered.push((dst_parent, dst_rev0));
        }
        if let Some(e) = self.check_dir(ordered[0].0, ordered[0].1) {
            return Err(e);
        }
        if ordered.len() > 1 {
            if let Some(e) = self.check_dir(ordered[1].0, ordered[1].1) {
                return Err(e);
            }
        }
        Ok(())
    }

    /// Carries a plan out.
    pub fn apply_move_plan(&self, plan: MovePlan, now: u64) -> (r: Result<MetaTables, MetaError>)
        requires
            self.wf(),
        ensures
            match r {
                Ok(t) => t.wf() && apply_move_after(self@, plan, now) == Ok::<
                    TablesView,
                    MetaError,
                >(t@),
                Err(e) => apply_move_after(self@, plan, now) == Err::<TablesView, MetaError>(e),
            },
    {
        let (src, dst): (NodeRecord, NodeRecord) = match self.get_dirs(
            plan.src_parent,
            plan.dst_parent,
        ) {
            Ok(dirs) => dirs,
            Err(e) => {
                return Err(e);
            },
        };
        let src_rev: u64 = match src.rev {
            Some(x) => x,
            None => 0,
        };
        let dst_rev: u64 = match dst.rev {
            Some(x) => x,
            None => 0,
        };
        if src_rev != plan.src_rev0 || dst_rev != plan.dst_rev0 {
            return Err(MetaError::Conflict);
        }
        match self.lock_move_parents_in_order(
            plan.src_parent,
            plan.src_rev0,
            plan.dst_parent,
            plan.dst_rev0,
        ) {
            Ok(_) => {},
            Err(e) => {
                return Err(e);
            },
        }
        let mut t: MetaTables = self.copy();
        match t.set_tombstone_with_parent_rev(plan.src_parent, plan.src_name, plan.src_rev0, now) {
            Ok(_) => {},
            Err(e) => {
                return Err(e);
            },
        }
        let MoveSource::Upper { target } = plan.source;
        let rev: u64 = if plan.src_parent == plan.dst_parent {
            plan.src_rev0.wrapping_add(1)
        } else {
            plan.dst_rev0
        };
        match t.upsert_dentry_with_parent_rev(plan.dst_parent, plan.dst_name, target, rev, now) {
            Ok(_) => Ok(t),
            Err(e) => Err(e),
        }
    }

    /// What the plan of a move settles.
    pub(crate) fn see_move_path(
        &self,
        src_parent: u64,
        src_name: &String,
        dst_parent: u64,
        dst_name: &String,
    ) -> (r: Option<Result<(), MetaError>>)
        requires
            self.wf(),
        ensures
            r == move_path_seen(self@, src_parent, *src_name, dst_parent, *dst_name),
    {
        match self.plan_move(src_parent, src_name, dst_parent, dst_name) {
            Err(e) => Some(Err(e)),
            Ok(None) => Some(Ok(())),
            Ok(Some(_)) => None,
        }
    }

    /// Moves an entry to another directory, another name or both.
    pub fn move_path(
        &self,
        src_parent: u64,
        src_name: &String,
        dst_parent: u64,
        dst_name: &String,
        now: u64,
    ) -> (r: Result<MetaTables, MetaError>)
        requires
            self.wf(),
        ensures
            match r {
                Ok(t) => t.wf() && move_path_after(
                    self@,
                    src_parent,
                    *src_name,
                    dst_parent,
                    *dst_name,
                    now,
                ) == Ok::<TablesView, MetaError>(t@),
                Err(e) => move_path_after(
                    self@,
                    src_parent,
                    *src_name,
                    dst_parent,
                    *dst_name,
                    now,
                ) == Err::<TablesView, MetaError>(e),
            },
    {
        match self.plan_move(src_parent, src_name, dst_parent, dst_name) {
            Err(e) => Err(e),
            Ok(None) => Ok(self.copy()),
            Ok(Some(plan)) => self.apply_move_plan(plan, now),
        }
    }
}

} // verus!
