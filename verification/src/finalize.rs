//! Turning a directory into a directory object.
//!
//! A directory whose children are all objects can itself become one.  Planning
//! gathers the children; the object is then built and stored outside; finishing
//! puts it in the place of the directory, if nothing has changed meanwhile.

use vstd::prelude::*;
use crate::committed::{installs, settled, Committed};
use crate::ensure::{dir_answer_is, ensures_dir, DirAnswer, When};
use crate::errors::{MetaError, Stage};
use crate::listing::is_entries;
use crate::names::NameMap;
use crate::outside::{base_kids, BaseStore, BaseStoreView, Question, Stop};
use crate::path_cache::{CacheView, PathResolveCache};
use crate::paths::{child_path, join_child_path, path_parts, slashed, NfsPath};
use crate::records::{
    kind_of, DentryRecord, DentryTarget, FsMetaResolvePathItem, NodeKind, NodeRecord, NodeState,
    ObjId,
};
use crate::resolve::{resolves, Answer, DEFAULT_SYMLINK_COUNT};
use crate::table::Dup;
use crate::tables::{
    delete_dentry_after, remove_inode_after, replace_target_after, rev_or_zero, MetaTables,
    TablesView,
};
use crate::text::view_all;

verus! {

/// The directory under `name` that can be turned into an object; none if it
/// already is one.
pub open spec fn dir_to_finalize(v: TablesView, parent: u64, name: Seq<char>) -> Result<
    Option<u64>,
    MetaError,
> {
    match v.read(parent) {
        Err(e) => Err(e),
        Ok(None) => Err(MetaError::ParentDirNotFound),
        Ok(Some(node)) => if kind_of(node.state) != NodeKind::Dir {
            Err(MetaError::ParentNotDir)
        } else {
            match v.dentry(parent, name) {
                None => Err(MetaError::DirectoryNotFound),
                Some(d) => match d.target {
                    DentryTarget::ObjId(o) => if o.is_dir() {
                        Ok(None)
                    } else {
                        Err(MetaError::PathNotDir)
                    },
                    DentryTarget::SymLink(_) => Err(MetaError::PathIsSymlink),
                    DentryTarget::Tombstone => Err(MetaError::DirectoryNotFound),
                    DentryTarget::IndexNodeId(id) => match v.read(id) {
                        Err(e) => Err(e),
                        Ok(None) => Err(MetaError::DirectoryInodeNotFound),
                        Ok(Some(dir)) => if kind_of(dir.state) != NodeKind::Dir {
                            Err(MetaError::PathNotDir)
                        } else {
                            Ok(Some(id))
                        },
                    },
                },
            }
        },
    }
}

/// What a child contributes.
pub enum ChildOut {
    /// It is hidden, and hides a child of the base.
    Gone,
    Obj(ObjId),
    /// It has to be finalized first.
    Pending,
    Refused(MetaError),
    AskChild(ObjId, Seq<char>),
}

/// What a child that is no link contributes.
pub open spec fn plain_out(v: TablesView, target: DentryTarget) -> ChildOut {
    match target {
        DentryTarget::Tombstone => ChildOut::Gone,
        DentryTarget::ObjId(o) => ChildOut::Obj(o),
        DentryTarget::SymLink(_) => ChildOut::Pending,
        DentryTarget::IndexNodeId(id) => match v.read(id) {
            Err(e) => ChildOut::Refused(e),
            Ok(None) => ChildOut::Refused(MetaError::ChildInodeNotFound { id }),
            Ok(Some(node)) => if kind_of(node.state) == NodeKind::Dir {
                ChildOut::Pending
            } else {
                match node.state {
                    NodeState::Finalized(f) => ChildOut::Obj(f.obj_id),
                    _ => ChildOut::Pending,
                }
            },
        },
    }
}

/// What a link contributes: the object it leads to, if it leads to one.
pub open spec fn link_out(a: Answer) -> ChildOut {
    match a {
        Answer::Absent => ChildOut::Pending,
        Answer::Refused(e) => ChildOut::Refused(
            MetaError::At { stage: Stage::SymlinkChild, cause: Box::new(e) },
        ),
        Answer::AskChild(o, name) => ChildOut::AskChild(o, name),
        Answer::Found(resp) => if resp.inner is Some {
            ChildOut::Pending
        } else {
            match resp.item {
                FsMetaResolvePathItem::ObjId(o) => ChildOut::Obj(o),
                _ => ChildOut::Pending,
            }
        },
    }
}

/// What the child `child` of the directory at `path` contributes; links are resolved.
pub open spec fn takes_child(
    v: TablesView,
    base: BaseStoreView,
    c: CacheView,
    path: Seq<char>,
    child: DentryRecord,
    d: CacheView,
    out: ChildOut,
) -> bool {
    if child.target is SymLink {
        exists|a: Answer| #[trigger]
            resolves(
                v,
                base,
                c,
                path_parts(child_path(path, child.name@)),
                DEFAULT_SYMLINK_COUNT as nat,
                d,
                a,
            ) && out == link_out(a)
    } else {
        d == c && out == plain_out(v, child.target)
    }
}

/// What has been gathered so far: objects by name and paths to finalize first.
pub enum Gathered {
    Going(Map<Seq<char>, ObjId>, Seq<Seq<char>>),
    Refused(MetaError),
    AskChild(ObjId, Seq<char>),
}

pub open spec fn gathered_with(g: Gathered, path: Seq<char>, name: Seq<char>, out: ChildOut) -> Gathered {
    match g {
        Gathered::Going(kids, pending) => match out {
            ChildOut::Gone => Gathered::Going(kids.remove(name), pending),
            ChildOut::Obj(o) => Gathered::Going(kids.insert(name, o), pending),
            ChildOut::Pending => Gathered::Going(kids, pending.push(child_path(path, name))),
            ChildOut::Refused(e) => Gathered::Refused(e),
            ChildOut::AskChild(o, n) => Gathered::AskChild(o, n),
        },
        _ => g,
    }
}

/// Gathering goes on with `child`, unless it has stopped before.
pub open spec fn gathers_child(
    v: TablesView,
    base: BaseStoreView,
    c: CacheView,
    g: Gathered,
    path: Seq<char>,
    child: DentryRecord,
    d: CacheView,
    h: Gathered,
) -> bool {
    if g is Going {
        exists|out: ChildOut| #[trigger]
            takes_child(v, base, c, path, child, d, out) && h == gathered_with(
                g,
                path,
                child.name@,
                out,
            )
    } else {
        d == c && h == g
    }
}

/// Gathering the entries `es` of the directory at `path`, over the children of its base.
pub open spec fn gathers(
    v: TablesView,
    base: BaseStoreView,
    c: CacheView,
    kids: Map<Seq<char>, ObjId>,
    path: Seq<char>,
    es: Seq<DentryRecord>,
    d: CacheView,
    h: Gathered,
) -> bool
    decreases es.len(),
{
    if es.len() == 0 {
        d == c && h == Gathered::Going(kids, Seq::empty())
    } else {
        exists|mid: CacheView, g: Gathered|
            gathers(v, base, c, kids, path, es.drop_last(), mid, g) && #[trigger] gathers_child(
                v,
                base,
                mid,
                g,
                path,
                es.last(),
                d,
                h,
            )
    }
}

/// What planning comes to.
pub enum PlanView {
    Done,
    Queue(Seq<Seq<char>>),
    Build {
        parent: u64,
        name: Seq<char>,
        dir: u64,
        parent_rev: u64,
        dir_rev: u64,
        kids: Map<Seq<char>, ObjId>,
    },
    Stopped(DirAnswer),
    AskChildren(ObjId),
}

/// The plan once everything has been gathered.
pub open spec fn plan_of(
    v: TablesView,
    path: Seq<char>,
    parent: u64,
    name: Seq<char>,
    dir: u64,
    g: Gathered,
) -> PlanView {
    match g {
        Gathered::Refused(e) => PlanView::Stopped(DirAnswer::Refused(e)),
        Gathered::AskChild(o, n) => PlanView::Stopped(DirAnswer::AskChild(o, n)),
        Gathered::Going(kids, pending) => if pending.len() > 0 {
            PlanView::Queue(pending.push(path))
        } else {
            PlanView::Build {
                parent,
                name,
                dir,
                parent_rev: v.rev(parent),
                dir_rev: v.rev(dir),
                kids,
            }
        },
    }
}

/// The refusal `e` of the children of a base, as it is reported where they go
/// into a new object.
pub open spec fn taking_error(e: MetaError) -> MetaError {
    match e {
        MetaError::BaseLoadFailed { step, cause } => MetaError::BaseTakeFailed { step, cause },
        _ => e,
    }
}

fn as_taking_error(e: MetaError) -> (r: MetaError)
    ensures
        r == taking_error(e),
{
    match e {
        MetaError::BaseLoadFailed { step, cause } => MetaError::BaseTakeFailed { step, cause },
        e => e,
    }
}

/// Planning for the entry `name` of `parent`.
pub open spec fn plans_at(
    v: TablesView,
    c: CacheView,
    base: BaseStoreView,
    path: Seq<char>,
    parent: u64,
    name: Seq<char>,
    d: CacheView,
    plan: PlanView,
) -> bool {
    match dir_to_finalize(v, parent, name) {
        Err(e) => d == c && plan == PlanView::Stopped(DirAnswer::Refused(e)),
        Ok(None) => d == c && plan == PlanView::Done,
        Ok(Some(dir)) => match base_kids(base, v.inode(dir)->0) {
            Err(Stop::Refused(e)) => d == c && plan == PlanView::Stopped(
                DirAnswer::Refused(taking_error(e)),
            ),
            Err(Stop::Ask(q)) => d == c && plan == PlanView::AskChildren(
                v.inode(dir)->0.base_obj_id->0,
            ),
            Ok(kids) => exists|es: Seq<DentryRecord>, g: Gathered|
                is_entries(v, dir, es) && #[trigger] gathers(v, base, c, kids, path, es, d, g)
                    && plan == plan_of(v, path, parent, name, dir, g),
        },
    }
}

/// The path of the directory that holds the last of `parts`.
pub open spec fn holder_path(parts: Seq<Seq<char>>) -> Seq<char> {
    if parts.len() == 1 {
        "/"@
    } else {
        slashed(parts.drop_last())
    }
}

/// Planning to turn the directory at `path` into an object.
pub open spec fn plans_finalize(
    v: TablesView,
    c: CacheView,
    base: BaseStoreView,
    path: Seq<char>,
    at: When,
    w: TablesView,
    d: CacheView,
    plan: PlanView,
) -> bool {
    let parts = path_parts(path);
    if parts.len() == 0 {
        w == v && d == c && plan == PlanView::Stopped(DirAnswer::Refused(MetaError::FinalizeRoot))
    } else if !base.configured {
        w == v && d == c && plan == PlanView::Stopped(
            DirAnswer::Refused(MetaError::StoreNotConfigured),
        )
    } else {
        exists|mid: CacheView, a: DirAnswer| #[trigger]
            ensures_dir(v, c, base, holder_path(parts), at, w, mid, a) && match a {
                DirAnswer::Dir(parent) => plans_at(
                    w,
                    mid,
                    base,
                    path,
                    parent,
                    parts.last(),
                    d,
                    plan,
                ),
                _ => d == mid && plan == PlanView::Stopped(a),
            }
    }
}

/// What is to be done about a directory.
pub enum FinalizeStep {
    /// It is an object already.
    Done,
    /// These paths have to be finalized first; the last one is the directory itself.
    Queue(Vec<String>),
    /// An object has to be built from the children in the plan.
    Build(FinalizePlan),
}

pub struct FinalizePlan {
    pub parent: u64,
    pub name: String,
    pub dir: u64,
    pub parent_rev: u64,
    pub dir_rev: u64,
    pub children: NameMap<ObjId>,
}

/// The plan in the form in which callers get it.
pub open spec fn plan_is(r: Result<FinalizeStep, Stop>, plan: PlanView) -> bool {
    match plan {
        PlanView::Done => r matches Ok(s) && s is Done,
        PlanView::Queue(paths) => match r {
            Ok(FinalizeStep::Queue(q)) => view_all(q@) == paths,
            _ => false,
        },
        PlanView::Build { parent, name, dir, parent_rev, dir_rev, kids } => match r {
            Ok(FinalizeStep::Build(p)) => {
                &&& p.parent == parent
                &&& p.name@ == name
                &&& p.dir == dir
                &&& p.parent_rev == parent_rev
                &&& p.dir_rev == dir_rev
                &&& p.children.wf()
                &&& p.children@ == kids
            },
            _ => false,
        },
        PlanView::Stopped(a) => match r {
            Err(s) => dir_answer_is(Err(s), a),
            _ => false,
        },
        PlanView::AskChildren(o) => r matches Err(Stop::Ask(Question::BaseChildren { dir })) && dir == o,
    }
}

enum Child {
    Gone,
    Obj(ObjId),
    Pending,
    Stop(Stop),
}

spec fn child_is(x: Child, out: ChildOut) -> bool {
    match out {
        ChildOut::Gone => x is Gone,
        ChildOut::Obj(o) => x == Child::Obj(o),
        ChildOut::Pending => x is Pending,
        ChildOut::Refused(e) => x == Child::Stop(Stop::Refused(e)),
        ChildOut::AskChild(o, n) => match x {
            Child::Stop(s) => dir_answer_is(Err(s), DirAnswer::AskChild(o, n)),
            _ => false,
        },
    }
}

impl MetaTables {
    fn find_dir_to_finalize(&self, parent: u64, name: &str) -> (r: Result<Option<u64>, MetaError>)
        requires
            self.wf(),
        ensures
            r == dir_to_finalize(self@, parent, name@),
    {
        match self.get_inode(parent) {
            Err(e) => {
                return Err(e);
            },
            Ok(None) => {
                return Err(MetaError::ParentDirNotFound);
            },
            Ok(Some(node)) => {
                if !matches!(node.get_node_kind(), NodeKind::Dir) {
                    return Err(MetaError::ParentNotDir);
                }
            },
        }
        match self.get_dentry(parent, name) {
            None => Err(MetaError::DirectoryNotFound),
            Some(d) => match d.target {
                DentryTarget::ObjId(o) => {
                    if o.is_dir_object() {
                        Ok(None)
                    } else {
                        Err(MetaError::PathNotDir)
                    }
                },
                DentryTarget::SymLink(_) => Err(MetaError::PathIsSymlink),
                DentryTarget::Tombstone => Err(MetaError::DirectoryNotFound),
                DentryTarget::IndexNodeId(id) => match self.get_inode(id) {
                    Err(e) => Err(e),
                    Ok(None) => Err(MetaError::DirectoryInodeNotFound),
                    Ok(Some(dir)) => {
                        if !matches!(dir.get_node_kind(), NodeKind::Dir) {
                            Err(MetaError::PathNotDir)
                        } else {
                            Ok(Some(id))
                        }
                    },
                },
            },
        }
    }

    /// The object that the link at `child` leads to, if it leads to one.
    pub fn resolve_symlink_child_as_obj(
        &self,
        base: &BaseStore,
        cache: &mut PathResolveCache,
        child: &NfsPath,
    ) -> (r: Result<Option<ObjId>, Stop>)
        requires
            self.wf(),
            base.wf(),
            old(cache).wf(),
        ensures
            final(cache).wf(),
            exists|a: Answer| #[trigger]
                resolves(
                    self@,
                    base@,
                    old(cache)@,
                    path_parts(child.0@),
                    DEFAULT_SYMLINK_COUNT as nat,
                    final(cache)@,
                    a,
                ) && match link_out(a) {
                    ChildOut::Obj(o) => r == Ok::<Option<ObjId>, Stop>(Some(o)),
                    ChildOut::Refused(e) => r == Err::<Option<ObjId>, Stop>(Stop::Refused(e)),
                    ChildOut::AskChild(o, n) => r matches Err(s) && dir_answer_is(
                        Err(s),
                        DirAnswer::AskChild(o, n),
                    ),
                    _ => r == Ok::<Option<ObjId>, Stop>(None),
                },
    {
        match self.resolve_path_ex(base, cache, child.components(), DEFAULT_SYMLINK_COUNT) {
            Err(Stop::Refused(e)) => Err(
                Stop::Refused(
                    MetaError::At { stage: Stage::SymlinkChild, cause: Box::new(e) },
                ),
            ),
            Err(Stop::Ask(q)) => Err(Stop::Ask(q)),
            Ok(None) => Ok(None),
            Ok(Some(resp)) => {
                if resp.inner_path.is_some() {
                    return Ok(None);
                }
                match resp.item {
                    FsMetaResolvePathItem::ObjId(o) => Ok(Some(o)),
                    _ => Ok(None),
                }
            },
        }
    }

    fn take_child(
        &self,
        base: &BaseStore,
        cache: &mut PathResolveCache,
        path: &NfsPath,
        child: &DentryRecord,
    ) -> (r: Child)
        requires
            self.wf(),
            base.wf(),
            old(cache).wf(),
        ensures
            final(cache).wf(),
            exists|out: ChildOut| #[trigger]
                takes_child(self@, base@, old(cache)@, path.0@, *child, final(cache)@, out)
                    && child_is(r, out),
    {
        let ghost c0 = cache@;
        match &child.target {
            DentryTarget::SymLink(_) => {
                let at: NfsPath = join_child_path(path, child.name.as_str());
                let found = self.resolve_symlink_child_as_obj(base, cache, &at);
                let r = match found {
                    Err(s) => Child::Stop(s),
                    Ok(Some(o)) => Child::Obj(o),
                    Ok(None) => Child::Pending,
                };
                proof {
                    let a = choose|a: Answer| #[trigger]
                        resolves(
                            self@,
                            base@,
                            c0,
                            path_parts(at.0@),
                            DEFAULT_SYMLINK_COUNT as nat,
                            cache@,
                            a,
                        ) && match link_out(a) {
                            ChildOut::Obj(o) => found == Ok::<Option<ObjId>, Stop>(Some(o)),
                            ChildOut::Refused(e) => found == Err::<Option<ObjId>, Stop>(
                                Stop::Refused(e),
                            ),
                            ChildOut::AskChild(o, n) => found matches Err(s) && dir_answer_is(
                                Err(s),
                                DirAnswer::AskChild(o, n),
                            ),
                            _ => found == Ok::<Option<ObjId>, Stop>(None),
                        };
                    assert(takes_child(self@, base@, c0, path.0@, *child, cache@, link_out(a)));
                    assert(child_is(r, link_out(a)));
                }
                r
            },
            target => {
                let r = match target {
                    DentryTarget::Tombstone => Child::Gone,
                    DentryTarget::ObjId(o) => Child::Obj(o.dup()),
                    DentryTarget::SymLink(_) => Child::Pending,
                    DentryTarget::IndexNodeId(id) => match self.get_inode(*id) {
                        Err(e) => Child::Stop(Stop::Refused(e)),
                        Ok(None) => Child::Stop(
                            Stop::Refused(MetaError::ChildInodeNotFound { id: *id }),
                        ),
                        Ok(Some(node)) => match node.get_node_kind() {
                            NodeKind::Dir => Child::Pending,
                            _ => match node.state {
                                NodeState::Finalized(f) => Child::Obj(f.obj_id),
                                _ => Child::Pending,
                            },
                        },
                    },
                };
                proof {
                    let out = plain_out(self@, child.target);
                    assert(takes_child(self@, base@, c0, path.0@, *child, cache@, out));
                    assert(child_is(r, out));
                }
                r
            },
        }
    }
}

enum GatherResult {
    All(NameMap<ObjId>, Vec<String>),
    Stop(Stop),
}

spec fn gather_is(r: GatherResult, g: Gathered) -> bool {
    match g {
        Gathered::Going(kids, pending) => match r {
            GatherResult::All(m, p) => m.wf() && m@ == kids && view_all(p@) == pending,
            _ => false,
        },
        Gathered::Refused(e) => r == GatherResult::Stop(Stop::Refused(e)),
        Gathered::AskChild(o, n) => match r {
            GatherResult::Stop(s) => dir_answer_is(Err(s), DirAnswer::AskChild(o, n)),
            _ => false,
        },
    }
}

/// Once gathering has stopped, further children change nothing.
proof fn lemma_stopped_stays(
    v: TablesView,
    base: BaseStoreView,
    c: CacheView,
    kids: Map<Seq<char>, ObjId>,
    path: Seq<char>,
    es: Seq<DentryRecord>,
    n: int,
    d: CacheView,
    g: Gathered,
)
    requires
        0 <= n <= es.len(),
        gathers(v, base, c, kids, path, es.take(n), d, g),
        !(g is Going),
    ensures
        gathers(v, base, c, kids, path, es, d, g),
    decreases es.len() - n,
{
    if n == es.len() {
        assert(es.take(n) =~= es);
    } else {
        let next = es.take(n + 1);
        assert(next.drop_last() =~= es.take(n));
        assert(gathers(v, base, c, kids, path, next.drop_last(), d, g) && gathers_child(
            v,
            base,
            d,
            g,
            path,
            next.last(),
            d,
            g,
        ));
        lemma_stopped_stays(v, base, c, kids, path, es, n + 1, d, g);
    }
}

impl Committed {
    fn gather(
        &mut self,
        base: &BaseStore,
        path: &NfsPath,
        base_kids: NameMap<ObjId>,
        entries: &Vec<DentryRecord>,
    ) -> (r: GatherResult)
        requires
            old(self).wf(),
            base.wf(),
            base_kids.wf(),
        ensures
            final(self).wf(),
            final(self).tables == old(self).tables,
            exists|g: Gathered| #[trigger]
                gathers(
                    old(self).tables@,
                    base@,
                    old(self).cache@,
                    base_kids@,
                    path.0@,
                    entries@,
                    final(self).cache@,
                    g,
                ) && gather_is(r, g),
    {
        let ghost v = self.tables@;
        let ghost c0 = self.cache@;
        let ghost k0 = base_kids@;
        let ghost es = entries@;
        let mut kids: NameMap<ObjId> = base_kids;
        let mut pending: Vec<String> = Vec::new();
        let mut i: usize = 0;
        proof {
            assert(es.take(0) =~= Seq::empty());
            assert(view_all(pending@) =~= Seq::empty());
        }
        while i < entries.len()
            invariant
                self.wf(),
                base.wf(),
                kids.wf(),
                self.tables == old(self).tables,
                v == self.tables@,
                c0 == old(self).cache@,
                k0 == base_kids@,
                es == entries@,
                0 <= i <= es.len(),
                gathers(
                    v,
                    base@,
                    c0,
                    k0,
                    path.0@,
                    es.take(i as int),
                    self.cache@,
                    Gathered::Going(kids@, view_all(pending@)),
                ),
            decreases entries@.len() - i,
        {
            let ghost g = Gathered::Going(kids@, view_all(pending@));
            let ghost mid = self.cache@;
            let ghost next = es.take(i + 1);
            let child: &DentryRecord = &entries[i];
            let got: Child = self.tables.take_child(base, &mut self.cache, path, child);
            let ghost out = choose|out: ChildOut| #[trigger]
                takes_child(v, base@, mid, path.0@, *child, self.cache@, out) && child_is(got, out);
            proof {
                let h = gathered_with(g, path.0@, child.name@, out);
                assert(next.drop_last() =~= es.take(i as int));
                assert(next.last() == *child);
                assert(takes_child(v, base@, mid, path.0@, *child, self.cache@, out));
                assert(gathers_child(v, base@, mid, g, path.0@, next.last(), self.cache@, h));
                assert(gathers(v, base@, c0, k0, path.0@, next, self.cache@, h));
            }
            match got {
                Child::Gone => {
                    kids.remove(child.name.as_str());
                },
                Child::Obj(o) => {
                    kids.insert(child.name.clone(), o);
                },
                Child::Pending => {
                    let at: NfsPath = join_child_path(path, child.name.as_str());
                    let ghost before = view_all(pending@);
                    pending.push(at.0);
                    assert(view_all(pending@) =~= before.push(at.0@));
                },
                Child::Stop(s) => {
                    let r = GatherResult::Stop(s);
                    proof {
                        let h = gathered_with(g, path.0@, child.name@, out);
                        lemma_stopped_stays(
                            v,
                            base@,
                            c0,
                            k0,
                            path.0@,
                            es,
                            i + 1,
                            self.cache@,
                            h,
                        );
                        assert(gather_is(r, h));
                    }
                    return r;
                },
            }
            i = i + 1;
        }
        assert(es.take(i as int) =~= es);
        let ghost g = Gathered::Going(kids@, view_all(pending@));
        let r = GatherResult::All(kids, pending);
        assert(gather_is(r, g));
        r
    }

    fn plan_at(&mut self, base: &BaseStore, path: &NfsPath, parent: u64, name: String) -> (r: Result<
        FinalizeStep,
        Stop,
    >)
        requires
            old(self).wf(),
            base.wf(),
        ensures
            final(self).wf(),
            final(self).tables == old(self).tables,
            exists|plan: PlanView| #[trigger]
                plans_at(
                    old(self).tables@,
                    old(self).cache@,
                    base@,
                    path.0@,
                    parent,
                    name@,
                    final(self).cache@,
                    plan,
                ) && plan_is(r, plan),
    {
        let ghost v = self.tables@;
        let ghost c0 = self.cache@;
        let dir: u64 = match self.tables.find_dir_to_finalize(parent, name.as_str()) {
            Err(e) => {
                let r: Result<FinalizeStep, Stop> = Err(Stop::Refused(e));
                proof {
                    let plan = PlanView::Stopped(DirAnswer::Refused(e));
                    assert(plans_at(v, c0, base@, path.0@, parent, name@, c0, plan));
                    assert(plan_is(r, plan));
                }
                return r;
            },
            Ok(None) => {
                assert(plans_at(v, c0, base@, path.0@, parent, name@, c0, PlanView::Done));
                return Ok(FinalizeStep::Done);
            },
            Ok(Some(dir)) => dir,
        };
        let node: NodeRecord = match self.tables.get_inode(dir) {
            Ok(Some(node)) => node,
            Ok(None) => {
                return Err(Stop::Refused(MetaError::DirectoryInodeNotFound));
            },
            Err(e) => {
                return Err(Stop::Refused(e));
            },
        };
        let kids: NameMap<ObjId> = match base.load_base_dir_children(&node) {
            Ok(kids) => kids,
            Err(s) => {
                let ghost stop = s;
                let r: Result<FinalizeStep, Stop> = match s {
                    Stop::Refused(e) => Err(Stop::Refused(as_taking_error(e))),
                    Stop::Ask(q) => Err(Stop::Ask(q)),
                };
                proof {
                    let plan = match stop {
                        Stop::Refused(e) => PlanView::Stopped(DirAnswer::Refused(taking_error(e))),
                        Stop::Ask(_) => PlanView::AskChildren(node.base_obj_id->0),
                    };
                    assert(plans_at(v, c0, base@, path.0@, parent, name@, c0, plan));
                    assert(plan_is(r, plan));
                }
                return r;
            },
        };
        let ghost k0 = kids@;
        let entries: Vec<DentryRecord> = self.tables.list_dentries(dir);
        let parent_rev: u64 = match self.tables.get_inode_rev(parent) {
            Ok(rev) => rev,
            Err(_) => 0,
        };
        let dir_rev: u64 = match node.rev {
            Some(x) => x,
            None => 0,
        };
        let got: GatherResult = self.gather(base, path, kids, &entries);
        let ghost g = choose|g: Gathered| #[trigger]
            gathers(v, base@, c0, k0, path.0@, entries@, self.cache@, g) && gather_is(got, g);
        let ghost plan = plan_of(v, path.0@, parent, name@, dir, g);
        proof {
            let known = base_kids(base@, v.inode(dir)->0)->Ok_0;
            assert(known == k0);
            assert(is_entries(v, dir, entries@) && gathers(
                v,
                base@,
                c0,
                known,
                path.0@,
                entries@,
                self.cache@,
                g,
            ));
            assert(plans_at(v, c0, base@, path.0@, parent, name@, self.cache@, plan));
        }
        match got {
            GatherResult::Stop(s) => {
                let r: Result<FinalizeStep, Stop> = Err(s);
                assert(plan_is(r, plan));
                r
            },
            GatherResult::All(children, pending) => {
                let mut pending: Vec<String> = pending;
                if pending.len() > 0 {
                    let ghost before = view_all(pending@);
                    pending.push(path.as_str().to_owned());
                    assert(view_all(pending@) =~= before.push(path.0@));
                    let r: Result<FinalizeStep, Stop> = Ok(FinalizeStep::Queue(pending));
                    assert(plan_is(r, plan));
                    r
                } else {
                    let r: Result<FinalizeStep, Stop> = Ok(
                        FinalizeStep::Build(
                            FinalizePlan { parent, name, dir, parent_rev, dir_rev, children },
                        ),
                    );
                    assert(plan_is(r, plan));
                    r
                }
            },
        }
    }

    /// Looks what has to be done to turn the directory at `dir_path` into an object.
    pub fn plan_finalize_dir(&mut self, base: &BaseStore, dir_path: &NfsPath, at: When) -> (r: Result<
        FinalizeStep,
        Stop,
    >)
        requires
            old(self).wf(),
            base.wf(),
        ensures
            final(self).wf(),
            old(self).tables@.touched.len() == 0 ==> final(self).tables@.touched.len() == 0,
            exists|plan: PlanView| #[trigger]
                plans_finalize(
                    old(self).tables@,
                    old(self).cache@,
                    base@,
                    dir_path.0@,
                    at,
                    final(self).tables@,
                    final(self).cache@,
                    plan,
                ) && plan_is(r, plan),
    {
        let ghost v = self.tables@;
        let ghost c0 = self.cache@;
        let ghost parts = path_parts(dir_path.0@);
        let (parent_path, name): (NfsPath, String) = match dir_path.split_parent_name() {
            None => {
                let r: Result<FinalizeStep, Stop> = Err(Stop::Refused(MetaError::FinalizeRoot));
                proof {
                    let plan = PlanView::Stopped(DirAnswer::Refused(MetaError::FinalizeRoot));
                    assert(plans_finalize(v, c0, base@, dir_path.0@, at, v, c0, plan));
                    assert(plan_is(r, plan));
                }
                return r;
            },
            Some(x) => x,
        };
        if !base.configured {
            let r: Result<FinalizeStep, Stop> = Err(Stop::Refused(MetaError::StoreNotConfigured));
            proof {
                let plan = PlanView::Stopped(DirAnswer::Refused(MetaError::StoreNotConfigured));
                assert(plans_finalize(v, c0, base@, dir_path.0@, at, v, c0, plan));
                assert(plan_is(r, plan));
            }
            return r;
        }
        let found = self.ensure_dir_inode(base, &parent_path, at);
        let ghost w = self.tables@;
        let ghost mid = self.cache@;
        let ghost a = choose|a: DirAnswer| #[trigger]
            ensures_dir(v, c0, base@, parent_path.0@, at, w, mid, a) && dir_answer_is(found, a);
        proof {
            assert(parent_path.0@ == holder_path(parts));
            assert(ensures_dir(v, c0, base@, holder_path(parts), at, w, mid, a));
        }
        match found {
            Err(s) => {
                let r: Result<FinalizeStep, Stop> = Err(s);
                proof {
                    let plan = PlanView::Stopped(a);
                    assert(plans_finalize(v, c0, base@, dir_path.0@, at, w, mid, plan));
                    assert(plan_is(r, plan));
                }
                r
            },
            Ok(parent) => {
                let r = self.plan_at(base, dir_path, parent, name);
                proof {
                    let plan = choose|plan: PlanView| #[trigger]
                        plans_at(
                            w,
                            mid,
                            base@,
                            dir_path.0@,
                            parent,
                            name@,
                            self.cache@,
                            plan,
                        ) && plan_is(r, plan);
                    assert(plans_finalize(
                        v,
                        c0,
                        base@,
                        dir_path.0@,
                        at,
                        w,
                        self.cache@,
                        plan,
                    ));
                }
                r
            },
        }
    }
}

/// Whether a planned object may still take the place of its directory; false
/// where a directory object stands there already.
pub open spec fn may_finish(v: TablesView, plan: FinalizePlan) -> Result<bool, MetaError> {
    match v.read(plan.parent) {
        Err(e) => Err(e),
        Ok(None) => Err(MetaError::ParentGoneDuringFinalize),
        Ok(Some(p)) => if rev_or_zero(p.rev) != plan.parent_rev {
            Err(MetaError::ParentRevChanged)
        } else {
            match v.dentry(plan.parent, plan.name@) {
                None => Err(MetaError::DentryGoneDuringFinalize),
                Some(d) => match d.target {
                    DentryTarget::ObjId(o) => if o.is_dir() {
                        Ok(false)
                    } else {
                        Err(MetaError::PathNotDir)
                    },
                    DentryTarget::SymLink(_) | DentryTarget::Tombstone => Err(
                        MetaError::TargetChangedDuringFinalize,
                    ),
                    DentryTarget::IndexNodeId(id) => if id != plan.dir {
                        Err(MetaError::TargetChangedDuringFinalize)
                    } else {
                        match v.read(id) {
                            Err(e) => Err(e),
                            Ok(None) => Err(MetaError::DirGoneDuringFinalize),
                            Ok(Some(dir)) => if kind_of(dir.state) != NodeKind::Dir {
                                Err(MetaError::PathNotDir)
                            } else if rev_or_zero(dir.rev) != plan.dir_rev {
                                Err(MetaError::DirRevChanged)
                            } else {
                                Ok(true)
                            },
                        }
                    },
                },
            }
        },
    }
}

/// Takes the entry `d` of `dir` away, with the inode it points to.
pub open spec fn drop_child_after(v: TablesView, dir: u64, d: DentryRecord, rev: u64) -> Result<
    TablesView,
    MetaError,
> {
    match d.target {
        DentryTarget::IndexNodeId(id) => match remove_inode_after(v, id) {
            Err(e) => Err(e),
            Ok(w) => delete_dentry_after(w, dir, d.name@, rev),
        },
        _ => delete_dentry_after(v, dir, d.name@, rev),
    }
}

/// Takes the entries `es` of `dir` away one after another.
pub open spec fn drop_children_after(
    v: TablesView,
    dir: u64,
    es: Seq<DentryRecord>,
    rev: int,
) -> Result<TablesView, MetaError>
    decreases es.len(),
{
    if es.len() == 0 {
        Ok(v)
    } else {
        match drop_children_after(v, dir, es.drop_last(), rev) {
            Err(e) => Err(e),
            Ok(w) => if rev + es.len() - 1 > u64::MAX {
                Err(MetaError::CounterOverflow)
            } else {
                drop_child_after(w, dir, es.last(), (rev + es.len() - 1) as u64)
            },
        }
    }
}

/// The directory with entries `es` gone.
pub open spec fn dropped_after(v: TablesView, dir: u64, es: Seq<DentryRecord>, rev: int) -> Result<
    TablesView,
    MetaError,
> {
    match drop_children_after(v, dir, es, rev) {
        Err(e) => Err(e),
        Ok(w) => remove_inode_after(w, dir),
    }
}

/// The planned object takes the place of the directory; no tables where an
/// object stands there already.
pub open spec fn finishes(
    v: TablesView,
    plan: FinalizePlan,
    obj: ObjId,
    now: u64,
    out: Result<Option<TablesView>, MetaError>,
) -> bool {
    match may_finish(v, plan) {
        Err(e) => out == Err::<Option<TablesView>, MetaError>(e),
        Ok(false) => out == Ok::<Option<TablesView>, MetaError>(None),
        Ok(true) => match replace_target_after(
            v,
            plan.parent,
            plan.name@,
            DentryTarget::IndexNodeId(plan.dir),
            DentryTarget::ObjId(obj),
            plan.parent_rev,
            now,
        ) {
            Err(e) => out == Err::<Option<TablesView>, MetaError>(e),
            Ok(w) => exists|es: Seq<DentryRecord>| #[trigger]
                is_entries(w, plan.dir, es) && out == match dropped_after(
                    w,
                    plan.dir,
                    es,
                    plan.dir_rev as int,
                ) {
                    Err(e) => Err::<Option<TablesView>, MetaError>(e),
                    Ok(x) => Ok::<Option<TablesView>, MetaError>(Some(x)),
                },
        },
    }
}

impl MetaTables {
    fn check_finish(&self, plan: &FinalizePlan) -> (r: Result<bool, MetaError>)
        requires
            self.wf(),
        ensures
            r == may_finish(self@, *plan),
    {
        let parent_rev: u64 = match self.get_inode(plan.parent) {
            Err(e) => {
                return Err(e);
            },
            Ok(None) => {
                return Err(MetaError::ParentGoneDuringFinalize);
            },
            Ok(Some(p)) => match p.rev {
                Some(x) => x,
                None => 0,
            },
        };
        if parent_rev != plan.parent_rev {
            return Err(MetaError::ParentRevChanged);
        }
        let id: u64 = match self.get_dentry(plan.parent, plan.name.as_str()) {
            None => {
                return Err(MetaError::DentryGoneDuringFinalize);
            },
            Some(d) => match d.target {
                DentryTarget::ObjId(o) => {
                    if o.is_dir_object() {
                        return Ok(false);
                    }
                    return Err(MetaError::PathNotDir);
                },
                DentryTarget::SymLink(_) | DentryTarget::Tombstone => {
                    return Err(MetaError::TargetChangedDuringFinalize);
                },
                DentryTarget::IndexNodeId(id) => id,
            },
        };
        if id != plan.dir {
            return Err(MetaError::TargetChangedDuringFinalize);
        }
        match self.get_inode(id) {
            Err(e) => Err(e),
            Ok(None) => Err(MetaError::DirGoneDuringFinalize),
            Ok(Some(dir)) => {
                let rev: u64 = match dir.rev {
                    Some(x) => x,
                    None => 0,
                };
                if !matches!(dir.get_node_kind(), NodeKind::Dir) {
                    Err(MetaError::PathNotDir)
                } else if rev != plan.dir_rev {
                    Err(MetaError::DirRevChanged)
                } else {
                    Ok(true)
                }
            },
        }
    }

    fn drop_children(&mut self, dir: u64, entries: &Vec<DentryRecord>, dir_rev: u64) -> (r: Result<
        (),
        MetaError,
    >)
        requires
            old(self).wf(),
        ensures
            final(self).wf(),
            match r {
                Ok(_) => drop_children_after(old(self)@, dir, entries@, dir_rev as int) == Ok::<
                    TablesView,
                    MetaError,
                >(final(self)@),
                Err(e) => drop_children_after(old(self)@, dir, entries@, dir_rev as int) == Err::<
                    TablesView,
                    MetaError,
                >(e),
            },
    {
        let ghost v0 = self@;
        let ghost es = entries@;
        let mut rev: u64 = dir_rev;
        let mut i: usize = 0;
        assert(es.take(0) =~= Seq::empty());
        while i < entries.len()
            invariant
                self.wf(),
                v0 == old(self)@,
                es == entries@,
                0 <= i <= es.len(),
                i < es.len() ==> rev == dir_rev + i,
                drop_children_after(v0, dir, es.take(i as int), dir_rev as int) == Ok::<
                    TablesView,
                    MetaError,
                >(self@),
            decreases entries@.len() - i,
        {
            let ghost next = es.take(i + 1);
            proof {
                assert(next.drop_last() =~= es.take(i as int));
                assert(next.last() == es[i as int]);
            }
            let ghost before = self@;
            let dropped: Result<(), MetaError> = match &entries[i].target {
                DentryTarget::IndexNodeId(id) => match self.remove_inode(*id) {
                    Err(e) => Err(e),
                    Ok(_) => self.delete_dentry(dir, entries[i].name.as_str(), rev),
                },
                _ => self.delete_dentry(dir, entries[i].name.as_str(), rev),
            };
            match dropped {
                Err(e) => {
                    proof {
                        assert(drop_children_after(v0, dir, next, dir_rev as int) == Err::<
                            TablesView,
                            MetaError,
                        >(e));
                        lemma_drop_error_stays(v0, dir, es, i + 1, dir_rev as int, e);
                    }
                    return Err(e);
                },
                Ok(_) => {},
            }
            i = i + 1;
            if i < entries.len() {
                if rev == u64::MAX {
                    proof {
                        let past = es.take(i + 1);
                        assert(past.drop_last() =~= es.take(i as int));
                        lemma_drop_error_stays(
                            v0,
                            dir,
                            es,
                            i + 1,
                            dir_rev as int,
                            MetaError::CounterOverflow,
                        );
                    }
                    return Err(MetaError::CounterOverflow);
                }
                rev = rev + 1;
            }
        }
        assert(es.take(i as int) =~= es);
        Ok(())
    }

    /// Puts the object built from `plan` in the place of the directory.
    pub fn finish_finalize_dir(&self, plan: &FinalizePlan, obj: ObjId, now: u64) -> (r: Result<
        Option<MetaTables>,
        MetaError,
    >)
        requires
            self.wf(),
        ensures
            match r {
                Ok(Some(t)) => t.wf() && finishes(self@, *plan, obj, now, Ok(Some(t@))),
                Ok(None) => finishes(self@, *plan, obj, now, Ok(None)),
                Err(e) => finishes(self@, *plan, obj, now, Err(e)),
            },
    {
        match self.check_finish(plan) {
            Err(e) => {
                return Err(e);
            },
            Ok(go_on) => {
                if !go_on {
                    return Ok(None);
                }
            },
        }
        let mut t: MetaTables = self.copy();
        match t.replace_target(
            plan.parent,
            plan.name.as_str(),
            &DentryTarget::IndexNodeId(plan.dir),
            DentryTarget::ObjId(obj),
            plan.parent_rev,
            now,
        ) {
            Err(e) => {
                return Err(e);
            },
            Ok(_) => {},
        }
        let ghost w = t@;
        let entries: Vec<DentryRecord> = t.list_dentries(plan.dir);
        assert(is_entries(w, plan.dir, entries@));
        match t.drop_children(plan.dir, &entries, plan.dir_rev) {
            Err(e) => {
                return Err(e);
            },
            Ok(_) => {},
        }
        match t.remove_inode(plan.dir) {
            Err(e) => Err(e),
            Ok(_) => Ok(Some(t)),
        }
    }
}

proof fn lemma_drop_error_stays(
    v: TablesView,
    dir: u64,
    es: Seq<DentryRecord>,
    n: int,
    rev: int,
    e: MetaError,
)
    requires
        0 <= n <= es.len(),
        drop_children_after(v, dir, es.take(n), rev) == Err::<TablesView, MetaError>(e),
    ensures
        drop_children_after(v, dir, es, rev) == Err::<TablesView, MetaError>(e),
    decreases es.len() - n,
{
    if n == es.len() {
        assert(es.take(n) =~= es);
    } else {
        assert(es.take(n + 1).drop_last() =~= es.take(n));
        lemma_drop_error_stays(v, dir, es, n + 1, rev, e);
    }
}

/// What a finished plan leaves behind.
pub open spec fn finish_committed(
    a: Committed,
    plan: FinalizePlan,
    obj: ObjId,
    now: u64,
    b: Committed,
) -> bool {
    if may_finish(a.tables@, plan) == Ok::<bool, MetaError>(false) {
        b == a
    } else {
        exists|x: TablesView| #[trigger]
            finishes(a.tables@, plan, obj, now, Ok(Some(x))) && b.tables@ == settled(x) && installs(
                a.cache@,
                x,
                b.cache@,
            )
    }
}

impl Committed {
    /// Finishes the plan and commits it; an object that stands there already is
    /// as good.
    pub fn finish_finalize_dir(&mut self, plan: &FinalizePlan, obj: ObjId, now: u64) -> (r: Result<
        bool,
        MetaError,
    >)
        requires
            old(self).wf(),
        ensures
            final(self).wf(),
            match r {
                Ok(done) => done && finish_committed(*old(self), *plan, obj, now, *final(self)),
                Err(e) => finishes(old(self).tables@, *plan, obj, now, Err(e)) && *final(self)
                    == *old(self),
            },
    {
        match self.tables.finish_finalize_dir(plan, obj, now) {
            Err(e) => Err(e),
            Ok(None) => Ok(true),
            Ok(Some(t)) => {
                let ghost v0 = self.tables@;
                let ghost x = t@;
                self.install(t);
                assert(finishes(v0, *plan, obj, now, Ok(Some(x))));
                Ok(true)
            },
        }
    }
}

} // verus!
