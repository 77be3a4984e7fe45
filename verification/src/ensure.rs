//! Finding or making the directory at a path.
//!
//! Every directory that has to be made is committed on its own, so what was
//! made stays when a later component cannot be entered.

use vstd::prelude::*;
use crate::committed::{installs, settled, Committed};
use crate::errors::MetaError;
use crate::ops::{create_dir_under_after, materialize_after};
use crate::outside::{BaseChildLookup, BaseStore, BaseStoreView, Question, Stop};
use crate::path_cache::{CacheView, Path};
use crate::paths::{between_slashes, join_plain, path_parts, NfsPath};
use crate::records::{kind_of, DentryTarget, FsMetaResolvePathItem, NodeKind, ObjId};
use crate::resolve::{
    answer_is, base_look, first_texts, resolves, Answer, Look,
    DEFAULT_SYMLINK_COUNT,
};
use crate::tables::{MetaTables, TablesView};
use crate::text::view_all;

verus! {

/// When a request is made, and whether an open transaction keeps it from
/// changing anything.
#[derive(Debug, Clone, Copy)]
pub struct When {
    pub now: u64,
    pub locked: bool,
}

/// What looking for a directory comes to.
pub enum DirAnswer {
    Dir(u64),
    NotDir(Seq<char>),
    NonDirComponent(Seq<char>),
    Refused(MetaError),
    AskChild(ObjId, Seq<char>),
}

/// The answer in the form in which callers get it.
pub open spec fn dir_answer_is(r: Result<u64, Stop>, a: DirAnswer) -> bool {
    match a {
        DirAnswer::Dir(id) => r == Ok::<u64, Stop>(id),
        DirAnswer::NotDir(path) => match r {
            Err(Stop::Refused(MetaError::NotDirectory { what })) => what@ == path,
            _ => false,
        },
        DirAnswer::NonDirComponent(c) => match r {
            Err(Stop::Refused(MetaError::NotDirObjectComponent { name })) => name@ == c,
            _ => false,
        },
        DirAnswer::Refused(e) => r == Err::<u64, Stop>(Stop::Refused(e)),
        DirAnswer::AskChild(o, child) => match r {
            Err(Stop::Ask(Question::BaseChild { dir, name })) => dir == o && name@ == child,
            _ => false,
        },
    }
}

/// What the next component of a path asks for.
pub enum DirStep {
    /// It is the directory with this inode.
    Down(u64),
    /// A new directory has to be made.
    Make,
    /// This directory object needs an inode laid over it.
    Lay(ObjId),
    End(DirAnswer),
}

/// How to get from directory `cur` into component `i` of the path.
pub open spec fn dir_step(
    v: TablesView,
    base: BaseStoreView,
    p: Path,
    i: int,
    cur: u64,
) -> DirStep {
    match v.dentry(cur, p[i]) {
        Some(d) => match d.target {
            DentryTarget::IndexNodeId(id) => match v.read(id) {
                Err(e) => DirStep::End(DirAnswer::Refused(e)),
                Ok(None) => DirStep::End(DirAnswer::Refused(MetaError::InodeNotFound)),
                Ok(Some(node)) => if kind_of(node.state) != NodeKind::Dir {
                    DirStep::End(DirAnswer::NotDir(between_slashes(p.take(i + 1))))
                } else {
                    DirStep::Down(id)
                },
            },
            DentryTarget::ObjId(o) => if o.is_dir() {
                DirStep::Lay(o)
            } else {
                DirStep::End(DirAnswer::NonDirComponent(p[i]))
            },
            DentryTarget::SymLink(_) => DirStep::End(
                DirAnswer::NotDir(between_slashes(p.take(i + 1))),
            ),
            DentryTarget::Tombstone => DirStep::Make,
        },
        None => match v.read(cur) {
            Err(e) => DirStep::End(DirAnswer::Refused(e)),
            Ok(None) => DirStep::End(DirAnswer::Refused(MetaError::ParentInodeNotFound)),
            Ok(Some(node)) => if kind_of(node.state) != NodeKind::Dir {
                DirStep::End(DirAnswer::NotDir(between_slashes(p.take(i))))
            } else {
                match base_look(base, node, p[i]) {
                    Look::Missing => DirStep::Make,
                    Look::Child(o) => if o.is_dir() {
                        DirStep::Lay(o)
                    } else {
                        DirStep::End(DirAnswer::NotDir(between_slashes(p.take(i + 1))))
                    },
                    Look::Refused(e) => DirStep::End(DirAnswer::Refused(e)),
                    Look::Unknown(o) => DirStep::End(DirAnswer::AskChild(o, p[i])),
                }
            },
        },
    }
}

/// The tables and the id after making or laying over a directory, if the step
/// asks for that.
pub open spec fn step_made(
    v: TablesView,
    step: DirStep,
    cur: u64,
    name: String,
    at: When,
) -> Result<(TablesView, u64), MetaError> {
    if at.locked {
        Err(MetaError::TxnBeginBusy)
    } else {
        match step {
            DirStep::Lay(o) => materialize_after(v, cur, name, o, at.now),
            _ => create_dir_under_after(v, cur, name, at.now),
        }
    }
}

/// Going down the components from `i` on, making what is missing.
pub open spec fn makes_dirs(
    v: TablesView,
    c: CacheView,
    base: BaseStoreView,
    comps: Seq<String>,
    i: int,
    cur: u64,
    at: When,
    w: TablesView,
    d: CacheView,
    a: DirAnswer,
) -> bool
    decreases comps.len() - i,
{
    if i >= comps.len() {
        w == v && d == c && a == DirAnswer::Dir(cur)
    } else {
        let step = dir_step(v, base, view_all(comps), i, cur);
        match step {
            DirStep::End(end) => w == v && d == c && a == end,
            DirStep::Down(id) => makes_dirs(v, c, base, comps, i + 1, id, at, w, d, a),
            _ => match step_made(v, step, cur, comps[i], at) {
                Err(e) => w == v && d == c && a == DirAnswer::Refused(e),
                Ok(made) => exists|m: CacheView| #[trigger]
                    installs(c, made.0, m) && makes_dirs(
                        settled(made.0),
                        m,
                        base,
                        comps,
                        i + 1,
                        made.1,
                        at,
                        w,
                        d,
                        a,
                    ),
            },
        }
    }
}

/// What the resolution of `path` already settles; nothing where directories may
/// have to be made.
pub open spec fn settled_by(a: Answer, path: Seq<char>) -> Option<DirAnswer> {
    match a {
        Answer::Absent => None,
        Answer::Refused(e) => Some(DirAnswer::Refused(e)),
        Answer::AskChild(o, name) => Some(DirAnswer::AskChild(o, name)),
        Answer::Found(resp) => match resp.item {
            FsMetaResolvePathItem::Inode { inode_id, inode } => if kind_of(inode.state)
                != NodeKind::Dir {
                Some(DirAnswer::NotDir(path))
            } else {
                Some(DirAnswer::Dir(inode_id))
            },
            FsMetaResolvePathItem::SymLink(_) => Some(DirAnswer::NotDir(path)),
            FsMetaResolvePathItem::ObjId(o) => if o.is_dir() {
                None
            } else {
                Some(DirAnswer::NotDir(path))
            },
        },
    }
}

/// Finding or making the directory at `path`, from tables `v` and cache `c`.
pub open spec fn ensures_dir(
    v: TablesView,
    c: CacheView,
    base: BaseStoreView,
    path: Seq<char>,
    at: When,
    w: TablesView,
    d: CacheView,
    a: DirAnswer,
) -> bool {
    let p = path_parts(path);
    if p.len() == 0 {
        w == v && d == c && a == DirAnswer::Dir(v.root)
    } else {
        exists|mid: CacheView, answer: Answer| #[trigger]
            resolves(v, base, c, p, DEFAULT_SYMLINK_COUNT as nat, mid, answer) && match settled_by(
                answer,
                path,
            ) {
                Some(end) => w == v && d == mid && a == end,
                None => exists|comps: Seq<String>|
                    view_all(comps) == p && #[trigger] makes_dirs(
                        v,
                        mid,
                        base,
                        comps,
                        0,
                        v.root,
                        at,
                        w,
                        d,
                        a,
                    ),
            }
    }
}

proof fn lemma_made_then(
    v: TablesView,
    c: CacheView,
    base: BaseStoreView,
    comps: Seq<String>,
    i: int,
    cur: u64,
    at: When,
    x: TablesView,
    id: u64,
    m: CacheView,
    w: TablesView,
    d: CacheView,
    a: DirAnswer,
)
    requires
        0 <= i < comps.len(),
        ({
            let step = dir_step(v, base, view_all(comps), i, cur);
            &&& step is Make || step is Lay
            &&& step_made(v, step, cur, comps[i], at) == Ok::<(TablesView, u64), MetaError>(
                (x, id),
            )
        }),
        installs(c, x, m),
        makes_dirs(settled(x), m, base, comps, i + 1, id, at, w, d, a),
    ensures
        makes_dirs(v, c, base, comps, i, cur, at, w, d, a),
{
    let made = step_made(v, dir_step(v, base, view_all(comps), i, cur), cur, comps[i], at)->Ok_0;
    assert(made == (x, id));
    assert(installs(c, made.0, m));
}

enum Next {
    Down(u64),
    Make,
    Lay(ObjId),
    End(Stop),
}

spec fn next_is(n: Next, s: DirStep) -> bool {
    match s {
        DirStep::Down(id) => n == Next::Down(id),
        DirStep::Make => n is Make,
        DirStep::Lay(o) => n == Next::Lay(o),
        DirStep::End(a) => match n {
            Next::End(stop) => dir_answer_is(Err(stop), a),
            _ => false,
        },
    }
}

fn not_dir(comps: &Vec<String>, n: usize) -> (r: Stop)
    requires
        n <= comps@.len(),
    ensures
        dir_answer_is(
            Err(r),
            DirAnswer::NotDir(between_slashes(view_all(comps@).take(n as int))),
        ),
{
    let head: Vec<String> = first_texts(comps, n);
    Stop::Refused(MetaError::NotDirectory { what: join_plain(&head) })
}

impl MetaTables {
    fn look_down(&self, base: &BaseStore, comps: &Vec<String>, i: usize, cur: u64) -> (r: Next)
        requires
            self.wf(),
            base.wf(),
            i < comps@.len(),
        ensures
            next_is(r, dir_step(self@, base@, view_all(comps@), i as int, cur)),
    {
        let ghost p = view_all(comps@);
        assert(p[i as int] == comps@[i as int]@);
        assert(comps.len() == comps@.len());
        match self.get_dentry(cur, comps[i].as_str()) {
            Some(d) => match d.target {
                DentryTarget::IndexNodeId(id) => match self.get_inode(id) {
                    Err(e) => Next::End(Stop::Refused(e)),
                    Ok(None) => Next::End(Stop::Refused(MetaError::InodeNotFound)),
                    Ok(Some(node)) => {
                        if !matches!(node.get_node_kind(), NodeKind::Dir) {
                            Next::End(not_dir(comps, i + 1))
                        } else {
                            Next::Down(id)
                        }
                    },
                },
                DentryTarget::ObjId(o) => {
                    if o.is_dir_object() {
                        Next::Lay(o)
                    } else {
                        Next::End(
                            Stop::Refused(
                                MetaError::NotDirObjectComponent { name: comps[i].clone() },
                            ),
                        )
                    }
                },
                DentryTarget::SymLink(_) => Next::End(not_dir(comps, i + 1)),
                DentryTarget::Tombstone => Next::Make,
            },
            None => match self.get_inode(cur) {
                Err(e) => Next::End(Stop::Refused(e)),
                Ok(None) => Next::End(Stop::Refused(MetaError::ParentInodeNotFound)),
                Ok(Some(node)) => {
                    if !matches!(node.get_node_kind(), NodeKind::Dir) {
                        return Next::End(not_dir(comps, i));
                    }
                    match base.lookup_base_dirobj_child(&node, &comps[i]) {
                        Err(s) => Next::End(s),
                        Ok(BaseChildLookup::DirObj(o)) => Next::Lay(o),
                        Ok(BaseChildLookup::NonDirObj(_)) => Next::End(not_dir(comps, i + 1)),
                        Ok(BaseChildLookup::Missing) => Next::Make,
                    }
                },
            },
        }
    }
}

impl Committed {
    fn make_dirs(&mut self, base: &BaseStore, comps: &Vec<String>, at: When) -> (r: Result<
        u64,
        Stop,
    >)
        requires
            old(self).wf(),
            base.wf(),
        ensures
            final(self).wf(),
            old(self).tables@.touched.len() == 0 ==> final(self).tables@.touched.len() == 0,
            exists|a: DirAnswer| #[trigger]
                makes_dirs(
                    old(self).tables@,
                    old(self).cache@,
                    base@,
                    comps@,
                    0,
                    old(self).tables@.root,
                    at,
                    final(self).tables@,
                    final(self).cache@,
                    a,
                ) && dir_answer_is(r, a),
    {
        let ghost v0 = self.tables@;
        let ghost c0 = self.cache@;
        let mut cur: u64 = self.tables.root;
        let mut i: usize = 0;
        while i < comps.len()
            invariant
                self.wf(),
                base.wf(),
                v0 == old(self).tables@,
                c0 == old(self).cache@,
                v0.touched.len() == 0 ==> self.tables@.touched.len() == 0,
                0 <= i <= comps@.len(),
                forall|w: TablesView, d: CacheView, a: DirAnswer|
                    makes_dirs(
                        self.tables@,
                        self.cache@,
                        base@,
                        comps@,
                        i as int,
                        cur,
                        at,
                        w,
                        d,
                        a,
                    ) ==> #[trigger] makes_dirs(v0, c0, base@, comps@, 0, v0.root, at, w, d, a),
            decreases comps@.len() - i,
        {
            let ghost v = self.tables@;
            let ghost c = self.cache@;
            let ghost step = dir_step(v, base@, view_all(comps@), i as int, cur);
            let made: Result<(MetaTables, u64), MetaError> = match self.tables.look_down(
                base,
                comps,
                i,
                cur,
            ) {
                Next::End(s) => {
                    proof {
                        let a = step->End_0;
                        assert(makes_dirs(v, c, base@, comps@, i as int, cur, at, v, c, a));
                        assert(makes_dirs(v0, c0, base@, comps@, 0, v0.root, at, v, c, a));
                    }
                    return Err(s);
                },
                Next::Down(id) => {
                    proof {
                        assert forall|w: TablesView, d: CacheView, a: DirAnswer|
                            makes_dirs(v, c, base@, comps@, i + 1, id, at, w, d, a) implies
                            #[trigger] makes_dirs(v0, c0, base@, comps@, 0, v0.root, at, w, d, a) by {
                            assert(makes_dirs(v, c, base@, comps@, i as int, cur, at, w, d, a));
                        }
                    }
                    cur = id;
                    i = i + 1;
                    continue ;
                },
                Next::Make => {
                    if at.locked {
                        Err(MetaError::TxnBeginBusy)
                    } else {
                        self.tables.create_dir_under_parent(cur, &comps[i], at.now)
                    }
                },
                Next::Lay(o) => {
                    if at.locked {
                        Err(MetaError::TxnBeginBusy)
                    } else {
                        self.tables.materialize_dir_from_obj(cur, comps[i].clone(), &o, at.now)
                    }
                },
            };
            match made {
                Err(e) => {
                    proof {
                        let a = DirAnswer::Refused(e);
                        assert(makes_dirs(v, c, base@, comps@, i as int, cur, at, v, c, a));
                        assert(makes_dirs(v0, c0, base@, comps@, 0, v0.root, at, v, c, a));
                    }
                    return Err(Stop::Refused(e));
                },
                Ok((t, id)) => {
                    let ghost x = t@;
                    self.install(t);
                    proof {
                        let m = self.cache@;
                        assert(self.tables@ == settled(x));
                        assert forall|w: TablesView, d: CacheView, a: DirAnswer|
                            makes_dirs(settled(x), m, base@, comps@, i + 1, id, at, w, d, a) implies
                            #[trigger] makes_dirs(v0, c0, base@, comps@, 0, v0.root, at, w, d, a) by {
                            lemma_made_then(v, c, base@, comps@, i as int, cur, at, x, id, m, w, d, a);
                        }
                    }
                    cur = id;
                    i = i + 1;
                },
            }
        }
        proof {
            let a = DirAnswer::Dir(cur);
            assert(makes_dirs(
                self.tables@,
                self.cache@,
                base@,
                comps@,
                i as int,
                cur,
                at,
                self.tables@,
                self.cache@,
                a,
            ));
            assert(makes_dirs(
                v0,
                c0,
                base@,
                comps@,
                0,
                v0.root,
                at,
                self.tables@,
                self.cache@,
                a,
            ));
        }
        Ok(cur)
    }

    /// The inode of the directory at `path`; directories that are missing on
    /// the way are made, and directory objects get inodes laid over them.
    pub fn ensure_dir_inode(&mut self, base: &BaseStore, path: &NfsPath, at: When) -> (r: Result<
        u64,
        Stop,
    >)
        requires
            old(self).wf(),
            base.wf(),
        ensures
            final(self).wf(),
            old(self).tables@.touched.len() == 0 ==> final(self).tables@.touched.len() == 0,
            exists|a: DirAnswer| #[trigger]
                ensures_dir(
                    old(self).tables@,
                    old(self).cache@,
                    base@,
                    path.0@,
                    at,
                    final(self).tables@,
                    final(self).cache@,
                    a,
                ) && dir_answer_is(r, a),
    {
        let ghost v0 = self.tables@;
        let ghost c0 = self.cache@;
        let ghost p = path_parts(path.0@);
        let comps: Vec<String> = path.components();
        assert(view_all(comps@).len() == comps@.len());
        if comps.len() == 0 {
            proof {
                let a = DirAnswer::Dir(v0.root);
                assert(ensures_dir(v0, c0, base@, path.0@, at, v0, c0, a));
            }
            return Ok(self.tables.root);
        }
        let found = self.tables.resolve_path_ex(
            base,
            &mut self.cache,
            path.components(),
            DEFAULT_SYMLINK_COUNT,
        );
        let ghost mid = self.cache@;
        let ghost answer = choose|answer: Answer| #[trigger]
            resolves(v0, base@, c0, p, DEFAULT_SYMLINK_COUNT as nat, mid, answer) && answer_is(
                found,
                answer,
            );
        proof {
            assert(resolves(v0, base@, c0, p, DEFAULT_SYMLINK_COUNT as nat, mid, answer));
        }
        let now_known: Option<Result<u64, Stop>> = match found {
            Err(s) => Some(Err(s)),
            Ok(None) => None,
            Ok(Some(resp)) => match resp.item {
                FsMetaResolvePathItem::Inode { inode_id, inode } => {
                    if !matches!(inode.get_node_kind(), NodeKind::Dir) {
                        Some(
                            Err(
                                Stop::Refused(
                                    MetaError::NotDirectory { what: path.as_str().to_owned() },
                                ),
                            ),
                        )
                    } else {
                        Some(Ok(inode_id))
                    }
                },
                FsMetaResolvePathItem::SymLink(_) => Some(
                    Err(
                        Stop::Refused(
                            MetaError::NotDirectory { what: path.as_str().to_owned() },
                        ),
                    ),
                ),
                FsMetaResolvePathItem::ObjId(o) => {
                    if o.is_dir_object() {
                        None
                    } else {
                        Some(
                            Err(
                                Stop::Refused(
                                    MetaError::NotDirectory { what: path.as_str().to_owned() },
                                ),
                            ),
                        )
                    }
                },
            },
        };
        match now_known {
            Some(r) => {
                proof {
                    let a = settled_by(answer, path.0@)->0;
                    assert(settled_by(answer, path.0@) is Some && dir_answer_is(r, a));
                    assert(ensures_dir(v0, c0, base@, path.0@, at, v0, mid, a));
                }
                r
            },
            None => {
                let r = self.make_dirs(base, &comps, at);
                proof {
                    assert(settled_by(answer, path.0@) is None);
                    let a = choose|a: DirAnswer| #[trigger]
                        makes_dirs(
                            v0,
                            mid,
                            base@,
                            comps@,
                            0,
                            v0.root,
                            at,
                            self.tables@,
                            self.cache@,
                            a,
                        ) && dir_answer_is(r, a);
                    assert(view_all(comps@) == p && makes_dirs(
                        v0,
                        mid,
                        base@,
                        comps@,
                        0,
                        v0.root,
                        at,
                        self.tables@,
                        self.cache@,
                        a,
                    ));
                    assert(ensures_dir(
                        v0,
                        c0,
                        base@,
                        path.0@,
                        at,
                        self.tables@,
                        self.cache@,
                        a,
                    ));
                }
                r
            },
        }
    }
}

/// What making one directory comes to.
pub enum MadeAnswer {
    Made,
    Refused(MetaError),
    AskChild(ObjId, Seq<char>),
}

pub open spec fn made_answer_is(r: Result<(), Stop>, a: MadeAnswer) -> bool {
    match a {
        MadeAnswer::Made => r is Ok,
        MadeAnswer::Refused(e) => r == Err::<(), Stop>(Stop::Refused(e)),
        MadeAnswer::AskChild(o, child) => match r {
            Err(Stop::Ask(Question::BaseChild { dir, name })) => dir == o && name@ == child,
            _ => false,
        },
    }
}

/// The directory that a path of a parent resolves to.
pub open spec fn parent_dir(a: Answer) -> Result<u64, MadeAnswer> {
    match a {
        Answer::Refused(e) => Err(MadeAnswer::Refused(e)),
        Answer::AskChild(o, name) => Err(MadeAnswer::AskChild(o, name)),
        Answer::Absent => Err(MadeAnswer::Refused(MetaError::ParentDirNotFound)),
        Answer::Found(resp) => match resp.item {
            FsMetaResolvePathItem::Inode { inode_id, inode } => if kind_of(inode.state)
                != NodeKind::Dir {
                Err(MadeAnswer::Refused(MetaError::ParentNotDir))
            } else {
                Ok(inode_id)
            },
            _ => Err(MadeAnswer::Refused(MetaError::ParentDirNotFound)),
        },
    }
}

/// Making `name` in `parent`, unless something stands there already.
pub open spec fn makes_in(
    v: TablesView,
    c: CacheView,
    parent: u64,
    name: String,
    at: When,
    w: TablesView,
    d: CacheView,
    a: MadeAnswer,
) -> bool {
    let there = v.dentry(parent, name@);
    if there is Some && !(there->0.target is Tombstone) {
        w == v && d == c && a == MadeAnswer::Made
    } else {
        match step_made(v, DirStep::Make, parent, name, at) {
            Err(e) => w == v && d == c && a == MadeAnswer::Refused(e),
            Ok((x, _)) => w == settled(x) && installs(c, x, d) && a == MadeAnswer::Made,
        }
    }
}

/// Making the directory at `path`, whose parent has to be there.
pub open spec fn makes_dir_at(
    v: TablesView,
    c: CacheView,
    base: BaseStoreView,
    path: Seq<char>,
    at: When,
    w: TablesView,
    d: CacheView,
    a: MadeAnswer,
) -> bool {
    let p = path_parts(path);
    if p.len() == 0 {
        w == v && d == c && a == MadeAnswer::Refused(MetaError::InvalidPath)
    } else {
        exists|name: String|
            name@ == p.last() && #[trigger] makes_named(
                v,
                c,
                base,
                p.drop_last(),
                name,
                at,
                w,
                d,
                a,
            )
    }
}

/// Making `name` in the directory at `p`.
pub open spec fn makes_named(
    v: TablesView,
    c: CacheView,
    base: BaseStoreView,
    p: Path,
    name: String,
    at: When,
    w: TablesView,
    d: CacheView,
    a: MadeAnswer,
) -> bool {
    exists|mid: CacheView, parent: Result<u64, MadeAnswer>| #[trigger]
        finds_parent(v, c, base, p, mid, parent) && match parent {
            Err(end) => w == v && d == mid && a == end,
            Ok(id) => makes_in(v, mid, id, name, at, w, d, a),
        }
}

/// Finding the directory in which to make one.
pub open spec fn finds_parent(
    v: TablesView,
    c: CacheView,
    base: BaseStoreView,
    p: Path,
    d: CacheView,
    parent: Result<u64, MadeAnswer>,
) -> bool {
    if p.len() == 0 {
        d == c && parent == Ok::<u64, MadeAnswer>(v.root)
    } else {
        exists|answer: Answer| #[trigger]
            resolves(v, base, c, p, 0, d, answer) && parent == parent_dir(answer)
    }
}

impl Committed {
    /// Makes the directory at `path` in a parent that has to be there.
    /// Something that stands at `path` already is left alone.
    pub fn create_dir_internal(&mut self, base: &BaseStore, path: &NfsPath, at: When) -> (r: Result<
        (),
        Stop,
    >)
        requires
            old(self).wf(),
            base.wf(),
        ensures
            final(self).wf(),
            exists|a: MadeAnswer| #[trigger]
                makes_dir_at(
                    old(self).tables@,
                    old(self).cache@,
                    base@,
                    path.0@,
                    at,
                    final(self).tables@,
                    final(self).cache@,
                    a,
                ) && made_answer_is(r, a),
    {
        let ghost v = self.tables@;
        let ghost c0 = self.cache@;
        let mut comps: Vec<String> = path.components();
        let ghost p = view_all(comps@);
        let name: String = match comps.pop() {
            None => {
                let r: Result<(), Stop> = Err(Stop::Refused(MetaError::InvalidPath));
                proof {
                    let a = MadeAnswer::Refused(MetaError::InvalidPath);
                    assert(makes_dir_at(v, c0, base@, path.0@, at, v, c0, a));
                    assert(made_answer_is(r, a));
                }
                return r;
            },
            Some(name) => name,
        };
        assert(view_all(comps@) =~= p.drop_last());
        let parent: u64 = if comps.len() == 0 {
            assert(finds_parent(
                v,
                c0,
                base@,
                p.drop_last(),
                c0,
                Ok::<u64, MadeAnswer>(v.root),
            ));
            self.tables.root
        } else {
            let found = self.tables.resolve_path_ex(base, &mut self.cache, comps, 0);
            let ghost mid = self.cache@;
            let ghost answer = choose|answer: Answer| #[trigger]
                resolves(v, base@, c0, p.drop_last(), 0, mid, answer) && answer_is(found, answer);
            assert(resolves(v, base@, c0, p.drop_last(), 0, mid, answer));
            assert(finds_parent(v, c0, base@, p.drop_last(), mid, parent_dir(answer)));
            let got: Result<u64, Stop> = match found {
                Err(s) => Err(s),
                Ok(None) => Err(Stop::Refused(MetaError::ParentDirNotFound)),
                Ok(Some(resp)) => match resp.item {
                    FsMetaResolvePathItem::Inode { inode_id, inode } => {
                        if !matches!(inode.get_node_kind(), NodeKind::Dir) {
                            Err(Stop::Refused(MetaError::ParentNotDir))
                        } else {
                            Ok(inode_id)
                        }
                    },
                    _ => Err(Stop::Refused(MetaError::ParentDirNotFound)),
                },
            };
            match got {
                Err(s) => {
                    let r: Result<(), Stop> = Err(s);
                    proof {
                        let a = parent_dir(answer)->Err_0;
                        assert(made_answer_is(r, a));
                        assert(makes_named(
                            v,
                            c0,
                            base@,
                            p.drop_last(),
                            name,
                            at,
                            v,
                            mid,
                            a,
                        ));
                        assert(makes_dir_at(v, c0, base@, path.0@, at, v, mid, a));
                        assert(self.tables@ == v && self.cache@ == mid);
                    }
                    return r;
                },
                Ok(id) => id,
            }
        };
        let ghost mid = self.cache@;
        assert(finds_parent(v, c0, base@, p.drop_last(), mid, Ok::<u64, MadeAnswer>(parent)));
        if let Some(d) = self.tables.get_dentry(parent, name.as_str()) {
            if !matches!(d.target, DentryTarget::Tombstone) {
                proof {
                    let a = MadeAnswer::Made;
                    assert(makes_in(v, mid, parent, name, at, v, mid, a));
                    assert(makes_named(v, c0, base@, p.drop_last(), name, at, v, mid, a));
                    assert(makes_dir_at(v, c0, base@, path.0@, at, v, mid, a));
                }
                return Ok(());
            }
        }
        let made: Result<(MetaTables, u64), MetaError> = if at.locked {
            Err(MetaError::TxnBeginBusy)
        } else {
            self.tables.create_dir_under_parent(parent, &name, at.now)
        };
        match made {
            Err(e) => {
                let r: Result<(), Stop> = Err(Stop::Refused(e));
                proof {
                    let a = MadeAnswer::Refused(e);
                    assert(makes_in(v, mid, parent, name, at, v, mid, a));
                    assert(makes_named(v, c0, base@, p.drop_last(), name, at, v, mid, a));
                    assert(makes_dir_at(v, c0, base@, path.0@, at, v, mid, a));
                    assert(made_answer_is(r, a));
                }
                r
            },
            Ok((t, _)) => {
                let ghost x = t@;
                self.install(t);
                proof {
                    let a = MadeAnswer::Made;
                    assert(makes_in(v, mid, parent, name, at, self.tables@, self.cache@, a));
                    assert(makes_named(
                        v,
                        c0,
                        base@,
                        p.drop_last(),
                        name,
                        at,
                        self.tables@,
                        self.cache@,
                        a,
                    ));
                    assert(makes_dir_at(
                        v,
                        c0,
                        base@,
                        path.0@,
                        at,
                        self.tables@,
                        self.cache@,
                        a,
                    ));
                }
                Ok(())
            },
        }
    }
}

} // verus!
