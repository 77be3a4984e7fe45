//! Resolution of paths: entry by entry, through bases and symbolic links, with
//! the cache of earlier resolutions in front.

use vstd::prelude::*;
use crate::errors::{at_stage, MetaError, Stage};
use crate::outside::{base_child, BaseChildLookup, BaseReply, BaseStore, BaseStoreView, Question, Stop};
use crate::path_cache::{
    known_ids, made_room, str_views, terminal_of, with_ids, with_terminal, CacheView, Path,
    PathResolveCache, PathResolveTerminalValue,
};
use crate::paths::{
    expanded, join_from, normalize_symlink_target_path, path_parts, slashed, NfsPath,
};
use crate::records::{
    kind_of, DentryTarget, FsMetaResolvePathItem, FsMetaResolvePathResp, NodeKind, NodeRecord,
    ObjId, OpenFileReaderResp,
};
use crate::table::{Dup, Key};
use crate::tables::{MetaTables, TablesView};
use crate::text::{clone_texts, view_all};
use crate::writer::{reader_for, reader_source};

verus! {

/// How many symbolic links are followed where the caller does not say.
pub const DEFAULT_SYMLINK_COUNT: u32 = 40;

/// What a path resolves to, and what is left of the path behind it.
pub struct RespView {
    pub item: FsMetaResolvePathItem,
    pub inner: Option<Seq<char>>,
}

/// What a resolution ends with.
pub enum Answer {
    Found(RespView),
    Absent,
    Refused(MetaError),
    AskChild(ObjId, Seq<char>),
}

pub open spec fn inner_of(tail: Path) -> Option<Seq<char>> {
    if tail.len() == 0 {
        None
    } else {
        Some(slashed(tail))
    }
}

/// What the base of a directory has under a name.
pub enum Look {
    Missing,
    Child(ObjId),
    Refused(MetaError),
    Unknown(ObjId),
}

pub open spec fn base_look(base: BaseStoreView, node: NodeRecord, name: Seq<char>) -> Look {
    match node.base_obj_id {
        None => Look::Missing,
        Some(dir) => if !dir.is_dir() {
            Look::Refused(MetaError::InvalidBaseType { obj_type: dir.obj_type })
        } else if !base.configured {
            Look::Refused(MetaError::NoStoreForBase)
        } else if !base.children.contains_key((dir.model(), name)) {
            Look::Unknown(dir)
        } else {
            match base.children[(dir.model(), name)] {
                BaseReply::Missing => Look::Missing,
                BaseReply::Failed(cause) => Look::Refused(MetaError::BaseLookupFailed { cause }),
                BaseReply::Found(child) => Look::Child(child),
            }
        },
    }
}

/// How a walk along entries ends.
pub enum WalkEnd {
    Absent,
    Refused(MetaError),
    AskChild(ObjId, Seq<char>),
    Inode { ids: Seq<u64>, inode: NodeRecord },
    Terminal { depth: int, ids: Seq<u64>, value: PathResolveTerminalValue },
}

pub enum Step {
    End(WalkEnd),
    Target(DentryTarget),
}

/// Where the name `name` of directory `dir` leads.
pub open spec fn step(v: TablesView, base: BaseStoreView, dir: u64, name: Seq<char>) -> Step {
    match v.dentry(dir, name) {
        Some(d) => Step::Target(d.target),
        None => match v.read(dir) {
            Err(e) => Step::End(WalkEnd::Refused(at_stage(Stage::Inode, e))),
            Ok(None) => Step::End(WalkEnd::Refused(MetaError::ParentInodeNotFound)),
            Ok(Some(node)) => if kind_of(node.state) != NodeKind::Dir {
                Step::End(WalkEnd::Absent)
            } else {
                match base_look(base, node, name) {
                    Look::Missing => Step::End(WalkEnd::Absent),
                    Look::Child(o) => Step::Target(DentryTarget::ObjId(o)),
                    Look::Refused(e) => Step::End(
                        WalkEnd::Refused(at_stage(Stage::BaseChild, e)),
                    ),
                    Look::Unknown(o) => Step::End(WalkEnd::AskChild(o, name)),
                }
            },
        },
    }
}

/// The walk along `p` from its component `i` on, having come through `ids`.
pub open spec fn walk(v: TablesView, base: BaseStoreView, p: Path, i: int, ids: Seq<u64>) -> WalkEnd
    decreases p.len() - i,
{
    if i >= p.len() || i < 0 {
        WalkEnd::Absent
    } else {
        match step(v, base, ids.last(), p[i]) {
            Step::End(e) => e,
            Step::Target(t) => match t {
                DentryTarget::Tombstone => WalkEnd::Absent,
                DentryTarget::ObjId(o) => WalkEnd::Terminal {
                    depth: i + 1,
                    ids,
                    value: PathResolveTerminalValue::ObjId(o),
                },
                DentryTarget::SymLink(s) => WalkEnd::Terminal {
                    depth: i + 1,
                    ids,
                    value: PathResolveTerminalValue::SymLink(s),
                },
                DentryTarget::IndexNodeId(id) => if i == p.len() - 1 {
                    match v.read(id) {
                        Err(e) => WalkEnd::Refused(at_stage(Stage::Inode, e)),
                        Ok(None) => WalkEnd::Absent,
                        Ok(Some(inode)) => WalkEnd::Inode { ids: ids.push(id), inode },
                    }
                } else {
                    walk(v, base, p, i + 1, ids.push(id))
                },
            },
        }
    }
}

/// How one pass over a path ends: with an answer, or with another path to try.
pub enum PassEnd {
    Done(Answer),
    Again(Path),
}

/// The answer that an inode gives, got at a stage of the resolution.
pub open spec fn inode_answer(v: TablesView, stage: Stage, id: u64) -> Answer {
    match v.read(id) {
        Err(e) => Answer::Refused(at_stage(stage, e)),
        Ok(None) => Answer::Absent,
        Ok(Some(inode)) => Answer::Found(
            RespView { item: FsMetaResolvePathItem::Inode { inode_id: id, inode }, inner: None },
        ),
    }
}

/// What an object or link after `depth` components of `p` makes of the pass.
pub open spec fn at_terminal(
    p: Path,
    depth: int,
    value: PathResolveTerminalValue,
    sym_count: nat,
) -> PassEnd {
    let tail = p.skip(depth);
    match value {
        PathResolveTerminalValue::ObjId(o) => PassEnd::Done(
            Answer::Found(
                RespView { item: FsMetaResolvePathItem::ObjId(o), inner: inner_of(tail) },
            ),
        ),
        PathResolveTerminalValue::SymLink(t) => if sym_count == 0 {
            PassEnd::Done(
                Answer::Found(
                    RespView { item: FsMetaResolvePathItem::SymLink(t), inner: inner_of(tail) },
                ),
            )
        } else {
            PassEnd::Again(expanded(p.take(depth - 1), t@, tail))
        },
    }
}

pub open spec fn at_walk_end(p: Path, w: WalkEnd, sym_count: nat) -> PassEnd {
    match w {
        WalkEnd::Absent => PassEnd::Done(Answer::Absent),
        WalkEnd::Refused(e) => PassEnd::Done(Answer::Refused(e)),
        WalkEnd::AskChild(o, name) => PassEnd::Done(Answer::AskChild(o, name)),
        WalkEnd::Inode { ids, inode } => PassEnd::Done(
            Answer::Found(
                RespView {
                    item: FsMetaResolvePathItem::Inode { inode_id: ids.last(), inode },
                    inner: None,
                },
            ),
        ),
        WalkEnd::Terminal { depth, ids, value } => at_terminal(p, depth, value, sym_count),
    }
}

/// What the end of a walk leaves in the cache.
pub open spec fn cached_walk(c: CacheView, d: CacheView, p: Path, w: WalkEnd) -> bool {
    if c.next_entry_id == u64::MAX {
        d == c
    } else {
        match w {
            WalkEnd::Inode { ids, inode } => exists|mid: CacheView| #[trigger]
                made_room(c, mid, p) && d == with_ids(mid, p, ids),
            WalkEnd::Terminal { depth, ids, value } => exists|mid: CacheView| #[trigger]
                made_room(c, mid, p.take(depth)) && with_terminal(
                    mid,
                    d,
                    p.take(depth),
                    ids,
                    value,
                ),
            _ => d == c,
        }
    }
}

/// The walk may start behind `ids`, the ids known along the longest prefix.
pub open spec fn is_start(c: CacheView, root: u64, p: Path, ids: Seq<u64>) -> bool {
    if exists|k: int| c.prefix_known(p, k) {
        &&& ids.len() >= 1
        &&& c.prefix_known(p, ids.len() - 1)
        &&& ids == known_ids(c.nodes[p.take(ids.len() - 1)])->0.take(ids.len() as int)
        &&& forall|k: int| ids.len() <= k ==> !c.prefix_known(p, k)
    } else {
        ids == seq![root]
    }
}

/// One pass over a path, with the cache before and after.
#[verifier::opaque]
pub open spec fn pass(
    v: TablesView,
    base: BaseStoreView,
    c: CacheView,
    p: Path,
    sym_count: nat,
    d: CacheView,
    end: PassEnd,
) -> bool {
    if p.len() == 0 {
        d == c && end == PassEnd::Done(inode_answer(v, Stage::RootInode, v.root))
    } else if exists|k: int| c.is_terminal_depth(p, k) {
        exists|k: int| #[trigger]
            c.is_terminal_depth(p, k) && d == c.refreshed(p.take(k)) && end == at_terminal(
                p,
                k,
                terminal_of(c.nodes[p.take(k)])->0,
                sym_count,
            )
    } else {
        exists|ids: Seq<u64>| #[trigger]
            is_start(c, v.root, p, ids) && if ids.len() == p.len() + 1 {
                d == c && end == PassEnd::Done(inode_answer(v, Stage::Inode, ids.last()))
            } else {
                let w = walk(v, base, p, ids.len() - 1, ids);
                cached_walk(c, d, p, w) && end == at_walk_end(p, w, sym_count)
            }
    }
}

proof fn lemma_pass_root(v: TablesView, base: BaseStoreView, c: CacheView, p: Path, n: nat)
    requires
        p.len() == 0,
    ensures
        pass(v, base, c, p, n, c, PassEnd::Done(inode_answer(v, Stage::RootInode, v.root))),
{
    reveal(pass);
}

proof fn lemma_pass_terminal(
    v: TablesView,
    base: BaseStoreView,
    c: CacheView,
    p: Path,
    n: nat,
    k: int,
)
    requires
        p.len() > 0,
        c.is_terminal_depth(p, k),
    ensures
        pass(
            v,
            base,
            c,
            p,
            n,
            c.refreshed(p.take(k)),
            at_terminal(p, k, terminal_of(c.nodes[p.take(k)])->0, n),
        ),
{
    reveal(pass);
}

proof fn lemma_pass_known(
    v: TablesView,
    base: BaseStoreView,
    c: CacheView,
    p: Path,
    n: nat,
    ids: Seq<u64>,
)
    requires
        p.len() > 0,
        forall|k: int| !c.is_terminal_depth(p, k),
        is_start(c, v.root, p, ids),
        ids.len() == p.len() + 1,
    ensures
        pass(v, base, c, p, n, c, PassEnd::Done(inode_answer(v, Stage::Inode, ids.last()))),
{
    reveal(pass);
}

proof fn lemma_pass_walk(
    v: TablesView,
    base: BaseStoreView,
    c: CacheView,
    p: Path,
    n: nat,
    ids: Seq<u64>,
    d: CacheView,
)
    requires
        p.len() > 0,
        forall|k: int| !c.is_terminal_depth(p, k),
        is_start(c, v.root, p, ids),
        ids.len() != p.len() + 1,
        cached_walk(c, d, p, walk(v, base, p, ids.len() - 1, ids)),
    ensures
        pass(v, base, c, p, n, d, at_walk_end(p, walk(v, base, p, ids.len() - 1, ids), n)),
{
    reveal(pass);
}

/// A pass keeps the cache in order.
pub proof fn lemma_pass_inv(
    v: TablesView,
    base: BaseStoreView,
    c: CacheView,
    p: Path,
    n: nat,
    d: CacheView,
    end: PassEnd,
)
    requires
        c.inv(),
        pass(v, base, c, p, n, d, end),
    ensures
        d.inv(),
{
    reveal(pass);
    if p.len() == 0 {
    } else if exists|k: int| c.is_terminal_depth(p, k) {
        let k = choose|k: int| #[trigger]
            c.is_terminal_depth(p, k) && d == c.refreshed(p.take(k)) && end == at_terminal(
                p,
                k,
                terminal_of(c.nodes[p.take(k)])->0,
                n,
            );
        crate::path_cache::lemma_refreshed_inv(c, p.take(k));
    } else {
        let ids = choose|ids: Seq<u64>| #[trigger]
            is_start(c, v.root, p, ids) && if ids.len() == p.len() + 1 {
                d == c && end == PassEnd::Done(inode_answer(v, Stage::Inode, ids.last()))
            } else {
                let w = walk(v, base, p, ids.len() - 1, ids);
                cached_walk(c, d, p, w) && end == at_walk_end(p, w, n)
            };
        if ids.len() != p.len() + 1 && c.next_entry_id < u64::MAX {
            let w = walk(v, base, p, ids.len() - 1, ids);
            match w {
                WalkEnd::Inode { ids: found, inode } => {
                    let mid = choose|mid: CacheView| #[trigger]
                        made_room(c, mid, p) && d == with_ids(mid, p, found);
                    crate::path_cache::lemma_room_inv(c, mid, p);
                    lemma_walk_inode_len(v, base, p, ids.len() - 1, ids);
                    crate::path_cache::lemma_with_ids_inv(mid, p, found);
                },
                WalkEnd::Terminal { depth, ids: found, value } => {
                    let q = p.take(depth);
                    let mid = choose|mid: CacheView| #[trigger]
                        made_room(c, mid, q) && with_terminal(mid, d, q, found, value);
                    crate::path_cache::lemma_room_inv(c, mid, q);
                    crate::path_cache::lemma_with_terminal_inv(mid, d, q, found, value);
                },
                _ => {},
            }
        }
    }
}

proof fn lemma_walk_inode_len(
    v: TablesView,
    base: BaseStoreView,
    p: Path,
    i: int,
    ids: Seq<u64>,
)
    requires
        ids.len() == i + 1,
        walk(v, base, p, i, ids) is Inode,
    ensures
        walk(v, base, p, i, ids)->Inode_ids.len() == p.len() + 1,
    decreases p.len() - i,
{
    match step(v, base, ids.last(), p[i]) {
        Step::End(_) => {},
        Step::Target(t) => match t {
            DentryTarget::IndexNodeId(id) => {
                if i < p.len() - 1 {
                    lemma_walk_inode_len(v, base, p, i + 1, ids.push(id));
                }
            },
            _ => {},
        },
    }
}

/// Resolution: pass after pass, as long as links are met and may be followed.
pub open spec fn resolves(
    v: TablesView,
    base: BaseStoreView,
    c: CacheView,
    p: Path,
    sym_count: nat,
    d: CacheView,
    answer: Answer,
) -> bool
    decreases sym_count,
{
    exists|mid: CacheView, end: PassEnd| #[trigger]
        pass(v, base, c, p, sym_count, mid, end) && match end {
            PassEnd::Done(a) => d == mid && a == answer,
            PassEnd::Again(q) => sym_count > 0 && resolves(
                v,
                base,
                mid,
                q,
                (sym_count - 1) as nat,
                d,
                answer,
            ),
        }
}

/// A resolution keeps the cache in order.
pub proof fn lemma_resolves_inv(
    v: TablesView,
    base: BaseStoreView,
    c: CacheView,
    p: Path,
    n: nat,
    d: CacheView,
    answer: Answer,
)
    requires
        c.inv(),
        resolves(v, base, c, p, n, d, answer),
    ensures
        d.inv(),
    decreases n,
{
    let (mid, end) = choose|mid: CacheView, end: PassEnd| #[trigger]
        pass(v, base, c, p, n, mid, end) && match end {
            PassEnd::Done(a) => d == mid && a == answer,
            PassEnd::Again(q) => n > 0 && resolves(v, base, mid, q, (n - 1) as nat, d, answer),
        };
    lemma_pass_inv(v, base, c, p, n, mid, end);
    if let PassEnd::Again(q) = end {
        lemma_resolves_inv(v, base, mid, q, (n - 1) as nat, d, answer);
    }
}

/// The answer in the form in which callers get it.
pub open spec fn answer_is(r: Result<Option<FsMetaResolvePathResp>, Stop>, a: Answer) -> bool {
    match a {
        Answer::Absent => r == Ok::<Option<FsMetaResolvePathResp>, Stop>(None),
        Answer::Refused(e) => r == Err::<Option<FsMetaResolvePathResp>, Stop>(Stop::Refused(e)),
        Answer::AskChild(o, name) => match r {
            Err(Stop::Ask(Question::BaseChild { dir, name: n })) => dir == o && n@ == name,
            _ => false,
        },
        Answer::Found(resp) => match r {
            Ok(Some(x)) => x.item == resp.item && match (x.inner_path, resp.inner) {
                (None, None) => true,
                (Some(s), Some(t)) => s@ == t,
                _ => false,
            },
            _ => false,
        },
    }
}

enum PassResult {
    Done(Result<Option<FsMetaResolvePathResp>, Stop>),
    Again(Vec<String>),
}

spec fn pass_is(r: PassResult, end: PassEnd) -> bool {
    match (r, end) {
        (PassResult::Done(x), PassEnd::Done(a)) => answer_is(x, a),
        (PassResult::Again(q), PassEnd::Again(path)) => view_all(q@) == path,
        _ => false,
    }
}

enum WalkResult {
    Absent,
    Stopped(Stop),
    Inode { ids: Vec<u64>, inode: NodeRecord },
    Terminal { depth: usize, ids: Vec<u64>, value: PathResolveTerminalValue },
}

spec fn walk_is(r: WalkResult, w: WalkEnd) -> bool {
    match (r, w) {
        (WalkResult::Absent, WalkEnd::Absent) => true,
        (WalkResult::Stopped(Stop::Refused(e)), WalkEnd::Refused(f)) => e == f,
        (
            WalkResult::Stopped(Stop::Ask(Question::BaseChild { dir, name })),
            WalkEnd::AskChild(o, n),
        ) => dir == o && name@ == n,
        (WalkResult::Inode { ids, inode }, WalkEnd::Inode { ids: i2, inode: n2 }) => ids@ == i2
            && inode == n2,
        (
            WalkResult::Terminal { depth, ids, value },
            WalkEnd::Terminal { depth: d2, ids: i2, value: v2 },
        ) => depth == d2 && ids@ == i2 && value == v2,
        _ => false,
    }
}

proof fn lemma_look_of_child(base: BaseStoreView, node: NodeRecord, name: String)
    ensures
        match base_child(base, node, name) {
            Ok(BaseChildLookup::Missing) => base_look(base, node, name@) == Look::Missing,
            Ok(BaseChildLookup::DirObj(o)) => base_look(base, node, name@) == Look::Child(o),
            Ok(BaseChildLookup::NonDirObj(o)) => base_look(base, node, name@) == Look::Child(o),
            Err(Stop::Refused(e)) => base_look(base, node, name@) == Look::Refused(e),
            Err(Stop::Ask(Question::BaseChild { dir, name: n })) => base_look(base, node, name@)
                == Look::Unknown(dir) && n == name,
            _ => false,
        },
{
}

impl MetaTables {
    fn walk_from(
        &self,
        base: &BaseStore,
        comps: &Vec<String>,
        start: usize,
        ids: Vec<u64>,
    ) -> (r: WalkResult)
        requires
            self.wf(),
            base.wf(),
            start < comps@.len(),
            ids@.len() == start + 1,
        ensures
            walk_is(r, walk(self@, base@, view_all(comps@), start as int, ids@)),
            match r {
                WalkResult::Inode { ids: i2, inode } => i2@.len() == comps@.len() + 1,
                WalkResult::Terminal { depth, ids: i2, value } => start < depth <= comps@.len()
                    && i2@.len() == depth,
                _ => true,
            },
    {
        let ghost p = view_all(comps@);
        let ghost first = ids@;
        let mut ids: Vec<u64> = ids;
        let mut i: usize = start;
        #[verifier::loop_isolation(false)]
        while i < comps.len()
            invariant
                start <= i <= comps@.len(),
                start < comps@.len(),
                self.wf(),
                base.wf(),
                p == view_all(comps@),
                ids@.len() == i + 1,
                i < comps@.len(),
                walk(self@, base@, p, start as int, first) == walk(
                    self@,
                    base@,
                    p,
                    i as int,
                    ids@,
                ),
            decreases comps@.len() - i,
        {
            let dir: u64 = ids[ids.len() - 1];
            assert(ids@.last() == dir);
            let name: &String = &comps[i];
            assert(p[i as int] == name@);
            let target: DentryTarget = match self.get_dentry(dir, name.as_str()) {
                Some(d) => d.target,
                None => {
                    let node: NodeRecord = match self.get_inode(dir) {
                        Ok(Some(node)) => node,
                        Err(e) => {
                            return WalkResult::Stopped(
                                Stop::Refused(
                                    MetaError::At { stage: Stage::Inode, cause: Box::new(e) },
                                ),
                            );
                        },
                        Ok(None) => {
                            return WalkResult::Stopped(
                                Stop::Refused(MetaError::ParentInodeNotFound),
                            );
                        },
                    };
                    if !matches!(node.get_node_kind(), NodeKind::Dir) {
                        return WalkResult::Absent;
                    }
                    proof {
                        lemma_look_of_child(base@, node, *name);
                    }
                    match base.lookup_base_dirobj_child(&node, name) {
                        Err(Stop::Refused(e)) => {
                            return WalkResult::Stopped(
                                Stop::Refused(
                                    MetaError::At { stage: Stage::BaseChild, cause: Box::new(e) },
                                ),
                            );
                        },
                        Err(Stop::Ask(q)) => {
                            return WalkResult::Stopped(Stop::Ask(q));
                        },
                        Ok(BaseChildLookup::Missing) => {
                            return WalkResult::Absent;
                        },
                        Ok(BaseChildLookup::DirObj(o)) => DentryTarget::ObjId(o),
                        Ok(BaseChildLookup::NonDirObj(o)) => DentryTarget::ObjId(o),
                    }
                },
            };
            match target {
                DentryTarget::Tombstone => {
                    return WalkResult::Absent;
                },
                DentryTarget::ObjId(o) => {
                    return WalkResult::Terminal {
                        depth: i + 1,
                        ids,
                        value: PathResolveTerminalValue::ObjId(o),
                    };
                },
                DentryTarget::SymLink(s) => {
                    return WalkResult::Terminal {
                        depth: i + 1,
                        ids,
                        value: PathResolveTerminalValue::SymLink(s),
                    };
                },
                DentryTarget::IndexNodeId(id) => {
                    if i == comps.len() - 1 {
                        return match self.get_inode(id) {
                            Err(e) => WalkResult::Stopped(
                                Stop::Refused(
                                    MetaError::At { stage: Stage::Inode, cause: Box::new(e) },
                                ),
                            ),
                            Ok(None) => WalkResult::Absent,
                            Ok(Some(inode)) => {
                                ids.push(id);
                                WalkResult::Inode { ids, inode }
                            },
                        };
                    }
                    ids.push(id);
                },
            }
            i = i + 1;
        }
        WalkResult::Absent
    }

    fn inode_response(&self, stage: Stage, id: u64) -> (r: Result<
        Option<FsMetaResolvePathResp>,
        Stop,
    >)
        requires
            self.wf(),
        ensures
            answer_is(r, inode_answer(self@, stage, id)),
    {
        match self.get_inode(id) {
            Err(e) => Err(Stop::Refused(MetaError::At { stage, cause: Box::new(e) })),
            Ok(None) => Ok(None),
            Ok(Some(inode)) => Ok(
                Some(
                    FsMetaResolvePathResp {
                        item: FsMetaResolvePathItem::Inode { inode_id: id, inode },
                        inner_path: None,
                    },
                ),
            ),
        }
    }

    fn resolve_pass(
        &self,
        base: &BaseStore,
        cache: &mut PathResolveCache,
        comps: &Vec<String>,
        sym_count: u32,
    ) -> (r: PassResult)
        requires
            self.wf(),
            base.wf(),
            old(cache).wf(),
        ensures
            final(cache).wf(),
            exists|end: PassEnd| #[trigger]
                pass(
                    self@,
                    base@,
                    old(cache)@,
                    view_all(comps@),
                    sym_count as nat,
                    final(cache)@,
                    end,
                ) && pass_is(r, end) && (end is Again ==> sym_count > 0),
    {
        let ghost p = view_all(comps@);
        let ghost c = cache@;
        let ghost n = sym_count as nat;
        if comps.len() == 0 {
            proof {
                lemma_pass_root(self@, base@, c, p, n);
            }
            return PassResult::Done(self.inode_response(Stage::RootInode, self.root));
        }
        let refs: Vec<&str> = as_refs(comps);
        assert(str_views(refs@) =~= p);
        match cache.get_terminal_for_path(refs.as_slice()) {
            Some(hit) => {
                proof {
                    lemma_pass_terminal(self@, base@, c, p, n, hit.matched_len as int);
                }
                return finish_terminal(comps, hit.matched_len, hit.value, sym_count);
            },
            None => {},
        }
        let ids: Vec<u64> = start_ids(cache, &refs, self.root);
        let ghost first = ids@;
        assert(is_start(c, self@.root, p, first));
        let start: usize = ids.len() - 1;
        if start == comps.len() {
            let last: u64 = ids[start];
            proof {
                lemma_pass_known(self@, base@, c, p, n, first);
            }
            return PassResult::Done(self.inode_response(Stage::Inode, last));
        }
        let found: WalkResult = self.walk_from(base, comps, start, ids);
        let ghost w = walk(self@, base@, p, first.len() - 1, first);
        remember_walk(cache, comps, &found, Ghost(w));
        proof {
            lemma_pass_walk(self@, base@, c, p, n, first, cache@);
        }
        match found {
            WalkResult::Absent => PassResult::Done(Ok(None)),
            WalkResult::Stopped(s) => PassResult::Done(Err(s)),
            WalkResult::Inode { ids, inode } => {
                let id: u64 = ids[ids.len() - 1];
                assert(ids@.last() == id);
                PassResult::Done(
                    Ok(
                        Some(
                            FsMetaResolvePathResp {
                                item: FsMetaResolvePathItem::Inode { inode_id: id, inode },
                                inner_path: None,
                            },
                        ),
                    ),
                )
            },
            WalkResult::Terminal { depth, ids, value } => finish_terminal(
                comps,
                depth,
                value,
                sym_count,
            ),
        }
    }

    /// Resolves the path made of `components`, following at most `sym_count`
    /// symbolic links.
    pub fn resolve_path_ex(
        &self,
        base: &BaseStore,
        cache: &mut PathResolveCache,
        components: Vec<String>,
        sym_count: u32,
    ) -> (r: Result<Option<FsMetaResolvePathResp>, Stop>)
        requires
            self.wf(),
            base.wf(),
            old(cache).wf(),
        ensures
            final(cache).wf(),
            exists|answer: Answer| #[trigger]
                resolves(
                    self@,
                    base@,
                    old(cache)@,
                    view_all(components@),
                    sym_count as nat,
                    final(cache)@,
                    answer,
                ) && answer_is(r, answer),
    {
        let ghost c0 = cache@;
        let ghost p0 = view_all(components@);
        let mut comps: Vec<String> = components;
        let mut left: u32 = sym_count;
        loop
            invariant
                self.wf(),
                base.wf(),
                cache.wf(),
                c0 == old(cache)@,
                p0 == view_all(components@),
                left <= sym_count,
                forall|d: CacheView, answer: Answer|
                    resolves(
                        self@,
                        base@,
                        cache@,
                        view_all(comps@),
                        left as nat,
                        d,
                        answer,
                    ) ==> #[trigger] resolves(
                        self@,
                        base@,
                        c0,
                        p0,
                        sym_count as nat,
                        d,
                        answer,
                    ),
            decreases left,
        {
            let ghost c = cache@;
            let ghost p = view_all(comps@);
            let ghost n = left as nat;
            match self.resolve_pass(base, cache, &comps, left) {
                PassResult::Done(r) => {
                    proof {
                        let end = choose|end: PassEnd| #[trigger]
                            pass(self@, base@, c, p, n, cache@, end) && pass_is(
                                PassResult::Done(r),
                                end,
                            ) && (end is Again ==> left > 0);
                        let a = end->Done_0;
                        assert(resolves(self@, base@, c, p, n, cache@, a));
                        assert(resolves(self@, base@, c0, p0, sym_count as nat, cache@, a));
                    }
                    return r;
                },
                PassResult::Again(next) => {
                    proof {
                        let mid = cache@;
                        let end = choose|end: PassEnd| #[trigger]
                            pass(self@, base@, c, p, n, mid, end) && pass_is(
                                PassResult::Again(next),
                                end,
                            ) && (end is Again ==> left > 0);
                        assert forall|d: CacheView, answer: Answer|
                            resolves(
                                self@,
                                base@,
                                mid,
                                view_all(next@),
                                (n - 1) as nat,
                                d,
                                answer,
                            ) implies #[trigger] resolves(
                            self@,
                            base@,
                            c0,
                            p0,
                            sym_count as nat,
                            d,
                            answer,
                        ) by {
                            assert(resolves(self@, base@, c, p, n, d, answer));
                        }
                    }
                    comps = next;
                    left = left - 1;
                },
            }
        }
    }

    /// Where to read the file at `path`.
    pub fn open_file_reader(
        &self,
        base: &BaseStore,
        cache: &mut PathResolveCache,
        path: &NfsPath,
    ) -> (r: Result<OpenFileReaderResp, Stop>)
        requires
            self.wf(),
            base.wf(),
            old(cache).wf(),
        ensures
            final(cache).wf(),
            ({
                let p = path_parts(path.0@);
                if p.len() == 0 {
                    final(cache)@ == old(cache)@ && r == Err::<OpenFileReaderResp, Stop>(
                        Stop::Refused(MetaError::PathIsDir),
                    )
                } else {
                    exists|answer: Answer| #[trigger]
                        resolves(self@, base@, old(cache)@, p, 0, final(cache)@, answer)
                            && reader_is(r, answer)
                }
            }),
    {
        let comps: Vec<String> = path.components();
        assert(view_all(comps@).len() == comps@.len());
        if comps.len() == 0 {
            return Err(Stop::Refused(MetaError::PathIsDir));
        }
        match self.resolve_path_ex(base, cache, comps, 0) {
            Err(s) => Err(s),
            Ok(None) => Err(Stop::Refused(MetaError::PathNotFound)),
            Ok(Some(resp)) => match reader_for(resp) {
                Ok(x) => Ok(x),
                Err(e) => Err(Stop::Refused(e)),
            },
        }
    }
}

fn start_ids(cache: &PathResolveCache, refs: &Vec<&str>, root: u64) -> (r: Vec<u64>)
    requires
        cache.wf(),
    ensures
        is_start(cache@, root, str_views(refs@), r@),
        1 <= r@.len() <= refs@.len() + 1,
{
    match cache.get_longest_prefix_ids_for_path(refs.as_slice()) {
        Some(ids) => {
            assert(cache@.prefix_known(str_views(refs@), ids@.len() - 1));
            ids
        },
        None => {
            let mut ids: Vec<u64> = Vec::new();
            ids.push(root);
            assert(ids@ =~= seq![root]);
            ids
        },
    }
}

/// Puts what a walk has found into the cache.
fn remember_walk(
    cache: &mut PathResolveCache,
    comps: &Vec<String>,
    found: &WalkResult,
    Ghost(w): Ghost<WalkEnd>,
)
    requires
        old(cache).wf(),
        walk_is(*found, w),
        match *found {
            WalkResult::Inode { ids: i2, inode } => i2@.len() == comps@.len() + 1,
            WalkResult::Terminal { depth, ids: i2, value } => 0 < depth <= comps@.len()
                && i2@.len() == depth,
            _ => true,
        },
    ensures
        final(cache).wf(),
        cached_walk(old(cache)@, final(cache)@, view_all(comps@), w),
{
    let ghost c = cache@;
    let ghost p = view_all(comps@);
    match found {
        WalkResult::Inode { ids, inode } => {
            cache.put_ids_for_path(clone_texts(comps), copy_ids(ids));
            proof {
                if c.next_entry_id < u64::MAX {
                    let mid = choose|mid: CacheView| #[trigger]
                        made_room(c, mid, p) && cache@ == with_ids(mid, p, ids@);
                    assert(made_room(c, mid, p) && cache@ == with_ids(mid, p, ids@));
                }
            }
        },
        WalkResult::Terminal { depth, ids, value } => {
            let head: Vec<String> = first_texts(comps, *depth);
            assert(view_all(head@).len() == head@.len());
            cache.put_terminal_for_path(head, copy_ids(ids), value.dup());
            proof {
                if c.next_entry_id < u64::MAX {
                    let q = p.take(*depth as int);
                    let mid = choose|mid: CacheView| #[trigger]
                        made_room(c, mid, q) && with_terminal(mid, cache@, q, ids@, *value);
                    assert(made_room(c, mid, q) && with_terminal(mid, cache@, q, ids@, *value));
                }
            }
        },
        _ => {},
    }
}

fn copy_ids(v: &Vec<u64>) -> (r: Vec<u64>)
    ensures
        r@ == v@,
{
    let mut out: Vec<u64> = Vec::new();
    let mut i: usize = 0;
    while i < v.len()
        invariant
            0 <= i <= v@.len(),
            out@ =~= v@.take(i as int),
        decreases v@.len() - i,
    {
        out.push(v[i]);
        i = i + 1;
    }
    assert(out@ =~= v@);
    out
}

/// What a reader gets for a resolution.
pub open spec fn reader_is(r: Result<OpenFileReaderResp, Stop>, a: Answer) -> bool {
    exists|x: Result<Option<FsMetaResolvePathResp>, Stop>| #[trigger]
        answer_is(x, a) && match x {
            Err(s) => r == Err::<OpenFileReaderResp, Stop>(s),
            Ok(None) => r == Err::<OpenFileReaderResp, Stop>(
                Stop::Refused(MetaError::PathNotFound),
            ),
            Ok(Some(resp)) => match reader_source(resp) {
                Ok(y) => r == Ok::<OpenFileReaderResp, Stop>(y),
                Err(e) => r == Err::<OpenFileReaderResp, Stop>(Stop::Refused(e)),
            },
        }
}

fn as_refs(comps: &Vec<String>) -> (r: Vec<&str>)
    ensures
        r@.len() == comps@.len(),
        forall|i: int| 0 <= i < r@.len() ==> (#[trigger] r@[i])@ == comps@[i]@,
{
    let mut out: Vec<&str> = Vec::new();
    let mut i: usize = 0;
    while i < comps.len()
        invariant
            0 <= i <= comps@.len(),
            out@.len() == i,
            forall|j: int| 0 <= j < i ==> (#[trigger] out@[j])@ == comps@[j]@,
        decreases comps@.len() - i,
    {
        out.push(comps[i].as_str());
        i = i + 1;
    }
    out
}

pub(crate) fn first_texts(comps: &Vec<String>, n: usize) -> (r: Vec<String>)
    requires
        n <= comps@.len(),
    ensures
        view_all(r@) == view_all(comps@).take(n as int),
{
    let mut out: Vec<String> = Vec::new();
    let mut i: usize = 0;
    while i < n
        invariant
            0 <= i <= n <= comps@.len(),
            out@ =~= comps@.take(i as int),
        decreases n - i,
    {
        out.push(comps[i].clone());
        i = i + 1;
    }
    assert(view_all(out@) =~= view_all(comps@).take(n as int));
    out
}

fn later_texts(comps: &Vec<String>, n: usize) -> (r: Vec<String>)
    requires
        n <= comps@.len(),
    ensures
        view_all(r@) == view_all(comps@).skip(n as int),
{
    let mut out: Vec<String> = Vec::new();
    let mut i: usize = n;
    while i < comps.len()
        invariant
            n <= i <= comps@.len(),
            out@ =~= comps@.subrange(n as int, i as int),
        decreases comps@.len() - i,
    {
        out.push(comps[i].clone());
        i = i + 1;
    }
    assert(view_all(out@) =~= view_all(comps@).skip(n as int));
    out
}

fn finish_terminal(
    comps: &Vec<String>,
    depth: usize,
    value: PathResolveTerminalValue,
    sym_count: u32,
) -> (r: PassResult)
    requires
        1 <= depth <= comps@.len(),
    ensures
        pass_is(r, at_terminal(view_all(comps@), depth as int, value, sym_count as nat)),
        r is Again ==> sym_count > 0,
{
    let ghost p = view_all(comps@);
    assert(p.skip(depth as int).len() == comps@.len() - depth);
    match value {
        PathResolveTerminalValue::ObjId(o) => PassResult::Done(
            Ok(
                Some(
                    FsMetaResolvePathResp {
                        item: FsMetaResolvePathItem::ObjId(o),
                        inner_path: join_from(comps, depth),
                    },
                ),
            ),
        ),
        PathResolveTerminalValue::SymLink(t) => {
            if sym_count == 0 {
                PassResult::Done(
                    Ok(
                        Some(
                            FsMetaResolvePathResp {
                                item: FsMetaResolvePathItem::SymLink(t),
                                inner_path: join_from(comps, depth),
                            },
                        ),
                    ),
                )
            } else {
                let prefix: Vec<String> = first_texts(comps, depth - 1);
                let tail: Vec<String> = later_texts(comps, depth);
                PassResult::Again(normalize_symlink_target_path(&prefix, t.as_str(), &tail))
            }
        },
    }
}

} // verus!
