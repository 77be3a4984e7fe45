//! Questions that only the object store or the buffer service can answer, and
//! the answers collected so far.
//!
//! A request that meets an unanswered question stops with [`Stop::Ask`]; the
//! caller finds the answer, adds it and repeats the request.

use vstd::prelude::*;
use crate::errors::{LoadStep, MetaError};
use crate::records::{NodeRecord, ObjId, SessionId};
use crate::names::NameMap;
use crate::table::{Dup, Key, Table};
use crate::text::same_text;

verus! {

#[derive(Debug, Clone, PartialEq, Eq)]
pub enum Question {
    /// Which object has directory object `dir` under `name`?
    BaseChild { dir: ObjId, name: String },
    /// Which children has directory object `dir`?
    BaseChildren { dir: ObjId },
    /// Is there a buffer with this handle?
    GetBuffer { handle: String },
    /// A new buffer for the content of an inode.
    AllocBuffer {
        file_id: u64,
        path: String,
        session: SessionId,
        lease_seq: u64,
        expected_size: Option<u64>,
    },
    /// Close the buffer with this handle.
    CloseBuffer { handle: String },
}

/// Why a request has no result: refused, or not answerable from what is known.
#[derive(Debug, Clone, PartialEq, Eq)]
pub enum Stop {
    Refused(MetaError),
    Ask(Question),
}

/// What the object store said about a child of a directory object.
#[derive(Debug, Clone, PartialEq, Eq)]
pub enum BaseReply {
    Missing,
    Found(ObjId),
    Failed(String),
}

/// What the object store said about all children of a directory object.
#[derive(Debug, Clone, PartialEq, Eq)]
pub enum DirReply {
    Children(Vec<(String, ObjId)>),
    Failed(LoadStep, String),
}

#[derive(Debug, Clone, PartialEq, Eq)]
pub struct BaseKey {
    pub dir: ObjId,
    pub name: String,
}

impl Key for BaseKey {
    type Model = ((Seq<char>, Seq<char>), Seq<char>);

    open spec fn model(&self) -> ((Seq<char>, Seq<char>), Seq<char>) {
        (self.dir.model(), self.name@)
    }

    fn same_key(&self, other: &Self) -> (r: bool) {
        self.dir.same_key(&other.dir) && same_text(self.name.as_str(), other.name.as_str())
    }
}

/// What is known of directory objects.
pub struct BaseStore {
    pub configured: bool,
    pub children: Table<BaseKey, BaseReply>,
    pub listings: Table<ObjId, DirReply>,
}

#[verifier::ext_equal]
pub struct BaseStoreView {
    pub configured: bool,
    pub children: Map<((Seq<char>, Seq<char>), Seq<char>), BaseReply>,
    pub listings: Map<(Seq<char>, Seq<char>), DirReply>,
}

impl View for BaseStore {
    type V = BaseStoreView;

    open spec fn view(&self) -> BaseStoreView {
        BaseStoreView {
            configured: self.configured,
            children: self.children@,
            listings: self.listings@,
        }
    }
}

/// A name in the directory object under an overlay directory.
#[derive(Debug, Clone, PartialEq, Eq)]
pub enum BaseChildLookup {
    Missing,
    DirObj(ObjId),
    NonDirObj(ObjId),
}

/// What the base of `node` has under `name`.
pub open spec fn base_child(base: BaseStoreView, node: NodeRecord, name: String) -> Result<
    BaseChildLookup,
    Stop,
> {
    match node.base_obj_id {
        None => Ok(BaseChildLookup::Missing),
        Some(dir) => if !dir.is_dir() {
            Err(Stop::Refused(MetaError::InvalidBaseType { obj_type: dir.obj_type }))
        } else if !base.configured {
            Err(Stop::Refused(MetaError::NoStoreForBase))
        } else if !base.children.contains_key((dir.model(), name@)) {
            Err(Stop::Ask(Question::BaseChild { dir, name }))
        } else {
            match base.children[(dir.model(), name@)] {
                BaseReply::Missing => Ok(BaseChildLookup::Missing),
                BaseReply::Failed(cause) => Err(
                    Stop::Refused(MetaError::BaseLookupFailed { cause }),
                ),
                BaseReply::Found(child) => if child.is_dir() {
                    Ok(BaseChildLookup::DirObj(child))
                } else {
                    Ok(BaseChildLookup::NonDirObj(child))
                },
            }
        },
    }
}

/// The children in a list of names and objects; of a repeated name the last counts.
pub open spec fn kids_of(children: Seq<(String, ObjId)>) -> Map<Seq<char>, ObjId>
    decreases children.len(),
{
    if children.len() == 0 {
        Map::empty()
    } else {
        kids_of(children.drop_last()).insert(children.last().0@, children.last().1)
    }
}

/// All children in the base of `node`.
pub open spec fn base_kids(base: BaseStoreView, node: NodeRecord) -> Result<
    Map<Seq<char>, ObjId>,
    Stop,
> {
    match node.base_obj_id {
        None => Ok(Map::empty()),
        Some(dir) => if !dir.is_dir() {
            Err(Stop::Refused(MetaError::InvalidBaseType { obj_type: dir.obj_type }))
        } else if !base.configured {
            Err(Stop::Refused(MetaError::NoStoreForBase))
        } else if !base.listings.contains_key(dir.model()) {
            Err(Stop::Ask(Question::BaseChildren { dir }))
        } else {
            match base.listings[dir.model()] {
                DirReply::Failed(step, cause) => Err(
                    Stop::Refused(MetaError::BaseLoadFailed { step, cause }),
                ),
                DirReply::Children(children) => Ok(kids_of(children@)),
            }
        },
    }
}

impl BaseStore {
    pub open spec fn wf(&self) -> bool {
        self.children.wf() && self.listings.wf()
    }

    /// Nothing known yet.
    pub fn new(configured: bool) -> (r: Self)
        ensures
            r.wf(),
            r@ == (BaseStoreView { configured, children: Map::empty(), listings: Map::empty() }),
    {
        BaseStore { configured, children: Table::new(), listings: Table::new() }
    }

    /// Notes what the store said.
    pub fn learn(&mut self, dir: ObjId, name: String, reply: BaseReply)
        requires
            old(self).wf(),
        ensures
            final(self).wf(),
            final(self)@ == (BaseStoreView {
                children: old(self)@.children.insert((dir.model(), name@), reply),
                ..old(self)@
            }),
    {
        self.children.put(BaseKey { dir, name }, reply);
    }

    /// Notes the children of a directory object, as the store gave them.
    pub fn learn_children(&mut self, dir: ObjId, reply: DirReply)
        requires
            old(self).wf(),
        ensures
            final(self).wf(),
            final(self)@ == (BaseStoreView {
                listings: old(self)@.listings.insert(dir.model(), reply),
                ..old(self)@
            }),
    {
        self.listings.put(dir, reply);
    }

    /// All children in the base of an overlay directory.
    pub fn load_base_dir_children(&self, node: &NodeRecord) -> (r: Result<NameMap<ObjId>, Stop>)
        requires
            self.wf(),
        ensures
            match r {
                Ok(kids) => kids.wf() && base_kids(self@, *node) == Ok::<
                    Map<Seq<char>, ObjId>,
                    Stop,
                >(kids@),
                Err(s) => base_kids(self@, *node) == Err::<Map<Seq<char>, ObjId>, Stop>(s),
            },
    {
        match &node.base_obj_id {
            None => Ok(NameMap::new()),
            Some(dir) => {
                if !dir.is_dir_object() {
                    return Err(
                        Stop::Refused(
                            MetaError::InvalidBaseType { obj_type: dir.obj_type.clone() },
                        ),
                    );
                }
                if !self.configured {
                    return Err(Stop::Refused(MetaError::NoStoreForBase));
                }
                match self.listings.get(dir) {
                    None => Err(Stop::Ask(Question::BaseChildren { dir: dir.dup() })),
                    Some(DirReply::Failed(step, cause)) => Err(
                        Stop::Refused(
                            MetaError::BaseLoadFailed { step: *step, cause: cause.clone() },
                        ),
                    ),
                    Some(DirReply::Children(children)) => Ok(collect_kids(children)),
                }
            },
        }
    }

    /// Looks `name` up in the base of an overlay directory.
    pub fn lookup_base_dirobj_child(&self, node: &NodeRecord, name: &String) -> (r: Result<
        BaseChildLookup,
        Stop,
    >)
        requires
            self.wf(),
        ensures
            r == base_child(self@, *node, *name),
    {
        match &node.base_obj_id {
            None => Ok(BaseChildLookup::Missing),
            Some(dir) => {
                if !dir.is_dir_object() {
                    return Err(
                        Stop::Refused(
                            MetaError::InvalidBaseType { obj_type: dir.obj_type.clone() },
                        ),
                    );
                }
                if !self.configured {
                    return Err(Stop::Refused(MetaError::NoStoreForBase));
                }
                let key = BaseKey { dir: dir.dup(), name: name.clone() };
                match self.children.get(&key) {
                    None => Err(
                        Stop::Ask(Question::BaseChild { dir: dir.dup(), name: name.clone() }),
                    ),
                    Some(reply) => match reply {
                        BaseReply::Missing => Ok(BaseChildLookup::Missing),
                        BaseReply::Failed(cause) => Err(
                            Stop::Refused(MetaError::BaseLookupFailed { cause: cause.clone() }),
                        ),
                        BaseReply::Found(child) => if child.is_dir_object() {
                            Ok(BaseChildLookup::DirObj(child.dup()))
                        } else {
                            Ok(BaseChildLookup::NonDirObj(child.dup()))
                        },
                    },
                }
            },
        }
    }
}

fn collect_kids(children: &Vec<(String, ObjId)>) -> (r: NameMap<ObjId>)
    ensures
        r.wf(),
        r@ == kids_of(children@),
{
    let mut out: NameMap<ObjId> = NameMap::new();
    let mut i: usize = 0;
    assert(children@.take(0) =~= Seq::empty());
    while i < children.len()
        invariant
            0 <= i <= children@.len(),
            out.wf(),
            out@ == kids_of(children@.take(i as int)),
        decreases children@.len() - i,
    {
        proof {
            assert(children@.take(i + 1).drop_last() =~= children@.take(i as int));
        }
        out.insert(children[i].0.clone(), children[i].1.dup());
        i = i + 1;
    }
    assert(children@.take(i as int) =~= children@);
    out
}

} // verus!
