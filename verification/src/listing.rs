//! What a directory shows: its own entries, laid over the children of its base.

use vstd::prelude::*;
use crate::errors::MetaError;
use crate::names::{lemma_in_order_distinct, NameMap};
use crate::ops::{delete_after, enter_after};
use crate::outside::{base_kids, BaseStore, BaseStoreView, Stop};
use crate::records::{
    kind_of, DentryRecord, DentryTarget, FsMetaListEntry, NodeKind, NodeRecord, ObjId,
};
use crate::table::{lemma_map_has_row, lemma_row_in_map, row_index, Dup};
use crate::tables::{MetaTables, TablesView};
use crate::text::{lemma_text_lt_irreflexive, lemma_text_lt_trans, text_lt};

verus! {

/// Names that come strictly one after another.
pub open spec fn names_in_order(r: Seq<DentryRecord>) -> bool {
    forall|i: int, j: int|
        0 <= i < j < r.len() ==> text_lt((#[trigger] r[i]).name@, (#[trigger] r[j]).name@)
}

pub open spec fn has_name(r: Seq<DentryRecord>, name: Seq<char>) -> bool {
    exists|i: int| 0 <= i < r.len() && (#[trigger] r[i]).name@ == name
}

/// `r` holds every entry of `dir` once, in the order of their names.
pub open spec fn is_entries(v: TablesView, dir: u64, r: Seq<DentryRecord>) -> bool {
    &&& names_in_order(r)
    &&& forall|i: int|
        0 <= i < r.len() ==> v.dentry(dir, (#[trigger] r[i]).name@) == Some(r[i])
    &&& forall|name: Seq<char>| #[trigger] v.dentry(dir, name) is Some ==> has_name(r, name)
}

/// What `dir` shows under `name`: its own entry unless that is a tombstone, or
/// else the child of its base.
pub open spec fn shows(
    v: TablesView,
    kids: Map<Seq<char>, ObjId>,
    dir: u64,
    name: Seq<char>,
) -> Option<DentryTarget> {
    match v.dentry(dir, name) {
        Some(d) => if d.target is Tombstone {
            None
        } else {
            Some(d.target)
        },
        None => if kids.contains_key(name) {
            Some(DentryTarget::ObjId(kids[name]))
        } else {
            None
        },
    }
}

/// The record of a shown name; one from the base has neither id nor time.
pub open spec fn shown_record(v: TablesView, dir: u64, r: DentryRecord) -> bool {
    match v.dentry(dir, r.name@) {
        Some(d) => r == d,
        None => r.id == 0 && r.parent == dir && r.mtime is None,
    }
}

/// `r` holds a record for every name that `dir` shows, in the order of the names.
pub open spec fn is_merged(
    v: TablesView,
    kids: Map<Seq<char>, ObjId>,
    dir: u64,
    r: Seq<DentryRecord>,
) -> bool {
    &&& names_in_order(r)
    &&& forall|i: int|
        0 <= i < r.len() ==> shows(v, kids, dir, (#[trigger] r[i]).name@) == Some(r[i].target)
            && shown_record(v, dir, r[i])
    &&& forall|name: Seq<char>| #[trigger] shows(v, kids, dir, name) is Some ==> has_name(r, name)
}

/// The children in the base of directory `dir`, or why it cannot be listed.
pub open spec fn listable(v: TablesView, base: BaseStoreView, dir: u64) -> Result<
    Map<Seq<char>, ObjId>,
    Stop,
> {
    match v.read(dir) {
        Err(e) => Err(Stop::Refused(e)),
        Ok(None) => Err(Stop::Refused(MetaError::ParentInodeNotFound)),
        Ok(Some(node)) => if kind_of(node.state) != NodeKind::Dir {
            Err(Stop::Refused(MetaError::ParentNotDir))
        } else {
            base_kids(base, node)
        },
    }
}

/// The entry that a list session shows for a name, with the inode it leads to.
pub open spec fn list_entry_is(v: TablesView, name: Seq<char>, target: DentryTarget, e: FsMetaListEntry) -> bool {
    &&& e.name@ == name
    &&& e.target == target
    &&& e.inode == match target {
        DentryTarget::IndexNodeId(id) => v.inode(id),
        _ => None,
    }
}

/// Reading what `dir` shows under `name` fails with `e`.
pub open spec fn unreadable_with(
    v: TablesView,
    kids: Map<Seq<char>, ObjId>,
    dir: u64,
    name: Seq<char>,
    e: MetaError,
) -> bool {
    shows(v, kids, dir, name) matches Some(DentryTarget::IndexNodeId(id)) && v.read(id) == Err::<
        Option<NodeRecord>,
        MetaError,
    >(e)
}

/// Among what `dir` shows is an inode that cannot be read.
pub open spec fn has_unreadable(v: TablesView, kids: Map<Seq<char>, ObjId>, dir: u64) -> bool {
    exists|name: Seq<char>, e: MetaError| #[trigger] unreadable_with(v, kids, dir, name, e)
}

/// `e` is what reading the first such inode, in the order of the names, fails with.
pub open spec fn first_unreadable(
    v: TablesView,
    kids: Map<Seq<char>, ObjId>,
    dir: u64,
    e: MetaError,
) -> bool {
    exists|name: Seq<char>| #[trigger]
        unreadable_with(v, kids, dir, name, e) && forall|before: Seq<char>, f: MetaError|
            text_lt(before, name) ==> !#[trigger] unreadable_with(v, kids, dir, before, f)
}

/// `m` has an entry for every name that `dir` shows and for no other.
pub open spec fn is_list(
    v: TablesView,
    kids: Map<Seq<char>, ObjId>,
    dir: u64,
    m: Map<Seq<char>, FsMetaListEntry>,
) -> bool {
    forall|name: Seq<char>| #[trigger]
        m.contains_key(name) == (shows(v, kids, dir, name) is Some) && (m.contains_key(name)
            ==> list_entry_is(v, name, shows(v, kids, dir, name)->0, m[name]))
}

/// The values of an ordered map, row by row.
fn into_records(m: NameMap<DentryRecord>) -> (r: Vec<DentryRecord>)
    requires
        m.wf(),
        forall|name: Seq<char>| #[trigger] m@.contains_key(name) ==> m@[name].name@ == name,
    ensures
        names_in_order(r@),
        forall|i: int|
            0 <= i < r@.len() ==> m@.contains_key((#[trigger] r@[i]).name@) && m@[r@[i].name@]
                == r@[i],
        forall|name: Seq<char>| #[trigger] m@.contains_key(name) ==> has_name(r@, name),
{
    let mut out: Vec<DentryRecord> = Vec::new();
    let mut i: usize = 0;
    while i < m.rows.len()
        invariant
            0 <= i <= m.rows@.len(),
            out@.len() == i,
            forall|k: int| 0 <= k < i ==> #[trigger] out@[k] == m.rows@[k].1,
        decreases m.rows@.len() - i,
    {
        out.push(m.rows[i].1.dup());
        i = i + 1;
    }
    proof {
        lemma_in_order_distinct(m.rows@);
        assert forall|k: int| 0 <= k < out@.len() implies m@.contains_key(
            (#[trigger] out@[k]).name@,
        ) && m@[out@[k].name@] == out@[k] && out@[k].name@ == m.rows@[k].0@ by {
            lemma_row_in_map(m.rows@, k);
            assert(m@.contains_key(m.rows@[k].0@));
        }
        assert forall|a: int, b: int| 0 <= a < b < out@.len() implies text_lt(
            (#[trigger] out@[a]).name@,
            (#[trigger] out@[b]).name@,
        ) by {
            assert(text_lt(m.rows@[a].0@, m.rows@[b].0@));
        }
        assert forall|name: Seq<char>| #[trigger] m@.contains_key(name) implies has_name(
            out@,
            name,
        ) by {
            lemma_map_has_row(m.rows@, name);
            let k = row_index(m.rows@, name);
            assert(out@[k].name@ == name);
        }
    }
    out
}

impl MetaTables {
    /// The entries of a directory, tombstones among them, in the order of their names.
    pub fn list_dentries(&self, parent: u64) -> (r: Vec<DentryRecord>)
        requires
            self.wf(),
        ensures
            is_entries(self@, parent, r@),
    {
        let mut found: NameMap<DentryRecord> = NameMap::new();
        let mut i: usize = 0;
        while i < self.dentries.rows.len()
            invariant
                self.wf(),
                0 <= i <= self.dentries.rows@.len(),
                found.wf(),
                forall|name: Seq<char>| #[trigger]
                    found@.contains_key(name) ==> self@.dentry(parent, name) == Some(found@[name]),
                forall|k: int|
                    0 <= k < i && (#[trigger] self.dentries.rows@[k]).0.parent == parent
                        ==> found@.contains_key(self.dentries.rows@[k].0.name@),
            decreases self.dentries.rows@.len() - i,
        {
            proof {
                lemma_row_in_map(self.dentries.rows@, i as int);
            }
            if self.dentries.rows[i].0.parent == parent {
                found.insert(
                    self.dentries.rows[i].0.name.clone(),
                    self.dentries.rows[i].1.dup(),
                );
            }
            i = i + 1;
        }
        proof {
            assert forall|name: Seq<char>| #[trigger]
                found@.contains_key(name) implies found@[name].name@ == name by {
                assert(self@.dentries.contains_key((parent, name)));
            }
            assert forall|name: Seq<char>| #[trigger]
                self@.dentry(parent, name) is Some implies found@.contains_key(name) by {
                lemma_map_has_row(self.dentries.rows@, (parent, name));
                let k = row_index(self.dentries.rows@, (parent, name));
                assert(self.dentries.rows@[k].0.parent == parent);
            }
        }
        let out = into_records(found);
        proof {
            assert forall|name: Seq<char>| #[trigger]
                self@.dentry(parent, name) is Some implies has_name(out@, name) by {
                assert(found@.contains_key(name));
            }
        }
        out
    }

    /// What a directory shows, its base included, in the order of the names.
    pub fn list_merged_dentries(&self, base: &BaseStore, parent: u64) -> (r: Result<
        Vec<DentryRecord>,
        Stop,
    >)
        requires
            self.wf(),
            base.wf(),
        ensures
            match r {
                Ok(out) => listable(self@, base@, parent) is Ok && is_merged(
                    self@,
                    listable(self@, base@, parent)->Ok_0,
                    parent,
                    out@,
                ),
                Err(s) => listable(self@, base@, parent) == Err::<Map<Seq<char>, ObjId>, Stop>(s),
            },
    {
        let node: NodeRecord = match self.get_inode(parent) {
            Err(e) => {
                return Err(Stop::Refused(e));
            },
            Ok(None) => {
                return Err(Stop::Refused(MetaError::ParentInodeNotFound));
            },
            Ok(Some(node)) => node,
        };
        if !matches!(node.get_node_kind(), NodeKind::Dir) {
            return Err(Stop::Refused(MetaError::ParentNotDir));
        }
        let kids: NameMap<ObjId> = match base.load_base_dir_children(&node) {
            Ok(kids) => kids,
            Err(s) => {
                return Err(s);
            },
        };
        let mut merged: NameMap<DentryRecord> = base_records(&kids, parent);
        let entries: Vec<DentryRecord> = self.list_dentries(parent);
        let mut i: usize = 0;
        while i < entries.len()
            invariant
                self.wf(),
                is_entries(self@, parent, entries@),
                0 <= i <= entries@.len(),
                merged.wf(),
                forall|name: Seq<char>| #[trigger]
                    merged@.contains_key(name) ==> merged@[name].name@ == name && if has_name(
                        entries@.take(i as int),
                        name,
                    ) {
                        self@.dentry(parent, name) == Some(merged@[name])
                            && !(merged@[name].target is Tombstone)
                    } else {
                        kids@.contains_key(name) && is_base_record(merged@[name], parent, kids@[name])
                    },
                forall|name: Seq<char>|
                    has_name(entries@.take(i as int), name) && !(self@.dentry(
                        parent,
                        name,
                    )->0.target is Tombstone) ==> #[trigger] merged@.contains_key(name),
                forall|name: Seq<char>| #[trigger]
                    kids@.contains_key(name) && !has_name(entries@.take(i as int), name)
                        ==> merged@.contains_key(name),
            decreases entries@.len() - i,
        {
            let d: DentryRecord = entries[i].dup();
            let ghost before = entries@.take(i as int);
            let ghost after = entries@.take(i + 1);
            proof {
                assert(self@.dentry(parent, d.name@) == Some(d));
                assert forall|name: Seq<char>| #[trigger] has_name(after, name) == (has_name(
                    before,
                    name,
                ) || name == d.name@) by {
                    if has_name(before, name) {
                        let k = choose|k: int|
                            0 <= k < before.len() && (#[trigger] before[k]).name@ == name;
                        assert(after[k].name@ == name);
                    }
                    if has_name(after, name) {
                        let k = choose|k: int|
                            0 <= k < after.len() && (#[trigger] after[k]).name@ == name;
                        if k < i {
                            assert(before[k].name@ == name);
                        }
                    }
                    assert(after[i as int].name@ == d.name@);
                }
            }
            match d.target {
                DentryTarget::Tombstone => {
                    merged.remove(d.name.as_str());
                },
                _ => {
                    merged.insert(d.name.clone(), entries[i].dup());
                },
            }
            i = i + 1;
        }
        proof {
            assert(entries@.take(i as int) =~= entries@);
            assert forall|name: Seq<char>| has_name(entries@, name) == (self@.dentry(
                parent,
                name,
            ) is Some) by {
                if has_name(entries@, name) {
                    let k = choose|k: int|
                        0 <= k < entries@.len() && (#[trigger] entries@[k]).name@ == name;
                    assert(self@.dentry(parent, entries@[k].name@) == Some(entries@[k]));
                }
            }
        }
        let ghost m = merged@;
        let out = into_records(merged);
        proof {
            assert forall|k: int| 0 <= k < out@.len() implies shows(
                self@,
                kids@,
                parent,
                (#[trigger] out@[k]).name@,
            ) == Some(out@[k].target) && shown_record(self@, parent, out@[k]) by {
                assert(m.contains_key(out@[k].name@));
            }
            assert forall|name: Seq<char>| #[trigger]
                shows(self@, kids@, parent, name) is Some implies has_name(out@, name) by {
                assert(has_name(entries@, name) == (self@.dentry(parent, name) is Some));
                assert(m.contains_key(name));
            }
        }
        Ok(out)
    }

    /// The entries for a list session on a directory.
    pub fn list_entries(&self, base: &BaseStore, parent: u64) -> (r: Result<
        NameMap<FsMetaListEntry>,
        Stop,
    >)
        requires
            self.wf(),
            base.wf(),
        ensures
            match r {
                Ok(m) => m.wf() && listable(self@, base@, parent) is Ok && is_list(
                    self@,
                    listable(self@, base@, parent)->Ok_0,
                    parent,
                    m@,
                ) && !has_unreadable(self@, listable(self@, base@, parent)->Ok_0, parent),
                Err(s) => match listable(self@, base@, parent) {
                    Err(t) => s == t,
                    Ok(kids) => has_unreadable(self@, kids, parent) && (s matches Stop::Refused(e)
                        && first_unreadable(self@, kids, parent, e)),
                },
            },
    {
        let dentries: Vec<DentryRecord> = match self.list_merged_dentries(base, parent) {
            Ok(d) => d,
            Err(s) => {
                return Err(s);
            },
        };
        let ghost kids = listable(self@, base@, parent)->Ok_0;
        let mut out: NameMap<FsMetaListEntry> = NameMap::new();
        let mut i: usize = 0;
        while i < dentries.len()
            invariant
                self.wf(),
                is_merged(self@, kids, parent, dentries@),
                0 <= i <= dentries@.len(),
                out.wf(),
                forall|name: Seq<char>| #[trigger]
                    out@.contains_key(name) ==> shows(self@, kids, parent, name) is Some
                        && list_entry_is(
                        self@,
                        name,
                        shows(self@, kids, parent, name)->0,
                        out@[name],
                    ),
                forall|k: int|
                    0 <= k < i ==> out@.contains_key((#[trigger] dentries@[k]).name@),
                forall|k: int, e: MetaError|
                    0 <= k < i ==> !#[trigger] unreadable_with(
                        self@,
                        kids,
                        parent,
                        dentries@[k].name@,
                        e,
                    ),
                listable(self@, base@, parent) == Ok::<Map<Seq<char>, ObjId>, Stop>(kids),
            decreases dentries@.len() - i,
        {
            let d: &DentryRecord = &dentries[i];
            assert(shows(self@, kids, parent, dentries@[i as int].name@) == Some(d.target));
            let inode: Option<NodeRecord> = match &d.target {
                DentryTarget::IndexNodeId(id) => match self.get_inode(*id) {
                    Ok(inode) => inode,
                    Err(e) => {
                        proof {
                            let name = dentries@[i as int].name@;
                            assert(unreadable_with(self@, kids, parent, name, e));
                            assert forall|before: Seq<char>, f: MetaError|
                                text_lt(before, name) implies !#[trigger] unreadable_with(
                                self@,
                                kids,
                                parent,
                                before,
                                f,
                            ) by {
                                if shows(self@, kids, parent, before) is Some {
                                    let k = lemma_comes_before(dentries@, before, i as int);
                                    assert(!unreadable_with(
                                        self@,
                                        kids,
                                        parent,
                                        dentries@[k].name@,
                                        f,
                                    ));
                                }
                            }
                        }
                        return Err(Stop::Refused(e));
                    },
                },
                _ => None,
            };
            let e = FsMetaListEntry { name: d.name.clone(), target: d.target.dup(), inode };
            out.insert(d.name.clone(), e);
            i = i + 1;
        }
        proof {
            assert forall|name: Seq<char>|
                shows(self@, kids, parent, name) is Some implies #[trigger] out@.contains_key(
                name,
            ) by {
                assert(has_name(dentries@, name));
                let k = choose|k: int|
                    0 <= k < dentries@.len() && (#[trigger] dentries@[k]).name@ == name;
                assert(out@.contains_key(dentries@[k].name@));
            }
            assert forall|name: Seq<char>, e: MetaError| !#[trigger] unreadable_with(
                self@,
                kids,
                parent,
                name,
                e,
            ) by {
                if shows(self@, kids, parent, name) is Some {
                    assert(has_name(dentries@, name));
                    let k = choose|k: int|
                        0 <= k < dentries@.len() && (#[trigger] dentries@[k]).name@ == name;
                    assert(!unreadable_with(self@, kids, parent, dentries@[k].name@, e));
                }
            }
        }
        Ok(out)
    }
}

/// In a list in order, what comes before the name at `i` stands before it.
proof fn lemma_comes_before(r: Seq<DentryRecord>, name: Seq<char>, i: int) -> (k: int)
    requires
        names_in_order(r),
        has_name(r, name),
        0 <= i < r.len(),
        text_lt(name, r[i].name@),
    ensures
        0 <= k < i,
        r[k].name@ == name,
{
    let k = choose|k: int| 0 <= k < r.len() && (#[trigger] r[k]).name@ == name;
    if k == i {
        lemma_text_lt_irreflexive(name);
    } else if i < k {
        assert(text_lt(r[i].name@, r[k].name@));
        lemma_text_lt_trans(name, r[i].name@, name);
        lemma_text_lt_irreflexive(name);
    }
    k
}

/// The record for a child of the base.
pub open spec fn is_base_record(r: DentryRecord, parent: u64, obj: ObjId) -> bool {
    r.id == 0 && r.parent == parent && r.target == DentryTarget::ObjId(obj) && r.mtime is None
}

fn base_records(kids: &NameMap<ObjId>, parent: u64) -> (r: NameMap<DentryRecord>)
    requires
        kids.wf(),
    ensures
        r.wf(),
        r@.dom() == kids@.dom(),
        forall|name: Seq<char>| #[trigger]
            r@.contains_key(name) ==> r@[name].name@ == name && is_base_record(
                r@[name],
                parent,
                kids@[name],
            ),
{
    let mut out: NameMap<DentryRecord> = NameMap::new();
    let mut i: usize = 0;
    proof {
        lemma_in_order_distinct(kids.rows@);
    }
    while i < kids.rows.len()
        invariant
            crate::table::distinct_keys(kids.rows@),
            0 <= i <= kids.rows@.len(),
            out.wf(),
            forall|name: Seq<char>| #[trigger]
                out@.contains_key(name) ==> out@[name].name@ == name && kids@.contains_key(name)
                    && is_base_record(out@[name], parent, kids@[name]),
            forall|k: int| 0 <= k < i ==> out@.contains_key((#[trigger] kids.rows@[k]).0@),
        decreases kids.rows@.len() - i,
    {
        proof {
            lemma_row_in_map(kids.rows@, i as int);
        }
        let name: String = kids.rows[i].0.clone();
        let d = DentryRecord {
            id: 0,
            parent,
            name: name.clone(),
            target: DentryTarget::ObjId(kids.rows[i].1.dup()),
            mtime: None,
        };
        out.insert(name, d);
        i = i + 1;
    }
    proof {
        assert forall|name: Seq<char>| kids@.contains_key(name) implies #[trigger] out@.contains_key(
            name,
        ) by {
            lemma_map_has_row(kids.rows@, name);
            let k = row_index(kids.rows@, name);
            assert(out@.contains_key(kids.rows@[k].0@));
        }
        assert(out@.dom() =~= kids@.dom());
    }
    out
}

/// A deleted name is no longer shown, wherever it came from; what else the
/// directory shows stays as it was.
pub proof fn law_deleted_name_is_hidden(
    v: TablesView,
    kids: Map<Seq<char>, ObjId>,
    dir: u64,
    name: String,
    now: u64,
    other: Seq<char>,
)
    requires
        v.inv(),
    ensures
        delete_after(v, dir, name, now) matches Ok(w) ==> shows(w, kids, dir, name@) is None && (
        other != name@ ==> shows(w, kids, dir, other) == shows(v, kids, dir, other)),
{
}

/// A name entered into a directory is shown there, in place of nothing else.
pub proof fn law_entered_name_is_shown(
    v: TablesView,
    base: BaseStoreView,
    kids: Map<Seq<char>, ObjId>,
    dir: u64,
    name: String,
    target: DentryTarget,
    now: u64,
    other: Seq<char>,
)
    requires
        v.inv(),
        !(target is Tombstone),
    ensures
        enter_after(v, base, dir, name, target, now) matches Ok(w) ==> shows(
            w,
            kids,
            dir,
            name@,
        ) == Some(target) && (other != name@ ==> shows(w, kids, dir, other) == shows(
            v,
            kids,
            dir,
            other,
        )),
{
}

} // verus!
