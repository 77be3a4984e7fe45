//! Extended attributes of mounted files.

use vstd::prelude::*;
use crate::errno::Errno;
use crate::table::{distinct_keys, lemma_map_has_row, lemma_row_in_map, Key, Table};

verus! {

/// An attribute: the number of its file, and its name.
#[derive(Debug, Clone, PartialEq, Eq)]
pub struct XattrKey {
    pub ino: u64,
    pub name: Vec<u8>,
}

fn same_bytes(a: &Vec<u8>, b: &Vec<u8>) -> (r: bool)
    ensures
        r == (a@ == b@),
{
    if a.len() != b.len() {
        return false;
    }
    let mut i: usize = 0;
    while i < a.len()
        invariant
            0 <= i <= a@.len(),
            a@.len() == b@.len(),
            forall|j: int| 0 <= j < i ==> a@[j] == b@[j],
        decreases a@.len() - i,
    {
        if a[i] != b[i] {
            return false;
        }
        i = i + 1;
    }
    assert(a@ =~= b@);
    true
}

fn copy_bytes(a: &Vec<u8>) -> (r: Vec<u8>)
    ensures
        r@ == a@,
{
    let mut out: Vec<u8> = Vec::new();
    let mut i: usize = 0;
    while i < a.len()
        invariant
            0 <= i <= a@.len(),
            out@ =~= a@.take(i as int),
        decreases a@.len() - i,
    {
        out.push(a[i]);
        i = i + 1;
    }
    assert(out@ =~= a@);
    out
}

impl Key for XattrKey {
    type Model = (u64, Seq<u8>);

    open spec fn model(&self) -> (u64, Seq<u8>) {
        (self.ino, self.name@)
    }

    fn same_key(&self, other: &Self) -> (r: bool) {
        self.ino == other.ino && same_bytes(&self.name, &other.name)
    }
}

/// The attributes of all files.
pub struct Xattrs {
    pub rows: Table<XattrKey, Vec<u8>>,
}

pub type XattrMap = Map<(u64, Seq<u8>), Seq<u8>>;

pub open spec fn value_map(m: Map<(u64, Seq<u8>), Vec<u8>>) -> XattrMap {
    m.map_values(|v: Vec<u8>| v@)
}

impl View for Xattrs {
    type V = XattrMap;

    open spec fn view(&self) -> XattrMap {
        value_map(self.rows@)
    }
}

/// `old` with `value` written over it from `pos` on, zeros where nothing was.
pub open spec fn written_at(old: Seq<u8>, pos: nat, value: Seq<u8>) -> Seq<u8> {
    let end = pos + value.len();
    let len = if old.len() > end {
        old.len()
    } else {
        end
    };
    Seq::new(
        len,
        |j: int|
            if pos <= j < end {
                value[j - pos]
            } else if j < old.len() {
                old[j]
            } else {
                0u8
            },
    )
}

/// How an attribute is to be set: only anew, or only in place of an older one.
#[derive(Debug, Clone, Copy, PartialEq, Eq, Structural)]
pub struct SetBits {
    pub create: bool,
    pub replace: bool,
}

impl SetBits {
    /// The flags in the word of a `setxattr`, where the system has the two bits.
    pub fn from_word(word: i32, create: i32, replace: i32) -> (r: Self)
        ensures
            r.create == (word & create != 0),
            r.replace == (word & replace != 0),
    {
        SetBits { create: word & create != 0, replace: word & replace != 0 }
    }
}

/// Why an attribute may not be set: it may not exist, or it has to.
pub open spec fn set_verdict(bits: SetBits, exists: bool) -> Option<Errno> {
    if bits.create && bits.replace {
        Some(Errno::Einval)
    } else if bits.create && exists {
        Some(Errno::Eexist)
    } else if bits.replace && !exists {
        Some(Errno::NoAttr)
    } else {
        None
    }
}

/// What an attribute holds once it is set.
pub open spec fn value_set(old: Option<Seq<u8>>, position: u32, value: Seq<u8>) -> Seq<u8> {
    if position == 0 {
        value
    } else {
        written_at(
            if old is Some {
                old->0
            } else {
                Seq::empty()
            },
            position as nat,
            value,
        )
    }
}

pub open spec fn at(m: XattrMap, ino: u64, name: Seq<u8>) -> Option<Seq<u8>> {
    if m.contains_key((ino, name)) {
        Some(m[(ino, name)])
    } else {
        None
    }
}

/// What is sent back: how much there is, or the bytes themselves.
#[derive(Debug, Clone, PartialEq, Eq)]
pub enum XattrReply {
    Size(u32),
    Data(Vec<u8>),
}

/// `r` answers a request for at most `size` bytes with `data`.
pub open spec fn answers(r: Result<XattrReply, Errno>, data: Seq<u8>, size: u32) -> bool {
    if size == 0 {
        r == Ok::<XattrReply, Errno>(XattrReply::Size(data.len() as u32))
    } else if size < data.len() as u32 {
        r == Err::<XattrReply, Errno>(Errno::Erange)
    } else {
        r matches Ok(XattrReply::Data(d)) && d@ == data
    }
}

fn answer(data: Vec<u8>, size: u32) -> (r: Result<XattrReply, Errno>)
    ensures
        answers(r, data@, size),
{
    let len: u32 = data.len() as u32;
    if size == 0 {
        return Ok(XattrReply::Size(len));
    }
    if size < len {
        return Err(Errno::Erange);
    }
    Ok(XattrReply::Data(data))
}

/// All names, each closed by a zero byte.
pub open spec fn joined_names(names: Seq<Seq<u8>>) -> Seq<u8>
    decreases names.len(),
{
    if names.len() == 0 {
        Seq::empty()
    } else {
        joined_names(names.drop_last()) + names.last().push(0)
    }
}

/// `names` are the attributes of `ino`, each once.
pub open spec fn names_of(m: XattrMap, ino: u64, names: Seq<Seq<u8>>) -> bool {
    &&& names.no_duplicates()
    &&& forall|n: Seq<u8>| #[trigger] names.contains(n) <==> m.contains_key((ino, n))
}

/// `r` answers a request for at most `size` bytes with the names of the
/// attributes of `ino`, in some order.
pub open spec fn lists(r: Result<XattrReply, Errno>, m: XattrMap, ino: u64, size: u32) -> bool {
    exists|names: Seq<Seq<u8>>| #[trigger]
        names_of(m, ino, names) && answers(r, joined_names(names), size)
}

/// The attributes of all files but those with these numbers.
pub open spec fn attrs_without(m: XattrMap, gone: Seq<u64>) -> XattrMap {
    m.restrict(Set::new(|k: (u64, Seq<u8>)| m.contains_key(k) && !gone.contains(k.0)))
}

impl Xattrs {
    pub open spec fn inv(&self) -> bool {
        self.rows.wf()
    }

    pub fn new() -> (r: Self)
        ensures
            r.inv(),
            r@ == Map::<(u64, Seq<u8>), Seq<u8>>::empty(),
    {
        let x: Xattrs = Xattrs { rows: Table::new() };
        assert(x@ =~= Map::<(u64, Seq<u8>), Seq<u8>>::empty());
        x
    }

    /// Sets an attribute, or part of it.
    pub fn setxattr(
        &mut self,
        ino: u64,
        name: Vec<u8>,
        value: &Vec<u8>,
        bits: SetBits,
        position: u32,
    ) -> (r: Result<(), Errno>)
        requires
            old(self).inv(),
            position + value@.len() <= usize::MAX,
        ensures
            final(self).inv(),
            match set_verdict(bits, at(old(self)@, ino, name@) is Some) {
                Some(e) => r == Err::<(), Errno>(e) && final(self)@ == old(self)@,
                None => r == Ok::<(), Errno>(()) && final(self)@ == old(self)@.insert(
                    (ino, name@),
                    value_set(at(old(self)@, ino, name@), position, value@),
                ),
            },
    {
        if bits.create && bits.replace {
            return Err(Errno::Einval);
        }
        let key: XattrKey = XattrKey { ino, name };
        let ghost k = key.model();
        let stored: Option<Vec<u8>> = match self.rows.get(&key) {
            Some(v) => Some(copy_bytes(v)),
            None => None,
        };
        if bits.create && stored.is_some() {
            return Err(Errno::Eexist);
        }
        if bits.replace && stored.is_none() {
            return Err(Errno::NoAttr);
        }
        let after: Vec<u8> = if position == 0 {
            copy_bytes(value)
        } else {
            let held: Vec<u8> = match stored {
                Some(v) => v,
                None => Vec::new(),
            };
            write_at(held, position as usize, value)
        };
        let ghost av = after@;
        self.rows.put(key, after);
        assert(self@ =~= old(self)@.insert(k, av));
        Ok(())
    }

    /// The value of an attribute, if the caller has room for it.
    pub fn getxattr(&self, ino: u64, name: Vec<u8>, size: u32) -> (r: Result<XattrReply, Errno>)
        requires
            self.inv(),
        ensures
            match at(self@, ino, name@) {
                None => r == Err::<XattrReply, Errno>(Errno::NoAttr),
                Some(v) => answers(r, v, size),
            },
    {
        let key: XattrKey = XattrKey { ino, name };
        match self.rows.get(&key) {
            Some(v) => answer(copy_bytes(v), size),
            None => Err(Errno::NoAttr),
        }
    }

    /// The names of the attributes of a file, if the caller has room for them.
    pub fn listxattr(&self, ino: u64, size: u32) -> (r: Result<XattrReply, Errno>)
        requires
            self.inv(),
        ensures
            lists(r, self@, ino, size),
    {
        let mut data: Vec<u8> = Vec::new();
        let ghost mut names: Seq<Seq<u8>> = Seq::empty();
        let ghost rows = self.rows.rows@;
        let mut k: usize = 0;
        while k < self.rows.rows.len()
            invariant
                self.rows.rows@ == rows,
                distinct_keys(rows),
                0 <= k <= rows.len(),
                data@ == joined_names(names),
                names.no_duplicates(),
                forall|n: Seq<u8>| #[trigger]
                    names.contains(n) <==> has_name(rows, k as int, ino, n),
            decreases rows.len() - k,
        {
            let row: &(XattrKey, Vec<u8>) = &self.rows.rows[k];
            proof {
                lemma_has_name_step(rows, k as int, ino);
            }
            if row.0.ino == ino {
                let ghost before = names;
                let ghost n = row.0.name@;
                let mut i: usize = 0;
                let ghost data0 = data@;
                while i < row.0.name.len()
                    invariant
                        0 <= i <= row.0.name@.len(),
                        data@ == data0 + row.0.name@.take(i as int),
                    decreases row.0.name@.len() - i,
                {
                    data.push(row.0.name[i]);
                    i = i + 1;
                }
                data.push(0);
                proof {
                    assert(row.0.name@.take(i as int) =~= n);
                    assert(!before.contains(n));
                    names = before.push(n);
                    assert(names.drop_last() =~= before);
                    assert(data@ =~= data0 + n.push(0));
                    assert forall|m: Seq<u8>| #[trigger] names.contains(m) <==> has_name(
                        rows,
                        k + 1,
                        ino,
                        m,
                    ) by {
                        if before.contains(m) {
                            let j = choose|j: int| 0 <= j < before.len() && before[j] == m;
                            assert(names[j] == m);
                        }
                        if m == n {
                            assert(names[before.len() as int] == m);
                        }
                        if names.contains(m) {
                            let j = choose|j: int| 0 <= j < names.len() && names[j] == m;
                            if j < before.len() {
                                assert(before[j] == m);
                            }
                        }
                    }
                }
            }
            k = k + 1;
        }
        proof {
            assert forall|n: Seq<u8>| #[trigger] names.contains(n) <==> self@.contains_key(
                (ino, n),
            ) by {
                if has_name(rows, k as int, ino, n) {
                    let j = choose|j: int|
                        0 <= j < k && #[trigger] rows[j].0.model() == (ino, n);
                    lemma_row_in_map(rows, j);
                }
                if self@.contains_key((ino, n)) {
                    lemma_map_has_row(rows, (ino, n));
                    let j = crate::table::row_index(rows, (ino, n));
                    assert(rows[j].0.model() == (ino, n));
                }
            }
            assert(names_of(self@, ino, names));
        }
        answer(data, size)
    }

    /// Drops an attribute; one that is not there is no error.
    pub fn removexattr(&mut self, ino: u64, name: Vec<u8>)
        requires
            old(self).inv(),
        ensures
            final(self).inv(),
            final(self)@ == old(self)@.remove((ino, name@)),
    {
        let key: XattrKey = XattrKey { ino, name };
        let ghost k = key.model();
        let _ = self.rows.remove(&key);
        assert(self@ =~= old(self)@.remove(k));
    }

    /// Drops the attributes of the files with these numbers.
    pub fn forget(&mut self, gone: &Vec<u64>)
        requires
            old(self).inv(),
        ensures
            final(self).inv(),
            final(self)@ == attrs_without(old(self)@, gone@),
    {
        let mut k: usize = 0;
        while k < self.rows.rows.len()
            invariant
                self.inv(),
                0 <= k <= self.rows.rows@.len(),
                forall|j: int|
                    0 <= j < k ==> !gone@.contains((#[trigger] self.rows.rows@[j]).0.ino),
                attrs_without(self@, gone@) == attrs_without(old(self)@, gone@),
            decreases self.rows.rows@.len() - k,
        {
            let ino: u64 = self.rows.rows[k].0.ino;
            if has_number(gone, ino) {
                let ghost before = self@;
                let ghost key = self.rows.rows@[k as int].0.model();
                let ghost rows0 = self.rows.rows@;
                self.rows.remove_at(k);
                proof {
                    assert(self@ =~= before.remove(key));
                    assert(attrs_without(self@, gone@) =~= attrs_without(before, gone@));
                    assert forall|j: int| 0 <= j < k implies !gone@.contains(
                        (#[trigger] self.rows.rows@[j]).0.ino,
                    ) by {
                        assert(self.rows.rows@[j] == rows0[j]);
                    }
                }
            } else {
                k = k + 1;
            }
        }
        proof {
            assert forall|key: (u64, Seq<u8>)| #[trigger] self@.contains_key(key) implies
                !gone@.contains(key.0) by {
                lemma_map_has_row(self.rows.rows@, key);
                let j = crate::table::row_index(self.rows.rows@, key);
                assert(self.rows.rows@[j].0.model() == key);
                assert(!gone@.contains(self.rows.rows@[j].0.ino));
            }
            assert(attrs_without(self@, gone@) =~= self@);
        }
    }
}

fn has_number(v: &Vec<u64>, n: u64) -> (r: bool)
    ensures
        r == v@.contains(n),
{
    let mut i: usize = 0;
    while i < v.len()
        invariant
            0 <= i <= v@.len(),
            forall|j: int| 0 <= j < i ==> v@[j] != n,
        decreases v@.len() - i,
    {
        if v[i] == n {
            return true;
        }
        i = i + 1;
    }
    false
}

fn write_at(held: Vec<u8>, pos: usize, value: &Vec<u8>) -> (r: Vec<u8>)
    requires
        pos + value@.len() <= usize::MAX,
    ensures
        r@ == written_at(held@, pos as nat, value@),
{
    let end: usize = pos + value.len();
    let mut out: Vec<u8> = held;
    let ghost h = held@;
    while out.len() < end
        invariant
            out@.len() >= h.len(),
            out@.len() <= end || out@.len() == h.len(),
            forall|j: int| 0 <= j < h.len() ==> out@[j] == h[j],
            forall|j: int| h.len() <= j < out@.len() ==> out@[j] == 0u8,
        decreases end - out@.len(),
    {
        out.push(0);
    }
    let mut i: usize = 0;
    let ghost len = out@.len();
    while i < value.len()
        invariant
            0 <= i <= value@.len(),
            end == pos + value@.len(),
            out@.len() == len,
            len >= end,
            len >= h.len(),
            forall|j: int| 0 <= j < i ==> out@[pos + j] == value@[j],
            forall|j: int|
                0 <= j < len && !(pos <= j < pos + i) ==> #[trigger] out@[j] == if j < h.len() {
                    h[j]
                } else {
                    0u8
                },
        decreases value@.len() - i,
    {
        out.set(pos + i, value[i]);
        i = i + 1;
    }
    assert(out@ =~= written_at(h, pos as nat, value@)) by {
        assert forall|j: int| 0 <= j < len implies out@[j] == written_at(
            h,
            pos as nat,
            value@,
        )[j] by {
            if pos <= j < end {
                assert(out@[pos + (j - pos)] == value@[j - pos]);
            }
        }
    }
    out
}

/// One of the first `k` rows is the attribute `n` of `ino`.
spec fn has_name(rows: Seq<(XattrKey, Vec<u8>)>, k: int, ino: u64, n: Seq<u8>) -> bool {
    exists|j: int| 0 <= j < k && #[trigger] rows[j].0.model() == (ino, n)
}

proof fn lemma_has_name_step(rows: Seq<(XattrKey, Vec<u8>)>, k: int, ino: u64)
    requires
        0 <= k < rows.len(),
        distinct_keys(rows),
    ensures
        forall|n: Seq<u8>| #[trigger]
            has_name(rows, k + 1, ino, n) <==> has_name(rows, k, ino, n) || rows[k].0.model() == (
                ino,
                n,
            ),
        forall|n: Seq<u8>| #[trigger]
            has_name(rows, k, ino, n) ==> rows[k].0.model() != (ino, n),
{
    assert forall|n: Seq<u8>| #[trigger] has_name(rows, k + 1, ino, n) <==> has_name(
        rows,
        k,
        ino,
        n,
    ) || rows[k].0.model() == (ino, n) by {
        if has_name(rows, k, ino, n) {
            let j = choose|j: int| 0 <= j < k && #[trigger] rows[j].0.model() == (ino, n);
            assert(rows[j].0.model() == (ino, n));
        }
    }
    assert forall|n: Seq<u8>| #[trigger] has_name(rows, k, ino, n) implies rows[k].0.model() != (
        ino,
        n,
    ) by {
        let j = choose|j: int| 0 <= j < k && #[trigger] rows[j].0.model() == (ino, n);
        assert(rows[j].0.model() != rows[k].0.model());
    }
}

} // verus!
