//! The numbers under which a mounted file system knows paths.

use vstd::prelude::*;
use crate::table::{distinct_keys, lemma_map_has_row, lemma_row_in_map, rows_map, Key, Table};
use crate::text::{begins_with, joined, same_text, starts_with_text};

verus! {

pub const ROOT_INODE: u64 = 1;

/// The first number given to a path other than the root.
pub const FIRST_INODE: u64 = 2_000_000;

/// `path` is `dir` or lies somewhere below it.
pub open spec fn under(dir: Seq<char>, path: Seq<char>) -> bool {
    path == dir || begins_with(path, dir + "/"@)
}

/// `path`, which is under `old`, once `old` is called `new`.
pub open spec fn moved_path(path: Seq<char>, old: Seq<char>, new: Seq<char>) -> Seq<char> {
    new + path.skip(old.len() as int)
}

/// Each path under `old` called by its new name, and no other left under `new`.
pub open spec fn paths_renamed(
    paths: Map<u64, Seq<char>>,
    old: Seq<char>,
    new: Seq<char>,
) -> Map<u64, Seq<char>> {
    Map::new(
        |i: u64| paths.contains_key(i) && (under(old, paths[i]) || !under(new, paths[i])),
        |i: u64|
            if under(old, paths[i]) {
                moved_path(paths[i], old, new)
            } else {
                paths[i]
            },
    )
}

/// Which path each number stands for; no path has two numbers.
pub struct InodeTable {
    pub next_inode: u64,
    pub rows: Table<u64, String>,
}

#[verifier::ext_equal]
pub ghost struct InodesView {
    pub next: u64,
    pub paths: Map<u64, Seq<char>>,
}

pub open spec fn path_map(m: Map<u64, String>) -> Map<u64, Seq<char>> {
    m.map_values(|s: String| s@)
}

impl View for InodeTable {
    type V = InodesView;

    open spec fn view(&self) -> InodesView {
        InodesView { next: self.next_inode, paths: path_map(self.rows@) }
    }
}

/// No two numbers stand for one path.
pub open spec fn one_number_each(paths: Map<u64, Seq<char>>) -> bool {
    forall|i: u64, j: u64|
        paths.contains_key(i) && paths.contains_key(j) && #[trigger] paths[i] == #[trigger] paths[j]
            ==> i == j
}

/// Every number in use lies below the next one.
pub open spec fn numbers_below(paths: Map<u64, Seq<char>>, next: u64) -> bool {
    forall|i: u64| #[trigger] paths.contains_key(i) ==> i < next
}

impl InodesView {
    pub open spec fn inv(self) -> bool {
        &&& one_number_each(self.paths)
        &&& numbers_below(self.paths, self.next)
    }

    /// `i` is the number of `path`.
    pub open spec fn names(self, i: u64, path: Seq<char>) -> bool {
        self.paths.contains_key(i) && self.paths[i] == path
    }

    pub open spec fn knows(self, path: Seq<char>) -> bool {
        exists|i: u64| #[trigger] self.names(i, path)
    }

    pub open spec fn number_of(self, path: Seq<char>) -> u64 {
        choose|i: u64| #[trigger] self.names(i, path)
    }

    /// The table once `path` has a number, and that number; none when the numbers
    /// have run out.
    pub open spec fn numbered(self, path: Seq<char>) -> (InodesView, Option<u64>) {
        if self.knows(path) {
            (self, Some(self.number_of(path)))
        } else if self.next == u64::MAX {
            (self, None)
        } else {
            (
                InodesView {
                    next: (self.next + 1) as u64,
                    paths: self.paths.insert(self.next, path),
                },
                Some(self.next),
            )
        }
    }

    /// The table without `dir` and what lies below it.
    pub open spec fn without(self, dir: Seq<char>) -> InodesView {
        InodesView {
            paths: self.paths.restrict(
                Set::new(|i: u64| self.paths.contains_key(i) && !under(dir, self.paths[i])),
            ),
            ..self
        }
    }

    /// Something at `dir` or below it has a number.
    pub open spec fn has_under(self, dir: Seq<char>) -> bool {
        exists|i: u64| self.paths.contains_key(i) && under(dir, #[trigger] self.paths[i])
    }

    /// The table once `old` is called `new`.  What was called so before is gone.
    pub open spec fn renamed(self, old: Seq<char>, new: Seq<char>) -> InodesView {
        if !self.has_under(old) {
            self
        } else {
            InodesView { paths: paths_renamed(self.paths, old, new), ..self }
        }
    }
}

/// Whether `path` is `dir` or below it; `prefix` is `dir` with a slash behind.
fn is_under(dir: &str, prefix: &str, path: &str) -> (r: bool)
    requires
        prefix@ == dir@ + "/"@,
    ensures
        r == under(dir@, path@),
{
    same_text(path, dir) || starts_with_text(path, prefix)
}

/// The characters of `s` from `n` on.
fn text_from(s: &str, n: usize) -> (r: String)
    requires
        n <= s@.len(),
    ensures
        r@ == s@.skip(n as int),
{
    let len: usize = s.unicode_len();
    let out: &str = s.substring_char(n, len);
    assert(s@.subrange(n as int, len as int) =~= s@.skip(n as int));
    out.to_owned()
}

impl InodeTable {
    pub open spec fn inv(&self) -> bool {
        self.rows.wf() && self@.inv()
    }

    /// Only the root has a number.
    pub fn new() -> (r: Self)
        ensures
            r.inv(),
            r@ == (InodesView { next: FIRST_INODE, paths: map![ROOT_INODE => "/"@] }),
    {
        let mut rows: Table<u64, String> = Table::new();
        rows.put(ROOT_INODE, "/".to_owned());
        let t: InodeTable = InodeTable { next_inode: FIRST_INODE, rows };
        assert(t@.paths =~= map![ROOT_INODE => "/"@]);
        t
    }

    pub fn get_path(&self, inode: u64) -> (r: Option<String>)
        requires
            self.inv(),
        ensures
            match r {
                Some(p) => self@.names(inode, p@),
                None => !self@.paths.contains_key(inode),
            },
    {
        match self.rows.get(&inode) {
            Some(p) => Some(p.clone()),
            None => None,
        }
    }

    /// The number of `path`, if it has one.
    fn find_inode(&self, path: &str) -> (r: Option<u64>)
        requires
            self.inv(),
        ensures
            match r {
                Some(i) => self@.names(i, path@) && self@.knows(path@) && i == self@.number_of(
                    path@,
                ),
                None => !self@.knows(path@),
            },
    {
        let mut k: usize = 0;
        while k < self.rows.rows.len()
            invariant
                self.inv(),
                0 <= k <= self.rows.rows@.len(),
                forall|j: int| 0 <= j < k ==> (#[trigger] self.rows.rows@[j]).1@ != path@,
            decreases self.rows.rows@.len() - k,
        {
            if same_text(self.rows.rows[k].1.as_str(), path) {
                let i: u64 = self.rows.rows[k].0;
                proof {
                    lemma_row_in_map(self.rows.rows@, k as int);
                    assert(self@.names(i, path@));
                    let n = self@.number_of(path@);
                    assert(self@.names(n, path@));
                    assert(self@.paths[n] == self@.paths[i]);
                }
                return Some(i);
            }
            k = k + 1;
        }
        proof {
            if self@.knows(path@) {
                let n = self@.number_of(path@);
                assert(self@.names(n, path@));
                lemma_map_has_row(self.rows.rows@, n);
            }
        }
        None
    }

    /// The number of `path`, given now if it had none.
    pub fn get_or_create(&mut self, path: &str) -> (r: Option<u64>)
        requires
            old(self).inv(),
        ensures
            final(self).inv(),
            (final(self)@, r) == old(self)@.numbered(path@),
            r matches Some(i) ==> final(self)@.names(i, path@),
    {
        match self.find_inode(path) {
            Some(i) => Some(i),
            None => {
                if self.next_inode == u64::MAX {
                    return None;
                }
                let i: u64 = self.next_inode;
                self.rows.put(i, path.to_owned());
                self.next_inode = i + 1;
                proof {
                    let before = old(self)@;
                    assert(self@.paths =~= before.paths.insert(i, path@));
                    assert forall|a: u64, b: u64|
                        self@.paths.contains_key(a) && self@.paths.contains_key(b)
                            && #[trigger] self@.paths[a] == #[trigger] self@.paths[b] implies a
                        == b by {
                        if a == i && b != i {
                            assert(before.names(b, path@));
                        }
                        if b == i && a != i {
                            assert(before.names(a, path@));
                        }
                    }
                }
                Some(i)
            },
        }
    }

    /// Drops `path` and what lies below it; hands back the numbers that went.
    pub fn remove_path_recursive(&mut self, path: &str) -> (r: Vec<u64>)
        requires
            old(self).inv(),
        ensures
            final(self).inv(),
            final(self)@ == old(self)@.without(path@),
            r@.no_duplicates(),
            forall|i: u64|
                r@.contains(i) <==> old(self)@.paths.contains_key(i) && under(
                    path@,
                    #[trigger] old(self)@.paths[i],
                ),
    {
        let prefix: String = joined(path, "/");
        let mut kept: Vec<(u64, String)> = Vec::new();
        let mut gone: Vec<u64> = Vec::new();
        let mut k: usize = 0;
        let ghost rows = self.rows.rows@;
        while k < self.rows.rows.len()
            invariant
                prefix@ == path@ + "/"@,
                self.rows.rows@ == rows,
                distinct_keys(rows),
                0 <= k <= rows.len(),
                split_at(rows, k as int, kept@, gone@, |p: Seq<char>| under(path@, p)),
            decreases rows.len() - k,
        {
            let row: &(u64, String) = &self.rows.rows[k];
            let ghost kept0 = kept@;
            let ghost gone0 = gone@;
            if is_under(path, prefix.as_str(), row.1.as_str()) {
                gone.push(row.0);
            } else {
                kept.push((row.0, row.1.clone()));
            }
            proof {
                lemma_split_step(
                    rows,
                    k as int,
                    kept0,
                    gone0,
                    kept@,
                    gone@,
                    |p: Seq<char>| under(path@, p),
                );
            }
            k = k + 1;
        }
        self.rows = Table { rows: kept };
        proof {
            lemma_split_done(rows, kept@, gone@, |p: Seq<char>| under(path@, p));
            assert(path_map(self.rows@) =~= old(self)@.without(path@).paths);
            assert forall|a: u64, b: u64|
                self@.paths.contains_key(a) && self@.paths.contains_key(b)
                    && #[trigger] self@.paths[a] == #[trigger] self@.paths[b] implies a == b by {
                assert(old(self)@.paths[a] == old(self)@.paths[b]);
            }
        }
        gone
    }

    /// Whether anything at `dir` or below it has a number.
    fn any_under(&self, dir: &str) -> (r: bool)
        requires
            self.inv(),
        ensures
            r == self@.has_under(dir@),
    {
        let prefix: String = joined(dir, "/");
        let mut k: usize = 0;
        while k < self.rows.rows.len()
            invariant
                self.inv(),
                prefix@ == dir@ + "/"@,
                0 <= k <= self.rows.rows@.len(),
                forall|j: int| 0 <= j < k ==> !under(dir@, (#[trigger] self.rows.rows@[j]).1@),
            decreases self.rows.rows@.len() - k,
        {
            if is_under(dir, prefix.as_str(), self.rows.rows[k].1.as_str()) {
                proof {
                    lemma_row_in_map(self.rows.rows@, k as int);
                    let i = self.rows.rows@[k as int].0;
                    assert(self@.paths.contains_key(i) && under(dir@, self@.paths[i]));
                }
                return true;
            }
            k = k + 1;
        }
        proof {
            if self@.has_under(dir@) {
                let i = choose|i: u64|
                    self@.paths.contains_key(i) && under(dir@, #[trigger] self@.paths[i]);
                lemma_map_has_row(self.rows.rows@, i);
            }
        }
        false
    }

    /// Calls `old_path` and what lies below it by the new name.  Their numbers
    /// stay; what had the new name before loses its number.
    pub fn rename_path_recursive(&mut self, old_path: &str, new_path: &str)
        requires
            old(self).inv(),
        ensures
            final(self).inv(),
            final(self)@ == old(self)@.renamed(old_path@, new_path@),
    {
        if !self.any_under(old_path) {
            return;
        }
        let old_prefix: String = joined(old_path, "/");
        let new_prefix: String = joined(new_path, "/");
        let old_len: usize = old_path.unicode_len();
        let mut out: Table<u64, String> = Table::new();
        let mut k: usize = 0;
        let ghost rows = self.rows.rows@;
        proof {
            assert(rows_map(rows.take(0)) =~= Map::<u64, String>::empty());
            assert(path_map(out@) =~= paths_renamed(
                path_map(rows_map(rows.take(0))),
                old_path@,
                new_path@,
            ));
        }
        while k < self.rows.rows.len()
            invariant
                old_prefix@ == old_path@ + "/"@,
                new_prefix@ == new_path@ + "/"@,
                old_len == old_path@.len(),
                self.rows.rows@ == rows,
                distinct_keys(rows),
                0 <= k <= rows.len(),
                out.wf(),
                path_map(out@) == paths_renamed(
                    path_map(rows_map(rows.take(k as int))),
                    old_path@,
                    new_path@,
                ),
            decreases rows.len() - k,
        {
            let row: &(u64, String) = &self.rows.rows[k];
            let ghost before = path_map(rows_map(rows.take(k as int)));
            let ghost out0 = path_map(out@);
            proof {
                lemma_rows_map_take(rows, k as int);
                assert(path_map(rows_map(rows.take(k + 1))) =~= before.insert(row.0, row.1@));
            }
            if is_under(old_path, old_prefix.as_str(), row.1.as_str()) {
                let tail: String = text_from(row.1.as_str(), old_len);
                let full: String = joined(new_path, tail.as_str());
                let ghost fv = full@;
                out.put(row.0, full);
                assert(path_map(out@) =~= out0.insert(row.0, fv));
            } else if !is_under(new_path, new_prefix.as_str(), row.1.as_str()) {
                out.put(row.0, row.1.clone());
                assert(path_map(out@) =~= out0.insert(row.0, row.1@));
            }
            assert(path_map(out@) =~= paths_renamed(
                before.insert(row.0, row.1@),
                old_path@,
                new_path@,
            ));
            k = k + 1;
        }
        self.rows = out;
        proof {
            assert(rows.take(k as int) =~= rows);
            lemma_renamed_inv(old(self)@, old_path@, new_path@);
        }
    }
}

/// One more row of a table adds what it holds under its key.
proof fn lemma_rows_map_take(rows: Seq<(u64, String)>, k: int)
    requires
        distinct_keys(rows),
        0 <= k < rows.len(),
    ensures
        rows_map(rows.take(k + 1)) == rows_map(rows.take(k)).insert(rows[k].0, rows[k].1),
        !rows_map(rows.take(k)).contains_key(rows[k].0),
{
    let a = rows.take(k);
    let b = rows.take(k + 1);
    assert(distinct_keys(b)) by {
        assert forall|i: int, j: int|
            0 <= i < b.len() && 0 <= j < b.len() && i != j implies (#[trigger] b[i]).0.model() != (
        #[trigger] b[j]).0.model() by {
            assert(rows[i].0.model() != rows[j].0.model());
        }
    }
    assert(distinct_keys(a)) by {
        assert forall|i: int, j: int|
            0 <= i < a.len() && 0 <= j < a.len() && i != j implies (#[trigger] a[i]).0.model() != (
        #[trigger] a[j]).0.model() by {
            assert(rows[i].0.model() != rows[j].0.model());
        }
    }
    if rows_map(a).contains_key(rows[k].0) {
        lemma_map_has_row(a, rows[k].0);
        let i = crate::table::row_index(a, rows[k].0);
        assert(rows[i].0.model() != rows[k].0.model());
    }
    lemma_row_in_map(b, k);
    assert forall|i: u64| rows_map(a).contains_key(i) implies #[trigger] rows_map(b).contains_key(i)
        && rows_map(b)[i] == rows_map(a)[i] by {
        lemma_map_has_row(a, i);
        let j = crate::table::row_index(a, i);
        lemma_row_in_map(b, j);
    }
    assert forall|i: u64| #[trigger] rows_map(b).contains_key(i) implies i == rows[k].0
        || rows_map(a).contains_key(i) by {
        lemma_map_has_row(b, i);
        let j = crate::table::row_index(b, i);
        if j < k {
            lemma_row_in_map(a, j);
        }
    }
    assert(rows_map(b) =~= rows_map(a).insert(rows[k].0, rows[k].1));
}

/// What a moved path is called lies under the new name.
pub proof fn lemma_moved_under(path: Seq<char>, old: Seq<char>, new: Seq<char>)
    requires
        under(old, path),
    ensures
        under(new, moved_path(path, old, new)),
        path == old + path.skip(old.len() as int),
{
    reveal_strlit("/");
    let tail = path.skip(old.len() as int);
    if path == old {
        assert(tail =~= Seq::<char>::empty());
        assert(new + tail =~= new);
        assert(old + tail =~= path);
    } else {
        let p = old + "/"@;
        assert(path.subrange(0, p.len() as int) == p);
        assert(path.subrange(0, p.len() as int)[old.len() as int] == '/');
        assert(tail[0] == '/');
        let q = new + "/"@;
        assert((new + tail).subrange(0, q.len() as int) =~= q);
        assert forall|i: int| 0 <= i < old.len() implies path[i] == old[i] by {
            assert(path.subrange(0, p.len() as int)[i] == p[i]);
        }
        assert(old + tail =~= path);
    }
}

/// A rename keeps the numbers apart.
pub proof fn lemma_renamed_inv(v: InodesView, old: Seq<char>, new: Seq<char>)
    requires
        v.inv(),
    ensures
        v.renamed(old, new).inv(),
{
    let w = v.renamed(old, new);
    if v.has_under(old) {
        assert forall|a: u64, b: u64|
            w.paths.contains_key(a) && w.paths.contains_key(b) && #[trigger] w.paths[a]
                == #[trigger] w.paths[b] implies a == b by {
            if under(old, v.paths[a]) {
                lemma_moved_under(v.paths[a], old, new);
            }
            if under(old, v.paths[b]) {
                lemma_moved_under(v.paths[b], old, new);
            }
            if under(old, v.paths[a]) && under(old, v.paths[b]) {
                let ta = v.paths[a].skip(old.len() as int);
                let tb = v.paths[b].skip(old.len() as int);
                assert((new + ta).skip(new.len() as int) =~= ta);
                assert((new + tb).skip(new.len() as int) =~= tb);
            }
            assert(v.paths[a] == v.paths[b]);
        }
    }
}

/// The number `inode` stands in one of the first `k` rows, which `out` picks.
spec fn dropped(
    rows: Seq<(u64, String)>,
    k: int,
    inode: u64,
    out: spec_fn(Seq<char>) -> bool,
) -> bool {
    exists|j: int| 0 <= j < k && (#[trigger] rows[j]).0 == inode && out(rows[j].1@)
}

/// `row` is one of the first `k` rows, which `out` passes over.
spec fn passed(
    rows: Seq<(u64, String)>,
    k: int,
    row: (u64, String),
    out: spec_fn(Seq<char>) -> bool,
) -> bool {
    exists|j: int| 0 <= j < k && #[trigger] rows[j] == row && !out(row.1@)
}

/// `kept` and `gone` are the first `k` rows, told apart by `out`.
spec fn split_at(
    rows: Seq<(u64, String)>,
    k: int,
    kept: Seq<(u64, String)>,
    gone: Seq<u64>,
    out: spec_fn(Seq<char>) -> bool,
) -> bool {
    &&& distinct_keys(kept)
    &&& gone.no_duplicates()
    &&& forall|i: int| 0 <= i < kept.len() ==> passed(rows, k, #[trigger] kept[i], out)
    &&& forall|i: int| 0 <= i < gone.len() ==> dropped(rows, k, #[trigger] gone[i], out)
    &&& forall|j: int|
        0 <= j < k ==> if out((#[trigger] rows[j]).1@) {
            gone.contains(rows[j].0)
        } else {
            kept.contains(rows[j])
        }
}

proof fn lemma_split_step(
    rows: Seq<(u64, String)>,
    k: int,
    kept: Seq<(u64, String)>,
    gone: Seq<u64>,
    kept2: Seq<(u64, String)>,
    gone2: Seq<u64>,
    out: spec_fn(Seq<char>) -> bool,
)
    requires
        0 <= k < rows.len(),
        distinct_keys(rows),
        split_at(rows, k, kept, gone, out),
        if out(rows[k].1@) {
            gone2 == gone.push(rows[k].0) && kept2 == kept
        } else {
            kept2 == kept.push(rows[k]) && gone2 == gone
        },
    ensures
        split_at(rows, k + 1, kept2, gone2, out),
{
    assert forall|i: int| 0 <= i < kept2.len() implies passed(
        rows,
        k + 1,
        #[trigger] kept2[i],
        out,
    ) by {
        if i < kept.len() {
            assert(kept2[i] == kept[i]);
            assert(passed(rows, k, kept[i], out));
        } else {
            assert(rows[k] == kept2[i]);
        }
    }
    assert forall|i: int| 0 <= i < gone2.len() implies dropped(
        rows,
        k + 1,
        #[trigger] gone2[i],
        out,
    ) by {
        if i < gone.len() {
            assert(gone2[i] == gone[i]);
            assert(dropped(rows, k, gone[i], out));
        } else {
            assert(rows[k].0 == gone2[i]);
        }
    }
    assert forall|a: int| 0 <= a < kept.len() implies (#[trigger] kept[a]).0.model()
        != rows[k].0.model() by {
        assert(passed(rows, k, kept[a], out));
    }
    assert forall|a: int| 0 <= a < gone.len() implies #[trigger] gone[a] != rows[k].0 by {
        assert(dropped(rows, k, gone[a], out));
        let j = choose|j: int| 0 <= j < k && (#[trigger] rows[j]).0 == gone[a] && out(rows[j].1@);
        assert(rows[j].0.model() != rows[k].0.model());
    }
    assert forall|j: int| 0 <= j < k + 1 implies if out((#[trigger] rows[j]).1@) {
        gone2.contains(rows[j].0)
    } else {
        kept2.contains(rows[j])
    } by {
        if j < k {
            if out(rows[j].1@) {
                let i = choose|i: int| 0 <= i < gone.len() && gone[i] == rows[j].0;
                assert(gone2[i] == rows[j].0);
            } else {
                let i = choose|i: int| 0 <= i < kept.len() && kept[i] == rows[j];
                assert(kept2[i] == rows[j]);
            }
        } else if out(rows[k].1@) {
            assert(gone2[gone.len() as int] == rows[k].0);
        } else {
            assert(kept2[kept.len() as int] == rows[k]);
        }
    }
}

proof fn lemma_split_done(
    rows: Seq<(u64, String)>,
    kept: Seq<(u64, String)>,
    gone: Seq<u64>,
    out: spec_fn(Seq<char>) -> bool,
)
    requires
        distinct_keys(rows),
        split_at(rows, rows.len() as int, kept, gone, out),
    ensures
        forall|i: u64|
            #![trigger rows_map(kept).contains_key(i)]
            #![trigger path_map(rows_map(kept)).contains_key(i)]
            rows_map(kept).contains_key(i) <==> rows_map(rows).contains_key(i) && !out(
                rows_map(rows)[i]@,
            ),
        forall|i: u64|
            rows_map(kept).contains_key(i) ==> #[trigger] rows_map(kept)[i] == rows_map(rows)[i],
        forall|i: u64| #[trigger]
            gone.contains(i) <==> rows_map(rows).contains_key(i) && out(rows_map(rows)[i]@),
{
    assert forall|i: u64| #[trigger] rows_map(kept).contains_key(i) implies rows_map(
        rows,
    ).contains_key(i) && !out(rows_map(rows)[i]@) && rows_map(kept)[i] == rows_map(rows)[i] by {
        lemma_map_has_row(kept, i);
        let a = crate::table::row_index(kept, i);
        assert(kept[a].0 == i);
        assert(passed(rows, rows.len() as int, kept[a], out));
        let j = choose|j: int| 0 <= j < rows.len() && #[trigger] rows[j] == kept[a];
        lemma_row_in_map(rows, j);
    }
    assert forall|i: u64| rows_map(rows).contains_key(i) implies if out(rows_map(rows)[i]@) {
        gone.contains(i)
    } else {
        #[trigger] rows_map(kept).contains_key(i)
    } by {
        lemma_map_has_row(rows, i);
        let j = crate::table::row_index(rows, i);
        assert(rows[j].0 == i);
        if !out(rows_map(rows)[i]@) {
            let a = choose|a: int| 0 <= a < kept.len() && kept[a] == rows[j];
            lemma_row_in_map(kept, a);
        }
    }
    assert forall|i: u64| #[trigger] gone.contains(i) implies rows_map(rows).contains_key(i) && out(
        rows_map(rows)[i]@,
    ) by {
        let a = choose|a: int| 0 <= a < gone.len() && gone[a] == i;
        assert(dropped(rows, rows.len() as int, gone[a], out));
        let j = choose|j: int|
            0 <= j < rows.len() && (#[trigger] rows[j]).0 == gone[a] && out(rows[j].1@);
        lemma_row_in_map(rows, j);
    }
}

} // verus!
