//! List sessions: a directory listing taken once and handed out page by page.

use vstd::prelude::*;
use crate::names::{in_order, NameMap};
use crate::records::FsMetaListEntry;
use crate::table::Table;
use crate::text::{lemma_text_lt_irreflexive, lemma_text_lt_trans, text_before, text_lt};

verus! {

pub struct ListSession {
    pub entries: NameMap<FsMetaListEntry>,
    pub cursor: Option<String>,
}

/// A session: its rows, and the name up to which they were handed out.
#[verifier::ext_equal]
pub struct SessionView {
    pub rows: Seq<(String, FsMetaListEntry)>,
    pub cursor: Option<Seq<char>>,
}

impl View for ListSession {
    type V = SessionView;

    open spec fn view(&self) -> SessionView {
        SessionView {
            rows: self.entries.rows@,
            cursor: match self.cursor {
                Some(s) => Some(s@),
                None => None,
            },
        }
    }
}

/// Sessions by their ids.
pub struct ListCache {
    pub next_session_id: u64,
    pub sessions: Table<u64, ListSession>,
}

/// How many rows lie at or before the cursor.
pub open spec fn passed<V>(rows: Seq<(String, V)>, cursor: Option<Seq<char>>) -> nat
    decreases rows.len(),
{
    match cursor {
        None => 0,
        Some(c) => if rows.len() == 0 || text_lt(c, rows[0].0@) {
            0
        } else {
            1 + passed(rows.drop_first(), cursor)
        },
    }
}

/// How many rows a page holds, if `left` remain; a page size of zero asks for all.
pub open spec fn page_len(left: nat, page_size: u32) -> nat {
    if page_size == 0 || left < page_size {
        left
    } else {
        page_size as nat
    }
}

/// The rows of the next page.
pub open spec fn next_page<V>(
    rows: Seq<(String, V)>,
    cursor: Option<Seq<char>>,
    page_size: u32,
) -> Seq<(String, V)> {
    let from = passed(rows, cursor) as int;
    rows.subrange(from, from + page_len((rows.len() - from) as nat, page_size))
}

/// The cursor after a page.
pub open spec fn cursor_after<V>(
    page: Seq<(String, V)>,
    cursor: Option<Seq<char>>,
) -> Option<Seq<char>> {
    if page.len() == 0 {
        cursor
    } else {
        Some(page.last().0@)
    }
}

pub proof fn lemma_passed_bound<V>(rows: Seq<(String, V)>, cursor: Option<Seq<char>>)
    ensures
        passed(rows, cursor) <= rows.len(),
    decreases rows.len(),
{
    if cursor is Some && rows.len() > 0 && !text_lt(cursor->0, rows[0].0@) {
        lemma_passed_bound(rows.drop_first(), cursor);
    }
}

/// A cursor on row `k` has passed exactly the rows up to and with it.
pub proof fn lemma_passed_at<V>(rows: Seq<(String, V)>, k: int)
    requires
        in_order(rows),
        0 <= k < rows.len(),
    ensures
        passed(rows, Some(rows[k].0@)) == k + 1,
    decreases k,
{
    let cursor = Some(rows[k].0@);
    let rest = rows.drop_first();
    assert forall|i: int, j: int| 0 <= i < j < rest.len() implies text_lt(
        (#[trigger] rest[i]).0@,
        (#[trigger] rest[j]).0@,
    ) by {
        assert(text_lt(rows[i + 1].0@, rows[j + 1].0@));
    }
    if k == 0 {
        lemma_text_lt_irreflexive(rows[0].0@);
        if rest.len() > 0 {
            assert(rest[0] == rows[1]);
            assert(text_lt(rows[0].0@, rows[1].0@));
        }
        assert(passed(rest, cursor) == 0);
    } else {
        assert(text_lt(rows[0].0@, rows[k].0@));
        if text_lt(rows[k].0@, rows[0].0@) {
            lemma_text_lt_trans(rows[0].0@, rows[k].0@, rows[0].0@);
            lemma_text_lt_irreflexive(rows[0].0@);
        }
        assert(rest[k - 1] == rows[k]);
        lemma_passed_at(rest, k - 1);
    }
}

/// Pages continue each other: after a page, exactly its rows have been passed as well.
pub proof fn law_pages_continue<V>(
    rows: Seq<(String, V)>,
    cursor: Option<Seq<char>>,
    page_size: u32,
)
    requires
        in_order(rows),
    ensures
        ({
            let page = next_page(rows, cursor, page_size);
            passed(rows, cursor_after(page, cursor)) == passed(rows, cursor) + page.len()
        }),
{
    lemma_passed_bound(rows, cursor);
    let from = passed(rows, cursor) as int;
    let page = next_page(rows, cursor, page_size);
    if page.len() > 0 {
        let k = from + page.len() - 1;
        assert(page.last() == rows[k]);
        lemma_passed_at(rows, k);
    }
}

/// The rows handed out by pages of the given sizes.
pub open spec fn read_pages<V>(
    rows: Seq<(String, V)>,
    cursor: Option<Seq<char>>,
    sizes: Seq<u32>,
) -> Seq<(String, V)>
    decreases sizes.len(),
{
    if sizes.len() == 0 {
        Seq::empty()
    } else {
        let page = next_page(rows, cursor, sizes[0]);
        page + read_pages(rows, cursor_after(page, cursor), sizes.drop_first())
    }
}

/// How many of `left` rows pages of the given sizes hand out.
pub open spec fn pages_len(left: nat, sizes: Seq<u32>) -> nat
    decreases sizes.len(),
{
    if sizes.len() == 0 {
        0
    } else {
        let n = page_len(left, sizes[0]);
        n + pages_len((left - n) as nat, sizes.drop_first())
    }
}

/// Reading page by page hands out the rows in their order, each once and none
/// left out.
pub proof fn law_paging_is_complete<V>(
    rows: Seq<(String, V)>,
    cursor: Option<Seq<char>>,
    sizes: Seq<u32>,
)
    requires
        in_order(rows),
    ensures
        ({
            let from = passed(rows, cursor) as int;
            read_pages(rows, cursor, sizes) == rows.subrange(
                from,
                from + pages_len((rows.len() - from) as nat, sizes),
            )
        }),
        passed(rows, cursor) + pages_len((rows.len() - passed(rows, cursor)) as nat, sizes)
            <= rows.len(),
    decreases sizes.len(),
{
    lemma_passed_bound(rows, cursor);
    let from = passed(rows, cursor) as int;
    if sizes.len() > 0 {
        let page = next_page(rows, cursor, sizes[0]);
        let next = cursor_after(page, cursor);
        law_pages_continue(rows, cursor, sizes[0]);
        law_paging_is_complete(rows, next, sizes.drop_first());
        let n = page.len();
        let rest = pages_len((rows.len() - from - n) as nat, sizes.drop_first());
        assert(rows.subrange(from, from + n) + rows.subrange(from + n, from + n + rest)
            =~= rows.subrange(from, from + n + rest));
    } else {
        assert(rows.subrange(from, from) =~= Seq::empty());
    }
}

impl ListCache {
    pub open spec fn wf(&self) -> bool {
        &&& self.sessions.wf()
        &&& forall|id: u64| #[trigger]
            self.sessions@.contains_key(id) ==> in_order(self.sessions@[id]@.rows)
    }

    pub fn new() -> (r: Self)
        ensures
            r.wf(),
            r.next_session_id == 1,
            r.sessions@ == Map::<u64, ListSession>::empty(),
    {
        ListCache { next_session_id: 1, sessions: Table::new() }
    }

    /// Opens a session on `entries`.
    pub fn start_session(&mut self, entries: NameMap<FsMetaListEntry>) -> (r: u64)
        requires
            old(self).wf(),
            entries.wf(),
        ensures
            final(self).wf(),
            r == old(self).next_session_id,
            final(self).next_session_id == if r == u64::MAX {
                r as int
            } else {
                r + 1
            },
            final(self).sessions@ == old(self).sessions@.insert(
                r,
                ListSession { entries, cursor: None },
            ),
    {
        let id: u64 = self.next_session_id;
        if id < u64::MAX {
            self.next_session_id = id + 1;
        }
        self.sessions.put(id, ListSession { entries, cursor: None });
        id
    }

    /// The next page of a session, if there is such a session.
    pub fn list_next(&mut self, list_session_id: u64, page_size: u32) -> (r: Option<
        NameMap<FsMetaListEntry>,
    >)
        requires
            old(self).wf(),
        ensures
            final(self).wf(),
            final(self).next_session_id == old(self).next_session_id,
            match r {
                None => !old(self).sessions@.contains_key(list_session_id)
                    && final(self).sessions@ == old(self).sessions@,
                Some(page) => old(self).sessions@.contains_key(list_session_id) && ({
                    let s = old(self).sessions@[list_session_id]@;
                    let t = final(self).sessions@[list_session_id]@;
                    &&& page.wf()
                    &&& page.rows@ == next_page(s.rows, s.cursor, page_size)
                    &&& t.rows == s.rows
                    &&& t.cursor == cursor_after(page.rows@, s.cursor)
                    &&& final(self).sessions@ == old(self).sessions@.insert(
                        list_session_id,
                        final(self).sessions@[list_session_id],
                    )
                }),
            },
    {
        let session: ListSession = match self.sessions.get(&list_session_id) {
            None => {
                return None;
            },
            Some(s) => ListSession {
                entries: s.entries.copy(),
                cursor: match &s.cursor {
                    Some(c) => Some(c.clone()),
                    None => None,
                },
            },
        };
        let ghost s0 = self.sessions@[list_session_id]@;
        assert(session@ == s0);
        let from: usize = count_passed(&session.entries, &session.cursor);
        let left: usize = session.entries.len() - from;
        let n: usize = if page_size == 0 || left < page_size as usize {
            left
        } else {
            page_size as usize
        };
        let page: NameMap<FsMetaListEntry> = session.entries.slice(from, from + n);
        proof {
            assert(page.rows@ == next_page(s0.rows, s0.cursor, page_size));
            assert forall|i: int, j: int| 0 <= i < j < page.rows@.len() implies text_lt(
                (#[trigger] page.rows@[i]).0@,
                (#[trigger] page.rows@[j]).0@,
            ) by {
                assert(text_lt(s0.rows[from + i].0@, s0.rows[from + j].0@));
            }
        }
        let cursor: Option<String> = if n == 0 {
            session.cursor
        } else {
            Some(page.rows[n - 1].0.clone())
        };
        self.sessions.put(list_session_id, ListSession { entries: session.entries, cursor });
        Some(page)
    }

    /// Closes a session; says whether there was one.
    pub fn stop_session(&mut self, list_session_id: u64) -> (r: bool)
        requires
            old(self).wf(),
        ensures
            final(self).wf(),
            r == old(self).sessions@.contains_key(list_session_id),
            final(self).sessions@ == old(self).sessions@.remove(list_session_id),
            final(self).next_session_id == old(self).next_session_id,
    {
        match self.sessions.remove(&list_session_id) {
            Some(_) => true,
            None => false,
        }
    }
}

impl Default for ListCache {
    fn default() -> (r: Self)
        ensures
            r.wf(),
            r.next_session_id == 1,
            r.sessions@ == Map::<u64, ListSession>::empty(),
    {
        ListCache::new()
    }
}

fn count_passed(entries: &NameMap<FsMetaListEntry>, cursor: &Option<String>) -> (r: usize)
    ensures
        r <= entries.rows@.len(),
        r == passed(
            entries.rows@,
            match *cursor {
                Some(s) => Some(s@),
                None => None,
            },
        ),
{
    match cursor {
        None => 0,
        Some(c) => {
            let mut i: usize = 0;
            let ghost at: Option<Seq<char>> = Some(c@);
            assert(entries.rows@.skip(0) =~= entries.rows@);
            while i < entries.rows.len() && !text_before(c.as_str(), entries.rows[i].0.as_str())
                invariant
                    0 <= i <= entries.rows@.len(),
                    at == Some(c@),
                    passed(entries.rows@, at) == i + passed(entries.rows@.skip(i as int), at),
                decreases entries.rows@.len() - i,
            {
                assert(entries.rows@.skip(i as int).drop_first() =~= entries.rows@.skip(i + 1));
                i = i + 1;
            }
            i
        },
    }
}

} // verus!
