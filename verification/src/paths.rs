//! Paths: splitting, joining and the expansion of symbolic links.

use vstd::prelude::*;
use crate::text::{begins_with, clone_texts, same_text, starts_with_text, view_all};

verus! {

/// The pieces of `s` between slashes, empty ones included, read from the left.
pub open spec fn segments(s: Seq<char>) -> Seq<Seq<char>>
    decreases s.len(),
{
    if s.len() == 0 {
        seq![Seq::empty()]
    } else {
        let before = segments(s.drop_last());
        if s.last() == '/' {
            before.push(Seq::empty())
        } else {
            before.update(before.len() - 1, before.last().push(s.last()))
        }
    }
}

/// The pieces that are not empty.
pub open spec fn nonempty(pieces: Seq<Seq<char>>) -> Seq<Seq<char>>
    decreases pieces.len(),
{
    if pieces.len() == 0 {
        Seq::empty()
    } else if pieces.last().len() == 0 {
        nonempty(pieces.drop_last())
    } else {
        nonempty(pieces.drop_last()).push(pieces.last())
    }
}

/// The components of a path.
pub open spec fn path_parts(s: Seq<char>) -> Seq<Seq<char>> {
    nonempty(segments(s))
}

/// Each component with a slash before it, one after the other.
pub open spec fn slashed(p: Seq<Seq<char>>) -> Seq<char>
    decreases p.len(),
{
    if p.len() == 0 {
        Seq::empty()
    } else {
        slashed(p.drop_last()) + seq!['/'] + p.last()
    }
}

/// The components with slashes between them.
pub open spec fn between_slashes(p: Seq<Seq<char>>) -> Seq<char> {
    if p.len() == 0 {
        Seq::empty()
    } else {
        slashed(p).drop_first()
    }
}

/// A component that a path can hold as it is.
pub open spec fn plain_part(c: Seq<char>) -> bool {
    c.len() > 0 && !c.contains('/')
}

/// One piece of a link target, applied to the path so far.
pub open spec fn link_step(out: Seq<Seq<char>>, piece: Seq<char>) -> Seq<Seq<char>> {
    if piece.len() == 0 || piece == "."@ {
        out
    } else if piece == ".."@ {
        if out.len() == 0 {
            out
        } else {
            out.drop_last()
        }
    } else {
        out.push(piece)
    }
}

pub open spec fn link_walk(out: Seq<Seq<char>>, pieces: Seq<Seq<char>>) -> Seq<Seq<char>>
    decreases pieces.len(),
{
    if pieces.len() == 0 {
        out
    } else {
        link_step(link_walk(out, pieces.drop_last()), pieces.last())
    }
}

pub open spec fn is_absolute(s: Seq<char>) -> bool {
    s.len() > 0 && s[0] == '/'
}

/// The path that stands for a link under `prefix` with the target `target`,
/// followed by `tail`.
pub open spec fn expanded(
    prefix: Seq<Seq<char>>,
    target: Seq<char>,
    tail: Seq<Seq<char>>,
) -> Seq<Seq<char>> {
    link_walk(
        if is_absolute(target) {
            Seq::empty()
        } else {
            prefix
        },
        segments(target),
    ) + tail
}

pub proof fn lemma_segments_nonempty(s: Seq<char>)
    ensures
        segments(s).len() > 0,
    decreases s.len(),
{
    if s.len() > 0 {
        lemma_segments_nonempty(s.drop_last());
    }
}

/// Splits a text at its slashes.
pub fn split_slashes(s: &str) -> (r: Vec<String>)
    ensures
        view_all(r@) == segments(s@),
{
    let n: usize = s.unicode_len();
    let mut out: Vec<String> = Vec::new();
    let mut cur: String = String::new();
    let mut i: usize = 0;
    proof {
        assert(s@.take(0) =~= Seq::empty());
        assert(view_all(out@).push(cur@) =~= segments(s@.take(0)));
    }
    while i < n
        invariant
            n == s@.len(),
            0 <= i <= n,
            view_all(out@).push(cur@) == segments(s@.take(i as int)),
        decreases n - i,
    {
        let c: char = s.get_char(i);
        proof {
            assert(s@.take(i + 1).drop_last() =~= s@.take(i as int));
            assert(s@.take(i + 1).last() == c);
        }
        if c == '/' {
            let ghost before = view_all(out@);
            let ghost done = cur@;
            out.push(cur);
            cur = String::new();
            assert(view_all(out@) =~= before.push(done));
        } else {
            let one: &str = s.substring_char(i, i + 1);
            let ghost before = cur@;
            cur.append(one);
            proof {
                assert(one@ =~= seq![c]);
                assert(cur@ =~= before.push(c));
                let old_segs = view_all(out@).push(before);
                assert(view_all(out@).push(cur@) =~= old_segs.update(
                    old_segs.len() - 1,
                    old_segs.last().push(c),
                ));
            }
        }
        i = i + 1;
    }
    let ghost before = view_all(out@);
    let ghost done = cur@;
    out.push(cur);
    proof {
        assert(s@.take(n as int) =~= s@);
        assert(view_all(out@) =~= before.push(done));
    }
    out
}

/// The components of a path.
pub fn path_components(s: &str) -> (r: Vec<String>)
    ensures
        view_all(r@) == path_parts(s@),
{
    let pieces: Vec<String> = split_slashes(s);
    let ghost all = view_all(pieces@);
    let mut out: Vec<String> = Vec::new();
    let mut i: usize = 0;
    assert(view_all(out@) =~= nonempty(all.take(0)));
    while i < pieces.len()
        invariant
            0 <= i <= pieces@.len(),
            all == view_all(pieces@),
            view_all(out@) == nonempty(all.take(i as int)),
        decreases pieces@.len() - i,
    {
        proof {
            assert(all.take(i + 1).drop_last() =~= all.take(i as int));
            assert(all.take(i + 1).last() == pieces@[i as int]@);
        }
        if !pieces[i].as_str().is_empty() {
            let ghost before = view_all(out@);
            out.push(pieces[i].clone());
            assert(view_all(out@) =~= before.push(pieces@[i as int]@));
        }
        i = i + 1;
    }
    assert(all.take(all.len() as int) =~= all);
    out
}

/// The path made of the components from `from` on; none where there is no component.
pub fn join_from(components: &Vec<String>, from: usize) -> (r: Option<String>)
    requires
        from <= components@.len(),
    ensures
        match r {
            None => from == components@.len(),
            Some(s) => from < components@.len() && s@ == slashed(
                view_all(components@).skip(from as int),
            ),
        },
{
    let ghost p = view_all(components@).skip(from as int);
    if from == components.len() {
        return None;
    }
    let mut out: String = String::new();
    let mut i: usize = from;
    assert(p.take(0) =~= Seq::empty());
    while i < components.len()
        invariant
            from <= i <= components@.len(),
            p == view_all(components@).skip(from as int),
            out@ == slashed(p.take(i - from)),
        decreases components@.len() - i,
    {
        let ghost before = out@;
        out.append("/");
        out.append(components[i].as_str());
        proof {
            reveal_strlit("/");
            assert("/"@ =~= seq!['/']);
            assert(p.take(i - from + 1).drop_last() =~= p.take(i - from));
            assert(p.take(i - from + 1).last() == components@[i as int]@);
        }
        i = i + 1;
    }
    assert(p.take(p.len() as int) =~= p);
    Some(out)
}

/// The path made of all components; none for the root.
pub fn join_components(components: &Vec<String>) -> (r: Option<String>)
    ensures
        match r {
            None => components@.len() == 0,
            Some(s) => components@.len() > 0 && s@ == slashed(view_all(components@)),
        },
{
    let r: Option<String> = join_from(components, 0);
    assert(view_all(components@).skip(0) =~= view_all(components@));
    r
}

/// All components with slashes between them.
pub fn join_plain(components: &Vec<String>) -> (r: String)
    ensures
        r@ == between_slashes(view_all(components@)),
{
    match join_components(components) {
        None => String::new(),
        Some(s) => {
            proof {
                let p = view_all(components@);
                assert(slashed(p) == slashed(p.drop_last()) + seq!['/'] + p.last());
                assert(s@.subrange(1, s@.len() as int) =~= s@.drop_first());
            }
            let n: usize = s.as_str().unicode_len();
            s.as_str().substring_char(1, n).to_owned()
        },
    }
}

/// Expands a symbolic link: `target` seen from the directory `parent_prefix`,
/// followed by what is left of the path.
pub fn normalize_symlink_target_path(
    parent_prefix: &Vec<String>,
    target_path: &str,
    tail: &Vec<String>,
) -> (r: Vec<String>)
    ensures
        view_all(r@) == expanded(view_all(parent_prefix@), target_path@, view_all(tail@)),
{
    let mut out: Vec<String> = Vec::new();
    let absolute: bool = target_path.unicode_len() > 0 && target_path.get_char(0) == '/';
    if !absolute {
        out = clone_texts(parent_prefix);
    }
    let ghost start = view_all(out@);
    proof {
        if absolute {
            assert(start =~= Seq::empty());
        }
    }
    let pieces: Vec<String> = split_slashes(target_path);
    let ghost all = view_all(pieces@);
    let mut i: usize = 0;
    assert(all.take(0) =~= Seq::empty());
    while i < pieces.len()
        invariant
            0 <= i <= pieces@.len(),
            all == view_all(pieces@),
            view_all(out@) == link_walk(start, all.take(i as int)),
        decreases pieces@.len() - i,
    {
        let ghost before = view_all(out@);
        proof {
            assert(all.take(i + 1).drop_last() =~= all.take(i as int));
            assert(all.take(i + 1).last() == pieces@[i as int]@);
        }
        let piece: &str = pieces[i].as_str();
        if piece.is_empty() || same_text(piece, ".") {
        } else if same_text(piece, "..") {
            let _ = out.pop();
            assert(before.len() > 0 ==> view_all(out@) =~= before.drop_last());
        } else {
            out.push(pieces[i].clone());
            assert(view_all(out@) =~= before.push(pieces@[i as int]@));
        }
        i = i + 1;
    }
    assert(all.take(all.len() as int) =~= all);
    let ghost walked = view_all(out@);
    let mut j: usize = 0;
    assert(walked + view_all(tail@).take(0) =~= walked);
    while j < tail.len()
        invariant
            0 <= j <= tail@.len(),
            view_all(out@) == walked + view_all(tail@).take(j as int),
        decreases tail@.len() - j,
    {
        let ghost before = view_all(out@);
        out.push(tail[j].clone());
        proof {
            let t = view_all(tail@);
            assert(view_all(out@) =~= before.push(t[j as int]));
            assert(t.take(j + 1) =~= t.take(j as int).push(t[j as int]));
            assert(walked + t.take(j + 1) =~= (walked + t.take(j as int)).push(t[j as int]));
        }
        j = j + 1;
    }
    assert(view_all(tail@).take(tail@.len() as int) =~= view_all(tail@));
    out
}

/// A path in the name space.
#[derive(Debug, Clone, PartialEq, Eq)]
pub struct NfsPath(pub String);

impl NfsPath {
    pub fn new(s: String) -> (r: Self)
        ensures
            r == NfsPath(s),
    {
        NfsPath(s)
    }

    pub fn as_str(&self) -> (r: &str)
        ensures
            r@ == self.0@,
    {
        self.0.as_str()
    }

    pub fn components(&self) -> (r: Vec<String>)
        ensures
            view_all(r@) == path_parts(self.0@),
    {
        path_components(self.0.as_str())
    }

    /// Whether the path has no component.
    pub fn is_root(&self) -> (r: bool)
        ensures
            r == (path_parts(self.0@).len() == 0),
    {
        let c: Vec<String> = self.components();
        assert(view_all(c@).len() == c@.len());
        c.len() == 0
    }

    /// The path of the directory and the name in it; none for the root.
    pub fn split_parent_name(&self) -> (r: Option<(NfsPath, String)>)
        ensures
            match r {
                None => path_parts(self.0@).len() == 0,
                Some((parent, name)) => {
                    let parts = path_parts(self.0@);
                    &&& parts.len() > 0
                    &&& name@ == parts.last()
                    &&& parent.0@ == (if parts.len() == 1 {
                        "/"@
                    } else {
                        slashed(parts.drop_last())
                    })
                },
            },
    {
        let mut c: Vec<String> = self.components();
        let ghost parts = view_all(c@);
        match c.pop() {
            None => None,
            Some(name) => {
                assert(view_all(c@) =~= parts.drop_last());
                let parent: String = match join_components(&c) {
                    Some(s) => s,
                    None => "/".to_owned(),
                };
                Some((NfsPath(parent), name))
            },
        }
    }
}

/// `s` without the slashes at its end.
pub open spec fn trimmed(s: Seq<char>) -> Seq<char>
    decreases s.len(),
{
    if s.len() > 0 && s.last() == '/' {
        trimmed(s.drop_last())
    } else {
        s
    }
}

pub fn trim_end_slashes(s: &str) -> (r: &str)
    ensures
        r@ == trimmed(s@),
{
    let n: usize = s.unicode_len();
    let mut k: usize = n;
    assert(s@.take(n as int) =~= s@);
    while k > 0 && s.get_char(k - 1) == '/'
        invariant
            n == s@.len(),
            0 <= k <= n,
            trimmed(s@) == trimmed(s@.take(k as int)),
        decreases k,
    {
        assert(s@.take(k as int).drop_last() =~= s@.take(k - 1));
        assert(s@.take(k as int).last() == s@[k - 1]);
        k = k - 1;
    }
    proof {
        if k > 0 {
            assert(s@.take(k as int).last() == s@[k - 1]);
        }
        assert(s@.take(k as int) =~= s@.subrange(0, k as int));
    }
    s.substring_char(0, k)
}

/// The path of `name` under `parent`.
pub open spec fn child_path(parent: Seq<char>, name: Seq<char>) -> Seq<char> {
    trimmed(parent) + seq!['/'] + name
}

pub fn join_child_path(parent: &NfsPath, name: &str) -> (r: NfsPath)
    ensures
        r.0@ == child_path(parent.0@, name@),
{
    let head: &str = trim_end_slashes(parent.as_str());
    let mut out: String = head.to_owned();
    out.append("/");
    out.append(name);
    proof {
        reveal_strlit("/");
        assert("/"@ =~= seq!['/']);
    }
    NfsPath(out)
}

/// `path` lies strictly below `ancestor`; the root is no ancestor here.
pub open spec fn is_below(path: Seq<char>, ancestor: Seq<char>) -> bool {
    let p = trimmed(path);
    let a = trimmed(ancestor);
    a.len() > 0 && begins_with(p, a + seq!['/'])
}

pub fn is_descendant_path(path: &NfsPath, ancestor: &NfsPath) -> (r: bool)
    ensures
        r == is_below(path.0@, ancestor.0@),
{
    let p: &str = trim_end_slashes(path.as_str());
    let a: &str = trim_end_slashes(ancestor.as_str());
    if a.is_empty() {
        return false;
    }
    let mut with_slash: String = a.to_owned();
    with_slash.append("/");
    proof {
        reveal_strlit("/");
        assert("/"@ =~= seq!['/']);
    }
    starts_with_text(p, with_slash.as_str())
}

pub proof fn lemma_segments_of_plain(s: Seq<char>, c: Seq<char>)
    requires
        !c.contains('/'),
    ensures
        segments(s + c) == segments(s).update(
            segments(s).len() - 1,
            segments(s).last() + c,
        ),
    decreases c.len(),
{
    lemma_segments_nonempty(s);
    let t = segments(s);
    if c.len() == 0 {
        assert(s + c =~= s);
        assert(t.last() + c =~= t.last());
        assert(t.update(t.len() - 1, t.last() + c) =~= t);
    } else {
        let d = c.drop_last();
        assert(!d.contains('/')) by {
            if d.contains('/') {
                let i = choose|i: int| 0 <= i < d.len() && d[i] == '/';
                assert(c[i] == '/');
            }
        }
        assert(c.last() != '/') by {
            assert(c[c.len() - 1] == c.last());
        }
        lemma_segments_of_plain(s, d);
        assert((s + c).drop_last() =~= s + d);
        assert((s + c).last() == c.last());
        let u = segments(s + d);
        assert(u.last() == t.last() + d);
        assert((t.last() + d).push(c.last()) =~= t.last() + c);
        assert(segments(s + c) =~= t.update(t.len() - 1, t.last() + c));
    }
}

pub proof fn lemma_segments_of_slashed(p: Seq<Seq<char>>)
    requires
        forall|i: int| 0 <= i < p.len() ==> plain_part(#[trigger] p[i]),
    ensures
        segments(slashed(p)) == seq![Seq::<char>::empty()] + p,
    decreases p.len(),
{
    if p.len() == 0 {
        assert(segments(slashed(p)) =~= seq![Seq::<char>::empty()] + p);
    } else {
        let q = p.drop_last();
        assert forall|i: int| 0 <= i < q.len() implies plain_part(#[trigger] q[i]) by {
            assert(plain_part(p[i]));
        }
        lemma_segments_of_slashed(q);
        let head = slashed(q) + seq!['/'];
        assert(head.drop_last() =~= slashed(q));
        assert(head.last() == '/');
        assert(segments(head) == segments(slashed(q)).push(Seq::empty()));
        assert(plain_part(p[p.len() - 1]));
        lemma_segments_of_plain(head, p.last());
        let t = segments(head);
        assert(t.last() + p.last() =~= p.last());
        assert(segments(slashed(p)) =~= seq![Seq::<char>::empty()] + p);
    }
}

pub proof fn lemma_nonempty_of_plain(p: Seq<Seq<char>>)
    requires
        forall|i: int| 0 <= i < p.len() ==> plain_part(#[trigger] p[i]),
    ensures
        nonempty(seq![Seq::<char>::empty()] + p) == p,
    decreases p.len(),
{
    let s = seq![Seq::<char>::empty()] + p;
    if p.len() == 0 {
        assert(s.drop_last() =~= Seq::empty());
        assert(s.last().len() == 0);
        assert(nonempty(s.drop_last()) =~= Seq::empty());
        assert(nonempty(s) =~= p);
    } else {
        let q = p.drop_last();
        assert forall|i: int| 0 <= i < q.len() implies plain_part(#[trigger] q[i]) by {
            assert(plain_part(p[i]));
        }
        lemma_nonempty_of_plain(q);
        assert(s.drop_last() =~= seq![Seq::<char>::empty()] + q);
        assert(s.last() == p.last());
        assert(plain_part(p[p.len() - 1]));
        assert(nonempty(s) =~= p);
    }
}

/// Joining components and splitting the path again gives the components back.
pub proof fn law_join_then_split(p: Seq<Seq<char>>)
    requires
        forall|i: int| 0 <= i < p.len() ==> plain_part(#[trigger] p[i]),
    ensures
        path_parts(slashed(p)) == p,
{
    lemma_segments_of_slashed(p);
    lemma_nonempty_of_plain(p);
}

proof fn lemma_segments_are_plain(s: Seq<char>)
    ensures
        forall|i: int| 0 <= i < segments(s).len() ==> !(#[trigger] segments(s)[i]).contains('/'),
    decreases s.len(),
{
    if s.len() > 0 {
        let t = segments(s.drop_last());
        lemma_segments_nonempty(s.drop_last());
        lemma_segments_are_plain(s.drop_last());
        assert forall|i: int| 0 <= i < segments(s).len() implies !(
        #[trigger] segments(s)[i]).contains('/') by {
            if i < t.len() {
                assert(!t[i].contains('/'));
            }
            if segments(s)[i].contains('/') {
                let j = choose|j: int|
                    0 <= j < segments(s)[i].len() && segments(s)[i][j] == '/';
                if s.last() != '/' && i == t.len() - 1 {
                    assert(t.last() == t[t.len() - 1]);
                    if j < t.last().len() {
                        assert(t.last()[j] == '/');
                        assert(t[t.len() - 1].contains('/'));
                    }
                }
            }
        }
    }
}

proof fn lemma_nonempty_members(pieces: Seq<Seq<char>>)
    requires
        forall|i: int| 0 <= i < pieces.len() ==> !(#[trigger] pieces[i]).contains('/'),
    ensures
        forall|i: int| 0 <= i < nonempty(pieces).len() ==> plain_part(#[trigger] nonempty(pieces)[i]),
    decreases pieces.len(),
{
    if pieces.len() > 0 {
        let d = pieces.drop_last();
        assert forall|i: int| 0 <= i < d.len() implies !(#[trigger] d[i]).contains('/') by {
            assert(!pieces[i].contains('/'));
        }
        lemma_nonempty_members(d);
        assert(!pieces[pieces.len() - 1].contains('/'));
        assert forall|i: int| 0 <= i < nonempty(pieces).len() implies plain_part(
            #[trigger] nonempty(pieces)[i],
        ) by {
            if i < nonempty(d).len() {
                assert(plain_part(nonempty(d)[i]));
            }
        }
    }
}

/// Components are never empty and hold no slash.
pub proof fn law_components_are_plain(s: Seq<char>, i: int)
    requires
        0 <= i < path_parts(s).len(),
    ensures
        plain_part(path_parts(s)[i]),
{
    lemma_segments_are_plain(s);
    lemma_nonempty_members(segments(s));
}

/// No component of an expanded link is empty or a dot piece, provided none was
/// in the path around it.
pub proof fn law_expansion_is_clean(
    prefix: Seq<Seq<char>>,
    target: Seq<char>,
    tail: Seq<Seq<char>>,
    i: int,
)
    requires
        forall|j: int| 0 <= j < prefix.len() ==> clean_part(#[trigger] prefix[j]),
        forall|j: int| 0 <= j < tail.len() ==> clean_part(#[trigger] tail[j]),
        0 <= i < expanded(prefix, target, tail).len(),
    ensures
        clean_part(expanded(prefix, target, tail)[i]),
{
    let start = if is_absolute(target) {
        Seq::empty()
    } else {
        prefix
    };
    lemma_link_walk_clean(start, segments(target));
    let w = link_walk(start, segments(target));
    if i < w.len() {
        assert(clean_part(w[i]));
    } else {
        assert(clean_part(tail[i - w.len()]));
    }
}

pub open spec fn clean_part(c: Seq<char>) -> bool {
    c.len() > 0 && c != "."@ && c != ".."@
}

proof fn lemma_link_walk_clean(start: Seq<Seq<char>>, pieces: Seq<Seq<char>>)
    requires
        forall|j: int| 0 <= j < start.len() ==> clean_part(#[trigger] start[j]),
    ensures
        forall|j: int|
            0 <= j < link_walk(start, pieces).len() ==> clean_part(
                #[trigger] link_walk(start, pieces)[j],
            ),
    decreases pieces.len(),
{
    if pieces.len() > 0 {
        lemma_link_walk_clean(start, pieces.drop_last());
        let b = link_walk(start, pieces.drop_last());
        assert forall|j: int| 0 <= j < link_walk(start, pieces).len() implies clean_part(
            #[trigger] link_walk(start, pieces)[j],
        ) by {
            if j < b.len() {
                assert(clean_part(b[j]));
            }
        }
    }
}

/// The target of an absolute link does not depend on where the link stands.
pub proof fn law_absolute_link_ignores_place(
    a: Seq<Seq<char>>,
    b: Seq<Seq<char>>,
    target: Seq<char>,
    tail: Seq<Seq<char>>,
)
    requires
        is_absolute(target),
    ensures
        expanded(a, target, tail) == expanded(b, target, tail),
{
}

/// A path never lies below itself, and two paths never lie below each other.
pub proof fn law_below_is_strict(a: Seq<char>, b: Seq<char>)
    ensures
        !is_below(a, a),
        is_below(a, b) ==> !is_below(b, a),
{
}

} // verus!
