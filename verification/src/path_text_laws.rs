//! What splitting and joining paths and expanding links come to.

use vstd::prelude::*;
use crate::paths::{
    child_path, clean_part, expanded, is_below, lemma_segments_nonempty, lemma_segments_of_plain,
    link_walk, nonempty, path_parts, plain_part, segments, trimmed,
};

verus! {

/// Splitting one text behind a slash of another.
proof fn lemma_segments_joined(a: Seq<char>, b: Seq<char>)
    ensures
        segments(a + seq!['/'] + b) == segments(a) + segments(b),
    decreases b.len(),
{
    let s = a + seq!['/'] + b;
    if b.len() == 0 {
        assert(s.drop_last() =~= a);
        assert(s.last() == '/');
        assert(segments(s) =~= segments(a) + segments(b));
    } else {
        let c = b.drop_last();
        assert(s.drop_last() =~= a + seq!['/'] + c);
        assert(s.last() == b.last());
        lemma_segments_joined(a, c);
        lemma_segments_nonempty(c);
        let before = segments(a) + segments(c);
        assert(before.last() == segments(c).last());
        assert(segments(s) =~= segments(a) + segments(b));
    }
}

proof fn lemma_nonempty_joined(a: Seq<Seq<char>>, b: Seq<Seq<char>>)
    ensures
        nonempty(a + b) == nonempty(a) + nonempty(b),
    decreases b.len(),
{
    if b.len() == 0 {
        assert(a + b =~= a);
        assert(nonempty(a) + nonempty(b) =~= nonempty(a));
    } else {
        assert((a + b).drop_last() =~= a + b.drop_last());
        assert((a + b).last() == b.last());
        lemma_nonempty_joined(a, b.drop_last());
        assert(nonempty(a + b) =~= nonempty(a) + nonempty(b));
    }
}

/// A path behind a slash adds its components to those before it.
pub proof fn law_joined_paths_have_both_parts(a: Seq<char>, b: Seq<char>)
    ensures
        path_parts(a + seq!['/'] + b) == path_parts(a) + path_parts(b),
{
    lemma_segments_joined(a, b);
    lemma_nonempty_joined(segments(a), segments(b));
}

/// A name without a slash is one component.
pub proof fn law_name_is_one_part(name: Seq<char>)
    requires
        plain_part(name),
    ensures
        path_parts(name) == seq![name],
{
    let e = Seq::<char>::empty();
    lemma_segments_of_plain(e, name);
    assert(e + name =~= name);
    assert(segments(e) =~= seq![e]);
    assert(segments(name) =~= seq![name]);
    assert(segments(name).drop_last() =~= Seq::empty());
    assert(nonempty(segments(name).drop_last()) =~= Seq::empty());
    assert(path_parts(name) =~= seq![name]);
}

/// Trailing slashes say nothing.
pub proof fn law_trailing_slashes_say_nothing(s: Seq<char>)
    ensures
        path_parts(trimmed(s)) == path_parts(s),
        trimmed(s).len() > 0 ==> trimmed(s).last() != '/',
    decreases s.len(),
{
    if s.len() > 0 && s.last() == '/' {
        let a = s.drop_last();
        let e = Seq::<char>::empty();
        assert(s =~= a + seq!['/'] + e);
        law_joined_paths_have_both_parts(a, e);
        assert(segments(e) =~= seq![e]);
        assert(seq![e].drop_last() =~= Seq::<Seq<char>>::empty());
        assert(seq![e].last().len() == 0);
        assert(nonempty(seq![e].drop_last()) =~= Seq::<Seq<char>>::empty());
        assert(nonempty(seq![e]) =~= Seq::<Seq<char>>::empty());
        assert(path_parts(a) + path_parts(e) =~= path_parts(a));
        law_trailing_slashes_say_nothing(a);
    }
}

/// The path of a child has the components of its directory and then the name.
pub proof fn law_child_path_adds_the_name(dir: Seq<char>, name: Seq<char>)
    requires
        plain_part(name),
    ensures
        path_parts(child_path(dir, name)) == path_parts(dir).push(name),
{
    law_joined_paths_have_both_parts(trimmed(dir), name);
    law_trailing_slashes_say_nothing(dir);
    law_name_is_one_part(name);
    assert(path_parts(dir) + seq![name] =~= path_parts(dir).push(name));
}

proof fn lemma_link_walk_joined(
    start: Seq<Seq<char>>,
    a: Seq<Seq<char>>,
    b: Seq<Seq<char>>,
)
    ensures
        link_walk(start, a + b) == link_walk(link_walk(start, a), b),
    decreases b.len(),
{
    if b.len() == 0 {
        assert(a + b =~= a);
    } else {
        assert((a + b).drop_last() =~= a + b.drop_last());
        assert((a + b).last() == b.last());
        lemma_link_walk_joined(start, a, b.drop_last());
    }
}

proof fn lemma_link_walk_of_clean(start: Seq<Seq<char>>, pieces: Seq<Seq<char>>)
    requires
        forall|i: int|
            0 <= i < nonempty(pieces).len() ==> clean_part(#[trigger] nonempty(pieces)[i]),
    ensures
        link_walk(start, pieces) == start + nonempty(pieces),
    decreases pieces.len(),
{
    if pieces.len() == 0 {
        assert(start + nonempty(pieces) =~= start);
    } else {
        let init = pieces.drop_last();
        assert forall|i: int| 0 <= i < nonempty(init).len() implies clean_part(
            #[trigger] nonempty(init)[i],
        ) by {
            assert(clean_part(nonempty(pieces)[i]));
        }
        lemma_link_walk_of_clean(start, init);
        if pieces.last().len() > 0 {
            let n = nonempty(pieces);
            assert(clean_part(n[n.len() - 1]));
            assert((start + nonempty(init)).push(pieces.last()) =~= start + n);
        }
    }
}

/// A link leads where its text says: without dots, a relative target continues
/// the directory that the link is in, an absolute one starts at the root, and
/// what was left of the path comes behind.
pub proof fn law_plain_link_leads_down(
    prefix: Seq<Seq<char>>,
    target: Seq<char>,
    tail: Seq<Seq<char>>,
)
    requires
        forall|i: int|
            0 <= i < path_parts(target).len() ==> clean_part(#[trigger] path_parts(target)[i]),
    ensures
        target.len() > 0 && target[0] == '/' ==> expanded(prefix, target, tail) == path_parts(
            target,
        ) + tail,
        target.len() == 0 || target[0] != '/' ==> expanded(prefix, target, tail) == prefix
            + path_parts(target) + tail,
{
    let e = Seq::<Seq<char>>::empty();
    let pieces = segments(target);
    assert forall|i: int| 0 <= i < nonempty(pieces).len() implies clean_part(
        #[trigger] nonempty(pieces)[i],
    ) by {
        assert(clean_part(path_parts(target)[i]));
    }
    lemma_link_walk_of_clean(prefix, pieces);
    lemma_link_walk_of_clean(e, pieces);
    assert(e + path_parts(target) =~= path_parts(target));
}

/// Two dots in front lead out of the directory that the link is in; one dot
/// leads nowhere; at the root two dots lead nowhere either.
pub proof fn law_dots_lead_up(prefix: Seq<Seq<char>>, rest: Seq<char>, tail: Seq<Seq<char>>)
    requires
        rest.len() == 0 || rest[0] != '/',
    ensures
        prefix.len() > 0 ==> expanded(prefix, seq!['.', '.', '/'] + rest, tail) == expanded(
            prefix.drop_last(),
            rest,
            tail,
        ),
        prefix.len() == 0 ==> expanded(prefix, seq!['.', '.', '/'] + rest, tail) == expanded(
            prefix,
            rest,
            tail,
        ),
        expanded(prefix, seq!['.', '/'] + rest, tail) == expanded(prefix, rest, tail),
{
    reveal_strlit(".");
    reveal_strlit("..");
    let one = seq!['.'];
    let two = seq!['.', '.'];
    assert("."@ =~= one);
    assert(".."@ =~= two);
    let e = Seq::<char>::empty();
    assert(segments(e) =~= seq![e]);
    assert(!two.contains('/'));
    assert(!one.contains('/'));
    lemma_segments_of_plain(e, one);
    lemma_segments_of_plain(e, two);
    assert(e + one =~= one);
    assert(e + two =~= two);
    assert(segments(one) =~= seq![one]);
    assert(segments(two) =~= seq![two]);
    assert(seq!['.', '.', '/'] + rest =~= two + seq!['/'] + rest);
    assert(seq!['.', '/'] + rest =~= one + seq!['/'] + rest);
    lemma_segments_joined(two, rest);
    lemma_segments_joined(one, rest);
    lemma_link_walk_joined(prefix, seq![two], segments(rest));
    lemma_link_walk_joined(prefix, seq![one], segments(rest));
    assert(seq![two].drop_last() =~= Seq::<Seq<char>>::empty());
    assert(seq![one].drop_last() =~= Seq::<Seq<char>>::empty());
    assert(link_walk(prefix, seq![two].drop_last()) == prefix);
    assert(link_walk(prefix, seq![one].drop_last()) == prefix);
}

/// Whatever follows a link comes behind what it leads to.
pub proof fn law_link_keeps_the_tail(
    prefix: Seq<Seq<char>>,
    target: Seq<char>,
    tail: Seq<Seq<char>>,
)
    ensures
        expanded(prefix, target, tail) == expanded(prefix, target, Seq::empty()) + tail,
{
    let w = expanded(prefix, target, Seq::empty());
    assert(w + tail =~= expanded(prefix, target, tail));
}

/// What lies below a directory is what continues its path behind a slash.
pub proof fn law_below_continues_the_path(dir: Seq<char>, rest: Seq<char>)
    requires
        dir.len() > 0,
        dir.last() != '/',
        rest.len() > 0,
        rest.last() != '/',
    ensures
        is_below(dir + seq!['/'] + rest, dir),
        is_below(dir + seq!['/'] + rest, dir + seq!['/']),
        !is_below(dir + rest, dir) || rest[0] == '/',
{
    let p = dir + seq!['/'] + rest;
    assert(p.last() == rest.last());
    assert(trimmed(p) == p);
    assert(trimmed(dir) == dir);
    let d = dir + seq!['/'];
    assert(d.drop_last() =~= dir);
    assert(trimmed(d) == dir);
    assert(p.take(d.len() as int) =~= d);
    assert forall|i: int| 0 <= i < d.len() implies p[i] == d[i] by {}
    assert((dir + rest).last() == rest.last());
    assert(trimmed(dir + rest) == dir + rest);
    assert((dir + rest)[dir.len() as int] == rest[0]);
    if is_below(dir + rest, dir) {
        assert(d[dir.len() as int] == '/');
        assert((dir + rest)[dir.len() as int] == d[dir.len() as int]);
    }
}

} // verus!
