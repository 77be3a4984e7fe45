//! What holds after directories have been made along a path.

use vstd::prelude::*;
use crate::committed::{installs, settled};
use crate::ensure::{dir_step, makes_dirs, step_made, DirAnswer, DirStep, When};
use crate::outside::BaseStoreView;
use crate::path_cache::{CacheView, Path};
use crate::records::{kind_of, NodeKind};
use crate::resolve_laws::{follows, hop};
use crate::tables::TablesView;
use crate::text::view_all;

verus! {

pub open spec fn is_dir_inode(v: TablesView, id: u64) -> bool {
    v.inode(id) matches Some(node) && kind_of(node.state) == NodeKind::Dir
}

/// A directory made for one component is a directory, stands under its name,
/// and takes nothing else away.
proof fn lemma_step_made(
    v: TablesView,
    base: BaseStoreView,
    p: Path,
    i: int,
    cur: u64,
    name: String,
    at: When,
)
    requires
        v.inv(),
        0 <= i < p.len(),
        name@ == p[i],
    ensures
        ({
            let step = dir_step(v, base, p, i, cur);
            (step is Make || step is Lay) ==> match step_made(v, step, cur, name, at) {
                Ok(made) => {
                    &&& settled(made.0).inv()
                    &&& made.0.root == v.root
                    &&& hop(settled(made.0), cur, name@) == Some(made.1)
                    &&& is_dir_inode(settled(made.0), made.1)
                    &&& hop(v, cur, name@) is None
                    &&& forall|dir: u64, n: Seq<char>|
                        (dir, n) != (cur, name@) ==> #[trigger] hop(settled(made.0), dir, n) == hop(
                            v,
                            dir,
                            n,
                        )
                },
                Err(_) => true,
            }
        }),
{
}

/// When directories were made along a path, the path leads through entries to
/// the inode that was returned, and that inode is a directory.
pub proof fn law_made_dirs_are_there(
    v: TablesView,
    c: CacheView,
    base: BaseStoreView,
    comps: Seq<String>,
    i: int,
    ids: Seq<u64>,
    at: When,
    w: TablesView,
    d: CacheView,
    id: u64,
)
    requires
        v.inv(),
        0 <= i <= comps.len(),
        ids.len() == i + 1,
        follows(v, ids, view_all(comps).take(i)),
        is_dir_inode(v, ids.last()),
        makes_dirs(v, c, base, comps, i, ids.last(), at, w, d, DirAnswer::Dir(id)),
    ensures
        w.inv(),
        is_dir_inode(w, id),
        exists|full: Seq<u64>| #[trigger] follows(w, full, view_all(comps)) && full.len()
            == comps.len() + 1 && full.last() == id,
    decreases comps.len() - i,
{
    let p = view_all(comps);
    let cur = ids.last();
    if i >= comps.len() {
        assert(p.take(i) =~= p);
        assert(follows(w, ids, p) && ids.len() == comps.len() + 1 && ids.last() == id);
    } else {
        let step = dir_step(v, base, p, i, cur);
        let head = p.take(i);
        let next = p.take(i + 1);
        assert forall|j: int| 0 <= j < i implies head[j] == #[trigger] next[j] by {}
        match step {
            DirStep::End(end) => {},
            DirStep::Down(down) => {
                let more = ids.push(down);
                assert(hop(v, cur, p[i]) == Some(down));
                assert(follows(v, more, next)) by {
                    assert forall|j: int| 0 <= j < next.len() implies hop(
                        v,
                        more[j],
                        #[trigger] next[j],
                    ) == Some(more[j + 1]) by {
                        if j < i {
                            assert(hop(v, ids[j], head[j]) == Some(ids[j + 1]));
                        }
                    }
                }
                law_made_dirs_are_there(v, c, base, comps, i + 1, more, at, w, d, id);
            },
            _ => {
                lemma_step_made(v, base, p, i, cur, comps[i], at);
                let made = step_made(v, step, cur, comps[i], at)->Ok_0;
                let x = settled(made.0);
                let m = choose|m: CacheView| #[trigger]
                    installs(c, made.0, m) && makes_dirs(
                        x,
                        m,
                        base,
                        comps,
                        i + 1,
                        made.1,
                        at,
                        w,
                        d,
                        DirAnswer::Dir(id),
                    );
                let more = ids.push(made.1);
                assert(follows(x, more, next)) by {
                    assert forall|j: int| 0 <= j < next.len() implies hop(
                        x,
                        more[j],
                        #[trigger] next[j],
                    ) == Some(more[j + 1]) by {
                        if j < i {
                            assert(hop(v, ids[j], head[j]) == Some(ids[j + 1]));
                        }
                    }
                }
                law_made_dirs_are_there(x, m, base, comps, i + 1, more, at, w, d, id);
            },
        }
    }
}

/// Making directories where all of them exist changes nothing.
pub proof fn law_existing_dirs_stay(
    v: TablesView,
    c: CacheView,
    base: BaseStoreView,
    comps: Seq<String>,
    i: int,
    ids: Seq<u64>,
    at: When,
    w: TablesView,
    d: CacheView,
    a: DirAnswer,
)
    requires
        0 <= i <= comps.len(),
        ids.len() == comps.len() + 1,
        follows(v, ids, view_all(comps)),
        forall|j: int| 0 <= j < ids.len() ==> is_dir_inode(v, #[trigger] ids[j]),
        makes_dirs(v, c, base, comps, i, ids[i], at, w, d, a),
    ensures
        w == v,
        d == c,
        a == DirAnswer::Dir(ids.last()),
    decreases comps.len() - i,
{
    let p = view_all(comps);
    if i < comps.len() {
        assert(hop(v, ids[i], p[i]) == Some(ids[i + 1]));
        assert(is_dir_inode(v, ids[i + 1]));
        assert(dir_step(v, base, p, i, ids[i]) == DirStep::Down(ids[i + 1]));
        law_existing_dirs_stay(v, c, base, comps, i + 1, ids, at, w, d, a);
    }
}

} // verus!
