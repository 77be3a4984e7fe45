//! What the small questions come to that every request asks: which targets are
//! the same, what an inode is, what a base has, who holds a session.

use vstd::prelude::*;
use crate::buffer_laws::{lemma_decimal_digits, lemma_decimal_injective};
use crate::errors::MetaError;
use crate::outside::{
    base_child, base_kids, kids_of, BaseChildLookup, BaseReply, BaseStoreView, DirReply, Question,
    Stop,
};
use crate::records::{kind_of, same_target, DentryTarget, NodeKind, NodeRecord, NodeState, ObjId};
use crate::resolve::{base_look, Look};
use crate::service::txid_text;
use crate::table::Key;
use crate::text::decimal;
use crate::writer::session_text;

verus! {

/// Two targets are the same where they are the same inode, name the same object
/// or lead to the same path, or both hide the name.
pub proof fn law_targets_are_told_apart(a: DentryTarget, b: DentryTarget)
    ensures
        same_target(a, b) <==> {
            ||| (a matches DentryTarget::IndexNodeId(x) && (b matches DentryTarget::IndexNodeId(y)
                && x == y))
            ||| (a matches DentryTarget::ObjId(x) && (b matches DentryTarget::ObjId(y)
                && x.obj_type@ == y.obj_type@ && x.obj_hash@ == y.obj_hash@))
            ||| (a matches DentryTarget::SymLink(x) && (b matches DentryTarget::SymLink(y) && x@
                == y@))
            ||| (a is Tombstone && b is Tombstone)
        },
{
}

/// What an inode is: a directory or a file while it is in use, and afterwards what
/// the object is that it was published as.
pub proof fn law_inode_is_what_it_holds(state: NodeState)
    ensures
        kind_of(NodeState::DirNormal) == NodeKind::Dir,
        kind_of(NodeState::DirOverlay) == NodeKind::Dir,
        kind_of(NodeState::FileNormal) == NodeKind::File,
        state is Working || state is Cooling ==> kind_of(state) == NodeKind::File,
        ({
            let published = match state {
                NodeState::Linked(s) => Some(s.obj_id),
                NodeState::Finalized(s) => Some(s.obj_id),
                _ => None,
            };
            published matches Some(o) ==> kind_of(state) == if o.obj_type@ == "cydir"@ {
                NodeKind::Dir
            } else if o.obj_type@ == "cyfile"@ {
                NodeKind::File
            } else {
                NodeKind::Object
            }
        }),
{
}

/// What the base of an inode has under a name is what the store said of it: the
/// child, that there is none, or why it cannot tell.  Where it was not asked yet
/// it is to be asked; an inode without a base has nothing under it.
pub proof fn law_store_decides_what_a_base_has(base: BaseStoreView, node: NodeRecord, name: String)
    ensures
        node.base_obj_id is None ==> base_child(base, node, name) == Ok::<BaseChildLookup, Stop>(
            BaseChildLookup::Missing,
        ),
        node.base_obj_id matches Some(dir) ==> {
            let k = (dir.model(), name@);
            let r = base_child(base, node, name);
            if dir.obj_type@ != "cydir"@ {
                r == Err::<BaseChildLookup, Stop>(
                    Stop::Refused(MetaError::InvalidBaseType { obj_type: dir.obj_type }),
                )
            } else if !base.configured {
                r == Err::<BaseChildLookup, Stop>(Stop::Refused(MetaError::NoStoreForBase))
            } else if !base.children.contains_key(k) {
                r == Err::<BaseChildLookup, Stop>(Stop::Ask(Question::BaseChild { dir, name }))
            } else {
                match base.children[k] {
                    BaseReply::Missing => r == Ok::<BaseChildLookup, Stop>(
                        BaseChildLookup::Missing,
                    ),
                    BaseReply::Found(o) => r == Ok::<BaseChildLookup, Stop>(
                        if o.obj_type@ == "cydir"@ {
                            BaseChildLookup::DirObj(o)
                        } else {
                            BaseChildLookup::NonDirObj(o)
                        },
                    ),
                    BaseReply::Failed(cause) => r == Err::<BaseChildLookup, Stop>(
                        Stop::Refused(MetaError::BaseLookupFailed { cause }),
                    ),
                }
            }
        },
{
}

/// Walking a path finds in a base what the requests on names find in it.
pub proof fn law_walks_see_the_same_base(base: BaseStoreView, node: NodeRecord, name: String)
    ensures
        match (base_child(base, node, name), base_look(base, node, name@)) {
            (Ok(BaseChildLookup::Missing), x) => x is Missing,
            (Ok(BaseChildLookup::DirObj(o)), x) => x == Look::Child(o),
            (Ok(BaseChildLookup::NonDirObj(o)), x) => x == Look::Child(o),
            (Err(Stop::Refused(e)), x) => x == Look::Refused(e),
            (Err(Stop::Ask(q)), x) => x matches Look::Unknown(o) && q == (Question::BaseChild {
                dir: o,
                name,
            }),
        },
{
}

/// All that a base has is what the store listed; where it was not asked yet it is
/// to be asked.
pub proof fn law_store_decides_what_a_base_lists(base: BaseStoreView, node: NodeRecord)
    ensures
        node.base_obj_id is None ==> base_kids(base, node) == Ok::<Map<Seq<char>, ObjId>, Stop>(
            Map::empty(),
        ),
        node.base_obj_id matches Some(dir) ==> {
            let r = base_kids(base, node);
            if dir.obj_type@ != "cydir"@ {
                r == Err::<Map<Seq<char>, ObjId>, Stop>(
                    Stop::Refused(MetaError::InvalidBaseType { obj_type: dir.obj_type }),
                )
            } else if !base.configured {
                r == Err::<Map<Seq<char>, ObjId>, Stop>(Stop::Refused(MetaError::NoStoreForBase))
            } else if !base.listings.contains_key(dir.model()) {
                r == Err::<Map<Seq<char>, ObjId>, Stop>(
                    Stop::Ask(Question::BaseChildren { dir }),
                )
            } else {
                match base.listings[dir.model()] {
                    DirReply::Children(list) => r == Ok::<Map<Seq<char>, ObjId>, Stop>(
                        kids_of(list@),
                    ),
                    DirReply::Failed(step, cause) => r == Err::<Map<Seq<char>, ObjId>, Stop>(
                        Stop::Refused(MetaError::BaseLoadFailed { step, cause }),
                    ),
                }
            }
        },
{
}

/// Two texts that end in the same way behind a mark that no digit is end in the
/// same number.
proof fn lemma_same_number(a: Seq<char>, m: nat, b: Seq<char>, n: nat, mark: char)
    requires
        a + seq![mark] + decimal(m) == b + seq![mark] + decimal(n),
        mark == '-' || mark == ':',
    ensures
        m == n,
{
    let s = a + seq![mark] + decimal(m);
    let t = b + seq![mark] + decimal(n);
    let x = decimal(m);
    let y = decimal(n);
    let len = s.len();
    assert(s[len - x.len() - 1] == mark);
    assert(t[len - y.len() - 1] == mark);
    if x.len() < y.len() {
        let i = y.len() - x.len() - 1;
        lemma_decimal_digits(n, i);
        assert(t[len - x.len() - 1] == y[i]);
    } else if y.len() < x.len() {
        let i = x.len() - y.len() - 1;
        lemma_decimal_digits(m, i);
        assert(s[len - y.len() - 1] == x[i]);
    } else {
        assert forall|i: int| 0 <= i < x.len() implies x[i] == y[i] by {
            assert(s[len - x.len() + i] == x[i]);
            assert(t[len - x.len() + i] == y[i]);
        }
        assert(x =~= y);
        lemma_decimal_injective(m, n);
    }
}

/// Two files are never written under one session.
pub proof fn law_files_have_sessions_of_their_own(
    instance: Seq<char>,
    other: Seq<char>,
    a: u64,
    b: u64,
)
    requires
        session_text(instance, a) == session_text(other, b),
    ensures
        a == b,
        instance == other,
{
    reveal_strlit(":");
    assert(":"@ =~= seq![':']);
    lemma_same_number(instance, a as nat, other, b as nat, ':');
    let s = session_text(instance, a);
    let t = session_text(other, b);
    assert(s.len() == instance.len() + 1 + decimal(a as nat).len());
    assert(t.len() == other.len() + 1 + decimal(b as nat).len());
    assert(instance.len() == other.len());
    assert forall|i: int| 0 <= i < instance.len() implies instance[i] == other[i] by {
        assert(s[i] == instance[i]);
        assert(t[i] == other[i]);
    }
    assert(instance =~= other);
}

/// Two transactions with different numbers have different ids, whenever they were
/// begun.
pub proof fn law_transactions_have_ids_of_their_own(now: u64, seq: u64, later: u64, other: u64)
    requires
        txid_text(now, seq) == txid_text(later, other),
    ensures
        seq == other,
{
    reveal_strlit("-");
    reveal_strlit("tx-");
    assert("-"@ =~= seq!['-']);
    lemma_same_number(
        "tx-"@ + decimal(now as nat),
        seq as nat,
        "tx-"@ + decimal(later as nat),
        other as nat,
        '-',
    );
}

} // verus!
