//! Display order for container lists: running containers first, then by
//! first display name.

use vstd::prelude::*;
use vstd::multiset::Multiset;
use vstd::relations::sorted_by;
use crate::models::Container;
use crate::text::{lex_le, lemma_lex_le_total, lemma_lex_le_trans, str_eq, str_lex_le};

verus! {

/// Whether a container is in the running state.
pub open spec fn is_running(c: Container) -> bool {
    c.state@ == "running"@
}

/// The display name a container sorts by: its first name, or the empty
/// string when it has none.
pub open spec fn first_name(c: Container) -> Seq<char> {
    if c.names@.len() == 0 {
        Seq::empty()
    } else {
        c.names@[0]@
    }
}

/// Display order: every running container before every non-running one;
/// within a group, first display names in lexicographic order (an empty name
/// first).
pub open spec fn container_le(a: Container, b: Container) -> bool {
    if is_running(a) && !is_running(b) {
        true
    } else if !is_running(a) && is_running(b) {
        false
    } else {
        lex_le(first_name(a), first_name(b))
    }
}

/// The display order as a relation value, for `sorted_by`.
pub open spec fn container_order() -> spec_fn(Container, Container) -> bool {
    |a: Container, b: Container| container_le(a, b)
}

/// Any two containers are ordered one way or the other.
pub proof fn lemma_container_le_total(a: Container, b: Container)
    ensures
        container_le(a, b) || container_le(b, a),
{
    lemma_lex_le_total(first_name(a), first_name(b));
}

/// The display order is transitive.
pub proof fn lemma_container_le_trans(a: Container, b: Container, c: Container)
    requires
        container_le(a, b),
        container_le(b, c),
    ensures
        container_le(a, c),
{
    if is_running(a) == is_running(b) && is_running(b) == is_running(c) {
        lemma_lex_le_trans(first_name(a), first_name(b), first_name(c));
    }
}

/// Whether `a` comes no later than `b` in display order.
pub fn container_le_exec(a: &Container, b: &Container) -> (r: bool)
    ensures
        r == container_le(*a, *b),
{
    let a_running = str_eq(a.state.as_str(), "running");
    let b_running = str_eq(b.state.as_str(), "running");
    if a_running && !b_running {
        true
    } else if !a_running && b_running {
        false
    } else {
        proof {
            reveal_strlit("");
            assert(""@ =~= Seq::<char>::empty());
        }
        let a_name: &str = if a.names.len() == 0 {
            ""
        } else {
            a.names[0].as_str()
        };
        let b_name: &str = if b.names.len() == 0 {
            ""
        } else {
            b.names[0].as_str()
        };
        str_lex_le(a_name, b_name)
    }
}

/// Sort a container list for display: running containers first, ties broken
/// by first display name.  The result holds exactly the given containers.
/// The contract fixes order and contents only: containers whose state group
/// and first display name compare equal may stand in any order relative to
/// each other.
pub fn sort_containers(list: Vec<Container>) -> (r: Vec<Container>)
    ensures
        sorted_by(r@, container_order()),
        r@.to_multiset() == list@.to_multiset(),
{
    broadcast use vstd::seq_lib::group_to_multiset_ensures;
    broadcast use vstd::multiset::group_multiset_axioms;

    let ghost orig = list@;
    let mut rest = list;
    let mut out: Vec<Container> = Vec::new();
    proof {
        assert(out@.to_multiset().add(rest@.to_multiset()) =~= orig.to_multiset());
    }
    while rest.len() > 0
        invariant
            sorted_by(out@, container_order()),
            out@.to_multiset().add(rest@.to_multiset()) == orig.to_multiset(),
        decreases rest@.len(),
    {
        let ghost rest0 = rest@;
        let c = rest.remove(0);
        proof {
            assert(rest@ =~= rest0.drop_first());
            assert(rest0.drop_first() =~= rest0.remove(0));
        }
        let mut pos: usize = 0;
        while pos < out.len() && container_le_exec(&out[pos], &c)
            invariant
                pos <= out@.len(),
                forall|i: int| 0 <= i < pos ==> container_le(#[trigger] out@[i], c),
            decreases out@.len() - pos,
        {
            pos += 1;
        }
        let ghost out0 = out@;
        out.insert(pos, c);
        proof {
            if (pos as int) < out0.len() {
                lemma_container_le_total(out0[pos as int], c);
            }
            assert forall|i: int, j: int| 0 <= i < j < out@.len() implies container_order()(
                out@[i],
                out@[j],
            ) by {
                if j < pos {
                    assert(out@[i] == out0[i] && out@[j] == out0[j]);
                    assert(container_order()(out0[i], out0[j]));
                } else if j == pos {
                    assert(out@[j] == c && out@[i] == out0[i]);
                    assert(container_le(out0[i], c));
                } else if i < pos {
                    assert(out@[i] == out0[i] && out@[j] == out0[j - 1]);
                    assert(container_order()(out0[i], out0[j - 1]));
                } else if i == pos {
                    assert(out@[i] == c && out@[j] == out0[j - 1]);
                    assert(container_le(c, out0[pos as int]));
                    if (pos as int) < j - 1 {
                        assert(container_order()(out0[pos as int], out0[j - 1]));
                        lemma_container_le_trans(c, out0[pos as int], out0[j - 1]);
                    }
                } else {
                    assert(out@[i] == out0[i - 1] && out@[j] == out0[j - 1]);
                    assert(container_order()(out0[i - 1], out0[j - 1]));
                }
            }
            vstd::seq_lib::to_multiset_insert(out0, pos as int, c);
            vstd::seq_lib::to_multiset_remove(rest0, 0);
            assert(rest0.to_multiset().count(c) > 0) by {
                assert(rest0.contains(c)) by {
                    assert(rest0[0] == c);
                }
                vstd::seq_lib::to_multiset_contains(rest0, c);
            }
            assert(out@.to_multiset().add(rest@.to_multiset()) =~= out0.to_multiset().add(
                rest0.to_multiset(),
            ));
        }
    }
    proof {
        assert(rest@.to_multiset() =~= Multiset::<Container>::empty());
        assert(out@.to_multiset().add(Multiset::<Container>::empty()) =~= out@.to_multiset());
        assert(out@.to_multiset() =~= orig.to_multiset());
    }
    out
}

/// Law: in a display-sorted list, every running container precedes every
/// non-running one, and within each group the first display names are
/// lexicographically non-decreasing.
pub proof fn lemma_sorted_display_order(s: Seq<Container>)
    requires
        sorted_by(s, container_order()),
    ensures
        forall|i: int, j: int|
            0 <= i < j < s.len() && !(#[trigger] is_running(s[i])) ==> !(#[trigger] is_running(
                s[j],
            )),
        forall|i: int, j: int|
            0 <= i < j < s.len() && is_running(s[i]) == is_running(s[j]) ==> lex_le(
                #[trigger] first_name(s[i]),
                #[trigger] first_name(s[j]),
            ),
{
    assert forall|i: int, j: int|
        0 <= i < j < s.len() && !(#[trigger] is_running(s[i])) implies !(#[trigger] is_running(
        s[j],
    )) by {
        assert(container_order()(s[i], s[j]));
    }
    assert forall|i: int, j: int|
        0 <= i < j < s.len() && is_running(s[i]) == is_running(s[j]) implies lex_le(
        #[trigger] first_name(s[i]),
        #[trigger] first_name(s[j]),
    ) by {
        assert(container_order()(s[i], s[j]));
    }
}

} // verus!
