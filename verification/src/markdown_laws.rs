//! What holds of the ids that headings are given: the id of a heading is
//! never one that is taken, so no two headings of a document share an id.

use vstd::prelude::*;
use crate::markdown::{
    after_event, candidate_id, decimal, digit_char, heading_id, slugified, state_after, unused_id,
    KindView, RenderState,
};
use crate::render::TocView;

verus! {

/// The number that a digit stands for.
pub open spec fn digit_value(c: char) -> nat {
    if c == '1' {
        1
    } else if c == '2' {
        2
    } else if c == '3' {
        3
    } else if c == '4' {
        4
    } else if c == '5' {
        5
    } else if c == '6' {
        6
    } else if c == '7' {
        7
    } else if c == '8' {
        8
    } else if c == '9' {
        9
    } else {
        0
    }
}

/// The number that decimal digits stand for.
pub open spec fn number_of(digits: Seq<char>) -> nat
    decreases digits.len(),
{
    if digits.len() == 0 {
        0
    } else {
        number_of(digits.drop_last()) * 10 + digit_value(digits.last())
    }
}

/// The decimal digits of a number stand for that number.
pub proof fn lemma_number_of_decimal(n: nat)
    ensures
        number_of(decimal(n)) == n,
        decimal(n).len() >= 1,
    decreases n,
{
    if n < 10 {
        let d = decimal(n);
        assert(d.drop_last() =~= Seq::<char>::empty());
        assert(number_of(d.drop_last()) == 0);
    } else {
        lemma_number_of_decimal(n / 10);
        let d = decimal(n);
        assert(d.drop_last() =~= decimal(n / 10));
        assert(d.last() == digit_char(n % 10));
    }
}

/// Different numbers have different candidates.
pub proof fn lemma_candidates_differ(base: Seq<char>, i: nat, j: nat)
    requires
        i != j,
    ensures
        candidate_id(base, i) != candidate_id(base, j),
{
    lemma_number_of_decimal(i);
    lemma_number_of_decimal(j);
    let a = candidate_id(base, i);
    let b = candidate_id(base, j);
    if i != 0 && j != 0 {
        if a == b {
            assert(a.skip(base.len() as int + 1) =~= decimal(i));
            assert(b.skip(base.len() as int + 1) =~= decimal(j));
        }
    } else if i == 0 {
        assert(b.len() == base.len() + 1 + decimal(j).len());
    } else {
        assert(a.len() == base.len() + 1 + decimal(i).len());
    }
}

/// Among the first candidates, one more than there are ids in use, one is
/// not in use.
pub proof fn lemma_some_candidate_unused(base: Seq<char>, used: Seq<Seq<char>>)
    ensures
        exists|i: nat| i <= used.len() && !used.contains(#[trigger] candidate_id(base, i)),
    decreases used.len(),
{
    let n = used.len();
    if n == 0 {
        assert(!used.contains(candidate_id(base, 0)));
    } else if used.contains(candidate_id(base, n)) {
        let last = candidate_id(base, n);
        let k = choose|k: int| 0 <= k < used.len() && used[k] == last;
        let rest = used.remove(k);
        lemma_some_candidate_unused(base, rest);
        let i = choose|i: nat| i <= rest.len() && !rest.contains(#[trigger] candidate_id(base, i));
        lemma_candidates_differ(base, i, n);
        if used.contains(candidate_id(base, i)) {
            let m = choose|m: int| 0 <= m < used.len() && used[m] == candidate_id(base, i);
            assert(m != k);
            if m < k {
                assert(rest[m] == used[m]);
            } else {
                assert(rest[m - 1] == used[m]);
            }
            assert(false);
        }
    }
}

/// The search for an id ends at a candidate that is not in use, where there
/// is one among those that it tries.
proof fn lemma_unused_id(base: Seq<char>, used: Seq<Seq<char>>, suffix: nat, tries: nat, free: nat)
    requires
        suffix <= free <= suffix + tries,
        !used.contains(candidate_id(base, free)),
    ensures
        !used.contains(unused_id(base, used, suffix, tries)),
    decreases tries,
{
    if tries > 0 && used.contains(candidate_id(base, suffix)) {
        lemma_unused_id(base, used, suffix + 1, (tries - 1) as nat, free);
    }
}

/// The id that a heading is given is not in use.
pub proof fn lemma_heading_id_fresh(base: Seq<char>, used: Seq<Seq<char>>)
    ensures
        !used.contains(heading_id(base, used)),
{
    lemma_some_candidate_unused(base, used);
    let free = choose|i: nat| i <= used.len() && !used.contains(#[trigger] candidate_id(base, i));
    lemma_unused_id(base, used, 0, used.len(), free);
}

/// Whether the headings of a table of contents have ids of their own: each
/// id is taken, and no two headings share one.
pub open spec fn ids_of_their_own(state: RenderState) -> bool {
    &&& forall|i: int|
        0 <= i < state.toc.len() ==> state.used_ids.contains((#[trigger] state.toc[i]).id)
    &&& forall|i: int, j: int|
        0 <= i < j < state.toc.len() ==> (#[trigger] state.toc[i]).id != (
        #[trigger] state.toc[j]).id
}

/// Reading one more event keeps the ids of the headings apart.
pub proof fn lemma_after_event_ids(state: RenderState, kind: KindView)
    requires
        ids_of_their_own(state),
    ensures
        ids_of_their_own(after_event(state, kind)),
{
    let after = after_event(state, kind);
    match kind {
        KindView::TitledHeadingStart { id } => {
            assert forall|i: int| 0 <= i < after.toc.len() implies after.used_ids.contains(
                (#[trigger] after.toc[i]).id,
            ) by {
                let k = choose|k: int|
                    0 <= k < state.used_ids.len() && state.used_ids[k] == state.toc[i].id;
                assert(after.used_ids[k] == state.toc[i].id);
            }
        },
        KindView::HeadingEnd => {
            if state.heading is Some {
                let id = heading_id(slugified(state.heading_text), state.used_ids);
                lemma_heading_id_fresh(slugified(state.heading_text), state.used_ids);
                let n = state.toc.len() as int;
                assert forall|i: int| 0 <= i < after.toc.len() implies after.used_ids.contains(
                    (#[trigger] after.toc[i]).id,
                ) by {
                    if i < n {
                        let k = choose|k: int|
                            0 <= k < state.used_ids.len() && state.used_ids[k] == state.toc[i].id;
                        assert(after.used_ids[k] == state.toc[i].id);
                    } else {
                        assert(after.used_ids[state.used_ids.len() as int] == id);
                    }
                }
                assert forall|i: int, j: int| 0 <= i < j < after.toc.len() implies (
                #[trigger] after.toc[i]).id != (#[trigger] after.toc[j]).id by {
                    if j == n {
                        assert(after.toc[i] == state.toc[i]);
                        assert(state.used_ids.contains(state.toc[i].id));
                    } else {
                        assert(after.toc[i] == state.toc[i] && after.toc[j] == state.toc[j]);
                    }
                }
            }
        },
        _ => {},
    }
}

/// No two headings in the table of contents of a document share an id.
pub proof fn lemma_toc_ids_distinct(kinds: Seq<KindView>, n: int)
    ensures
        ids_of_their_own(state_after(kinds, n)),
        forall|i: int, j: int|
            0 <= i < j < state_after(kinds, n).toc.len() ==> (#[trigger] state_after(
                kinds,
                n,
            ).toc[i]).id != (#[trigger] state_after(kinds, n).toc[j]).id,
    decreases n,
{
    if n > 0 {
        lemma_toc_ids_distinct(kinds, n - 1);
        lemma_after_event_ids(state_after(kinds, n - 1), kinds[n - 1]);
    }
}

} // verus!
