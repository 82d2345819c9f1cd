//! Facts about sequences of rows that the stores rest on.

use vstd::prelude::*;

verus! {

/// Where each item of a filtered sequence stood before: the positions rise,
/// every item that is kept has one, and nothing else has.
pub proof fn lemma_filter_origins<A>(s: Seq<A>, keep: spec_fn(A) -> bool) -> (at: Seq<int>)
    ensures
        at.len() == s.filter(keep).len(),
        forall|k: int|
            0 <= k < at.len() ==> 0 <= #[trigger] at[k] < s.len() && s.filter(keep)[k] == s[at[k]]
                && keep(s[at[k]]),
        forall|k: int, l: int| 0 <= k < l < at.len() ==> #[trigger] at[k] < #[trigger] at[l],
        forall|j: int|
            0 <= j < s.len() && keep(#[trigger] s[j]) ==> exists|k: int|
                0 <= k < at.len() && at[k] == j,
    decreases s.len(),
{
    reveal(Seq::filter);
    if s.len() == 0 {
        Seq::empty()
    } else {
        let head = s.drop_last();
        let before = lemma_filter_origins(head, keep);
        let at = if keep(s.last()) {
            before.push(s.len() - 1)
        } else {
            before
        };
        assert forall|j: int| 0 <= j < s.len() && keep(#[trigger] s[j]) implies exists|k: int|
            0 <= k < at.len() && at[k] == j by {
            if j < s.len() - 1 {
                assert(head[j] == s[j]);
                let k = choose|k: int| 0 <= k < before.len() && before[k] == j;
                assert(at[k] == j);
            } else {
                assert(at[at.len() - 1] == j);
            }
        }
        at
    }
}

/// The items of `s` from `from` on that `keep` holds of, behind the untouched
/// items before `from`.
pub open spec fn filtered_from<A>(s: Seq<A>, keep: spec_fn(A) -> bool, from: int) -> Seq<A> {
    s.subrange(0, from) + s.subrange(from, s.len() as int).filter(keep)
}

/// Moving the start of the filtered part one item to the left either keeps
/// that item or removes it.
pub proof fn lemma_filtered_from_step<A>(s: Seq<A>, keep: spec_fn(A) -> bool, from: int)
    requires
        0 < from <= s.len(),
    ensures
        keep(s[from - 1]) ==> filtered_from(s, keep, from - 1) == filtered_from(s, keep, from),
        !keep(s[from - 1]) ==> filtered_from(s, keep, from - 1) == filtered_from(
            s,
            keep,
            from,
        ).remove(from - 1),
        filtered_from(s, keep, from).len() >= from,
        filtered_from(s, keep, from)[from - 1] == s[from - 1],
{
    let tail = s.subrange(from, s.len() as int);
    let longer = s.subrange(from - 1, s.len() as int);
    assert(longer =~= seq![s[from - 1]] + tail);
    tail.lemma_filter_prepend(s[from - 1], keep);
    if keep(s[from - 1]) {
        assert(filtered_from(s, keep, from - 1) =~= filtered_from(s, keep, from));
    } else {
        assert(filtered_from(s, keep, from - 1) =~= filtered_from(s, keep, from).remove(from - 1));
    }
}

/// Removes from `items` what is marked in `dropped`, in place and keeping
/// the order: what is left are the items that `keep` holds of.
pub fn drop_marked<A>(items: &mut Vec<A>, dropped: &Vec<bool>, Ghost(keep): Ghost<spec_fn(A) -> bool>)
    requires
        dropped.len() == old(items).len(),
        forall|i: int| 0 <= i < dropped.len() ==> #[trigger] dropped[i] == !keep(old(items)[i]),
    ensures
        final(items)@ == old(items)@.filter(keep),
{
    let ghost before = items@;
    let mut i: usize = items.len();
    assert(before.subrange(i as int, before.len() as int).filter(keep) =~= Seq::empty()) by {
        reveal(Seq::filter);
    }
    assert(filtered_from(before, keep, i as int) =~= before);
    while i > 0
        invariant
            i <= before.len(),
            dropped.len() == before.len(),
            forall|k: int| 0 <= k < dropped.len() ==> #[trigger] dropped[k] == !keep(before[k]),
            items@ == filtered_from(before, keep, i as int),
        decreases i,
    {
        proof {
            lemma_filtered_from_step(before, keep, i as int);
        }
        i = i - 1;
        if dropped[i] {
            items.remove(i);
        }
    }
    assert(before.subrange(0, before.len() as int) =~= before);
    assert(filtered_from(before, keep, 0) =~= before.filter(keep));
}

/// The filtered prefix grows by the next item where `keep` holds of it and
/// stays as it is where not.
pub proof fn lemma_filter_next<A>(s: Seq<A>, keep: spec_fn(A) -> bool, upto: int)
    requires
        0 <= upto < s.len(),
    ensures
        s.subrange(0, upto + 1).filter(keep) == if keep(s[upto]) {
            s.subrange(0, upto).filter(keep).push(s[upto])
        } else {
            s.subrange(0, upto).filter(keep)
        },
{
    assert(s.subrange(0, upto + 1) =~= s.subrange(0, upto).push(s[upto]));
    s.subrange(0, upto).lemma_filter_push(s[upto], keep);
}

} // verus!
