//! Ordering by name: which item comes first in the order of the
//! dictionary.

use vstd::prelude::*;
use vstd::string::*;
use crate::text::{
    lemma_text_order_total, lemma_text_order_transitive, spec_text_before, text_before, views_of,
};

verus! {

/// Whether the item at position `a` stands before the item at position `b`
/// when the items are ordered by `names`: its name stands before the other
/// in the dictionary, or the names are the same and it stood first.
pub open spec fn precedes(names: Seq<Seq<char>>, a: int, b: int) -> bool {
    spec_text_before(names[a], names[b]) || (names[a] == names[b] && a < b)
}

/// Where the item at position `item` is put among the ordered positions
/// `ordered`: before the first that it precedes.
pub open spec fn spec_order_slot(
    names: Seq<Seq<char>>,
    ordered: Seq<usize>,
    item: int,
    from: int,
) -> int
    decreases ordered.len() - from,
{
    if from < 0 || from >= ordered.len() {
        ordered.len() as int
    } else if precedes(names, item, ordered[from] as int) {
        from
    } else {
        spec_order_slot(names, ordered, item, from + 1)
    }
}

/// The positions of `names`, ordered: the position of the first name of
/// the dictionary first, and of equal names the one that stood first.
pub open spec fn spec_ordering(names: Seq<Seq<char>>) -> Seq<usize>
    decreases names.len(),
{
    if names.len() == 0 {
        Seq::empty()
    } else {
        let before = spec_ordering(names.drop_last());
        let item = names.len() - 1;
        before.insert(spec_order_slot(names, before, item, 0), item as usize)
    }
}

/// Whether `ordered` holds every position of `names` once, each before all
/// that it precedes.
pub open spec fn is_ordering(names: Seq<Seq<char>>, ordered: Seq<usize>) -> bool {
    &&& ordered.len() == names.len()
    &&& forall|k: int| 0 <= k < ordered.len() ==> 0 <= #[trigger] ordered[k] < names.len()
    &&& forall|a: int, b: int|
        0 <= a < b < ordered.len() ==> precedes(
            names,
            #[trigger] ordered[a] as int,
            #[trigger] ordered[b] as int,
        )
}

/// What [`spec_order_slot`] finds: nothing before it is preceded by the
/// item, and what stands at it is.
pub proof fn lemma_order_slot(names: Seq<Seq<char>>, ordered: Seq<usize>, item: int, from: int)
    requires
        0 <= from <= ordered.len(),
    ensures
        from <= spec_order_slot(names, ordered, item, from) <= ordered.len(),
        spec_order_slot(names, ordered, item, from) < ordered.len() ==> precedes(
            names,
            item,
            ordered[spec_order_slot(names, ordered, item, from)] as int,
        ),
        forall|j: int|
            from <= j < spec_order_slot(names, ordered, item, from) ==> !precedes(
                names,
                item,
                #[trigger] ordered[j] as int,
            ),
    decreases ordered.len() - from,
{
    if from < ordered.len() && !precedes(names, item, ordered[from] as int) {
        lemma_order_slot(names, ordered, item, from + 1);
    }
}

/// Putting the last position into the ordering of the positions before it
/// gives an ordering.
pub proof fn lemma_order_insert(names: Seq<Seq<char>>, before: Seq<usize>)
    requires
        names.len() > 0,
        names.len() <= usize::MAX,
        is_ordering(names.drop_last(), before),
    ensures
        is_ordering(
            names,
            before.insert(
                spec_order_slot(names, before, names.len() - 1, 0),
                (names.len() - 1) as usize,
            ),
        ),
{
    let item = names.len() - 1;
    let head = names.drop_last();
    let slot = spec_order_slot(names, before, item, 0);
    lemma_order_slot(names, before, item, 0);
    let after = before.insert(slot, item as usize);
    before.insert_ensures(slot, item as usize);
    assert forall|k: int| 0 <= k < after.len() implies (#[trigger] after[k]) == (if k < slot {
        before[k]
    } else if k == slot {
        item as usize
    } else {
        before[k - 1]
    }) by {
        if k > slot {
            assert(after[(k - 1) + 1] == before[k - 1]);
        }
    }
    assert forall|k: int| 0 <= k < before.len() implies head[before[k] as int]
        == names[before[k] as int] by {}
    assert forall|a: int, b: int| 0 <= a < b < after.len() implies precedes(
        names,
        #[trigger] after[a] as int,
        #[trigger] after[b] as int,
    ) by {
        if b < slot {
            assert(precedes(head, before[a] as int, before[b] as int));
        } else if b == slot {
            assert(!precedes(names, item, before[a] as int));
            assert(before[a] < item);
            lemma_text_order_total(names[before[a] as int], names[item]);
        } else if a < slot {
            assert(precedes(head, before[a] as int, before[b - 1] as int));
        } else if a == slot {
            assert(precedes(names, item, before[slot] as int));
            if b - 1 > slot {
                assert(precedes(head, before[slot] as int, before[b - 1] as int));
                let x = names[item];
                let y = names[before[slot] as int];
                let z = names[before[b - 1] as int];
                assert(before[slot] < item && before[b - 1] < item);
                if spec_text_before(x, y) && spec_text_before(y, z) {
                    lemma_text_order_transitive(x, y, z);
                }
            }
        } else {
            assert(precedes(head, before[a - 1] as int, before[b - 1] as int));
        }
    }
}

/// The ordering holds every position once, each before all that it
/// precedes.
pub proof fn lemma_ordering(names: Seq<Seq<char>>)
    requires
        names.len() <= usize::MAX,
    ensures
        is_ordering(names, spec_ordering(names)),
    decreases names.len(),
{
    if names.len() > 0 {
        lemma_ordering(names.drop_last());
        lemma_order_insert(names, spec_ordering(names.drop_last()));
    }
}

/// Among positions before `item`, the slot of `item` is the same whether
/// the names behind `item` are looked at or not.
proof fn lemma_slot_of_prefix(names: Seq<Seq<char>>, ordered: Seq<usize>, item: int, from: int)
    requires
        0 <= item < names.len(),
        0 <= from <= ordered.len(),
        forall|k: int| 0 <= k < ordered.len() ==> 0 <= #[trigger] ordered[k] < item,
    ensures
        spec_order_slot(names.subrange(0, item + 1), ordered, item, from) == spec_order_slot(
            names,
            ordered,
            item,
            from,
        ),
    decreases ordered.len() - from,
{
    let prefix = names.subrange(0, item + 1);
    if from < ordered.len() {
        assert(prefix[ordered[from] as int] == names[ordered[from] as int]);
        assert(prefix[item] == names[item]);
        lemma_slot_of_prefix(names, ordered, item, from + 1);
    }
}

/// The slot of the position `item` among the ordered positions before it.
fn order_slot(names: &Vec<String>, ordered: &Vec<usize>, item: usize) -> (slot: usize)
    requires
        item < names.len(),
        forall|k: int| 0 <= k < ordered.len() ==> 0 <= #[trigger] ordered[k] < item,
    ensures
        slot == spec_order_slot(views_of(names@), ordered@, item as int, 0),
        slot <= ordered.len(),
{
    let ghost all = views_of(names@);
    proof {
        lemma_order_slot(all, ordered@, item as int, 0);
    }
    let mut slot: usize = 0;
    while slot < ordered.len()
        invariant
            slot <= ordered.len(),
            item < names.len(),
            all == views_of(names@),
            forall|k: int| 0 <= k < ordered.len() ==> 0 <= #[trigger] ordered[k] < item,
            spec_order_slot(all, ordered@, item as int, 0) == spec_order_slot(
                all,
                ordered@,
                item as int,
                slot as int,
            ),
        decreases ordered.len() - slot,
    {
        let other: usize = ordered[slot];
        assert(all[other as int] == names[other as int]@ && all[item as int] == names[item as int]@);
        if text_before(names[item].as_str(), names[other].as_str()) {
            return slot;
        }
        slot = slot + 1;
    }
    slot
}

/// Orders the positions of `names` by the dictionary.
pub fn order(names: &Vec<String>) -> (ordered: Vec<usize>)
    ensures
        ordered@ == spec_ordering(views_of(names@)),
        is_ordering(views_of(names@), ordered@),
{
    let ghost all = views_of(names@);
    let mut ordered: Vec<usize> = Vec::new();
    let mut item: usize = 0;
    assert(all.subrange(0, 0) =~= Seq::<Seq<char>>::empty());
    while item < names.len()
        invariant
            item <= names.len(),
            all == views_of(names@),
            ordered@ == spec_ordering(all.subrange(0, item as int)),
            ordered.len() == item,
            forall|k: int| 0 <= k < ordered.len() ==> 0 <= #[trigger] ordered[k] < item,
        decreases names.len() - item,
    {
        let ghost prefix = all.subrange(0, item + 1);
        assert(prefix.drop_last() =~= all.subrange(0, item as int));
        let slot: usize = order_slot(names, &ordered, item);
        proof {
            lemma_order_slot(all, ordered@, item as int, 0);
            lemma_slot_of_prefix(all, ordered@, item as int, 0);
        }
        ordered.insert(slot, item);
        proof {
            let placed = ordered@;
            assert forall|k: int| 0 <= k < placed.len() implies 0 <= #[trigger] placed[k] < item
                + 1 by {
                if k > slot {
                    assert(placed[(k - 1) + 1] < item);
                }
            }
        }
        item = item + 1;
    }
    assert(all.subrange(0, names.len() as int) =~= all);
    proof {
        lemma_ordering(all);
    }
    ordered
}

} // verus!
