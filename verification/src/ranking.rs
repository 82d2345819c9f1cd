//! Ranking by a key: which item comes first when the greatest key leads.

use vstd::prelude::*;

verus! {

/// Whether the item at position `a` stands before the item at position `b`
/// when the items are ranked by `keys`, greatest first: its key is greater,
/// or the keys are equal and it stood first.
pub open spec fn leads(keys: Seq<i64>, a: int, b: int) -> bool {
    keys[a] > keys[b] || (keys[a] == keys[b] && a < b)
}

/// Where the item at position `item` is put among the ranked positions
/// `ranked`: before the first that it leads.
pub open spec fn spec_rank_slot(keys: Seq<i64>, ranked: Seq<usize>, item: int, from: int) -> int
    decreases ranked.len() - from,
{
    if from < 0 || from >= ranked.len() {
        ranked.len() as int
    } else if leads(keys, item, ranked[from] as int) {
        from
    } else {
        spec_rank_slot(keys, ranked, item, from + 1)
    }
}

/// The positions of `keys`, ranked: the position of the greatest key
/// first, and of equal keys the one that stood first.
pub open spec fn spec_ranking(keys: Seq<i64>) -> Seq<usize>
    decreases keys.len(),
{
    if keys.len() == 0 {
        Seq::empty()
    } else {
        let before = spec_ranking(keys.drop_last());
        let item = keys.len() - 1;
        before.insert(spec_rank_slot(keys, before, item, 0), item as usize)
    }
}

/// Whether `ranked` holds every position of `keys` once, each before all
/// that it leads.
pub open spec fn is_ranking(keys: Seq<i64>, ranked: Seq<usize>) -> bool {
    &&& ranked.len() == keys.len()
    &&& forall|k: int| 0 <= k < ranked.len() ==> 0 <= #[trigger] ranked[k] < keys.len()
    &&& forall|a: int, b: int|
        0 <= a < b < ranked.len() ==> leads(keys, #[trigger] ranked[a] as int, #[trigger] ranked[b] as int)
}

/// What [`spec_rank_slot`] finds: nothing before it is led by the item, and
/// what stands at it is.
pub proof fn lemma_rank_slot(keys: Seq<i64>, ranked: Seq<usize>, item: int, from: int)
    requires
        0 <= from <= ranked.len(),
    ensures
        from <= spec_rank_slot(keys, ranked, item, from) <= ranked.len(),
        spec_rank_slot(keys, ranked, item, from) < ranked.len() ==> leads(
            keys,
            item,
            ranked[spec_rank_slot(keys, ranked, item, from)] as int,
        ),
        forall|j: int|
            from <= j < spec_rank_slot(keys, ranked, item, from) ==> !leads(
                keys,
                item,
                #[trigger] ranked[j] as int,
            ),
    decreases ranked.len() - from,
{
    if from < ranked.len() && !leads(keys, item, ranked[from] as int) {
        lemma_rank_slot(keys, ranked, item, from + 1);
    }
}

/// Putting the last position into the ranking of the positions before it
/// gives a ranking.
pub proof fn lemma_rank_insert(keys: Seq<i64>, before: Seq<usize>)
    requires
        keys.len() > 0,
        keys.len() <= usize::MAX,
        is_ranking(keys.drop_last(), before),
    ensures
        is_ranking(
            keys,
            before.insert(
                spec_rank_slot(keys, before, keys.len() - 1, 0),
                (keys.len() - 1) as usize,
            ),
        ),
{
    let item = keys.len() - 1;
    let head = keys.drop_last();
    let slot = spec_rank_slot(keys, before, item, 0);
    lemma_rank_slot(keys, before, item, 0);
    let after = before.insert(slot, item as usize);
    before.insert_ensures(slot, item as usize);
    assert forall|k: int| 0 <= k < after.len() implies (#[trigger] after[k]) == (if k < slot {
        before[k]
    } else if k == slot {
        item as usize
    } else {
        before[k - 1]
    }) by {
        if k > slot {
            assert(after[(k - 1) + 1] == before[k - 1]);
        }
    }
    assert forall|k: int| 0 <= k < before.len() implies head[before[k] as int] == keys[before[k] as int] by {}
    assert forall|a: int, b: int| 0 <= a < b < after.len() implies leads(
        keys,
        #[trigger] after[a] as int,
        #[trigger] after[b] as int,
    ) by {
        if b < slot {
            assert(leads(head, before[a] as int, before[b] as int));
        } else if b == slot {
            assert(!leads(keys, item, before[a] as int));
            assert(before[a] < item);
        } else if a < slot {
            assert(leads(head, before[a] as int, before[b - 1] as int));
        } else if a == slot {
            assert(leads(keys, item, before[slot] as int));
            if b - 1 > slot {
                assert(leads(head, before[slot] as int, before[b - 1] as int));
            }
        } else {
            assert(leads(head, before[a - 1] as int, before[b - 1] as int));
        }
    }
}

/// The ranking holds every position once, each before all that it leads.
pub proof fn lemma_ranking(keys: Seq<i64>)
    requires
        keys.len() <= usize::MAX,
    ensures
        is_ranking(keys, spec_ranking(keys)),
    decreases keys.len(),
{
    if keys.len() > 0 {
        lemma_ranking(keys.drop_last());
        lemma_rank_insert(keys, spec_ranking(keys.drop_last()));
    }
}

/// Among positions before `item`, the slot of `item` is the same whether
/// the keys behind `item` are looked at or not.
proof fn lemma_slot_of_prefix(keys: Seq<i64>, ranked: Seq<usize>, item: int, from: int)
    requires
        0 <= item < keys.len(),
        0 <= from <= ranked.len(),
        forall|k: int| 0 <= k < ranked.len() ==> 0 <= #[trigger] ranked[k] < item,
    ensures
        spec_rank_slot(keys.subrange(0, item + 1), ranked, item, from) == spec_rank_slot(
            keys,
            ranked,
            item,
            from,
        ),
    decreases ranked.len() - from,
{
    let prefix = keys.subrange(0, item + 1);
    if from < ranked.len() {
        assert(prefix[ranked[from] as int] == keys[ranked[from] as int]);
        assert(prefix[item] == keys[item]);
        lemma_slot_of_prefix(keys, ranked, item, from + 1);
    }
}

/// The slot of the position `item` among the ranked positions before it.
fn rank_slot(keys: &Vec<i64>, ranked: &Vec<usize>, item: usize) -> (slot: usize)
    requires
        item < keys.len(),
        forall|k: int| 0 <= k < ranked.len() ==> 0 <= #[trigger] ranked[k] < item,
    ensures
        slot == spec_rank_slot(keys@, ranked@, item as int, 0),
        slot <= ranked.len(),
{
    proof {
        lemma_rank_slot(keys@, ranked@, item as int, 0);
    }
    let mut slot: usize = 0;
    while slot < ranked.len()
        invariant
            slot <= ranked.len(),
            item < keys.len(),
            forall|k: int| 0 <= k < ranked.len() ==> 0 <= #[trigger] ranked[k] < item,
            spec_rank_slot(keys@, ranked@, item as int, 0) == spec_rank_slot(
                keys@,
                ranked@,
                item as int,
                slot as int,
            ),
        decreases ranked.len() - slot,
    {
        if keys[item] > keys[ranked[slot]] {
            return slot;
        }
        slot = slot + 1;
    }
    slot
}

/// Ranks the positions of `keys`, greatest key first.
pub fn rank(keys: &Vec<i64>) -> (ranked: Vec<usize>)
    ensures
        ranked@ == spec_ranking(keys@),
        is_ranking(keys@, ranked@),
{
    let mut ranked: Vec<usize> = Vec::new();
    let mut item: usize = 0;
    assert(keys@.subrange(0, 0) =~= Seq::<i64>::empty());
    while item < keys.len()
        invariant
            item <= keys.len(),
            ranked@ == spec_ranking(keys@.subrange(0, item as int)),
            ranked.len() == item,
            forall|k: int| 0 <= k < ranked.len() ==> 0 <= #[trigger] ranked[k] < item,
        decreases keys.len() - item,
    {
        let ghost prefix = keys@.subrange(0, item + 1);
        assert(prefix.drop_last() =~= keys@.subrange(0, item as int));
        let slot: usize = rank_slot(keys, &ranked, item);
        proof {
            lemma_rank_slot(keys@, ranked@, item as int, 0);
            lemma_slot_of_prefix(keys@, ranked@, item as int, 0);
        }
        ranked.insert(slot, item);
        proof {
            let placed = ranked@;
            assert forall|k: int| 0 <= k < placed.len() implies 0 <= #[trigger] placed[k] < item
                + 1 by {
                if k < slot {
                } else if k > slot {
                    assert(placed[(k - 1) + 1] < item);
                }
            }
        }
        item = item + 1;
    }
    assert(keys@.subrange(0, keys.len() as int) =~= keys@);
    proof {
        lemma_ranking(keys@);
    }
    ranked
}

} // verus!
