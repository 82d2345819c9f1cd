//! The headers of a request or a response as a map holds them: a name
//! occurs once, with the value that was given for it last.

use vstd::prelude::*;
use vstd::string::*;
use crate::http::Header;
use crate::text::str_eq;

verus! {

/// The names and values of `headers`, in order.
pub open spec fn header_pairs(headers: Seq<Header>) -> Seq<(Seq<char>, Seq<char>)> {
    Seq::new(headers.len(), |i: int| (headers[i].name@, headers[i].value@))
}

/// Whether no name occurs twice among `pairs`.
pub open spec fn pairs_distinct(pairs: Seq<(Seq<char>, Seq<char>)>) -> bool {
    forall|i: int, j: int|
        0 <= i < j < pairs.len() ==> (#[trigger] pairs[i]).0 != (#[trigger] pairs[j]).0
}

/// Whether no name occurs twice among `headers`.
pub open spec fn names_distinct(headers: Seq<Header>) -> bool {
    pairs_distinct(header_pairs(headers))
}

/// Whether `name` occurs among `pairs`.
pub open spec fn spec_named(pairs: Seq<(Seq<char>, Seq<char>)>, name: Seq<char>) -> bool {
    exists|i: int| 0 <= i < pairs.len() && (#[trigger] pairs[i]).0 == name
}

/// Whether the pair at `at` is the last of its name.
pub open spec fn spec_stays(pairs: Seq<(Seq<char>, Seq<char>)>, at: int) -> bool {
    forall|j: int| at < j < pairs.len() ==> (#[trigger] pairs[j]).0 != pairs[at].0
}

/// Whether `pair` is one of the first `n` of `pairs` and the last of its
/// name.
pub open spec fn spec_kept(
    pairs: Seq<(Seq<char>, Seq<char>)>,
    n: int,
    pair: (Seq<char>, Seq<char>),
) -> bool {
    exists|i: int| 0 <= i < n && spec_stays(pairs, i) && #[trigger] pairs[i] == pair
}

/// The pairs among the first `n` of `pairs` that are the last of their
/// name, in order.
pub open spec fn spec_collected_to(pairs: Seq<(Seq<char>, Seq<char>)>, n: int) -> Seq<
    (Seq<char>, Seq<char>),
>
    decreases n,
{
    if n <= 0 || n > pairs.len() {
        Seq::empty()
    } else if spec_stays(pairs, n - 1) {
        spec_collected_to(pairs, n - 1).push(pairs[n - 1])
    } else {
        spec_collected_to(pairs, n - 1)
    }
}

/// What a map holds once `pairs` were put into it one after the other:
/// each name once, with the value that was given for it last.
pub open spec fn spec_collected(pairs: Seq<(Seq<char>, Seq<char>)>) -> Seq<
    (Seq<char>, Seq<char>),
> {
    spec_collected_to(pairs, pairs.len() as int)
}

/// Among the pairs that are kept no name occurs twice, and each of them
/// was given and is the last of its name.
pub proof fn lemma_collected_to(pairs: Seq<(Seq<char>, Seq<char>)>, n: int)
    requires
        0 <= n <= pairs.len(),
    ensures
        pairs_distinct(spec_collected_to(pairs, n)),
        spec_collected_to(pairs, n).len() <= n,
        forall|k: int|
            0 <= k < spec_collected_to(pairs, n).len() ==> spec_kept(
                pairs,
                n,
                #[trigger] spec_collected_to(pairs, n)[k],
            ),
        forall|i: int|
            0 <= i < n && spec_stays(pairs, i) ==> spec_collected_to(pairs, n).contains(
                #[trigger] pairs[i],
            ),
    decreases n,
{
    if n > 0 {
        lemma_collected_to(pairs, n - 1);
        let before = spec_collected_to(pairs, n - 1);
        let after = spec_collected_to(pairs, n);
        assert forall|k: int| 0 <= k < before.len() implies spec_kept(
            pairs,
            n,
            #[trigger] before[k],
        ) by {
            assert(spec_kept(pairs, n - 1, before[k]));
        }
        if spec_stays(pairs, n - 1) {
            assert(after[before.len() as int] == pairs[n - 1]);
            assert forall|a: int, b: int| 0 <= a < b < after.len() implies (#[trigger] after[a]).0
                != (#[trigger] after[b]).0 by {
                if b == before.len() {
                    assert(spec_kept(pairs, n - 1, before[a]));
                    let i = choose|i: int|
                        0 <= i < n - 1 && spec_stays(pairs, i) && #[trigger] pairs[i] == before[a];
                    assert(pairs[n - 1].0 != pairs[i].0);
                } else {
                    assert(before[a].0 != before[b].0);
                }
            }
            assert forall|i: int| 0 <= i < n && spec_stays(pairs, i) implies after.contains(
                #[trigger] pairs[i],
            ) by {
                if i < n - 1 {
                    assert(before.contains(pairs[i]));
                    let k = choose|k: int| 0 <= k < before.len() && before[k] == pairs[i];
                    assert(after[k] == pairs[i]);
                } else {
                    assert(after[before.len() as int] == pairs[i]);
                }
            }
        }
    }
}

/// Every name that was given is a name that is kept.
pub proof fn lemma_names_kept(pairs: Seq<(Seq<char>, Seq<char>)>, at: int)
    requires
        0 <= at < pairs.len(),
    ensures
        spec_named(spec_collected(pairs), pairs[at].0),
    decreases pairs.len() - at,
{
    let all = spec_collected(pairs);
    lemma_collected_to(pairs, pairs.len() as int);
    if spec_stays(pairs, at) {
        assert(all.contains(pairs[at]));
        let k = choose|k: int| 0 <= k < all.len() && all[k] == pairs[at];
        assert(all[k].0 == pairs[at].0);
    } else {
        let next = choose|j: int| at < j < pairs.len() && (#[trigger] pairs[j]).0 == pairs[at].0;
        lemma_names_kept(pairs, next);
    }
}

/// Every name that is kept was given.
pub proof fn lemma_names_given(pairs: Seq<(Seq<char>, Seq<char>)>, k: int)
    requires
        0 <= k < spec_collected(pairs).len(),
    ensures
        spec_named(pairs, spec_collected(pairs)[k].0),
{
    lemma_collected_to(pairs, pairs.len() as int);
    let pair = spec_collected(pairs)[k];
    assert(spec_kept(pairs, pairs.len() as int, pair));
    let i = choose|i: int|
        0 <= i < pairs.len() && spec_stays(pairs, i) && #[trigger] pairs[i] == pair;
    assert(pairs[i].0 == pair.0);
}

/// Pairs among which no name occurs twice are kept as they are.
pub proof fn lemma_distinct_are_kept(pairs: Seq<(Seq<char>, Seq<char>)>, n: int)
    requires
        pairs_distinct(pairs),
        0 <= n <= pairs.len(),
    ensures
        spec_collected_to(pairs, n) == pairs.subrange(0, n),
    decreases n,
{
    if n > 0 {
        lemma_distinct_are_kept(pairs, n - 1);
        assert(spec_stays(pairs, n - 1));
        assert(pairs.subrange(0, n - 1).push(pairs[n - 1]) =~= pairs.subrange(0, n));
    } else {
        assert(pairs.subrange(0, 0) =~= Seq::empty());
    }
}

/// Whether the header at `at` is the last of its name.
fn is_last_named(given: &Vec<Header>, at: usize) -> (stays: bool)
    requires
        at < given.len(),
    ensures
        stays == spec_stays(header_pairs(given@), at as int),
{
    let ghost pairs = header_pairs(given@);
    let mut j: usize = at + 1;
    while j < given.len()
        invariant
            at < j <= given.len(),
            pairs == header_pairs(given@),
            forall|k: int| at < k < j ==> (#[trigger] pairs[k]).0 != pairs[at as int].0,
        decreases given.len() - j,
    {
        if str_eq(given[j].name.as_str(), given[at].name.as_str()) {
            assert(pairs[j as int].0 == pairs[at as int].0);
            return false;
        }
        j = j + 1;
    }
    true
}

/// The headers as a map holds them: of the headers of one name the last
/// stays, and the others go.
pub fn collect_headers(given: &Vec<Header>) -> (headers: Vec<Header>)
    ensures
        header_pairs(headers@) == spec_collected(header_pairs(given@)),
        names_distinct(headers@),
{
    let ghost pairs = header_pairs(given@);
    let mut out: Vec<Header> = Vec::new();
    let mut i: usize = 0;
    assert(header_pairs(out@) =~= spec_collected_to(pairs, 0));
    while i < given.len()
        invariant
            i <= given.len(),
            pairs == header_pairs(given@),
            header_pairs(out@) == spec_collected_to(pairs, i as int),
        decreases given.len() - i,
    {
        let ghost before = header_pairs(out@);
        if is_last_named(given, i) {
            out.push(Header { name: given[i].name.clone(), value: given[i].value.clone() });
            assert(header_pairs(out@) =~= before.push(pairs[i as int]));
        }
        i = i + 1;
    }
    proof {
        lemma_collected_to(pairs, pairs.len() as int);
    }
    out
}

} // verus!
