//! Rows and messages of the key/value service.

use vstd::prelude::*;
use vstd::string::*;
use crate::ids::{uuid_of_text, uuid_text};
use crate::kv::value::{spec_type_named, ValueType};
use crate::rows::lemma_filter_origins;

verus! {

/// A typed value under a key, as sent to and by callers.
#[derive(Clone, Debug, PartialEq, Eq)]
pub struct Pair {
    /// The project that owns the pair, as UUID text.
    pub project_id: String,
    pub namespace: String,
    pub key: String,
    /// The value, written out as text.
    pub value: String,
    /// What the text is read as.
    pub value_type: ValueType,
    /// Seconds that the pair lives; `None` and zero mean that it stays.
    pub ttl: Option<i32>,
}

/// The key of a pair.
#[derive(Clone, Debug, PartialEq, Eq)]
pub struct PairRequest {
    pub project_id: String,
    pub namespace: String,
    pub key: String,
}

/// A namespace of a project with the number of its pairs.
#[derive(Clone, Debug, PartialEq, Eq)]
pub struct Namespace {
    pub project_id: String,
    pub name: String,
    pub count: i32,
}

/// The namespaces of a project.
#[derive(Clone, Debug, PartialEq, Eq)]
pub struct ListNamespacesResponse {
    pub namespaces: Vec<Namespace>,
}

/// One page of the pairs of a namespace, with the token that continues the
/// listing where more pairs follow.
#[derive(Clone, Debug, PartialEq, Eq)]
pub struct ListPairsResponse {
    pub page_size: i32,
    pub token: Option<String>,
    pub pairs: Vec<Pair>,
}

/// A pair as stored.
#[derive(Clone, Debug, PartialEq, Eq)]
pub struct PairRow {
    pub project_id: u128,
    pub namespace: String,
    pub key: String,
    pub value: String,
    pub value_type: ValueType,
    /// Seconds that the pair lives, where it does not stay.
    pub ttl: Option<i32>,
}

/// The key of a stored pair.
pub struct KeyView {
    pub project_id: u128,
    pub namespace: Seq<char>,
    pub key: Seq<char>,
}

impl PairRow {
    /// The key that this row is stored under.
    pub open spec fn key_of(self) -> KeyView {
        KeyView { project_id: self.project_id, namespace: self.namespace@, key: self.key@ }
    }
}

/// The time to live that is stored for what a caller sent: zero means that
/// the pair stays.
pub open spec fn stored_ttl(ttl: Option<i32>) -> Option<i32> {
    match ttl {
        Some(seconds) => if seconds == 0 {
            None
        } else {
            Some(seconds)
        },
        None => None,
    }
}

/// Whether `pair` shows the stored `row`.
pub open spec fn pair_shows(pair: Pair, row: PairRow) -> bool {
    &&& pair.project_id@ == uuid_text(row.project_id)
    &&& pair.namespace@ == row.namespace@
    &&& pair.key@ == row.key@
    &&& pair.value@ == row.value@
    &&& pair.value_type == row.value_type
    &&& pair.ttl == row.ttl
}

/// Whether `row` is what is stored for `pair`.
pub open spec fn row_stores(row: PairRow, pair: Pair) -> bool {
    &&& Some(row.project_id) == uuid_of_text(pair.project_id@)
    &&& row.namespace@ == pair.namespace@
    &&& row.key@ == pair.key@
    &&& row.value@ == pair.value@
    &&& row.value_type == pair.value_type
    &&& row.ttl == stored_ttl(pair.ttl)
}

/// Whether `rows` are what is stored for `pairs`, one by one.
pub open spec fn rows_store(rows: Seq<PairRow>, pairs: Seq<Pair>) -> bool {
    rows.len() == pairs.len() && forall|i: int|
        0 <= i < rows.len() ==> row_stores(#[trigger] rows[i], pairs[i])
}

/// Whether `keys` are the keys that `requests` name, one by one.
pub open spec fn keys_name(keys: Seq<KeyView>, requests: Seq<PairRequest>) -> bool {
    keys.len() == requests.len() && forall|i: int|
        0 <= i < keys.len() ==> {
            &&& Some((#[trigger] keys[i]).project_id) == uuid_of_text(requests[i].project_id@)
            &&& keys[i].namespace == requests[i].namespace@
            &&& keys[i].key == requests[i].key@
        }
}

/// No two rows share a key.
pub open spec fn rows_distinct(rows: Seq<PairRow>) -> bool {
    forall|i: int, j: int|
        0 <= i < j < rows.len() ==> (#[trigger] rows[i]).key_of() != (#[trigger] rows[j]).key_of()
}

/// Index of the first row at or after `from` that is stored under `key`,
/// or the number of rows.
pub open spec fn spec_pair_at(rows: Seq<PairRow>, key: KeyView, from: int) -> int
    decreases rows.len() - from,
{
    if from < 0 || from >= rows.len() {
        rows.len() as int
    } else if rows[from].key_of() == key {
        from
    } else {
        spec_pair_at(rows, key, from + 1)
    }
}

/// What [`spec_pair_at`] finds is the first row under that key.
pub proof fn lemma_pair_at(rows: Seq<PairRow>, key: KeyView, from: int)
    requires
        0 <= from <= rows.len(),
    ensures
        from <= spec_pair_at(rows, key, from) <= rows.len(),
        spec_pair_at(rows, key, from) < rows.len() ==> rows[spec_pair_at(
            rows,
            key,
            from,
        )].key_of() == key,
        forall|j: int| from <= j < spec_pair_at(rows, key, from) ==> (#[trigger] rows[j]).key_of() != key,
    decreases rows.len() - from,
{
    if from < rows.len() && rows[from].key_of() != key {
        lemma_pair_at(rows, key, from + 1);
    }
}

/// The pair stored under `key`, if there is one.
pub open spec fn spec_get(rows: Seq<PairRow>, key: KeyView) -> Option<PairRow> {
    let at = spec_pair_at(rows, key, 0);
    if 0 <= at < rows.len() {
        Some(rows[at])
    } else {
        None
    }
}

/// The rows after `row` is written: it takes the place of the row with its
/// key, or stands last where there was none.
pub open spec fn spec_put(rows: Seq<PairRow>, row: PairRow) -> Seq<PairRow> {
    let at = spec_pair_at(rows, row.key_of(), 0);
    if 0 <= at < rows.len() {
        rows.update(at, row)
    } else {
        rows.push(row)
    }
}

/// The rows after `new` are written one after the other.
pub open spec fn spec_put_all(rows: Seq<PairRow>, new: Seq<PairRow>) -> Seq<PairRow>
    decreases new.len(),
{
    if new.len() == 0 {
        rows
    } else {
        spec_put_all(spec_put(rows, new[0]), new.drop_first())
    }
}

/// The rows after the row under `key` is removed, if there is one.
pub open spec fn spec_cut(rows: Seq<PairRow>, key: KeyView) -> Seq<PairRow> {
    let at = spec_pair_at(rows, key, 0);
    if 0 <= at < rows.len() {
        rows.remove(at)
    } else {
        rows
    }
}

/// The rows after the rows under `keys` are removed one after the other.
pub open spec fn spec_cut_all(rows: Seq<PairRow>, keys: Seq<KeyView>) -> Seq<PairRow>
    decreases keys.len(),
{
    if keys.len() == 0 {
        rows
    } else {
        spec_cut_all(spec_cut(rows, keys[0]), keys.drop_first())
    }
}

/// The rows of the namespace `namespace` of `project`.
pub open spec fn in_namespace(project: u128, namespace: Seq<char>) -> spec_fn(PairRow) -> bool {
    |row: PairRow| row.project_id == project && row.namespace@ == namespace
}

/// The rows outside the namespace `namespace` of `project`.
pub open spec fn outside_namespace(project: u128, namespace: Seq<char>) -> spec_fn(
    PairRow,
) -> bool {
    |row: PairRow| !(row.project_id == project && row.namespace@ == namespace)
}

/// The rows of other projects than `project`.
pub open spec fn outside_project(project: u128) -> spec_fn(PairRow) -> bool {
    |row: PairRow| row.project_id != project
}

/// Writing a row keeps the keys apart.
pub proof fn lemma_put_keeps_distinct(rows: Seq<PairRow>, row: PairRow)
    requires
        rows_distinct(rows),
    ensures
        rows_distinct(spec_put(rows, row)),
        spec_get(spec_put(rows, row), row.key_of()) == Some(row),
{
    lemma_pair_at(rows, row.key_of(), 0);
    let at = spec_pair_at(rows, row.key_of(), 0);
    let after = spec_put(rows, row);
    if at < rows.len() {
        assert forall|i: int, j: int| 0 <= i < j < after.len() implies (
        #[trigger] after[i]).key_of() != (#[trigger] after[j]).key_of() by {
            assert(after[i].key_of() == rows[i].key_of());
            assert(after[j].key_of() == rows[j].key_of());
        }
    } else {
        assert forall|i: int, j: int| 0 <= i < j < after.len() implies (
        #[trigger] after[i]).key_of() != (#[trigger] after[j]).key_of() by {
            if j < rows.len() {
                assert(after[i] == rows[i] && after[j] == rows[j]);
            } else {
                assert(after[i] == rows[i]);
            }
        }
    }
    lemma_pair_at(after, row.key_of(), 0);
    let found = spec_pair_at(after, row.key_of(), 0);
    if at < rows.len() {
        assert(after[at].key_of() == row.key_of());
        if found != at {
            if found < at {
                assert(after[found].key_of() == row.key_of());
            }
        }
        assert(found == at);
    } else {
        assert(after[rows.len() as int] == row);
        if found < rows.len() {
            assert(after[found] == rows[found]);
        }
        assert(found == rows.len());
    }
}

/// Removing a row keeps the keys apart, and nothing is then stored under
/// the key that went.
pub proof fn lemma_cut_keeps_distinct(rows: Seq<PairRow>, key: KeyView)
    requires
        rows_distinct(rows),
    ensures
        rows_distinct(spec_cut(rows, key)),
        spec_get(spec_cut(rows, key), key) is None,
{
    lemma_pair_at(rows, key, 0);
    let at = spec_pair_at(rows, key, 0);
    let after = spec_cut(rows, key);
    if at < rows.len() {
        rows.remove_ensures(at);
        assert forall|i: int| 0 <= i < after.len() implies (#[trigger] after[i]) == (if i < at {
            rows[i]
        } else {
            rows[i + 1]
        }) by {}
        assert(rows_distinct(after));
        lemma_pair_at(after, key, 0);
        let found = spec_pair_at(after, key, 0);
        if found < after.len() {
            if found < at {
                assert(after[found] == rows[found]);
            } else {
                assert(after[found] == rows[found + 1]);
                assert(rows[at].key_of() != rows[found + 1].key_of());
            }
        }
    } else {
        lemma_pair_at(after, key, 0);
    }
}

/// Dropping rows keeps the keys apart.
pub proof fn lemma_filter_keeps_distinct(rows: Seq<PairRow>, keep: spec_fn(PairRow) -> bool)
    requires
        rows_distinct(rows),
    ensures
        rows_distinct(rows.filter(keep)),
{
    let after = rows.filter(keep);
    let origin = lemma_filter_origins(rows, keep);
    assert forall|i: int, j: int| 0 <= i < j < after.len() implies (#[trigger] after[i]).key_of()
        != (#[trigger] after[j]).key_of() by {
        assert(origin[i] < origin[j]);
        assert(after[i] == rows[origin[i]] && after[j] == rows[origin[j]]);
    }
}

/// The page of `all` that starts at `start`: at most `page_size` items.
/// A start behind the last item gives an empty page.
pub open spec fn spec_page<A>(all: Seq<A>, page_size: int, start: int) -> Seq<A> {
    all.subrange(
        crate::paging::at_most(start, all.len() as int),
        crate::paging::at_most(start + page_size, all.len() as int),
    )
}

/// Where the page behind the page at `start` starts, if items are left
/// behind that page: what the continuation token of the page says.
pub open spec fn spec_next(len: int, page_size: int, start: int) -> Option<int> {
    if start + page_size < len {
        Some(start + page_size)
    } else {
        None
    }
}

/// The items of `all` that a listing shows, page after page, when it
/// starts at `start` and goes on at each token until none is handed out.
pub open spec fn spec_walk<A>(all: Seq<A>, page_size: int, start: int) -> Seq<A>
    decreases all.len() - start,
{
    if page_size <= 0 || start < 0 {
        Seq::empty()
    } else {
        match spec_next(all.len() as int, page_size, start) {
            Some(next) => spec_page(all, page_size, start) + spec_walk(all, page_size, next),
            None => spec_page(all, page_size, start),
        }
    }
}

/// Going on at each token from the first page until no token is handed
/// out shows every item once, in order, whatever the size of the pages.
pub proof fn lemma_walk_shows_all<A>(all: Seq<A>, page_size: int, start: int)
    requires
        page_size > 0,
        0 <= start <= all.len(),
    ensures
        spec_walk(all, page_size, start) == all.subrange(start, all.len() as int),
        start == 0 ==> spec_walk(all, page_size, start) == all,
    decreases all.len() - start,
{
    if start + page_size < all.len() {
        lemma_walk_shows_all(all, page_size, start + page_size);
        assert(all.subrange(start, start + page_size) + all.subrange(
            start + page_size,
            all.len() as int,
        ) =~= all.subrange(start, all.len() as int));
    } else {
        assert(spec_walk(all, page_size, start) =~= all.subrange(start, all.len() as int));
    }
    assert(all.subrange(0, all.len() as int) =~= all);
}

/// What a stored row is shown as when the name of its type is read: the
/// type, or the message that the text names none.
pub open spec fn spec_row_type(type_text: Seq<char>) -> Result<ValueType, Seq<char>> {
    match spec_type_named(type_text) {
        Some(value_type) => Ok(value_type),
        None => Err("Invalid metadata existed for 'type"@),
    }
}

} // verus!
