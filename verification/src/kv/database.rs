//! The table of pairs and the operations on it.

use vstd::prelude::*;
use vstd::string::*;
use vstd::bytes::{
    lemma_auto_spec_u64_to_from_le_bytes, spec_u64_from_le_bytes, spec_u64_to_le_bytes,
    u64_from_le_bytes, u64_to_le_bytes,
};
use crate::codec::{base64_bare, base64_bare_bytes, decode_bare, encode_bare};
use crate::ids::{id_text, parse_id, uuid_of_text};
use crate::kv::model::{
    in_namespace, lemma_cut_keeps_distinct, lemma_filter_keeps_distinct, lemma_pair_at,
    lemma_put_keeps_distinct, outside_namespace, outside_project, pair_shows, rows_distinct,
    spec_cut, spec_cut_all, spec_get, spec_next, spec_page, spec_pair_at, spec_put,
    spec_put_all, spec_row_type,
    stored_ttl, KeyView, ListNamespacesResponse, ListPairsResponse, Namespace, Pair, PairRequest,
    PairRow,
};
use crate::kv::value::ValueType;
use crate::paging::at_most;
use crate::rows::{drop_marked, lemma_filter_next};
use crate::text::{str_eq, views_of};

verus! {

/// What the store refuses with.
#[derive(Clone, Debug, PartialEq, Eq)]
pub enum DatabaseError {
    /// A statement was refused.
    QueryError(String),
    /// A row was expected and none came, or not of the expected shape.
    FirstRowTypedError(String),
    /// A row could not be read.
    FromRowError(String),
    /// What the caller sent cannot be used.
    InvalidError(String),
}

/// The sort of a refusal of the store.
#[derive(Clone, Copy, Debug, PartialEq, Eq, Structural)]
pub enum DatabaseErrorKind {
    Query,
    FirstRowTyped,
    FromRow,
    Invalid,
}

/// A refusal of the store: its sort and what it was made with.
pub type DatabaseRefusal = Option<(DatabaseErrorKind, Seq<char>)>;

impl DatabaseError {
    /// The sort of this refusal.
    pub open spec fn kind(self) -> DatabaseErrorKind {
        match self {
            DatabaseError::QueryError(_) => DatabaseErrorKind::Query,
            DatabaseError::FirstRowTypedError(_) => DatabaseErrorKind::FirstRowTyped,
            DatabaseError::FromRowError(_) => DatabaseErrorKind::FromRow,
            DatabaseError::InvalidError(_) => DatabaseErrorKind::Invalid,
        }
    }

    /// What this refusal was made with.
    pub open spec fn detail(self) -> Seq<char> {
        match self {
            DatabaseError::QueryError(m) => m@,
            DatabaseError::FirstRowTypedError(m) => m@,
            DatabaseError::FromRowError(m) => m@,
            DatabaseError::InvalidError(m) => m@,
        }
    }

    /// What this refusal reads as: the detail, behind a preface where the
    /// caller sent something unusable.
    pub open spec fn text(self) -> Seq<char> {
        match self {
            DatabaseError::InvalidError(m) => "Invalid data provided: "@ + m@,
            _ => self.detail(),
        }
    }

    /// Whether this is the refusal `refusal`.
    pub open spec fn is(self, refusal: DatabaseRefusal) -> bool {
        refusal == Some((self.kind(), self.detail()))
    }

    /// Writes this refusal out.
    pub fn message(&self) -> (text: String)
        ensures
            text@ == self.text(),
    {
        match self {
            DatabaseError::QueryError(m) => m.clone(),
            DatabaseError::FirstRowTypedError(m) => m.clone(),
            DatabaseError::FromRowError(m) => m.clone(),
            DatabaseError::InvalidError(m) => {
                let mut text = String::from_str("Invalid data provided: ");
                text.append(m.as_str());
                text
            },
        }
    }
}

/// What is said of a project identifier that is no UUID.
pub open spec fn bad_project() -> (DatabaseErrorKind, Seq<char>) {
    (DatabaseErrorKind::Invalid, "project id was not a valid uuid"@)
}

/// Reads the identifier of a project.
pub fn project_of(project_id: &str) -> (result: Result<u128, DatabaseError>)
    ensures
        match result {
            Ok(project) => uuid_of_text(project_id@) == Some(project),
            Err(error) => uuid_of_text(project_id@) is None && error.is(Some(bad_project())),
        },
{
    match parse_id(project_id) {
        Some(project) => Ok(project),
        None => Err(
            DatabaseError::InvalidError(String::from_str("project id was not a valid uuid")),
        ),
    }
}

/// The pair that a stored row is shown as, when its columns come one by
/// one and the type as its name.
pub fn row_to_pair(
    ttl: Option<i32>,
    project: u128,
    namespace: String,
    key: String,
    value: String,
    type_text: &str,
) -> (result: Result<Pair, DatabaseError>)
    ensures
        match result {
            Ok(pair) => spec_row_type(type_text@) == Ok::<ValueType, Seq<char>>(pair.value_type)
                && pair_shows(
                pair,
                PairRow { project_id: project, namespace, key, value, value_type: pair.value_type, ttl },
            ),
            Err(error) => spec_row_type(type_text@) == Err::<ValueType, Seq<char>>(error.detail())
                && error.kind() == DatabaseErrorKind::Invalid,
        },
{
    match ValueType::try_from(type_text) {
        Ok(value_type) => Ok(
            Pair { project_id: id_text(project), namespace, key, value, value_type, ttl },
        ),
        Err(message) => Err(DatabaseError::InvalidError(message)),
    }
}

/// The pair that shows a stored row.
pub fn show_pair(row: &PairRow) -> (pair: Pair)
    ensures
        pair_shows(pair, *row),
{
    Pair {
        project_id: id_text(row.project_id),
        namespace: row.namespace.clone(),
        key: row.key.clone(),
        value: row.value.clone(),
        value_type: row.value_type,
        ttl: row.ttl,
    }
}

/// The row that is stored for `pair`.
pub open spec fn row_of(pair: Pair) -> PairRow {
    PairRow {
        project_id: uuid_of_text(pair.project_id@).unwrap(),
        namespace: pair.namespace,
        key: pair.key,
        value: pair.value,
        value_type: pair.value_type,
        ttl: stored_ttl(pair.ttl),
    }
}

/// The rows that are stored for `pairs`.
pub open spec fn rows_of(pairs: Seq<Pair>) -> Seq<PairRow> {
    Seq::new(pairs.len(), |i: int| row_of(pairs[i]))
}

/// The key that `request` names.
pub open spec fn key_named(request: PairRequest) -> KeyView {
    KeyView {
        project_id: uuid_of_text(request.project_id@).unwrap(),
        namespace: request.namespace@,
        key: request.key@,
    }
}

/// The keys that `requests` name.
pub open spec fn keys_named(requests: Seq<PairRequest>) -> Seq<KeyView> {
    Seq::new(requests.len(), |i: int| key_named(requests[i]))
}

/// Why pairs cannot be written, if they cannot: the project of a pair is
/// no UUID, or a pair is to live a negative time.
pub open spec fn set_refusal(pairs: Seq<Pair>) -> DatabaseRefusal {
    if exists|i: int| 0 <= i < pairs.len() && uuid_of_text((#[trigger] pairs[i]).project_id@) is None {
        Some(bad_project())
    } else if exists|i: int|
        0 <= i < pairs.len() && (#[trigger] pairs[i]).ttl is Some && pairs[i].ttl.unwrap() < 0 {
        Some((DatabaseErrorKind::Query, "A TTL must be greater or equal to 0"@))
    } else {
        None
    }
}

/// Why pairs cannot be deleted, if they cannot: the project of a request is
/// no UUID.
pub open spec fn delete_refusal(requests: Seq<PairRequest>) -> DatabaseRefusal {
    if exists|i: int|
        0 <= i < requests.len() && uuid_of_text((#[trigger] requests[i]).project_id@) is None {
        Some(bad_project())
    } else {
        None
    }
}

/// The token that continues a listing at `position`.
pub open spec fn spec_token(position: u64) -> Seq<char> {
    base64_bare(spec_u64_to_le_bytes(position))
}

/// The position that a token continues at, if the text is a token.
pub open spec fn spec_token_position(token: Seq<char>) -> Option<u64> {
    match base64_bare_bytes(token) {
        Some(bytes) => if bytes.len() == 8 {
            Some(spec_u64_from_le_bytes(bytes))
        } else {
            None
        },
        None => None,
    }
}

/// Where a listing starts: at the first pair without a token, else where
/// the token says.
pub open spec fn spec_start(token: Option<Seq<char>>) -> Option<u64> {
    match token {
        Some(text) => spec_token_position(text),
        None => Some(0),
    }
}

/// The bytes that a token stands for, where there is one.
pub open spec fn spec_state(token: Option<Seq<char>>) -> Option<Option<Seq<u8>>> {
    match token {
        Some(text) => match base64_bare_bytes(text) {
            Some(bytes) => Some(Some(bytes)),
            None => None,
        },
        None => Some(None),
    }
}

/// Why a listing cannot be asked of the store, if it cannot: the project
/// is no UUID, the token is no unpadded base64, or the size of the pages
/// is not positive.
pub open spec fn list_request_refusal(
    project_id: Seq<char>,
    page_size: i32,
    token: Option<Seq<char>>,
) -> DatabaseRefusal {
    if uuid_of_text(project_id) is None {
        Some(bad_project())
    } else if spec_state(token) is None {
        Some((DatabaseErrorKind::Invalid, "Invalid token provided"@))
    } else if page_size <= 0 {
        Some((DatabaseErrorKind::Invalid, "page size must be larger than 0"@))
    } else {
        None
    }
}

/// Why a page of pairs cannot be listed, if it cannot: the listing cannot
/// be asked of the store, or the token does not say where to go on.
pub open spec fn list_refusal(
    project_id: Seq<char>,
    page_size: i32,
    token: Option<Seq<char>>,
) -> DatabaseRefusal {
    if list_request_refusal(project_id, page_size, token) is Some {
        list_request_refusal(project_id, page_size, token)
    } else if spec_start(token) is None {
        Some((DatabaseErrorKind::Invalid, "Invalid token provided"@))
    } else {
        None
    }
}

/// What a store is asked for a page: the project, and the state that the
/// token of the page before stands for.
#[derive(Clone, Debug, PartialEq, Eq)]
pub struct ListRequest {
    pub project: u128,
    pub state: Option<Vec<u8>>,
}

/// The view of an optional state.
pub open spec fn optional_bytes(state: Option<Vec<u8>>) -> Option<Seq<u8>> {
    match state {
        Some(bytes) => Some(bytes@),
        None => None,
    }
}

/// Reads what a caller sent for a listing into what the store is asked.
pub fn list_request(project_id: &str, page_size: i32, token: Option<&str>) -> (result: Result<
    ListRequest,
    DatabaseError,
>)
    ensures
        match result {
            Ok(request) => {
                &&& list_request_refusal(project_id@, page_size, optional_view(token)) is None
                &&& Some(request.project) == uuid_of_text(project_id@)
                &&& Some(optional_bytes(request.state)) == spec_state(optional_view(token))
            },
            Err(error) => error.is(
                list_request_refusal(project_id@, page_size, optional_view(token)),
            ),
        },
{
    let project = match project_of(project_id) {
        Ok(value) => value,
        Err(error) => {
            return Err(error);
        },
    };
    let state: Option<Vec<u8>> = match token {
        Some(text) => match decode_bare(text) {
            Some(bytes) => Some(bytes),
            None => {
                return Err(
                    DatabaseError::InvalidError(String::from_str("Invalid token provided")),
                );
            },
        },
        None => None,
    };
    if page_size <= 0 {
        return Err(
            DatabaseError::InvalidError(String::from_str("page size must be larger than 0")),
        );
    }
    Ok(ListRequest { project, state })
}

/// Whether `pairs` show `rows`, one by one.
pub open spec fn pairs_show(pairs: Seq<Pair>, rows: Seq<PairRow>) -> bool {
    pairs.len() == rows.len() && forall|k: int|
        0 <= k < pairs.len() ==> pair_shows(#[trigger] pairs[k], rows[k])
}

/// Writes the token that continues a listing at `position`.
pub fn encode_token(position: u64) -> (token: String)
    ensures
        token@ == spec_token(position),
        spec_token_position(token@) == Some(position),
{
    proof {
        lemma_auto_spec_u64_to_from_le_bytes();
    }
    let bytes = u64_to_le_bytes(position);
    encode_bare(&bytes)
}

/// Reads the position that a token continues at.
pub fn decode_token(token: &str) -> (position: Option<u64>)
    ensures
        position == spec_token_position(token@),
{
    match decode_bare(token) {
        Some(bytes) => {
            if bytes.len() == 8 {
                Some(u64_from_le_bytes(bytes.as_slice()))
            } else {
                None
            }
        },
        None => None,
    }
}

/// Index of the first row stored under the key.
fn pair_index(rows: &Vec<PairRow>, project: u128, namespace: &str, key: &str) -> (at: usize)
    ensures
        at == spec_pair_at(
            rows@,
            KeyView { project_id: project, namespace: namespace@, key: key@ },
            0,
        ),
        at <= rows.len(),
{
    let ghost wanted = KeyView { project_id: project, namespace: namespace@, key: key@ };
    proof {
        lemma_pair_at(rows@, wanted, 0);
    }
    let mut i: usize = 0;
    while i < rows.len()
        invariant
            i <= rows.len(),
            wanted == (KeyView { project_id: project, namespace: namespace@, key: key@ }),
            spec_pair_at(rows@, wanted, 0) == spec_pair_at(rows@, wanted, i as int),
        decreases rows.len() - i,
    {
        let row = &rows[i];
        if row.project_id == project && str_eq(row.namespace.as_str(), namespace) && str_eq(
            row.key.as_str(),
            key,
        ) {
            return i;
        }
        i = i + 1;
    }
    i
}

/// Index of the first of `names` that is `name`, or their number.
fn name_index(names: &Vec<String>, name: &str) -> (at: usize)
    ensures
        at <= names.len(),
        at < names.len() ==> names[at as int]@ == name@,
        forall|k: int| 0 <= k < at ==> (#[trigger] names[k])@ != name@,
{
    let mut at: usize = 0;
    while at < names.len()
        invariant
            at <= names.len(),
            forall|k: int| 0 <= k < at ==> (#[trigger] names[k])@ != name@,
        decreases names.len() - at,
    {
        if str_eq(names[at].as_str(), name) {
            return at;
        }
        at = at + 1;
    }
    at
}

/// The names among `names`, each once, in the order in which they first
/// occur.
pub open spec fn spec_distinct_names(names: Seq<Seq<char>>) -> Seq<Seq<char>>
    decreases names.len(),
{
    if names.len() == 0 {
        Seq::empty()
    } else {
        let before = spec_distinct_names(names.drop_last());
        if before.contains(names.last()) {
            before
        } else {
            before.push(names.last())
        }
    }
}

/// How often `name` occurs among `names`.
pub open spec fn spec_occurrences(names: Seq<Seq<char>>, name: Seq<char>) -> nat
    decreases names.len(),
{
    if names.len() == 0 {
        0
    } else if names.last() == name {
        spec_occurrences(names.drop_last(), name) + 1
    } else {
        spec_occurrences(names.drop_last(), name)
    }
}

/// A name is listed exactly where it occurs, and no name is listed twice.
pub proof fn lemma_distinct_names(names: Seq<Seq<char>>)
    ensures
        forall|name: Seq<char>|
            spec_distinct_names(names).contains(name) <==> #[trigger] spec_occurrences(
                names,
                name,
            ) > 0,
        forall|a: int, b: int|
            0 <= a < b < spec_distinct_names(names).len() ==> #[trigger] spec_distinct_names(
                names,
            )[a] != #[trigger] spec_distinct_names(names)[b],
        spec_distinct_names(names).len() <= names.len(),
    decreases names.len(),
{
    if names.len() > 0 {
        lemma_distinct_names(names.drop_last());
        let before = spec_distinct_names(names.drop_last());
        let after = spec_distinct_names(names);
        let last = names.last();
        if !before.contains(last) {
            assert(after == before.push(last));
            assert(after[before.len() as int] == last);
            assert forall|a: int, b: int| 0 <= a < b < after.len() implies #[trigger] after[a]
                != #[trigger] after[b] by {
                if b == before.len() {
                    assert(before[a] == after[a]);
                    assert(before.contains(before[a]));
                } else {
                    assert(before[a] == after[a] && before[b] == after[b]);
                }
            }
        }
        assert forall|name: Seq<char>| after.contains(name) <==> #[trigger] spec_occurrences(
            names,
            name,
        ) > 0 by {
            let head = names.drop_last();
            assert(before.contains(name) <==> spec_occurrences(head, name) > 0);
            if name == last {
                if before.contains(last) {
                    assert(after == before);
                } else {
                    assert(after[before.len() as int] == last);
                }
                assert(after.contains(name));
            } else {
                if after.contains(name) {
                    let k = choose|k: int| 0 <= k < after.len() && after[k] == name;
                    if k < before.len() {
                        assert(before[k] == name);
                    }
                    assert(before.contains(name));
                }
                if before.contains(name) {
                    let k = choose|k: int| 0 <= k < before.len() && before[k] == name;
                    assert(after[k] == name);
                }
            }
        }
    }
}

/// The namespaces that the rows of `project` lie in, row by row.
pub open spec fn project_names(rows: Seq<PairRow>, project: u128) -> Seq<Seq<char>>
    decreases rows.len(),
{
    if rows.len() == 0 {
        Seq::empty()
    } else if rows.last().project_id == project {
        project_names(rows.drop_last(), project).push(rows.last().namespace@)
    } else {
        project_names(rows.drop_last(), project)
    }
}

/// As many names of a project are a namespace as the namespace holds
/// pairs.
pub proof fn lemma_occurrences_count_pairs(rows: Seq<PairRow>, project: u128, name: Seq<char>)
    ensures
        spec_occurrences(project_names(rows, project), name) == rows.filter(
            in_namespace(project, name),
        ).len(),
    decreases rows.len(),
{
    reveal(Seq::filter);
    if rows.len() > 0 {
        lemma_occurrences_count_pairs(rows.drop_last(), project, name);
        let before = project_names(rows.drop_last(), project);
        if rows.last().project_id == project {
            let after = before.push(rows.last().namespace@);
            assert(after.drop_last() =~= before);
            assert(after.last() == rows.last().namespace@);
        }
    }
}

/// The namespaces of `project` among `rows`, each once, in the order in
/// which they first occur.
pub open spec fn spec_names(rows: Seq<PairRow>, project: u128) -> Seq<Seq<char>> {
    spec_distinct_names(project_names(rows, project))
}

/// The number of pairs in the namespace `name` of `project`.
pub open spec fn spec_count(rows: Seq<PairRow>, project: u128, name: Seq<char>) -> nat {
    rows.filter(in_namespace(project, name)).len()
}

/// Whether `namespaces` tell, under the project text `project_id`, the
/// distinct names among `names` in the order in which they first occur,
/// each with the number of times that it occurs.
pub open spec fn tally_shows(
    namespaces: Seq<Namespace>,
    names: Seq<Seq<char>>,
    project_id: Seq<char>,
) -> bool {
    &&& namespaces.len() == spec_distinct_names(names).len()
    &&& forall|k: int|
        0 <= k < namespaces.len() ==> {
            &&& (#[trigger] namespaces[k]).name@ == spec_distinct_names(names)[k]
            &&& namespaces[k].project_id@ == project_id
            &&& namespaces[k].count == at_most(
                spec_occurrences(names, namespaces[k].name@) as int,
                i32::MAX as int,
            )
        }
}

/// Whether `namespaces` are the namespaces of `project` among `rows` with
/// the number of pairs in each, under the project text `project_id`.
pub open spec fn namespaces_tally(
    namespaces: Seq<Namespace>,
    rows: Seq<PairRow>,
    project: u128,
    project_id: Seq<char>,
) -> bool {
    &&& namespaces.len() == spec_names(rows, project).len()
    &&& forall|k: int|
        0 <= k < namespaces.len() ==> {
            &&& (#[trigger] namespaces[k]).name@ == spec_names(rows, project)[k]
            &&& namespaces[k].project_id@ == project_id
            &&& namespaces[k].count == at_most(
                spec_count(rows, project, namespaces[k].name@) as int,
                i32::MAX as int,
            )
        }
}

/// Counts names: the distinct names in the order in which they first
/// occur, each with the number of times that it occurs, as the namespaces
/// of the project `project_id`.
pub fn tally(project_id: &str, names: &Vec<String>) -> (namespaces: Vec<Namespace>)
    ensures
        tally_shows(namespaces@, views_of(names@), project_id@),
{
    let ghost all = views_of(names@);
    let n: usize = names.len();
    let mut found: Vec<String> = Vec::new();
    let mut counts: Vec<usize> = Vec::new();
    let mut i: usize = 0;
    assert(all.subrange(0, 0) =~= Seq::<Seq<char>>::empty());
    while i < n
        invariant
            i <= n,
            n == names.len(),
            all == views_of(names@),
            found.len() == counts.len(),
            views_of(found@) == spec_distinct_names(all.subrange(0, i as int)),
            forall|k: int|
                0 <= k < counts.len() ==> #[trigger] counts[k] == spec_occurrences(
                    all.subrange(0, i as int),
                    found[k]@,
                ) && counts[k] <= i,
        decreases n - i,
    {
        let name = &names[i];
        let ghost prefix = all.subrange(0, i as int);
        let ghost longer = all.subrange(0, i + 1);
        assert(longer.drop_last() =~= prefix);
        assert(longer.last() == name@);
        let ghost listed = views_of(found@);
        let at: usize = name_index(&found, name.as_str());
        if at < found.len() {
            assert(listed[at as int] == name@);
            assert(listed.contains(name@));
            let more: usize = counts[at] + 1;
            counts.set(at, more);
            proof {
                lemma_distinct_names(prefix);
                assert forall|k: int| 0 <= k < found.len() && k != at implies (
                #[trigger] found[k])@ != name@ by {
                    assert(listed[k] != listed[at as int]);
                }
            }
        } else {
            assert(!listed.contains(name@)) by {
                if listed.contains(name@) {
                    let k = choose|k: int| 0 <= k < listed.len() && listed[k] == name@;
                    assert(found[k]@ == name@);
                }
            }
            proof {
                lemma_distinct_names(prefix);
                assert(spec_occurrences(prefix, name@) == 0);
            }
            found.push(name.clone());
            counts.push(1);
            assert(views_of(found@) =~= listed.push(name@));
        }
        i = i + 1;
    }
    assert(all.subrange(0, n as int) =~= all);
    let mut namespaces: Vec<Namespace> = Vec::new();
    let mut k: usize = 0;
    while k < found.len()
        invariant
            k <= found.len(),
            found.len() == counts.len(),
            namespaces.len() == k,
            views_of(found@) == spec_distinct_names(all),
            forall|j: int|
                0 <= j < counts.len() ==> #[trigger] counts[j] == spec_occurrences(
                    all,
                    found[j]@,
                ),
            forall|j: int|
                0 <= j < k ==> {
                    &&& (#[trigger] namespaces[j]).name@ == found[j]@
                    &&& namespaces[j].project_id@ == project_id@
                    &&& namespaces[j].count == at_most(counts[j] as int, i32::MAX as int)
                },
        decreases found.len() - k,
    {
        let count: i32 = if counts[k] > 2147483647 {
            2147483647
        } else {
            counts[k] as i32
        };
        namespaces.push(
            Namespace { project_id: String::from_str(project_id), name: found[k].clone(), count },
        );
        k = k + 1;
    }
    proof {
        assert forall|j: int| 0 <= j < namespaces.len() implies (#[trigger] namespaces[j]).name@
            == spec_distinct_names(all)[j] by {
            assert(views_of(found@)[j] == found[j]@);
        }
    }
    namespaces
}

/// The table of pairs.
pub struct Database {
    rows: Vec<PairRow>,
}

impl Database {
    /// The stored pairs, in the order in which their keys were first
    /// written.
    pub closed spec fn rows(&self) -> Seq<PairRow> {
        self.rows@
    }

    /// What holds of the table between any two operations: no key occurs
    /// twice.
    pub open spec fn wf(&self) -> bool {
        rows_distinct(self.rows())
    }

    /// An empty table.
    pub fn new() -> (database: Database)
        ensures
            database.wf(),
            database.rows().len() == 0,
    {
        Database { rows: Vec::new() }
    }

    /// The pair stored under a key, if there is one.
    pub fn get(&self, project_id: &str, namespace: &str, key: &str) -> (result: Result<
        Option<Pair>,
        DatabaseError,
    >)
        ensures
            match result {
                Ok(found) => uuid_of_text(project_id@) is Some && match spec_get(
                    self.rows(),
                    KeyView {
                        project_id: uuid_of_text(project_id@).unwrap(),
                        namespace: namespace@,
                        key: key@,
                    },
                ) {
                    Some(row) => found is Some && pair_shows(found.unwrap(), row),
                    None => found is None,
                },
                Err(error) => uuid_of_text(project_id@) is None && error.is(Some(bad_project())),
            },
    {
        let project = match project_of(project_id) {
            Ok(value) => value,
            Err(error) => {
                return Err(error);
            },
        };
        let at = pair_index(&self.rows, project, namespace, key);
        if at < self.rows.len() {
            Ok(Some(show_pair(&self.rows[at])))
        } else {
            Ok(None)
        }
    }

    /// Writes pairs, each in the place of the pair with its key or behind
    /// all others. Nothing is written where one of the pairs is refused.
    pub fn set(&mut self, pairs: Vec<Pair>) -> (result: Result<(), DatabaseError>)
        requires
            old(self).wf(),
        ensures
            final(self).wf(),
            match result {
                Ok(_) => set_refusal(pairs@) is None && final(self).rows() == spec_put_all(
                    old(self).rows(),
                    rows_of(pairs@),
                ),
                Err(error) => final(self).rows() == old(self).rows() && error.is(
                    set_refusal(pairs@),
                ),
            },
    {
        let ghost before = self.rows@;
        let mut projects: Vec<u128> = Vec::new();
        let mut negative: bool = false;
        let mut i: usize = 0;
        while i < pairs.len()
            invariant
                i <= pairs.len(),
                self.rows@ == before,
                rows_distinct(before),
                projects.len() == i,
                forall|k: int|
                    0 <= k < i ==> uuid_of_text((#[trigger] pairs[k]).project_id@) == Some(
                        projects[k],
                    ),
                negative == exists|k: int|
                    0 <= k < i && (#[trigger] pairs[k]).ttl is Some && pairs[k].ttl.unwrap() < 0,
            decreases pairs.len() - i,
        {
            let pair = &pairs[i];
            match project_of(pair.project_id.as_str()) {
                Ok(value) => {
                    projects.push(value);
                },
                Err(error) => {
                    return Err(error);
                },
            }
            match pair.ttl {
                Some(seconds) => {
                    if seconds < 0 {
                        negative = true;
                    }
                },
                None => {},
            }
            i = i + 1;
        }
        if negative {
            return Err(
                DatabaseError::QueryError(
                    String::from_str("A TTL must be greater or equal to 0"),
                ),
            );
        }
        let ghost all = rows_of(pairs@);
        assert(all.subrange(0, all.len() as int) =~= all);
        let mut done: usize = 0;
        while done < pairs.len()
            invariant
                done <= pairs.len(),
                projects.len() == pairs.len(),
                all == rows_of(pairs@),
                forall|k: int|
                    0 <= k < pairs.len() ==> uuid_of_text((#[trigger] pairs[k]).project_id@)
                        == Some(projects[k]),
                rows_distinct(self.rows@),
                spec_put_all(before, all) == spec_put_all(
                    self.rows@,
                    all.subrange(done as int, all.len() as int),
                ),
            decreases pairs.len() - done,
        {
            let pair = &pairs[done];
            let row = PairRow {
                project_id: projects[done],
                namespace: pair.namespace.clone(),
                key: pair.key.clone(),
                value: pair.value.clone(),
                value_type: pair.value_type,
                ttl: match pair.ttl {
                    Some(seconds) => if seconds == 0 {
                        None
                    } else {
                        Some(seconds)
                    },
                    None => None,
                },
            };
            let ghost rest = all.subrange(done as int, all.len() as int);
            assert(row == all[done as int]);
            assert(rest[0] == row);
            assert(rest.drop_first() =~= all.subrange(done + 1, all.len() as int));
            proof {
                lemma_put_keeps_distinct(self.rows@, row);
            }
            let found = pair_index(
                &self.rows,
                row.project_id,
                row.namespace.as_str(),
                row.key.as_str(),
            );
            if found < self.rows.len() {
                self.rows.set(found, row);
            } else {
                self.rows.push(row);
            }
            done = done + 1;
        }
        assert(all.subrange(all.len() as int, all.len() as int) =~= Seq::<PairRow>::empty());
        Ok(())
    }

    /// Deletes the pairs under the keys that are named. Nothing is deleted
    /// where one of the requests is refused.
    pub fn delete(&mut self, pairs: Vec<PairRequest>) -> (result: Result<(), DatabaseError>)
        requires
            old(self).wf(),
        ensures
            final(self).wf(),
            match result {
                Ok(_) => delete_refusal(pairs@) is None && final(self).rows() == spec_cut_all(
                    old(self).rows(),
                    keys_named(pairs@),
                ),
                Err(error) => final(self).rows() == old(self).rows() && error.is(
                    delete_refusal(pairs@),
                ),
            },
    {
        let ghost before = self.rows@;
        let mut projects: Vec<u128> = Vec::new();
        let mut i: usize = 0;
        while i < pairs.len()
            invariant
                i <= pairs.len(),
                self.rows@ == before,
                rows_distinct(before),
                projects.len() == i,
                forall|k: int|
                    0 <= k < i ==> uuid_of_text((#[trigger] pairs[k]).project_id@) == Some(
                        projects[k],
                    ),
            decreases pairs.len() - i,
        {
            match project_of(pairs[i].project_id.as_str()) {
                Ok(value) => {
                    projects.push(value);
                },
                Err(error) => {
                    return Err(error);
                },
            }
            i = i + 1;
        }
        let ghost keys = keys_named(pairs@);
        assert(keys.subrange(0, keys.len() as int) =~= keys);
        let mut done: usize = 0;
        while done < pairs.len()
            invariant
                done <= pairs.len(),
                projects.len() == pairs.len(),
                keys == keys_named(pairs@),
                forall|k: int|
                    0 <= k < pairs.len() ==> uuid_of_text((#[trigger] pairs[k]).project_id@)
                        == Some(projects[k]),
                rows_distinct(self.rows@),
                spec_cut_all(before, keys) == spec_cut_all(
                    self.rows@,
                    keys.subrange(done as int, keys.len() as int),
                ),
            decreases pairs.len() - done,
        {
            let request = &pairs[done];
            let ghost rest = keys.subrange(done as int, keys.len() as int);
            assert(rest[0] == keys[done as int]);
            assert(rest.drop_first() =~= keys.subrange(done + 1, keys.len() as int));
            proof {
                lemma_cut_keeps_distinct(self.rows@, keys[done as int]);
            }
            let found = pair_index(
                &self.rows,
                projects[done],
                request.namespace.as_str(),
                request.key.as_str(),
            );
            if found < self.rows.len() {
                self.rows.remove(found);
            }
            done = done + 1;
        }
        assert(keys.subrange(keys.len() as int, keys.len() as int) =~= Seq::<KeyView>::empty());
        Ok(())
    }

    /// Deletes every pair of a namespace of a project.
    pub fn delete_namespace(&mut self, project_id: &str, namespace: &str) -> (result: Result<
        (),
        DatabaseError,
    >)
        requires
            old(self).wf(),
        ensures
            final(self).wf(),
            match result {
                Ok(_) => uuid_of_text(project_id@) is Some && final(self).rows() == old(
                    self,
                ).rows().filter(
                    outside_namespace(uuid_of_text(project_id@).unwrap(), namespace@),
                ),
                Err(error) => final(self).rows() == old(self).rows() && uuid_of_text(
                    project_id@,
                ) is None && error.is(Some(bad_project())),
            },
    {
        let project = match project_of(project_id) {
            Ok(value) => value,
            Err(error) => {
                return Err(error);
            },
        };
        let mut gone: Vec<bool> = Vec::new();
        let mut i: usize = 0;
        while i < self.rows.len()
            invariant
                i <= self.rows.len(),
                gone.len() == i,
                forall|k: int|
                    0 <= k < i ==> #[trigger] gone[k] == !outside_namespace(project, namespace@)(
                        self.rows[k],
                    ),
            decreases self.rows.len() - i,
        {
            let row = &self.rows[i];
            gone.push(row.project_id == project && str_eq(row.namespace.as_str(), namespace));
            i = i + 1;
        }
        proof {
            lemma_filter_keeps_distinct(self.rows@, outside_namespace(project, namespace@));
        }
        drop_marked(&mut self.rows, &gone, Ghost(outside_namespace(project, namespace@)));
        Ok(())
    }

    /// Deletes every pair of a project.
    pub fn delete_project(&mut self, project_id: &str) -> (result: Result<(), DatabaseError>)
        requires
            old(self).wf(),
        ensures
            final(self).wf(),
            match result {
                Ok(_) => uuid_of_text(project_id@) is Some && final(self).rows() == old(
                    self,
                ).rows().filter(outside_project(uuid_of_text(project_id@).unwrap())),
                Err(error) => final(self).rows() == old(self).rows() && uuid_of_text(
                    project_id@,
                ) is None && error.is(Some(bad_project())),
            },
    {
        let project = match project_of(project_id) {
            Ok(value) => value,
            Err(error) => {
                return Err(error);
            },
        };
        let mut gone: Vec<bool> = Vec::new();
        let mut i: usize = 0;
        while i < self.rows.len()
            invariant
                i <= self.rows.len(),
                gone.len() == i,
                forall|k: int|
                    0 <= k < i ==> #[trigger] gone[k] == !outside_project(project)(self.rows[k]),
            decreases self.rows.len() - i,
        {
            gone.push(self.rows[i].project_id == project);
            i = i + 1;
        }
        proof {
            lemma_filter_keeps_distinct(self.rows@, outside_project(project));
        }
        drop_marked(&mut self.rows, &gone, Ghost(outside_project(project)));
        Ok(())
    }

    /// Lists one page of the pairs of a namespace. Without a token the
    /// listing starts at the first pair; with the token of an earlier page
    /// it goes on behind that page. A token comes back exactly where pairs
    /// are left behind this page.
    pub fn list(&self, project_id: &str, namespace: &str, page_size: i32, token: Option<&str>) -> (result:
        Result<ListPairsResponse, DatabaseError>)
        ensures
            match result {
                Ok(response) => {
                    let all = self.rows().filter(
                        in_namespace(uuid_of_text(project_id@).unwrap(), namespace@),
                    );
                    let start = spec_start(optional_view(token)).unwrap() as int;
                    &&& list_refusal(project_id@, page_size, optional_view(token)) is None
                    &&& response.page_size == page_size
                    &&& pairs_show(response.pairs@, spec_page(all, page_size as int, start))
                    &&& match spec_next(all.len() as int, page_size as int, start) {
                        Some(next) => response.token is Some && spec_token_position(
                            response.token.unwrap()@,
                        ) == Some(next as u64) && response.token.unwrap()@ == spec_token(
                            next as u64,
                        ),
                        None => response.token is None,
                    }
                },
                Err(error) => error.is(
                    list_refusal(project_id@, page_size, optional_view(token)),
                ),
            },
    {
        let request = match list_request(project_id, page_size, token) {
            Ok(request) => request,
            Err(error) => {
                return Err(error);
            },
        };
        let project = request.project;
        let start: u64 = match &request.state {
            Some(bytes) => {
                if bytes.len() == 8 {
                    u64_from_le_bytes(bytes.as_slice())
                } else {
                    return Err(
                        DatabaseError::InvalidError(String::from_str("Invalid token provided")),
                    );
                }
            },
            None => 0,
        };
        let size: u64 = page_size as u64;
        let ghost keep = in_namespace(project, namespace@);
        let ghost rows = self.rows@;
        let n: usize = self.rows.len();
        let mut pairs: Vec<Pair> = Vec::new();
        let ghost mut shown: Seq<PairRow> = Seq::empty();
        let mut seen: usize = 0;
        let mut i: usize = 0;
        assert(rows.subrange(0, 0).filter(keep) =~= Seq::empty()) by {
            reveal(Seq::filter);
        }
        while i < n
            invariant
                i <= n,
                n == rows.len(),
                rows == self.rows@,
                keep == in_namespace(project, namespace@),
                size == page_size,
                page_size > 0,
                seen == rows.subrange(0, i as int).filter(keep).len(),
                seen <= i,
                shown == rows.subrange(0, i as int).filter(keep).subrange(
                    at_most(start as int, seen as int),
                    at_most(start + size, seen as int),
                ),
                pairs_show(pairs@, shown),
            decreases n - i,
        {
            let row = &self.rows[i];
            proof {
                lemma_filter_next(rows, keep, i as int);
            }
            let ghost before = rows.subrange(0, i as int).filter(keep);
            if row.project_id == project && str_eq(row.namespace.as_str(), namespace) {
                if start <= seen as u64 && (seen as u64) - start < size {
                    pairs.push(show_pair(row));
                    proof {
                        let longer = before.push(rows[i as int]);
                        let grown = longer.subrange(
                            at_most(start as int, seen + 1),
                            at_most(start + size, seen + 1),
                        );
                        assert(grown =~= shown.push(rows[i as int]));
                        shown = grown;
                    }
                } else {
                    proof {
                        let longer = before.push(rows[i as int]);
                        let same = longer.subrange(
                            at_most(start as int, seen + 1),
                            at_most(start + size, seen + 1),
                        );
                        assert(same =~= shown);
                        shown = same;
                    }
                }
                seen = seen + 1;
            }
            i = i + 1;
        }
        assert(rows.subrange(0, n as int) =~= rows);
        let token: Option<String> = if start < seen as u64 && (seen as u64) - start > size {
            Some(encode_token(start + size))
        } else {
            None
        };
        Ok(ListPairsResponse { page_size, token, pairs })
    }

    /// The namespaces of a project, each with the number of its pairs, in
    /// the order in which they first occur.
    pub fn get_namespaces(&self, project_id: &str) -> (result: Result<
        ListNamespacesResponse,
        DatabaseError,
    >)
        ensures
            match result {
                Ok(response) => uuid_of_text(project_id@) is Some && namespaces_tally(
                    response.namespaces@,
                    self.rows(),
                    uuid_of_text(project_id@).unwrap(),
                    project_id@,
                ),
                Err(error) => uuid_of_text(project_id@) is None && error.is(Some(bad_project())),
            },
    {
        let project = match project_of(project_id) {
            Ok(value) => value,
            Err(error) => {
                return Err(error);
            },
        };
        let ghost rows = self.rows@;
        let n: usize = self.rows.len();
        let mut names: Vec<String> = Vec::new();
        let mut i: usize = 0;
        assert(rows.subrange(0, 0) =~= Seq::<PairRow>::empty());
        while i < n
            invariant
                i <= n,
                n == rows.len(),
                rows == self.rows@,
                views_of(names@) == project_names(rows.subrange(0, i as int), project),
            decreases n - i,
        {
            let row = &self.rows[i];
            let ghost longer = rows.subrange(0, i + 1);
            assert(longer.drop_last() =~= rows.subrange(0, i as int));
            assert(longer.last() == rows[i as int]);
            if row.project_id == project {
                let ghost before = views_of(names@);
                names.push(row.namespace.clone());
                assert(views_of(names@) =~= before.push(row.namespace@));
            }
            i = i + 1;
        }
        assert(rows.subrange(0, n as int) =~= rows);
        let namespaces = tally(project_id, &names);
        proof {
            assert forall|k: int| 0 <= k < namespaces.len() implies spec_occurrences(
                project_names(rows, project),
                (#[trigger] namespaces[k]).name@,
            ) == spec_count(rows, project, namespaces[k].name@) by {
                lemma_occurrences_count_pairs(rows, project, namespaces[k].name@);
            }
        }
        Ok(ListNamespacesResponse { namespaces })
    }
}

/// The view of an optional string slice.
pub open spec fn optional_view(text: Option<&str>) -> Option<Seq<char>> {
    match text {
        Some(value) => Some(value@),
        None => None,
    }
}

/// A pair that was written is what is stored under its key.
pub proof fn lemma_get_after_set(rows: Seq<PairRow>, row: PairRow)
    requires
        rows_distinct(rows),
    ensures
        spec_get(spec_put(rows, row), row.key_of()) == Some(row),
{
    lemma_put_keeps_distinct(rows, row);
}

/// Nothing is stored under a key after it was deleted.
pub proof fn lemma_get_after_delete(rows: Seq<PairRow>, key: KeyView)
    requires
        rows_distinct(rows),
    ensures
        spec_get(spec_cut(rows, key), key) is None,
{
    lemma_cut_keeps_distinct(rows, key);
}

} // verus!
