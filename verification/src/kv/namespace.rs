//! The handle that a script holds on one namespace of its project.

use vstd::prelude::*;
use vstd::string::*;
use crate::error::{ErrorKind, ScriptError, ScriptErrorKind, Status};
use crate::ids::uuid_of_text;
use crate::kv::kv_service::KvService;
use crate::kv::database::{rows_of, keys_named};
use crate::kv::model::{
    lemma_cut_keeps_distinct, lemma_put_keeps_distinct, rows_distinct, spec_cut, spec_cut_all,
    spec_get, spec_put, spec_put_all, KeyView, Pair, PairRequest, PairRow,
};
use crate::kv::value::{
    from_service_value, into_service_value, lemma_value_round_trip, spec_loaded, spec_stored,
    spec_unstorable, value_sound, ScriptValue, ScriptValueView, ValueType,
};

verus! {

/// What a script handed in for one key.
#[derive(Clone, Debug, PartialEq, Eq)]
pub struct Entry {
    pub key: String,
    pub value: ScriptValue,
}

/// What the service is asked to do for a script.
#[derive(Clone, Debug, PartialEq, Eq)]
pub enum KvRequest {
    /// Write these pairs.
    Write(Vec<Pair>),
    /// Delete the pairs under these keys.
    Remove(Vec<PairRequest>),
}

/// The extension that gives a script the pairs of its project.
#[derive(Clone, Debug, PartialEq, Eq)]
pub struct KvExtension {
    pub project_id: String,
}

impl KvExtension {
    /// What the extension says of itself.
    pub fn extension_info(&self) -> (info: crate::runtime::ExtensionInfo<'static>)
        ensures
            info.name@ == "kv"@,
            info.description@ == "Key Value store for persistent data"@,
            info.default,
    {
        crate::runtime::ExtensionInfo {
            name: "kv",
            description: "Key Value store for persistent data",
            default: true,
        }
    }

    /// The handle on the namespace `namespace` of the project.
    pub fn get_namespace(&self, namespace: String) -> (handle: KvNamespace)
        ensures
            handle.project_id@ == self.project_id@,
            handle.namespace == namespace,
    {
        KvNamespace { project_id: self.project_id.clone(), namespace }
    }
}

/// One namespace of one project, as a script sees it.
#[derive(Clone, Debug, PartialEq, Eq)]
pub struct KvNamespace {
    pub project_id: String,
    pub namespace: String,
}

/// What the answer of the service to a read means to the script: the
/// value of the pair; nil where there is none; a runtime error with the
/// text of any other status.
pub open spec fn spec_reply(reply: Result<Pair, Status>) -> Result<
    ScriptValueView,
    (ScriptErrorKind, Seq<char>),
> {
    match reply {
        Ok(pair) => spec_loaded(pair.value_type, pair.value@),
        Err(status) => if status.kind == ErrorKind::NotFound {
            Ok(ScriptValueView::Nil)
        } else {
            Err((ScriptErrorKind::Runtime, status.message@))
        },
    }
}

/// What a script reads under `key` where `rows` are stored: the value of
/// the row under the key, nil where there is none.
pub open spec fn spec_read(rows: Seq<PairRow>, key: KeyView) -> Result<
    ScriptValueView,
    (ScriptErrorKind, Seq<char>),
> {
    match spec_get(rows, key) {
        Some(row) => spec_loaded(row.value_type, row.value@),
        None => Ok(ScriptValueView::Nil),
    }
}

/// What a script is told when the project of its handle is no UUID.
pub open spec fn bad_project_text() -> Seq<char> {
    "Invalid data provided: "@ + "project id was not a valid uuid"@
}

/// Whether `result` is the outcome `outcome`.
pub open spec fn outcome_is(
    result: Result<ScriptValue, ScriptError>,
    outcome: Result<ScriptValueView, (ScriptErrorKind, Seq<char>)>,
) -> bool {
    match result {
        Ok(value) => outcome == Ok::<ScriptValueView, (ScriptErrorKind, Seq<char>)>(value@),
        Err(error) => outcome == Err::<ScriptValueView, (ScriptErrorKind, Seq<char>)>(
            (error.kind(), error.text()),
        ),
    }
}

/// Turns the answer of the service to a read into what the script gets.
pub fn read_reply(reply: Result<Pair, Status>) -> (result: Result<ScriptValue, ScriptError>)
    ensures
        outcome_is(result, spec_reply(reply)),
{
    match reply {
        Ok(pair) => from_service_value(pair.value_type, pair.value.as_str()),
        Err(status) => {
            if status.kind == ErrorKind::NotFound {
                Ok(ScriptValue::Nil)
            } else {
                Err(ScriptError::RuntimeError(status.message))
            }
        },
    }
}

impl KvNamespace {
    /// The key `key` of this namespace.
    pub open spec fn key_view(&self, key: Seq<char>) -> KeyView {
        KeyView {
            project_id: uuid_of_text(self.project_id@).unwrap(),
            namespace: self.namespace@,
            key,
        }
    }

    /// Whether `pair` holds `value_type` and `text` under `key` of this
    /// namespace, to stay.
    pub open spec fn holds(&self, pair: Pair, key: Seq<char>, value_type: ValueType, text: Seq<char>) -> bool {
        &&& pair.project_id@ == self.project_id@
        &&& pair.namespace@ == self.namespace@
        &&& pair.key@ == key
        &&& pair.value@ == text
        &&& pair.value_type == value_type
        &&& pair.ttl is None
    }

    /// Whether `request` names `key` of this namespace.
    pub open spec fn names(&self, request: PairRequest, key: Seq<char>) -> bool {
        &&& request.project_id@ == self.project_id@
        &&& request.namespace@ == self.namespace@
        &&& request.key@ == key
    }

    /// The handle on the namespace `namespace` of the project `project_id`.
    pub fn new(project_id: &str, namespace: &str) -> (handle: KvNamespace)
        ensures
            handle.project_id@ == project_id@,
            handle.namespace@ == namespace@,
    {
        KvNamespace {
            project_id: String::from_str(project_id),
            namespace: String::from_str(namespace),
        }
    }

    /// The request that names `key`.
    pub fn request_for(&self, key: &str) -> (request: PairRequest)
        ensures
            self.names(request, key@),
    {
        PairRequest {
            project_id: self.project_id.clone(),
            namespace: self.namespace.clone(),
            key: String::from_str(key),
        }
    }

    /// What the service is asked when a script sets `key` to `value`: to
    /// write the pair, or to delete it where the value is nil. Values that
    /// cannot be stored are an error.
    pub fn set_request(&self, key: &str, value: &ScriptValue) -> (result: Result<
        KvRequest,
        ScriptError,
    >)
        ensures
            match result {
                Ok(KvRequest::Write(pairs)) => spec_stored(value@) is Some && pairs.len() == 1
                    && self.holds(
                    pairs[0],
                    key@,
                    spec_stored(value@).unwrap().0,
                    spec_stored(value@).unwrap().1,
                ),
                Ok(KvRequest::Remove(requests)) => value@ is Nil && requests.len() == 1
                    && self.names(requests[0], key@),
                Err(error) => spec_unstorable(value@) == Some(error.text()) && error.kind()
                    == ScriptErrorKind::Serialize,
            },
    {
        match into_service_value(value) {
            Ok(Some((value_type, text))) => {
                let mut pairs: Vec<Pair> = Vec::new();
                pairs.push(
                    Pair {
                        project_id: self.project_id.clone(),
                        namespace: self.namespace.clone(),
                        key: String::from_str(key),
                        value: text,
                        value_type,
                        ttl: None,
                    },
                );
                Ok(KvRequest::Write(pairs))
            },
            Ok(None) => {
                let mut requests: Vec<PairRequest> = Vec::new();
                requests.push(self.request_for(key));
                Ok(KvRequest::Remove(requests))
            },
            Err(error) => Err(error),
        }
    }

    /// Reads the value under `key`: nil where nothing is stored.
    pub fn get(&self, service: &KvService, key: &str) -> (result: Result<ScriptValue, ScriptError>)
        requires
            service.wf(),
        ensures
            uuid_of_text(self.project_id@) is Some ==> outcome_is(
                result,
                spec_read(service.rows(), self.key_view(key@)),
            ),
            uuid_of_text(self.project_id@) is None ==> result is Err && result.unwrap_err().is(
                ScriptErrorKind::Runtime,
                bad_project_text(),
            ),
    {
        let request = self.request_for(key);
        read_reply(service.get_pair(&request))
    }

    /// Sets `key` to `value`; nil deletes the key. What was written is
    /// what is then stored under the key, and after nil nothing is.
    pub fn set(&self, service: &mut KvService, key: &str, value: &ScriptValue) -> (result: Result<
        (),
        ScriptError,
    >)
        requires
            old(service).wf(),
        ensures
            final(service).wf(),
            match result {
                Ok(_) => uuid_of_text(self.project_id@) is Some && match spec_stored(value@) {
                    Some((value_type, text)) => exists|row: PairRow|
                        {
                            &&& #[trigger] row.key_of() == self.key_view(key@)
                            &&& row.value@ == text
                            &&& row.value_type == value_type
                            &&& row.ttl is None
                            &&& final(service).rows() == spec_put(old(service).rows(), row)
                            &&& spec_get(final(service).rows(), self.key_view(key@)) == Some(row)
                        },
                    None => value@ is Nil && final(service).rows() == spec_cut(
                        old(service).rows(),
                        self.key_view(key@),
                    ) && spec_get(final(service).rows(), self.key_view(key@)) is None,
                },
                Err(error) => final(service).rows() == old(service).rows() && match spec_unstorable(
                    value@,
                ) {
                    Some(reason) => error.is(ScriptErrorKind::Serialize, reason),
                    None => uuid_of_text(self.project_id@) is None && error.is(
                        ScriptErrorKind::Runtime,
                        bad_project_text(),
                    ),
                },
            },
    {
        match self.set_request(key, value) {
            Ok(KvRequest::Write(pairs)) => {
                let ghost rows = rows_of(pairs@);
                let ghost before = service.rows();
                match service.set_pairs(pairs) {
                    Ok(_) => {
                        proof {
                            assert(rows.drop_first() =~= Seq::<PairRow>::empty());
                            assert(spec_put_all(spec_put(before, rows[0]), rows.drop_first())
                                == spec_put(before, rows[0]));
                            assert(rows[0].key_of() == self.key_view(key@));
                            lemma_put_keeps_distinct(before, rows[0]);
                        }
                        Ok(())
                    },
                    Err(status) => {
                        assert(uuid_of_text(self.project_id@) is None);
                        Err(ScriptError::RuntimeError(status.message))
                    },
                }
            },
            Ok(KvRequest::Remove(requests)) => {
                let ghost keys = keys_named(requests@);
                let ghost before = service.rows();
                match service.delete_pairs(requests) {
                    Ok(_) => {
                        proof {
                            assert(keys.drop_first() =~= Seq::<KeyView>::empty());
                            assert(spec_cut_all(spec_cut(before, keys[0]), keys.drop_first())
                                == spec_cut(before, keys[0]));
                            assert(keys[0] == self.key_view(key@));
                            lemma_cut_keeps_distinct(before, keys[0]);
                        }
                        Ok(())
                    },
                    Err(status) => Err(ScriptError::RuntimeError(status.message)),
                }
            },
            Err(error) => Err(error),
        }
    }

    /// What the service is asked when a script sets many keys at once: the
    /// pairs to write for the values that are stored, and the requests to
    /// delete for the values that are nil. One value that cannot be
    /// stored makes the whole batch an error, that of the first such
    /// value.
    pub fn batch_request(&self, entries: &Vec<Entry>) -> (result: Result<
        (Vec<Pair>, Vec<PairRequest>),
        ScriptError,
    >)
        ensures
            match result {
                Ok((writes, removals)) => {
                    &&& spec_first_unstorable(entries@, 0) == entries.len()
                    &&& batch_parts(*self, entries@, writes@, removals@)
                },
                Err(error) => {
                    let first = spec_first_unstorable(entries@, 0);
                    &&& first < entries.len()
                    &&& error.kind() == ScriptErrorKind::Serialize
                    &&& spec_unstorable(entries[first].value@) == Some(error.text())
                },
            },
    {
        let mut to_set: Vec<Pair> = Vec::new();
        let mut to_delete: Vec<PairRequest> = Vec::new();
        let mut i: usize = 0;
        proof {
            lemma_first_unstorable(entries@, 0);
            assert(entries@.subrange(0, 0) =~= Seq::<Entry>::empty());
        }
        while i < entries.len()
            invariant
                i <= entries.len(),
                spec_first_unstorable(entries@, 0) == spec_first_unstorable(entries@, i as int),
                batch_parts(*self, entries@.subrange(0, i as int), to_set@, to_delete@),
            decreases entries.len() - i,
        {
            let entry = &entries[i];
            let ghost longer = entries@.subrange(0, i + 1);
            assert(longer.drop_last() =~= entries@.subrange(0, i as int));
            assert(longer.last() == entries@[i as int]);
            match into_service_value(&entry.value) {
                Ok(Some((value_type, text))) => {
                    let ghost before = to_set@;
                    to_set.push(
                        Pair {
                            project_id: self.project_id.clone(),
                            namespace: self.namespace.clone(),
                            key: entry.key.clone(),
                            value: text,
                            value_type,
                            ttl: None,
                        },
                    );
                    assert(to_set@.drop_last() =~= before);
                },
                Ok(None) => {
                    let ghost before = to_delete@;
                    to_delete.push(self.request_for(entry.key.as_str()));
                    assert(to_delete@.drop_last() =~= before);
                },
                Err(error) => {
                    return Err(error);
                },
            }
            i = i + 1;
        }
        assert(entries@.subrange(0, entries.len() as int) =~= entries@);
        Ok((to_set, to_delete))
    }

    /// Sets many keys at once: the values that are nil delete their keys,
    /// the others are written, and the writing comes first. Nothing is done
    /// where one value cannot be stored.
    pub fn set_batch(&self, service: &mut KvService, entries: &Vec<Entry>) -> (result: Result<
        (),
        ScriptError,
    >)
        requires
            old(service).wf(),
        ensures
            final(service).wf(),
            match result {
                Ok(_) => {
                    &&& spec_first_unstorable(entries@, 0) == entries.len()
                    &&& exists|writes: Seq<Pair>, removals: Seq<PairRequest>|
                        {
                            &&& #[trigger] batch_parts(*self, entries@, writes, removals)
                            &&& final(service).rows() == spec_cut_all(
                                spec_put_all(old(service).rows(), rows_of(writes)),
                                keys_named(removals),
                            )
                        }
                },
                Err(error) => {
                    let first = spec_first_unstorable(entries@, 0);
                    &&& final(service).rows() == old(service).rows()
                    &&& if first < entries.len() {
                        error.kind() == ScriptErrorKind::Serialize && spec_unstorable(
                            entries[first].value@,
                        ) == Some(error.text())
                    } else {
                        entries.len() > 0 && uuid_of_text(self.project_id@) is None && error.is(
                            ScriptErrorKind::Runtime,
                            bad_project_text(),
                        )
                    }
                },
            },
    {
        let (to_set, to_delete) = match self.batch_request(entries) {
            Ok(parts) => parts,
            Err(error) => {
                return Err(error);
            },
        };
        let ghost writes = to_set@;
        let ghost removals = to_delete@;
        let ghost before = service.rows();
        let wrote: bool = to_set.len() > 0;
        proof {
            if !wrote {
                assert(rows_of(writes) =~= Seq::<PairRow>::empty());
            }
            if removals.len() == 0 {
                assert(keys_named(removals) =~= Seq::<KeyView>::empty());
            }
            lemma_parts_belong(*self, entries@, writes, removals);
        }
        if wrote {
            match service.set_pairs(to_set) {
                Ok(_) => {},
                Err(status) => {
                    assert(uuid_of_text(self.project_id@) is None);
                    return Err(ScriptError::RuntimeError(status.message));
                },
            }
        }
        if to_delete.len() > 0 {
            match service.delete_pairs(to_delete) {
                Ok(_) => {},
                Err(status) => {
                    proof {
                        assert(uuid_of_text(self.project_id@) is None);
                        if wrote {
                            assert(uuid_of_text(writes[0].project_id@) is Some);
                        }
                    }
                    return Err(ScriptError::RuntimeError(status.message));
                },
            }
        }
        Ok(())
    }

    /// The keys of this namespace that `keys` name.
    pub open spec fn keys_of(&self, keys: Seq<String>) -> Seq<KeyView> {
        Seq::new(keys.len(), |i: int| self.key_view(keys[i]@))
    }

    /// The requests that name `keys`.
    pub fn delete_request(&self, keys: &Vec<String>) -> (requests: Vec<PairRequest>)
        ensures
            requests.len() == keys.len(),
            forall|k: int| 0 <= k < keys.len() ==> self.names(#[trigger] requests[k], keys[k]@),
    {
        let mut requests: Vec<PairRequest> = Vec::new();
        let mut i: usize = 0;
        while i < keys.len()
            invariant
                i <= keys.len(),
                requests.len() == i,
                forall|k: int| 0 <= k < i ==> self.names(#[trigger] requests[k], keys[k]@),
            decreases keys.len() - i,
        {
            requests.push(self.request_for(keys[i].as_str()));
            i = i + 1;
        }
        requests
    }

    /// Deletes the pairs under `keys`.
    pub fn delete(&self, service: &mut KvService, keys: &Vec<String>) -> (result: Result<
        (),
        ScriptError,
    >)
        requires
            old(service).wf(),
        ensures
            final(service).wf(),
            match result {
                Ok(_) => {
                    &&& uuid_of_text(self.project_id@) is Some || keys.len() == 0
                    &&& final(service).rows() == spec_cut_all(
                        old(service).rows(),
                        self.keys_of(keys@),
                    )
                },
                Err(error) => final(service).rows() == old(service).rows() && uuid_of_text(
                    self.project_id@,
                ) is None && keys.len() > 0 && error.is(
                    ScriptErrorKind::Runtime,
                    bad_project_text(),
                ),
            },
    {
        let requests = self.delete_request(keys);
        let ghost asked = requests@;
        proof {
            assert(keys_named(asked) =~= self.keys_of(keys@));
        }
        match service.delete_pairs(requests) {
            Ok(_) => {
                assert(keys.len() > 0 ==> uuid_of_text(asked[0].project_id@) is Some);
                Ok(())
            },
            Err(status) => {
                assert(uuid_of_text(asked[0].project_id@) is None || asked.len() == 0);
                Err(ScriptError::RuntimeError(status.message))
            },
        }
    }
}

/// Index of the first entry at or after `from` whose value cannot be
/// stored, or the number of entries.
pub open spec fn spec_first_unstorable(entries: Seq<Entry>, from: int) -> int
    decreases entries.len() - from,
{
    if from < 0 || from >= entries.len() {
        entries.len() as int
    } else if spec_unstorable(entries[from].value@) is Some {
        from
    } else {
        spec_first_unstorable(entries, from + 1)
    }
}

/// What [`spec_first_unstorable`] finds lies in range.
pub proof fn lemma_first_unstorable(entries: Seq<Entry>, from: int)
    requires
        0 <= from <= entries.len(),
    ensures
        from <= spec_first_unstorable(entries, from) <= entries.len(),
        spec_first_unstorable(entries, from) < entries.len() ==> spec_unstorable(
            entries[spec_first_unstorable(entries, from)].value@,
        ) is Some,
    decreases entries.len() - from,
{
    if from < entries.len() && spec_unstorable(entries[from].value@) is None {
        lemma_first_unstorable(entries, from + 1);
    }
}

/// Whether `writes` and `removals` are what a batch of `entries` asks of
/// the service: in the order of the entries, a pair for each value that is
/// stored, to stay, and a request for each value that is nil.
pub open spec fn batch_parts(
    handle: KvNamespace,
    entries: Seq<Entry>,
    writes: Seq<Pair>,
    removals: Seq<PairRequest>,
) -> bool
    decreases entries.len(),
{
    if entries.len() == 0 {
        writes.len() == 0 && removals.len() == 0
    } else {
        let entry = entries.last();
        match spec_stored(entry.value@) {
            Some((value_type, text)) => {
                &&& writes.len() > 0
                &&& handle.holds(writes.last(), entry.key@, value_type, text)
                &&& batch_parts(handle, entries.drop_last(), writes.drop_last(), removals)
            },
            None => {
                &&& entry.value@ is Nil
                &&& removals.len() > 0
                &&& handle.names(removals.last(), entry.key@)
                &&& batch_parts(handle, entries.drop_last(), writes, removals.drop_last())
            },
        }
    }
}

/// Every pair and every request of a batch is under the project of the
/// handle.
proof fn lemma_parts_belong(
    handle: KvNamespace,
    entries: Seq<Entry>,
    writes: Seq<Pair>,
    removals: Seq<PairRequest>,
)
    requires
        batch_parts(handle, entries, writes, removals),
    ensures
        forall|k: int|
            0 <= k < writes.len() ==> (#[trigger] writes[k]).project_id@ == handle.project_id@
                && writes[k].ttl is None,
        forall|k: int|
            0 <= k < removals.len() ==> (#[trigger] removals[k]).project_id@
                == handle.project_id@,
        writes.len() + removals.len() == entries.len(),
    decreases entries.len(),
{
    if entries.len() > 0 {
        let entry = entries.last();
        match spec_stored(entry.value@) {
            Some(_) => {
                lemma_parts_belong(handle, entries.drop_last(), writes.drop_last(), removals);
                assert forall|k: int| 0 <= k < writes.len() implies (
                #[trigger] writes[k]).project_id@ == handle.project_id@ && writes[k].ttl is None by {
                    if k < writes.len() - 1 {
                        assert(writes.drop_last()[k] == writes[k]);
                    }
                }
            },
            None => {
                lemma_parts_belong(handle, entries.drop_last(), writes, removals.drop_last());
                assert forall|k: int| 0 <= k < removals.len() implies (
                #[trigger] removals[k]).project_id@ == handle.project_id@ by {
                    if k < removals.len() - 1 {
                        assert(removals.drop_last()[k] == removals[k]);
                    }
                }
            },
        }
    }
}

/// A value that a script sets under a key is the value that it reads from
/// that key afterwards, of the type it had: whatever row holds the stored
/// form of the value under the key, the row that is found under the key
/// after the write reads as the value.
pub proof fn lemma_set_then_get(rows: Seq<PairRow>, row: PairRow, value: ScriptValueView)
    requires
        rows_distinct(rows),
        value_sound(value),
        !(value is Vector),
        spec_stored(value) == Some((row.value_type, row.value@)),
    ensures
        spec_get(spec_put(rows, row), row.key_of()) == Some(row),
        spec_read(spec_put(rows, row), row.key_of()) == Ok::<
            ScriptValueView,
            (ScriptErrorKind, Seq<char>),
        >(value),
        spec_loaded(row.value_type, row.value@) == Ok::<
            ScriptValueView,
            (ScriptErrorKind, Seq<char>),
        >(value),
{
    lemma_put_keeps_distinct(rows, row);
    lemma_value_round_trip(value);
}

/// A key that a script sets to nil reads as nil afterwards, whatever was
/// stored under it: the rows that are left hold nothing under the key, and
/// a key that holds nothing reads as nil.
pub proof fn lemma_nil_then_get(handle: KvNamespace, rows: Seq<PairRow>, key: Seq<char>)
    requires
        rows_distinct(rows),
    ensures
        rows_distinct(spec_cut(rows, handle.key_view(key))),
        spec_get(spec_cut(rows, handle.key_view(key)), handle.key_view(key)) is None,
        spec_read(spec_cut(rows, handle.key_view(key)), handle.key_view(key)) == Ok::<
            ScriptValueView,
            (ScriptErrorKind, Seq<char>),
        >(ScriptValueView::Nil),
{
    lemma_cut_keeps_distinct(rows, handle.key_view(key));
}

} // verus!
