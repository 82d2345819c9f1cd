//! The operations of the key/value service as callers see them: what the
//! table answers, with its refusals turned into statuses.

use vstd::prelude::*;
use vstd::string::*;
use crate::error::{ErrorKind, Status};
use crate::ids::uuid_of_text;
use crate::kv::database::{
    bad_project, delete_refusal, key_named, keys_named, list_refusal, namespaces_tally,
    optional_view, pairs_show, rows_of, set_refusal, spec_start, spec_token,
    spec_token_position, Database, DatabaseError, DatabaseErrorKind, DatabaseRefusal,
};
use crate::kv::model::{
    in_namespace, outside_namespace, outside_project, pair_shows, rows_distinct, spec_cut_all,
    spec_get, spec_next, spec_page, spec_put_all, ListNamespacesResponse, ListPairsResponse,
    Pair, PairRequest, PairRow,
};


verus! {

/// The kind of status that a refusal of the table surfaces as: an invalid
/// argument where the caller sent something unusable, an internal error
/// for everything else.
pub open spec fn spec_status_kind(kind: DatabaseErrorKind) -> ErrorKind {
    match kind {
        DatabaseErrorKind::Invalid => ErrorKind::InvalidArgument,
        _ => ErrorKind::Internal,
    }
}

/// What a refusal of the table reads as.
pub open spec fn spec_refusal_text(kind: DatabaseErrorKind, detail: Seq<char>) -> Seq<char> {
    match kind {
        DatabaseErrorKind::Invalid => "Invalid data provided: "@ + detail,
        _ => detail,
    }
}

/// Whether `status` is what the refusal `refusal` surfaces as.
pub open spec fn surfaces(status: Status, refusal: DatabaseRefusal) -> bool {
    match refusal {
        Some((kind, detail)) => status.is(spec_status_kind(kind), spec_refusal_text(kind, detail)),
        None => false,
    }
}

/// The status that a refusal of the table surfaces as.
pub fn status_of(error: &DatabaseError) -> (status: Status)
    ensures
        surfaces(status, Some((error.kind(), error.detail()))),
        status.message@ == error.text(),
{
    let kind = match error {
        DatabaseError::InvalidError(_) => ErrorKind::InvalidArgument,
        _ => ErrorKind::Internal,
    };
    Status::with_text(kind, error.message())
}

/// What is said when no pair is stored under a key.
pub open spec fn not_found_text(key: Seq<char>, namespace: Seq<char>) -> Seq<char> {
    "'"@ + key + "' was not found in '"@ + namespace + "' namespace."@
}

/// The status that says that no pair is stored under the key that
/// `request` names.
pub fn not_found(request: &PairRequest) -> (status: Status)
    ensures
        status.is(ErrorKind::NotFound, not_found_text(request.key@, request.namespace@)),
{
    let mut message = String::from_str("'");
    message.append(request.key.as_str());
    message.append("' was not found in '");
    message.append(request.namespace.as_str());
    message.append("' namespace.");
    Status::with_text(ErrorKind::NotFound, message)
}

/// What a caller is answered for a pair that was looked up: the pair, the
/// status that there is none, or the status that the refusal of the store
/// surfaces as.
pub fn pair_answer(request: &PairRequest, found: Result<Option<Pair>, DatabaseError>) -> (result:
    Result<Pair, Status>)
    ensures
        match found {
            Ok(Some(pair)) => result == Ok::<Pair, Status>(pair),
            Ok(None) => result is Err && result.unwrap_err().is(
                ErrorKind::NotFound,
                not_found_text(request.key@, request.namespace@),
            ),
            Err(error) => result is Err && surfaces(
                result.unwrap_err(),
                Some((error.kind(), error.detail())),
            ),
        },
{
    match found {
        Ok(Some(pair)) => Ok(pair),
        Ok(None) => Err(not_found(request)),
        Err(error) => Err(status_of(&error)),
    }
}

/// The key/value service over its table.
pub struct KvService {
    database: Database,
}

impl KvService {
    /// The stored pairs.
    pub closed spec fn rows(&self) -> Seq<PairRow> {
        self.database.rows()
    }

    /// What holds of the service between any two operations: no two
    /// stored pairs have the same key.
    pub open spec fn wf(&self) -> bool {
        rows_distinct(self.rows())
    }

    /// A service over `database`.
    pub fn new(database: Database) -> (service: KvService)
        requires
            database.wf(),
        ensures
            service.wf(),
            service.rows() == database.rows(),
    {
        KvService { database }
    }

    /// The namespaces of a project with the number of pairs in each.
    pub fn list_namespaces(&self, project_id: &str) -> (result: Result<
        ListNamespacesResponse,
        Status,
    >)
        ensures
            match result {
                Ok(response) => uuid_of_text(project_id@) is Some && namespaces_tally(
                    response.namespaces@,
                    self.rows(),
                    uuid_of_text(project_id@).unwrap(),
                    project_id@,
                ),
                Err(status) => uuid_of_text(project_id@) is None && surfaces(
                    status,
                    Some(bad_project()),
                ),
            },
    {
        match self.database.get_namespaces(project_id) {
            Ok(response) => Ok(response),
            Err(error) => Err(status_of(&error)),
        }
    }

    /// One page of the pairs of a namespace; see [`Database::list`].
    pub fn list_pairs(
        &self,
        project_id: &str,
        namespace: &str,
        page_size: i32,
        token: Option<&str>,
    ) -> (result: Result<ListPairsResponse, Status>)
        ensures
            match result {
                Ok(response) => {
                    let all = self.rows().filter(
                        in_namespace(uuid_of_text(project_id@).unwrap(), namespace@),
                    );
                    let start = spec_start(optional_view(token)).unwrap() as int;
                    &&& list_refusal(project_id@, page_size, optional_view(token)) is None
                    &&& response.page_size == page_size
                    &&& pairs_show(response.pairs@, spec_page(all, page_size as int, start))
                    &&& match spec_next(all.len() as int, page_size as int, start) {
                        Some(next) => response.token is Some && spec_token_position(
                            response.token.unwrap()@,
                        ) == Some(next as u64) && response.token.unwrap()@ == spec_token(
                            next as u64,
                        ),
                        None => response.token is None,
                    }
                },
                Err(status) => surfaces(
                    status,
                    list_refusal(project_id@, page_size, optional_view(token)),
                ),
            },
    {
        match self.database.list(project_id, namespace, page_size, token) {
            Ok(response) => Ok(response),
            Err(error) => Err(status_of(&error)),
        }
    }

    /// Writes pairs; see [`Database::set`].
    pub fn set_pairs(&mut self, pairs: Vec<Pair>) -> (result: Result<(), Status>)
        requires
            old(self).wf(),
        ensures
            final(self).wf(),
            match result {
                Ok(_) => set_refusal(pairs@) is None && final(self).rows() == spec_put_all(
                    old(self).rows(),
                    rows_of(pairs@),
                ),
                Err(status) => final(self).rows() == old(self).rows() && surfaces(
                    status,
                    set_refusal(pairs@),
                ),
            },
    {
        match self.database.set(pairs) {
            Ok(_) => Ok(()),
            Err(error) => Err(status_of(&error)),
        }
    }

    /// The pair stored under a key. That there is none is a status of its
    /// own.
    pub fn get_pair(&self, request: &PairRequest) -> (result: Result<Pair, Status>)
        ensures
            match result {
                Ok(pair) => uuid_of_text(request.project_id@) is Some && spec_get(
                    self.rows(),
                    key_named(*request),
                ) is Some && pair_shows(pair, spec_get(self.rows(), key_named(*request)).unwrap()),
                Err(status) => if uuid_of_text(request.project_id@) is None {
                    surfaces(status, Some(bad_project()))
                } else {
                    spec_get(self.rows(), key_named(*request)) is None && status.is(
                        ErrorKind::NotFound,
                        not_found_text(request.key@, request.namespace@),
                    )
                },
            },
    {
        pair_answer(
            request,
            self.database.get(
                request.project_id.as_str(),
                request.namespace.as_str(),
                request.key.as_str(),
            ),
        )
    }

    /// Deletes pairs; see [`Database::delete`].
    pub fn delete_pairs(&mut self, pairs: Vec<PairRequest>) -> (result: Result<(), Status>)
        requires
            old(self).wf(),
        ensures
            final(self).wf(),
            match result {
                Ok(_) => delete_refusal(pairs@) is None && final(self).rows() == spec_cut_all(
                    old(self).rows(),
                    keys_named(pairs@),
                ),
                Err(status) => final(self).rows() == old(self).rows() && surfaces(
                    status,
                    delete_refusal(pairs@),
                ),
            },
    {
        match self.database.delete(pairs) {
            Ok(_) => Ok(()),
            Err(error) => Err(status_of(&error)),
        }
    }

    /// Deletes every pair of a namespace of a project.
    pub fn delete_namespace(&mut self, project_id: &str, namespace: &str) -> (result: Result<
        (),
        Status,
    >)
        requires
            old(self).wf(),
        ensures
            final(self).wf(),
            match result {
                Ok(_) => uuid_of_text(project_id@) is Some && final(self).rows() == old(
                    self,
                ).rows().filter(
                    outside_namespace(uuid_of_text(project_id@).unwrap(), namespace@),
                ),
                Err(status) => final(self).rows() == old(self).rows() && uuid_of_text(
                    project_id@,
                ) is None && surfaces(status, Some(bad_project())),
            },
    {
        match self.database.delete_namespace(project_id, namespace) {
            Ok(_) => Ok(()),
            Err(error) => Err(status_of(&error)),
        }
    }

    /// Deletes every pair of a project.
    pub fn delete_project(&mut self, project_id: &str) -> (result: Result<(), Status>)
        requires
            old(self).wf(),
        ensures
            final(self).wf(),
            match result {
                Ok(_) => uuid_of_text(project_id@) is Some && final(self).rows() == old(
                    self,
                ).rows().filter(outside_project(uuid_of_text(project_id@).unwrap())),
                Err(status) => final(self).rows() == old(self).rows() && uuid_of_text(
                    project_id@,
                ) is None && surfaces(status, Some(bad_project())),
            },
    {
        match self.database.delete_project(project_id) {
            Ok(_) => Ok(()),
            Err(error) => Err(status_of(&error)),
        }
    }
}

} // verus!
