//! The worker: how a request finds its script, and what is answered at
//! each turn of its handling.

use vstd::prelude::*;
use vstd::string::*;
use vstd::utf8::encode_utf8;
use crate::bundle::Bundle;
use crate::error::{spec_http_status, ErrorKind, ScriptError, Status};
use crate::headers::{header_pairs, spec_collected};
use crate::http::{
    headers_cleaned, response_refusal, spec_body_bytes, spec_sent, spec_status,
    spec_version_text, text_of_uri, Header, HttpResponse, Request, Response, Uri, UriView,
    Version,
};
use crate::script_service::model::{Revision, Script};
use crate::text::{chars_of, index_of, lemma_index_of, spec_index_of, substring};

verus! {

/// The routing label and the rest of a path: the label is what stands
/// between the first slash and the next, the rest begins at that next slash
/// and is empty where there is none. A path without a slash has no label,
/// and neither has one with nothing between its first slash and the next.
pub open spec fn spec_route(path: Seq<char>) -> Option<(Seq<char>, Seq<char>)> {
    let first = spec_index_of(path, '/', 0);
    let second = spec_index_of(path, '/', first + 1);
    if first >= path.len() || second == first + 1 {
        None
    } else {
        Some((path.subrange(first + 1, second), path.subrange(second, path.len() as int)))
    }
}

/// The path that a script routes on: the rest of the path behind the
/// label, or a single slash where nothing is left.
pub open spec fn spec_context_path(rest: Seq<char>) -> Seq<char> {
    if rest.len() == 0 {
        "/"@
    } else {
        rest
    }
}

/// The URI that a script routes on: the URI that came in, its path without
/// the label.
pub open spec fn spec_context_uri(uri: UriView) -> Option<UriView> {
    match spec_route(uri.path) {
        Some((_, rest)) => Some(
            UriView {
                scheme: uri.scheme,
                authority: uri.authority,
                path: spec_context_path(rest),
                query: uri.query,
            },
        ),
        None => None,
    }
}

/// Splits a path into the routing label and the rest.
pub fn route(path: &str) -> (parts: Option<(String, String)>)
    ensures
        match parts {
            Some((label, rest)) => spec_route(path@) == Some((label@, rest@)),
            None => spec_route(path@) is None,
        },
{
    let chars = chars_of(path);
    let n: usize = chars.len();
    let first = index_of(&chars, '/', 0);
    if first >= n {
        return None;
    }
    let second = index_of(&chars, '/', first + 1);
    if second == first + 1 {
        return None;
    }
    Some((substring(path, first + 1, second), substring(path, second, n)))
}

/// The URI that a script routes on; `None` where the path has no label.
pub fn context_uri(uri: &Uri) -> (context: Option<Uri>)
    ensures
        match context {
            Some(c) => spec_context_uri(uri@) == Some(c@),
            None => spec_context_uri(uri@) is None,
        },
{
    match route(uri.path.as_str()) {
        Some((_, rest)) => {
            let path = if rest.as_str().unicode_len() == 0 {
                String::from_str("/")
            } else {
                rest
            };
            let copy = uri.duplicate();
            Some(Uri { scheme: copy.scheme, authority: copy.authority, path, query: copy.query })
        },
        None => None,
    }
}

/// A request for `/label/rest…` is routed to `label`, and the script routes
/// on the rest: on a single slash where nothing follows the label. Scheme,
/// authority and query are those of the request. The label is not empty: a
/// path without one is routed nowhere.
pub proof fn lemma_route_strips_label(uri: UriView, label: Seq<char>, rest: Seq<char>)
    requires
        uri.path == seq!['/'] + label + rest,
        label.len() > 0,
        forall|i: int| 0 <= i < label.len() ==> label[i] != '/',
        rest.len() == 0 || rest[0] == '/',
    ensures
        spec_route(uri.path) == Some((label, rest)),
        spec_context_uri(uri) == Some(
            UriView {
                scheme: uri.scheme,
                authority: uri.authority,
                path: if rest.len() == 0 {
                    "/"@
                } else {
                    rest
                },
                query: uri.query,
            },
        ),
{
    let path = uri.path;
    assert(path[0] == '/');
    assert(spec_index_of(path, '/', 0) == 0);
    lemma_index_of(path, '/', 1);
    let second = spec_index_of(path, '/', 1);
    let end = 1 + label.len();
    if second < end {
        assert(path[second] == label[second - 1]);
    }
    if second > end {
        assert(path[end as int] == rest[0]);
    }
    assert(second == end);
    assert(path.subrange(1, second) =~= label);
    assert(path.subrange(second, path.len() as int) =~= rest);
}

/// What came in, in plain values.
#[derive(Clone, Debug, PartialEq, Eq)]
pub struct Incoming {
    pub uri: Uri,
    pub method: String,
    pub headers: Vec<Header>,
    pub version: Version,
    pub body: Vec<u8>,
}

/// What a script may know of itself.
#[derive(Clone, Debug, PartialEq, Eq)]
pub struct ScriptInfo {
    /// The routing label of the script.
    pub identifier: String,
    pub project_id: String,
}

/// Where the handling of a request stands.
#[derive(Debug, PartialEq, Eq)]
pub enum WorkerState {
    /// Nothing has come in yet.
    Start,
    /// The script was asked for.
    AwaitScript { request: Incoming },
    /// The current revision of the script was asked for.
    AwaitRevision { request: Incoming, script: Script },
    /// The sandbox is being built.
    AwaitRuntime { request: Incoming },
    /// The handler of the script runs.
    AwaitHandler,
    /// The answer went out.
    Done,
}

/// What happened outside.
#[derive(Debug, PartialEq, Eq)]
pub enum WorkerEvent {
    /// A request came in.
    Received(Incoming),
    /// The script service answered the question for the script.
    ScriptAnswer(Result<Script, Status>),
    /// The script service answered the question for the revision.
    RevisionAnswer(Result<Revision, Status>),
    /// The sandbox was built and the entry point ran, or not.
    RuntimeBuilt(Result<(), ScriptError>),
    /// The script registered no handler.
    HandlerMissing,
    /// The handler returned, or raised an error.
    HandlerAnswer(Result<Response, ScriptError>),
}

/// What is to be done outside.
#[derive(Debug, PartialEq, Eq)]
pub enum WorkerAction {
    /// Ask the script service for the script with this routing label.
    QueryScript { public_identifier: String },
    /// Ask the script service for this revision.
    GetRevision { id: String, with_bundle: bool },
    /// Build the sandbox from this bundle and run its entry point.
    BuildRuntime { script: ScriptInfo, bundle: Bundle },
    /// Call the handler of the script with this request.
    InvokeHandler { request: Request },
    /// Send this response.
    Respond(HttpResponse),
}

/// What the body of an answer says of an error.
pub open spec fn error_body(message: Seq<char>) -> Seq<char> {
    "Error handling request: "@ + message
}

/// Whether `action` is to answer with `status` and the text `body`, without
/// headers.
pub open spec fn answers(action: WorkerAction, status: u16, body: Seq<char>) -> bool {
    action matches WorkerAction::Respond(response) && response.status == status
        && response.headers.len() == 0 && response.body@ == encode_utf8(body)
}

/// Whether `action` is to answer that the handling failed with an error of
/// the kind `kind` that says `message`.
pub open spec fn answers_error(action: WorkerAction, kind: ErrorKind, message: Seq<char>) -> bool {
    answers(action, spec_http_status(kind), error_body(message))
}

/// The answer with `status` and the text `body`.
fn respond(status: u16, body: &str) -> (action: WorkerAction)
    ensures
        answers(action, status, body@),
{
    WorkerAction::Respond(
        HttpResponse { status, headers: Vec::new(), body: body.as_bytes_vec() },
    )
}

/// The answer for an error of the kind `kind` that says `message`.
fn respond_error(kind: ErrorKind, message: &str) -> (action: WorkerAction)
    ensures
        answers_error(action, kind, message@),
{
    let mut body = String::from_str("Error handling request: ");
    body.append(message);
    respond(kind.http_status(), body.as_str())
}

/// Whether `request` is what a script is handed for `incoming`.
pub open spec fn hands_over(request: Request, incoming: Incoming) -> bool {
    &&& text_of_uri(request.uri, incoming.uri@)
    &&& request.context_uri is Some
    &&& text_of_uri(
        request.context_uri.unwrap(),
        match spec_context_uri(incoming.uri@) {
            Some(context) => context,
            None => incoming.uri@,
        },
    )
    &&& request.method is Some
    &&& request.method.unwrap()@ == incoming.method@
    &&& request.wf()
    &&& header_pairs(request.headers@) == spec_collected(header_pairs(incoming.headers@))
    &&& request.version is Some
    &&& request.version.unwrap()@ == spec_version_text(incoming.version)
    &&& request.body is Some
    &&& spec_body_bytes(request.body.unwrap()) == incoming.body@
}

/// Whether `action` sends what the script returned.
pub open spec fn sends(action: WorkerAction, response: Response) -> bool {
    action matches WorkerAction::Respond(out) && out.status == spec_status(response.status_code)
        && out.wf() && headers_cleaned(out.headers@, spec_sent(response.headers)) && out.body@
        == match response.body {
        Some(body) => spec_body_bytes(body),
        None => Seq::empty(),
    }
}

/// What follows from `event` in `state`: the next state and what is to be
/// done.
///
/// A request without a routing label is answered with 404, and so is a
/// script without a current revision. An error of the script service is
/// answered with 404 where something was not found and with 500 otherwise;
/// every error from the sandbox is answered with 500 and its text. An event
/// that the state does not wait for ends the handling with 500.
pub open spec fn step_meets(
    state: WorkerState,
    event: WorkerEvent,
    next: WorkerState,
    action: WorkerAction,
) -> bool {
    match (state, event) {
        (WorkerState::Start, WorkerEvent::Received(incoming)) => match spec_route(
            incoming.uri.path@,
        ) {
            Some((label, _)) => {
                &&& next matches WorkerState::AwaitScript { request } && request == incoming
                &&& action matches WorkerAction::QueryScript { public_identifier }
                    && public_identifier@ == label
            },
            None => next is Done && answers(action, 404, "Invalid script"@),
        },
        (WorkerState::AwaitScript { request }, WorkerEvent::ScriptAnswer(Ok(found))) => match found.current_revision_id {
            Some(revision) => {
                &&& next matches WorkerState::AwaitRevision { request: kept, script } && kept
                    == request && script == found
                &&& action matches WorkerAction::GetRevision { id, with_bundle } && id@
                    == revision@ && with_bundle
            },
            None => next is Done && answers(action, 404, "Script did not have a revision."@),
        },
        (WorkerState::AwaitScript { request }, WorkerEvent::ScriptAnswer(Err(status))) => {
            next is Done && answers_error(action, status.kind, status.message@)
        },
        (
            WorkerState::AwaitRevision { request, script },
            WorkerEvent::RevisionAnswer(Ok(revision)),
        ) => match revision.bundle {
            Some(bundle) => {
                &&& next matches WorkerState::AwaitRuntime { request: kept } && kept == request
                &&& action matches WorkerAction::BuildRuntime { script: info, bundle: handed }
                    && info.identifier@ == script.public_identifier@ && info.project_id@
                    == script.project_id@ && handed == bundle
            },
            None => next is Done && answers_error(
                action,
                ErrorKind::Internal,
                "Revision did not have a bundle."@,
            ),
        },
        (
            WorkerState::AwaitRevision { request, script },
            WorkerEvent::RevisionAnswer(Err(status)),
        ) => next is Done && answers_error(action, status.kind, status.message@),
        (WorkerState::AwaitRuntime { request }, WorkerEvent::RuntimeBuilt(Ok(_))) => {
            &&& next is AwaitHandler
            &&& action matches WorkerAction::InvokeHandler { request: handed } && hands_over(
                handed,
                request,
            )
        },
        (WorkerState::AwaitRuntime { request }, WorkerEvent::RuntimeBuilt(Err(error))) => {
            next is Done && answers_error(action, ErrorKind::ScriptRuntime, error.text())
        },
        (WorkerState::AwaitHandler, WorkerEvent::HandlerMissing) => next is Done
            && answers_error(
            action,
            ErrorKind::ScriptRuntime,
            "No listener is registered for the fetch event."@,
        ),
        (WorkerState::AwaitHandler, WorkerEvent::HandlerAnswer(Ok(response))) => {
            &&& next is Done
            &&& match response_refusal(response) {
                Some(reason) => answers_error(action, ErrorKind::ScriptRuntime, reason),
                None => sends(action, response),
            }
        },
        (WorkerState::AwaitHandler, WorkerEvent::HandlerAnswer(Err(error))) => {
            next is Done && answers_error(action, ErrorKind::ScriptRuntime, error.text())
        },
        _ => next is Done && answers_error(action, ErrorKind::Internal, "unexpected event"@),
    }
}

/// Takes one turn in the handling of a request; see [`step_meets`].
pub fn step(state: WorkerState, event: WorkerEvent) -> (turn: (WorkerState, WorkerAction))
    ensures
        step_meets(state, event, turn.0, turn.1),
{
    match (state, event) {
        (WorkerState::Start, WorkerEvent::Received(incoming)) => {
            match route(incoming.uri.path.as_str()) {
                Some((label, _)) => (
                    WorkerState::AwaitScript { request: incoming },
                    WorkerAction::QueryScript { public_identifier: label },
                ),
                None => (WorkerState::Done, respond(404, "Invalid script")),
            }
        },
        (WorkerState::AwaitScript { request }, WorkerEvent::ScriptAnswer(Ok(found))) => {
            let revision: Option<String> = match &found.current_revision_id {
                Some(id) => Some(id.clone()),
                None => None,
            };
            match revision {
                Some(id) => (
                    WorkerState::AwaitRevision { request, script: found },
                    WorkerAction::GetRevision { id, with_bundle: true },
                ),
                None => (WorkerState::Done, respond(404, "Script did not have a revision.")),
            }
        },
        (WorkerState::AwaitScript { request }, WorkerEvent::ScriptAnswer(Err(status))) => (
            WorkerState::Done,
            respond_error(status.kind, status.message.as_str()),
        ),
        (
            WorkerState::AwaitRevision { request, script },
            WorkerEvent::RevisionAnswer(Ok(revision)),
        ) => {
            match revision.bundle {
                Some(bundle) => (
                    WorkerState::AwaitRuntime { request },
                    WorkerAction::BuildRuntime {
                        script: ScriptInfo {
                            identifier: script.public_identifier,
                            project_id: script.project_id,
                        },
                        bundle,
                    },
                ),
                None => (
                    WorkerState::Done,
                    respond_error(ErrorKind::Internal, "Revision did not have a bundle."),
                ),
            }
        },
        (
            WorkerState::AwaitRevision { request, script },
            WorkerEvent::RevisionAnswer(Err(status)),
        ) => (WorkerState::Done, respond_error(status.kind, status.message.as_str())),
        (WorkerState::AwaitRuntime { request }, WorkerEvent::RuntimeBuilt(Ok(_))) => {
            let context = context_uri(&request.uri);
            let handed = match &context {
                Some(c) => Request::new(
                    &request.uri,
                    Some(c),
                    request.method.as_str(),
                    request.headers,
                    request.version,
                    request.body,
                ),
                None => Request::new(
                    &request.uri,
                    None,
                    request.method.as_str(),
                    request.headers,
                    request.version,
                    request.body,
                ),
            };
            (WorkerState::AwaitHandler, WorkerAction::InvokeHandler { request: handed })
        },
        (WorkerState::AwaitRuntime { request }, WorkerEvent::RuntimeBuilt(Err(error))) => (
            WorkerState::Done,
            respond_error(ErrorKind::ScriptRuntime, error.message().as_str()),
        ),
        (WorkerState::AwaitHandler, WorkerEvent::HandlerMissing) => (
            WorkerState::Done,
            respond_error(
                ErrorKind::ScriptRuntime,
                "No listener is registered for the fetch event.",
            ),
        ),
        (WorkerState::AwaitHandler, WorkerEvent::HandlerAnswer(Ok(response))) => {
            match response.into_http() {
                Ok(out) => (WorkerState::Done, WorkerAction::Respond(out)),
                Err(error) => (
                    WorkerState::Done,
                    respond_error(ErrorKind::ScriptRuntime, error.message().as_str()),
                ),
            }
        },
        (WorkerState::AwaitHandler, WorkerEvent::HandlerAnswer(Err(error))) => (
            WorkerState::Done,
            respond_error(ErrorKind::ScriptRuntime, error.message().as_str()),
        ),
        _ => (WorkerState::Done, respond_error(ErrorKind::Internal, "unexpected event")),
    }
}

} // verus!
