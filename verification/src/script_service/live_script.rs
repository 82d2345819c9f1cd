//! Live sessions: bundles that stand in for a revision while a script is
//! being worked on, each under a script and a session.

use vstd::prelude::*;
use vstd::string::*;
use crate::bundle::{file_views, Bundle, FileView};
use crate::error::{ErrorKind, Status};
use crate::ids::{fresh_id, id_text, uuid_text};
use crate::rows::drop_marked;
use crate::script_service::model::copy_strings;
use crate::text::{str_eq, views_of};

verus! {

/// The manifest of a script as it travels in messages.
#[derive(Clone, Debug, PartialEq, Eq)]
pub struct ScriptConfig {
    pub id: String,
    pub entry_point: String,
    pub includes: Vec<String>,
    pub ignore: Vec<String>,
}

/// What a caller sends to open a session.
#[derive(Clone, Debug, PartialEq, Eq)]
pub struct LiveScript {
    pub script_id: String,
    pub script_config: ScriptConfig,
    pub bundle: Bundle,
}

/// What a session holds.
#[derive(Clone, Debug, PartialEq, Eq)]
pub struct LiveScriptInstance {
    pub script_config: ScriptConfig,
    pub bundle: Bundle,
}

/// What a session holds, as a value.
pub struct InstanceView {
    pub id: Seq<char>,
    pub entry_point: Seq<char>,
    pub includes: Seq<Seq<char>>,
    pub ignore: Seq<Seq<char>>,
    pub bundle_entry_point: Seq<char>,
    pub files: Seq<FileView>,
}

impl View for LiveScriptInstance {
    type V = InstanceView;

    open spec fn view(&self) -> InstanceView {
        InstanceView {
            id: self.script_config.id@,
            entry_point: self.script_config.entry_point@,
            includes: views_of(self.script_config.includes@),
            ignore: views_of(self.script_config.ignore@),
            bundle_entry_point: self.bundle.entry_point@,
            files: file_views(self.bundle.files@),
        }
    }
}

impl LiveScriptInstance {
    /// A copy of what the session holds.
    pub fn duplicate(&self) -> (copy: LiveScriptInstance)
        ensures
            copy@ == self@,
    {
        LiveScriptInstance {
            script_config: ScriptConfig {
                id: self.script_config.id.clone(),
                entry_point: self.script_config.entry_point.clone(),
                includes: copy_strings(&self.script_config.includes),
                ignore: copy_strings(&self.script_config.ignore),
            },
            bundle: self.bundle.duplicate(),
        }
    }
}

/// What can go wrong with a session.
#[derive(Clone, Debug, PartialEq, Eq)]
pub enum LiveScriptError {
    /// What the caller sent cannot open a session.
    LiveScriptError(String),
    /// The store of the sessions failed.
    RedisError(String),
    /// No connection to the store of the sessions could be had.
    PoolError(String),
}

impl LiveScriptError {
    /// What this error was made with.
    pub open spec fn detail(self) -> Seq<char> {
        match self {
            LiveScriptError::LiveScriptError(m) => m@,
            LiveScriptError::RedisError(m) => m@,
            LiveScriptError::PoolError(m) => m@,
        }
    }

    /// The status that this error surfaces as: an invalid argument where
    /// the caller sent something unusable, an internal error otherwise.
    pub fn into_status(self) -> (status: Status)
        ensures
            status.message@ == self.detail(),
            status.kind == match self {
                LiveScriptError::LiveScriptError(_) => ErrorKind::InvalidArgument,
                _ => ErrorKind::Internal,
            },
    {
        match self {
            LiveScriptError::LiveScriptError(m) => Status {
                kind: ErrorKind::InvalidArgument,
                message: m,
            },
            LiveScriptError::RedisError(m) => Status { kind: ErrorKind::Internal, message: m },
            LiveScriptError::PoolError(m) => Status { kind: ErrorKind::Internal, message: m },
        }
    }
}

/// A stored session.
#[derive(Clone, Debug, PartialEq, Eq)]
pub struct Session {
    pub script_id: String,
    pub session_id: String,
    pub instance: LiveScriptInstance,
}

/// Whether `row` is the session `session` of the script `script`.
pub open spec fn is_session(row: Session, script: Seq<char>, session: Seq<char>) -> bool {
    row.script_id@ == script && row.session_id@ == session
}

/// No two sessions share script and session identifier.
pub open spec fn sessions_distinct(rows: Seq<Session>) -> bool {
    forall|i: int, j: int|
        0 <= i < j < rows.len() ==> !is_session(
            #[trigger] rows[i],
            (#[trigger] rows[j]).script_id@,
            rows[j].session_id@,
        )
}

/// Index of the first session at or after `from` that is the session
/// `session` of `script`, or the number of sessions.
pub open spec fn spec_session_at(
    rows: Seq<Session>,
    script: Seq<char>,
    session: Seq<char>,
    from: int,
) -> int
    decreases rows.len() - from,
{
    if from < 0 || from >= rows.len() {
        rows.len() as int
    } else if is_session(rows[from], script, session) {
        from
    } else {
        spec_session_at(rows, script, session, from + 1)
    }
}

/// What [`spec_session_at`] finds is the first such session.
pub proof fn lemma_session_at(rows: Seq<Session>, script: Seq<char>, session: Seq<char>, from: int)
    requires
        0 <= from <= rows.len(),
    ensures
        from <= spec_session_at(rows, script, session, from) <= rows.len(),
        spec_session_at(rows, script, session, from) < rows.len() ==> is_session(
            rows[spec_session_at(rows, script, session, from)],
            script,
            session,
        ),
        forall|j: int|
            from <= j < spec_session_at(rows, script, session, from) ==> !is_session(
                #[trigger] rows[j],
                script,
                session,
            ),
    decreases rows.len() - from,
{
    if from < rows.len() && !is_session(rows[from], script, session) {
        lemma_session_at(rows, script, session, from + 1);
    }
}

/// What the session `session` of `script` holds, if it is there.
pub open spec fn spec_session(rows: Seq<Session>, script: Seq<char>, session: Seq<char>) -> Option<
    InstanceView,
> {
    let at = spec_session_at(rows, script, session, 0);
    if 0 <= at < rows.len() {
        Some(rows[at].instance@)
    } else {
        None
    }
}

/// The sessions of other scripts than `script`.
pub open spec fn of_other_script(script: Seq<char>) -> spec_fn(Session) -> bool {
    |row: Session| row.script_id@ != script
}

/// The sessions other than the session `session` of `script`.
pub open spec fn other_session(script: Seq<char>, session: Seq<char>) -> spec_fn(Session) -> bool {
    |row: Session| !is_session(row, script, session)
}

/// Dropping sessions keeps the rest apart.
proof fn lemma_filter_keeps_sessions(rows: Seq<Session>, keep: spec_fn(Session) -> bool)
    requires
        sessions_distinct(rows),
    ensures
        sessions_distinct(rows.filter(keep)),
{
    let after = rows.filter(keep);
    let origin = crate::rows::lemma_filter_origins(rows, keep);
    assert forall|i: int, j: int| 0 <= i < j < after.len() implies !is_session(
        #[trigger] after[i],
        (#[trigger] after[j]).script_id@,
        after[j].session_id@,
    ) by {
        assert(origin[i] < origin[j]);
        assert(after[i] == rows[origin[i]] && after[j] == rows[origin[j]]);
    }
}

/// Keeps the live sessions.
pub struct LiveScriptManager {
    sessions: Vec<Session>,
}

impl LiveScriptManager {
    /// The stored sessions.
    pub closed spec fn sessions(&self) -> Seq<Session> {
        self.sessions@
    }

    /// What holds of the sessions between any two operations.
    pub open spec fn wf(&self) -> bool {
        sessions_distinct(self.sessions())
    }

    /// A manager without sessions.
    pub fn new() -> (manager: LiveScriptManager)
        ensures
            manager.wf(),
            manager.sessions().len() == 0,
    {
        LiveScriptManager { sessions: Vec::new() }
    }

    /// Index of the session `session` of `script`.
    fn session_index(&self, script: &str, session: &str) -> (at: usize)
        ensures
            at == spec_session_at(self.sessions@, script@, session@, 0),
            at <= self.sessions.len(),
    {
        proof {
            lemma_session_at(self.sessions@, script@, session@, 0);
        }
        let mut i: usize = 0;
        while i < self.sessions.len()
            invariant
                i <= self.sessions.len(),
                spec_session_at(self.sessions@, script@, session@, 0) == spec_session_at(
                    self.sessions@,
                    script@,
                    session@,
                    i as int,
                ),
            decreases self.sessions.len() - i,
        {
            let row = &self.sessions[i];
            if str_eq(row.script_id.as_str(), script) && str_eq(row.session_id.as_str(), session) {
                return i;
            }
            i = i + 1;
        }
        i
    }

    /// Opens a session for a script and hands back its identifier, which is
    /// drawn at random. The manifest must name the script.
    pub fn put_session(&mut self, script: LiveScript) -> (result: Result<u128, LiveScriptError>)
        requires
            old(self).wf(),
        ensures
            final(self).wf(),
            match result {
                Ok(session) => {
                    &&& script.script_id@ == script.script_config.id@
                    &&& spec_session(final(self).sessions(), script.script_id@, uuid_text(session))
                        == Some(
                        (LiveScriptInstance {
                            script_config: script.script_config,
                            bundle: script.bundle,
                        })@,
                    )
                    &&& forall|other_script: Seq<char>, other: Seq<char>|
                        !(other_script == script.script_id@ && other == uuid_text(session))
                            ==> #[trigger] spec_session(
                            final(self).sessions(),
                            other_script,
                            other,
                        ) == spec_session(old(self).sessions(), other_script, other)
                },
                Err(error) => {
                    &&& final(self).sessions() == old(self).sessions()
                    &&& script.script_id@ != script.script_config.id@
                    &&& error matches LiveScriptError::LiveScriptError(message) && message@
                        == "Script ID does not match script config"@
                },
            },
    {
        if !str_eq(script.script_id.as_str(), script.script_config.id.as_str()) {
            return Err(
                LiveScriptError::LiveScriptError(
                    String::from_str("Script ID does not match script config"),
                ),
            );
        }
        let session = fresh_id();
        let session_text = id_text(session);
        let at = self.session_index(script.script_id.as_str(), session_text.as_str());
        let ghost before = self.sessions@;
        let ghost script_view = script.script_id@;
        let row = Session {
            script_id: script.script_id,
            session_id: session_text,
            instance: LiveScriptInstance {
                script_config: script.script_config,
                bundle: script.bundle,
            },
        };
        proof {
            lemma_session_at(before, script_view, uuid_text(session), 0);
        }
        if at < self.sessions.len() {
            self.sessions.set(at, row);
        } else {
            self.sessions.push(row);
        }
        proof {
            let after = self.sessions@;
            assert forall|i: int, j: int| 0 <= i < j < after.len() implies !is_session(
                #[trigger] after[i],
                (#[trigger] after[j]).script_id@,
                after[j].session_id@,
            ) by {
                if at < before.len() {
                    if i != at && j != at {
                        assert(after[i] == before[i] && after[j] == before[j]);
                    } else if i == at {
                        assert(after[j] == before[j]);
                        assert(!is_session(before[i], before[j].script_id@, before[j].session_id@));
                    } else {
                        assert(after[i] == before[i]);
                        assert(!is_session(before[i], before[j].script_id@, before[j].session_id@));
                    }
                } else {
                    if j < before.len() {
                        assert(after[i] == before[i] && after[j] == before[j]);
                    } else {
                        assert(after[i] == before[i]);
                    }
                }
            }
            lemma_put_session(before, after, at as int, script_view, uuid_text(session));
        }
        Ok(session)
    }

    /// Closes a session.
    pub fn delete_session(&mut self, script_id: &str, session_id: &str) -> (result: Result<
        (),
        LiveScriptError,
    >)
        requires
            old(self).wf(),
        ensures
            final(self).wf(),
            result is Ok,
            final(self).sessions() == old(self).sessions().filter(
                other_session(script_id@, session_id@),
            ),
    {
        let mut gone: Vec<bool> = Vec::new();
        let mut i: usize = 0;
        while i < self.sessions.len()
            invariant
                i <= self.sessions.len(),
                gone.len() == i,
                forall|k: int|
                    0 <= k < i ==> #[trigger] gone[k] == !other_session(script_id@, session_id@)(
                        self.sessions[k],
                    ),
            decreases self.sessions.len() - i,
        {
            let row = &self.sessions[i];
            gone.push(
                str_eq(row.script_id.as_str(), script_id) && str_eq(
                    row.session_id.as_str(),
                    session_id,
                ),
            );
            i = i + 1;
        }
        proof {
            lemma_filter_keeps_sessions(self.sessions@, other_session(script_id@, session_id@));
        }
        drop_marked(&mut self.sessions, &gone, Ghost(other_session(script_id@, session_id@)));
        Ok(())
    }

    /// Closes all sessions of a script.
    pub fn delete_script(&mut self, script_id: &str) -> (result: Result<(), LiveScriptError>)
        requires
            old(self).wf(),
        ensures
            final(self).wf(),
            result is Ok,
            final(self).sessions() == old(self).sessions().filter(of_other_script(script_id@)),
    {
        let mut gone: Vec<bool> = Vec::new();
        let mut i: usize = 0;
        while i < self.sessions.len()
            invariant
                i <= self.sessions.len(),
                gone.len() == i,
                forall|k: int|
                    0 <= k < i ==> #[trigger] gone[k] == !of_other_script(script_id@)(
                        self.sessions[k],
                    ),
            decreases self.sessions.len() - i,
        {
            gone.push(str_eq(self.sessions[i].script_id.as_str(), script_id));
            i = i + 1;
        }
        proof {
            lemma_filter_keeps_sessions(self.sessions@, of_other_script(script_id@));
        }
        drop_marked(&mut self.sessions, &gone, Ghost(of_other_script(script_id@)));
        Ok(())
    }

    /// What a session holds, if it is there.
    pub fn get_session(&self, script_id: &str, session_id: &str) -> (result: Result<
        Option<LiveScriptInstance>,
        LiveScriptError,
    >)
        ensures
            result is Ok,
            match result.unwrap() {
                Some(instance) => spec_session(self.sessions(), script_id@, session_id@) == Some(
                    instance@,
                ),
                None => spec_session(self.sessions(), script_id@, session_id@) is None,
            },
    {
        let at = self.session_index(script_id, session_id);
        if at < self.sessions.len() {
            Ok(Some(self.sessions[at].instance.duplicate()))
        } else {
            Ok(None)
        }
    }
}

/// After a session was put in its place, it is found under its script and
/// identifier, and every other session is found as before.
proof fn lemma_put_session(
    before: Seq<Session>,
    after: Seq<Session>,
    at: int,
    script: Seq<char>,
    session: Seq<char>,
)
    requires
        sessions_distinct(before),
        sessions_distinct(after),
        at == spec_session_at(before, script, session, 0),
        0 <= at <= before.len(),
        at < before.len() ==> after.len() == before.len() && forall|i: int|
            0 <= i < before.len() && i != at ==> after[i] == before[i],
        at == before.len() ==> after.len() == before.len() + 1 && forall|i: int|
            0 <= i < before.len() ==> after[i] == before[i],
        is_session(after[at], script, session),
    ensures
        spec_session(after, script, session) == Some(after[at].instance@),
        forall|other_script: Seq<char>, other: Seq<char>|
            !(other_script == script && other == session) ==> #[trigger] spec_session(
                after,
                other_script,
                other,
            ) == spec_session(before, other_script, other),
{
    lemma_session_at(before, script, session, 0);
    lemma_session_at(after, script, session, 0);
    let found = spec_session_at(after, script, session, 0);
    if found < at {
        assert(after[found] == before[found]);
    }
    if found > at {
        assert(is_session(after[at], script, session));
    }
    assert(found == at);
    assert forall|other_script: Seq<char>, other: Seq<char>|
        !(other_script == script && other == session) implies #[trigger] spec_session(
        after,
        other_script,
        other,
    ) == spec_session(before, other_script, other) by {
        lemma_session_at(before, other_script, other, 0);
        lemma_session_at(after, other_script, other, 0);
        let was = spec_session_at(before, other_script, other, 0);
        let now = spec_session_at(after, other_script, other, 0);
        if was < before.len() {
            assert(was != at);
            assert(after[was] == before[was]);
            if now < was {
                if now != at {
                    assert(after[now] == before[now]);
                }
            }
            assert(now == was);
        } else {
            if now < after.len() {
                if now != at {
                    assert(after[now] == before[now]);
                }
            }
            assert(now >= after.len());
        }
    }
}

} // verus!
