//! The tables of the script service and the operations on them.

use vstd::prelude::*;
use vstd::string::*;
use crate::bundle::{bodies, Bundle, File};
use crate::codec::{
    is_packed, pack, spec_pack, spec_unpack, spec_unpack_any, unpack, unpack_packed,
};
use crate::error::{ErrorKind, Status};
use crate::ids::{id_text, require_id, uuid_of_text, uuid_text};
use crate::paging::{at_most, page_of, page_offset, spec_total_pages, total_pages};
use crate::rows::drop_marked;
use crate::script_service::model::{
    has_label, has_revision, has_script, lemma_label_at, lemma_oldest_at, lemma_revision_at,
    lemma_script_at, lemma_slot_at, optional_id_text, optional_text, revision_shows,
    revision_sound, revisions_sorted, script_owns, script_shows, spec_label_at, spec_oldest_at,
    spec_revision_at, spec_script_at, spec_slot_at, tables_sound, unpacked_bodies, DbFile,
    DbRevision, DbScript, ListRevisionResponse, ListScriptResponse, NewRevisionResponse,
    Revision, Script, ScriptConfig, ScriptQuery,
};
use crate::ranking::{is_ranking, rank, spec_ranking};
use crate::script_service::sound::{
    lemma_filter_tables_sound, lemma_first_is_oldest, lemma_insert_revision_sound,
    lemma_push_script_sound, lemma_remove_revision_sound, lemma_update_script_sound,
};
use crate::text::str_eq;

verus! {

/// The scripts and revisions that the service holds.
pub struct ScriptService {
    scripts: Vec<DbScript>,
    revisions: Vec<DbRevision>,
}

/// A refusal: the kind of the error and what it says.
pub type Refusal = Option<(ErrorKind, Seq<char>)>;

/// Whether `status` is the refusal `refusal`.
pub open spec fn refused_as(status: Status, refusal: Refusal) -> bool {
    refusal == Some((status.kind, status.message@))
}

/// Index of the first script with the identifier `id`.
fn script_index(scripts: &Vec<DbScript>, id: u128) -> (at: usize)
    ensures
        at == spec_script_at(scripts@, id, 0),
        at <= scripts.len(),
        at < scripts.len() <==> has_script(scripts@, id),
        at < scripts.len() ==> scripts[at as int].id == id,
{
    proof {
        lemma_script_at(scripts@, id, 0);
    }
    let mut i: usize = 0;
    while i < scripts.len()
        invariant
            i <= scripts.len(),
            spec_script_at(scripts@, id, 0) == spec_script_at(scripts@, id, i as int),
        decreases scripts.len() - i,
    {
        if scripts[i].id == id {
            return i;
        }
        i = i + 1;
    }
    i
}

/// Index of the first script with the routing label `label`.
fn label_index(scripts: &Vec<DbScript>, label: &str) -> (at: usize)
    ensures
        at == spec_label_at(scripts@, label@, 0),
        at <= scripts.len(),
        at < scripts.len() <==> has_label(scripts@, label@),
        at < scripts.len() ==> scripts[at as int].public_identifier@ == label@,
{
    proof {
        lemma_label_at(scripts@, label@, 0);
    }
    let mut i: usize = 0;
    while i < scripts.len()
        invariant
            i <= scripts.len(),
            spec_label_at(scripts@, label@, 0) == spec_label_at(scripts@, label@, i as int),
        decreases scripts.len() - i,
    {
        if str_eq(scripts[i].public_identifier.as_str(), label) {
            return i;
        }
        i = i + 1;
    }
    i
}

/// Index of the first revision with the identifier `id`.
fn revision_index(revisions: &Vec<DbRevision>, id: u128) -> (at: usize)
    ensures
        at == spec_revision_at(revisions@, id, 0),
        at <= revisions.len(),
        at < revisions.len() <==> has_revision(revisions@, id),
        at < revisions.len() ==> revisions[at as int].id == id,
{
    proof {
        lemma_revision_at(revisions@, id, 0);
    }
    let mut i: usize = 0;
    while i < revisions.len()
        invariant
            i <= revisions.len(),
            spec_revision_at(revisions@, id, 0) == spec_revision_at(revisions@, id, i as int),
        decreases revisions.len() - i,
    {
        if revisions[i].id == id {
            return i;
        }
        i = i + 1;
    }
    i
}

/// Index at which a revision created at `moment` is put.
fn slot_index(revisions: &Vec<DbRevision>, moment: i64) -> (at: usize)
    ensures
        at == spec_slot_at(revisions@, moment, 0),
        at <= revisions.len(),
{
    proof {
        lemma_slot_at(revisions@, moment, 0);
    }
    let mut i: usize = 0;
    while i < revisions.len()
        invariant
            i <= revisions.len(),
            spec_slot_at(revisions@, moment, 0) == spec_slot_at(revisions@, moment, i as int),
        decreases revisions.len() - i,
    {
        if revisions[i].created > moment {
            return i;
        }
        i = i + 1;
    }
    i
}

/// The message that shows a stored script.
pub fn show_script(row: &DbScript) -> (message: Script)
    ensures
        script_shows(message, *row),
{
    Script {
        id: id_text(row.id),
        project_id: id_text(row.project_id),
        public_identifier: row.public_identifier.clone(),
        last_updated: row.last_updated,
        current_revision_id: match row.current_revision {
            Some(id) => Some(id_text(id)),
            None => None,
        },
    }
}

/// The message that shows a stored revision, without its bundle.
pub fn show_revision(row: &DbRevision) -> (message: Revision)
    ensures
        revision_shows(message, *row),
        message.bundle is None,
{
    Revision {
        id: id_text(row.id),
        created: row.created,
        script_id: id_text(row.script_id),
        script_config: row.script_config.duplicate(),
        bundle: None,
    }
}

/// Whether every file of `files` carries the revision `id`, written as
/// text.
pub open spec fn all_stamped(files: Seq<File>, id: u128) -> bool {
    forall|i: int|
        0 <= i < files.len() ==> optional_text((#[trigger] files[i]).revision_id) == Some(
            uuid_text(id),
        )
}

/// Whether the content of some file of `files` cannot be unpacked.
pub open spec fn some_damaged(files: Seq<DbFile>) -> bool {
    exists|i: int| 0 <= i < files.len() && spec_unpack_any((#[trigger] files[i]).content@) is None
}

/// The bundle of a revision as it was read from a store of which nothing
/// is known, its files unpacked. Content that cannot be unpacked, or is too
/// long to be tried, is an internal error.
pub fn read_bundle(row: &DbRevision) -> (result: Result<Bundle, Status>)
    ensures
        match result {
            Ok(bundle) => {
                &&& !some_damaged(row.files@)
                &&& bundle.entry_point@ == row.entry_point@
                &&& bodies(bundle.files@) == unpacked_bodies(row.files@)
                &&& all_stamped(bundle.files@, row.id)
            },
            Err(status) => some_damaged(row.files@) && status.is(
                ErrorKind::Internal,
                "Stored content is damaged."@,
            ),
        },
{
    let mut files: Vec<File> = Vec::new();
    let mut i: usize = 0;
    while i < row.files.len()
        invariant
            i <= row.files.len(),
            files.len() == i,
            forall|j: int|
                0 <= j < i ==> spec_unpack_any((#[trigger] row.files[j]).content@) is Some,
            forall|j: int|
                0 <= j < i ==> (#[trigger] files[j]).body() == unpacked_bodies(row.files@)[j]
                    && optional_text(files[j].revision_id) == Some(uuid_text(row.id)),
        decreases row.files.len() - i,
    {
        let stored = &row.files[i];
        let content = match unpack(&stored.content) {
            Some(bytes) => bytes,
            None => {
                return Err(Status::new(ErrorKind::Internal, "Stored content is damaged."));
            },
        };
        files.push(
            File {
                file_name: stored.file_name.clone(),
                file_path: stored.file_path.clone(),
                content,
                revision_id: Some(id_text(row.id)),
            },
        );
        i = i + 1;
    }
    assert(bodies(files@) =~= unpacked_bodies(row.files@));
    Ok(Bundle { entry_point: row.entry_point.clone(), files })
}

/// The bundle of a stored revision, its files unpacked.
pub fn open_bundle(row: &DbRevision) -> (bundle: Bundle)
    requires
        revision_sound(*row),
    ensures
        bundle.entry_point@ == row.entry_point@,
        bodies(bundle.files@) == unpacked_bodies(row.files@),
        all_stamped(bundle.files@, row.id),
{
    let mut files: Vec<File> = Vec::new();
    let mut i: usize = 0;
    while i < row.files.len()
        invariant
            i <= row.files.len(),
            revision_sound(*row),
            files.len() == i,
            forall|j: int|
                0 <= j < i ==> (#[trigger] files[j]).body() == unpacked_bodies(row.files@)[j]
                    && optional_text(files[j].revision_id) == Some(uuid_text(row.id)),
        decreases row.files.len() - i,
    {
        let stored = &row.files[i];
        assert(is_packed(stored.content@));
        files.push(
            File {
                file_name: stored.file_name.clone(),
                file_path: stored.file_path.clone(),
                content: unpack_packed(&stored.content),
                revision_id: Some(id_text(row.id)),
            },
        );
        i = i + 1;
    }
    assert(bodies(files@) =~= unpacked_bodies(row.files@));
    Bundle { entry_point: row.entry_point.clone(), files }
}

/// Whether the content of some file of `files` cannot be packed.
pub open spec fn some_unpackable(files: Seq<File>) -> bool {
    exists|i: int| 0 <= i < files.len() && spec_pack((#[trigger] files[i]).content@) is None
}

/// Whether some path occurs twice among `files`.
pub open spec fn some_path_twice(files: Seq<File>) -> bool {
    exists|i: int, j: int|
        0 <= i < j < files.len() && (#[trigger] files[i]).file_path@ == (
        #[trigger] files[j]).file_path@
}

/// Whether some file of `files` has the name `name`.
pub open spec fn some_named(files: Seq<File>, name: Seq<char>) -> bool {
    exists|i: int| 0 <= i < files.len() && (#[trigger] files[i]).file_name@ == name
}

/// Whether `stored` holds the files of `files`, packed and under the
/// revision `id`.
pub open spec fn stores_files(stored: Seq<DbFile>, files: Seq<File>, id: u128) -> bool {
    &&& stored.len() == files.len()
    &&& forall|i: int|
        0 <= i < stored.len() ==> {
            &&& (#[trigger] stored[i]).revision_id == id
            &&& stored[i].file_name@ == files[i].file_name@
            &&& stored[i].file_path@ == files[i].file_path@
            &&& Some(stored[i].content@) == spec_pack(files[i].content@)
            &&& is_packed(stored[i].content@)
            &&& spec_unpack(stored[i].content@) == Some(files[i].content@)
        }
}

/// Packs the files of a bundle for the revision `id`. `None` where the
/// content of a file cannot be packed.
pub fn pack_files(files: &Vec<File>, id: u128) -> (stored: Option<Vec<DbFile>>)
    ensures
        match stored {
            Some(rows) => !some_unpackable(files@) && stores_files(rows@, files@, id),
            None => some_unpackable(files@),
        },
{
    let mut rows: Vec<DbFile> = Vec::new();
    let mut i: usize = 0;
    while i < files.len()
        invariant
            i <= files.len(),
            stores_files(rows@, files@.subrange(0, i as int), id),
            forall|j: int| 0 <= j < i ==> spec_pack((#[trigger] files[j]).content@) is Some,
        decreases files.len() - i,
    {
        let file = &files[i];
        match pack(&file.content) {
            Some(content) => {
                rows.push(
                    DbFile {
                        revision_id: id,
                        content,
                        file_name: file.file_name.clone(),
                        file_path: file.file_path.clone(),
                    },
                );
            },
            None => {
                return None;
            },
        }
        i = i + 1;
    }
    assert(files@.subrange(0, i as int) == files@);
    Some(rows)
}

/// Whether some path occurs twice among `files`.
fn path_twice(files: &Vec<File>) -> (twice: bool)
    ensures
        twice == some_path_twice(files@),
{
    let mut j: usize = 0;
    while j < files.len()
        invariant
            j <= files.len(),
            forall|a: int, b: int|
                0 <= a < b < j ==> (#[trigger] files[a]).file_path@ != (
                #[trigger] files[b]).file_path@,
        decreases files.len() - j,
    {
        let mut i: usize = 0;
        while i < j
            invariant
                i <= j < files.len(),
                forall|a: int| 0 <= a < i ==> (#[trigger] files[a]).file_path@ != files[j as int].file_path@,
            decreases j - i,
        {
            if str_eq(files[i].file_path.as_str(), files[j].file_path.as_str()) {
                return true;
            }
            i = i + 1;
        }
        j = j + 1;
    }
    false
}

/// Whether some file of `files` has the name `name`.
fn named(files: &Vec<File>, name: &str) -> (found: bool)
    ensures
        found == some_named(files@, name@),
{
    let mut i: usize = 0;
    while i < files.len()
        invariant
            i <= files.len(),
            forall|a: int| 0 <= a < i ==> (#[trigger] files[a]).file_name@ != name@,
        decreases files.len() - i,
    {
        if str_eq(files[i].file_name.as_str(), name) {
            return true;
        }
        i = i + 1;
    }
    false
}

/// Whether the revision at `at` is the oldest of `script`: it belongs to
/// the script, none of the script was created before it, and of those
/// created at the same moment it stands first.
pub open spec fn is_oldest(revisions: Seq<DbRevision>, script: u128, at: int) -> bool {
    &&& 0 <= at < revisions.len()
    &&& revisions[at].script_id == script
    &&& forall|k: int|
        0 <= k < revisions.len() && (#[trigger] revisions[k]).script_id == script
            ==> revisions[at].created <= revisions[k].created
    &&& forall|k: int|
        0 <= k < at && (#[trigger] revisions[k]).script_id == script ==> revisions[k].created
            > revisions[at].created
}

/// The oldest revision of `script` among `revisions`, in whatever order
/// they stand: the one that the script points to when its current revision
/// went. `None` where the script has no revision.
pub fn oldest_of(revisions: &Vec<DbRevision>, script: u128) -> (found: Option<usize>)
    ensures
        match found {
            Some(at) => is_oldest(revisions@, script, at as int),
            None => forall|k: int|
                0 <= k < revisions.len() ==> (#[trigger] revisions[k]).script_id != script,
        },
{
    let mut best: Option<usize> = None;
    let mut i: usize = 0;
    while i < revisions.len()
        invariant
            i <= revisions.len(),
            match best {
                Some(at) => {
                    &&& at < i
                    &&& revisions[at as int].script_id == script
                    &&& forall|k: int|
                        0 <= k < i && (#[trigger] revisions[k]).script_id == script
                            ==> revisions[at as int].created <= revisions[k].created
                    &&& forall|k: int|
                        0 <= k < at && (#[trigger] revisions[k]).script_id == script
                            ==> revisions[k].created > revisions[at as int].created
                },
                None => forall|k: int| 0 <= k < i ==> (#[trigger] revisions[k]).script_id != script,
            },
        decreases revisions.len() - i,
    {
        if revisions[i].script_id == script {
            match best {
                Some(at) => {
                    if revisions[i].created < revisions[at].created {
                        best = Some(i);
                    }
                },
                None => {
                    best = Some(i);
                },
            }
        }
        i = i + 1;
    }
    best
}

/// Among sorted revisions the oldest revision of a script is the first of
/// the script.
pub proof fn lemma_oldest_is_first(revisions: Seq<DbRevision>, script: u128, at: int)
    requires
        revisions_sorted(revisions),
        is_oldest(revisions, script, at),
    ensures
        at == spec_oldest_at(revisions, script, 0),
{
    lemma_oldest_at(revisions, script, 0);
    let first = spec_oldest_at(revisions, script, 0);
    if first < at {
        assert(revisions[first].script_id == script);
        assert(revisions[first].created <= revisions[at].created);
    }
    if first > at {
        assert(revisions[at].script_id == script);
    }
}

/// Why a script cannot be created, if it cannot.
pub open spec fn create_script_refusal(
    scripts: Seq<DbScript>,
    project_id: Seq<char>,
    public_identifier: Seq<char>,
    new_id: u128,
) -> Refusal {
    if uuid_of_text(project_id) is None {
        Some((ErrorKind::InvalidArgument, "'id' was not a valid uuid"@))
    } else if has_label(scripts, public_identifier) {
        Some((ErrorKind::AlreadyExists, "Script with that identifier already exists"@))
    } else if has_script(scripts, new_id) {
        Some((ErrorKind::Internal, "duplicate key value violates unique constraint"@))
    } else {
        None
    }
}

/// Why a script cannot be found, if it cannot.
pub open spec fn query_script_refusal(scripts: Seq<DbScript>, query: ScriptQuery) -> Refusal {
    match query {
        ScriptQuery::Id(text) => if uuid_of_text(text@) is None {
            Some((ErrorKind::InvalidArgument, "'id' was not a valid uuid"@))
        } else if !has_script(scripts, uuid_of_text(text@).unwrap()) {
            Some((ErrorKind::NotFound, "Script with that id was not found"@))
        } else {
            None
        },
        ScriptQuery::PublicName(label) => if !has_label(scripts, label@) {
            Some((ErrorKind::NotFound, "Script with that identifier was not found"@))
        } else {
            None
        },
    }
}

/// The stored script that a query asks for.
pub open spec fn queried_script(scripts: Seq<DbScript>, query: ScriptQuery) -> DbScript {
    match query {
        ScriptQuery::Id(text) => scripts[spec_script_at(
            scripts,
            uuid_of_text(text@).unwrap(),
            0,
        )],
        ScriptQuery::PublicName(label) => scripts[spec_label_at(scripts, label@, 0)],
    }
}

impl ScriptService {
    /// The stored scripts, in the order in which they were created.
    pub closed spec fn scripts(&self) -> Seq<DbScript> {
        self.scripts@
    }

    /// The stored revisions, oldest first.
    pub closed spec fn revisions(&self) -> Seq<DbRevision> {
        self.revisions@
    }

    /// What holds of the store between any two operations.
    pub open spec fn wf(&self) -> bool {
        tables_sound(self.scripts(), self.revisions())
    }

    /// Whether `other` holds the same rows.
    pub open spec fn same_rows(&self, other: &ScriptService) -> bool {
        self.scripts() == other.scripts() && self.revisions() == other.revisions()
    }

    /// A store without scripts.
    pub fn new() -> (store: ScriptService)
        ensures
            store.wf(),
            store.scripts().len() == 0,
            store.revisions().len() == 0,
    {
        ScriptService { scripts: Vec::new(), revisions: Vec::new() }
    }

    /// Number of stored scripts.
    pub fn script_count(&self) -> (count: usize)
        ensures
            count == self.scripts().len(),
    {
        self.scripts.len()
    }

    /// Number of stored revisions.
    pub fn revision_count(&self) -> (count: usize)
        ensures
            count == self.revisions().len(),
    {
        self.revisions.len()
    }

    /// Creates a script without revisions under a project. The label must be
    /// free. `new_id` becomes the identifier of the script, `now` its moment
    /// of last change.
    pub fn create_script(
        &mut self,
        project_id: &str,
        public_identifier: &str,
        new_id: u128,
        now: i64,
    ) -> (result: Result<Script, Status>)
        requires
            old(self).wf(),
        ensures
            final(self).wf(),
            match result {
                Ok(script) => {
                    let row = final(self).scripts().last();
                    &&& create_script_refusal(
                        old(self).scripts(),
                        project_id@,
                        public_identifier@,
                        new_id,
                    ) is None
                    &&& final(self).scripts() == old(self).scripts().push(row)
                    &&& final(self).revisions() == old(self).revisions()
                    &&& row.id == new_id
                    &&& Some(row.project_id) == uuid_of_text(project_id@)
                    &&& row.public_identifier@ == public_identifier@
                    &&& row.last_updated == now
                    &&& row.current_revision is None
                    &&& script_shows(script, row)
                },
                Err(status) => {
                    &&& final(self).same_rows(old(self))
                    &&& refused_as(
                        status,
                        create_script_refusal(
                            old(self).scripts(),
                            project_id@,
                            public_identifier@,
                            new_id,
                        ),
                    )
                },
            },
    {
        let project = match require_id(project_id) {
            Ok(id) => id,
            Err(status) => {
                return Err(status);
            },
        };
        if label_index(&self.scripts, public_identifier) < self.scripts.len() {
            return Err(
                Status::new(
                    ErrorKind::AlreadyExists,
                    "Script with that identifier already exists",
                ),
            );
        }
        if script_index(&self.scripts, new_id) < self.scripts.len() {
            return Err(
                Status::new(
                    ErrorKind::Internal,
                    "duplicate key value violates unique constraint",
                ),
            );
        }
        let row = DbScript {
            id: new_id,
            project_id: project,
            public_identifier: String::from_str(public_identifier),
            last_updated: now,
            current_revision: None,
        };
        let message = show_script(&row);
        proof {
            lemma_push_script_sound(self.scripts@, self.revisions@, row);
        }
        self.scripts.push(row);
        Ok(message)
    }

    /// Looks a script up by its identifier or by its routing label.
    pub fn query_script(&self, query: &ScriptQuery) -> (result: Result<Script, Status>)
        requires
            self.wf(),
        ensures
            match result {
                Ok(script) => query_script_refusal(self.scripts(), *query) is None && script_shows(
                    script,
                    queried_script(self.scripts(), *query),
                ),
                Err(status) => refused_as(status, query_script_refusal(self.scripts(), *query)),
            },
    {
        match query {
            ScriptQuery::Id(text) => {
                let id = match require_id(text.as_str()) {
                    Ok(id) => id,
                    Err(status) => {
                        return Err(status);
                    },
                };
                let at = script_index(&self.scripts, id);
                if at < self.scripts.len() {
                    Ok(show_script(&self.scripts[at]))
                } else {
                    Err(Status::new(ErrorKind::NotFound, "Script with that id was not found"))
                }
            },
            ScriptQuery::PublicName(label) => {
                let at = label_index(&self.scripts, label.as_str());
                if at < self.scripts.len() {
                    Ok(show_script(&self.scripts[at]))
                } else {
                    Err(
                        Status::new(
                            ErrorKind::NotFound,
                            "Script with that identifier was not found",
                        ),
                    )
                }
            },
        }
    }
}

/// Why no revision of the script `script` can be made of a manifest and a
/// bundle, if none can: the manifest names another script, the entry point
/// is no file of the bundle, a path occurs twice, or a file cannot be
/// packed.
pub open spec fn prepare_refusal(script: u128, config: ScriptConfig, bundle: Bundle) -> Refusal {
    if config.id != script {
        Some(
            (
                ErrorKind::InvalidArgument,
                "Script config contains a different ID than the target."@,
            ),
        )
    } else if !some_named(bundle.files@, bundle.entry_point@) {
        Some((ErrorKind::InvalidArgument, "Entry point is not a file of the bundle."@))
    } else if some_path_twice(bundle.files@) {
        Some((ErrorKind::InvalidArgument, "A file path occurs twice in the bundle."@))
    } else if some_unpackable(bundle.files@) {
        Some((ErrorKind::InvalidArgument, "A file is too large to store."@))
    } else {
        None
    }
}

/// Why a revision cannot be created, if it cannot.
pub open spec fn create_revision_refusal(
    scripts: Seq<DbScript>,
    revisions: Seq<DbRevision>,
    script_id: Seq<char>,
    config: ScriptConfig,
    bundle: Bundle,
    new_id: u128,
) -> Refusal {
    if uuid_of_text(script_id) is None {
        Some((ErrorKind::InvalidArgument, "'id' was not a valid uuid"@))
    } else if !has_script(scripts, uuid_of_text(script_id).unwrap()) {
        Some((ErrorKind::NotFound, "Script with that id was not found"@))
    } else if prepare_refusal(uuid_of_text(script_id).unwrap(), config, bundle) is Some {
        prepare_refusal(uuid_of_text(script_id).unwrap(), config, bundle)
    } else if has_revision(revisions, new_id) {
        Some((ErrorKind::Internal, "duplicate key value violates unique constraint"@))
    } else {
        None
    }
}

/// Makes the row of a new revision of the script `script`: checks manifest
/// and bundle and packs the files.
pub fn prepare_revision(
    script: u128,
    config: &ScriptConfig,
    bundle: &Bundle,
    new_id: u128,
    now: i64,
) -> (result: Result<DbRevision, Status>)
    ensures
        match result {
            Ok(row) => {
                &&& prepare_refusal(script, *config, *bundle) is None
                &&& row.id == new_id
                &&& row.created == now
                &&& row.script_id == script
                &&& row.entry_point@ == bundle.entry_point@
                &&& row.script_config@ == config@
                &&& row.script_config.id == script
                &&& stores_files(row.files@, bundle.files@, new_id)
                &&& unpacked_bodies(row.files@) == bodies(bundle.files@)
                &&& revision_sound(row)
            },
            Err(status) => refused_as(status, prepare_refusal(script, *config, *bundle)),
        },
{
    if config.id != script {
        return Err(
            Status::new(
                ErrorKind::InvalidArgument,
                "Script config contains a different ID than the target.",
            ),
        );
    }
    if !named(&bundle.files, bundle.entry_point.as_str()) {
        return Err(
            Status::new(ErrorKind::InvalidArgument, "Entry point is not a file of the bundle."),
        );
    }
    if path_twice(&bundle.files) {
        return Err(
            Status::new(ErrorKind::InvalidArgument, "A file path occurs twice in the bundle."),
        );
    }
    let files = match pack_files(&bundle.files, new_id) {
        Some(files) => files,
        None => {
            return Err(Status::new(ErrorKind::InvalidArgument, "A file is too large to store."));
        },
    };
    let row = DbRevision {
        id: new_id,
        created: now,
        script_id: script,
        entry_point: bundle.entry_point.clone(),
        script_config: config.duplicate(),
        files,
    };
    proof {
        assert(unpacked_bodies(row.files@) =~= bodies(bundle.files@));
        assert(revision_sound(row)) by {
            let k = choose|k: int|
                0 <= k < bundle.files.len() && (#[trigger] bundle.files[k]).file_name@
                    == bundle.entry_point@;
            assert(row.files[k].file_name@ == row.entry_point@);
        }
    }
    Ok(row)
}

/// Checks that the revision `revision`, which belongs to `owner`, may
/// become the current one of the script `script`.
pub fn check_owner(script: u128, owner: u128, revision: u128) -> (result: Result<(), Status>)
    ensures
        result is Ok <==> owner == script,
        result matches Err(status) ==> status.is(
            ErrorKind::InvalidArgument,
            not_owner_text(script, revision),
        ),
{
    if owner != script {
        let mut message = String::from_str("Script (");
        message.append(id_text(script).as_str());
        message.append(") doesn't own the revision (");
        message.append(id_text(revision).as_str());
        message.append(")");
        Err(Status::with_text(ErrorKind::InvalidArgument, message))
    } else {
        Ok(())
    }
}

/// Checks the page that a listing asks for: it may not be negative.
pub fn check_page(page: i32) -> (result: Result<(), Status>)
    ensures
        result is Ok <==> page >= 0,
        result matches Err(status) ==> status.is(
            ErrorKind::InvalidArgument,
            "invalid page number provided!"@,
        ),
{
    if page < 0 {
        Err(Status::new(ErrorKind::InvalidArgument, "invalid page number provided!"))
    } else {
        Ok(())
    }
}

/// Checks the size of the pages that a listing asks for: it may not be
/// negative.
pub fn check_page_size(page_size: i32) -> (result: Result<(), Status>)
    ensures
        result is Ok <==> page_size >= 0,
        result matches Err(status) ==> status.is(
            ErrorKind::Internal,
            "LIMIT must not be negative"@,
        ),
{
    if page_size < 0 {
        Err(Status::new(ErrorKind::Internal, "LIMIT must not be negative"))
    } else {
        Ok(())
    }
}

/// Why a revision cannot be fetched, if it cannot.
pub open spec fn get_revision_refusal(revisions: Seq<DbRevision>, id: Seq<char>) -> Refusal {
    if uuid_of_text(id) is None {
        Some((ErrorKind::InvalidArgument, "'id' was not a valid uuid"@))
    } else if !has_revision(revisions, uuid_of_text(id).unwrap()) {
        Some((ErrorKind::NotFound, "Revision with that ID was not found"@))
    } else {
        None
    }
}

/// What the error says when a script is handed a revision of another
/// script.
pub open spec fn not_owner_text(script: u128, revision: u128) -> Seq<char> {
    "Script ("@ + uuid_text(script) + ") doesn't own the revision ("@ + uuid_text(revision)
        + ")"@
}

/// Why the current revision of a script cannot be set, if it cannot.
pub open spec fn set_revision_refusal(
    scripts: Seq<DbScript>,
    revisions: Seq<DbRevision>,
    script_id: Seq<char>,
    revision_id: Seq<char>,
) -> Refusal {
    if uuid_of_text(script_id) is None {
        Some((ErrorKind::InvalidArgument, "'id' was not a valid uuid"@))
    } else if !has_script(scripts, uuid_of_text(script_id).unwrap()) {
        Some((ErrorKind::NotFound, "Script with that id was not found"@))
    } else if uuid_of_text(revision_id) is None {
        Some((ErrorKind::InvalidArgument, "'id' was not a valid uuid"@))
    } else if !has_revision(revisions, uuid_of_text(revision_id).unwrap()) {
        Some((ErrorKind::NotFound, "Revision with that ID was not found"@))
    } else if revisions[spec_revision_at(
        revisions,
        uuid_of_text(revision_id).unwrap(),
        0,
    )].script_id != uuid_of_text(script_id).unwrap() {
        Some(
            (
                ErrorKind::InvalidArgument,
                not_owner_text(
                    uuid_of_text(script_id).unwrap(),
                    uuid_of_text(revision_id).unwrap(),
                ),
            ),
        )
    } else {
        None
    }
}

/// Why a script cannot be deleted, if it cannot.
pub open spec fn delete_script_refusal(scripts: Seq<DbScript>, id: Seq<char>) -> Refusal {
    if uuid_of_text(id) is None {
        Some((ErrorKind::InvalidArgument, "'id' was not a valid uuid"@))
    } else if !has_script(scripts, uuid_of_text(id).unwrap()) {
        Some((ErrorKind::NotFound, "Script was not found."@))
    } else {
        None
    }
}

/// Why a page of revisions cannot be listed, if it cannot.
pub open spec fn list_revisions_refusal(
    script_id: Option<Seq<char>>,
    page: i32,
    page_size: i32,
) -> Refusal {
    if page < 0 {
        Some((ErrorKind::InvalidArgument, "invalid page number provided!"@))
    } else if script_id is Some && uuid_of_text(script_id.unwrap()) is None {
        Some((ErrorKind::InvalidArgument, "'id' was not a valid uuid"@))
    } else if page_size < 0 {
        Some((ErrorKind::Internal, "LIMIT must not be negative"@))
    } else {
        None
    }
}

/// Whether the revision `row` is asked for: all are where no script is
/// named, else those of the script.
pub open spec fn wanted(row: DbRevision, script: Option<u128>) -> bool {
    match script {
        Some(id) => row.script_id == id,
        None => true,
    }
}

/// The revisions that are asked for, the last one first. Among sorted
/// revisions that is the newest first.
pub open spec fn newest_first(revisions: Seq<DbRevision>, script: Option<u128>) -> Seq<
    DbRevision,
>
    decreases revisions.len(),
{
    if revisions.len() == 0 {
        Seq::empty()
    } else if wanted(revisions[0], script) {
        newest_first(revisions.drop_first(), script).push(revisions[0])
    } else {
        newest_first(revisions.drop_first(), script)
    }
}

/// Among sorted revisions the listing holds exactly the revisions that are
/// asked for, and none stands before one that was created later.
pub proof fn lemma_newest_first(revisions: Seq<DbRevision>, script: Option<u128>)
    requires
        revisions_sorted(revisions),
    ensures
        forall|k: int|
            0 <= k < newest_first(revisions, script).len() ==> wanted(
                #[trigger] newest_first(revisions, script)[k],
                script,
            ) && revisions.contains(newest_first(revisions, script)[k]),
        forall|i: int|
            0 <= i < revisions.len() && wanted(#[trigger] revisions[i], script) ==> newest_first(
                revisions,
                script,
            ).contains(revisions[i]),
        forall|a: int, b: int|
            0 <= a < b < newest_first(revisions, script).len() ==> (#[trigger] newest_first(
                revisions,
                script,
            )[a]).created >= (#[trigger] newest_first(revisions, script)[b]).created,
    decreases revisions.len(),
{
    if revisions.len() > 0 {
        let rest = revisions.drop_first();
        let first = revisions[0];
        assert forall|i: int, j: int| 0 <= i < j < rest.len() implies (#[trigger] rest[i]).created
            <= (#[trigger] rest[j]).created by {
            assert(rest[i] == revisions[i + 1] && rest[j] == revisions[j + 1]);
        }
        lemma_newest_first(rest, script);
        let before = newest_first(rest, script);
        let listed = newest_first(revisions, script);
        assert forall|k: int| 0 <= k < before.len() implies revisions.contains(
            #[trigger] before[k],
        ) && first.created <= before[k].created by {
            assert(rest.contains(before[k]));
            let at = choose|at: int| 0 <= at < rest.len() && rest[at] == before[k];
            assert(revisions[at + 1] == before[k]);
        }
        assert forall|k: int| 0 <= k < listed.len() implies wanted(#[trigger] listed[k], script)
            && revisions.contains(listed[k]) by {
            if k < before.len() {
                assert(listed[k] == before[k]);
            } else {
                assert(listed[k] == first);
                assert(revisions[0] == first);
            }
        }
        assert forall|i: int|
            0 <= i < revisions.len() && wanted(
                #[trigger] revisions[i],
                script,
            ) implies listed.contains(revisions[i]) by {
            if i == 0 {
                assert(listed[listed.len() - 1] == first);
            } else {
                assert(rest[i - 1] == revisions[i]);
                assert(before.contains(rest[i - 1]));
                let at = choose|at: int| 0 <= at < before.len() && before[at] == rest[i - 1];
                assert(listed[at] == revisions[i]);
            }
        }
        assert forall|a: int, b: int| 0 <= a < b < listed.len() implies (
        #[trigger] listed[a]).created >= (#[trigger] listed[b]).created by {
            if b < before.len() {
                assert(listed[a] == before[a] && listed[b] == before[b]);
            } else {
                assert(listed[a] == before[a]);
                assert(listed[b] == first);
            }
        }
    }
}

/// Whether `messages` show `rows`, one by one and without bundles.
pub open spec fn show_all(messages: Seq<Revision>, rows: Seq<DbRevision>) -> bool {
    &&& messages.len() == rows.len()
    &&& forall|k: int|
        0 <= k < messages.len() ==> revision_shows(#[trigger] messages[k], rows[k])
            && messages[k].bundle is None
}

/// The identifier that is asked for, if one is.
pub open spec fn optional_id(text: Option<Seq<char>>) -> Option<u128> {
    match text {
        Some(t) => uuid_of_text(t),
        None => None,
    }
}

/// The scripts outside the project `project`.
pub open spec fn outside_project(project: u128) -> spec_fn(DbScript) -> bool {
    |row: DbScript| row.project_id != project
}

/// The scripts other than `script`.
pub open spec fn other_script(script: u128) -> spec_fn(DbScript) -> bool {
    |row: DbScript| row.id != script
}

/// The revisions of scripts other than `script`.
pub open spec fn of_other_script(script: u128) -> spec_fn(DbRevision) -> bool {
    |row: DbRevision| row.script_id != script
}

/// Whether the script `id` is among `scripts` and belongs to `project`.
pub open spec fn in_project(scripts: Seq<DbScript>, project: u128, id: u128) -> bool {
    exists|i: int|
        0 <= i < scripts.len() && (#[trigger] scripts[i]).id == id && scripts[i].project_id
            == project
}

/// The revisions of scripts outside the project `project`.
pub open spec fn of_other_project(scripts: Seq<DbScript>, project: u128) -> spec_fn(
    DbRevision,
) -> bool {
    |row: DbRevision| !in_project(scripts, project, row.script_id)
}

impl ScriptService {
    /// Stores a revision of a script and makes it the current one.
    ///
    /// The manifest must name the script, the entry point must be the name
    /// of a file of the bundle, and no path may occur twice. The files are
    /// packed before they are stored. `new_id` becomes the identifier of
    /// the revision, `now` its moment of creation.
    pub fn create_revision(
        &mut self,
        script_id: &str,
        config: &ScriptConfig,
        bundle: &Bundle,
        new_id: u128,
        now: i64,
    ) -> (result: Result<Revision, Status>)
        requires
            old(self).wf(),
        ensures
            final(self).wf(),
            match result {
                Ok(revision) => {
                    let slot = spec_slot_at(old(self).revisions(), now, 0);
                    let row = final(self).revisions()[slot];
                    let owner = spec_script_at(old(self).scripts(), row.script_id, 0);
                    let script = final(self).scripts()[owner];
                    &&& create_revision_refusal(
                        old(self).scripts(),
                        old(self).revisions(),
                        script_id@,
                        *config,
                        *bundle,
                        new_id,
                    ) is None
                    &&& final(self).revisions() == old(self).revisions().insert(slot, row)
                    &&& row.id == new_id
                    &&& row.created == now
                    &&& Some(row.script_id) == uuid_of_text(script_id@)
                    &&& row.entry_point@ == bundle.entry_point@
                    &&& row.script_config@ == config@
                    &&& row.script_config.id == row.script_id
                    &&& unpacked_bodies(row.files@) == bodies(bundle.files@)
                    &&& final(self).scripts() == old(self).scripts().update(owner, script)
                    &&& script.id == row.script_id
                    &&& script.project_id == old(self).scripts()[owner].project_id
                    &&& script.public_identifier@ == old(self).scripts()[owner].public_identifier@
                    &&& script.last_updated == now
                    &&& script.current_revision == Some(new_id)
                    &&& revision_shows(revision, row)
                    &&& revision.bundle is None
                },
                Err(status) => {
                    &&& final(self).same_rows(old(self))
                    &&& refused_as(
                        status,
                        create_revision_refusal(
                            old(self).scripts(),
                            old(self).revisions(),
                            script_id@,
                            *config,
                            *bundle,
                            new_id,
                        ),
                    )
                },
            },
    {
        let script = match require_id(script_id) {
            Ok(id) => id,
            Err(status) => {
                return Err(status);
            },
        };
        let owner = script_index(&self.scripts, script);
        if owner >= self.scripts.len() {
            return Err(Status::new(ErrorKind::NotFound, "Script with that id was not found"));
        }
        let row = match prepare_revision(script, config, bundle, new_id, now) {
            Ok(row) => row,
            Err(status) => {
                return Err(status);
            },
        };
        if revision_index(&self.revisions, new_id) < self.revisions.len() {
            return Err(
                Status::new(
                    ErrorKind::Internal,
                    "duplicate key value violates unique constraint",
                ),
            );
        }
        let message = show_revision(&row);
        let slot = slot_index(&self.revisions, now);
        let updated = DbScript {
            id: script,
            project_id: self.scripts[owner].project_id,
            public_identifier: self.scripts[owner].public_identifier.clone(),
            last_updated: now,
            current_revision: Some(new_id),
        };
        proof {
            lemma_insert_revision_sound(self.scripts@, self.revisions@, row);
            lemma_update_script_sound(
                self.scripts@,
                self.revisions@.insert(slot as int, row),
                owner as int,
                updated,
            );
        }
        self.revisions.insert(slot, row);
        self.scripts.set(owner, updated);
        Ok(message)
    }

    /// Fetches a revision, with the files of its bundle unpacked where
    /// `with_bundle` asks for them.
    pub fn get_revision(&self, id: &str, with_bundle: bool) -> (result: Result<
        Revision,
        Status,
    >)
        requires
            self.wf(),
        ensures
            match result {
                Ok(revision) => {
                    let row = self.revisions()[spec_revision_at(
                        self.revisions(),
                        uuid_of_text(id@).unwrap(),
                        0,
                    )];
                    &&& get_revision_refusal(self.revisions(), id@) is None
                    &&& revision_shows(revision, row)
                    &&& with_bundle == revision.bundle is Some
                    &&& revision.bundle matches Some(bundle) ==> {
                        &&& bundle.entry_point@ == row.entry_point@
                        &&& bodies(bundle.files@) == unpacked_bodies(row.files@)
                        &&& all_stamped(bundle.files@, row.id)
                    }
                },
                Err(status) => refused_as(status, get_revision_refusal(self.revisions(), id@)),
            },
    {
        let wanted_id = match require_id(id) {
            Ok(value) => value,
            Err(status) => {
                return Err(status);
            },
        };
        let at = revision_index(&self.revisions, wanted_id);
        if at >= self.revisions.len() {
            return Err(Status::new(ErrorKind::NotFound, "Revision with that ID was not found"));
        }
        let row = &self.revisions[at];
        let mut message = show_revision(row);
        if with_bundle {
            message.bundle = Some(open_bundle(row));
        }
        Ok(message)
    }

    /// Lists one page of revisions, newest first: those of one script where
    /// `script_id` names it, else all. Pages are counted from zero.
    pub fn list_revisions(&self, script_id: Option<&str>, page: i32, page_size: i32) -> (result:
        Result<ListRevisionResponse, Status>)
        requires
            self.wf(),
        ensures
            match result {
                Ok(response) => {
                    let script = optional_id(optional_str(script_id));
                    let all = newest_first(self.revisions(), script);
                    &&& list_revisions_refusal(optional_str(script_id), page, page_size) is None
                    &&& response.page == page
                    &&& response.total_pages == at_most(
                        spec_total_pages(all.len() as int, page_size as int),
                        i32::MAX as int,
                    )
                    &&& show_all(response.revisions@, page_of(all, page as int, page_size as int))
                },
                Err(status) => refused_as(
                    status,
                    list_revisions_refusal(optional_str(script_id), page, page_size),
                ),
            },
    {
        match check_page(page) {
            Ok(_) => {},
            Err(status) => {
                return Err(status);
            },
        }
        let script: Option<u128> = match script_id {
            Some(text) => match require_id(text) {
                Ok(id) => Some(id),
                Err(status) => {
                    return Err(status);
                },
            },
            None => None,
        };
        match check_page_size(page_size) {
            Ok(_) => {},
            Err(status) => {
                return Err(status);
            },
        }
        let first: u64 = page_offset(page, page_size);
        let behind: u64 = first + (page_size as u64);
        let n: usize = self.revisions.len();
        let ghost rows = self.revisions@;
        let mut revisions: Vec<Revision> = Vec::new();
        let ghost mut shown: Seq<DbRevision> = Seq::empty();
        let mut seen: usize = 0;
        let mut i: usize = n;
        assert(rows.subrange(n as int, n as int) =~= Seq::empty());
        while i > 0
            invariant
                i <= n,
                n == rows.len(),
                rows == self.revisions@,
                first == page * page_size,
                behind == first + page_size,
                page >= 0,
                page_size >= 0,
                seen == newest_first(rows.subrange(i as int, n as int), script).len(),
                seen <= n - i,
                shown == newest_first(rows.subrange(i as int, n as int), script).subrange(
                    at_most(first as int, seen as int),
                    at_most(behind as int, seen as int),
                ),
                show_all(revisions@, shown),
            decreases i,
        {
            i = i - 1;
            let ghost tail = rows.subrange(i as int, n as int);
            let ghost before = newest_first(rows.subrange(i + 1, n as int), script);
            assert(tail.drop_first() =~= rows.subrange(i + 1, n as int));
            assert(tail[0] == rows[i as int]);
            let row = &self.revisions[i];
            let is_wanted = match script {
                Some(id) => row.script_id == id,
                None => true,
            };
            if is_wanted {
                assert(newest_first(tail, script) == before.push(rows[i as int]));
                if first <= seen as u64 && (seen as u64) < behind {
                    revisions.push(show_revision(row));
                    proof {
                        let longer = before.push(rows[i as int]);
                        let grown = longer.subrange(
                            at_most(first as int, seen + 1),
                            at_most(behind as int, seen + 1),
                        );
                        assert(grown =~= shown.push(rows[i as int]));
                        shown = grown;
                    }
                } else {
                    proof {
                        let longer = before.push(rows[i as int]);
                        let same = longer.subrange(
                            at_most(first as int, seen + 1),
                            at_most(behind as int, seen + 1),
                        );
                        assert(same =~= shown);
                        shown = same;
                    }
                }
                seen = seen + 1;
            } else {
                assert(newest_first(tail, script) == before);
            }
        }
        assert(rows.subrange(0, n as int) =~= rows);
        Ok(ListRevisionResponse { page, total_pages: total_pages(seen, page_size), revisions })
    }

    /// Deletes a revision with its files. The script that owned it then
    /// points to the oldest of its remaining revisions, or to none where
    /// none remain.
    pub fn delete_revision(&mut self, revision_id: &str, now: i64) -> (result: Result<
        NewRevisionResponse,
        Status,
    >)
        requires
            old(self).wf(),
        ensures
            final(self).wf(),
            match result {
                Ok(response) => {
                    let at = spec_revision_at(
                        old(self).revisions(),
                        uuid_of_text(revision_id@).unwrap(),
                        0,
                    );
                    let owner_id = old(self).revisions()[at].script_id;
                    let owner = spec_script_at(old(self).scripts(), owner_id, 0);
                    let script = final(self).scripts()[owner];
                    let oldest = spec_oldest_at(final(self).revisions(), owner_id, 0);
                    &&& get_revision_refusal(old(self).revisions(), revision_id@) is None
                    &&& final(self).revisions() == old(self).revisions().remove(at)
                    &&& final(self).scripts() == old(self).scripts().update(owner, script)
                    &&& script.id == owner_id
                    &&& script.project_id == old(self).scripts()[owner].project_id
                    &&& script.public_identifier@ == old(self).scripts()[owner].public_identifier@
                    &&& script.last_updated == now
                    &&& script.current_revision == promoted(final(self).revisions(), owner_id)
                    &&& response.script_id@ == uuid_text(owner_id)
                    &&& optional_text(response.revision_id) == optional_id_text(
                        script.current_revision,
                    )
                },
                Err(status) => {
                    &&& final(self).same_rows(old(self))
                    &&& refused_as(
                        status,
                        get_revision_refusal(old(self).revisions(), revision_id@),
                    )
                },
            },
    {
        let id = match require_id(revision_id) {
            Ok(value) => value,
            Err(status) => {
                return Err(status);
            },
        };
        let at = revision_index(&self.revisions, id);
        if at >= self.revisions.len() {
            return Err(Status::new(ErrorKind::NotFound, "Revision with that ID was not found"));
        }
        let owner_id = self.revisions[at].script_id;
        let owner = script_index(&self.scripts, owner_id);
        let ghost before = self.revisions@;
        let ghost scripts_before = self.scripts@;
        proof {
            assert(has_script(scripts_before, before[at as int].script_id));
            lemma_update_script_sound(
                scripts_before,
                before,
                owner as int,
                DbScript { current_revision: None, ..scripts_before[owner as int] },
            );
            let cleared = scripts_before.update(
                owner as int,
                DbScript { current_revision: None, ..scripts_before[owner as int] },
            );
            assert forall|i: int| 0 <= i < cleared.len() implies (
            #[trigger] cleared[i]).current_revision != Some(before[at as int].id) by {
                if i != owner {
                    assert(cleared[i] == scripts_before[i]);
                    match scripts_before[i].current_revision {
                        Some(target) => {
                            let k = choose|k: int|
                                0 <= k < before.len() && (#[trigger] before[k]).id == target
                                    && before[k].script_id == scripts_before[i].id;
                            if target == before[at as int].id {
                                assert(k == at);
                                lemma_script_at(scripts_before, owner_id, 0);
                                assert(scripts_before[i].id == scripts_before[owner as int].id);
                            }
                        },
                        None => {},
                    }
                }
            }
            lemma_remove_revision_sound(cleared, before, at as int);
        }
        self.revisions.remove(at);
        let current: Option<u128> = match oldest_of(&self.revisions, owner_id) {
            Some(oldest) => {
                proof {
                    lemma_oldest_is_first(self.revisions@, owner_id, oldest as int);
                }
                Some(self.revisions[oldest].id)
            },
            None => {
                proof {
                    lemma_oldest_at(self.revisions@, owner_id, 0);
                }
                None
            },
        };
        let updated = DbScript {
            id: owner_id,
            project_id: self.scripts[owner].project_id,
            public_identifier: self.scripts[owner].public_identifier.clone(),
            last_updated: now,
            current_revision: current,
        };
        let response = NewRevisionResponse {
            script_id: id_text(owner_id),
            revision_id: match current {
                Some(value) => Some(id_text(value)),
                None => None,
            },
        };
        proof {
            let cleared = scripts_before.update(
                owner as int,
                DbScript { current_revision: None, ..scripts_before[owner as int] },
            );
            lemma_update_script_sound(cleared, self.revisions@, owner as int, updated);
            assert(cleared.update(owner as int, updated) =~= scripts_before.update(
                owner as int,
                updated,
            ));
        }
        self.scripts.set(owner, updated);
        Ok(response)
    }

    /// Makes a revision of a script its current one.
    pub fn set_script_revision(&mut self, script_id: &str, revision_id: &str, now: i64) -> (result:
        Result<NewRevisionResponse, Status>)
        requires
            old(self).wf(),
        ensures
            final(self).wf(),
            final(self).revisions() == old(self).revisions(),
            match result {
                Ok(response) => {
                    let target = uuid_of_text(revision_id@).unwrap();
                    let owner_id = uuid_of_text(script_id@).unwrap();
                    let owner = spec_script_at(old(self).scripts(), owner_id, 0);
                    let script = final(self).scripts()[owner];
                    &&& set_revision_refusal(
                        old(self).scripts(),
                        old(self).revisions(),
                        script_id@,
                        revision_id@,
                    ) is None
                    &&& final(self).scripts() == old(self).scripts().update(owner, script)
                    &&& script.id == owner_id
                    &&& script.project_id == old(self).scripts()[owner].project_id
                    &&& script.public_identifier@ == old(self).scripts()[owner].public_identifier@
                    &&& script.last_updated == now
                    &&& script.current_revision == Some(target)
                    &&& response.script_id@ == uuid_text(owner_id)
                    &&& optional_text(response.revision_id) == Some(uuid_text(target))
                },
                Err(status) => {
                    &&& final(self).same_rows(old(self))
                    &&& refused_as(
                        status,
                        set_revision_refusal(
                            old(self).scripts(),
                            old(self).revisions(),
                            script_id@,
                            revision_id@,
                        ),
                    )
                },
            },
    {
        let owner_id = match require_id(script_id) {
            Ok(value) => value,
            Err(status) => {
                return Err(status);
            },
        };
        let owner = script_index(&self.scripts, owner_id);
        if owner >= self.scripts.len() {
            return Err(Status::new(ErrorKind::NotFound, "Script with that id was not found"));
        }
        let target = match require_id(revision_id) {
            Ok(value) => value,
            Err(status) => {
                return Err(status);
            },
        };
        let at = revision_index(&self.revisions, target);
        if at >= self.revisions.len() {
            return Err(Status::new(ErrorKind::NotFound, "Revision with that ID was not found"));
        }
        match check_owner(owner_id, self.revisions[at].script_id, target) {
            Ok(_) => {},
            Err(status) => {
                return Err(status);
            },
        }
        let updated = DbScript {
            id: owner_id,
            project_id: self.scripts[owner].project_id,
            public_identifier: self.scripts[owner].public_identifier.clone(),
            last_updated: now,
            current_revision: Some(target),
        };
        proof {
            assert(script_owns(self.revisions@, owner_id, target));
            lemma_update_script_sound(self.scripts@, self.revisions@, owner as int, updated);
        }
        self.scripts.set(owner, updated);
        Ok(
            NewRevisionResponse {
                script_id: id_text(owner_id),
                revision_id: Some(id_text(target)),
            },
        )
    }

    /// Deletes a script with all its revisions and their files.
    pub fn delete_script(&mut self, id: &str) -> (result: Result<(), Status>)
        requires
            old(self).wf(),
        ensures
            final(self).wf(),
            match result {
                Ok(_) => {
                    let script = uuid_of_text(id@).unwrap();
                    &&& delete_script_refusal(old(self).scripts(), id@) is None
                    &&& final(self).scripts() == old(self).scripts().filter(other_script(script))
                    &&& final(self).revisions() == old(self).revisions().filter(
                        of_other_script(script),
                    )
                },
                Err(status) => {
                    &&& final(self).same_rows(old(self))
                    &&& refused_as(status, delete_script_refusal(old(self).scripts(), id@))
                },
            },
    {
        let script = match require_id(id) {
            Ok(value) => value,
            Err(status) => {
                return Err(status);
            },
        };
        if script_index(&self.scripts, script) >= self.scripts.len() {
            return Err(Status::new(ErrorKind::NotFound, "Script was not found."));
        }
        let mut gone_scripts: Vec<bool> = Vec::new();
        let mut i: usize = 0;
        while i < self.scripts.len()
            invariant
                i <= self.scripts.len(),
                gone_scripts.len() == i,
                forall|k: int|
                    0 <= k < i ==> #[trigger] gone_scripts[k] == !other_script(script)(
                        self.scripts[k],
                    ),
            decreases self.scripts.len() - i,
        {
            gone_scripts.push(self.scripts[i].id == script);
            i = i + 1;
        }
        let mut gone_revisions: Vec<bool> = Vec::new();
        let mut k: usize = 0;
        while k < self.revisions.len()
            invariant
                k <= self.revisions.len(),
                gone_revisions.len() == k,
                forall|j: int|
                    0 <= j < k ==> #[trigger] gone_revisions[j] == !of_other_script(script)(
                        self.revisions[j],
                    ),
            decreases self.revisions.len() - k,
        {
            gone_revisions.push(self.revisions[k].script_id == script);
            k = k + 1;
        }
        proof {
            let scripts = self.scripts@;
            let revisions = self.revisions@;
            assert forall|a: int, b: int|
                0 <= a < scripts.len() && 0 <= b < revisions.len() && other_script(script)(
                    #[trigger] scripts[a],
                ) && scripts[a].current_revision == Some(
                    (#[trigger] revisions[b]).id,
                ) implies of_other_script(script)(revisions[b]) by {
                let w = choose|w: int|
                    0 <= w < revisions.len() && (#[trigger] revisions[w]).id
                        == revisions[b].id && revisions[w].script_id == scripts[a].id;
                assert(w == b);
            }
            lemma_filter_tables_sound(
                scripts,
                revisions,
                other_script(script),
                of_other_script(script),
            );
        }
        drop_marked(&mut self.scripts, &gone_scripts, Ghost(other_script(script)));
        drop_marked(&mut self.revisions, &gone_revisions, Ghost(of_other_script(script)));
        Ok(())
    }

    /// Deletes every script of a project, with all revisions and files.
    pub fn delete_project(&mut self, project_id: &str) -> (result: Result<(), Status>)
        requires
            old(self).wf(),
        ensures
            final(self).wf(),
            match result {
                Ok(_) => {
                    let project = uuid_of_text(project_id@).unwrap();
                    &&& uuid_of_text(project_id@) is Some
                    &&& final(self).scripts() == old(self).scripts().filter(
                        outside_project(project),
                    )
                    &&& final(self).revisions() == old(self).revisions().filter(
                        of_other_project(old(self).scripts(), project),
                    )
                },
                Err(status) => {
                    &&& final(self).same_rows(old(self))
                    &&& uuid_of_text(project_id@) is None
                    &&& status.is(ErrorKind::InvalidArgument, "'id' was not a valid uuid"@)
                },
            },
    {
        let project = match require_id(project_id) {
            Ok(value) => value,
            Err(status) => {
                return Err(status);
            },
        };
        let ghost scripts = self.scripts@;
        let ghost revisions = self.revisions@;
        let mut gone_scripts: Vec<bool> = Vec::new();
        let mut i: usize = 0;
        while i < self.scripts.len()
            invariant
                i <= self.scripts.len(),
                gone_scripts.len() == i,
                forall|k: int|
                    0 <= k < i ==> #[trigger] gone_scripts[k] == !outside_project(project)(
                        self.scripts[k],
                    ),
            decreases self.scripts.len() - i,
        {
            gone_scripts.push(self.scripts[i].project_id == project);
            i = i + 1;
        }
        let mut gone_revisions: Vec<bool> = Vec::new();
        let mut k: usize = 0;
        while k < self.revisions.len()
            invariant
                k <= self.revisions.len(),
                self.wf(),
                scripts == self.scripts@,
                revisions == self.revisions@,
                gone_revisions.len() == k,
                forall|j: int|
                    0 <= j < k ==> #[trigger] gone_revisions[j] == !of_other_project(
                        scripts,
                        project,
                    )(revisions[j]),
            decreases self.revisions.len() - k,
        {
            let owner = script_index(&self.scripts, self.revisions[k].script_id);
            proof {
                assert(has_script(scripts, revisions[k as int].script_id));
                if in_project(scripts, project, revisions[k as int].script_id) {
                    let w = choose|w: int|
                        0 <= w < scripts.len() && (#[trigger] scripts[w]).id
                            == revisions[k as int].script_id && scripts[w].project_id == project;
                    assert(w == owner);
                }
            }
            gone_revisions.push(self.scripts[owner].project_id == project);
            k = k + 1;
        }
        proof {
            assert forall|a: int, b: int|
                0 <= a < scripts.len() && 0 <= b < revisions.len() && outside_project(project)(
                    #[trigger] scripts[a],
                ) && scripts[a].current_revision == Some(
                    (#[trigger] revisions[b]).id,
                ) implies of_other_project(scripts, project)(revisions[b]) by {
                let w = choose|w: int|
                    0 <= w < revisions.len() && (#[trigger] revisions[w]).id
                        == revisions[b].id && revisions[w].script_id == scripts[a].id;
                assert(w == b);
                if in_project(scripts, project, revisions[b].script_id) {
                    let v = choose|v: int|
                        0 <= v < scripts.len() && (#[trigger] scripts[v]).id
                            == revisions[b].script_id && scripts[v].project_id == project;
                    assert(v == a);
                }
            }
            assert forall|a: int, b: int|
                0 <= a < scripts.len() && 0 <= b < revisions.len() && of_other_project(
                    scripts,
                    project,
                )(#[trigger] revisions[b]) && (#[trigger] scripts[a]).id
                    == revisions[b].script_id implies outside_project(project)(scripts[a]) by {
                if scripts[a].project_id == project {
                    assert(in_project(scripts, project, revisions[b].script_id));
                }
            }
            lemma_filter_tables_sound(
                scripts,
                revisions,
                outside_project(project),
                of_other_project(scripts, project),
            );
        }
        drop_marked(&mut self.scripts, &gone_scripts, Ghost(outside_project(project)));
        drop_marked(
            &mut self.revisions,
            &gone_revisions,
            Ghost(of_other_project(scripts, project)),
        );
        Ok(())
    }
}

/// The moments at which `scripts` were last changed, in order.
pub open spec fn update_moments(scripts: Seq<DbScript>) -> Seq<i64> {
    Seq::new(scripts.len(), |i: int| scripts[i].last_updated)
}

/// The scripts, the one that was changed last first; of scripts changed at
/// the same moment the one that was created first.
pub open spec fn latest_first(scripts: Seq<DbScript>) -> Seq<DbScript> {
    let ranked = spec_ranking(update_moments(scripts));
    Seq::new(ranked.len(), |k: int| scripts[ranked[k] as int])
}

/// Whether `messages` show `rows`, one by one.
pub open spec fn show_all_scripts(messages: Seq<Script>, rows: Seq<DbScript>) -> bool {
    messages.len() == rows.len() && forall|k: int|
        0 <= k < messages.len() ==> script_shows(#[trigger] messages[k], rows[k])
}

/// Why a page of scripts cannot be listed, if it cannot.
pub open spec fn list_scripts_refusal(page: i32, page_size: i32) -> Refusal {
    if page < 0 {
        Some((ErrorKind::InvalidArgument, "invalid page number provided!"@))
    } else if page_size < 0 {
        Some((ErrorKind::Internal, "LIMIT must not be negative"@))
    } else {
        None
    }
}

impl ScriptService {
    /// Lists one page of scripts, the one that was changed last first.
    /// Pages are counted from zero.
    pub fn list_scripts(&self, page: i32, page_size: i32) -> (result: Result<
        ListScriptResponse,
        Status,
    >)
        requires
            self.wf(),
        ensures
            match result {
                Ok(response) => {
                    &&& list_scripts_refusal(page, page_size) is None
                    &&& response.page == page
                    &&& response.total_pages == at_most(
                        spec_total_pages(self.scripts().len() as int, page_size as int),
                        i32::MAX as int,
                    )
                    &&& show_all_scripts(
                        response.scripts@,
                        page_of(latest_first(self.scripts()), page as int, page_size as int),
                    )
                },
                Err(status) => refused_as(status, list_scripts_refusal(page, page_size)),
            },
    {
        match check_page(page) {
            Ok(_) => {},
            Err(status) => {
                return Err(status);
            },
        }
        match check_page_size(page_size) {
            Ok(_) => {},
            Err(status) => {
                return Err(status);
            },
        }
        let n: usize = self.scripts.len();
        let mut moments: Vec<i64> = Vec::new();
        let mut i: usize = 0;
        while i < n
            invariant
                i <= n,
                n == self.scripts.len(),
                moments.len() == i,
                forall|k: int| 0 <= k < i ==> #[trigger] moments[k] == self.scripts[k].last_updated,
            decreases n - i,
        {
            moments.push(self.scripts[i].last_updated);
            i = i + 1;
        }
        assert(moments@ =~= update_moments(self.scripts@));
        let ranked = rank(&moments);
        let first: u64 = page_offset(page, page_size);
        let behind: u64 = first + (page_size as u64);
        let start: usize = if first < n as u64 {
            first as usize
        } else {
            n
        };
        let end: usize = if behind < n as u64 {
            behind as usize
        } else {
            n
        };
        let ghost all = latest_first(self.scripts@);
        let mut scripts: Vec<Script> = Vec::new();
        let mut k: usize = start;
        if page_size > 0 {
            while k < end
                invariant
                    start <= k <= end <= n,
                    n == self.scripts.len(),
                    ranked.len() == n,
                    is_ranking(moments@, ranked@),
                    moments@ == update_moments(self.scripts@),
                    ranked@ == spec_ranking(moments@),
                    all == latest_first(self.scripts@),
                    show_all_scripts(scripts@, all.subrange(start as int, k as int)),
                decreases end - k,
            {
                let at: usize = ranked[k];
                scripts.push(show_script(&self.scripts[at]));
                assert(all[k as int] == self.scripts@[at as int]);
                assert(all.subrange(start as int, k + 1) =~= all.subrange(
                    start as int,
                    k as int,
                ).push(all[k as int]));
                k = k + 1;
            }
        }
        Ok(ListScriptResponse { page, total_pages: total_pages(n, page_size), scripts })
    }
}

/// The view of an optional string slice.
pub open spec fn optional_str(text: Option<&str>) -> Option<Seq<char>> {
    match text {
        Some(value) => Some(value@),
        None => None,
    }
}

/// The revision that a script points to after one of its revisions went:
/// the first of those that remain, or none.
pub open spec fn promoted(revisions: Seq<DbRevision>, script: u128) -> Option<u128> {
    let first = spec_oldest_at(revisions, script, 0);
    if 0 <= first < revisions.len() {
        Some(revisions[first].id)
    } else {
        None
    }
}

/// The current revision of every script is a revision of that script, or
/// there is none.
pub proof fn lemma_current_revision_is_own(store: ScriptService, at: int)
    requires
        store.wf(),
        0 <= at < store.scripts().len(),
    ensures
        match store.scripts()[at].current_revision {
            Some(id) => script_owns(store.revisions(), store.scripts()[at].id, id),
            None => true,
        },
{
}

/// The manifest of every stored revision names the script that the
/// revision belongs to.
pub proof fn lemma_manifest_names_script(store: ScriptService, at: int)
    requires
        store.wf(),
        0 <= at < store.revisions().len(),
    ensures
        store.revisions()[at].script_config.id == store.revisions()[at].script_id,
{
}

/// The revision that a script is left with when one of its revisions goes
/// is the oldest that remains: it belongs to the script, and no remaining
/// revision of the script was created before it. Where the script points to
/// none, none remains.
pub proof fn lemma_promoted_is_oldest(store: ScriptService, script: u128)
    requires
        store.wf(),
    ensures
        match promoted(store.revisions(), script) {
            Some(id) => exists|first: int|
                {
                    &&& 0 <= first < store.revisions().len()
                    &&& (#[trigger] store.revisions()[first]).id == id
                    &&& store.revisions()[first].script_id == script
                    &&& forall|k: int|
                        0 <= k < store.revisions().len() && (
                        #[trigger] store.revisions()[k]).script_id == script
                            ==> store.revisions()[first].created <= store.revisions()[k].created
                },
            None => forall|k: int|
                0 <= k < store.revisions().len() ==> (#[trigger] store.revisions()[k]).script_id
                    != script,
        },
{
    lemma_first_is_oldest(store.revisions(), script);
    let first = spec_oldest_at(store.revisions(), script, 0);
    if first < store.revisions().len() {
        assert(store.revisions()[first].id == promoted(store.revisions(), script).unwrap());
    }
}

/// Files that were stored with a revision come back from it byte for byte:
/// packing is not seen from outside.
pub proof fn lemma_stored_files_come_back(files: Seq<File>, stored: Seq<DbFile>, id: u128)
    requires
        stores_files(stored, files, id),
    ensures
        unpacked_bodies(stored) == bodies(files),
{
    assert(unpacked_bodies(stored) =~= bodies(files));
}

} // verus!
