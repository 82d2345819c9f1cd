//! Rows and messages of the script service.

use vstd::prelude::*;
use vstd::string::*;
use crate::bundle::{Bundle, FileBody};
use crate::codec::{is_packed, spec_unpack};
use crate::ids::uuid_text;
use crate::text::views_of;

verus! {

/// The manifest of a script, as the service keeps it.
#[derive(Clone, Debug, PartialEq, Eq)]
pub struct ScriptConfig {
    /// The script that the manifest belongs to.
    pub id: u128,
    /// Name of the file that runs first.
    pub entry_point: String,
    /// Patterns of the files that make up the bundle.
    pub includes: Vec<String>,
    /// Patterns of the files left out.
    pub ignore: Vec<String>,
}

/// A manifest as a value.
pub struct ScriptConfigView {
    pub id: u128,
    pub entry_point: Seq<char>,
    pub includes: Seq<Seq<char>>,
    pub ignore: Seq<Seq<char>>,
}

impl View for ScriptConfig {
    type V = ScriptConfigView;

    open spec fn view(&self) -> ScriptConfigView {
        ScriptConfigView {
            id: self.id,
            entry_point: self.entry_point@,
            includes: views_of(self.includes@),
            ignore: views_of(self.ignore@),
        }
    }
}

/// A copy of a list of strings.
pub fn copy_strings(items: &Vec<String>) -> (copy: Vec<String>)
    ensures
        views_of(copy@) == views_of(items@),
{
    let mut copy: Vec<String> = Vec::new();
    let mut i: usize = 0;
    while i < items.len()
        invariant
            i <= items.len(),
            copy.len() == i,
            forall|j: int| 0 <= j < i ==> (#[trigger] copy[j])@ == items[j]@,
        decreases items.len() - i,
    {
        copy.push(items[i].clone());
        i = i + 1;
    }
    assert(views_of(copy@) =~= views_of(items@));
    copy
}

impl ScriptConfig {
    /// A copy of this manifest.
    pub fn duplicate(&self) -> (copy: ScriptConfig)
        ensures
            copy@ == self@,
    {
        ScriptConfig {
            id: self.id,
            entry_point: self.entry_point.clone(),
            includes: copy_strings(&self.includes),
            ignore: copy_strings(&self.ignore),
        }
    }
}

/// A script as stored.
#[derive(Clone, Debug, PartialEq, Eq)]
pub struct DbScript {
    pub id: u128,
    pub project_id: u128,
    /// The routing label, unique among all scripts.
    pub public_identifier: String,
    pub last_updated: i64,
    pub current_revision: Option<u128>,
}

/// A stored file: its content is packed.
#[derive(Clone, Debug, PartialEq, Eq)]
pub struct DbFile {
    pub revision_id: u128,
    pub content: Vec<u8>,
    pub file_name: String,
    pub file_path: String,
}

/// A revision as stored, with its files.
#[derive(Clone, Debug, PartialEq, Eq)]
pub struct DbRevision {
    pub id: u128,
    pub created: i64,
    pub script_id: u128,
    pub entry_point: String,
    pub script_config: ScriptConfig,
    pub files: Vec<DbFile>,
}

/// A script as sent to callers.
#[derive(Clone, Debug, PartialEq, Eq)]
pub struct Script {
    pub id: String,
    pub project_id: String,
    pub public_identifier: String,
    pub last_updated: i64,
    pub current_revision_id: Option<String>,
}

/// A revision as sent to callers; the bundle only where it was asked for.
#[derive(Clone, Debug, PartialEq, Eq)]
pub struct Revision {
    pub id: String,
    pub created: i64,
    pub script_id: String,
    pub script_config: ScriptConfig,
    pub bundle: Option<Bundle>,
}

/// The answer to a change of a script's current revision.
#[derive(Clone, Debug, PartialEq, Eq)]
pub struct NewRevisionResponse {
    pub script_id: String,
    pub revision_id: Option<String>,
}

/// One page of revisions.
#[derive(Clone, Debug, PartialEq, Eq)]
pub struct ListRevisionResponse {
    pub page: i32,
    pub total_pages: i32,
    pub revisions: Vec<Revision>,
}

/// One page of scripts.
#[derive(Clone, Debug, PartialEq, Eq)]
pub struct ListScriptResponse {
    pub page: i32,
    pub total_pages: i32,
    pub scripts: Vec<Script>,
}

/// How a script is looked up.
#[derive(Clone, Debug, PartialEq, Eq)]
pub enum ScriptQuery {
    /// By its identifier, as text.
    Id(String),
    /// By its routing label.
    PublicName(String),
}

/// The text of an optional identifier.
pub open spec fn optional_id_text(id: Option<u128>) -> Option<Seq<char>> {
    match id {
        Some(value) => Some(uuid_text(value)),
        None => None,
    }
}

/// The view of an optional string.
pub open spec fn optional_text(text: Option<String>) -> Option<Seq<char>> {
    match text {
        Some(value) => Some(value@),
        None => None,
    }
}

/// Whether `message` is the stored script `row`, identifiers written as
/// text.
pub open spec fn script_shows(message: Script, row: DbScript) -> bool {
    &&& message.id@ == uuid_text(row.id)
    &&& message.project_id@ == uuid_text(row.project_id)
    &&& message.public_identifier@ == row.public_identifier@
    &&& message.last_updated == row.last_updated
    &&& optional_text(message.current_revision_id) == optional_id_text(row.current_revision)
}

/// Whether `message` is the stored revision `row` without regard to its
/// bundle.
pub open spec fn revision_shows(message: Revision, row: DbRevision) -> bool {
    &&& message.id@ == uuid_text(row.id)
    &&& message.created == row.created
    &&& message.script_id@ == uuid_text(row.script_id)
    &&& message.script_config@ == row.script_config@
}

/// Name, path and unpacked bytes of stored files, in order.
pub open spec fn unpacked_bodies(files: Seq<DbFile>) -> Seq<FileBody> {
    Seq::new(
        files.len(),
        |i: int|
            FileBody {
                file_name: files[i].file_name@,
                file_path: files[i].file_path@,
                content: spec_unpack(files[i].content@).unwrap(),
            },
    )
}

/// What holds of every stored revision: its manifest names its script,
/// its files are packed and carry its identifier, no path occurs twice,
/// and the entry point names one of the files.
pub open spec fn revision_sound(row: DbRevision) -> bool {
    &&& row.script_config.id == row.script_id
    &&& forall|i: int|
        0 <= i < row.files.len() ==> is_packed((#[trigger] row.files[i]).content@)
            && row.files[i].revision_id == row.id
    &&& forall|i: int, j: int|
        0 <= i < j < row.files.len() ==> (#[trigger] row.files[i]).file_path@
            != (#[trigger] row.files[j]).file_path@
    &&& exists|i: int|
        0 <= i < row.files.len() && (#[trigger] row.files[i]).file_name@ == row.entry_point@
}

/// No two scripts share an identifier or a routing label.
pub open spec fn scripts_distinct(scripts: Seq<DbScript>) -> bool {
    forall|i: int, j: int|
        0 <= i < j < scripts.len() ==> (#[trigger] scripts[i]).id != (#[trigger] scripts[j]).id
            && scripts[i].public_identifier@ != scripts[j].public_identifier@
}

/// No two revisions share an identifier.
pub open spec fn revisions_distinct(revisions: Seq<DbRevision>) -> bool {
    forall|i: int, j: int|
        0 <= i < j < revisions.len() ==> (#[trigger] revisions[i]).id
            != (#[trigger] revisions[j]).id
}

/// Revisions stand in the order in which they were created.
pub open spec fn revisions_sorted(revisions: Seq<DbRevision>) -> bool {
    forall|i: int, j: int|
        0 <= i < j < revisions.len() ==> (#[trigger] revisions[i]).created
            <= (#[trigger] revisions[j]).created
}

/// Whether a script with the identifier `id` is among `scripts`.
pub open spec fn has_script(scripts: Seq<DbScript>, id: u128) -> bool {
    exists|i: int| 0 <= i < scripts.len() && (#[trigger] scripts[i]).id == id
}

/// Whether a script with the routing label `label` is among `scripts`.
pub open spec fn has_label(scripts: Seq<DbScript>, label: Seq<char>) -> bool {
    exists|i: int| 0 <= i < scripts.len() && (#[trigger] scripts[i]).public_identifier@ == label
}

/// Whether a revision with the identifier `id` is among `revisions`.
pub open spec fn has_revision(revisions: Seq<DbRevision>, id: u128) -> bool {
    exists|i: int| 0 <= i < revisions.len() && (#[trigger] revisions[i]).id == id
}

/// Whether the revision `id` is among `revisions` and belongs to `script`.
pub open spec fn script_owns(revisions: Seq<DbRevision>, script: u128, id: u128) -> bool {
    exists|i: int|
        0 <= i < revisions.len() && (#[trigger] revisions[i]).id == id && revisions[i].script_id
            == script
}

/// Every revision belongs to a script that is there.
pub open spec fn revisions_owned(revisions: Seq<DbRevision>, scripts: Seq<DbScript>) -> bool {
    forall|i: int|
        0 <= i < revisions.len() ==> has_script(scripts, (#[trigger] revisions[i]).script_id)
}

/// The current revision of every script, where it has one, is a revision of
/// that script.
pub open spec fn pointers_valid(scripts: Seq<DbScript>, revisions: Seq<DbRevision>) -> bool {
    forall|i: int|
        0 <= i < scripts.len() ==> match (#[trigger] scripts[i]).current_revision {
            Some(id) => script_owns(revisions, scripts[i].id, id),
            None => true,
        }
}

/// Every stored revision is sound.
pub open spec fn revisions_sound(revisions: Seq<DbRevision>) -> bool {
    forall|i: int| 0 <= i < revisions.len() ==> revision_sound(#[trigger] revisions[i])
}

/// What holds of the tables of the service at all times.
pub open spec fn tables_sound(scripts: Seq<DbScript>, revisions: Seq<DbRevision>) -> bool {
    &&& scripts_distinct(scripts)
    &&& revisions_distinct(revisions)
    &&& revisions_sorted(revisions)
    &&& revisions_owned(revisions, scripts)
    &&& pointers_valid(scripts, revisions)
    &&& revisions_sound(revisions)
}

/// Index of the first script at or after `from` with the identifier `id`,
/// or the number of scripts.
pub open spec fn spec_script_at(scripts: Seq<DbScript>, id: u128, from: int) -> int
    decreases scripts.len() - from,
{
    if from < 0 || from >= scripts.len() {
        scripts.len() as int
    } else if scripts[from].id == id {
        from
    } else {
        spec_script_at(scripts, id, from + 1)
    }
}

/// Index of the first script at or after `from` with the routing label
/// `label`, or the number of scripts.
pub open spec fn spec_label_at(scripts: Seq<DbScript>, label: Seq<char>, from: int) -> int
    decreases scripts.len() - from,
{
    if from < 0 || from >= scripts.len() {
        scripts.len() as int
    } else if scripts[from].public_identifier@ == label {
        from
    } else {
        spec_label_at(scripts, label, from + 1)
    }
}

/// Index of the first revision at or after `from` with the identifier `id`,
/// or the number of revisions.
pub open spec fn spec_revision_at(revisions: Seq<DbRevision>, id: u128, from: int) -> int
    decreases revisions.len() - from,
{
    if from < 0 || from >= revisions.len() {
        revisions.len() as int
    } else if revisions[from].id == id {
        from
    } else {
        spec_revision_at(revisions, id, from + 1)
    }
}

/// Index of the first revision at or after `from` that belongs to `script`,
/// or the number of revisions. Among sorted revisions this is the oldest
/// one of the script.
pub open spec fn spec_oldest_at(revisions: Seq<DbRevision>, script: u128, from: int) -> int
    decreases revisions.len() - from,
{
    if from < 0 || from >= revisions.len() {
        revisions.len() as int
    } else if revisions[from].script_id == script {
        from
    } else {
        spec_oldest_at(revisions, script, from + 1)
    }
}

/// Index of the first revision at or after `from` that was created after
/// `moment`, or the number of revisions: where a revision created at
/// `moment` is put.
pub open spec fn spec_slot_at(revisions: Seq<DbRevision>, moment: i64, from: int) -> int
    decreases revisions.len() - from,
{
    if from < 0 || from >= revisions.len() {
        revisions.len() as int
    } else if revisions[from].created > moment {
        from
    } else {
        spec_slot_at(revisions, moment, from + 1)
    }
}

/// What [`spec_script_at`] finds: the first script with that identifier,
/// and there is one exactly where a script with it exists.
pub proof fn lemma_script_at(scripts: Seq<DbScript>, id: u128, from: int)
    requires
        0 <= from <= scripts.len(),
    ensures
        from <= spec_script_at(scripts, id, from) <= scripts.len(),
        spec_script_at(scripts, id, from) < scripts.len() ==> scripts[spec_script_at(
            scripts,
            id,
            from,
        )].id == id,
        forall|j: int| from <= j < spec_script_at(scripts, id, from) ==> (#[trigger] scripts[j]).id != id,
        from == 0 ==> (spec_script_at(scripts, id, from) < scripts.len() <==> has_script(
            scripts,
            id,
        )),
    decreases scripts.len() - from,
{
    if from < scripts.len() && scripts[from].id != id {
        lemma_script_at(scripts, id, from + 1);
    }
}

/// What [`spec_label_at`] finds: the first script with that label, and
/// there is one exactly where a script with it exists.
pub proof fn lemma_label_at(scripts: Seq<DbScript>, label: Seq<char>, from: int)
    requires
        0 <= from <= scripts.len(),
    ensures
        from <= spec_label_at(scripts, label, from) <= scripts.len(),
        spec_label_at(scripts, label, from) < scripts.len() ==> scripts[spec_label_at(
            scripts,
            label,
            from,
        )].public_identifier@ == label,
        forall|j: int|
            from <= j < spec_label_at(scripts, label, from) ==> (
            #[trigger] scripts[j]).public_identifier@ != label,
        from == 0 ==> (spec_label_at(scripts, label, from) < scripts.len() <==> has_label(
            scripts,
            label,
        )),
    decreases scripts.len() - from,
{
    if from < scripts.len() && scripts[from].public_identifier@ != label {
        lemma_label_at(scripts, label, from + 1);
    }
}

/// What [`spec_revision_at`] finds: the first revision with that
/// identifier, and there is one exactly where a revision with it exists.
pub proof fn lemma_revision_at(revisions: Seq<DbRevision>, id: u128, from: int)
    requires
        0 <= from <= revisions.len(),
    ensures
        from <= spec_revision_at(revisions, id, from) <= revisions.len(),
        spec_revision_at(revisions, id, from) < revisions.len() ==> revisions[spec_revision_at(
            revisions,
            id,
            from,
        )].id == id,
        forall|j: int|
            from <= j < spec_revision_at(revisions, id, from) ==> (#[trigger] revisions[j]).id
                != id,
        from == 0 ==> (spec_revision_at(revisions, id, from) < revisions.len() <==> has_revision(
            revisions,
            id,
        )),
    decreases revisions.len() - from,
{
    if from < revisions.len() && revisions[from].id != id {
        lemma_revision_at(revisions, id, from + 1);
    }
}

/// What [`spec_oldest_at`] finds: the first revision of the script.
pub proof fn lemma_oldest_at(revisions: Seq<DbRevision>, script: u128, from: int)
    requires
        0 <= from <= revisions.len(),
    ensures
        from <= spec_oldest_at(revisions, script, from) <= revisions.len(),
        spec_oldest_at(revisions, script, from) < revisions.len() ==> revisions[spec_oldest_at(
            revisions,
            script,
            from,
        )].script_id == script,
        forall|j: int|
            from <= j < spec_oldest_at(revisions, script, from) ==> (
            #[trigger] revisions[j]).script_id != script,
    decreases revisions.len() - from,
{
    if from < revisions.len() && revisions[from].script_id != script {
        lemma_oldest_at(revisions, script, from + 1);
    }
}

/// What [`spec_slot_at`] finds: nothing before it was created later than
/// `moment`, and what stands at it was.
pub proof fn lemma_slot_at(revisions: Seq<DbRevision>, moment: i64, from: int)
    requires
        0 <= from <= revisions.len(),
    ensures
        from <= spec_slot_at(revisions, moment, from) <= revisions.len(),
        spec_slot_at(revisions, moment, from) < revisions.len() ==> revisions[spec_slot_at(
            revisions,
            moment,
            from,
        )].created > moment,
        forall|j: int|
            from <= j < spec_slot_at(revisions, moment, from) ==> (#[trigger] revisions[j]).created
                <= moment,
    decreases revisions.len() - from,
{
    if from < revisions.len() && revisions[from].created <= moment {
        lemma_slot_at(revisions, moment, from + 1);
    }
}

} // verus!
