//! Directories: which one a command works in, and whether a revision may
//! be written into one.

use vstd::prelude::*;
use vstd::string::*;
use crate::bundle::{Bundle, File};
use crate::cli::script::{BundleDto, DiskFile, FileDto, ScriptConfig};
use crate::codec::{
    base64_bare_bytes, base64_padded, base64_padded_bytes, decode_bare, decode_padded,
    encode_padded,
};
use crate::text::str_eq;

verus! {

/// What is known of a directory before a command works in it.
#[derive(Clone, Copy, Debug, PartialEq, Eq, Structural)]
pub struct DirState {
    /// Whether something is at the path.
    pub exists: bool,
    /// Whether what is there is a directory.
    pub is_dir: bool,
    /// Whether the directory holds nothing.
    pub is_empty: bool,
}

/// What is done with a directory that a command may work in.
#[derive(Clone, Copy, Debug, PartialEq, Eq, Structural)]
pub enum DirAction {
    /// The directory is there: use it.
    Use,
    /// The directory is not there: create it.
    Create,
}

/// Why a command cannot work in a directory.
#[derive(Clone, Copy, Debug, PartialEq, Eq, Structural)]
pub enum DirProblem {
    IsFile,
    NotEmpty,
    Missing,
}

/// What a command does with a directory, or why it cannot work in it: a
/// file is in the way; the directory is to be empty and is not; or it is
/// not there and is not to be created.
pub open spec fn spec_get_dir(state: DirState, should_empty: bool, create_dir: bool) -> Result<
    DirAction,
    DirProblem,
> {
    if state.exists {
        if !state.is_dir {
            Err(DirProblem::IsFile)
        } else if should_empty && !state.is_empty {
            Err(DirProblem::NotEmpty)
        } else {
            Ok(DirAction::Use)
        }
    } else if create_dir {
        Ok(DirAction::Create)
    } else {
        Err(DirProblem::Missing)
    }
}

/// What the user is told of a problem with the directory `dir`.
pub open spec fn spec_problem_text(problem: DirProblem, dir: Seq<char>) -> Seq<char> {
    match problem {
        DirProblem::IsFile => "specified directory "@ + dir + " is a file"@,
        DirProblem::NotEmpty => "specified directory "@ + dir + " is not empty"@,
        DirProblem::Missing => "directory "@ + dir + " doesn't exist"@,
    }
}

/// Decides what a command does with the directory `dir`.
pub fn get_dir(dir: &str, state: DirState, should_empty: bool, create_dir: bool) -> (result:
    Result<DirAction, String>)
    ensures
        match result {
            Ok(action) => spec_get_dir(state, should_empty, create_dir) == Ok::<
                DirAction,
                DirProblem,
            >(action),
            Err(message) => spec_get_dir(state, should_empty, create_dir) is Err && message@
                == spec_problem_text(
                spec_get_dir(state, should_empty, create_dir).unwrap_err(),
                dir@,
            ),
        },
{
    if state.exists {
        if !state.is_dir {
            let mut message = String::from_str("specified directory ");
            message.append(dir);
            message.append(" is a file");
            return Err(message);
        }
        if should_empty && !state.is_empty {
            let mut message = String::from_str("specified directory ");
            message.append(dir);
            message.append(" is not empty");
            return Err(message);
        }
        Ok(DirAction::Use)
    } else if create_dir {
        Ok(DirAction::Create)
    } else {
        let mut message = String::from_str("directory ");
        message.append(dir);
        message.append(" doesn't exist");
        Err(message)
    }
}

/// The script that a manifest names; the empty text where it names none.
pub open spec fn spec_manifest_id(config: ScriptConfig) -> Seq<char> {
    match config.id {
        Some(id) => id@,
        None => Seq::empty(),
    }
}

/// Why a revision of the script `script_id` may not be written into a
/// directory, if it may not: the directory holds something and is no
/// project, or it is the project of another script.
pub open spec fn clone_refusal(
    script_id: Seq<char>,
    occupied: bool,
    manifest: Option<ScriptConfig>,
) -> Option<Seq<char>> {
    if !occupied {
        None
    } else {
        match manifest {
            None => Some("Directory not empty and not a project"@),
            Some(config) => if spec_manifest_id(config) != script_id {
                Some("Script ID in that directory doesn't match, cannot safely clone"@)
            } else {
                None
            },
        }
    }
}

/// Checks whether a revision of the script `script_id` may be written into
/// a directory. `occupied` tells whether the directory is there and holds
/// something, `manifest` is the manifest that was read from it, if one
/// could be.
pub fn check_clone_dir(script_id: &str, occupied: bool, manifest: Option<&ScriptConfig>) -> (result:
    Result<(), String>)
    ensures
        match result {
            Ok(_) => clone_refusal(script_id@, occupied, optional_config(manifest)) is None,
            Err(message) => clone_refusal(script_id@, occupied, optional_config(manifest))
                == Some(message@),
        },
{
    if !occupied {
        return Ok(());
    }
    match manifest {
        None => Err(String::from_str("Directory not empty and not a project")),
        Some(config) => {
            let same = match &config.id {
                Some(id) => str_eq(id.as_str(), script_id),
                None => str_eq("", script_id),
            };
            proof {
                reveal_strlit("");
                assert(""@ =~= Seq::<char>::empty());
            }
            if same {
                Ok(())
            } else {
                Err(
                    String::from_str(
                        "Script ID in that directory doesn't match, cannot safely clone",
                    ),
                )
            }
        },
    }
}

/// The manifest behind an optional reference.
pub open spec fn optional_config(manifest: Option<&ScriptConfig>) -> Option<ScriptConfig> {
    match manifest {
        Some(config) => Some(*config),
        None => None,
    }
}

/// Whether `file` is what `dto` is written to disk as: at its path, with
/// the bytes that its padded base64 stands for.
pub open spec fn written_as(file: DiskFile, dto: FileDto) -> bool {
    file.path@ == dto.file_path@ && base64_padded_bytes(dto.content@) == Some(file.content@)
}

/// Whether the content of some file of `files` is no padded base64.
pub open spec fn some_unreadable(files: Seq<FileDto>) -> bool {
    exists|i: int| 0 <= i < files.len() && base64_padded_bytes((#[trigger] files[i]).content@) is None
}

/// The files that a revision is written to disk as, each at its path with
/// its content decoded. `None` where the content of a file is no padded
/// base64.
pub fn write_revision(bundle: &BundleDto) -> (files: Option<Vec<DiskFile>>)
    ensures
        match files {
            Some(list) => !some_unreadable(bundle.files@) && list.len() == bundle.files.len()
                && forall|i: int| 0 <= i < list.len() ==> written_as(#[trigger] list[i], bundle.files[i]),
            None => some_unreadable(bundle.files@),
        },
{
    let mut list: Vec<DiskFile> = Vec::new();
    let mut i: usize = 0;
    while i < bundle.files.len()
        invariant
            i <= bundle.files.len(),
            list.len() == i,
            forall|k: int| 0 <= k < i ==> written_as(#[trigger] list[k], bundle.files[k]),
            forall|k: int|
                0 <= k < i ==> base64_padded_bytes((#[trigger] bundle.files[k]).content@) is Some,
        decreases bundle.files.len() - i,
    {
        let dto = &bundle.files[i];
        match decode_padded(dto.content.as_str()) {
            Some(content) => {
                list.push(DiskFile { path: dto.file_path.clone(), content });
            },
            None => {
                return None;
            },
        }
        i = i + 1;
    }
    Some(list)
}

/// Whether `dto` shows the fetched `file` inside JSON: its content is the
/// padded base64 of the bytes, which reads back as the bytes; name, path
/// and revision are those of the file.
pub open spec fn shows_file(dto: FileDto, file: File) -> bool {
    &&& dto.content@ == base64_padded(file.content@)
    &&& base64_padded_bytes(dto.content@) == Some(file.content@)
    &&& dto.file_name@ == file.file_name@
    &&& dto.file_path@ == file.file_path@
    &&& crate::script_service::model::optional_text(dto.revision_id)
        == crate::script_service::model::optional_text(file.revision_id)
}

/// The form in which a fetched bundle travels inside JSON.
pub fn bundle_to_dto(bundle: &Bundle) -> (dto: BundleDto)
    ensures
        dto.entry_point@ == bundle.entry_point@,
        dto.files.len() == bundle.files.len(),
        forall|i: int| 0 <= i < dto.files.len() ==> shows_file(#[trigger] dto.files[i], bundle.files[i]),
{
    let mut files: Vec<FileDto> = Vec::new();
    let mut i: usize = 0;
    while i < bundle.files.len()
        invariant
            i <= bundle.files.len(),
            files.len() == i,
            forall|k: int| 0 <= k < i ==> shows_file(#[trigger] files[k], bundle.files[k]),
        decreases bundle.files.len() - i,
    {
        let file = &bundle.files[i];
        files.push(
            FileDto {
                content: encode_padded(&file.content),
                file_name: file.file_name.clone(),
                file_path: file.file_path.clone(),
                revision_id: match &file.revision_id {
                    Some(id) => Some(id.clone()),
                    None => None,
                },
            },
        );
        i = i + 1;
    }
    BundleDto { entry_point: bundle.entry_point.clone(), files }
}

/// Whether `file` is what the uploaded `dto` is taken in as: name and path
/// as they are, the bytes that its unpadded base64 stands for.
pub open spec fn taken_in(file: File, dto: FileDto) -> bool {
    &&& file.file_name@ == dto.file_name@
    &&& file.file_path@ == dto.file_path@
    &&& base64_bare_bytes(dto.content@) == Some(file.content@)
    &&& file.revision_id is None
}

/// Whether the content of some file of `files` is no unpadded base64.
pub open spec fn some_undecodable(files: Seq<FileDto>) -> bool {
    exists|i: int| 0 <= i < files.len() && base64_bare_bytes((#[trigger] files[i]).content@) is None
}

/// The bundle that an uploaded bundle is taken in as, contents decoded.
/// `None` where the content of a file is no unpadded base64.
pub fn bundle_from_dto(dto: &BundleDto) -> (bundle: Option<Bundle>)
    ensures
        match bundle {
            Some(taken) => !some_undecodable(dto.files@) && taken.entry_point@
                == dto.entry_point@ && taken.files.len() == dto.files.len() && forall|i: int|
                0 <= i < taken.files.len() ==> taken_in(#[trigger] taken.files[i], dto.files[i]),
            None => some_undecodable(dto.files@),
        },
{
    let mut files: Vec<File> = Vec::new();
    let mut i: usize = 0;
    while i < dto.files.len()
        invariant
            i <= dto.files.len(),
            files.len() == i,
            forall|k: int| 0 <= k < i ==> taken_in(#[trigger] files[k], dto.files[k]),
            forall|k: int|
                0 <= k < i ==> base64_bare_bytes((#[trigger] dto.files[k]).content@) is Some,
        decreases dto.files.len() - i,
    {
        let file = &dto.files[i];
        match decode_bare(file.content.as_str()) {
            Some(content) => {
                files.push(
                    File {
                        file_name: file.file_name.clone(),
                        file_path: file.file_path.clone(),
                        content,
                        revision_id: None,
                    },
                );
            },
            None => {
                return None;
            },
        }
        i = i + 1;
    }
    Some(Bundle { entry_point: dto.entry_point.clone(), files })
}

/// A file that is published and then cloned comes back byte for byte, at
/// its path: whatever carries the file up, takes it in, stores and fetches
/// it unchanged, shows it inside JSON and writes it back to disk, the
/// bytes that are written are the bytes that were read.
pub proof fn lemma_clone_reproduces(
    read: DiskFile,
    uploaded: FileDto,
    taken: File,
    fetched: File,
    shown: FileDto,
    written: DiskFile,
)
    requires
        crate::cli::script::carries(uploaded, read),
        taken_in(taken, uploaded),
        fetched.body() == taken.body(),
        shows_file(shown, fetched),
        written_as(written, shown),
    ensures
        written.content@ == read.content@,
        written.path@ == read.path@,
{
}

} // verus!
