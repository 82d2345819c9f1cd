//! The manifest of a project and the bundle that is made of its files.

use vstd::prelude::*;
use vstd::string::*;
use crate::codec::{base64_bare, base64_bare_bytes, encode_bare};
use crate::cli::scan::{glob_safe, spec_glob_safe};
use crate::ordering::{is_ordering, order, spec_ordering};
use crate::text::{basename, spec_basename, str_eq, views_of};

verus! {

/// The name of the file that holds the manifest.
pub open spec fn manifest_name() -> Seq<char> {
    "script.json"@
}

/// The manifest of a project on disk.
#[derive(Clone, Debug, PartialEq, Eq)]
pub struct ScriptConfig {
    /// Where the project lies; not part of what is written.
    pub project_path: Option<String>,
    /// The script that the project is published as; none before the first
    /// upload.
    pub id: Option<String>,
    /// The file that runs first.
    pub entry_point: String,
    /// Patterns of the files that make up the bundle, relative to the
    /// project.
    pub includes: Vec<String>,
    /// Patterns of the files left out.
    pub ignore: Vec<String>,
}

/// A file of a bundle as it travels inside JSON: the content is base64.
#[derive(Clone, Debug, PartialEq, Eq)]
pub struct FileDto {
    pub content: String,
    pub file_name: String,
    pub file_path: String,
    pub revision_id: Option<String>,
}

/// A bundle as it travels inside JSON.
#[derive(Clone, Debug, PartialEq, Eq)]
pub struct BundleDto {
    pub entry_point: String,
    pub files: Vec<FileDto>,
}

/// A file on disk: its path relative to the project, with slashes, and its
/// bytes.
#[derive(Clone, Debug, PartialEq, Eq)]
pub struct DiskFile {
    pub path: String,
    pub content: Vec<u8>,
}

/// Whether `wax` builds a glob from `pattern`.
pub uninterp spec fn glob_valid(pattern: Seq<char>) -> bool;

/// Whether `wax` finds that `path` matches `pattern`; false where it builds
/// no glob from the pattern.
pub uninterp spec fn glob_matches(pattern: Seq<char>, path: Seq<char>) -> bool;

/// Whether `pattern` is a glob: it is tried and `wax` builds a glob from
/// it.
pub open spec fn pattern_reads(pattern: Seq<char>) -> bool {
    spec_glob_safe(pattern) && glob_valid(pattern)
}

/// Whether `path` matches `pattern`: the pattern is tried and `wax` finds
/// the match.
pub open spec fn pattern_matches(pattern: Seq<char>, path: Seq<char>) -> bool {
    spec_glob_safe(pattern) && glob_matches(pattern, path)
}

/// Calls `wax::Glob::new` and tells whether it built a glob. The contract
/// only names the answer. `wax` stops the program on some patterns, and
/// the condition leaves them out.
///
/// Its parser calls itself once for each group that is open and runs out
/// of stack where some hundred are; a pattern that is tried has no more
/// than 32 open at any place.
///
/// Its rules then take each piece that stands for one text only, add up
/// the bytes of that text and multiply them by the count of each
/// repetition around them, and stop where a product does not fit the
/// machine's word. Those bytes are at most four times the weight of the
/// piece, and the weight of a pattern that is tried and of each of its
/// pieces is at most a quarter of what 32 bits hold.
///
/// At last it writes the pattern out as a regular expression, at most four
/// levels deeper for each group, and stops where that expression is
/// refused for anything but the size it compiles to: for a count beyond
/// 32 bits, or for more than 250 levels.
#[verifier::external_body]
fn glob_check(pattern: &str) -> (valid: bool)
    requires
        spec_glob_safe(pattern@),
    ensures
        valid == glob_valid(pattern@),
{
    match wax::Glob::new(pattern) {
        Ok(_) => true,
        Err(_) => false,
    }
}

/// Calls `wax::is_match`, which builds a glob from the pattern and matches
/// the path against it, and answers false where no glob was built. The
/// contract only names the answer. The patterns that `wax` may stop the
/// program on are left out, as for `Glob::new`.
#[verifier::external_body]
fn glob_match(pattern: &str, path: &str) -> (matches: bool)
    requires
        spec_glob_safe(pattern@),
    ensures
        matches == glob_matches(pattern@, path@),
{
    match wax::is_match(pattern, path) {
        Ok(matches) => matches,
        Err(_) => false,
    }
}

/// Checks a pattern: one that is not tried, or that `wax` builds no glob
/// from, is refused.
pub fn check_pattern(pattern: &str) -> (result: Result<(), String>)
    ensures
        result is Ok <==> pattern_reads(pattern@),
        result matches Err(message) ==> message@ == bad_glob(),
{
    if glob_safe(pattern) && glob_check(pattern) {
        Ok(())
    } else {
        Err(String::from_str("Failed to read glob pattern"))
    }
}

/// Whether `path` matches `pattern`; no path matches a pattern that is
/// not tried.
pub fn matches_pattern(pattern: &str, path: &str) -> (matches: bool)
    ensures
        matches == pattern_matches(pattern@, path@),
{
    glob_safe(pattern) && glob_match(pattern, path)
}

/// Whether `path` matches one of `patterns`.
pub open spec fn spec_any_matches(patterns: Seq<String>, path: Seq<char>) -> bool {
    exists|i: int| 0 <= i < patterns.len() && pattern_matches((#[trigger] patterns[i])@, path)
}

/// Whether one of `patterns` is no glob.
pub open spec fn spec_any_invalid(patterns: Seq<String>) -> bool {
    exists|i: int| 0 <= i < patterns.len() && !pattern_reads((#[trigger] patterns[i])@)
}

/// Whether the file at `path` belongs to the bundle: it matches a pattern
/// that includes, none that ignores, and is not the manifest.
pub open spec fn spec_included(config: ScriptConfig, path: Seq<char>) -> bool {
    &&& spec_any_matches(config.includes@, path)
    &&& !spec_any_matches(config.ignore@, path)
    &&& spec_basename(path) != manifest_name()
}

/// The files among `files` that belong to the bundle, as they come.
pub open spec fn spec_chosen(config: ScriptConfig, files: Seq<DiskFile>) -> Seq<DiskFile> {
    files.filter(|file: DiskFile| spec_included(config, file.path@))
}

/// The paths of `files`, in order.
pub open spec fn spec_paths(files: Seq<DiskFile>) -> Seq<Seq<char>> {
    Seq::new(files.len(), |i: int| files[i].path@)
}

/// `files` in the order of their paths in the dictionary; files with the
/// same path stay as they came.
pub open spec fn spec_by_path(files: Seq<DiskFile>) -> Seq<DiskFile> {
    let ordered = spec_ordering(spec_paths(files));
    Seq::new(ordered.len(), |k: int| files[ordered[k] as int])
}

/// The files among `files` that belong to the bundle, in the order of
/// their paths: whatever order the files are read in, the bundle is the
/// same.
pub open spec fn spec_bundled(config: ScriptConfig, files: Seq<DiskFile>) -> Seq<DiskFile> {
    spec_by_path(spec_chosen(config, files))
}

/// Whether `dto` carries `file` for upload: its content is the unpadded
/// base64 of the bytes, which reads back as the bytes; its name is the last
/// component of the path.
pub open spec fn carries(dto: FileDto, file: DiskFile) -> bool {
    &&& dto.content@ == base64_bare(file.content@)
    &&& base64_bare_bytes(dto.content@) == Some(file.content@)
    &&& dto.file_name@ == spec_basename(file.path@)
    &&& dto.file_path@ == file.path@
    &&& dto.revision_id is None
}

/// Whether `dtos` carry `files`, one by one.
pub open spec fn carry_all(dtos: Seq<FileDto>, files: Seq<DiskFile>) -> bool {
    dtos.len() == files.len() && forall|i: int|
        0 <= i < dtos.len() ==> carries(#[trigger] dtos[i], files[i])
}

/// The files of `files` at the positions `chosen`, in that order.
pub open spec fn spec_picked(files: Seq<DiskFile>, chosen: Seq<usize>) -> Seq<DiskFile> {
    Seq::new(chosen.len(), |k: int| files[chosen[k] as int])
}

/// What is said of a pattern that is no glob.
pub open spec fn bad_glob() -> Seq<char> {
    "Failed to read glob pattern"@
}

/// Whether `path` matches one of `patterns`.
fn any_matches(patterns: &Vec<String>, path: &str) -> (found: bool)
    ensures
        found == spec_any_matches(patterns@, path@),
{
    let mut i: usize = 0;
    while i < patterns.len()
        invariant
            i <= patterns.len(),
            forall|k: int| 0 <= k < i ==> !pattern_matches((#[trigger] patterns[k])@, path@),
        decreases patterns.len() - i,
    {
        if matches_pattern(patterns[i].as_str(), path) {
            return true;
        }
        i = i + 1;
    }
    false
}

/// Whether one of `patterns` is no glob.
fn any_invalid(patterns: &Vec<String>) -> (found: bool)
    ensures
        found == spec_any_invalid(patterns@),
{
    let mut i: usize = 0;
    while i < patterns.len()
        invariant
            i <= patterns.len(),
            forall|k: int| 0 <= k < i ==> pattern_reads((#[trigger] patterns[k])@),
        decreases patterns.len() - i,
    {
        if check_pattern(patterns[i].as_str()).is_err() {
            return true;
        }
        i = i + 1;
    }
    false
}

/// Whether a file belongs to the bundle, once it is known whether its path
/// matches a pattern that includes and one that ignores: it is included,
/// not ignored, and its name is not that of the manifest.
pub fn belongs(included: bool, ignored: bool, file_name: &str) -> (inside: bool)
    ensures
        inside == (included && !ignored && file_name@ != manifest_name()),
{
    included && !ignored && !str_eq(file_name, "script.json")
}

impl ScriptConfig {
    /// Whether the patterns of this manifest are all globs.
    pub open spec fn patterns_valid(self) -> bool {
        !spec_any_invalid(self.ignore@) && !spec_any_invalid(self.includes@)
    }

    /// Whether the file at `path` belongs to the bundle.
    pub fn includes_path(&self, path: &str) -> (included: bool)
        ensures
            included == spec_included(*self, path@),
    {
        belongs(
            any_matches(&self.includes, path),
            any_matches(&self.ignore, path),
            basename(path).as_str(),
        )
    }

    /// The files of the project that belong to the bundle, as positions in
    /// `files`: those that match a pattern that includes and none that
    /// ignores, the manifest never, in the order of their paths. A pattern
    /// that is no glob is an error.
    pub fn glob_includes(&self, files: &Vec<DiskFile>) -> (result: Result<Vec<usize>, String>)
        ensures
            match result {
                Ok(chosen) => {
                    &&& self.patterns_valid()
                    &&& forall|k: int| 0 <= k < chosen.len() ==> 0 <= #[trigger] chosen[k] < files.len()
                    &&& spec_picked(files@, chosen@) == spec_bundled(
                        *self,
                        files@,
                    )
                },
                Err(message) => !self.patterns_valid() && message@ == bad_glob(),
            },
    {
        if any_invalid(&self.ignore) || any_invalid(&self.includes) {
            return Err(String::from_str("Failed to read glob pattern"));
        }
        let ghost keep = |file: DiskFile| spec_included(*self, file.path@);
        let mut chosen: Vec<usize> = Vec::new();
        let mut i: usize = 0;
        assert(files@.subrange(0, 0).filter(keep) =~= Seq::empty()) by {
            reveal(Seq::filter);
        }
        while i < files.len()
            invariant
                i <= files.len(),
                keep == |file: DiskFile| spec_included(*self, file.path@),
                forall|k: int| 0 <= k < chosen.len() ==> 0 <= #[trigger] chosen[k] < i,
                spec_picked(files@, chosen@) == files@.subrange(
                    0,
                    i as int,
                ).filter(keep),
            decreases files.len() - i,
        {
            proof {
                crate::rows::lemma_filter_next(files@, keep, i as int);
            }
            let ghost before = spec_picked(files@, chosen@);
            if self.includes_path(files[i].path.as_str()) {
                chosen.push(i);
                assert(spec_picked(files@, chosen@) =~= before.push(
                    files[i as int],
                ));
            } else {
                assert(spec_picked(files@, chosen@) =~= before);
            }
            i = i + 1;
        }
        assert(files@.subrange(0, files.len() as int) =~= files@);
        let ghost found = spec_chosen(*self, files@);
        let mut paths: Vec<String> = Vec::new();
        let mut k: usize = 0;
        while k < chosen.len()
            invariant
                k <= chosen.len(),
                paths.len() == k,
                forall|j: int| 0 <= j < chosen.len() ==> 0 <= #[trigger] chosen[j] < files.len(),
                spec_picked(files@, chosen@) == found,
                forall|j: int| 0 <= j < k ==> (#[trigger] paths[j])@ == found[j].path@,
            decreases chosen.len() - k,
        {
            assert(found[k as int] == files[chosen[k as int] as int]);
            paths.push(files[chosen[k]].path.clone());
            k = k + 1;
        }
        assert(views_of(paths@) =~= spec_paths(found));
        let ordered = order(&paths);
        let mut sorted: Vec<usize> = Vec::new();
        let mut n: usize = 0;
        while n < ordered.len()
            invariant
                n <= ordered.len(),
                sorted.len() == n,
                ordered.len() == chosen.len(),
                is_ordering(spec_paths(found), ordered@),
                found.len() == chosen.len(),
                forall|j: int| 0 <= j < chosen.len() ==> 0 <= #[trigger] chosen[j] < files.len(),
                forall|j: int| 0 <= j < n ==> #[trigger] sorted[j] == chosen[ordered[j] as int],
            decreases ordered.len() - n,
        {
            sorted.push(chosen[ordered[n]]);
            n = n + 1;
        }
        proof {
            assert forall|j: int| 0 <= j < sorted.len() implies spec_picked(files@, sorted@)[j]
                == spec_bundled(*self, files@)[j] by {
                assert(found[ordered[j] as int] == files[chosen[ordered[j] as int] as int]);
            }
            assert(spec_picked(files@, sorted@) =~= spec_bundled(*self, files@));
        }
        Ok(sorted)
    }

    /// The bundle that is uploaded for the project: the files that belong
    /// to it, each with its content as unpadded base64, under the entry
    /// point of the manifest.
    pub fn to_bundle(&self, files: &Vec<DiskFile>) -> (result: Result<BundleDto, String>)
        ensures
            match result {
                Ok(bundle) => {
                    &&& self.patterns_valid()
                    &&& bundle.entry_point@ == self.entry_point@
                    &&& carry_all(bundle.files@, spec_bundled(*self, files@))
                },
                Err(message) => !self.patterns_valid() && message@ == bad_glob(),
            },
    {
        let chosen = match self.glob_includes(files) {
            Ok(chosen) => chosen,
            Err(message) => {
                return Err(message);
            },
        };
        let ghost picked = spec_picked(files@, chosen@);
        let mut dtos: Vec<FileDto> = Vec::new();
        let mut i: usize = 0;
        while i < chosen.len()
            invariant
                i <= chosen.len(),
                forall|k: int| 0 <= k < chosen.len() ==> 0 <= #[trigger] chosen[k] < files.len(),
                picked == spec_picked(files@, chosen@),
                dtos.len() == i,
                forall|k: int| 0 <= k < i ==> carries(#[trigger] dtos[k], picked[k]),
            decreases chosen.len() - i,
        {
            let file = &files[chosen[i]];
            assert(picked[i as int] == *file);
            dtos.push(
                FileDto {
                    content: encode_bare(&file.content),
                    file_name: basename(file.path.as_str()),
                    file_path: file.path.clone(),
                    revision_id: None,
                },
            );
            i = i + 1;
        }
        Ok(BundleDto { entry_point: self.entry_point.clone(), files: dtos })
    }

    /// This manifest with the script that it now belongs to.
    pub fn with_id(self, id: String) -> (config: ScriptConfig)
        ensures
            config.id == Some(id),
            config.project_path == self.project_path,
            config.entry_point == self.entry_point,
            config.includes == self.includes,
            config.ignore == self.ignore,
    {
        ScriptConfig {
            project_path: self.project_path,
            id: Some(id),
            entry_point: self.entry_point,
            includes: self.includes,
            ignore: self.ignore,
        }
    }
}

} // verus!
