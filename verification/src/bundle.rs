//! Bundles: the files of one revision and the name of the file that runs
//! first.

use vstd::prelude::*;
use vstd::string::*;
use crate::text::str_eq;

verus! {

/// One file of a bundle.
#[derive(Clone, Debug, PartialEq, Eq)]
pub struct File {
    /// Last component of the path.
    pub file_name: String,
    /// Path relative to the root of the bundle.
    pub file_path: String,
    /// The bytes of the file, as they are on disk.
    pub content: Vec<u8>,
    /// The revision that the file belongs to, once stored.
    pub revision_id: Option<String>,
}

/// The files delivered to a worker, with the name of the file to run
/// first.
#[derive(Clone, Debug, PartialEq, Eq)]
pub struct Bundle {
    pub entry_point: String,
    pub files: Vec<File>,
}

/// A file as a value: what its fields hold.
pub struct FileView {
    pub file_name: Seq<char>,
    pub file_path: Seq<char>,
    pub content: Seq<u8>,
    pub revision_id: Option<Seq<char>>,
}

impl View for File {
    type V = FileView;

    open spec fn view(&self) -> FileView {
        FileView {
            file_name: self.file_name@,
            file_path: self.file_path@,
            content: self.content@,
            revision_id: match self.revision_id {
                Some(id) => Some(id@),
                None => None,
            },
        }
    }
}

/// The values of `files`, in order.
pub open spec fn file_views(files: Seq<File>) -> Seq<FileView> {
    Seq::new(files.len(), |i: int| files[i]@)
}

/// What a file is, apart from the revision it is stored under.
pub struct FileBody {
    pub file_name: Seq<char>,
    pub file_path: Seq<char>,
    pub content: Seq<u8>,
}

impl File {
    /// Name, path and bytes of this file.
    pub open spec fn body(self) -> FileBody {
        FileBody { file_name: self.file_name@, file_path: self.file_path@, content: self.content@ }
    }

    /// A copy of this file.
    pub fn duplicate(&self) -> (copy: File)
        ensures
            copy@ == self@,
    {
        File {
            file_name: self.file_name.clone(),
            file_path: self.file_path.clone(),
            content: self.content.clone(),
            revision_id: match &self.revision_id {
                Some(id) => Some(id.clone()),
                None => None,
            },
        }
    }
}

/// Names, paths and bytes of `files`, in order.
pub open spec fn bodies(files: Seq<File>) -> Seq<FileBody> {
    Seq::new(files.len(), |i: int| files[i].body())
}

/// Index of the first file of `files` at or after `from` whose path is
/// `path`, or the number of files where there is none.
pub open spec fn spec_find_path(files: Seq<File>, path: Seq<char>, from: int) -> int
    decreases files.len() - from,
{
    if from < 0 || from >= files.len() {
        files.len() as int
    } else if files[from].file_path@ == path {
        from
    } else {
        spec_find_path(files, path, from + 1)
    }
}

/// Index of the first file of `files` at or after `from` whose name is
/// `name`, or the number of files where there is none.
pub open spec fn spec_find_name(files: Seq<File>, name: Seq<char>, from: int) -> int
    decreases files.len() - from,
{
    if from < 0 || from >= files.len() {
        files.len() as int
    } else if files[from].file_name@ == name {
        from
    } else {
        spec_find_name(files, name, from + 1)
    }
}

impl Bundle {
    /// A copy of this bundle.
    pub fn duplicate(&self) -> (copy: Bundle)
        ensures
            copy.entry_point@ == self.entry_point@,
            file_views(copy.files@) == file_views(self.files@),
    {
        let mut files: Vec<File> = Vec::new();
        let mut i: usize = 0;
        while i < self.files.len()
            invariant
                i <= self.files.len(),
                files.len() == i,
                forall|j: int| 0 <= j < i ==> (#[trigger] files[j])@ == self.files[j]@,
            decreases self.files.len() - i,
        {
            files.push(self.files[i].duplicate());
            i = i + 1;
        }
        assert(file_views(files@) =~= file_views(self.files@));
        Bundle { entry_point: self.entry_point.clone(), files }
    }

    /// The first file whose path is exactly `path`.
    pub fn find_by_path(&self, path: &str) -> (found: Option<usize>)
        ensures
            match found {
                Some(i) => {
                    &&& i < self.files.len()
                    &&& i == spec_find_path(self.files@, path@, 0)
                    &&& self.files[i as int].file_path@ == path@
                    &&& forall|j: int| 0 <= j < i ==> (#[trigger] self.files[j]).file_path@ != path@
                },
                None => {
                    &&& spec_find_path(self.files@, path@, 0) == self.files.len()
                    &&& forall|j: int|
                        0 <= j < self.files.len() ==> (#[trigger] self.files[j]).file_path@
                            != path@
                },
            },
    {
        let mut i: usize = 0;
        while i < self.files.len()
            invariant
                i <= self.files.len(),
                spec_find_path(self.files@, path@, 0) == spec_find_path(
                    self.files@,
                    path@,
                    i as int,
                ),
                forall|j: int| 0 <= j < i ==> (#[trigger] self.files[j]).file_path@ != path@,
            decreases self.files.len() - i,
        {
            if str_eq(self.files[i].file_path.as_str(), path) {
                return Some(i);
            }
            i = i + 1;
        }
        None
    }

    /// The first file whose name is exactly `name`.
    pub fn find_by_name(&self, name: &str) -> (found: Option<usize>)
        ensures
            match found {
                Some(i) => {
                    &&& i < self.files.len()
                    &&& i == spec_find_name(self.files@, name@, 0)
                    &&& self.files[i as int].file_name@ == name@
                    &&& forall|j: int| 0 <= j < i ==> (#[trigger] self.files[j]).file_name@ != name@
                },
                None => {
                    &&& spec_find_name(self.files@, name@, 0) == self.files.len()
                    &&& forall|j: int|
                        0 <= j < self.files.len() ==> (#[trigger] self.files[j]).file_name@
                            != name@
                },
            },
    {
        let mut i: usize = 0;
        while i < self.files.len()
            invariant
                i <= self.files.len(),
                spec_find_name(self.files@, name@, 0) == spec_find_name(
                    self.files@,
                    name@,
                    i as int,
                ),
                forall|j: int| 0 <= j < i ==> (#[trigger] self.files[j]).file_name@ != name@,
            decreases self.files.len() - i,
        {
            if str_eq(self.files[i].file_name.as_str(), name) {
                return Some(i);
            }
            i = i + 1;
        }
        None
    }

    /// The file that runs first: the first file named by `entry_point`.
    pub fn entry_file(&self) -> (found: Option<usize>)
        ensures
            match found {
                Some(i) => i < self.files.len() && i == spec_find_name(
                    self.files@,
                    self.entry_point@,
                    0,
                ),
                None => spec_find_name(self.files@, self.entry_point@, 0) == self.files.len(),
            },
    {
        self.find_by_name(self.entry_point.as_str())
    }
}

} // verus!
