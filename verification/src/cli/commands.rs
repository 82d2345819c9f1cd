//! The commands of the client.

use vstd::prelude::*;

verus! {

/// What the client was started for.
#[derive(Debug, PartialEq, Eq)]
pub struct Cli {
    pub command: Commands,
}

/// The commands.
#[derive(Debug, PartialEq, Eq)]
pub enum Commands {
    /// Log in to an account.
    Login,
    /// Make a new sample project.
    Init {
        /// Folder name of the new project.
        name: String,
        /// Template name.
        template: Option<String>,
        /// The project to create the script under.
        project_id: Option<String>,
    },
    /// Publish a new revision of the project.
    Publish {
        /// Directory of the project.
        directory: String,
    },
    /// List projects.
    Projects { page: Option<i64> },
    /// Manage a project.
    Project { id: String, sub: ProjectOperations },
    /// List scripts.
    Scripts { project: String, page: Option<i64> },
    /// Manage a script.
    Script { id: String, sub: ScriptOperations },
    /// Check a project and write its definitions.
    Check { directory: String },
}

/// What can be done with a project.
#[derive(Debug, PartialEq, Eq)]
pub enum ProjectOperations {
    /// Delete the project and all that it holds.
    Delete,
}

/// What can be done with a script.
#[derive(Debug, PartialEq, Eq)]
pub enum ScriptOperations {
    /// Delete the script and all its revisions.
    Delete,
    /// Manage the revisions of the script.
    Revisions { sub: RevisionCommands },
    /// Write the current revision to disk.
    Clone { path: Option<String> },
}

/// What can be done with the revisions of a script.
#[derive(Debug, PartialEq, Eq)]
pub enum RevisionCommands {
    /// Delete a revision.
    Delete { revision_id: String },
    /// List revisions.
    List { page: Option<i64> },
    /// Make a revision the current one.
    Select { revision_id: String },
    /// Write a revision to disk: the current one where none is named.
    Clone { revision_id: Option<String>, path: Option<String> },
}

/// The page that is shown where none is asked for.
pub const FIRST_PAGE: i64 = 1;

/// The page that is asked for.
pub open spec fn spec_page(page: Option<i64>) -> i64 {
    match page {
        Some(number) => number,
        None => FIRST_PAGE,
    }
}

/// The page that is asked for: the first where none is named.
pub fn page_or_first(page: Option<i64>) -> (number: i64)
    ensures
        number == spec_page(page),
{
    match page {
        Some(number) => number,
        None => FIRST_PAGE,
    }
}

/// The revision that a clone writes out: the one that is named, else the
/// current one of the script; `None` where neither is there.
pub fn revision_to_clone(named: Option<String>, current: Option<String>) -> (revision: Option<String>)
    ensures
        revision == match named {
            Some(id) => Some(id),
            None => current,
        },
{
    match named {
        Some(id) => Some(id),
        None => current,
    }
}

} // verus!
