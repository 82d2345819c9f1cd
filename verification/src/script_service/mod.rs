//! The script service: scripts, their revisions, and the files of each
//! revision.

pub mod config;
pub mod live_script;
pub mod model;
pub mod sound;
pub mod store;
