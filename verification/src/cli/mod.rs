//! The command line client: its commands, the manifest of a project, and
//! how a project directory becomes a bundle and a revision a directory.

pub mod commands;
pub mod errors;
pub mod router;
pub mod scan;
pub mod script;
pub mod settings;
pub mod util;
