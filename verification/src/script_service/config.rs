//! What the script service is started with.

use vstd::prelude::*;
use vstd::string::*;

verus! {

/// The port that a service listens on where none is named.
pub const DEFAULT_PORT: u16 = 3000;

/// Where the service listens and where its store is.
#[derive(Clone, Debug, PartialEq, Eq)]
pub struct Config {
    pub port: u16,
    pub database_url: String,
}

impl Config {
    /// The configuration for a port, 3000 where none is named, and for the
    /// store at `database_url`.
    pub fn new(port: Option<u16>, database_url: String) -> (config: Config)
        ensures
            config.port == match port {
                Some(number) => number,
                None => DEFAULT_PORT,
            },
            config.database_url == database_url,
    {
        Config {
            port: match port {
                Some(number) => number,
                None => DEFAULT_PORT,
            },
            database_url,
        }
    }
}

} // verus!
