//! What the key/value service is started with.

use vstd::prelude::*;
use vstd::string::*;
use crate::text::{spec_split, split, views_of};

verus! {

/// The port that a service listens on where none is named.
pub const DEFAULT_PORT: u16 = 3000;

/// Where the service listens and where its store is.
#[derive(Clone, Debug, PartialEq, Eq)]
pub struct Config {
    pub port: u16,
    /// The nodes of the store.
    pub scylla_nodes: Vec<String>,
}

impl Config {
    /// The configuration for a port, 3000 where none is named, and for the
    /// nodes that `nodes` lists, separated by commas.
    pub fn new(port: Option<u16>, nodes: &str) -> (config: Config)
        ensures
            config.port == match port {
                Some(number) => number,
                None => DEFAULT_PORT,
            },
            views_of(config.scylla_nodes@) == spec_split(nodes@, ','),
    {
        Config {
            port: match port {
                Some(number) => number,
                None => DEFAULT_PORT,
            },
            scylla_nodes: split(nodes, ','),
        }
    }
}

} // verus!
