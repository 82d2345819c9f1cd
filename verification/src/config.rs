//! What the worker is started with.

use vstd::prelude::*;
use vstd::string::*;

verus! {

/// The port that the worker listens on where none is named.
pub const DEFAULT_PORT: u16 = 3000;

/// Where the worker listens and where the services are that it asks.
#[derive(Clone, Debug, PartialEq, Eq)]
pub struct Config {
    pub port: u16,
    pub script_service_uri: String,
    pub kv_service_uri: String,
}

impl Config {
    /// The configuration for a port, 3000 where none is named, and for the
    /// two services.
    pub fn new(port: Option<u16>, script_service_uri: String, kv_service_uri: String) -> (config:
        Config)
        ensures
            config.port == match port {
                Some(number) => number,
                None => DEFAULT_PORT,
            },
            config.script_service_uri == script_service_uri,
            config.kv_service_uri == kv_service_uri,
    {
        Config {
            port: match port {
                Some(number) => number,
                None => DEFAULT_PORT,
            },
            script_service_uri,
            kv_service_uri,
        }
    }
}

} // verus!
