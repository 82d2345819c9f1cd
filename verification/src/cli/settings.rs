//! What the client remembers between runs.

use vstd::prelude::*;
use vstd::string::*;

verus! {

/// Where the service is and the token that opens it.
#[derive(Clone, Debug, PartialEq, Eq)]
pub struct Settings {
    /// Address of the service.
    pub api_url: String,
    /// Token of the account.
    pub token: String,
}

impl Settings {
    /// The settings for a service and a token.
    pub fn new(api_url: String, token: String) -> (settings: Settings)
        ensures
            settings.api_url == api_url,
            settings.token == token,
    {
        Settings { api_url, token }
    }

    /// Whether the user is asked to log in: there are no settings yet, or
    /// a new login was asked for.
    pub fn needs_login(settings_exist: bool, relog: bool) -> (ask: bool)
        ensures
            ask == (!settings_exist || relog),
    {
        !settings_exist || relog
    }

    /// Whether the user is told first that there is no login: only where
    /// none was asked for.
    pub fn announces_login(settings_exist: bool, relog: bool) -> (tell: bool)
        ensures
            tell == (!settings_exist && !relog),
    {
        !settings_exist && !relog
    }

    /// The value of the header that carries the token.
    pub fn authorization(&self) -> (value: String)
        ensures
            value@ == "Bearer "@ + self.token@,
    {
        let mut value = String::from_str("Bearer ");
        value.append(self.token.as_str());
        value
    }
}

} // verus!
