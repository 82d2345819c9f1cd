//! Which handler a command goes to.

use vstd::prelude::*;
use vstd::string::*;
use crate::cli::commands::{page_or_first, spec_page, Commands, ProjectOperations, ScriptOperations};
use crate::cli::errors::Error;
use crate::cli::settings::Settings;

verus! {

/// What the client talks to the service with.
#[derive(Clone, Debug, PartialEq, Eq)]
pub struct Client {
    /// Address of the service.
    pub base_url: String,
    /// Value of the header that carries the token.
    pub authorization: String,
}

impl Client {
    /// The client for what the settings say.
    pub fn new(settings: &Settings) -> (client: Client)
        ensures
            client.base_url@ == settings.api_url@,
            client.authorization@ == "Bearer "@ + settings.token@,
    {
        Client { base_url: settings.api_url.clone(), authorization: settings.authorization() }
    }
}

/// The handler that a command goes to, with what it is called with.
#[derive(Debug, PartialEq, Eq)]
pub enum Handler {
    /// Nothing is left to do.
    Nothing,
    Init { name: String, project_id: Option<String>, template: Option<String> },
    Publish { directory: String },
    ListScripts { project: String, page: i64 },
    ListProjects { page: i64 },
    Project { id: String, operation: ProjectOperations },
    Script { id: String, operation: ScriptOperations },
    Check { directory: String },
}

/// The handler that `command` goes to. A login needs no handler: it is done
/// before anything is routed. Lists show the first page where none is
/// named.
pub open spec fn spec_handler(command: Commands) -> Handler {
    match command {
        Commands::Login => Handler::Nothing,
        Commands::Init { name, template, project_id } => Handler::Init {
            name,
            project_id,
            template,
        },
        Commands::Publish { directory } => Handler::Publish { directory },
        Commands::Scripts { project, page } => Handler::ListScripts {
            project,
            page: spec_page(page),
        },
        Commands::Projects { page } => Handler::ListProjects { page: spec_page(page) },
        Commands::Project { id, sub } => Handler::Project { id, operation: sub },
        Commands::Script { id, sub } => Handler::Script { id, operation: sub },
        Commands::Check { directory } => Handler::Check { directory },
    }
}

/// Sends each command to its handler.
#[derive(Clone, Debug, PartialEq, Eq)]
pub struct Router {
    client: Client,
}

impl Router {
    /// The client that the handlers use.
    pub closed spec fn client_of(&self) -> Client {
        self.client
    }

    /// A router whose handlers use `client`.
    pub fn new(client: Client) -> (router: Router)
        ensures
            router.client_of() == client,
    {
        Router { client }
    }

    /// The client that the handlers use.
    pub fn client(&self) -> (client: &Client)
        ensures
            *client == self.client_of(),
    {
        &self.client
    }

    /// The handler that `command` goes to.
    pub fn route(&self, command: Commands) -> (handler: Handler)
        ensures
            handler == spec_handler(command),
    {
        match command {
            Commands::Login => Handler::Nothing,
            Commands::Init { name, template, project_id } => Handler::Init {
                name,
                project_id,
                template,
            },
            Commands::Publish { directory } => Handler::Publish { directory },
            Commands::Scripts { project, page } => Handler::ListScripts {
                project,
                page: page_or_first(page),
            },
            Commands::Projects { page } => Handler::ListProjects { page: page_or_first(page) },
            Commands::Project { id, sub } => Handler::Project { id, operation: sub },
            Commands::Script { id, sub } => Handler::Script { id, operation: sub },
            Commands::Check { directory } => Handler::Check { directory },
        }
    }

    /// What a check comes to, once the manifest was read or not: the line
    /// that says that the project is sound, or the error of the script.
    pub fn handle_check(&self, manifest: Result<(), String>) -> (result: Result<String, Error>)
        ensures
            match manifest {
                Ok(_) => result is Ok && result.unwrap()@ == "\u{1f4dc} Project validated!"@,
                Err(reason) => result == Err::<String, Error>(Error::Script(reason)),
            },
    {
        match manifest {
            Ok(_) => Ok(String::from_str("\u{1f4dc} Project validated!")),
            Err(reason) => Err(Error::Script(reason)),
        }
    }
}

} // verus!
