//! Errors of the command line client.

use vstd::prelude::*;
use vstd::string::*;

verus! {

/// What can go wrong in the client, each with the text that explains it.
#[derive(Clone, Debug, PartialEq, Eq)]
pub enum Error {
    Authentication(String),
    Permission(String),
    Api(String),
    Io(String),
    Config(String),
    Script(String),
    Command(String),
    NotFound(String),
}

impl Error {
    /// The text that explains this error.
    pub open spec fn detail(self) -> Seq<char> {
        match self {
            Error::Authentication(m) => m@,
            Error::Permission(m) => m@,
            Error::Api(m) => m@,
            Error::Io(m) => m@,
            Error::Config(m) => m@,
            Error::Script(m) => m@,
            Error::Command(m) => m@,
            Error::NotFound(m) => m@,
        }
    }

    /// What this error is called when it is written out.
    pub open spec fn prefix(self) -> Seq<char> {
        match self {
            Error::Authentication(_) => "Authentication Error"@,
            Error::Permission(_) => "Permission Error"@,
            Error::Api(_) => "API Error"@,
            Error::Io(_) => "IO Error"@,
            Error::Config(_) => "Configuration Error"@,
            Error::Script(_) => "Script Error"@,
            Error::Command(_) => "Command Error"@,
            Error::NotFound(_) => "Not Found"@,
        }
    }

    /// What this error is called when it is shown to the user: as it is
    /// written out, but for an error of a command, which is just an error.
    pub open spec fn label(self) -> Seq<char> {
        match self {
            Error::Command(_) => "Error"@,
            _ => self.prefix(),
        }
    }

    /// The name of this error for writing.
    fn prefix_text(&self) -> (text: &'static str)
        ensures
            text@ == self.prefix(),
    {
        match self {
            Error::Authentication(_) => "Authentication Error",
            Error::Permission(_) => "Permission Error",
            Error::Api(_) => "API Error",
            Error::Io(_) => "IO Error",
            Error::Config(_) => "Configuration Error",
            Error::Script(_) => "Script Error",
            Error::Command(_) => "Command Error",
            Error::NotFound(_) => "Not Found",
        }
    }

    /// The text that explains this error.
    pub fn message(&self) -> (text: &String)
        ensures
            text@ == self.detail(),
    {
        match self {
            Error::Authentication(m) => m,
            Error::Permission(m) => m,
            Error::Api(m) => m,
            Error::Io(m) => m,
            Error::Config(m) => m,
            Error::Script(m) => m,
            Error::Command(m) => m,
            Error::NotFound(m) => m,
        }
    }

    /// Writes this error out: its name, a colon, and the text.
    pub fn to_text(&self) -> (text: String)
        ensures
            text@ == self.prefix() + ": "@ + self.detail(),
    {
        let mut text = String::from_str(self.prefix_text());
        text.append(": ");
        text.append(self.message().as_str());
        text
    }

    /// The error of a command that failed with `message`.
    pub fn from_message(message: String) -> (error: Error)
        ensures
            error == Error::Command(message),
    {
        Error::Command(message)
    }
}

/// The error that the client makes of a failed call to the service, whose
/// text is `message`.
pub fn progenitor_error(message: String) -> (error: Error)
    ensures
        error == Error::Api(message),
{
    Error::Api(message)
}

/// The line that shows an error to the user: a cross, what the error is
/// called, a colon, and the text.
pub fn print_error(err: &Error) -> (line: String)
    ensures
        line@ == "\u{274c} "@ + err.label() + ": "@ + err.detail(),
{
    let mut line = String::from_str("\u{274c} ");
    match err {
        Error::Command(_) => {
            line.append("Error");
        },
        _ => {
            line.append(err.prefix_text());
        },
    }
    line.append(": ");
    line.append(err.message().as_str());
    line
}

} // verus!
