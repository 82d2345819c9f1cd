//! Error kinds of the services and the codes that they surface as.

use vstd::prelude::*;
use vstd::string::*;

verus! {

/// What went wrong, by kind. A kind decides the code that a caller sees.
#[derive(Clone, Copy, Debug, PartialEq, Eq, Structural)]
pub enum ErrorKind {
    /// The caller is not known.
    Authentication,
    /// The caller is known and may not do this.
    Permission,
    /// A stored entity was looked up and is not there.
    NotFound,
    /// A unique value is already taken.
    AlreadyExists,
    /// A malformed identifier, an unknown event, a bad version string, a bad
    /// manifest.
    InvalidArgument,
    /// The file system failed.
    Io,
    /// The transport failed.
    Communication,
    /// An error raised inside the sandbox, a timeout or exhausted memory
    /// included.
    ScriptRuntime,
    /// A server error that nothing handled.
    Internal,
}

/// The status code of the remote-procedure surface for `kind`.
pub open spec fn spec_rpc_code(kind: ErrorKind) -> u8 {
    match kind {
        ErrorKind::Authentication => 16,
        ErrorKind::Permission => 7,
        ErrorKind::NotFound => 5,
        ErrorKind::AlreadyExists => 6,
        ErrorKind::InvalidArgument => 3,
        ErrorKind::Io => 13,
        ErrorKind::Communication => 14,
        ErrorKind::ScriptRuntime => 13,
        ErrorKind::Internal => 13,
    }
}

/// The HTTP status that the worker answers with for `kind`: 404 where
/// something was not found, 500 for everything else.
pub open spec fn spec_http_status(kind: ErrorKind) -> u16 {
    match kind {
        ErrorKind::NotFound => 404,
        _ => 500,
    }
}

impl ErrorKind {
    /// Computes [`spec_rpc_code`].
    pub fn rpc_code(self) -> (code: u8)
        ensures
            code == spec_rpc_code(self),
    {
        match self {
            ErrorKind::Authentication => 16,
            ErrorKind::Permission => 7,
            ErrorKind::NotFound => 5,
            ErrorKind::AlreadyExists => 6,
            ErrorKind::InvalidArgument => 3,
            ErrorKind::Io => 13,
            ErrorKind::Communication => 14,
            ErrorKind::ScriptRuntime => 13,
            ErrorKind::Internal => 13,
        }
    }

    /// The kind that a status code of the remote-procedure surface stands
    /// for. A code that no kind surfaces as is an internal error.
    pub fn from_rpc_code(code: u8) -> (kind: ErrorKind)
        ensures
            kind == match code {
                16u8 => ErrorKind::Authentication,
                7u8 => ErrorKind::Permission,
                5u8 => ErrorKind::NotFound,
                6u8 => ErrorKind::AlreadyExists,
                3u8 => ErrorKind::InvalidArgument,
                14u8 => ErrorKind::Communication,
                _ => ErrorKind::Internal,
            },
    {
        if code == 16 {
            ErrorKind::Authentication
        } else if code == 7 {
            ErrorKind::Permission
        } else if code == 5 {
            ErrorKind::NotFound
        } else if code == 6 {
            ErrorKind::AlreadyExists
        } else if code == 3 {
            ErrorKind::InvalidArgument
        } else if code == 14 {
            ErrorKind::Communication
        } else {
            ErrorKind::Internal
        }
    }

    /// Computes [`spec_http_status`].
    pub fn http_status(self) -> (status: u16)
        ensures
            status == spec_http_status(self),
    {
        match self {
            ErrorKind::NotFound => 404,
            _ => 500,
        }
    }
}

/// An error with its kind and the text shown to the caller.
#[derive(Clone, Debug, PartialEq, Eq)]
pub struct Status {
    pub kind: ErrorKind,
    pub message: String,
}

impl Status {
    /// Whether this status has the kind `kind` and the message `message`.
    pub open spec fn is(self, kind: ErrorKind, message: Seq<char>) -> bool {
        self.kind == kind && self.message@ == message
    }

    /// A status of kind `kind` that says `message`.
    pub fn new(kind: ErrorKind, message: &str) -> (status: Status)
        ensures
            status.is(kind, message@),
    {
        Status { kind, message: String::from_str(message) }
    }

    /// A status of kind `kind` that says `message`.
    pub fn with_text(kind: ErrorKind, message: String) -> (status: Status)
        ensures
            status.is(kind, message@),
    {
        Status { kind, message }
    }

    /// A copy of this status.
    pub fn duplicate(&self) -> (copy: Status)
        ensures
            copy.is(self.kind, self.message@),
    {
        Status { kind: self.kind, message: self.message.clone() }
    }
}

/// An error raised into a running script.
#[derive(Clone, Debug, PartialEq, Eq)]
pub enum ScriptError {
    /// Something failed while the script ran.
    RuntimeError(String),
    /// A value of the script could not be written out.
    SerializeError(String),
    /// Text could not be read as a value of the script.
    DeserializeError(String),
}

/// The sort of an error raised into a script.
#[derive(Clone, Copy, Debug, PartialEq, Eq, Structural)]
pub enum ScriptErrorKind {
    Runtime,
    Serialize,
    Deserialize,
}

impl ScriptError {
    /// The sort of this error.
    pub open spec fn kind(self) -> ScriptErrorKind {
        match self {
            ScriptError::RuntimeError(_) => ScriptErrorKind::Runtime,
            ScriptError::SerializeError(_) => ScriptErrorKind::Serialize,
            ScriptError::DeserializeError(_) => ScriptErrorKind::Deserialize,
        }
    }

    /// What this error says.
    pub open spec fn text(self) -> Seq<char> {
        match self {
            ScriptError::RuntimeError(m) => m@,
            ScriptError::SerializeError(m) => m@,
            ScriptError::DeserializeError(m) => m@,
        }
    }

    /// Whether this error is of the sort `kind` and says `message`.
    pub open spec fn is(self, kind: ScriptErrorKind, message: Seq<char>) -> bool {
        self.kind() == kind && self.text() == message
    }

    /// A runtime error that says `message`.
    pub fn runtime(message: &str) -> (error: ScriptError)
        ensures
            error.is(ScriptErrorKind::Runtime, message@),
    {
        ScriptError::RuntimeError(String::from_str(message))
    }

    /// What this error says.
    pub fn message(&self) -> (text: String)
        ensures
            text@ == self.text(),
    {
        match self {
            ScriptError::RuntimeError(m) => m.clone(),
            ScriptError::SerializeError(m) => m.clone(),
            ScriptError::DeserializeError(m) => m.clone(),
        }
    }

    /// The status that the worker answers with when this error ends a
    /// request: every error from inside the sandbox is a script runtime
    /// error with the text of the error.
    pub fn into_status(self) -> (status: Status)
        ensures
            status.is(ErrorKind::ScriptRuntime, self.text()),
    {
        match self {
            ScriptError::RuntimeError(m) => Status { kind: ErrorKind::ScriptRuntime, message: m },
            ScriptError::SerializeError(m) => Status { kind: ErrorKind::ScriptRuntime, message: m },
            ScriptError::DeserializeError(m) => Status {
                kind: ErrorKind::ScriptRuntime,
                message: m,
            },
        }
    }
}

} // verus!
