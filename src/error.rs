//! The error kinds of the protocol front end and its collaborators.
use vstd::prelude::*;

verus! {

/// What went wrong with a command. Parsing raises only `Parse`; the other
/// kinds come from the components that run a parsed command.
#[derive(Clone, Debug, PartialEq, Eq)]
pub enum KipError {
    /// Malformed, incomplete or trailing input, with a description.
    Parse(String),
    /// A well-formed command failed while running.
    Execution(String),
    /// Recognised syntax that is not supported yet.
    NotImplemented(String),
    /// A well-formed command rejected by a later semantic check.
    InvalidCommand(String),
}

/// Code and message of an error, as an agent sees them.
#[derive(Clone, Debug, PartialEq, Eq)]
pub struct ErrorDetails {
    pub code: String,
    pub message: String,
}

impl ErrorDetails {
    /// The code that names each kind of error, and its message unchanged.
    pub fn from_error(err: KipError) -> (r: ErrorDetails)
        ensures
            err matches KipError::Parse(m) ==> r.code@ == "ParseError"@ && r.message@ == m@,
            err matches KipError::Execution(m) ==> r.code@ == "ExecutionError"@ && r.message@
                == m@,
            err matches KipError::NotImplemented(m) ==> r.code@ == "NotImplemented"@
                && r.message@ == m@,
            err matches KipError::InvalidCommand(m) ==> r.code@ == "InvalidCommand"@
                && r.message@ == m@,
    {
        broadcast use vstd::string::group_string_axioms;
        match err {
            KipError::Parse(m) => ErrorDetails { code: "ParseError".to_string(), message: m },
            KipError::Execution(m) => ErrorDetails {
                code: "ExecutionError".to_string(),
                message: m,
            },
            KipError::NotImplemented(m) => ErrorDetails {
                code: "NotImplemented".to_string(),
                message: m,
            },
            KipError::InvalidCommand(m) => ErrorDetails {
                code: "InvalidCommand".to_string(),
                message: m,
            },
        }
    }
}

} // verus!
