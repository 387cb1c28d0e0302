//! Error types: the shell's own error kinds and the shared error kinds of
//! the accompanying tools.

use vstd::prelude::*;

verus! {

/// What can go wrong while interpreting one input line: malformed pipe or
/// redirection syntax, an unknown command name, a failure inside a builtin,
/// or a failure writing to a redirection target.
#[derive(Debug)]
pub enum ShellError {
    Syntax(String),
    CommandNotFound(String),
    Builtin(String),
    Io(String),
}

/// The text that reporting a `ShellError` shows.
pub open spec fn shell_error_message_spec(e: ShellError) -> Seq<char> {
    match e {
        ShellError::Syntax(m) => m@,
        ShellError::CommandNotFound(name) => "Command not found: "@ + name@,
        ShellError::Builtin(m) => m@,
        ShellError::Io(m) => m@,
    }
}

impl ShellError {
    /// The human-readable message for this error.
    pub fn message(&self) -> (r: String)
        ensures
            r@ == shell_error_message_spec(*self),
    {
        match self {
            ShellError::Syntax(m) => m.clone(),
            ShellError::CommandNotFound(name) => {
                let mut out = String::from_str("Command not found: ");
                out.append(name.as_str());
                out
            },
            ShellError::Builtin(m) => m.clone(),
            ShellError::Io(m) => m.clone(),
        }
    }
}

/// The error kinds shared by the standalone tools.
#[derive(Debug)]
pub enum CommonError {
    Io(String),
    Utf8(String),
    InvalidArgument(String),
    FileNotFound(String),
    PermissionDenied(String),
}

/// The text that reporting a `CommonError` shows.
pub open spec fn common_error_message_spec(e: CommonError) -> Seq<char> {
    match e {
        CommonError::Io(m) => "I/O error: "@ + m@,
        CommonError::Utf8(m) => "UTF-8 conversion error: "@ + m@,
        CommonError::InvalidArgument(m) => "Invalid argument: "@ + m@,
        CommonError::FileNotFound(m) => "File not found: "@ + m@,
        CommonError::PermissionDenied(m) => "Permission denied: "@ + m@,
    }
}

impl CommonError {
    /// The human-readable message for this error.
    pub fn message(&self) -> (r: String)
        ensures
            r@ == common_error_message_spec(*self),
    {
        match self {
            CommonError::Io(m) => {
                let mut out = String::from_str("I/O error: ");
                out.append(m.as_str());
                out
            },
            CommonError::Utf8(m) => {
                let mut out = String::from_str("UTF-8 conversion error: ");
                out.append(m.as_str());
                out
            },
            CommonError::InvalidArgument(m) => {
                let mut out = String::from_str("Invalid argument: ");
                out.append(m.as_str());
                out
            },
            CommonError::FileNotFound(m) => {
                let mut out = String::from_str("File not found: ");
                out.append(m.as_str());
                out
            },
            CommonError::PermissionDenied(m) => {
                let mut out = String::from_str("Permission denied: ");
                out.append(m.as_str());
                out
            },
        }
    }
}

} // verus!
