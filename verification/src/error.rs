//! The failures that end a run, each with its message and exit code.

use vstd::prelude::*;
use crate::text::{push_str, to_text};

verus! {

/// A failure that is reported to the user.
#[derive(Debug)]
pub enum GimError {
    /// A module's metrics could not be collected.
    Collector { module: String, source: String },
    /// The configuration file could not be read.
    ConfigLoad { path: String, source: String },
    /// The configuration file is malformed.
    ConfigParse { source: String },
    /// An input or output operation failed.
    Io(String),
    /// The output could not be formatted.
    Output(String),
    /// The terminal dashboard failed.
    Tui(String),
    /// A module was asked for that does not exist.
    UnknownModule(String),
    /// An output format was asked for that does not exist.
    UnknownFormat(String),
}

/// The exit code of each kind of failure.
pub open spec fn exit_code_of(e: GimError) -> int {
    match e {
        GimError::UnknownModule(_) => 1,
        GimError::Collector { .. } => 2,
        GimError::ConfigLoad { .. } => 3,
        GimError::Io(_) => 4,
        GimError::Output(_) => 5,
        GimError::Tui(_) => 6,
        GimError::ConfigParse { .. } => 7,
        GimError::UnknownFormat(_) => 8,
    }
}

/// Whether two failures are of the same kind.
pub open spec fn same_kind(a: GimError, b: GimError) -> bool {
    match (a, b) {
        (GimError::Collector { .. }, GimError::Collector { .. }) => true,
        (GimError::ConfigLoad { .. }, GimError::ConfigLoad { .. }) => true,
        (GimError::ConfigParse { .. }, GimError::ConfigParse { .. }) => true,
        (GimError::Io(_), GimError::Io(_)) => true,
        (GimError::Output(_), GimError::Output(_)) => true,
        (GimError::Tui(_), GimError::Tui(_)) => true,
        (GimError::UnknownModule(_), GimError::UnknownModule(_)) => true,
        (GimError::UnknownFormat(_), GimError::UnknownFormat(_)) => true,
        _ => false,
    }
}

/// The message of each failure.
pub open spec fn message_of(e: GimError) -> Seq<char> {
    match e {
        GimError::Collector { module, source } => "failed to collect "@ + module@ + " metrics: "@
            + source@,
        GimError::ConfigLoad { path, source } => "failed to load config from "@ + path@ + ": "@
            + source@,
        GimError::ConfigParse { source } => "failed to parse config: "@ + source@,
        GimError::Io(detail) => "I/O error: "@ + detail@,
        GimError::Output(detail) => "output formatting error: "@ + detail@,
        GimError::Tui(detail) => "TUI error: "@ + detail@,
        GimError::UnknownModule(name) => "unknown module: "@ + name@,
        GimError::UnknownFormat(name) => "unknown output format: "@ + name@,
    }
}

/// Failures of different kinds have different exit codes, and every exit code
/// is a small positive number.
pub proof fn exit_codes_distinct(a: GimError, b: GimError)
    ensures
        1 <= exit_code_of(a) <= 8,
        exit_code_of(a) == exit_code_of(b) <==> same_kind(a, b),
{
}

impl GimError {
    /// The code with which the process exits on this failure.
    pub fn exit_code(&self) -> (code: i32)
        ensures
            code == exit_code_of(*self),
    {
        match self {
            GimError::UnknownModule(_) => 1,
            GimError::Collector { .. } => 2,
            GimError::ConfigLoad { .. } => 3,
            GimError::Io(_) => 4,
            GimError::Output(_) => 5,
            GimError::Tui(_) => 6,
            GimError::ConfigParse { .. } => 7,
            GimError::UnknownFormat(_) => 8,
        }
    }

    /// The message shown to the user.
    pub fn message(&self) -> (text: String)
        ensures
            text@ == message_of(*self),
    {
        let mut out: Vec<char> = Vec::new();
        match self {
            GimError::Collector { module, source } => {
                push_str(&mut out, "failed to collect ");
                push_str(&mut out, module.as_str());
                push_str(&mut out, " metrics: ");
                push_str(&mut out, source.as_str());
            },
            GimError::ConfigLoad { path, source } => {
                push_str(&mut out, "failed to load config from ");
                push_str(&mut out, path.as_str());
                push_str(&mut out, ": ");
                push_str(&mut out, source.as_str());
            },
            GimError::ConfigParse { source } => {
                push_str(&mut out, "failed to parse config: ");
                push_str(&mut out, source.as_str());
            },
            GimError::Io(detail) => {
                push_str(&mut out, "I/O error: ");
                push_str(&mut out, detail.as_str());
            },
            GimError::Output(detail) => {
                push_str(&mut out, "output formatting error: ");
                push_str(&mut out, detail.as_str());
            },
            GimError::Tui(detail) => {
                push_str(&mut out, "TUI error: ");
                push_str(&mut out, detail.as_str());
            },
            GimError::UnknownModule(name) => {
                push_str(&mut out, "unknown module: ");
                push_str(&mut out, name.as_str());
            },
            GimError::UnknownFormat(name) => {
                push_str(&mut out, "unknown output format: ");
                push_str(&mut out, name.as_str());
            },
        }
        proof {
            assert(out@ =~= message_of(*self));
        }
        to_text(&out)
    }
}

} // verus!
