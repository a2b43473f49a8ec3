//! The error type shared by every command: a use of invalid or faulty reason.

use vstd::prelude::*;

verus! {

/// One failure of a single command invocation. Each variant carries the
/// offending keyword, field list, pattern diagnostic or subject name, so the
/// session loop can report it and go on with the next line.
pub enum Fallacy {
    /// The first token of a segment names no known command.
    UnknownCommand(String),
    /// A segment is malformed (empty, or its piped input has the wrong shape).
    InvalidCommand(String),
    /// A filter pattern failed to compile; carries the compiler's diagnostic.
    FilterBuildFailed(String),
    /// A recognized keyword (or the free-text slot, named "title") appeared twice.
    PaperDuplicateField(String),
    /// Required paper fields were not given; carries the missing names, joined.
    PaperMissingFields(String),
    /// A recognized keyword was not followed by a value token.
    MissingValue(String),
    /// `man` takes exactly one argument.
    ManInvalidArgument,
    /// `man` was given a subject it does not know.
    ManUnknownSubject(String),
    /// `sort` needs a piped paper list to work on.
    SetNoPapers,
    /// The user declined a confirmation prompt; the command applied nothing.
    Cancelled,
}

} // verus!
