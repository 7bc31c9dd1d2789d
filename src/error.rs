//! The failures a session can report.
use vstd::prelude::*;

verus! {

/// Why an operation on a session failed.
#[derive(Debug, Clone, Copy, PartialEq, Eq, Structural)]
pub enum R2PipeError {
    /// Neither an inherited session nor a target to spawn for was available.
    Configuration,
    /// The engine executable could not be located or started.
    Spawn,
    /// A pipe failed, or the stream ended before a terminator.
    Transport,
    /// The bytes of a response were not well-formed UTF-8.
    Decode,
    /// A non-blank response did not parse as a JSON document.
    Structured,
    /// The session was already closed.
    Closed,
}

} // verus!
