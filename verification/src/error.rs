//! The failures a supervisor operation can report.

use vstd::prelude::*;

verus! {

/// Why a supervisor operation could not do its work.
///
/// Lossy decoding of child output is deliberately not listed here: undecodable
/// bytes are substituted, never reported, so that a misbehaving child cannot
/// abort its own output stream.
#[derive(Clone, Copy, Debug, PartialEq, Eq, Structural)]
pub enum SupervisorError {
    /// The child process could not be spawned (binary missing, permission
    /// denied, bad working directory).
    SpawnFailure,
    /// The operation referenced a name with no live registry entry.
    NotFound,
    /// A write was attempted against a process whose input pipe is closed,
    /// typically because the process already exited.
    PipeClosed,
    /// An unexpected failure of the shared registry guard. Under a correct
    /// embedding this is unreachable; the library itself never reports it.
    Internal,
}

impl SupervisorError {
    /// A short diagnostic text for logs; the library has no other
    /// user-facing rendering of its errors.
    pub fn describe(&self) -> (r: &'static str)
        ensures
            *self is SpawnFailure ==> r@ == "failed to start process"@,
            *self is NotFound ==> r@ == "no process found with that name"@,
            *self is PipeClosed ==> r@ == "process input pipe is closed"@,
            *self is Internal ==> r@ == "registry guard failure"@,
    {
        match self {
            SupervisorError::SpawnFailure => "failed to start process",
            SupervisorError::NotFound => "no process found with that name",
            SupervisorError::PipeClosed => "process input pipe is closed",
            SupervisorError::Internal => "registry guard failure",
        }
    }
}

} // verus!
