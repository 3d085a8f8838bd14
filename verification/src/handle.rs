//! The record the supervisor keeps for one running child process.

use vstd::prelude::*;

verus! {

/// The mathematical content of a process handle: every field the registry
/// remembers, as plain sequences and integers.
pub ghost struct HandleView {
    pub name: Seq<char>,
    pub pid: u64,
    pub command: Seq<char>,
    pub args: Seq<Seq<char>>,
}

/// One running child process, as the registry tracks it.
///
/// The operating-system resources themselves (the process, its input pipe)
/// stay with the embedding program, addressed by `pid`; the handle keeps the
/// identity and the spawn diagnostics. A handle exists in the registry exactly
/// while its process was successfully spawned and has been neither stopped nor
/// observed to exit.
pub struct ProcessHandle {
    /// The unique key the caller chose; not necessarily the executable name.
    pub name: String,
    /// The operating-system process identifier, handed back at spawn time.
    pub pid: u64,
    /// The executable the process was spawned from, kept for diagnostics.
    pub command: String,
    /// The arguments it was spawned with, kept for diagnostics.
    pub args: Vec<String>,
}

impl View for ProcessHandle {
    type V = HandleView;

    open spec fn view(&self) -> HandleView {
        HandleView {
            name: self.name@,
            pid: self.pid,
            command: self.command@,
            args: self.args.deep_view(),
        }
    }
}

impl ProcessHandle {
    /// A handle is well formed when its name is a usable key.
    pub open spec fn wf(&self) -> bool {
        self.name@.len() > 0
    }

    /// Builds the handle for a process that was just spawned.
    pub fn new(name: String, pid: u64, command: String, args: Vec<String>) -> (r: ProcessHandle)
        requires
            name@.len() > 0,
        ensures
            r@ == (HandleView { name: name@, pid: pid, command: command@, args: args.deep_view() }),
            r.wf(),
    {
        ProcessHandle { name, pid, command, args }
    }
}

} // verus!
