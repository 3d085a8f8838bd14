//! The supervisor operations: start, send, stop, reap and query.
//!
//! The supervisor owns the registry and makes every decision; the operating
//! system work itself (spawning, writing to a pipe, killing) is performed by
//! the embedding program, which reports outcomes back ([`SpawnOutcome`]) or
//! carries out the returned actions ([`SendAction`], a process id to kill).
//! The registry is consulted under whatever mutual exclusion the embedding
//! program provides, held only for the duration of the operation itself and
//! never across the blocking work.

use vstd::prelude::*;
use vstd::string::StrSliceExecFns;
use vstd::utf8::encode_utf8;

use crate::bridge::LINE_END;
use crate::error::SupervisorError;
use crate::handle::HandleView;
use crate::handle::ProcessHandle;
use crate::registry::Registry;

verus! {

/// What the embedding program's spawn attempt produced: the process id of a
/// running child, or a failure (binary missing, permission denied).
#[derive(Clone, Copy, Debug, PartialEq, Eq, Structural)]
pub enum SpawnOutcome {
    Spawned(u64),
    Failed,
}

/// The write a successful `send` asks the embedding program to perform: the
/// framed bytes, destined for the input pipe of the process with id `pid`.
pub struct SendAction {
    pub pid: u64,
    pub bytes: Vec<u8>,
}

/// The supervising context: one registry of running servers and the
/// operations callers use on it.
pub struct Supervisor {
    registry: Registry,
}

impl View for Supervisor {
    type V = Map<Seq<char>, HandleView>;

    closed spec fn view(&self) -> Map<Seq<char>, HandleView> {
        self.registry@
    }
}

impl Supervisor {
    /// The owned registry is well formed.
    pub closed spec fn wf(&self) -> bool {
        self.registry.wf()
    }

    /// A supervisor with no running server. Construct one per application and
    /// pass it to every command handler; nothing here is process-wide state.
    pub fn new() -> (r: Supervisor)
        ensures
            r.wf(),
            r@ == Map::<Seq<char>, HandleView>::empty(),
            r@.dom().len() == 0,
    {
        Supervisor { registry: Registry::new() }
    }

    /// Records the outcome of starting a server named `name` from `command`
    /// with `args`.
    ///
    /// The embedding program attempts the spawn first and passes the outcome
    /// in. On spawn failure the registry is untouched and the failure is
    /// reported. On success the new handle is registered under `name`; when an
    /// entry already existed under that name the policy is stop-then-replace:
    /// the old handle leaves the registry and its process id is returned, and
    /// the caller must kill that process so that it is never silently leaked.
    pub fn start(
        &mut self,
        name: String,
        command: String,
        args: Vec<String>,
        outcome: SpawnOutcome,
    ) -> (r: Result<Option<u64>, SupervisorError>)
        requires
            old(self).wf(),
            name@.len() > 0,
        ensures
            final(self).wf(),
            outcome is Failed ==> {
                &&& r == Err::<Option<u64>, SupervisorError>(SupervisorError::SpawnFailure)
                &&& final(self)@ == old(self)@
            },
            outcome matches SpawnOutcome::Spawned(pid) ==> {
                &&& final(self)@ == old(self)@.insert(
                    name@,
                    HandleView { name: name@, pid: pid, command: command@, args: args.deep_view() },
                )
                &&& (old(self)@.dom().contains(name@) ==> r == Ok::<Option<u64>, SupervisorError>(
                    Some(old(self)@[name@].pid),
                ))
                &&& (!old(self)@.dom().contains(name@) ==> r == Ok::<Option<u64>, SupervisorError>(
                    None,
                ))
            },
    {
        match outcome {
            SpawnOutcome::Failed => Err(SupervisorError::SpawnFailure),
            SpawnOutcome::Spawned(pid) => {
                let prior = self.registry.remove(&name);
                let h = ProcessHandle::new(name, pid, command, args);
                self.registry.insert(h);
                match prior {
                    Some(ph) => Ok(Some(ph.pid)),
                    None => Ok(None),
                }
            },
        }
    }

    /// Prepares the delivery of one logical line to the server named `name`.
    ///
    /// When `name` is registered, the result carries the process id and the
    /// message framed for the wire: its UTF-8 bytes followed by exactly one
    /// line terminator. When it is not, nothing is written anywhere and the
    /// operation reports that no such process exists.
    pub fn send(&self, name: &String, message: &String) -> (r: Result<
        SendAction,
        SupervisorError,
    >)
        requires
            self.wf(),
        ensures
            r is Ok <==> self@.dom().contains(name@),
            r is Err ==> r == Err::<SendAction, SupervisorError>(SupervisorError::NotFound),
            r matches Ok(a) ==> {
                &&& a.pid == self@[name@].pid
                &&& a.bytes@ == encode_utf8(message@).push(LINE_END)
            },
    {
        match self.registry.get(name) {
            Some(h) => {
                let mut bytes = message.as_str().as_bytes_vec();
                bytes.push(LINE_END);
                Ok(SendAction { pid: h.pid, bytes })
            },
            None => Err(SupervisorError::NotFound),
        }
    }

    /// Stops the server named `name`: removes its entry, atomically with the
    /// lookup, and returns the process id the embedding program must now
    /// terminate. Against an unknown name this is a reported no-op failure,
    /// never a crash and never an operating-system action.
    pub fn stop(&mut self, name: &String) -> (r: Result<u64, SupervisorError>)
        requires
            old(self).wf(),
        ensures
            final(self).wf(),
            r is Ok <==> old(self)@.dom().contains(name@),
            r matches Ok(pid) ==> {
                &&& pid == old(self)@[name@].pid
                &&& final(self)@ == old(self)@.remove(name@)
            },
            r is Err ==> {
                &&& r == Err::<u64, SupervisorError>(SupervisorError::NotFound)
                &&& final(self)@ == old(self)@
            },
    {
        match self.registry.remove(name) {
            Some(h) => Ok(h.pid),
            None => Err(SupervisorError::NotFound),
        }
    }

    /// Removes the entry for `name` after its output stream ended, but only
    /// while the entry still describes that very process: a name that was
    /// stopped and started again keeps its new entry. Returns whether an entry
    /// was removed.
    pub fn reap(&mut self, name: &String, pid: u64) -> (r: bool)
        requires
            old(self).wf(),
        ensures
            final(self).wf(),
            r <==> (old(self)@.dom().contains(name@) && old(self)@[name@].pid == pid),
            r ==> final(self)@ == old(self)@.remove(name@),
            !r ==> final(self)@ == old(self)@,
    {
        let stale = match self.registry.get(name) {
            Some(h) => h.pid == pid,
            None => false,
        };
        if stale {
            self.registry.remove(name);
            true
        } else {
            false
        }
    }

    /// The handle registered under `name`, if any: the query operation.
    pub fn lookup(&self, name: &String) -> (r: Option<&ProcessHandle>)
        requires
            self.wf(),
        ensures
            match r {
                Some(h) => self@.dom().contains(name@) && h@ == self@[name@] && h.name@ == name@,
                None => !self@.dom().contains(name@),
            },
    {
        self.registry.get(name)
    }

    /// Whether a server is currently registered under `name`.
    pub fn is_running(&self, name: &String) -> (r: bool)
        ensures
            r == self@.dom().contains(name@),
    {
        self.registry.contains_name(name)
    }

    /// How many servers are currently registered.
    pub fn running_count(&self) -> (r: usize)
        requires
            self.wf(),
        ensures
            r == self@.dom().len(),
    {
        self.registry.len()
    }
}

/// Classifies the embedding program's report of the pipe write a `send` asked
/// for: a write that could not be delivered means the process's input pipe is
/// closed, and that failure is surfaced, never swallowed.
pub fn write_report(delivered: bool) -> (r: Result<(), SupervisorError>)
    ensures
        delivered <==> r is Ok,
        !delivered ==> r == Err::<(), SupervisorError>(SupervisorError::PipeClosed),
{
    if delivered {
        Ok(())
    } else {
        Err(SupervisorError::PipeClosed)
    }
}

/// Starting a server makes it immediately visible: after a successful start
/// of a handle, a lookup of its name finds exactly that handle. Together with
/// `start`'s contract this is the start-then-lookup law.
pub proof fn lemma_start_then_lookup(m: Map<Seq<char>, HandleView>, h: HandleView)
    ensures
        m.insert(h.name, h).dom().contains(h.name),
        m.insert(h.name, h)[h.name] == h,
{
}

/// Stopping is idempotent in its failure: once a stop has removed `name`, the
/// registry no longer contains `name`, so by `stop`'s contract an immediate
/// second stop of the same name reports `NotFound`, changes nothing and asks
/// for no operating-system action.
pub proof fn lemma_stop_then_stop(m: Map<Seq<char>, HandleView>, name: Seq<char>)
    ensures
        !m.remove(name).dom().contains(name),
{
}

} // verus!
