//! The unit of forwarded child output: one line, tagged with the name of the
//! process that wrote it.

use vstd::prelude::*;

verus! {

/// One forwarded line of child output.
///
/// `name` is the caller-chosen name the process was started under; `chunk` is
/// one line of its standard output, decoded losslessly when the bytes were
/// valid text and with substitution otherwise. Events for one process arrive
/// in the order the child wrote them; across processes no order is implied.
#[derive(Clone, Debug)]
pub struct ChunkPayload {
    pub name: String,
    pub chunk: String,
}

impl ChunkPayload {
    /// True when this event carries the given process name.
    pub fn is_from(&self, name: &String) -> (r: bool)
        ensures
            r == (self.name@ == name@),
    {
        self.name.eq(name)
    }
}

} // verus!
