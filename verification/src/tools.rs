//! The auxiliary executables the application can install, by name.
//!
//! Downloading, probing and installing them is platform I/O performed by the
//! embedding program; the library owns the identities and the name mapping.

use vstd::prelude::*;

verus! {

/// One supported auxiliary tool.
#[derive(Clone, Copy, Debug, PartialEq, Eq, Structural)]
pub enum Tool {
    Uv,
    Bun,
    Git,
}

impl Tool {
    /// The executable name of the tool.
    pub fn name(&self) -> (r: &'static str)
        ensures
            *self is Uv ==> r@ == "uv"@,
            *self is Bun ==> r@ == "bun"@,
            *self is Git ==> r@ == "git"@,
    {
        match self {
            Tool::Uv => "uv",
            Tool::Bun => "bun",
            Tool::Git => "git",
        }
    }

    /// The tool a caller-supplied name designates, if any: the decision made
    /// when a single tool is installed by name.
    pub fn from_name(name: &String) -> (r: Option<Tool>)
        ensures
            name@ == "uv"@ ==> r == Some(Tool::Uv),
            name@ == "bun"@ ==> r == Some(Tool::Bun),
            name@ == "git"@ ==> r == Some(Tool::Git),
            (name@ != "uv"@ && name@ != "bun"@ && name@ != "git"@) ==> r is None,
    {
        proof {
            reveal_strlit("uv");
            reveal_strlit("bun");
            reveal_strlit("git");
            assert("uv"@.len() == 2);
            assert("bun"@[0] == 'b');
            assert("git"@[0] == 'g');
            assert("bun"@ != "git"@);
        }
        let uv: &str = "uv";
        let bun: &str = "bun";
        let git: &str = "git";
        if name.eq(&uv.to_owned()) {
            Some(Tool::Uv)
        } else if name.eq(&bun.to_owned()) {
            Some(Tool::Bun)
        } else if name.eq(&git.to_owned()) {
            Some(Tool::Git)
        } else {
            None
        }
    }
}

} // verus!
