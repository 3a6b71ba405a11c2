//! The program's command-line parameters.
use vstd::prelude::*;

verus! {

/// The branches to build from.
#[derive(Debug)]
pub struct ProgramParameters {
    pub celestial_branch: String,
    pub debugger_branch: String,
}

impl ProgramParameters {
    pub fn new(celestial_branch: String, debugger_branch: String) -> (r: Self)
        ensures
            r.celestial_branch == celestial_branch,
            r.debugger_branch == debugger_branch,
    {
        ProgramParameters { celestial_branch, debugger_branch }
    }
}

} // verus!
