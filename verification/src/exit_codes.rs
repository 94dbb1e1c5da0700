//! Process exit codes for a run that finished without a runtime fault.

use vstd::prelude::*;

verus! {

#[derive(Clone, Copy, Debug, PartialEq, Eq, Structural)]
pub enum ExitCode {
    Success,
}

impl ExitCode {
    /// Human-readable name of the exit code.
    pub fn name(&self) -> (res: &'static str)
        ensures
            res@ == "Ok"@,
    {
        match self {
            ExitCode::Success => "Ok",
        }
    }

    /// Numeric value of the exit code, as reported to the operating system.
    pub fn value(&self) -> (res: u8)
        ensures
            res == 0,
    {
        match self {
            ExitCode::Success => 0,
        }
    }
}

} // verus!
