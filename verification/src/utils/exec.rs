//! Shell command outcomes: the decision part of running a hook or an
//! ad-hoc command in a directory. Spawning the process is the
//! application's job.

use vstd::prelude::*;

verus! {

/// Failure of a shell command run in a root or a tree.
#[derive(Debug)]
pub enum ExecError {
    /// The command ran and exited non-zero.
    CommandFailed { command: String, code: i32 },
}

/// Interpret the exit of a shell command: success when the process
/// reported success, else [`ExecError::CommandFailed`] carrying the
/// command and its exit code.
pub fn outcome(command: String, success: bool, code: i32) -> (r: Result<(), ExecError>)
    ensures
        success ==> r is Ok,
        !success ==> (r is Err && (r->Err_0 matches ExecError::CommandFailed { command: c, code: x }
            && c@ == command@ && x == code)),
{
    if success {
        Ok(())
    } else {
        Err(ExecError::CommandFailed { command, code })
    }
}

} // verus!
