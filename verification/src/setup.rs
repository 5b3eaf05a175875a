//! Whether a host's environment must be installed before it is used.
use vstd::prelude::*;
use crate::error::Error;

verus! {

/// What to do after checking a host's environment.
#[derive(Clone, Copy, PartialEq, Eq, Structural, Debug)]
pub enum SetupStep {
    /// The tools are there; nothing to install.
    Ready,
    /// The check failed; install the tools.
    Install,
}

/// The step after a check: the environment is used as it is when the check
/// passed, and installed otherwise.
pub fn after_check(checked: &Result<(), Error>) -> (step: SetupStep)
    ensures
        step == SetupStep::Ready <==> checked is Ok,
        step == SetupStep::Install <==> checked is Err,
{
    match checked {
        Ok(_) => SetupStep::Ready,
        Err(_) => SetupStep::Install,
    }
}

} // verus!
