//! The mesh tools of a host: whether they are there, and what installing
//! them reports.
use vstd::prelude::*;
use crate::error::Error;
use crate::setup::{after_check, SetupStep};

verus! {

/// The probes of the mesh check, run in this order: the `nebula` program,
/// the `yq` program, the service unit file, the configuration directory.
#[derive(Clone, Copy, PartialEq, Eq, Structural, Debug)]
pub enum Probe {
    Nebula,
    Yq,
    ServiceUnit,
    ConfigDir,
}

/// The probe that runs after `p`, if any.
pub open spec fn probe_after(p: Probe) -> Option<Probe> {
    match p {
        Probe::Nebula => Some(Probe::Yq),
        Probe::Yq => Some(Probe::ServiceUnit),
        Probe::ServiceUnit => Some(Probe::ConfigDir),
        Probe::ConfigDir => None,
    }
}

/// The probe the check starts with.
pub fn first_probe() -> (p: Probe)
    ensures
        p == Probe::Nebula,
{
    Probe::Nebula
}

/// The mesh environment of a host.
pub struct ENV {}

/// The mesh environment of this host.
pub fn new() -> (e: ENV) {
    ENV {}
}

impl ENV {
    /// Uses the tools as they are when the check passed, installs them
    /// otherwise.
    pub fn setup(&self, checked: &Result<(), Error>) -> (step: SetupStep)
        ensures
            step == SetupStep::Ready <==> checked is Ok,
            step == SetupStep::Install <==> checked is Err,
    {
        after_check(checked)
    }

    /// The check's verdict from the outcomes of its probes (the mesh
    /// programs, the service unit and the configuration directory are
    /// there): `NeedSetupMesh` unless every probe succeeded.
    pub fn check(&self, probes: &Vec<bool>) -> (r: Result<(), Error>)
        ensures
            r is Ok <==> forall|i: int| 0 <= i < probes@.len() ==> probes@[i],
            r is Err ==> r == Err::<(), Error>(Error::NeedSetupMesh),
    {
        let mut i: usize = 0;
        while i < probes.len()
            invariant
                i <= probes@.len(),
                forall|k: int| 0 <= k < i ==> probes@[k],
            decreases probes.len() - i,
        {
            if !probes[i] {
                return Err(Error::NeedSetupMesh);
            }
            i = i + 1;
        }
        Ok(())
    }

    /// After probe `p` ran: `NeedSetupMesh` when it failed, and no further
    /// probe runs; otherwise the next probe, or `None` when the last one
    /// passed and the check succeeds.
    pub fn check_next(&self, p: Probe, ok: bool) -> (r: Result<Option<Probe>, Error>)
        ensures
            !ok ==> r == Err::<Option<Probe>, Error>(Error::NeedSetupMesh),
            ok ==> r == Ok::<Option<Probe>, Error>(probe_after(p)),
    {
        if !ok {
            return Err(Error::NeedSetupMesh);
        }
        match p {
            Probe::Nebula => Ok(Some(Probe::Yq)),
            Probe::Yq => Ok(Some(Probe::ServiceUnit)),
            Probe::ServiceUnit => Ok(Some(Probe::ConfigDir)),
            Probe::ConfigDir => Ok(None),
        }
    }

    /// The outcome of installing the mesh programs and service:
    /// `SetupMeshFail` when it failed.
    pub fn install(&self, ok: bool) -> (r: Result<(), Error>)
        ensures
            ok ==> r is Ok,
            !ok ==> r == Err::<(), Error>(Error::SetupMeshFail),
    {
        if ok {
            Ok(())
        } else {
            Err(Error::SetupMeshFail)
        }
    }
}

} // verus!
