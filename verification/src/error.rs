//! The errors of the tool and the messages they are reported with.
use vstd::prelude::*;

verus! {

/// What can go wrong while building or joining the mesh and the cluster.
#[derive(Clone, Copy, PartialEq, Eq, Structural)]
pub enum Error {
    TokenError,
    NeedSetupMesh,
    SetupMeshFail,
    InitMeshFail,
    JoinMeshFail,
    IPAMPersistenceFail,
    NeedSetupK8s,
    SetupK8sFail,
    InitK8sFail,
}

impl Error {
    /// The message an error is reported with.
    pub open spec fn text(self) -> Seq<char> {
        match self {
            Error::TokenError => "Parse input token fail"@,
            Error::NeedSetupMesh => "Need setup mesh env"@,
            Error::SetupMeshFail => "Setup mesh fail"@,
            Error::InitMeshFail => "Init mesh fail"@,
            Error::JoinMeshFail => "Join mesh fail"@,
            Error::IPAMPersistenceFail => "Can not persistence ip in file"@,
            Error::NeedSetupK8s => "Need setup k8s env"@,
            Error::SetupK8sFail => "Setup k8s fail"@,
            Error::InitK8sFail => "Init k8s fail"@,
        }
    }

    /// The message this error is reported with.
    pub fn message(&self) -> (m: &'static str)
        ensures
            m@ == self.text(),
    {
        match self {
            Error::TokenError => "Parse input token fail",
            Error::NeedSetupMesh => "Need setup mesh env",
            Error::SetupMeshFail => "Setup mesh fail",
            Error::InitMeshFail => "Init mesh fail",
            Error::JoinMeshFail => "Join mesh fail",
            Error::IPAMPersistenceFail => "Can not persistence ip in file",
            Error::NeedSetupK8s => "Need setup k8s env",
            Error::SetupK8sFail => "Setup k8s fail",
            Error::InitK8sFail => "Init k8s fail",
        }
    }
}

} // verus!
