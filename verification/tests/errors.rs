use fun8s_lite::error::Error;

#[test]
fn error_messages() {
    assert_eq!(Error::TokenError.message(), "Parse input token fail");
    assert_eq!(Error::NeedSetupMesh.message(), "Need setup mesh env");
    assert_eq!(Error::SetupMeshFail.message(), "Setup mesh fail");
    assert_eq!(Error::InitMeshFail.message(), "Init mesh fail");
    assert_eq!(Error::JoinMeshFail.message(), "Join mesh fail");
    assert_eq!(Error::IPAMPersistenceFail.message(), "Can not persistence ip in file");
    assert_eq!(Error::NeedSetupK8s.message(), "Need setup k8s env");
    assert_eq!(Error::SetupK8sFail.message(), "Setup k8s fail");
    assert_eq!(Error::InitK8sFail.message(), "Init k8s fail");
}
