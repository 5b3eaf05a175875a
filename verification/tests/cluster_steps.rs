use fun8s_lite::error::Error;
use fun8s_lite::k8s::{copy_kube_config, create_join, find_join, init, init_join, install_cni, join_command, join_result};
use fun8s_lite::setup::SetupStep;
use fun8s_lite::token::ARG;

const INIT_OUTPUT: &str = "Your Kubernetes control-plane has initialized successfully!\n\nThen you can join any number of worker nodes by running the following on each as root:\n\nkubeadm join 192.168.100.1:6443 --token abcdef.0123456789abcdef \\\n    --discovery-token-ca-cert-hash sha256:1234 \n";

fn arg() -> ARG {
    ARG { mesh_cfg: Some("M".to_string()), v_mesh_cfg: None, name: "node".to_string(), join: None }
}

#[test]
fn find_join_in_init_output() {
    assert_eq!(
        find_join(INIT_OUTPUT).as_deref(),
        Some("kubeadm join 192.168.100.1:6443 --token abcdef.0123456789abcdef \\")
    );
}

#[test]
fn find_join_takes_first_match_and_trims() {
    let out = "x\r\n  kubeadm join a:1 --token t \r\nkubeadm join b:2\n";
    assert_eq!(find_join(out).as_deref(), Some("kubeadm join a:1 --token t"));
    assert_eq!(find_join("kubeadm join c:3").as_deref(), Some("kubeadm join c:3"));
}

#[test]
fn find_join_none() {
    assert_eq!(find_join(""), None);
    assert_eq!(find_join("kubeadm\njoin\n"), None);
    assert_eq!(find_join("kubeadm  join x"), None);
}

#[test]
fn init_join_trims_output_first() {
    assert_eq!(init_join("\n\n kubeadm join z:9 \n\n").as_deref(), Some("kubeadm join z:9"));
}

#[test]
fn init_records_join_command() {
    let a = init(arg(), Ok(INIT_OUTPUT.to_string())).ok().unwrap();
    assert_eq!(a.join.as_deref(), Some("kubeadm join 192.168.100.1:6443 --token abcdef.0123456789abcdef \\"));
    assert_eq!(a.mesh_cfg.as_deref(), Some("M"));
    assert_eq!(a.name, "node");
    assert!(matches!(init(arg(), Ok("no command here".to_string())), Err(Error::InitK8sFail)));
    assert!(matches!(init(arg(), Err(())), Err(Error::InitK8sFail)));
}

#[test]
fn create_join_records_fresh_command() {
    let a = create_join(arg(), Ok("kubeadm join 1.2.3.4:6443 --token q \n".to_string())).ok().unwrap();
    assert_eq!(a.join.as_deref(), Some("kubeadm join 1.2.3.4:6443 --token q"));
    assert!(matches!(create_join(arg(), Ok(String::new())), Err(Error::TokenError)));
    assert!(matches!(create_join(arg(), Err(())), Err(Error::TokenError)));
}

#[test]
fn join_command_of_argument() {
    let mut a = arg();
    assert!(matches!(join_command(&a), Err(Error::TokenError)));
    a.join = Some("kubeadm join x".to_string());
    assert_eq!(join_command(&a).ok().unwrap(), "kubeadm join x");
    assert!(join_result(true).is_ok());
    assert!(join_result(false) == Err(Error::TokenError));
}

#[test]
fn init_step_outcomes() {
    assert!(copy_kube_config(true).is_ok());
    assert!(copy_kube_config(false) == Err(Error::InitK8sFail));
    assert!(install_cni(true).is_ok());
    assert!(install_cni(false) == Err(Error::InitK8sFail));
}

#[test]
fn kubernetes_environment() {
    let e = fun8s_lite::k8s::env::new();
    assert_eq!(e.setup(&Ok(())), SetupStep::Ready);
    assert_eq!(e.setup(&Err(Error::NeedSetupK8s)), SetupStep::Install);
    assert!(e.check(true).is_ok());
    assert!(e.check(false) == Err(Error::NeedSetupK8s));
    assert!(e.install_next(fun8s_lite::k8s::env::InstallStage::Docker, true) == Ok(Some(fun8s_lite::k8s::env::InstallStage::Kubernetes)));
    assert!(e.install_next(fun8s_lite::k8s::env::InstallStage::Docker, false) == Err(Error::NeedSetupK8s));
    assert!(e.install_next(fun8s_lite::k8s::env::InstallStage::Kubernetes, true) == Ok(None));
    assert!(e.install_next(fun8s_lite::k8s::env::InstallStage::Kubernetes, false) == Err(Error::SetupK8sFail));
    assert_eq!(fun8s_lite::k8s::env::install_script(fun8s_lite::k8s::env::InstallStage::Docker), fun8s_lite::k8s::env::DOCKER_SCRIPT);
    assert_eq!(fun8s_lite::k8s::env::install_script(fun8s_lite::k8s::env::InstallStage::Kubernetes), fun8s_lite::k8s::env::KUBERNETES_SCRIPT);
    assert!(fun8s_lite::k8s::env::KUBERNETES_SCRIPT.contains("kubernetes-el7-\\$basearch"));
}

#[test]
fn script_file_starts_with_header() {
    assert_eq!(fun8s_lite::k8s::env::script_file("echo hi\n"), "set -eux\necho hi\n");
}

#[test]
fn found_join_command_is_part_of_one_line() {
    let c = find_join(INIT_OUTPUT).unwrap();
    assert!(!c.contains('\n'));
    assert!(INIT_OUTPUT.contains(c.as_str()));
}
