//! The Kubernetes tools of a host: the scripts that check and install them,
//! and what their outcomes mean.
use vstd::prelude::*;
use crate::error::Error;
use crate::setup::{after_check, SetupStep};
use crate::text::{chars_of, push_all, string_from_chars};

verus! {

/// Looks for the container runtime and the Kubernetes tools.
pub const CHECK_SCRIPT: &'static str = r#"
            which dockerd
            which kubeadm
            which kubectl
            which kubelet
        "#;

/// Installs and starts the container runtime.
pub const DOCKER_SCRIPT: &'static str = r#"
            yum install docker -y
            systemctl enable --now docker
        "#;

/// Prepares the host for Kubernetes and installs and starts its tools.
pub const KUBERNETES_SCRIPT: &'static str = r#"
modprobe br_netfilter

cat <<EOF | sudo tee /etc/sysctl.d/k8s.conf
net.bridge.bridge-nf-call-ip6tables = 1
net.bridge.bridge-nf-call-iptables = 1
EOF
sudo sysctl --system

cat <<EOF | sudo tee /etc/yum.repos.d/kubernetes.repo
[kubernetes]
name=Kubernetes
baseurl=https://packages.cloud.google.com/yum/repos/kubernetes-el7-\$basearch
enabled=1
gpgcheck=1
repo_gpgcheck=1
gpgkey=https://packages.cloud.google.com/yum/doc/yum-key.gpg https://packages.cloud.google.com/yum/doc/rpm-package-key.gpg
exclude=kubelet kubeadm kubectl
EOF

# Set SELinux in permissive mode (effectively disabling it)
sudo setenforce 0 || true
sudo sed -i 's/^SELINUX=enforcing$/SELINUX=permissive/' /etc/selinux/config

sudo yum install -y kubelet kubeadm kubectl --disableexcludes=kubernetes

sudo systemctl enable --now kubelet
        "#;

/// The line that makes a script stop at its first failing command and
/// trace what it runs.
pub const SCRIPT_HEADER: &'static str = "set -eux\n";

/// The two installation stages, run in this order.
#[derive(Clone, Copy, PartialEq, Eq, Structural, Debug)]
pub enum InstallStage {
    Docker,
    Kubernetes,
}

/// The Kubernetes environment of a host.
pub struct ENV {}

/// The Kubernetes environment of this host.
pub fn new() -> (e: ENV) {
    ENV {}
}

/// The text of the script file that runs `s`: the header line, then `s`.
pub fn script_file(s: &str) -> (r: String)
    ensures
        r@ == SCRIPT_HEADER@ + s@,
{
    let mut v = chars_of(SCRIPT_HEADER);
    let b = chars_of(s);
    push_all(&mut v, b.as_slice());
    string_from_chars(v.as_slice())
}

/// The script of an installation stage.
pub fn install_script(stage: InstallStage) -> (s: &'static str)
    ensures
        stage == InstallStage::Docker ==> s@ == DOCKER_SCRIPT@,
        stage == InstallStage::Kubernetes ==> s@ == KUBERNETES_SCRIPT@,
{
    match stage {
        InstallStage::Docker => DOCKER_SCRIPT,
        InstallStage::Kubernetes => KUBERNETES_SCRIPT,
    }
}

impl ENV {
    /// Uses the tools as they are when the check passed, installs them
    /// otherwise.
    pub fn setup(&self, checked: &Result<(), Error>) -> (step: SetupStep)
        ensures
            step == SetupStep::Ready <==> checked is Ok,
            step == SetupStep::Install <==> checked is Err,
    {
        after_check(checked)
    }

    /// The check's verdict from whether `CHECK_SCRIPT` succeeded.
    pub fn check(&self, script_ok: bool) -> (r: Result<(), Error>)
        ensures
            script_ok ==> r is Ok,
            !script_ok ==> r == Err::<(), Error>(Error::NeedSetupK8s),
    {
        if script_ok {
            Ok(())
        } else {
            Err(Error::NeedSetupK8s)
        }
    }

    /// After an installation stage ran: the next stage to run, `None` when
    /// all are done, or the error that ends the installation.
    pub fn install_next(&self, stage: InstallStage, ok: bool) -> (r: Result<
        Option<InstallStage>,
        Error,
    >)
        ensures
            stage == InstallStage::Docker && ok ==> r == Ok::<Option<InstallStage>, Error>(
                Some(InstallStage::Kubernetes),
            ),
            stage == InstallStage::Docker && !ok ==> r == Err::<Option<InstallStage>, Error>(
                Error::NeedSetupK8s,
            ),
            stage == InstallStage::Kubernetes && ok ==> r == Ok::<Option<InstallStage>, Error>(
                None,
            ),
            stage == InstallStage::Kubernetes && !ok ==> r == Err::<Option<InstallStage>, Error>(
                Error::SetupK8sFail,
            ),
    {
        match (stage, ok) {
            (InstallStage::Docker, true) => Ok(Some(InstallStage::Kubernetes)),
            (InstallStage::Docker, false) => Err(Error::NeedSetupK8s),
            (InstallStage::Kubernetes, true) => Ok(None),
            (InstallStage::Kubernetes, false) => Err(Error::SetupK8sFail),
        }
    }
}

} // verus!
