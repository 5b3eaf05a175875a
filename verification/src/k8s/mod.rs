//! Joining hosts into a Kubernetes cluster: the join command that `kubeadm`
//! prints, and what each step's outcome means for the join argument.
use vstd::prelude::*;
use crate::error::Error;
use crate::text::{
    chars_of, contains, first_containing, first_line_containing, lemma_trim_idempotent,
    lemma_trim_keeps, lines, lemma_lines_in, lemma_first_containing_in, lemma_trim_within,
    lemma_contains_within, no_newline, string_from_chars, trim, trim_str,
};
use crate::token::{ARG, opt_view};

pub mod env;

verus! {

/// What marks the join command in `kubeadm`'s output.
pub const JOIN_MARK: &'static str = "kubeadm join";

/// Initializes the control plane.
pub const INIT_COMMAND: &'static str =
    "kubeadm init --control-plane-endpoint=192.168.100.1 --pod-network-cidr=192.186.0.0/16";

/// Prints a fresh join command.
pub const TOKEN_COMMAND: &'static str = "kubeadm token create --print-join-command";

/// Gives the current user the cluster's admin configuration.
pub const COPY_KUBE_CONFIG_SCRIPT: &'static str = r#"
mkdir -p $HOME/.kube
sudo cp -i /etc/kubernetes/admin.conf $HOME/.kube/config
sudo chown $(id -u):$(id -g) $HOME/.kube/config
    "#;

/// Installs the cluster network.
pub const CNI_COMMAND: &'static str =
    "kubectl apply -f https://docs.projectcalico.org/v3.14/manifests/calico.yaml";

/// The join command in a command's output: the first line that contains
/// `JOIN_MARK`, without surrounding white space.
pub open spec fn join_command_in(output: Seq<char>) -> Option<Seq<char>> {
    match first_containing(lines(output), JOIN_MARK@) {
        Some(l) => Some(trim(l)),
        None => None,
    }
}

/// Finds the join command in `kubeadm`'s output. What it finds is a part of
/// one line of the output: it holds the mark, no line break, and no white
/// space at either end.
pub fn find_join(s: &str) -> (r: Option<String>)
    ensures
        opt_view(r) == join_command_in(s@),
        r matches Some(c) ==> contains(c@, JOIN_MARK@) && trim(c@) == c@,
        r matches Some(c) ==> no_newline(c@) && contains(s@, c@),
{
    let v = chars_of(s);
    let mark = chars_of(JOIN_MARK);
    match first_line_containing(v.as_slice(), mark.as_slice()) {
        Some(l) => {
            proof {
                reveal_strlit("kubeadm join");
                let m = first_containing(lines(s@), JOIN_MARK@)->0;
                lemma_first_containing(lines(s@), JOIN_MARK@);
                lemma_trim_keeps(m, JOIN_MARK@);
                lemma_trim_idempotent(m);
                lemma_lines_in(s@);
                lemma_first_containing_in(lines(s@), JOIN_MARK@, s@);
                lemma_trim_within(m);
                lemma_contains_within(s@, m, trim(m));
            }
            Some(string_from_chars(l.as_slice()))
        },
        None => None,
    }
}

proof fn lemma_first_containing(ls: Seq<Seq<char>>, p: Seq<char>)
    ensures
        first_containing(ls, p) matches Some(l) ==> contains(l, p),
    decreases ls.len(),
{
    if ls.len() > 0 && !contains(ls[0], p) {
        lemma_first_containing(ls.drop_first(), p);
    }
}

/// The join command in the output of `INIT_COMMAND`, which is trimmed first.
pub fn init_join(output: &str) -> (r: Option<String>)
    ensures
        opt_view(r) == join_command_in(trim(output@)),
{
    let t = trim_str(output);
    find_join(t.as_str())
}

/// Records the join command that initializing the control plane printed:
/// `InitK8sFail` when the command failed or printed none.
pub fn init(a: ARG, output: Result<String, ()>) -> (r: Result<ARG, Error>)
    ensures
        match output {
            Ok(o) => match join_command_in(trim(o@)) {
                Some(j) => r matches Ok(b) && b@.join == Some(j) && b@.mesh_cfg == a@.mesh_cfg
                    && b@.v_mesh_cfg == a@.v_mesh_cfg && b@.name == a@.name,
                None => r == Err::<ARG, Error>(Error::InitK8sFail),
            },
            Err(_) => r == Err::<ARG, Error>(Error::InitK8sFail),
        },
{
    match output {
        Ok(o) => match init_join(o.as_str()) {
            Some(j) => {
                let mut a = a;
                a.join = Some(j);
                Ok(a)
            },
            None => Err(Error::InitK8sFail),
        },
        Err(_) => Err(Error::InitK8sFail),
    }
}

/// Records a fresh join command from the output of `TOKEN_COMMAND`:
/// `TokenError` when the command failed or printed none.
pub fn create_join(a: ARG, output: Result<String, ()>) -> (r: Result<ARG, Error>)
    ensures
        match output {
            Ok(o) => match join_command_in(o@) {
                Some(j) => r matches Ok(b) && b@.join == Some(j) && b@.mesh_cfg == a@.mesh_cfg
                    && b@.v_mesh_cfg == a@.v_mesh_cfg && b@.name == a@.name,
                None => r == Err::<ARG, Error>(Error::TokenError),
            },
            Err(_) => r == Err::<ARG, Error>(Error::TokenError),
        },
{
    match output {
        Ok(o) => match find_join(o.as_str()) {
            Some(j) => {
                let mut a = a;
                a.join = Some(j);
                Ok(a)
            },
            None => Err(Error::TokenError),
        },
        Err(_) => Err(Error::TokenError),
    }
}

/// The command that joins this host to the cluster: `TokenError` when the
/// argument carries none.
pub fn join_command(arg: &ARG) -> (r: Result<String, Error>)
    ensures
        match arg@.join {
            Some(j) => r matches Ok(c) && c@ == j,
            None => r == Err::<String, Error>(Error::TokenError),
        },
{
    match &arg.join {
        Some(j) => Ok(j.clone()),
        None => Err(Error::TokenError),
    }
}

/// The outcome of running the join command: `TokenError` when it failed.
pub fn join_result(ok: bool) -> (r: Result<(), Error>)
    ensures
        ok ==> r is Ok,
        !ok ==> r == Err::<(), Error>(Error::TokenError),
{
    if ok {
        Ok(())
    } else {
        Err(Error::TokenError)
    }
}

/// The outcome of `COPY_KUBE_CONFIG_SCRIPT`: `InitK8sFail` when it failed.
pub fn copy_kube_config(ok: bool) -> (r: Result<(), Error>)
    ensures
        ok ==> r is Ok,
        !ok ==> r == Err::<(), Error>(Error::InitK8sFail),
{
    if ok {
        Ok(())
    } else {
        Err(Error::InitK8sFail)
    }
}

/// The outcome of `CNI_COMMAND`: `InitK8sFail` when it failed.
pub fn install_cni(ok: bool) -> (r: Result<(), Error>)
    ensures
        ok ==> r is Ok,
        !ok ==> r == Err::<(), Error>(Error::InitK8sFail),
{
    if ok {
        Ok(())
    } else {
        Err(Error::InitK8sFail)
    }
}

} // verus!
