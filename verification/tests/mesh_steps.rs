use fun8s_lite::mesh::env::{first_probe, Probe};
use fun8s_lite::error::Error;
use fun8s_lite::mesh::{
    config_path, create_join, generate_ca, generate_host, host_config, host_script, init_arg,
    join_bundle, join_result, join_script, master_config, master_network, peer_config, reset,
    sign_command, token_path, token_script, HostRole, RESET_SCRIPT,
};
use fun8s_lite::net::{IpAddress, IpNet};
use fun8s_lite::setup::SetupStep;
use fun8s_lite::token::{encode_token, ARG};

fn arg(name: &str, mesh: Option<&str>) -> ARG {
    ARG { mesh_cfg: mesh.map(|s| s.to_string()), v_mesh_cfg: None, name: name.to_string(), join: None }
}

#[test]
fn role_names() {
    let n = master_network();
    assert_eq!(HostRole::Master(n, "1.2.3.4".to_string()).name(), "master");
    assert_eq!(HostRole::Node(n).name(), "node");
    assert_eq!(HostRole::API(n).name(), "api");
}

#[test]
fn sign_command_text() {
    assert_eq!(
        sign_command("master", &master_network()),
        "nebula-cert sign -ca-crt=./ca.crt -ca-key=./ca.key -name 'master' -ip '192.168.100.1/24'"
    );
}

#[test]
fn host_script_for_a_node() {
    let role = HostRole::Node(IpNet { addr: IpAddress::V4(0xc0a8_6402), prefix: 24 });
    assert_eq!(
        host_script(&role),
        "\n        cd /etc/nebula/\n        nebula-cert sign -ca-crt=./ca.crt -ca-key=./ca.key -name 'node' -ip '192.168.100.2/24'\n        mkdir -p node\n        mv node.crt node/host.crt\n        mv node.key node/host.key\n        cp ca.crt node/ca.crt\n    "
    );
}

#[test]
fn lighthouse_configuration() {
    let template = "static_host_map:\n  \"192.168.100.1\": [\"21.21.21.21:4242\"]\nlighthouse:\n  am_lighthouse: false\nlisten:\n  port: 4242\n";
    let c = master_config(template, "123.123.123.123");
    assert_eq!(
        c,
        "static_host_map:\n  \"192.168.100.1\": [\"123.123.123.123:4242\"]\nlighthouse:\n  am_lighthouse: true\nlisten:\n  port: 4242\n"
    );
    let role = HostRole::Master(master_network(), "123.123.123.123".to_string());
    assert_eq!(host_config(&role, template), c);
}

#[test]
fn member_configuration() {
    let current = "lighthouse:\n  am_lighthouse: true\nlisten:\n  port: 4242\n\n";
    let c = peer_config(current);
    assert_eq!(c, "lighthouse:\n  am_lighthouse: false\nlisten:\n  port: 0");
    let role = HostRole::Node(master_network());
    assert_eq!(host_config(&role, current), c);
    assert_eq!(host_config(&HostRole::API(master_network()), current), c);
}

#[test]
fn paths_and_scripts() {
    assert_eq!(config_path("node"), "/etc/nebula/node/config.yml");
    assert_eq!(token_path("api"), "/tmp/tmp-nebula/api.token");
    assert_eq!(
        token_script("node"),
        "\n        cd /etc/nebula\n        tar -zcvf node.tar.gz node\n        cat node.tar.gz | base64 -w 0 > /tmp/tmp-nebula/node.token\n    "
    );
    assert_eq!(
        join_script(&arg("master", None)),
        "\n    cd /etc/nebula\n    tar -zxvf tmp.tar.gz\n    cd /etc/nebula/master\n    cp config.yml ca.crt host.crt host.key /etc/nebula\n    systemctl enable --now nebula\n    "
    );
    assert!(RESET_SCRIPT.contains("systemctl stop nebula"));
}

#[test]
fn join_bundle_decodes() {
    let bundle = encode_token("tarball");
    assert_eq!(join_bundle(&arg("node", Some(&bundle))), Some(b"tarball".to_vec()));
    assert_eq!(join_bundle(&arg("node", None)), None);
    assert_eq!(join_bundle(&arg("node", Some("%%%"))), None);
}

#[test]
fn generate_host_argument() {
    let role = HostRole::API(master_network());
    let a = generate_host(&role, Ok("QUJD".to_string())).ok().unwrap();
    assert_eq!(a.mesh_cfg.as_deref(), Some("QUJD"));
    assert!(a.v_mesh_cfg.is_none());
    assert_eq!(a.name, "api");
    assert!(a.join.is_none());
    assert!(matches!(generate_host(&role, Err(())), Err(Error::InitMeshFail)));
}

#[test]
fn create_join_takes_next_address() {
    match create_join(Ok(master_network())) {
        Ok(HostRole::Node(n)) => assert_eq!(n.to_text(), "192.168.100.2/24"),
        _ => panic!("expected a node"),
    }
    assert!(matches!(create_join(Err(())), Err(Error::IPAMPersistenceFail)));
}

#[test]
fn init_argument_takes_second_bundle() {
    let master = arg("master", Some("M"));
    let mut api = arg("api", Some("A"));
    api.v_mesh_cfg = Some("V".to_string());
    let r = init_arg(master, api);
    assert_eq!(r.name, "master");
    assert_eq!(r.mesh_cfg.as_deref(), Some("M"));
    assert_eq!(r.v_mesh_cfg.as_deref(), Some("V"));
}

#[test]
fn outcomes_of_mesh_steps() {
    assert!(reset().is_ok());
    assert!(generate_ca(true).is_ok());
    assert!(generate_ca(false) == Err(Error::InitMeshFail));
    assert!(join_result(true).is_ok());
    assert!(join_result(false) == Err(Error::JoinMeshFail));
}

#[test]
fn mesh_environment() {
    let e = fun8s_lite::mesh::env::new();
    assert_eq!(e.setup(&Ok(())), SetupStep::Ready);
    assert_eq!(e.setup(&Err(Error::NeedSetupMesh)), SetupStep::Install);
    assert!(e.check(&vec![true, true, true, true]).is_ok());
    assert!(e.check(&vec![true, false, true, true]) == Err(Error::NeedSetupMesh));
    assert!(e.install(true).is_ok());
    assert!(e.install(false) == Err(Error::SetupMeshFail));
}

#[test]
fn mesh_probes_stop_at_first_failure() {
    let e = fun8s_lite::mesh::env::new();
    assert_eq!(first_probe(), Probe::Nebula);
    assert!(e.check_next(Probe::Nebula, true) == Ok(Some(Probe::Yq)));
    assert!(e.check_next(Probe::Yq, true) == Ok(Some(Probe::ServiceUnit)));
    assert!(e.check_next(Probe::ServiceUnit, true) == Ok(Some(Probe::ConfigDir)));
    assert!(e.check_next(Probe::ConfigDir, true) == Ok(None));
    assert!(e.check_next(Probe::Yq, false) == Err(Error::NeedSetupMesh));
}
