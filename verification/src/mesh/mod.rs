//! The nebula mesh: the certificate authority, the hosts' certificates and
//! configurations, the bundles that carry them to the hosts, and the
//! address book that gives each new host the next address of the mesh.
use vstd::prelude::*;
use vstd::utf8::encode_utf8;
use crate::codec::{base64_decode, base64_decoded, base64_encoded};
use crate::error::Error;
use crate::net::{network_text, IpAddress, IpNet};
use crate::text::{
    chars_of, contains, law_replace_absent, push_all, replace, replace_str, string_from_chars, trim,
    trim_str,
};
use crate::token::{opt_view, ArgView, ARG};

pub mod env;

verus! {

/// Stops the mesh service and removes its configuration.
pub const RESET_SCRIPT: &'static str = r#"
systemctl stop nebula
rm -rf /etc/nebula/*
    "#;

/// Creates the certificate authority of the mesh.
pub const CA_SCRIPT: &'static str = r#"
        cd /etc/nebula/
        nebula-cert ca -name haha
    "#;

/// Signs a host's certificate (`SIGN_S` stands for the signing command) and
/// gathers the host's files in a directory named after it (`NODE_N`).
pub const HOST_SCRIPT: &'static str = r#"
        cd /etc/nebula/
        SIGN_S
        mkdir -p NODE_N
        mv NODE_N.crt NODE_N/host.crt
        mv NODE_N.key NODE_N/host.key
        cp ca.crt NODE_N/ca.crt
    "#;

/// Packs a host's directory and writes it, in base64, to its token file.
pub const TOKEN_SCRIPT: &'static str = r#"
        cd /etc/nebula
        tar -zcvf NODE_N.tar.gz NODE_N
        cat NODE_N.tar.gz | base64 -w 0 > /tmp/tmp-nebula/NODE_N.token
    "#;

/// Unpacks a received bundle and starts the mesh service with it.
pub const JOIN_SCRIPT: &'static str = r#"
    cd /etc/nebula
    tar -zxvf tmp.tar.gz
    cd /etc/nebula/NODE_N
    cp config.yml ca.crt host.crt host.key /etc/nebula
    systemctl enable --now nebula
    "#;

/// Stands for the signing command in `HOST_SCRIPT`.
pub const SIGN_MARK: &'static str = "SIGN_S";

/// Stands for the host's name in the scripts.
pub const NODE_MARK: &'static str = "NODE_N";

/// The signing command, before the host's name.
pub const SIGN_PREFIX: &'static str = "nebula-cert sign -ca-crt=./ca.crt -ca-key=./ca.key -name '";

/// The signing command, between the host's name and its network.
pub const SIGN_MIDDLE: &'static str = "' -ip '";

/// The signing command, after the host's network.
pub const SIGN_SUFFIX: &'static str = "'";

/// The public address in the lighthouse's configuration template.
pub const PUBLIC_ADDRESS_MARK: &'static str = "21.21.21.21";

/// The lighthouse switch, off.
pub const LIGHTHOUSE_OFF: &'static str = "am_lighthouse: false";

/// The lighthouse switch, on.
pub const LIGHTHOUSE_ON: &'static str = "am_lighthouse: true";

/// The listening port of the lighthouse.
pub const LIGHTHOUSE_PORT: &'static str = "port: 4242";

/// Other hosts pick any port.
pub const ANY_PORT: &'static str = "port: 0";

/// Directory of the mesh configuration.
pub const MESH_DIR: &'static str = "/etc/nebula/";

/// Name of a host's configuration file.
pub const CONFIG_FILE: &'static str = "/config.yml";

/// Directory of the token files.
pub const TOKEN_DIR: &'static str = "/tmp/tmp-nebula/";

/// Extension of a token file.
pub const TOKEN_EXTENSION: &'static str = ".token";

/// Where the address book keeps the last address handed out.
pub const ADDRESS_FILE: &'static str = "/tmp/fun8s-ip";

/// Where a received bundle is written before it is unpacked.
pub const BUNDLE_FILE: &'static str = "/etc/nebula/tmp.tar.gz";

/// The part a host plays in the mesh, with its network.
pub enum HostRole {
    /// The lighthouse, reachable at a public address (given as text).
    Master(IpNet, String),
    /// A member that joins the cluster.
    Node(IpNet),
    /// The address of the cluster's API.
    API(IpNet),
}

impl HostRole {
    /// The name of the role, which names the host's files.
    pub open spec fn name_text(&self) -> Seq<char> {
        match self {
            HostRole::Master(_, _) => "master"@,
            HostRole::Node(_) => "node"@,
            HostRole::API(_) => "api"@,
        }
    }

    /// The host's network.
    pub open spec fn network(&self) -> IpNet {
        match self {
            HostRole::Master(n, _) => *n,
            HostRole::Node(n) => *n,
            HostRole::API(n) => *n,
        }
    }

    /// The name of the role.
    pub fn name(&self) -> (s: &'static str)
        ensures
            s@ == self.name_text(),
    {
        match self {
            HostRole::Master(_, _) => "master",
            HostRole::Node(_) => "node",
            HostRole::API(_) => "api",
        }
    }
}

/// The command that signs the certificate of host `name` for `net`.
pub open spec fn sign_command_text(name: Seq<char>, net: IpNet) -> Seq<char> {
    SIGN_PREFIX@ + name + SIGN_MIDDLE@ + network_text(net) + SIGN_SUFFIX@
}

/// The script that signs a host's certificate and gathers its files.
pub open spec fn host_script_text(role: HostRole) -> Seq<char> {
    replace(
        replace(HOST_SCRIPT@, SIGN_MARK@, sign_command_text(role.name_text(), role.network())),
        NODE_MARK@,
        role.name_text(),
    )
}

/// The lighthouse's configuration: the template with the public address
/// filled in and the lighthouse switched on.
pub open spec fn master_config_text(template: Seq<char>, public_address: Seq<char>) -> Seq<
    char,
> {
    replace(replace(template, PUBLIC_ADDRESS_MARK@, public_address), LIGHTHOUSE_OFF@, LIGHTHOUSE_ON@)
}

/// Another host's configuration: the lighthouse's current configuration,
/// trimmed, with the lighthouse switched off and any port.
pub open spec fn peer_config_text(current: Seq<char>) -> Seq<char> {
    replace(replace(trim(current), LIGHTHOUSE_ON@, LIGHTHOUSE_OFF@), LIGHTHOUSE_PORT@, ANY_PORT@)
}

/// A host's configuration made from `source`: the template for the
/// lighthouse, the lighthouse's current configuration for the others.
pub open spec fn host_config_text(role: HostRole, source: Seq<char>) -> Seq<char> {
    match role {
        HostRole::Master(_, public_address) => master_config_text(source, public_address@),
        _ => peer_config_text(source),
    }
}

/// A host's configuration file.
pub open spec fn config_path_text(name: Seq<char>) -> Seq<char> {
    MESH_DIR@ + name + CONFIG_FILE@
}

/// A host's token file.
pub open spec fn token_path_text(name: Seq<char>) -> Seq<char> {
    TOKEN_DIR@ + name + TOKEN_EXTENSION@
}


/// The host script fills in the signing command and names the directory
/// and the files it moves after the same name that the certificate is
/// signed with: the role's own name, different for each role.
pub proof fn law_host_script_names(role: HostRole)
    ensures
        host_script_text(role) == replace(
            replace(
                HOST_SCRIPT@,
                SIGN_MARK@,
                SIGN_PREFIX@ + role.name_text() + SIGN_MIDDLE@ + network_text(role.network())
                    + SIGN_SUFFIX@,
            ),
            NODE_MARK@,
            role.name_text(),
        ),
        role is Master ==> role.name_text() == "master"@,
        role is Node ==> role.name_text() == "node"@,
        role is API ==> role.name_text() == "api"@,
{
}

/// The three roles have different names, so their files never mix.
pub proof fn law_role_names_differ(r1: HostRole, r2: HostRole)
    requires
        !(r1 is Master && r2 is Master),
        !(r1 is Node && r2 is Node),
        !(r1 is API && r2 is API),
    ensures
        r1.name_text() != r2.name_text(),
{
    reveal_strlit("master");
    reveal_strlit("node");
    reveal_strlit("api");
    if r1.name_text().len() == r2.name_text().len() {
        assert(r1.name_text()[0] != r2.name_text()[0]);
    }
}

/// A member's configuration differs from the trimmed lighthouse
/// configuration only where the lighthouse switch is on or the lighthouse
/// port is set: a configuration that holds neither comes back as it is
/// (trimmed), so the lighthouse's address and port in the host map are kept.
pub proof fn law_peer_config_local(current: Seq<char>)
    requires
        !contains(trim(current), LIGHTHOUSE_ON@),
        !contains(trim(current), LIGHTHOUSE_PORT@),
    ensures
        peer_config_text(current) == trim(current),
{
    reveal_strlit("am_lighthouse: true");
    reveal_strlit("port: 4242");
    law_replace_absent(trim(current), LIGHTHOUSE_ON@, LIGHTHOUSE_OFF@);
    law_replace_absent(trim(current), LIGHTHOUSE_PORT@, ANY_PORT@);
}

/// The lighthouse's configuration differs from its template only where the
/// public address mark or the switched-off lighthouse switch occurs: a
/// template that holds neither comes back as it is.
pub proof fn law_master_config_local(template: Seq<char>, public_address: Seq<char>)
    requires
        !contains(template, PUBLIC_ADDRESS_MARK@),
        !contains(template, LIGHTHOUSE_OFF@),
    ensures
        master_config_text(template, public_address) == template,
{
    reveal_strlit("21.21.21.21");
    reveal_strlit("am_lighthouse: false");
    law_replace_absent(template, PUBLIC_ADDRESS_MARK@, public_address);
    law_replace_absent(template, LIGHTHOUSE_OFF@, LIGHTHOUSE_ON@);
}

/// The token file of a host is `/tmp/tmp-nebula/<name>.token`, the file the
/// token script writes for it: the name stands between the directory and
/// the extension, so different hosts have different token files.
pub proof fn law_token_path(name: Seq<char>, other: Seq<char>)
    ensures
        token_path_text(name).len() == 16 + name.len() as int + 6,
        token_path_text(name).subrange(0, 16) == "/tmp/tmp-nebula/"@,
        token_path_text(name).subrange(16, 16 + name.len() as int) == name,
        token_path_text(name).subrange(16 + name.len() as int, 22 + name.len() as int) == ".token"@,
        name != other ==> token_path_text(name) != token_path_text(other),
{
    reveal_strlit("/tmp/tmp-nebula/");
    reveal_strlit(".token");
    let p = token_path_text(name);
    assert(p.subrange(0, 16) =~= "/tmp/tmp-nebula/"@);
    assert(p.subrange(16, 16 + name.len() as int) =~= name);
    assert(p.subrange(16 + name.len() as int, 22 + name.len() as int) =~= ".token"@);
    if name != other && p == token_path_text(other) {
        assert(other.len() == name.len());
        assert(token_path_text(other).subrange(16, 16 + other.len() as int) =~= other);
    }
}

/// The configuration file of a host is `/etc/nebula/<name>/config.yml`: the
/// name stands between the directory and the file name, so different hosts
/// have different configuration files.
pub proof fn law_config_path(name: Seq<char>, other: Seq<char>)
    ensures
        config_path_text(name).len() == 12 + name.len() as int + 11,
        config_path_text(name).subrange(0, 12) == "/etc/nebula/"@,
        config_path_text(name).subrange(12, 12 + name.len() as int) == name,
        config_path_text(name).subrange(12 + name.len() as int, 23 + name.len() as int) == "/config.yml"@,
        name != other ==> config_path_text(name) != config_path_text(other),
{
    reveal_strlit("/etc/nebula/");
    reveal_strlit("/config.yml");
    let p = config_path_text(name);
    assert(p.subrange(0, 12) =~= "/etc/nebula/"@);
    assert(p.subrange(12, 12 + name.len() as int) =~= name);
    assert(p.subrange(12 + name.len() as int, 23 + name.len() as int) =~= "/config.yml"@);
    if name != other && p == config_path_text(other) {
        assert(config_path_text(other).len() == 23 + other.len());
        assert(p.len() == 23 + name.len());
        assert(other.len() == name.len());
        assert(config_path_text(other).subrange(12, 12 + other.len() as int) =~= other);
    }
}

fn concat3(a: &str, b: &str, c: &str) -> (r: String)
    ensures
        r@ == a@ + b@ + c@,
{
    let mut v = chars_of(a);
    let bv = chars_of(b);
    let cv = chars_of(c);
    push_all(&mut v, bv.as_slice());
    push_all(&mut v, cv.as_slice());
    string_from_chars(v.as_slice())
}

/// The command that signs the certificate of host `name` for `net`.
pub fn sign_command(name: &str, net: &IpNet) -> (r: String)
    requires
        net.wf(),
    ensures
        r@ == sign_command_text(name@, *net),
{
    let head = concat3(SIGN_PREFIX, name, SIGN_MIDDLE);
    let ip = net.to_text();
    concat3(head.as_str(), ip.as_str(), SIGN_SUFFIX)
}

/// The script that signs a host's certificate and gathers its files.
pub fn host_script(role: &HostRole) -> (r: String)
    requires
        role.network().wf(),
    ensures
        r@ == host_script_text(*role),
{
    let name = role.name();
    let net = match role {
        HostRole::Master(n, _) => n,
        HostRole::Node(n) => n,
        HostRole::API(n) => n,
    };
    let sign = sign_command(name, net);
    let s = replace_str(HOST_SCRIPT, SIGN_MARK, sign.as_str());
    replace_str(s.as_str(), NODE_MARK, name)
}

/// The lighthouse's configuration from its template.
pub fn master_config(template: &str, public_address: &str) -> (r: String)
    ensures
        r@ == master_config_text(template@, public_address@),
{
    let s = replace_str(template, PUBLIC_ADDRESS_MARK, public_address);
    replace_str(s.as_str(), LIGHTHOUSE_OFF, LIGHTHOUSE_ON)
}

/// Another host's configuration from the lighthouse's current one.
pub fn peer_config(current: &str) -> (r: String)
    ensures
        r@ == peer_config_text(current@),
{
    let t = trim_str(current);
    let s = replace_str(t.as_str(), LIGHTHOUSE_ON, LIGHTHOUSE_OFF);
    replace_str(s.as_str(), LIGHTHOUSE_PORT, ANY_PORT)
}

/// A host's configuration: from the template for the lighthouse, from the
/// lighthouse's current configuration for the others.
pub fn host_config(role: &HostRole, source: &str) -> (r: String)
    ensures
        r@ == host_config_text(*role, source@),
{
    match role {
        HostRole::Master(_, public_address) => master_config(source, public_address.as_str()),
        _ => peer_config(source),
    }
}

/// A host's configuration file.
pub fn config_path(name: &str) -> (r: String)
    ensures
        r@ == config_path_text(name@),
{
    concat3(MESH_DIR, name, CONFIG_FILE)
}

/// The script that packs host `name`'s files into its token file.
pub fn token_script(name: &str) -> (r: String)
    ensures
        r@ == replace(TOKEN_SCRIPT@, NODE_MARK@, name@),
{
    replace_str(TOKEN_SCRIPT, NODE_MARK, name)
}

/// Host `name`'s token file.
pub fn token_path(name: &str) -> (r: String)
    ensures
        r@ == token_path_text(name@),
{
    concat3(TOKEN_DIR, name, TOKEN_EXTENSION)
}

/// The script that unpacks a received bundle and starts the mesh service.
pub fn join_script(arg: &ARG) -> (r: String)
    ensures
        r@ == replace(JOIN_SCRIPT@, NODE_MARK@, arg@.name),
{
    replace_str(JOIN_SCRIPT, NODE_MARK, arg.name.as_str())
}

/// The bundle a joining host receives: the base64 text of its certificate
/// bundle, decoded; `None` when there is none or it is not base64. A bundle
/// that was packed as the base64 of an archive unpacks to that archive.
pub fn join_bundle(arg: &ARG) -> (r: Option<Vec<u8>>)
    requires
        arg.mesh_cfg matches Some(t) ==> encode_utf8(t@).len() + 3 <= usize::MAX,
    ensures
        match arg@.mesh_cfg {
            Some(t) => match base64_decoded(t) {
                Some(b) => r matches Some(v) && v@ == b,
                None => r is None,
            },
            None => r is None,
        },
        forall|bytes: Seq<u8>|
            arg@.mesh_cfg == Some(#[trigger] base64_encoded(bytes)) ==> (r matches Some(v) && v@
                == bytes),
{
    match &arg.mesh_cfg {
        Some(t) => base64_decode(t.as_str()),
        None => None,
    }
}

/// The join argument of a host whose files were packed into `bundle` (the
/// token file's text): `InitMeshFail` when packing failed.
pub fn generate_host(role: &HostRole, bundle: Result<String, ()>) -> (r: Result<ARG, Error>)
    ensures
        match bundle {
            Ok(b) => r matches Ok(a) && a@ == (ArgView {
                mesh_cfg: Some(b@),
                v_mesh_cfg: None,
                name: role.name_text(),
                join: None,
            }),
            Err(_) => r == Err::<ARG, Error>(Error::InitMeshFail),
        },
{
    match bundle {
        Ok(b) => {
            let name = chars_of(role.name());
            Ok(
                ARG {
                    mesh_cfg: Some(b),
                    v_mesh_cfg: None,
                    name: string_from_chars(name.as_slice()),
                    join: None,
                },
            )
        },
        Err(_) => Err(Error::InitMeshFail),
    }
}

/// The network of the lighthouse: 192.168.100.1/24.
pub fn master_network() -> (n: IpNet)
    ensures
        n == (IpNet { addr: IpAddress::V4(0xc0a8_6401), prefix: 24 }),
{
    IpNet { addr: IpAddress::V4(0xc0a8_6401), prefix: 24 }
}

/// The network of the cluster's API: 192.168.100.100/24.
pub fn api_network() -> (n: IpNet)
    ensures
        n == (IpNet { addr: IpAddress::V4(0xc0a8_6464), prefix: 24 }),
{
    IpNet { addr: IpAddress::V4(0xc0a8_6464), prefix: 24 }
}

/// The lighthouse's argument with its `v_mesh_cfg` taken from the API
/// host's argument. `generate_host` always leaves `v_mesh_cfg` empty, so the
/// lighthouse's argument ends up with none: the API host's own bundle
/// (its `mesh_cfg`) is not carried over.
pub fn init_arg(master: ARG, api: ARG) -> (r: ARG)
    ensures
        r@ == (ArgView { v_mesh_cfg: api@.v_mesh_cfg, ..master@ }),
{
    let mut m = master;
    m.v_mesh_cfg = api.v_mesh_cfg;
    m
}

/// The role of the next member of the mesh, from the address book's last
/// entry: the next address of the same network. `IPAMPersistenceFail` when
/// the address book could not be read.
pub fn create_join(loaded: Result<IpNet, ()>) -> (r: Result<HostRole, Error>)
    requires
        loaded matches Ok(n) ==> n.can_advance(),
    ensures
        match loaded {
            Ok(n) => r matches Ok(HostRole::Node(m)) && m == n.advanced() && m.wf(),
            Err(_) => r matches Err(e) && e == Error::IPAMPersistenceFail,
        },
{
    match loaded {
        Ok(n) => Ok(HostRole::Node(n.advance())),
        Err(_) => Err(Error::IPAMPersistenceFail),
    }
}

/// Resetting the mesh ignores whether `RESET_SCRIPT` succeeded.
pub fn reset() -> (r: Result<(), Error>)
    ensures
        r is Ok,
{
    Ok(())
}

/// The outcome of `CA_SCRIPT`: `InitMeshFail` when it failed.
pub fn generate_ca(ok: bool) -> (r: Result<(), Error>)
    ensures
        ok ==> r is Ok,
        !ok ==> r == Err::<(), Error>(Error::InitMeshFail),
{
    if ok {
        Ok(())
    } else {
        Err(Error::InitMeshFail)
    }
}

/// The outcome of joining the mesh: `JoinMeshFail` when it failed.
pub fn join_result(ok: bool) -> (r: Result<(), Error>)
    ensures
        ok ==> r is Ok,
        !ok ==> r == Err::<(), Error>(Error::JoinMeshFail),
{
    if ok {
        Ok(())
    } else {
        Err(Error::JoinMeshFail)
    }
}

} // verus!
