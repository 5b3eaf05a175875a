use fun8s_lite::net::{load_network, IpAddress, IpNet};
use fun8s_lite::mesh::{api_network, master_network};

fn v4(a: u32, prefix: u8) -> IpNet {
    IpNet { addr: IpAddress::V4(a), prefix }
}

#[test]
fn network_text_of_initial_networks() {
    assert_eq!(master_network().to_text(), "192.168.100.1/24");
    assert_eq!(api_network().to_text(), "192.168.100.100/24");
    assert_eq!(v4(0, 0).to_text(), "0.0.0.0/0");
    assert_eq!(v4(0xffff_ffff, 32).to_text(), "255.255.255.255/32");
}

#[test]
fn network_text_of_ipv6() {
    let n = IpNet { addr: IpAddress::V6(0x2001_0db8_0000_0000_0000_0000_0000_0001), prefix: 64 };
    assert_eq!(n.to_text(), "2001:db8::1/64");
}

#[test]
fn saved_network_loads_back() {
    let n = master_network();
    let text = n.to_text();
    assert_eq!(load_network(&text), Some(n));
    assert_eq!(load_network(&format!("{}\n", text)), Some(n));
    let m = v4(0x0a01_0920, 16);
    assert_eq!(load_network(&m.to_text()), Some(m));
}

#[test]
fn load_network_parses_ipv6_and_plain_address() {
    assert_eq!(
        load_network("2001:db8::1/64"),
        Some(IpNet { addr: IpAddress::V6(0x2001_0db8_0000_0000_0000_0000_0000_0001), prefix: 64 })
    );
    assert_eq!(load_network("10.0.0.7"), Some(v4(0x0a00_0007, 32)));
}

#[test]
fn load_network_refuses_bad_text() {
    assert_eq!(load_network("192.168.100.1/33"), None);
    assert_eq!(load_network("not an address"), None);
    assert_eq!(load_network(""), None);
}

#[test]
fn new_refuses_long_prefix() {
    assert_eq!(IpNet::new(IpAddress::V4(1), 33), None);
    assert_eq!(IpNet::new(IpAddress::V4(1), 32), Some(v4(1, 32)));
    assert_eq!(IpNet::new(IpAddress::V6(1), 129), None);
    assert!(IpNet::new(IpAddress::V6(1), 128).is_some());
}

#[test]
fn next_address_within_block() {
    let n = master_network();
    assert!(n.can_advance_exec());
    let m = n.advance();
    assert_eq!(m, v4(0xc0a8_6402, 24));
    assert_eq!(m.to_text(), "192.168.100.2/24");
}

#[test]
fn successive_addresses_are_distinct() {
    let mut n = master_network();
    let mut seen = vec![n.to_text()];
    for _ in 0..5 {
        n = n.advance();
        let t = n.to_text();
        assert!(!seen.contains(&t));
        seen.push(t);
    }
    assert_eq!(seen.last().unwrap(), "192.168.100.6/24");
}

#[test]
fn no_address_after_the_last_of_the_block() {
    assert!(!v4(0xc0a8_64ff, 24).can_advance_exec());
    assert!(v4(0xc0a8_64fe, 24).can_advance_exec());
    assert!(!v4(7, 32).can_advance_exec());
    assert!(!v4(0xffff_ffff, 1).can_advance_exec());
}

#[test]
fn ipv4_prefix_zero_cannot_be_walked() {
    assert!(!v4(5, 0).can_advance_exec());
}

#[test]
fn ipv6_blocks() {
    let whole = IpNet { addr: IpAddress::V6(5), prefix: 0 };
    assert!(whole.can_advance_exec());
    assert_eq!(whole.advance(), IpNet { addr: IpAddress::V6(6), prefix: 0 });
    let top = IpNet { addr: IpAddress::V6(u128::MAX), prefix: 0 };
    assert!(!top.can_advance_exec());
    let last = IpNet { addr: IpAddress::V6(0xffff), prefix: 112 };
    assert!(!last.can_advance_exec());
}

#[test]
fn saved_ipv6_network_loads_back() {
    let n = IpNet { addr: IpAddress::V6(0xfd00_0000_0000_0000_0000_0000_0000_0005), prefix: 120 };
    let text = n.to_text();
    assert_eq!(text, "fd00::5/120");
    assert_eq!(load_network(&text), Some(n));
    let m = IpNet { addr: IpAddress::V6(0xffff_0102_0304), prefix: 128 };
    assert_eq!(load_network(&m.to_text()), Some(m));
}
