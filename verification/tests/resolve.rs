use pxscan::net::{IpAddress, Ipv4Address, Ipv6Address, MacAddress, SetupError};
use pxscan::resolve::{get_interface, InterfaceInfo};

fn mac() -> MacAddress {
    MacAddress { m0: 2, m1: 0, m2: 0, m3: 0, m4: 0, m5: 1 }
}

fn iface(name: &str, ips: Vec<IpAddress>) -> InterfaceInfo {
    InterfaceInfo { name: String::from(name), mac: mac(), ips }
}

fn v4(o3: u8) -> IpAddress {
    IpAddress::V4(Ipv4Address { o0: 10, o1: 0, o2: 0, o3 })
}

fn v6() -> IpAddress {
    IpAddress::V6(Ipv6Address { hi: 0xFE80u64 << 48, lo: 1 })
}

#[test]
fn unknown_name_is_not_found() {
    let interfaces = vec![iface("eth0", vec![v4(1)])];
    let r = get_interface(&String::from("wlan0"), &interfaces);
    assert!(matches!(r, Err(SetupError::InterfaceNotFound)));
}

#[test]
fn interface_without_addresses_has_no_ipv4_address() {
    let interfaces = vec![iface("eth0", vec![])];
    let r = get_interface(&String::from("eth0"), &interfaces);
    assert!(matches!(r, Err(SetupError::NoIPv4Address)));
}

#[test]
fn only_ipv6_is_an_unsupported_family() {
    let interfaces = vec![iface("eth0", vec![v6(), v6()])];
    let r = get_interface(&String::from("eth0"), &interfaces);
    assert!(matches!(r, Err(SetupError::UnsupportedAddressFamily)));
}

#[test]
fn first_ipv4_wins_even_behind_ipv6() {
    let interfaces = vec![
        iface("lo", vec![v4(99)]),
        iface("eth0", vec![v6(), v4(7), v4(8)]),
    ];
    let r = get_interface(&String::from("eth0"), &interfaces).unwrap();
    assert_eq!(r.name, "eth0");
    assert_eq!(r.mac, mac());
    assert_eq!(IpAddress::V4(r.ip), v4(7));
}

#[test]
fn resolution_picks_the_named_interface() {
    let interfaces = vec![
        iface("eth0", vec![v4(1)]),
        iface("eth1", vec![v4(2)]),
    ];
    let r = get_interface(&String::from("eth1"), &interfaces).unwrap();
    assert_eq!(IpAddress::V4(r.ip), v4(2));
}
