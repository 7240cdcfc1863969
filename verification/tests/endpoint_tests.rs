use nat_traversal::endpoint::{first_ipv4, Endpoint, Ip, LOOPBACK_V4};

fn v6(ip: u128, port: u16) -> Endpoint {
    Endpoint::V6 { ip, port, flowinfo: 0, scope_id: 0 }
}

#[test]
fn first_ipv4_skips_ipv6_addresses() {
    let addrs = vec![v6(1, 3478), Endpoint::V4 { ip: 0x0a00_0001, port: 3478 }, Endpoint::V4 { ip: 0x0a00_0002, port: 3478 }];
    assert_eq!(first_ipv4(&addrs), Some(Endpoint::V4 { ip: 0x0a00_0001, port: 3478 }));
}

#[test]
fn first_ipv4_of_ipv6_only_list_is_none() {
    assert_eq!(first_ipv4(&vec![v6(1, 3478), v6(2, 3478)]), None);
    assert_eq!(first_ipv4(&vec![]), None);
}

#[test]
fn new_endpoint_has_no_flow_label_or_scope() {
    assert_eq!(Endpoint::new(Ip::V6(7), 80), v6(7, 80));
    assert_eq!(Endpoint::new(Ip::V4(0xc000_0201), 80), Endpoint::V4 { ip: 0xc000_0201, port: 80 });
}

#[test]
fn loopback_is_127_0_0_1() {
    assert_eq!(LOOPBACK_V4, (127u32 << 24) | 1);
    assert_eq!(Endpoint::loopback(5), Endpoint::V4 { ip: 0x7f00_0001, port: 5 });
    assert_eq!(Endpoint::loopback(5).port(), 5);
    assert!(Endpoint::loopback(5).is_ipv4());
    assert!(!v6(1, 2).is_ipv4());
}

#[test]
fn ipv6_endpoints_differ_by_scope() {
    let a = Endpoint::V6 { ip: 1, port: 2, flowinfo: 0, scope_id: 3 };
    let b = Endpoint::V6 { ip: 1, port: 2, flowinfo: 0, scope_id: 4 };
    assert_ne!(a, b);
}
