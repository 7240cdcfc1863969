use nat_traversal::candidates::{contains_endpoint, gather_candidates};
use nat_traversal::endpoint::{Endpoint, Ip};

const ROUTED: u32 = 0xc0a8_0105; // 192.168.1.5
const PUBLIC: u32 = 0xc633_6407; // 198.51.100.7

#[test]
fn candidates_list_loopback_routed_then_reflexive() {
    let reflexive = Endpoint::V4 { ip: PUBLIC, port: 62000 };
    let c = gather_candidates(50000, Some(Ip::V4(ROUTED)), reflexive);
    assert_eq!(
        c,
        vec![
            Endpoint::V4 { ip: 0x7f00_0001, port: 50000 },
            Endpoint::V4 { ip: ROUTED, port: 50000 },
            reflexive,
        ]
    );
}

#[test]
fn reflexive_equal_to_routed_is_not_repeated() {
    let reflexive = Endpoint::V4 { ip: ROUTED, port: 50000 };
    let c = gather_candidates(50000, Some(Ip::V4(ROUTED)), reflexive);
    assert_eq!(c.len(), 2);
    assert_eq!(c.iter().filter(|e| **e == reflexive).count(), 1);
}

#[test]
fn without_routed_address() {
    let reflexive = Endpoint::V4 { ip: PUBLIC, port: 1 };
    let c = gather_candidates(9, None, reflexive);
    assert_eq!(c, vec![Endpoint::V4 { ip: 0x7f00_0001, port: 9 }, reflexive]);
}

#[test]
fn routed_ipv6_candidate() {
    let reflexive = Endpoint::V4 { ip: PUBLIC, port: 1 };
    let c = gather_candidates(9, Some(Ip::V6(42)), reflexive);
    assert_eq!(c[1], Endpoint::V6 { ip: 42, port: 9, flowinfo: 0, scope_id: 0 });
    assert!(contains_endpoint(&c, reflexive));
    assert!(!contains_endpoint(&c, Endpoint::V4 { ip: PUBLIC, port: 2 }));
}
