use nat_traversal::cli::{hole_punch_remote, listen_address, observer_address, peer_settings};

fn args(list: &[&str]) -> Vec<String> {
    list.iter().map(|s| s.to_string()).collect()
}

#[test]
fn peer_needs_id_and_room() {
    assert!(peer_settings(&args(&["peer"])).is_none());
    assert!(peer_settings(&args(&["peer", "murilo"])).is_none());
    let s = peer_settings(&args(&["peer", "murilo", "demonstracao"])).unwrap();
    assert_eq!(s.peer_id, "murilo");
    assert_eq!(s.room, "demonstracao");
    assert_eq!(s.rendezvous, "127.0.0.1:7777");
}

#[test]
fn peer_takes_rendezvous_from_third_argument() {
    let s = peer_settings(&args(&["peer", "anderson", "sala", "203.0.113.9:7777", "extra"])).unwrap();
    assert_eq!(s.rendezvous, "203.0.113.9:7777");
}

#[test]
fn hole_punch_takes_exactly_one_argument() {
    assert_eq!(hole_punch_remote(&args(&["hp", "203.0.113.9:50000"])), Ok("203.0.113.9:50000".to_string()));
    assert_eq!(hole_punch_remote(&args(&["hp"])), Err("hp".to_string()));
    assert_eq!(hole_punch_remote(&args(&["hp", "a", "b"])), Err("hp".to_string()));
    assert_eq!(hole_punch_remote(&args(&[])), Err("hole-punch".to_string()));
}

#[test]
fn default_addresses() {
    assert_eq!(listen_address(&args(&["rendezvous"])), "0.0.0.0:7777");
    assert_eq!(listen_address(&args(&["rendezvous", "0.0.0.0:9000"])), "0.0.0.0:9000");
    assert_eq!(observer_address(&args(&["client"])), "127.0.0.1:40000");
    assert_eq!(observer_address(&args(&["client", "198.51.100.1:40000"])), "198.51.100.1:40000");
}
