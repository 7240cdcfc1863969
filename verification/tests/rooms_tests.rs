use nat_traversal::endpoint::Endpoint;
use nat_traversal::registration::Registration;
use nat_traversal::rooms::{Arrival, Rooms};

fn reg(room: &str, peer: &str, port: u16) -> Registration {
    Registration {
        room: room.to_string(),
        peer_id: peer.to_string(),
        candidates: vec![Endpoint::V4 { ip: 0x7f00_0001, port }],
    }
}

#[test]
fn two_peers_meet_in_a_room() {
    let mut rooms: Rooms<u32> = Rooms::new();
    let murilo = reg("demonstracao", "murilo", 1);
    let anderson = reg("demonstracao", "anderson", 2);
    assert!(matches!(rooms.arrive(&murilo, 10), Arrival::Waiting));
    match rooms.arrive(&anderson, 20) {
        Arrival::Paired { first, notify } => {
            assert_eq!(first.peer_id, "murilo");
            assert_eq!(first.room, "demonstracao");
            assert_eq!(first.candidates, murilo.candidates);
            assert_eq!(notify, 10);
        }
        _ => panic!("expected a pairing"),
    }
    // The room is free again: a third peer waits.
    assert!(matches!(rooms.arrive(&reg("demonstracao", "carla", 3), 30), Arrival::Waiting));
}

#[test]
fn repeated_id_is_refused() {
    let mut rooms: Rooms<u32> = Rooms::new();
    assert!(matches!(rooms.arrive(&reg("sala", "murilo", 1), 1), Arrival::Waiting));
    assert!(matches!(rooms.arrive(&reg("sala", "murilo", 2), 2), Arrival::DuplicateId));
    match rooms.arrive(&reg("sala", "anderson", 3), 3) {
        Arrival::Paired { first, notify } => {
            assert_eq!(first.candidates[0], Endpoint::V4 { ip: 0x7f00_0001, port: 1 });
            assert_eq!(notify, 1);
        }
        _ => panic!("the first peer should still wait"),
    }
}

#[test]
fn rooms_are_separate() {
    let mut rooms: Rooms<u32> = Rooms::new();
    assert!(matches!(rooms.arrive(&reg("a", "x", 1), 1), Arrival::Waiting));
    assert!(matches!(rooms.arrive(&reg("b", "y", 2), 2), Arrival::Waiting));
    match rooms.arrive(&reg("b", "z", 3), 3) {
        Arrival::Paired { first, .. } => assert_eq!(first.peer_id, "y"),
        _ => panic!("expected a pairing in room b"),
    }
    match rooms.arrive(&reg("a", "w", 4), 4) {
        Arrival::Paired { first, .. } => assert_eq!(first.peer_id, "x"),
        _ => panic!("expected a pairing in room a"),
    }
}

#[test]
fn leaving_frees_the_room() {
    let mut rooms: Rooms<u32> = Rooms::new();
    assert!(matches!(rooms.arrive(&reg("sala", "murilo", 1), 1), Arrival::Waiting));
    rooms.leave(&"sala".to_string());
    assert!(matches!(rooms.arrive(&reg("sala", "anderson", 2), 2), Arrival::Waiting));
    rooms.leave(&"vazia".to_string());
    assert!(matches!(rooms.arrive(&reg("sala", "carla", 3), 3), Arrival::Paired { .. }));
}

#[test]
fn duplicate_registration_is_equal() {
    let r = reg("sala", "murilo", 7);
    let d = r.duplicate();
    assert_eq!(d.room, r.room);
    assert_eq!(d.peer_id, r.peer_id);
    assert_eq!(d.candidates, r.candidates);
}
