use nat_traversal::endpoint::Endpoint;
use nat_traversal::session::{Event, Reaction, Report, Session};

const A: Endpoint = Endpoint::V4 { ip: 0x7f00_0001, port: 4000 };
const B: Endpoint = Endpoint::V4 { ip: 0xc633_6407, port: 62000 };
const STRANGER: Endpoint = Endpoint::V4 { ip: 0x0a00_0009, port: 1 };

fn datagram(payload: &[u8], from: Endpoint) -> Event {
    Event::Datagram { payload: payload.to_vec(), from }
}

fn line(text: &str) -> Event {
    Event::Line(Some(text.to_string()))
}

fn sends(r: &Reaction) -> Vec<(Vec<u8>, Endpoint)> {
    r.sends.iter().map(|d| (d.payload.clone(), d.to)).collect()
}

#[test]
fn punch_tick_sends_hello_to_every_candidate() {
    let mut s = Session::new(vec![A, B]);
    let r = s.step(Event::PunchTick);
    assert_eq!(sends(&r), vec![(b"HELLO".to_vec(), A), (b"HELLO".to_vec(), B)]);
    assert!(matches!(r.report, Report::Quiet));
    assert!(!r.finished);
    assert_eq!(s.endpoint(), None);
}

#[test]
fn hello_is_acked_and_opens_the_path() {
    let mut s = Session::new(vec![A, B]);
    let r = s.step(datagram(b"HELLO", B));
    assert_eq!(sends(&r), vec![(b"ACK".to_vec(), B)]);
    assert!(matches!(r.report, Report::Connected(e) if e == B));
    assert_eq!(s.endpoint(), Some(B));
}

#[test]
fn first_answer_wins_and_stays() {
    let mut s = Session::new(vec![A, B]);
    let r = s.step(datagram(b"ACK", A));
    assert!(matches!(r.report, Report::Connected(e) if e == A));
    let r = s.step(datagram(b"HELLO", B));
    assert_eq!(sends(&r), vec![(b"ACK".to_vec(), B)]);
    assert!(matches!(r.report, Report::Quiet));
    let r = s.step(datagram(b"ACK", B));
    assert!(matches!(r.report, Report::Quiet));
    assert_eq!(s.endpoint(), Some(A));
}

#[test]
fn punching_and_deadline_stop_once_connected() {
    let mut s = Session::new(vec![A, B]);
    s.step(datagram(b"ACK", B));
    let r = s.step(Event::PunchTick);
    assert!(r.sends.is_empty() && !r.finished && matches!(r.report, Report::Quiet));
    let r = s.step(Event::Deadline);
    assert!(r.sends.is_empty() && !r.finished && matches!(r.report, Report::Quiet));
}

#[test]
fn deadline_without_path_ends_the_session() {
    let mut s = Session::new(vec![A]);
    let r = s.step(Event::Deadline);
    assert!(r.sends.is_empty());
    assert!(r.finished);
    assert!(matches!(r.report, Report::NoAnswer));
}

#[test]
fn messages_only_from_the_endpoint() {
    let mut s = Session::new(vec![B]);
    let r = s.step(datagram(b"oi", B));
    assert!(matches!(r.report, Report::Quiet));
    s.step(datagram(b"HELLO", B));
    let r = s.step(datagram(b"oi", STRANGER));
    assert!(matches!(r.report, Report::Quiet));
    let r = s.step(datagram(b"oi", B));
    assert!(matches!(&r.report, Report::Message(m) if m == b"oi"));
    let r = s.step(datagram(b"BYE", STRANGER));
    assert!(!r.finished);
    let r = s.step(datagram(b"BYE", B));
    assert!(r.finished);
    assert!(matches!(r.report, Report::PeerLeft));
}

#[test]
fn lines_go_to_the_endpoint() {
    let mut s = Session::new(vec![B]);
    let r = s.step(line("tudo bem?"));
    assert!(r.sends.is_empty());
    assert!(matches!(r.report, Report::NoPathYet));
    s.step(datagram(b"ACK", B));
    let r = s.step(line(""));
    assert!(r.sends.is_empty() && matches!(r.report, Report::Quiet) && !r.finished);
    let r = s.step(line("olá"));
    assert_eq!(sends(&r), vec![("olá".as_bytes().to_vec(), B)]);
}

#[test]
fn quit_says_bye_to_the_endpoint() {
    let mut s = Session::new(vec![B]);
    s.step(datagram(b"HELLO", B));
    let r = s.step(line("/quit"));
    assert_eq!(sends(&r), vec![(b"BYE".to_vec(), B)]);
    assert!(r.finished);
    let mut s = Session::new(vec![B]);
    let r = s.step(Event::Line(None));
    assert!(r.sends.is_empty() && r.finished);
    let mut s = Session::new(vec![B]);
    s.step(datagram(b"ACK", B));
    let r = s.step(Event::Line(None));
    assert_eq!(sends(&r), vec![(b"BYE".to_vec(), B)]);
}
