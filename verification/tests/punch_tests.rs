use nat_traversal::endpoint::Endpoint;
use nat_traversal::punch::{hello_message, ProbeOutcome, PunchStep, Puncher, MAX_ATTEMPTS};

const REMOTE: Endpoint = Endpoint::V4 { ip: 0xcb00_7109, port: 50000 };
const OTHER: Endpoint = Endpoint::V4 { ip: 0xcb00_710a, port: 50001 };

#[test]
fn hello_messages_carry_the_attempt_number() {
    assert_eq!(hello_message(1), b"hello 1".to_vec());
    assert_eq!(hello_message(20), b"hello 20".to_vec());
    assert_eq!(hello_message(0), b"hello 0".to_vec());
    assert_eq!(hello_message(4_294_967_295), b"hello 4294967295".to_vec());
}

#[test]
fn first_probe_is_attempt_one_to_the_remote() {
    let p = Puncher::new(REMOTE);
    assert_eq!(p.attempt(), 1);
    let d = p.probe();
    assert_eq!(d.payload, b"hello 1".to_vec());
    assert_eq!(d.to, REMOTE);
}

#[test]
fn a_reply_is_answered_with_ack_at_its_source() {
    let p = Puncher::new(REMOTE);
    match p.on_outcome(ProbeOutcome::Reply { payload: b"hello 3".to_vec(), source: OTHER }) {
        PunchStep::Established { ack: Some(d) } => {
            assert_eq!(d.payload, b"ack".to_vec());
            assert_eq!(d.to, OTHER);
        }
        _ => panic!("expected an ack"),
    }
}

#[test]
fn an_ack_reply_is_not_answered() {
    let p = Puncher::new(REMOTE);
    assert!(matches!(
        p.on_outcome(ProbeOutcome::Reply { payload: b"ack".to_vec(), source: REMOTE }),
        PunchStep::Established { ack: None }
    ));
}

#[test]
fn twenty_unanswered_probes_then_give_up() {
    let mut p = Puncher::new(REMOTE);
    let mut sent = vec![p.probe().payload];
    loop {
        match p.on_outcome(ProbeOutcome::Silence) {
            PunchStep::Retry(next) => {
                p = next;
                assert_eq!(p.remote(), REMOTE);
                sent.push(p.probe().payload);
            }
            PunchStep::GaveUp => break,
            PunchStep::Established { .. } => panic!("silence cannot establish"),
        }
    }
    assert_eq!(sent.len(), MAX_ATTEMPTS as usize);
    assert_eq!(sent.len(), 20);
    for (i, payload) in sent.iter().enumerate() {
        assert_eq!(*payload, format!("hello {}", i + 1).into_bytes());
    }
}
