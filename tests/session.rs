use dcutr_chat::orchestrator::{LinkEvent, Mode};
use dcutr_chat::peer::PeerKey;
use dcutr_chat::session::{Action, Failure, Notice, Session, SessionEvent};

fn key(b: u8) -> PeerKey {
    PeerKey::new(vec![b, b, b])
}

fn bytes_of(p: &PeerKey) -> Vec<u8> {
    p.bytes.clone()
}

fn up(s: &mut Session, b: u8) {
    let acts = s.handle(SessionEvent::Link { peer: key(b), event: LinkEvent::CircuitUp });
    assert!(acts.is_empty());
}

#[test]
fn listen_mode_echoes_request() {
    let mut s = Session::new(Mode::Listen, None);
    up(&mut s, 1);
    let acts = s.handle(SessionEvent::Request { from: key(1), payload: b"hello".to_vec() });
    assert_eq!(acts.len(), 2);
    match &acts[0] {
        Action::ShowRequest { from, payload } => {
            assert_eq!(bytes_of(from), vec![1, 1, 1]);
            assert_eq!(payload, &b"hello".to_vec());
        }
        _ => panic!("expected the message shown"),
    }
    match &acts[1] {
        Action::Respond { to, payload } => {
            assert_eq!(bytes_of(to), vec![1, 1, 1]);
            assert_eq!(payload, &b"hello".to_vec());
        }
        _ => panic!("expected the echo"),
    }
    assert_eq!(s.remote.as_ref().map(bytes_of), Some(vec![1, 1, 1]));
    assert!(s.pending.is_empty());
}

#[test]
fn dial_mode_line_opens_one_exchange_and_shows_answer() {
    let mut s = Session::new(Mode::Dial, Some(key(9)));
    up(&mut s, 9);
    let acts = s.handle(SessionEvent::Line(b"hi".to_vec()));
    assert_eq!(acts.len(), 1);
    let id = match &acts[0] {
        Action::Send { exchange, to, payload } => {
            assert_eq!(bytes_of(to), vec![9, 9, 9]);
            assert_eq!(payload, &b"hi".to_vec());
            *exchange
        }
        _ => panic!("expected an exchange"),
    };
    assert_eq!(s.pending.len(), 1);
    let acts = s.handle(SessionEvent::Response { exchange: id, payload: b"hi".to_vec() });
    assert_eq!(acts.len(), 1);
    match &acts[0] {
        Action::ShowResponse { from, payload } => {
            assert_eq!(bytes_of(from), vec![9, 9, 9]);
            assert_eq!(payload, &b"hi".to_vec());
        }
        _ => panic!("expected the answer shown"),
    }
    assert!(s.pending.is_empty());
}

#[test]
fn exchanges_get_distinct_numbers() {
    let mut s = Session::new(Mode::Dial, Some(key(9)));
    up(&mut s, 9);
    let a = s.handle(SessionEvent::Line(b"a".to_vec()));
    let b = s.handle(SessionEvent::Line(b"b".to_vec()));
    match (&a[0], &b[0]) {
        (Action::Send { exchange: x, .. }, Action::Send { exchange: y, .. }) => assert_ne!(x, y),
        _ => panic!("expected two exchanges"),
    }
    assert_eq!(s.pending.len(), 2);
}

#[test]
fn line_without_peer_waits() {
    let mut s = Session::new(Mode::Listen, None);
    let acts = s.handle(SessionEvent::Line(b"early".to_vec()));
    assert_eq!(acts.len(), 1);
    assert!(matches!(acts[0], Action::Notify(Notice::WaitingForPeer)));
    assert!(s.pending.is_empty());
    assert!(s.remote.is_none());
}

#[test]
fn remote_is_bound_once() {
    let mut s = Session::new(Mode::Listen, None);
    s.handle(SessionEvent::Request { from: key(1), payload: b"a".to_vec() });
    let acts = s.handle(SessionEvent::Request { from: key(2), payload: b"b".to_vec() });
    assert_eq!(s.remote.as_ref().map(bytes_of), Some(vec![1, 1, 1]));
    match &acts[1] {
        Action::Respond { to, payload } => {
            assert_eq!(bytes_of(to), vec![2, 2, 2]);
            assert_eq!(payload, &b"b".to_vec());
        }
        _ => panic!("expected the echo to the sender"),
    }
}

#[test]
fn configured_remote_is_kept() {
    let mut s = Session::new(Mode::Dial, Some(key(9)));
    s.handle(SessionEvent::Request { from: key(1), payload: b"a".to_vec() });
    assert_eq!(s.remote.as_ref().map(bytes_of), Some(vec![9, 9, 9]));
}

#[test]
fn timeout_is_reported_once() {
    let mut s = Session::new(Mode::Dial, Some(key(9)));
    up(&mut s, 9);
    let acts = s.handle(SessionEvent::Line(b"hi".to_vec()));
    let id = match &acts[0] {
        Action::Send { exchange, .. } => *exchange,
        _ => panic!("expected an exchange"),
    };
    let acts = s.handle(SessionEvent::Failure { exchange: id, failure: Failure::Timeout });
    assert_eq!(acts.len(), 1);
    assert!(matches!(acts[0], Action::Notify(Notice::Timeout)));
    assert!(s.pending.is_empty());
    let acts = s.handle(SessionEvent::Failure { exchange: id, failure: Failure::Timeout });
    assert!(acts.is_empty());
    let acts = s.handle(SessionEvent::Response { exchange: id, payload: b"late".to_vec() });
    assert!(acts.is_empty());
}

#[test]
fn failure_kinds_become_notices() {
    let mut s = Session::new(Mode::Dial, Some(key(9)));
    up(&mut s, 9);
    s.handle(SessionEvent::Line(b"a".to_vec()));
    s.handle(SessionEvent::Line(b"b".to_vec()));
    let ids: Vec<u64> = s.pending.iter().map(|p| p.exchange).collect();
    let a = s.handle(SessionEvent::Failure { exchange: ids[0], failure: Failure::NoConnection });
    assert!(matches!(a[0], Action::Notify(Notice::NoConnection)));
    let b = s.handle(SessionEvent::Failure { exchange: ids[1], failure: Failure::Transport });
    assert!(matches!(b[0], Action::Notify(Notice::TransportFailure)));
}

#[test]
fn rejected_response_is_reported() {
    let mut s = Session::new(Mode::Listen, None);
    let acts = s.handle(SessionEvent::ResponseRejected);
    assert_eq!(acts.len(), 1);
    assert!(matches!(acts[0], Action::Notify(Notice::ExchangeAlreadyClosed)));
}

#[test]
fn lost_connection_then_no_connection() {
    let mut s = Session::new(Mode::Dial, Some(key(9)));
    up(&mut s, 9);
    let acts = s.handle(SessionEvent::Link { peer: key(9), event: LinkEvent::Lost });
    assert_eq!(acts.len(), 1);
    match &acts[0] {
        Action::Notify(Notice::Disconnected(p)) => assert_eq!(bytes_of(p), vec![9, 9, 9]),
        _ => panic!("expected a disconnect notice"),
    }
    let acts = s.handle(SessionEvent::Line(b"hi".to_vec()));
    assert_eq!(acts.len(), 1);
    assert!(matches!(acts[0], Action::Notify(Notice::NoConnection)));
    assert!(s.pending.is_empty());
    assert_eq!(s.remote.as_ref().map(bytes_of), Some(vec![9, 9, 9]));
    let acts = s.handle(SessionEvent::Link { peer: key(9), event: LinkEvent::Lost });
    assert!(acts.is_empty());
}

#[test]
fn send_before_circuit_has_no_connection() {
    let mut s = Session::new(Mode::Dial, Some(key(9)));
    let acts = s.handle(SessionEvent::Line(b"hi".to_vec()));
    assert!(matches!(acts[0], Action::Notify(Notice::NoConnection)));
}

#[test]
fn loss_of_other_peer_is_quiet() {
    let mut s = Session::new(Mode::Dial, Some(key(9)));
    up(&mut s, 9);
    up(&mut s, 3);
    let acts = s.handle(SessionEvent::Link { peer: key(3), event: LinkEvent::Lost });
    assert!(acts.is_empty());
    let acts = s.handle(SessionEvent::Line(b"hi".to_vec()));
    assert!(matches!(acts[0], Action::Send { .. }));
    assert_eq!(s.links.len(), 2);
}

#[test]
fn missed_heartbeats_disconnect_remote() {
    let mut s = Session::new(Mode::Dial, Some(key(9)));
    up(&mut s, 9);
    assert!(s.handle(SessionEvent::Link { peer: key(9), event: LinkEvent::PingTimeout }).is_empty());
    assert!(s.handle(SessionEvent::Link { peer: key(9), event: LinkEvent::PingTimeout }).is_empty());
    let acts = s.handle(SessionEvent::Link { peer: key(9), event: LinkEvent::PingTimeout });
    assert!(matches!(acts[0], Action::Notify(Notice::Disconnected(_))));
}
