use relay::codec::decode_message;
use relay::codec::render_snapshot;
use relay::history::History;
use relay::session::SessionEvent;
use relay::session::SessionStatus;
use relay::session::{handle_message, session_step};

#[test]
fn empty_history_renders_single_newline() {
    let h = History::new();
    assert_eq!(h.len(), 0);
    let snap = h.snapshot();
    assert_eq!(render_snapshot(&snap), "\n");
}

#[test]
fn first_message_echoed_with_newline() {
    let mut h = History::new();
    let (status, response) = session_step(&mut h, SessionEvent::Data(b"hello".to_vec()));
    assert!(matches!(status, SessionStatus::Open));
    assert_eq!(response.unwrap(), "hello\n");
    assert_eq!(h.len(), 1);
}

#[test]
fn history_accumulates_in_order() {
    let mut h = History::new();
    let (_, r1) = session_step(&mut h, SessionEvent::Data(b"hello".to_vec()));
    assert_eq!(r1.unwrap(), "hello\n");
    let (_, r2) = session_step(&mut h, SessionEvent::Data(b"world".to_vec()));
    assert_eq!(r2.unwrap(), "hello\nworld\n");
    let (_, r3) = session_step(&mut h, SessionEvent::Data(b"again".to_vec()));
    assert_eq!(r3.unwrap(), "hello\nworld\nagain\n");
}

#[test]
fn fifteen_clients_each_see_own_message() {
    let mut h = History::new();
    let messages: Vec<String> = (0..15).map(|i| format!("greeting-{}", i)).collect();
    for m in &messages {
        let (status, response) = session_step(&mut h, SessionEvent::Data(m.as_bytes().to_vec()));
        assert!(matches!(status, SessionStatus::Open));
        let response = response.unwrap();
        assert!(response.contains(m));
    }
    let snap = h.snapshot();
    assert_eq!(snap.len(), 15);
    for m in &messages {
        assert_eq!(snap.iter().filter(|s| *s == m).count(), 1);
    }
}

#[test]
fn peer_close_appends_nothing() {
    let mut h = History::new();
    session_step(&mut h, SessionEvent::Data(b"only".to_vec()));
    let (status, response) = session_step(&mut h, SessionEvent::PeerClosed);
    assert!(matches!(status, SessionStatus::ClosedByPeer));
    assert!(response.is_none());
    assert_eq!(h.len(), 1);
}

#[test]
fn immediate_close_leaves_history_empty() {
    let mut h = History::new();
    let (status, response) = session_step(&mut h, SessionEvent::PeerClosed);
    assert!(matches!(status, SessionStatus::ClosedByPeer));
    assert!(response.is_none());
    assert_eq!(h.len(), 0);
}

#[test]
fn read_error_closes_session() {
    let mut h = History::new();
    let (status, response) = session_step(&mut h, SessionEvent::ReadFailed);
    assert!(matches!(status, SessionStatus::ClosedByError));
    assert!(response.is_none());
    assert_eq!(h.len(), 0);
}

#[test]
fn write_error_closes_session() {
    let mut h = History::new();
    session_step(&mut h, SessionEvent::Data(b"sent".to_vec()));
    let (status, response) = session_step(&mut h, SessionEvent::WriteFailed);
    assert!(matches!(status, SessionStatus::ClosedByError));
    assert!(response.is_none());
    assert_eq!(h.len(), 1);
}

#[test]
fn surrounding_whitespace_is_trimmed() {
    let mut h = History::new();
    let (_, response) = session_step(&mut h, SessionEvent::Data(b"  hi \n".to_vec()));
    assert_eq!(response.unwrap(), "hi\n");
}

#[test]
fn decode_message_trims_but_keeps_interior() {
    assert_eq!(decode_message(&b" a b ".to_vec()), "a b");
    assert_eq!(decode_message(&b"plain".to_vec()), "plain");
    assert_eq!(decode_message(&Vec::new()), "");
}

#[test]
fn invalid_utf8_is_replaced_not_rejected() {
    let mut h = History::new();
    let (status, response) = session_step(&mut h, SessionEvent::Data(vec![0xff, 0xfe]));
    assert!(matches!(status, SessionStatus::Open));
    assert_eq!(response.unwrap(), "\u{fffd}\u{fffd}\n");
    assert_eq!(h.len(), 1);
}

#[test]
fn empty_after_trim_is_still_appended() {
    let mut h = History::new();
    let (_, response) = session_step(&mut h, SessionEvent::Data(b"   ".to_vec()));
    assert_eq!(response.unwrap(), "\n");
    assert_eq!(h.len(), 1);
    let snap = h.snapshot();
    assert_eq!(snap[0], "");
}

#[test]
fn snapshot_read_is_idempotent() {
    let mut h = History::new();
    session_step(&mut h, SessionEvent::Data(b"one".to_vec()));
    session_step(&mut h, SessionEvent::Data(b"two".to_vec()));
    let first = h.snapshot();
    let second = h.snapshot();
    let third = h.snapshot();
    assert_eq!(first, second);
    assert_eq!(second, third);
    assert_eq!(render_snapshot(&first), render_snapshot(&third));
}

#[test]
fn snapshot_entries_recovered_exactly() {
    let mut h = History::new();
    let sent = ["alpha", "beta", "gamma delta", "epsilon"];
    let mut last = String::new();
    for m in &sent {
        let (_, response) = session_step(&mut h, SessionEvent::Data(m.as_bytes().to_vec()));
        last = response.unwrap();
    }
    let recovered: Vec<&str> = last.strip_suffix('\n').unwrap().split('\n').collect();
    assert_eq!(recovered, sent);
}

#[test]
fn message_sent_once_appears_once() {
    let mut h = History::new();
    session_step(&mut h, SessionEvent::Data(b"unique".to_vec()));
    for i in 0..5 {
        let other = format!("other-{}", i);
        let (_, response) = session_step(&mut h, SessionEvent::Data(other.as_bytes().to_vec()));
        let response = response.unwrap();
        assert_eq!(response.matches("unique").count(), 1);
    }
    let snap = h.snapshot();
    assert_eq!(snap.iter().filter(|s| *s == "unique").count(), 1);
}

#[test]
fn handle_message_appends_and_answers_whole_history() {
    let mut h = History::new();
    let r1 = handle_message(&mut h, &b"first".to_vec());
    assert_eq!(r1, "first\n");
    let r2 = handle_message(&mut h, &b"second".to_vec());
    assert_eq!(r2, "first\nsecond\n");
    assert_eq!(h.len(), 2);
}

#[test]
fn render_joins_with_newlines_and_trailing_newline() {
    let snap = vec!["a".to_string(), "b".to_string(), "c".to_string()];
    assert_eq!(render_snapshot(&snap), "a\nb\nc\n");
    let one = vec!["solo".to_string()];
    assert_eq!(render_snapshot(&one), "solo\n");
}
