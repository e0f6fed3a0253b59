use rport::dtls_signaling::{
    accept_step, channel_closed_message, connect_step, unresolved_message, DtlsProgress,
    SignalingMessage,
};
use rport::reliable::{ReliableSession, MAX_NANOS};

fn answer() -> SignalingMessage {
    SignalingMessage::new_answer("s".to_string(), "sdp".to_string())
}

fn numbers(msg: &SignalingMessage) -> (Option<u64>, Option<u64>) {
    match msg {
        SignalingMessage::Offer { seq, ack, .. } => (*seq, *ack),
        SignalingMessage::Answer { seq, ack, .. } => (*seq, *ack),
        SignalingMessage::Candidate { seq, ack, .. } => (*seq, *ack),
        SignalingMessage::EndOfCandidates { seq, ack, .. } => (*seq, *ack),
        SignalingMessage::Error { seq, ack, .. } => (*seq, *ack),
        SignalingMessage::Ack { seq, ack, .. } => (*seq, *ack),
        _ => (None, None),
    }
}

#[test]
fn numbers_start_at_one_and_have_no_gaps() {
    let mut s = ReliableSession::new(100, 3);
    for expected in 1..5u64 {
        let mut m = answer();
        s.prepare_send(&mut m, expected % 2 == 0);
        assert_eq!(numbers(&m), (Some(expected), None));
    }
}

#[test]
fn every_kind_that_can_is_numbered() {
    let mut s = ReliableSession::new(100, 3);
    let _ = s.process_recv(&SignalingMessage::Candidate {
        session_id: "s".to_string(),
        candidate: "c".to_string(),
        seq: Some(41),
        ack: None,
    });
    let mut messages = vec![
        SignalingMessage::new_offer("s".into(), "a".into(), "o".into(), None),
        SignalingMessage::new_answer("s".into(), "o".into()),
        SignalingMessage::new_candidate("s".into(), "c".into()),
        SignalingMessage::new_end_of_candidates("s".into()),
        SignalingMessage::new_error("s".into(), "r".into()),
        SignalingMessage::new_ack("s".into(), 7),
    ];
    for (i, m) in messages.iter_mut().enumerate() {
        s.prepare_send(m, false);
        assert_eq!(numbers(m), (Some(i as u64 + 1), Some(41)));
    }
    let mut ping = SignalingMessage::Ping;
    s.prepare_send(&mut ping, false);
    assert!(matches!(ping, SignalingMessage::Ping));
    assert!(!s.has_pending());
}

#[test]
fn receiving_gives_the_number_to_acknowledge() {
    let mut s = ReliableSession::new(100, 3);
    assert!(!s.is_peer_reliable());
    assert_eq!(s.process_recv(&answer()), None);
    assert!(!s.is_peer_reliable());
    assert_eq!(s.last_recv_seq(), None);
    let numbered = SignalingMessage::Answer {
        session_id: "s".to_string(),
        answer_sdp: "x".to_string(),
        seq: Some(9),
        ack: None,
    };
    assert_eq!(s.process_recv(&numbered), Some(9));
    assert!(s.is_peer_reliable());
    assert_eq!(s.last_recv_seq(), Some(9));
    // The number of an acknowledgement itself does not count.
    let ack = SignalingMessage::Ack {
        session_id: "s".to_string(),
        ack_seq: 0,
        seq: Some(50),
        ack: Some(60),
    };
    assert_eq!(s.process_recv(&ack), None);
    assert_eq!(s.last_recv_seq(), Some(9));
}

#[test]
fn an_acknowledgement_settles_all_up_to_its_number() {
    let mut s = ReliableSession::new(100, 3);
    for _ in 0..3 {
        s.prepare_send_at(&mut answer(), true, 0);
    }
    let _ = s.process_recv(&SignalingMessage::new_ack("s".to_string(), 2));
    let due = s.due_retransmits(100);
    assert_eq!(due.len(), 1);
    assert_eq!(due[0].seq, 3);
}

#[test]
fn an_acknowledgement_rides_on_other_messages() {
    let mut s = ReliableSession::new(100, 3);
    s.prepare_send_at(&mut answer(), true, 0);
    assert!(s.has_pending());
    let _ = s.process_recv(&SignalingMessage::EndOfCandidates {
        session_id: "s".to_string(),
        seq: None,
        ack: Some(1),
    });
    assert!(!s.has_pending());
}

#[test]
fn a_message_is_due_when_its_time_has_passed() {
    let mut s = ReliableSession::new(100, 3);
    s.prepare_send_at(&mut answer(), true, 50);
    assert!(s.due_retransmits(149).is_empty());
    assert!(s.has_pending());
    let due = s.due_retransmits(150);
    assert_eq!(due.len(), 1);
    assert_eq!(due[0].retransmit_count, 1);
    assert_eq!(due[0].deadline, 250);
    assert_eq!(numbers(&due[0].msg), (Some(1), None));
    assert!(!s.has_pending());
    assert!(s.due_retransmits(MAX_NANOS).is_empty());
}

#[test]
fn without_retransmissions_the_session_is_exhausted() {
    let mut s = ReliableSession::new(100, 0);
    s.prepare_send_at(&mut answer(), true, 0);
    assert!(!s.is_exhausted());
    assert!(s.due_retransmits(100).is_empty());
    assert!(s.is_exhausted());
    assert!(s.has_pending());
    assert!(s.due_retransmits(200).is_empty());
}

#[test]
fn a_session_can_be_given_up() {
    let mut s = ReliableSession::new(100, 3);
    s.prepare_send_at(&mut answer(), true, 0);
    s.mark_exhausted();
    assert!(s.is_exhausted());
    assert!(s.due_retransmits(1000).is_empty());
    assert!(s.has_pending());
}

#[test]
fn the_clock_runs_forward() {
    let mut s = ReliableSession::new(0, 3);
    let a = s.now();
    let b = s.now();
    assert!(a <= b);
    s.prepare_send(&mut answer(), true);
    let later = s.now();
    assert_eq!(s.due_retransmits(later).len(), 1);
}

#[test]
fn numbers_can_run_out() {
    let s = ReliableSession::new(0, 3);
    assert!(s.can_send(1));
    assert!(s.can_send(u64::MAX - 1));
    assert!(!s.can_send(u64::MAX));
}

#[test]
fn a_handshake_over_dtls() {
    assert_eq!(connect_step("a:1", DtlsProgress::Pending), Ok(false));
    assert_eq!(connect_step("a:1", DtlsProgress::Connected), Ok(true));
    let failed = Err("DTLS handshake failed to a:1".to_string());
    assert_eq!(connect_step("a:1", DtlsProgress::Failed), failed);
    assert_eq!(connect_step("a:1", DtlsProgress::Unknown), failed);
    assert_eq!(accept_step(DtlsProgress::Connected), Some(true));
    assert_eq!(accept_step(DtlsProgress::Pending), Some(false));
    assert_eq!(accept_step(DtlsProgress::Failed), Some(false));
    assert_eq!(accept_step(DtlsProgress::Unknown), None);
    assert_eq!(unresolved_message("a:1"), "Could not resolve DTLS address 'a:1'");
    assert_eq!(channel_closed_message(), "DTLS channel closed");
}

#[test]
fn copies_of_messages_say_the_same() {
    let m = SignalingMessage::new_offer(
        "s".into(),
        "a".into(),
        "o".into(),
        Some(vec![rport::dtls_signaling::Target { host: None, port: 22 }]),
    );
    assert_eq!(format!("{:?}", m.clone()), format!("{:?}", m));
    let i = SignalingMessage::IceServers {
        ice_servers: vec![rport::dtls_signaling::IceServerInfo {
            urls: vec!["u".to_string()],
            username: None,
            credential: Some("c".to_string()),
        }],
    };
    assert_eq!(format!("{:?}", i.clone()), format!("{:?}", i));
}

#[test]
fn a_reply_settles_what_came_before() {
    for by_ack in [false, true] {
        let mut sender = ReliableSession::new(100, 3);
        let mut peer = ReliableSession::new(100, 3);
        let mut first = answer();
        sender.prepare_send_at(&mut first, true, 0);
        let mut second = answer();
        sender.prepare_send_at(&mut second, true, 0);
        assert!(sender.has_pending());
        assert_eq!(peer.process_recv(&second), Some(2));
        assert!(peer.is_peer_reliable());
        let mut reply = if by_ack {
            SignalingMessage::new_ack("s".to_string(), 2)
        } else {
            SignalingMessage::new_candidate("s".to_string(), "c".to_string())
        };
        peer.prepare_send_at(&mut reply, false, 0);
        assert_eq!(numbers(&reply), (Some(1), Some(2)));
        let _ = sender.process_recv(&reply);
        assert!(!sender.has_pending());
    }
}
