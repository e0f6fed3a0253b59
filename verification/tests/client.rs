use rport::client::{
    make_channel_label, take_answer, take_candidate, CliClient, Handshake, HandshakeAction,
    HandshakeEvent, IceReply, SIGNALING_RETRANSMITS, SIGNALING_RTO,
};
use rport::config::{parse_forward_spec, RportConfig};
use rport::dtls_signaling::{IceServerInfo, SignalingMessage};
use rport::peer::{new_id, trickle, PeerState, TrickleAction, TrickleEvent};
use rport::reliable::ReliableSession;

const SDP: &str = "v=0\r\no=- 0 0 IN IP4 127.0.0.1\r\ns=-\r\nt=0 0\r\n";
const CANDIDATE: &str = "candidate:1 1 udp 2130706431 127.0.0.1 5000 typ host";

fn session() -> ReliableSession {
    ReliableSession::new(SIGNALING_RTO, SIGNALING_RETRANSMITS)
}

fn answer(seq: Option<u64>) -> HandshakeEvent {
    HandshakeEvent::Received(SignalingMessage::Answer {
        session_id: "s".to_string(),
        answer_sdp: SDP.to_string(),
        seq,
        ack: None,
    })
}

fn end() -> HandshakeEvent {
    HandshakeEvent::Received(SignalingMessage::new_end_of_candidates("s".to_string()))
}

fn ack_of(m: &SignalingMessage) -> (u64, Option<u64>, Option<u64>) {
    match m {
        SignalingMessage::Ack { session_id, ack_seq, seq, ack } => {
            assert_eq!(session_id, "s");
            (*ack_seq, *seq, *ack)
        }
        other => panic!("Expected ack, got {:?}", other),
    }
}

#[test]
fn a_handshake_with_a_numbered_answer() {
    let mut r = session();
    let mut h = Handshake::new();
    match h.step(&mut r, "s", answer(Some(4)), 0) {
        HandshakeAction::Describe(d) => assert_eq!(d.session.name, "-"),
        _ => panic!("Expected a description"),
    }
    assert!(!h.answer_received);
    match h.step(&mut r, "s", HandshakeEvent::Described, 0) {
        HandshakeAction::Continue(Some(m)) => assert_eq!(ack_of(&m), (4, Some(1), Some(4))),
        _ => panic!("Expected an acknowledgement"),
    }
    assert!(h.answer_received);
    // The agent sends its answer again: it is not taken in twice.
    assert!(matches!(
        h.step(&mut r, "s", answer(Some(4)), 0),
        HandshakeAction::Continue(None)
    ));
    match h.step(&mut r, "s", end(), 0) {
        HandshakeAction::Finish(ms) => {
            assert_eq!(ms.len(), 1);
            assert_eq!(ack_of(&ms[0]), (4, Some(2), Some(4)));
        }
        _ => panic!("Expected the end"),
    }
}

#[test]
fn the_end_of_candidates_may_come_first() {
    let mut r = session();
    let mut h = Handshake::new();
    assert!(matches!(h.step(&mut r, "s", end(), 0), HandshakeAction::Continue(None)));
    assert!(h.received_end_of_candidates);
    assert!(matches!(h.step(&mut r, "s", answer(Some(2)), 0), HandshakeAction::Describe(_)));
    match h.step(&mut r, "s", HandshakeEvent::Described, 0) {
        HandshakeAction::Finish(ms) => {
            assert_eq!(ms.len(), 2);
            assert_eq!(ack_of(&ms[0]), (2, Some(1), Some(2)));
            assert_eq!(ack_of(&ms[1]), (2, Some(2), Some(2)));
        }
        _ => panic!("Expected the end"),
    }
}

#[test]
fn without_numbers_nothing_is_acknowledged() {
    let mut r = session();
    let mut h = Handshake::new();
    let _ = h.step(&mut r, "s", answer(None), 0);
    assert!(matches!(
        h.step(&mut r, "s", HandshakeEvent::Described, 0),
        HandshakeAction::Continue(None)
    ));
    match h.step(&mut r, "s", end(), 0) {
        HandshakeAction::Finish(ms) => assert!(ms.is_empty()),
        _ => panic!("Expected the end"),
    }
}

#[test]
fn a_refused_offer_fails_with_the_reason() {
    let mut r = session();
    let mut h = Handshake::new();
    let refusal = SignalingMessage::new_error("s".to_string(), "Access denied: h:1".to_string());
    match h.step(&mut r, "s", HandshakeEvent::Received(refusal), 0) {
        HandshakeAction::Fail { reason, close } => {
            assert_eq!(reason, "Agent rejected offer: Access denied: h:1");
            assert!(close);
        }
        _ => panic!("Expected a failure"),
    }
}

#[test]
fn an_answer_that_cannot_be_read_fails() {
    let mut r = session();
    let mut h = Handshake::new();
    let bad = SignalingMessage::new_answer("s".to_string(), "v=0\r\n".to_string());
    match h.step(&mut r, "s", HandshakeEvent::Received(bad), 0) {
        HandshakeAction::Fail { reason, close } => {
            assert_eq!(reason, "missing required line: o");
            assert!(!close);
        }
        _ => panic!("Expected a failure"),
    }
    match h.step(&mut r, "s", HandshakeEvent::NotDescribed("no".to_string()), 0) {
        HandshakeAction::Fail { reason, close } => {
            assert_eq!(reason, "no");
            assert!(!close);
        }
        _ => panic!("Expected a failure"),
    }
}

#[test]
fn candidates_are_handed_on_if_they_can_be_read() {
    let mut r = session();
    let mut h = Handshake::new();
    let good = SignalingMessage::new_candidate("s".to_string(), CANDIDATE.to_string());
    match h.step(&mut r, "s", HandshakeEvent::Received(good), 0) {
        HandshakeAction::AddCandidate(c) => {
            assert_eq!(c.foundation, "1");
            assert_eq!(c.priority, 2130706431);
            assert_eq!(c.address.to_string(), "127.0.0.1:5000");
        }
        _ => panic!("Expected a candidate"),
    }
    let bad = SignalingMessage::new_candidate("s".to_string(), "nonsense".to_string());
    assert!(matches!(
        h.step(&mut r, "s", HandshakeEvent::Received(bad), 0),
        HandshakeAction::Continue(None)
    ));
}

#[test]
fn results_of_the_syntax_are_carried_through() {
    match take_answer(Err("why".to_string())) {
        HandshakeAction::Fail { reason, close } => {
            assert_eq!(reason, "why");
            assert!(!close);
        }
        _ => panic!("Expected a failure"),
    }
    let d = rustrtc::SessionDescription::parse(rustrtc::SdpType::Answer, SDP).unwrap();
    assert!(matches!(take_answer(Ok(d)), HandshakeAction::Describe(_)));
    assert!(matches!(take_candidate(None), HandshakeAction::Continue(None)));
    let c = rustrtc::IceCandidate::from_sdp(CANDIDATE).unwrap();
    assert!(matches!(take_candidate(Some(c)), HandshakeAction::AddCandidate(_)));
}

#[test]
fn the_state_of_the_peer_connection_decides() {
    let mut r = session();
    let peer = |state: PeerState, reason: Option<&str>| HandshakeEvent::Peer {
        state,
        reason: reason.map(|t| t.to_string()),
    };
    for state in [PeerState::New, PeerState::Connecting, PeerState::Disconnected] {
        let mut h = Handshake::new();
        assert!(matches!(
            h.step(&mut r, "s", peer(state, None), 0),
            HandshakeAction::Continue(None)
        ));
    }
    let mut h = Handshake::new();
    assert!(matches!(
        h.step(&mut r, "s", peer(PeerState::Connected, None), 0),
        HandshakeAction::Finish(_)
    ));
    let fail = |a: HandshakeAction| match a {
        HandshakeAction::Fail { reason, close } => {
            assert!(!close);
            reason
        }
        _ => panic!("Expected a failure"),
    };
    let mut h = Handshake::new();
    assert_eq!(
        fail(h.step(&mut r, "s", peer(PeerState::Failed, Some("ice")), 0)),
        "WebRTC failed: ice"
    );
    assert_eq!(
        fail(h.step(&mut r, "s", peer(PeerState::Failed, None), 0)),
        "WebRTC failed: "
    );
    assert_eq!(
        fail(h.step(&mut r, "s", peer(PeerState::Closed, None), 0)),
        "WebRTC closed"
    );
}

#[test]
fn timeouts_of_a_handshake() {
    let mut r = session();
    let mut h = Handshake::new();
    assert!(matches!(
        h.step(&mut r, "s", HandshakeEvent::TimedOut, 0),
        HandshakeAction::Continue(None)
    ));
    h.answer_received = true;
    assert!(matches!(
        h.step(&mut r, "s", HandshakeEvent::TimedOut, 0),
        HandshakeAction::Finish(_)
    ));
    h.answer_received = false;
    h.received_end_of_candidates = true;
    match h.step(&mut r, "s", HandshakeEvent::TimedOut, 0) {
        HandshakeAction::Fail { reason, close } => {
            assert_eq!(reason, "Timeout waiting for answer from agent");
            assert!(!close);
        }
        _ => panic!("Expected a failure"),
    }
}

#[test]
fn a_lost_server_ends_the_handshake() {
    let mut r = session();
    let mut h = Handshake::new();
    assert!(matches!(
        h.step(&mut r, "s", HandshakeEvent::SignalingLost, 0),
        HandshakeAction::Finish(_)
    ));
    assert!(matches!(
        h.step(&mut r, "s", HandshakeEvent::Received(SignalingMessage::Pong), 0),
        HandshakeAction::Continue(None)
    ));
}

#[test]
fn an_acknowledged_answer_is_not_sent_again() {
    let mut agent = session();
    let mut client = session();
    let mut msg = SignalingMessage::new_answer("s".to_string(), SDP.to_string());
    agent.prepare_send_at(&mut msg, true, 0);
    let mut h = Handshake::new();
    let _ = h.step(&mut client, "s", HandshakeEvent::Received(msg), 0);
    match h.step(&mut client, "s", HandshakeEvent::Described, 0) {
        HandshakeAction::Continue(Some(ack)) => {
            let _ = agent.process_recv(&ack);
        }
        _ => panic!("Expected an acknowledgement"),
    }
    assert!(!agent.has_pending());
    assert!(agent.due_retransmits(SIGNALING_RTO * 10).is_empty());
}

#[test]
fn the_reply_for_ice_servers() {
    let servers = CliClient::servers_from_reply(IceReply::Received(SignalingMessage::IceServers {
        ice_servers: vec![IceServerInfo {
            urls: vec!["turn:x".to_string()],
            username: Some("u".to_string()),
            credential: Some("c".to_string()),
        }],
    }))
    .unwrap();
    assert_eq!(servers.len(), 1);
    assert_eq!(servers[0].urls, vec!["turn:x".to_string()]);
    assert_eq!(servers[0].username, Some("u".to_string()));
    assert_eq!(servers[0].credential, Some("c".to_string()));
    assert!(CliClient::servers_from_reply(IceReply::Received(SignalingMessage::Pong)).is_none());
    assert!(CliClient::servers_from_reply(IceReply::Failed).is_none());
    assert!(CliClient::servers_from_reply(IceReply::TimedOut).is_none());
}

fn client() -> CliClient {
    CliClient::new("srv:1", "tok", "agent", None, true, true, &RportConfig::default())
}

#[test]
fn a_client_makes_its_offer() {
    let c = client().clone();
    assert_eq!(c.server_url(), "srv:1");
    assert!(c.waits_for_candidates());
    assert!(c.webrtc_config().enable_upnp);
    assert_eq!(c.webrtc_config().ice_servers.len(), 0);
    match c.make_offer("s", Some("sdp".to_string()), "host", 22) {
        Ok(SignalingMessage::Offer { session_id, agent_id, offer_sdp, targets, seq, ack }) => {
            assert_eq!(session_id, "s");
            assert_eq!(agent_id, "agent");
            assert_eq!(offer_sdp, "sdp");
            let targets = targets.unwrap();
            assert_eq!(targets.len(), 1);
            assert_eq!(targets[0].host, Some("host".to_string()));
            assert_eq!(targets[0].port, 22);
            assert_eq!(seq, None);
            assert_eq!(ack, None);
        }
        _ => panic!("Expected an offer"),
    }
    assert_eq!(
        c.make_offer("s", None, "host", 22).unwrap_err(),
        "Failed to get local description"
    );
}

#[test]
fn labels() {
    assert_eq!(make_channel_label("h", 22), "fwd:h:22");
    assert_eq!(CliClient::proxy_label("h", 65535), "proxy -> h:65535");
}

#[test]
fn listeners_for_forwards() {
    let forwards = vec![
        parse_forward_spec("8080:host:80").unwrap(),
        parse_forward_spec("22").unwrap(),
        parse_forward_spec("1:2").unwrap(),
    ];
    let (listeners, result) = CliClient::listeners(&forwards);
    assert_eq!(result, Err("Port forward requires local port in -L spec"));
    assert_eq!(listeners.len(), 1);
    assert_eq!(listeners[0].bind, "127.0.0.1:8080");
    assert_eq!(listeners[0].host, "host");
    assert_eq!(listeners[0].port, 80);
    assert_eq!(listeners[0].label, "localhost:8080 -> host:80");
    let (all, ok) = CliClient::listeners(&vec![parse_forward_spec("1:2").unwrap()]);
    assert_eq!(ok, Ok(()));
    assert_eq!(all.len(), 1);
}

#[test]
fn candidates_are_forwarded_as_they_come() {
    let mut r = session();
    match trickle("s", true, &mut r, TrickleEvent::Candidate("c1".to_string()), 0) {
        TrickleAction::Send(SignalingMessage::Candidate { session_id, candidate, seq, ack }) => {
            assert_eq!(session_id, "s");
            assert_eq!(candidate, "c1");
            assert_eq!(seq, Some(1));
            assert_eq!(ack, None);
        }
        _ => panic!("Expected a candidate"),
    }
    assert!(!r.has_pending());
    assert!(matches!(
        trickle("s", true, &mut r, TrickleEvent::Lagged, 0),
        TrickleAction::Wait
    ));
    assert!(matches!(
        trickle("s", true, &mut r, TrickleEvent::Gathering { complete: false }, 0),
        TrickleAction::Wait
    ));
    assert!(matches!(
        trickle("s", true, &mut r, TrickleEvent::Closed, 0),
        TrickleAction::Stop
    ));
    match trickle("s", true, &mut r, TrickleEvent::Gathering { complete: true }, 0) {
        TrickleAction::SendLast(SignalingMessage::EndOfCandidates { session_id, seq, .. }) => {
            assert_eq!(session_id, "s");
            assert_eq!(seq, Some(2));
        }
        _ => panic!("Expected the end of the candidates"),
    }
    assert!(r.has_pending());
    let mut untracked = session();
    let _ = trickle("s", false, &mut untracked, TrickleEvent::Gathering { complete: true }, 0);
    assert!(!untracked.has_pending());
}

#[test]
fn ids_are_random() {
    let a = new_id();
    let b = new_id();
    assert_ne!(a, b);
    assert_eq!(a.len(), 36);
    assert_eq!(a.chars().nth(14), Some('4'));
    assert_eq!(a.chars().filter(|c| *c == '-').count(), 4);
}

#[test]
fn lost_peers() {
    assert!(PeerState::Failed.is_lost());
    assert!(PeerState::Closed.is_lost());
    assert!(!PeerState::Disconnected.is_lost());
    assert!(!PeerState::Connected.is_lost());
}
