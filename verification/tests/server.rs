use rport::acl::IpAddr;
use rport::server::certificate::{fingerprint, load_certificate, make_certificate, CertificateData};
use rport::server::dtls_handler::{
    client_loop_bridge, BridgeAction, BridgeEvent, BridgeOutcome, DtlsHandler, FirstAction,
    LoopAction, LoopEvent, SignalingMessage, Target,
};
use rport::server::handler::{
    make_agent_key, reply_to_submission, AppState, ConnectQuery, HttpReply, OfferMessage,
    OfferOutcome, OfferStart, ServerData, ServerMessage,
};
use rport::server::startup::{
    bind_host, bound_ip, get_first_non_loopback_interface, log_filter, shown_port, turn_address,
    Interface,
};
use rport::server::turn_server::{ListenAddr, TurnCredentials, TurnServer};

fn turn(disabled: bool, public_ip: Option<&str>) -> TurnServer {
    TurnServer::new(
        disabled,
        ListenAddr { text: "0.0.0.0:13478".to_string(), port: 13478 },
        public_ip.map(|t| t.to_string()),
    )
}

type State = AppState<u32, u32, u32>;

fn state() -> State {
    AppState::new_with_turn(turn(true, None))
}

fn query(token: &str, id: &str) -> ConnectQuery {
    ConnectQuery { token: token.to_string(), id: id.to_string() }
}

fn error_of(reply: &HttpReply) -> (u16, String) {
    match reply {
        HttpReply::Error { status, error } => {
            assert_eq!(reply.status(), *status);
            (*status, error.clone())
        }
        other => panic!("Expected an error, got {:?}", other),
    }
}

fn offer_for(id: &str) -> OfferMessage {
    OfferMessage { id: id.to_string(), offer: "sdp".to_string() }
}

#[test]
fn agents_connect_and_disconnect() {
    let mut s = state();
    assert_eq!(make_agent_key("t", "a"), "t:a");
    let (key, first) = s.connect_sse(query("t", "a"), 1, 0);
    assert_eq!(key, "t:a");
    assert_eq!(s.agent_sender("t:a"), Some(&1));
    let (_, second) = s.connect_sse(query("t", "a"), 2, 0);
    assert_ne!(first, second);
    // The old stream ends: the new connection stays.
    s.disconnect("t:a", &first);
    assert_eq!(s.agent_sender("t:a"), Some(&2));
    s.disconnect("t:a", &second);
    assert_eq!(s.agent_sender("t:a"), None);
    s.disconnect("t:a", &second);
}

#[test]
fn offers_are_refused_without_token_or_agent() {
    let mut s = state();
    match s.create_offer(None, offer_for("a"), "ip".to_string(), 9) {
        OfferStart::Refused(r) => assert_eq!(error_of(&r), (400, "token required".to_string())),
        _ => panic!("Expected a refusal"),
    }
    match s.create_offer(Some("t"), offer_for("a"), "ip".to_string(), 9) {
        OfferStart::Refused(r) => assert_eq!(error_of(&r), (404, "agent not found".to_string())),
        _ => panic!("Expected a refusal"),
    }
    let _ = s.connect_as(query("t", "a"), 1, 0, "c".to_string());
    match s.create_offer(Some("other"), offer_for("a"), "ip".to_string(), 9) {
        OfferStart::Refused(r) => assert_eq!(error_of(&r), (404, "agent not found".to_string())),
        _ => panic!("Expected a refusal"),
    }
}

#[test]
fn an_offer_is_answered_once() {
    let mut s = state();
    let _ = s.connect_as(query("t", "a"), 1, 0, "c".to_string());
    match s.create_offer_as("u".to_string(), Some("t"), offer_for("a"), "ip".to_string(), 9) {
        OfferStart::Notify { uuid, agent_key, message } => {
            assert_eq!(uuid, "u");
            assert_eq!(agent_key, "t:a");
            assert_eq!(message.message_type, "offer");
            match message.data {
                ServerData::Offer { uuid, offer, client_ip } => {
                    assert_eq!(uuid, "u");
                    assert_eq!(offer, "sdp");
                    assert_eq!(client_ip, "ip");
                }
                other => panic!("Expected an offer, got {:?}", other),
            }
        }
        _ => panic!("Expected a notice"),
    }
    assert_eq!(s.submit_answer("u"), Some(9));
    assert_eq!(s.submit_answer("u"), None);
    match s.settle_offer(
        "u".to_string(),
        "sdp".to_string(),
        OfferOutcome::Answered("ans".to_string()),
    ) {
        HttpReply::Answered { uuid, offer, answer } => {
            assert_eq!((uuid.as_str(), offer.as_str(), answer.as_str()), ("u", "sdp", "ans"));
        }
        other => panic!("Expected an answer, got {:?}", other),
    }
}

#[test]
fn offers_that_fail_leave_nothing_behind() {
    for (outcome, status, text) in [
        (OfferOutcome::NotSent, 500u16, "failed to send offer to agent"),
        (OfferOutcome::Dropped, 408, "answer timeout"),
        (OfferOutcome::TimedOut, 408, "answer timeout"),
    ] {
        let mut s = state();
        s.wait_for_answer("u".to_string(), "sdp".to_string(), "ip".to_string(), 9);
        let reply = s.settle_offer("u".to_string(), "sdp".to_string(), outcome);
        assert_eq!(error_of(&reply), (status, text.to_string()));
        assert_eq!(s.submit_answer("u"), None);
    }
}

#[test]
fn submissions_are_replied_to() {
    assert_eq!(reply_to_submission(Some(true)).status(), 200);
    assert!(matches!(reply_to_submission(Some(true)), HttpReply::Accepted));
    assert_eq!(
        error_of(&reply_to_submission(Some(false))),
        (500, "failed to send answer".to_string())
    );
    assert_eq!(
        error_of(&reply_to_submission(None)),
        (404, "offer not found".to_string())
    );
}

#[test]
fn an_agent_is_found_by_its_id() {
    let mut s = state();
    let _ = s.connect_as(query("t", "a"), 1, 0, "c".to_string());
    let _ = s.connect_as(query("t", "ba"), 2, 0, "c".to_string());
    assert_eq!(s.find_http_agent("a"), Some("t:a".to_string()));
    assert_eq!(s.find_http_agent("ba"), Some("t:ba".to_string()));
    assert_eq!(s.find_http_agent("b"), None);
    assert_eq!(s.find_http_agent("t:a"), None);
}

#[test]
fn candidates_wait_for_their_client() {
    let mut s = state();
    s.expect_candidates("u".to_string(), 5);
    assert_eq!(s.candidate_sender("u"), Some(&5));
    s.drop_candidates("u");
    assert_eq!(s.candidate_sender("u"), None);
}

fn register(id: &str) -> SignalingMessage {
    SignalingMessage::Register { token: "t".to_string(), id: id.to_string() }
}

fn client_offer(session_id: &str, agent_id: &str) -> SignalingMessage {
    SignalingMessage::Offer {
        session_id: session_id.to_string(),
        agent_id: agent_id.to_string(),
        offer_sdp: "sdp".to_string(),
        targets: Some(vec![Target { host: None, port: 22 }]),
    }
}

fn error_text(m: &SignalingMessage) -> (String, String) {
    match m {
        SignalingMessage::Error { session_id, reason } => (session_id.clone(), reason.clone()),
        other => panic!("Expected an error, got {:?}", other),
    }
}

#[test]
fn agents_register_over_dtls() {
    let mut h = DtlsHandler::new();
    let mut s = state();
    for expected in 1..3usize {
        match h.first_message(&mut s, 7, "ip", register("a"), 0, 0) {
            FirstAction::ServeAgent { id, count } => {
                assert_eq!(id, "a");
                assert_eq!(count, expected);
            }
            _ => panic!("Expected an agent"),
        }
    }
    assert_eq!(h.registrations("a"), 2);
    assert_eq!(h.registrations("b"), 0);
}

#[test]
fn an_offer_goes_to_its_agent() {
    let mut h = DtlsHandler::new();
    let mut s = state();
    let _ = h.first_message(&mut s, 7, "ip", register("a"), 0, 0);
    match h.first_message(&mut s, 8, "ip", client_offer("s1", "a"), 0, 0) {
        FirstAction::ForwardOffer { to, session_id, agent_id, msg } => {
            assert_eq!(to, 7);
            assert_eq!(session_id, "s1");
            assert_eq!(agent_id, "a");
            match msg {
                SignalingMessage::Offer { session_id, agent_id, offer_sdp, targets } => {
                    assert_eq!(session_id, "s1");
                    assert_eq!(agent_id, "a");
                    assert_eq!(offer_sdp, "sdp");
                    assert_eq!(targets.unwrap()[0].port, 22);
                }
                other => panic!("Expected an offer, got {:?}", other),
            }
        }
        _ => panic!("Expected an offer to forward"),
    }
    assert!(h.offer_forwarded("s1".to_string(), "a", true).is_none());

    // The answer and the candidates of the agent go back to the client.
    for msg in [
        SignalingMessage::Answer { session_id: "s1".to_string(), answer_sdp: "x".to_string() },
        SignalingMessage::Candidate { session_id: "s1".to_string(), candidate: "c".to_string() },
        SignalingMessage::EndOfCandidates { session_id: "s1".to_string() },
    ] {
        let text = format!("{:?}", msg);
        match h.agent_loop(7, LoopEvent::Received(msg)) {
            LoopAction::Send { to, msg } => {
                assert_eq!(to, 8);
                assert_eq!(format!("{:?}", msg), text);
            }
            _ => panic!("Expected a message"),
        }
    }
    let stray = SignalingMessage::EndOfCandidates { session_id: "s2".to_string() };
    assert!(matches!(h.agent_loop(7, LoopEvent::Received(stray)), LoopAction::Wait));

    // The candidates of the client go to the agent.
    for msg in [
        SignalingMessage::Candidate { session_id: "s1".to_string(), candidate: "c".to_string() },
        SignalingMessage::EndOfCandidates { session_id: "s1".to_string() },
    ] {
        let text = format!("{:?}", msg);
        match h.client_loop(8, "a", LoopEvent::Received(msg)) {
            LoopAction::Send { to, msg } => {
                assert_eq!(to, 7);
                assert_eq!(format!("{:?}", msg), text);
            }
            _ => panic!("Expected a message"),
        }
    }
    h.agent_ended("a");
    let after = SignalingMessage::EndOfCandidates { session_id: "s1".to_string() };
    assert!(matches!(h.client_loop(8, "a", LoopEvent::Received(after)), LoopAction::Wait));
    let answer = SignalingMessage::Answer {
        session_id: "s1".to_string(),
        answer_sdp: "x".to_string(),
    };
    assert!(matches!(h.agent_loop(7, LoopEvent::Received(answer)), LoopAction::Wait));
}

#[test]
fn an_agent_that_cannot_be_reached_is_reported() {
    let mut h = DtlsHandler::new();
    let mut s = state();
    let _ = h.first_message(&mut s, 7, "ip", register("a"), 0, 0);
    let _ = h.first_message(&mut s, 8, "ip", client_offer("s1", "a"), 0, 0);
    let m = h.offer_forwarded("s1".to_string(), "a", false).unwrap();
    assert_eq!(error_text(&m), ("s1".to_string(), "Agent 'a' unavailable".to_string()));
    let answer = SignalingMessage::EndOfCandidates { session_id: "s1".to_string() };
    assert!(matches!(h.agent_loop(7, LoopEvent::Received(answer)), LoopAction::Wait));
}

#[test]
fn an_agent_that_is_nowhere_is_reported() {
    let mut h = DtlsHandler::new();
    let mut s = state();
    match h.first_message(&mut s, 8, "ip", client_offer("s1", "a"), 0, 0) {
        FirstAction::Refuse(m) => {
            assert_eq!(error_text(&m), ("s1".to_string(), "Agent 'a' not found".to_string()));
        }
        _ => panic!("Expected a refusal"),
    }
}

#[test]
fn an_agent_over_http_is_bridged() {
    let mut h = DtlsHandler::new();
    let mut s = state();
    let _ = s.connect_as(query("t", "a"), 1, 0, "c".to_string());
    match h.first_message_as(
        &mut s,
        8,
        "ip",
        client_offer("s1", "a"),
        "u".to_string(),
        5,
        6,
    ) {
        FirstAction::Bridge { uuid, agent_key, session_id, agent_id, message } => {
            assert_eq!(uuid, "u");
            assert_eq!(agent_key, "t:a");
            assert_eq!(session_id, "s1");
            assert_eq!(agent_id, "a");
            match message.data {
                ServerData::Offer { uuid, offer, client_ip } => {
                    assert_eq!((uuid.as_str(), offer.as_str(), client_ip.as_str()), ("u", "sdp", "ip"));
                }
                other => panic!("Expected an offer, got {:?}", other),
            }
        }
        _ => panic!("Expected a bridge"),
    }
    assert_eq!(s.candidate_sender("u"), Some(&6));
    match h.bridge_answered(
        &mut s,
        "u",
        "s1".to_string(),
        "a",
        BridgeOutcome::Answered("ans".to_string()),
    ) {
        SignalingMessage::Answer { session_id, answer_sdp } => {
            assert_eq!(session_id, "s1");
            assert_eq!(answer_sdp, "ans");
        }
        other => panic!("Expected an answer, got {:?}", other),
    }
    assert_eq!(s.submit_answer("u"), Some(5));
    h.bridge_ended(&mut s, "u", "s1");
    assert_eq!(s.candidate_sender("u"), None);
}

#[test]
fn a_bridge_that_fails_leaves_nothing_behind() {
    for (outcome, text) in [
        (BridgeOutcome::NotSent, "Agent 'a' unavailable"),
        (BridgeOutcome::NoAnswer, "Agent 'a' answer timeout"),
    ] {
        let mut h = DtlsHandler::new();
        let mut s = state();
        let _ = s.connect_as(query("t", "a"), 1, 0, "c".to_string());
        let _ = h.first_message_as(&mut s, 8, "ip", client_offer("s1", "a"), "u".to_string(), 5, 6);
        let m = h.bridge_answered(&mut s, "u", "s1".to_string(), "a", outcome);
        assert_eq!(error_text(&m), ("s1".to_string(), text.to_string()));
        assert_eq!(s.submit_answer("u"), None);
        assert_eq!(s.candidate_sender("u"), None);
    }
}

#[test]
fn other_first_messages_are_dropped() {
    let mut h = DtlsHandler::new();
    let mut s = state();
    assert!(matches!(
        h.first_message(&mut s, 8, "ip", SignalingMessage::Ping, 0, 0),
        FirstAction::Drop
    ));
}

#[test]
fn pings_errors_and_ends() {
    let h = DtlsHandler::new();
    assert!(matches!(
        h.agent_loop(7, LoopEvent::Received(SignalingMessage::Ping)),
        LoopAction::Send { to: 7, msg: SignalingMessage::Pong }
    ));
    assert!(matches!(
        h.client_loop(8, "a", LoopEvent::Received(SignalingMessage::Ping)),
        LoopAction::Send { to: 8, msg: SignalingMessage::Pong }
    ));
    let error = || SignalingMessage::Error { session_id: "s".to_string(), reason: "r".to_string() };
    assert!(matches!(h.agent_loop(7, LoopEvent::Received(error())), LoopAction::Wait));
    assert!(matches!(
        h.client_loop(8, "a", LoopEvent::Received(error())),
        LoopAction::End
    ));
    assert!(matches!(
        h.agent_loop(7, LoopEvent::Received(SignalingMessage::Pong)),
        LoopAction::Wait
    ));
    for event in [LoopEvent::Failed, LoopEvent::TimedOut, LoopEvent::PingFailed] {
        assert!(matches!(h.agent_loop(7, event), LoopAction::End));
    }
    for event in [LoopEvent::Failed, LoopEvent::TimedOut] {
        assert!(matches!(h.client_loop(8, "a", event), LoopAction::End));
    }
}

#[test]
fn an_agent_takes_only_its_own_sessions_along() {
    let mut h = DtlsHandler::new();
    let mut s = state();
    let _ = h.first_message(&mut s, 1, "ip", register("a"), 0, 0);
    let _ = h.first_message(&mut s, 2, "ip", register("b"), 0, 0);
    let _ = h.first_message(&mut s, 3, "ip", client_offer("s1", "a"), 0, 0);
    let _ = h.first_message(&mut s, 4, "ip", client_offer("s2", "b"), 0, 0);
    let _ = h.first_message(&mut s, 5, "ip", client_offer("s3", "a"), 0, 0);
    h.agent_ended("a");
    let to = |sid: &str| {
        match h.agent_loop(
            2,
            LoopEvent::Received(SignalingMessage::EndOfCandidates { session_id: sid.to_string() }),
        ) {
            LoopAction::Send { to, .. } => Some(to),
            _ => None,
        }
    };
    assert_eq!(to("s1"), None);
    assert_eq!(to("s2"), Some(4));
    assert_eq!(to("s3"), None);
}

#[test]
fn a_bridge_passes_candidates_on() {
    let candidate = || SignalingMessage::Candidate {
        session_id: "s".to_string(),
        candidate: "c".to_string(),
    };
    match client_loop_bridge("s", true, BridgeEvent::Received(candidate())) {
        BridgeAction::ToAgent(m) => {
            assert_eq!(m.message_type, "candidate");
            assert!(matches!(m.data, ServerData::Candidate { .. }));
        }
        _ => panic!("Expected a message to the agent"),
    }
    assert!(matches!(
        client_loop_bridge("s", false, BridgeEvent::Received(candidate())),
        BridgeAction::Wait
    ));
    let end = SignalingMessage::EndOfCandidates { session_id: "s".to_string() };
    match client_loop_bridge("s", true, BridgeEvent::Received(end)) {
        BridgeAction::ToAgent(m) => assert_eq!(m.message_type, "end-of-candidates"),
        _ => panic!("Expected a message to the agent"),
    }
    match client_loop_bridge("s", true, BridgeEvent::Candidate("x".to_string())) {
        BridgeAction::ToClient(SignalingMessage::Candidate { session_id, candidate }) => {
            assert_eq!(session_id, "s");
            assert_eq!(candidate, "x");
        }
        _ => panic!("Expected a candidate"),
    }
    assert!(matches!(
        client_loop_bridge("s", true, BridgeEvent::Received(SignalingMessage::Ping)),
        BridgeAction::ToClient(SignalingMessage::Pong)
    ));
    assert!(matches!(
        client_loop_bridge("s", true, BridgeEvent::Received(SignalingMessage::Pong)),
        BridgeAction::Wait
    ));
    let error = SignalingMessage::Error { session_id: "s".to_string(), reason: "r".to_string() };
    assert!(matches!(
        client_loop_bridge("s", true, BridgeEvent::Received(error)),
        BridgeAction::End
    ));
    assert!(matches!(client_loop_bridge("s", true, BridgeEvent::Failed), BridgeAction::End));
    assert!(matches!(
        client_loop_bridge("s", true, BridgeEvent::CandidatesEnded),
        BridgeAction::End
    ));
}

#[test]
fn messages_to_agents_over_http() {
    let m = ServerMessage::new_offer("u".to_string(), "o".to_string(), "ip".to_string());
    assert_eq!(m.message_type, "offer");
}

#[test]
fn urls_of_the_turn_server() {
    let t = turn(false, Some("1.2.3.4"));
    assert_eq!(t.get_turn_url(), "turn:1.2.3.4:13478");
    assert_eq!(t.get_stun_url(), "stun:1.2.3.4:13478");
    let u = turn(false, None);
    assert_eq!(u.get_turn_url(), "turn:0.0.0.0:13478");
    assert_eq!(u.get_stun_url(), "stun:0.0.0.0:13478");
}

#[test]
fn credentials_are_valid_for_a_minute() {
    let t = turn(false, None);
    assert_eq!(t.auth_duration, 60);
    let before = std::time::SystemTime::now()
        .duration_since(std::time::UNIX_EPOCH)
        .unwrap()
        .as_secs();
    let c = t.generate_credentials().unwrap();
    let expires: u64 = c.username.parse().unwrap();
    assert!(expires >= before + 60 && expires <= before + 62);
    // A SHA-1 digest in base64.
    assert_eq!(c.password.len(), 28);
    assert_ne!(c.password, t.secret);
    assert!(turn(true, None).generate_credentials().is_none());
}

#[test]
fn credentials_are_asked_for_a_minute() {
    let t = turn(false, None);
    assert_eq!(t.credential_request(), Some((t.secret.clone(), 60)));
    assert_eq!(turn(true, None).credential_request(), None);
}

#[test]
fn credentials_are_handed_out_as_generated() {
    let generated = || Some(("1700000060".to_string(), "cGFzcw==".to_string()));
    let c = turn(false, None).issue_credentials(generated()).unwrap();
    assert_eq!(c.username, "1700000060");
    assert_eq!(c.password, "cGFzcw==");
    assert!(turn(false, None).issue_credentials(None).is_none());
    assert!(turn(true, None).issue_credentials(generated()).is_none());
    assert!(turn(true, None).issue_credentials(None).is_none());
}

#[test]
fn secrets_are_random_numbers() {
    let a = turn(false, None);
    let b = turn(false, None);
    assert_ne!(a.secret, b.secret);
    assert_eq!(a.secret.parse::<u64>().unwrap().to_string(), a.secret);
}

#[test]
fn what_turn_is_started_with() {
    assert!(turn(true, None).start_settings().is_none());
    let s = turn(false, None).start_settings().unwrap();
    assert_eq!(s.listen_addr, "0.0.0.0:13478");
    assert_eq!(s.relay_ip, "127.0.0.1");
    assert_eq!(s.realm, "rport.turn");
    assert_eq!(turn(false, Some("9.9.9.9")).start_settings().unwrap().relay_ip, "9.9.9.9");
}

#[test]
fn ice_servers_for_clients() {
    let t = turn(false, Some("1.2.3.4"));
    let alone = t.ice_servers(None);
    assert_eq!(alone.len(), 1);
    assert_eq!(alone[0].urls, vec!["stun:1.2.3.4:13478".to_string()]);
    assert_eq!(alone[0].username, None);
    let both = t.ice_servers(Some(TurnCredentials {
        username: "u".to_string(),
        password: "p".to_string(),
    }));
    assert_eq!(both.len(), 2);
    assert_eq!(both[1].urls, vec!["turn:1.2.3.4:13478".to_string()]);
    assert_eq!(both[1].username, Some("u".to_string()));
    assert_eq!(both[1].credential, Some("p".to_string()));
    assert_eq!(t.get_iceservers().len(), 2);
    assert_eq!(turn(true, None).get_iceservers().len(), 1);
    let s: State = AppState::new_with_turn(t);
    assert_eq!(s.turn_server().get_turn_url(), "turn:1.2.3.4:13478");
}

const PEM: &str = "-----BEGIN CERTIFICATE-----\nAQIDBA==\n-----END CERTIFICATE-----\n";

#[test]
fn certificates_are_loaded_from_pem() {
    let c = load_certificate("c", Some(PEM.to_string()), "k", Some("key".to_string())).unwrap();
    assert_eq!(c.certificate, vec![vec![1u8, 2, 3, 4]]);
    assert_eq!(c.private_key, "key");
    assert_eq!(
        fingerprint(&c),
        "9F:64:A7:47:E1:B9:7F:13:1F:AB:B6:B4:47:29:6C:9B:6F:02:01:E7:9F:B3:C5:35:6E:6C:77:E8:9B:6A:80:6A"
    );
}

#[test]
fn certificates_that_cannot_be_loaded() {
    let error = |c: Option<&str>, k: Option<&str>| {
        load_certificate("c", c.map(|t| t.to_string()), "k", k.map(|t| t.to_string())).unwrap_err()
    };
    assert_eq!(error(None, None), "Failed to read DTLS cert from c");
    assert_eq!(error(Some(PEM), None), "Failed to read DTLS key from k");
    assert_eq!(error(Some("x"), Some("y")), "Failed to parse DTLS cert PEM from c");
    assert_eq!(
        make_certificate("c", Err("e".to_string()), "k".to_string()).unwrap_err(),
        "Failed to parse DTLS cert PEM from c"
    );
}

#[test]
fn fingerprints_tell_certificates_apart() {
    let of = |b: u8| {
        fingerprint(&CertificateData { certificate: vec![vec![b]], private_key: String::new() })
    };
    assert_ne!(of(1), of(2));
    assert_eq!(of(1), of(1));
    assert_eq!(of(1).len(), 32 * 3 - 1);
}

#[test]
fn the_first_public_interface_is_taken() {
    let i = |loopback: bool, addr: IpAddr| Interface { loopback, addr };
    assert_eq!(
        get_first_non_loopback_interface(&vec![
            i(true, IpAddr::V4(1)),
            i(false, IpAddr::V6(2)),
            i(false, IpAddr::V4(3)),
            i(false, IpAddr::V4(4)),
        ]),
        Ok(IpAddr::V4(3))
    );
    assert_eq!(
        get_first_non_loopback_interface(&vec![i(true, IpAddr::V4(1)), i(false, IpAddr::V6(2))]),
        Err("No IPV4 interface found")
    );
    assert_eq!(bound_ip(Some(IpAddr::V4(5))), Some(IpAddr::V4(5)));
    assert_eq!(bound_ip(Some(IpAddr::V4(0))), None);
    assert_eq!(bound_ip(Some(IpAddr::V6(0))), None);
    assert_eq!(bound_ip(None), None);
}

#[test]
fn addresses_of_the_server() {
    assert_eq!(bind_host("0.0.0.0:3000"), "0.0.0.0");
    assert_eq!(bind_host("host"), "host");
    assert_eq!(shown_port("0.0.0.0:4000"), "4000");
    assert_eq!(shown_port("host"), "3000");
    assert_eq!(turn_address(Some("a:1".to_string()), "9.9.9.9"), "a:1");
    assert_eq!(turn_address(None, "9.9.9.9"), "9.9.9.9:13478");
    assert_eq!(
        log_filter(true),
        Some("debug,hyper=warn,gather=warn,igd=warn,neli=warn,rustls_platform_verifier=warn")
    );
    assert_eq!(log_filter(false), None);
}
