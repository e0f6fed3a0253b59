use rport::acl::{parse_acl_spec, IpAddr};
use rport::agent::{
    channel_labels, connection_lost_message, make_answer, note_candidate, offer_description,
    resolve_targets, retransmit_tick, Agent, AgentAction, AgentEvent, AgentSessions, ChannelAction,
    ChannelEvent, Lookup, RetransmitAction, TargetChannel,
};
use rport::client::{IceReply, SIGNALING_RETRANSMITS, SIGNALING_RTO};
use rport::config::RportConfig;
use rport::dtls_signaling::{IceServerInfo, SignalingMessage, Target};
use rport::reliable::ReliableSession;

const CANDIDATE: &str = "candidate:1 1 udp 2130706431 127.0.0.1 5000 typ host";
const SDP: &str = "v=0\r\no=- 0 0 IN IP4 127.0.0.1\r\ns=-\r\nt=0 0\r\n";

fn agent(rules: Option<&str>) -> Agent {
    let acl = rules.map(|r| parse_acl_spec(r).unwrap());
    Agent::new("srv:1", "tok", "id", None, false, acl, &RportConfig::default())
}

fn session() -> ReliableSession {
    ReliableSession::new(SIGNALING_RTO, SIGNALING_RETRANSMITS)
}

#[test]
fn an_agent_registers() {
    let a = agent(None);
    assert_eq!(a.server_url(), "srv:1");
    assert_eq!(a.id(), "id");
    assert!(!a.webrtc_config().enable_upnp);
    match a.registration() {
        SignalingMessage::Register { token, id } => {
            assert_eq!(token, "tok");
            assert_eq!(id, "id");
        }
        other => panic!("Expected register, got {:?}", other),
    }
}

#[test]
fn without_a_reply_there_are_no_extra_servers() {
    assert!(Agent::extra_ice_servers(IceReply::TimedOut).is_empty());
    assert!(Agent::extra_ice_servers(IceReply::Failed).is_empty());
    assert!(Agent::extra_ice_servers(IceReply::Received(SignalingMessage::Ping)).is_empty());
    let some = Agent::extra_ice_servers(IceReply::Received(SignalingMessage::IceServers {
        ice_servers: vec![IceServerInfo {
            urls: vec!["stun:a".to_string()],
            username: None,
            credential: None,
        }],
    }));
    assert_eq!(some.len(), 1);
    assert_eq!(some[0].urls, vec!["stun:a".to_string()]);
}

#[test]
fn targets_have_defaults() {
    let none = resolve_targets(None);
    assert_eq!(none.len(), 1);
    assert_eq!(none[0].address(), "127.0.0.1:22");
    assert!(resolve_targets(Some(vec![])).is_empty());
    let two = resolve_targets(Some(vec![
        Target { host: None, port: 80 },
        Target { host: Some("h".to_string()), port: 81 },
    ]));
    assert_eq!(two[0].address(), "127.0.0.1:80");
    assert_eq!(two[1].address(), "h:81");
    assert_eq!(
        channel_labels(&two),
        vec!["fwd:127.0.0.1:80".to_string(), "fwd:h:81".to_string()]
    );
}

fn two_targets() -> Vec<rport::agent::ForwardTarget> {
    resolve_targets(Some(vec![
        Target { host: Some("a".to_string()), port: 22 },
        Target { host: Some("b".to_string()), port: 80 },
    ]))
}

#[test]
fn every_target_has_to_be_allowed() {
    let mut admission = agent(Some("127.0.0.0/8:22,80")).admission(two_targets());
    assert_eq!(admission.next_lookup(), Some("a:22".to_string()));
    assert!(admission.check("s", Lookup::Found(Some(IpAddr::V4(0x7f000001)))).is_ok());
    assert_eq!(admission.next_lookup(), Some("b:80".to_string()));
    assert!(admission.check("s", Lookup::Found(Some(IpAddr::V4(0x7f000002)))).is_ok());
    assert_eq!(admission.next_lookup(), None);
    assert_eq!(admission.into_targets().len(), 2);
}

#[test]
fn a_refused_target_is_answered() {
    let mut admission = agent(Some("127.0.0.0/8:22")).admission(two_targets());
    assert!(admission.check("s", Lookup::Found(Some(IpAddr::V4(0x7f000001)))).is_ok());
    let refusal = admission
        .check("s", Lookup::Found(Some(IpAddr::V4(0x7f000001))))
        .unwrap_err();
    assert_eq!(refusal.error, "ACL denied: b:80");
    match refusal.reply {
        SignalingMessage::Error { session_id, reason, seq, ack } => {
            assert_eq!(session_id, "s");
            assert_eq!(reason, "Access denied: b:80");
            assert_eq!((seq, ack), (None, None));
        }
        other => panic!("Expected error, got {:?}", other),
    }
}

#[test]
fn a_target_that_cannot_be_resolved_is_answered() {
    let mut admission = agent(Some("0.0.0.0/0:22")).admission(two_targets());
    let refusal = admission.check("s", Lookup::Failed).unwrap_err();
    assert_eq!(refusal.error, "Cannot resolve target: a");
    match refusal.reply {
        SignalingMessage::Error { reason, .. } => assert_eq!(reason, "Cannot resolve target: a"),
        other => panic!("Expected error, got {:?}", other),
    }
}

#[test]
fn a_name_without_address_is_checked_as_zero() {
    let mut open = agent(Some("0.0.0.0/32:22")).admission(two_targets());
    assert!(open.check("s", Lookup::Found(None)).is_ok());
    let mut closed = agent(Some("127.0.0.0/8:22")).admission(two_targets());
    assert!(closed.check("s", Lookup::Found(None)).is_err());
}

#[test]
fn without_rules_everything_is_admitted() {
    let admission = agent(None).admission(two_targets());
    assert_eq!(admission.next_lookup(), None);
}

#[test]
fn the_answer_is_tracked() {
    let mut r = session();
    match make_answer("s", Some("sdp".to_string()), &mut r, 0) {
        Ok(SignalingMessage::Answer { session_id, answer_sdp, seq, ack }) => {
            assert_eq!(session_id, "s");
            assert_eq!(answer_sdp, "sdp");
            assert_eq!(seq, Some(1));
            assert_eq!(ack, None);
        }
        _ => panic!("Expected an answer"),
    }
    assert!(r.has_pending());
    let mut none = session();
    assert_eq!(
        make_answer("s", None, &mut none, 0).unwrap_err(),
        "No local description"
    );
    assert!(!none.has_pending());
}

#[test]
fn retransmission_goes_on_until_it_is_done() {
    let mut r = session();
    let _ = make_answer("s", Some("sdp".to_string()), &mut r, 0);
    assert!(matches!(
        retransmit_tick(&mut r, SIGNALING_RTO - 1),
        RetransmitAction::Idle
    ));
    match retransmit_tick(&mut r, SIGNALING_RTO) {
        RetransmitAction::Send(ps) => {
            assert_eq!(ps.len(), 1);
            assert_eq!(ps[0].seq, 1);
        }
        _ => panic!("Expected a retransmission"),
    }
    assert!(matches!(
        retransmit_tick(&mut r, SIGNALING_RTO * 2),
        RetransmitAction::Stop
    ));
    let mut spent = ReliableSession::new(0, 0);
    let _ = make_answer("s", Some("sdp".to_string()), &mut spent, 0);
    assert!(matches!(retransmit_tick(&mut spent, 1), RetransmitAction::Stop));
}

#[test]
fn a_target_is_connected_to_once() {
    let mut c = TargetChannel::new();
    assert_eq!(c.step(ChannelEvent::Message), ChannelAction::Enqueue);
    assert_eq!(c.step(ChannelEvent::Open), ChannelAction::Connect);
    assert_eq!(c.step(ChannelEvent::Open), ChannelAction::Ignore);
    assert_eq!(c.step(ChannelEvent::Close), ChannelAction::Stop);
    assert_eq!(c.step(ChannelEvent::Ended), ChannelAction::Stop);
}

fn offer(session_id: &str) -> AgentEvent {
    AgentEvent::Received(SignalingMessage::new_offer(
        session_id.to_string(),
        "id".to_string(),
        SDP.to_string(),
        None,
    ))
}

#[test]
fn an_offer_replaces_the_session_of_its_name() {
    let mut s: AgentSessions<u32> = AgentSessions::new();
    match s.step(offer("a")) {
        AgentAction::Answer { replaced, session_id, offer_sdp, targets } => {
            assert_eq!(replaced, None);
            assert_eq!(session_id, "a");
            assert_eq!(offer_sdp, SDP);
            assert!(targets.is_none());
        }
        _ => panic!("Expected an offer to answer"),
    }
    s.opened("a".to_string(), 1);
    s.opened("b".to_string(), 2);
    assert_eq!(s.len(), 2);
    match s.step(offer("a")) {
        AgentAction::Answer { replaced, .. } => assert_eq!(replaced, Some(1)),
        _ => panic!("Expected an offer to answer"),
    }
    assert_eq!(s.get("a"), None);
    assert_eq!(s.get("b"), Some(&2));
}

#[test]
fn sessions_end_by_themselves() {
    let mut s: AgentSessions<u32> = AgentSessions::new();
    s.opened("a".to_string(), 1);
    assert!(matches!(
        s.step(AgentEvent::SessionEnded("a".to_string())),
        AgentAction::Close(1)
    ));
    assert!(matches!(
        s.step(AgentEvent::SessionEnded("a".to_string())),
        AgentAction::Wait
    ));
}

#[test]
fn messages_are_noted_by_their_session() {
    let mut s: AgentSessions<u32> = AgentSessions::new();
    let candidate = |text: &str| {
        AgentEvent::Received(SignalingMessage::new_candidate("a".to_string(), text.to_string()))
    };
    assert!(matches!(s.step(candidate(CANDIDATE)), AgentAction::Wait));
    s.opened("a".to_string(), 1);
    match s.step(candidate(CANDIDATE)) {
        AgentAction::Note { session_id, candidate, msg } => {
            assert_eq!(session_id, "a");
            assert_eq!(candidate.unwrap().address.to_string(), "127.0.0.1:5000");
            assert!(matches!(msg, SignalingMessage::Candidate { .. }));
        }
        _ => panic!("Expected a note"),
    }
    match s.step(candidate("nonsense")) {
        AgentAction::Note { candidate, .. } => assert!(candidate.is_none()),
        _ => panic!("Expected a note"),
    }
    for msg in [
        SignalingMessage::new_end_of_candidates("a".to_string()),
        SignalingMessage::new_ack("a".to_string(), 3),
    ] {
        match s.step(AgentEvent::Received(msg)) {
            AgentAction::Note { candidate, .. } => assert!(candidate.is_none()),
            _ => panic!("Expected a note"),
        }
    }
    assert!(matches!(
        note_candidate::<u32>("x".to_string(), None, SignalingMessage::Pong),
        AgentAction::Note { .. }
    ));
}

#[test]
fn pings_are_answered_and_the_rest_is_ignored() {
    let mut s: AgentSessions<u32> = AgentSessions::new();
    assert!(matches!(
        s.step(AgentEvent::Received(SignalingMessage::Ping)),
        AgentAction::Send(SignalingMessage::Pong)
    ));
    for msg in [
        SignalingMessage::Pong,
        SignalingMessage::GetIceServers,
        SignalingMessage::new_error("a".to_string(), "r".to_string()),
        SignalingMessage::new_answer("a".to_string(), "r".to_string()),
    ] {
        assert!(matches!(s.step(AgentEvent::Received(msg)), AgentAction::Wait));
    }
}

#[test]
fn a_lost_server_closes_all_sessions() {
    for event in [AgentEvent::ReceiveFailed, AgentEvent::TimedOut, AgentEvent::PingFailed] {
        let mut s: AgentSessions<u32> = AgentSessions::new();
        s.opened("a".to_string(), 1);
        s.opened("b".to_string(), 2);
        match s.step(event) {
            AgentAction::Stop(handles) => assert_eq!(handles, vec![1, 2]),
            _ => panic!("Expected the end"),
        }
        assert_eq!(s.len(), 0);
    }
    assert_eq!(connection_lost_message(), "DTLS server connection lost");
}

#[test]
fn offers_are_read() {
    assert_eq!(offer_description(SDP).unwrap().session.name, "-");
    match offer_description("") {
        Err(e) => assert_eq!(e, "missing required line: v"),
        Ok(_) => panic!("Expected an error"),
    }
}
