//! The client: it asks an agent for a connection and forwards local traffic over it.
use crate::config::{ForwardMapping, ForwardModel, IceServerConfig, RportConfig};
use crate::dtls_signaling::{
    IceServerInfo, IceServerModel, MessageModel, SignalingMessage, Target, TargetModel,
};
use crate::peer::{
    candidate_syntax, description_syntax, parse_candidate, parse_description, DescriptionKind,
    PeerState,
};
use crate::reliable::{numbers_of, Nanos, PendingModel, ReliableModel, ReliableSession, MAX_NANOS};
use crate::text::decimal_string;
use crate::webrtc_config::{webrtc_of, WebRTCConfig, WebRTCModel};
use vstd::prelude::*;

verus! {

/// How long to wait for the ICE servers of the signaling server.
pub const ICE_SERVERS_TIMEOUT: u128 = 3000000000;

/// How long nothing may happen in a handshake.
pub const HANDSHAKE_TIMEOUT: u128 = 30000000000;

/// After what time a signaling message is sent again.
pub const SIGNALING_RTO: u128 = 2000000000;

/// How often a signaling message is sent again.
pub const SIGNALING_RETRANSMITS: u32 = 3;

/// What the request for ICE servers came to.
#[derive(Debug)]
pub enum IceReply {
    /// A message came back.
    Received(SignalingMessage),
    /// The connection failed.
    Failed,
    /// Nothing came back in time.
    TimedOut,
}

/// The servers that a reply brings. Only one kind of message brings any.
pub open spec fn servers_in(reply: IceReply) -> Option<Seq<IceServerModel>> {
    match reply {
        IceReply::Received(SignalingMessage::IceServers { ice_servers }) => Some(
            ice_servers.deep_view(),
        ),
        _ => None,
    }
}

/// The servers as they are configured.
pub fn configured_servers(announced: Vec<IceServerInfo>) -> (r: Vec<IceServerConfig>)
    ensures
        r.deep_view() == announced.deep_view(),
{
    let ghost all = announced.deep_view();
    let mut r: Vec<IceServerConfig> = Vec::new();
    for s in it: announced
        invariant
            it.seq().len() == all.len(),
            forall|i: int| 0 <= i < all.len() ==> (#[trigger] it.seq()[i]).deep_view() == all[i],
            r.deep_view() == all.take(it.index() as int),
    {
        let ghost before = r.deep_view();
        let ghost i = it.index() as int;
        r.push(IceServerConfig { urls: s.urls, username: s.username, credential: s.credential });
        assert(r.deep_view() =~= before.push(all[i]));
        assert(all.take(i + 1) =~= all.take(i).push(all[i]));
    }
    assert(all.take(all.len() as int) =~= all);
    r
}

/// The label of the data channel for a target.
pub open spec fn channel_label(host: Seq<char>, port: u16) -> Seq<char> {
    "fwd:"@ + host + ":"@ + crate::text::decimal(port as nat)
}

/// The label of the data channel for a target.
pub fn make_channel_label(host: &str, port: u16) -> (r: String)
    ensures
        r@ == channel_label(host@, port),
{
    "fwd:".to_owned().concat(host).concat(":").concat(decimal_string(port as u64).as_str())
}

/// A client of one agent.
#[derive(Debug)]
pub struct CliClient {
    server_url: String,
    token: String,
    agent_id: String,
    webrtc_config: WebRTCConfig,
    wait_candidates: bool,
}

/// What a [`CliClient`] says.
#[verifier::ext_equal]
pub struct ClientModel {
    pub server_url: Seq<char>,
    pub token: Seq<char>,
    pub agent_id: Seq<char>,
    pub webrtc: WebRTCModel,
    pub wait_candidates: bool,
}

impl View for CliClient {
    type V = ClientModel;

    closed spec fn view(&self) -> ClientModel {
        ClientModel {
            server_url: self.server_url@,
            token: self.token@,
            agent_id: self.agent_id@,
            webrtc: self.webrtc_config.deep_view(),
            wait_candidates: self.wait_candidates,
        }
    }
}

impl Clone for CliClient {
    fn clone(&self) -> (r: CliClient)
        ensures
            r@ == self@,
    {
        CliClient {
            server_url: self.server_url.clone(),
            token: self.token.clone(),
            agent_id: self.agent_id.clone(),
            webrtc_config: self.webrtc_config.clone(),
            wait_candidates: self.wait_candidates,
        }
    }
}

/// The servers that are configured, or none.
pub open spec fn servers_or_none(servers: Option<Seq<IceServerModel>>) -> Seq<IceServerModel> {
    match servers {
        Some(s) => s,
        None => Seq::empty(),
    }
}

/// The servers that are configured, or none.
pub fn take_servers(servers: Option<Vec<IceServerConfig>>) -> (r: Vec<IceServerConfig>)
    ensures
        r.deep_view() == servers_or_none(servers.deep_view()),
{
    match servers {
        Some(s) => s,
        None => {
            let r: Vec<IceServerConfig> = Vec::new();
            assert(r.deep_view() =~= Seq::empty());
            r
        },
    }
}

/// A local port that is listened on, and where its connections go.
#[derive(Debug)]
pub struct Listener {
    /// The address to listen on.
    pub bind: String,
    pub host: String,
    pub port: u16,
    /// How its connections are called in the log.
    pub label: String,
}

/// What a [`Listener`] says.
#[verifier::ext_equal]
pub struct ListenerModel {
    pub bind: Seq<char>,
    pub host: Seq<char>,
    pub port: u16,
    pub label: Seq<char>,
}

impl DeepView for Listener {
    type V = ListenerModel;

    open spec fn deep_view(&self) -> ListenerModel {
        ListenerModel {
            bind: self.bind@,
            host: self.host@,
            port: self.port,
            label: self.label@,
        }
    }
}

/// The listener for a forwarding with the local port `local`.
pub open spec fn listener_for(local: u16, f: ForwardModel) -> ListenerModel {
    ListenerModel {
        bind: "127.0.0.1:"@ + crate::text::decimal(local as nat),
        host: f.host,
        port: f.port,
        label: "localhost:"@ + crate::text::decimal(local as nat) + " -> "@ + f.host + ":"@
            + crate::text::decimal(f.port as nat),
    }
}

/// The listeners for forwardings, up to the first one without a local port.
pub open spec fn listeners_for(forwards: Seq<ForwardModel>) -> Seq<ListenerModel>
    decreases forwards.len(),
{
    if forwards.len() == 0 {
        Seq::empty()
    } else {
        match forwards[0].local_port {
            Some(local) => seq![listener_for(local, forwards[0])] + listeners_for(
                forwards.drop_first(),
            ),
            None => Seq::empty(),
        }
    }
}

/// Whether every forwarding has a local port.
pub open spec fn all_have_local_ports(forwards: Seq<ForwardModel>) -> bool {
    forall|i: int| 0 <= i < forwards.len() ==> (#[trigger] forwards[i]).local_port is Some
}

/// The offer of a client, not numbered.
pub open spec fn offer_message(
    session_id: Seq<char>,
    agent_id: Seq<char>,
    offer_sdp: Seq<char>,
    host: Seq<char>,
    port: u16,
) -> MessageModel {
    MessageModel::Offer {
        session_id,
        agent_id,
        offer_sdp,
        targets: Some(seq![TargetModel { host: Some(host), port }]),
        seq: None,
        ack: None,
    }
}

impl CliClient {
    /// A client that reaches the agent `agent_id` through the server.
    pub fn new(
        server_url: &str,
        token: &str,
        agent_id: &str,
        ice_servers: Option<Vec<IceServerConfig>>,
        enable_upnp: bool,
        wait_candidates: bool,
        cfg: &RportConfig,
    ) -> (r: CliClient)
        requires
            WebRTCConfig::fits(cfg),
        ensures
            r@ == (ClientModel {
                server_url: server_url@,
                token: token@,
                agent_id: agent_id@,
                webrtc: webrtc_of(
                    cfg.deep_view(),
                    servers_or_none(ice_servers.deep_view()),
                    enable_upnp,
                ),
                wait_candidates,
            }),
    {
        let webrtc_config = WebRTCConfig::new(
            server_url.to_owned(),
            token.to_owned(),
            take_servers(ice_servers),
            enable_upnp,
            cfg,
        );
        CliClient {
            server_url: server_url.to_owned(),
            token: token.to_owned(),
            agent_id: agent_id.to_owned(),
            webrtc_config,
            wait_candidates,
        }
    }

    /// The address of the signaling server.
    pub fn server_url(&self) -> (r: &str)
        ensures
            r@ == self@.server_url,
    {
        self.server_url.as_str()
    }

    /// The settings of the WebRTC stack.
    pub fn webrtc_config(&self) -> (r: &WebRTCConfig)
        ensures
            r.deep_view() == self@.webrtc,
    {
        &self.webrtc_config
    }

    /// Whether the offer waits until all candidates are gathered.
    pub fn waits_for_candidates(&self) -> (r: bool)
        ensures
            r == self@.wait_candidates,
    {
        self.wait_candidates
    }

    /// How the traffic of ProxyCommand is called in the log.
    pub fn proxy_label(target_host: &str, target_port: u16) -> (r: String)
        ensures
            r@ == "proxy -> "@ + target_host@ + ":"@ + crate::text::decimal(target_port as nat),
    {
        "proxy -> ".to_owned().concat(target_host).concat(":").concat(
            decimal_string(target_port as u64).as_str(),
        )
    }

    /// The listeners to start for these forwardings, in order. The first forwarding without a
    /// local port is an error, and ends the list.
    pub fn listeners(forwards: &Vec<ForwardMapping>) -> (r: (
        Vec<Listener>,
        Result<(), &'static str>,
    ))
        ensures
            r.0.deep_view() == listeners_for(forwards.deep_view()),
            r.1 is Ok <==> all_have_local_ports(forwards.deep_view()),
            r.1 matches Err(e) ==> e@ == "Port forward requires local port in -L spec"@,
    {
        let ghost all = forwards.deep_view();
        let mut r: Vec<Listener> = Vec::new();
        let mut i: usize = 0;
        proof {
            assert(all.skip(0) =~= all);
            assert(r.deep_view() + listeners_for(all) =~= listeners_for(all));
        }
        while i < forwards.len()
            invariant
                all == forwards.deep_view(),
                i <= forwards@.len(),
                listeners_for(all) == r.deep_view() + listeners_for(all.skip(i as int)),
                forall|k: int| 0 <= k < i ==> (#[trigger] all[k]).local_port is Some,
            decreases forwards@.len() - i,
        {
            let f = &forwards[i];
            let ghost done = r.deep_view();
            proof {
                assert(all.skip(i as int).drop_first() =~= all.skip(i + 1));
                assert(all.skip(i as int)[0] == all[i as int]);
            }
            match f.local_port {
                Some(local) => {
                    let local_text = decimal_string(local as u64);
                    let l = Listener {
                        bind: "127.0.0.1:".to_owned().concat(local_text.as_str()),
                        host: f.host.clone(),
                        port: f.port,
                        label: "localhost:".to_owned().concat(local_text.as_str()).concat(
                            " -> ",
                        ).concat(f.host.as_str()).concat(":").concat(
                            decimal_string(f.port as u64).as_str(),
                        ),
                    };
                    let ghost m = l.deep_view();
                    r.push(l);
                    proof {
                        assert(r.deep_view() =~= done.push(m));
                        assert(done + (seq![m] + listeners_for(all.skip(i + 1))) =~= r.deep_view()
                            + listeners_for(all.skip(i + 1)));
                    }
                },
                None => {
                    assert(all[i as int].local_port is None);
                    assert(r.deep_view() =~= listeners_for(all));
                    return (r, Err("Port forward requires local port in -L spec"));
                },
            }
            i = i + 1;
        }
        proof {
            assert(all.skip(all.len() as int) =~= Seq::empty());
            assert(r.deep_view() =~= listeners_for(all));
        }
        (r, Ok(()))
    }

    /// What the request for ICE servers comes to. `None` means that the connection is of no more
    /// use: it is to be closed, and a new one opened that does without the request.
    pub fn servers_from_reply(reply: IceReply) -> (r: Option<Vec<IceServerConfig>>)
        ensures
            r.deep_view() == servers_in(reply),
    {
        match reply {
            IceReply::Received(SignalingMessage::IceServers { ice_servers }) => Some(
                configured_servers(ice_servers),
            ),
            _ => None,
        }
    }

    /// The offer for a session, made of the local description. Without one there is no offer.
    pub fn make_offer(
        &self,
        session_id: &str,
        local_description: Option<String>,
        target_host: &str,
        target_port: u16,
    ) -> (r: Result<SignalingMessage, &'static str>)
        ensures
            match local_description {
                Some(sdp) => r matches Ok(m) && m.deep_view() == offer_message(
                    session_id@,
                    self@.agent_id,
                    sdp@,
                    target_host@,
                    target_port,
                ),
                None => r matches Err(e) && e@ == "Failed to get local description"@,
            },
    {
        match local_description {
            Some(sdp) => {
                let mut targets: Vec<Target> = Vec::new();
                targets.push(Target { host: Some(target_host.to_owned()), port: target_port });
                assert(targets.deep_view() =~= seq![
                    TargetModel { host: Some(target_host@), port: target_port },
                ]);
                Ok(
                    SignalingMessage::new_offer(
                        session_id.to_owned(),
                        self.agent_id.clone(),
                        sdp,
                        Some(targets),
                    ),
                )
            },
            None => Err("Failed to get local description"),
        }
    }
}

/// What happens while a client waits for its connection.
#[derive(Debug)]
pub enum HandshakeEvent {
    /// A message came from the signaling server.
    Received(SignalingMessage),
    /// The connection to the signaling server is gone.
    SignalingLost,
    /// The description of the answer was taken in.
    Described,
    /// The description of the answer was not taken in; this is why.
    NotDescribed(String),
    /// The peer connection has changed its state. A reason is given if it is known.
    Peer { state: PeerState, reason: Option<String> },
    /// Nothing happened for [`HANDSHAKE_TIMEOUT`].
    TimedOut,
}

/// What a [`HandshakeEvent`] says.
#[verifier::ext_equal]
pub enum HandshakeEventModel {
    Received(MessageModel),
    SignalingLost,
    Described,
    NotDescribed(Seq<char>),
    Peer { state: PeerState, reason: Option<Seq<char>> },
    TimedOut,
}

impl DeepView for HandshakeEvent {
    type V = HandshakeEventModel;

    open spec fn deep_view(&self) -> HandshakeEventModel {
        match *self {
            HandshakeEvent::Received(m) => HandshakeEventModel::Received(m.deep_view()),
            HandshakeEvent::SignalingLost => HandshakeEventModel::SignalingLost,
            HandshakeEvent::Described => HandshakeEventModel::Described,
            HandshakeEvent::NotDescribed(e) => HandshakeEventModel::NotDescribed(e@),
            HandshakeEvent::Peer { state, reason } => HandshakeEventModel::Peer {
                state,
                reason: reason.deep_view(),
            },
            HandshakeEvent::TimedOut => HandshakeEventModel::TimedOut,
        }
    }
}

/// What to do about a [`HandshakeEvent`].
pub enum HandshakeAction {
    /// Send this message, if there is one, and go on.
    Continue(Option<SignalingMessage>),
    /// Hand this description to the peer connection.
    Describe(rustrtc::SessionDescription),
    /// Hand this candidate to the peer connection.
    AddCandidate(rustrtc::IceCandidate),
    /// Send these messages. The handshake is over; the connection can be used.
    Finish(Vec<SignalingMessage>),
    /// The handshake has failed. `close` tells whether to close the signaling connection.
    Fail { reason: String, close: bool },
}

/// What a [`HandshakeAction`] says.
#[verifier::ext_equal]
pub enum HandshakeActionModel {
    Continue(Option<MessageModel>),
    Describe(rustrtc::SessionDescription),
    AddCandidate(rustrtc::IceCandidate),
    Finish(Seq<MessageModel>),
    Fail { reason: Seq<char>, close: bool },
}

impl DeepView for HandshakeAction {
    type V = HandshakeActionModel;

    open spec fn deep_view(&self) -> HandshakeActionModel {
        match *self {
            HandshakeAction::Continue(m) => HandshakeActionModel::Continue(m.deep_view()),
            HandshakeAction::Describe(d) => HandshakeActionModel::Describe(d),
            HandshakeAction::AddCandidate(c) => HandshakeActionModel::AddCandidate(c),
            HandshakeAction::Finish(ms) => HandshakeActionModel::Finish(ms.deep_view()),
            HandshakeAction::Fail { reason, close } => HandshakeActionModel::Fail {
                reason: reason@,
                close,
            },
        }
    }
}

/// How far a handshake has come.
#[derive(Debug, Clone, Copy, PartialEq, Eq, Structural)]
pub struct Handshake {
    /// Whether the answer of the agent was taken in.
    pub answer_received: bool,
    /// Whether the agent has said that there are no more candidates.
    pub received_end_of_candidates: bool,
}

/// A handshake, and the numbering of its messages, after an event; and what to do.
#[verifier::ext_equal]
pub struct HandshakeOutcome {
    pub state: Handshake,
    pub reliable: ReliableModel,
    pub action: HandshakeActionModel,
}

/// An acknowledgement of `ack_seq`, not numbered yet.
pub open spec fn ack_message(session_id: Seq<char>, ack_seq: u64) -> MessageModel {
    MessageModel::Ack { session_id, ack_seq, seq: None, ack: None }
}

/// The acknowledgement of what came last, if anything came with a number.
pub open spec fn current_ack(m: ReliableModel, session_id: Seq<char>) -> Option<MessageModel> {
    match m.last_recv_seq {
        Some(s) => Some(m.outgoing(ack_message(session_id, s))),
        None => None,
    }
}

/// The numbering after that acknowledgement was sent.
pub open spec fn after_ack(m: ReliableModel, session_id: Seq<char>, now: Nanos) -> ReliableModel {
    match m.last_recv_seq {
        Some(s) => m.sent(ack_message(session_id, s), false, now),
        None => m,
    }
}

/// The message as a sequence.
pub open spec fn as_seq(m: Option<MessageModel>) -> Seq<MessageModel> {
    match m {
        Some(m) => seq![m],
        None => Seq::empty(),
    }
}

/// The handshake is over: what came last is acknowledged once more, after `before`.
pub open spec fn finished(
    state: Handshake,
    m: ReliableModel,
    session_id: Seq<char>,
    before: Option<MessageModel>,
    now: Nanos,
) -> HandshakeOutcome {
    HandshakeOutcome {
        state,
        reliable: after_ack(m, session_id, now),
        action: HandshakeActionModel::Finish(as_seq(before) + as_seq(current_ack(m, session_id))),
    }
}

/// The handshake goes on with nothing to send.
pub open spec fn waiting(state: Handshake, m: ReliableModel) -> HandshakeOutcome {
    HandshakeOutcome { state, reliable: m, action: HandshakeActionModel::Continue(None) }
}

/// The handshake has failed.
pub open spec fn failed(
    state: Handshake,
    m: ReliableModel,
    reason: Seq<char>,
    close: bool,
) -> HandshakeOutcome {
    HandshakeOutcome { state, reliable: m, action: HandshakeActionModel::Fail { reason, close } }
}

/// What the text of an answer leads to.
pub open spec fn answer_action(
    parsed: Result<rustrtc::SessionDescription, Seq<char>>,
) -> HandshakeActionModel {
    match parsed {
        Ok(d) => HandshakeActionModel::Describe(d),
        Err(reason) => HandshakeActionModel::Fail { reason, close: false },
    }
}

/// What the text of a candidate leads to.
pub open spec fn candidate_action(parsed: Option<rustrtc::IceCandidate>) -> HandshakeActionModel {
    match parsed {
        Some(c) => HandshakeActionModel::AddCandidate(c),
        None => HandshakeActionModel::Continue(None),
    }
}

/// What an event at `now` leads to.
pub open spec fn handshake_step(
    state: Handshake,
    m: ReliableModel,
    session_id: Seq<char>,
    event: HandshakeEventModel,
    now: Nanos,
) -> HandshakeOutcome {
    match event {
        HandshakeEventModel::Received(msg) => {
            let got = m.received(msg);
            match msg {
                MessageModel::Answer { answer_sdp, .. } => if state.answer_received {
                    waiting(state, got)
                } else {
                    HandshakeOutcome {
                        state,
                        reliable: got,
                        action: answer_action(
                            description_syntax(DescriptionKind::Answer, answer_sdp),
                        ),
                    }
                },
                MessageModel::Candidate { candidate, .. } => HandshakeOutcome {
                    state,
                    reliable: got,
                    action: candidate_action(candidate_syntax(candidate)),
                },
                MessageModel::EndOfCandidates { .. } => if state.answer_received {
                    finished(state, got, session_id, None, now)
                } else {
                    waiting(Handshake { received_end_of_candidates: true, ..state }, got)
                },
                MessageModel::Error { reason, .. } => failed(
                    state,
                    got,
                    "Agent rejected offer: "@ + reason,
                    true,
                ),
                _ => waiting(state, got),
            }
        },
        HandshakeEventModel::SignalingLost => finished(state, m, session_id, None, now),
        HandshakeEventModel::Described => {
            let answered = Handshake { answer_received: true, ..state };
            let ack = current_ack(m, session_id);
            let acked = after_ack(m, session_id, now);
            if state.received_end_of_candidates {
                finished(answered, acked, session_id, ack, now)
            } else {
                HandshakeOutcome {
                    state: answered,
                    reliable: acked,
                    action: HandshakeActionModel::Continue(ack),
                }
            }
        },
        HandshakeEventModel::NotDescribed(reason) => failed(state, m, reason, false),
        HandshakeEventModel::Peer { state: peer, reason } => match peer {
            PeerState::Connected => finished(state, m, session_id, None, now),
            PeerState::Failed => failed(
                state,
                m,
                "WebRTC failed: "@ + (match reason {
                    Some(r) => r,
                    None => ""@,
                }),
                false,
            ),
            PeerState::Closed => failed(state, m, "WebRTC closed"@, false),
            _ => waiting(state, m),
        },
        HandshakeEventModel::TimedOut => if state.answer_received {
            finished(state, m, session_id, None, now)
        } else if state.received_end_of_candidates {
            failed(state, m, "Timeout waiting for answer from agent"@, false)
        } else {
            waiting(state, m)
        },
    }
}

/// What to do about an answer, given what its text stands for.
pub fn take_answer(parsed: Result<rustrtc::SessionDescription, String>) -> (r: HandshakeAction)
    ensures
        match parsed {
            Ok(d) => r.deep_view() == answer_action(Ok(d)),
            Err(e) => r.deep_view() == answer_action(Err(e@)),
        },
{
    match parsed {
        Ok(d) => HandshakeAction::Describe(d),
        Err(reason) => HandshakeAction::Fail { reason, close: false },
    }
}

/// What to do about a candidate, given what its text stands for.
pub fn take_candidate(parsed: Option<rustrtc::IceCandidate>) -> (r: HandshakeAction)
    ensures
        r.deep_view() == candidate_action(parsed),
{
    match parsed {
        Some(c) => HandshakeAction::AddCandidate(c),
        None => HandshakeAction::Continue(None),
    }
}

fn make_ack(session_id: &str, reliable: &mut ReliableSession, now: Nanos) -> (r: Option<
    SignalingMessage,
>)
    requires
        old(reliable)@.wf(),
        old(reliable)@.next_seq < u64::MAX,
        now <= MAX_NANOS,
    ensures
        final(reliable)@.wf(),
        final(reliable)@ == after_ack(old(reliable)@, session_id@, now),
        r.deep_view() == current_ack(old(reliable)@, session_id@),
{
    match reliable.last_recv_seq() {
        Some(seq) => {
            let mut msg = SignalingMessage::new_ack(session_id.to_owned(), seq);
            reliable.prepare_send_at(&mut msg, false, now);
            Some(msg)
        },
        None => None,
    }
}

fn finish(
    session_id: &str,
    reliable: &mut ReliableSession,
    before: Option<SignalingMessage>,
    now: Nanos,
) -> (r: HandshakeAction)
    requires
        old(reliable)@.wf(),
        old(reliable)@.next_seq < u64::MAX,
        now <= MAX_NANOS,
    ensures
        final(reliable)@.wf(),
        final(reliable)@ == after_ack(old(reliable)@, session_id@, now),
        r.deep_view() == HandshakeActionModel::Finish(
            as_seq(before.deep_view()) + as_seq(current_ack(old(reliable)@, session_id@)),
        ),
{
    let mut messages: Vec<SignalingMessage> = Vec::new();
    let ghost first = as_seq(before.deep_view());
    if let Some(m) = before {
        messages.push(m);
    }
    assert(messages.deep_view() =~= first);
    let ack = make_ack(session_id, reliable, now);
    let ghost second = as_seq(ack.deep_view());
    if let Some(m) = ack {
        messages.push(m);
    }
    assert(messages.deep_view() =~= first + second);
    HandshakeAction::Finish(messages)
}

impl Handshake {
    /// A handshake whose offer has just been sent.
    pub fn new() -> (r: Handshake)
        ensures
            r == (Handshake { answer_received: false, received_end_of_candidates: false }),
    {
        Handshake { answer_received: false, received_end_of_candidates: false }
    }

    /// Whether the handshake is still going on: with both the answer and the end of the candidates
    /// it is over.
    pub open spec fn running(self) -> bool {
        !(self.answer_received && self.received_end_of_candidates)
    }

    /// Takes in an event at the time `now` and says what to do. `reliable` numbers the messages of
    /// the session.
    pub fn step(
        &mut self,
        reliable: &mut ReliableSession,
        session_id: &str,
        event: HandshakeEvent,
        now: Nanos,
    ) -> (r: HandshakeAction)
        requires
            old(self).running(),
            old(reliable)@.wf(),
            old(reliable)@.next_seq + 2 <= u64::MAX,
            now <= MAX_NANOS,
        ensures
            final(reliable)@.wf(),
            (HandshakeOutcome {
                state: *final(self),
                reliable: final(reliable)@,
                action: r.deep_view(),
            }) == handshake_step(
                *old(self),
                old(reliable)@,
                session_id@,
                event.deep_view(),
                now,
            ),
            !(r is Finish) ==> final(self).running(),
    {
        match event {
            HandshakeEvent::Received(msg) => {
                let _ = reliable.process_recv(&msg);
                match msg {
                    SignalingMessage::Answer { answer_sdp, .. } => {
                        if self.answer_received {
                            HandshakeAction::Continue(None)
                        } else {
                            take_answer(
                                parse_description(DescriptionKind::Answer, answer_sdp.as_str()),
                            )
                        }
                    },
                    SignalingMessage::Candidate { candidate, .. } => take_candidate(
                        parse_candidate(candidate.as_str()),
                    ),
                    SignalingMessage::EndOfCandidates { .. } => {
                        if self.answer_received {
                            finish(session_id, reliable, None, now)
                        } else {
                            self.received_end_of_candidates = true;
                            HandshakeAction::Continue(None)
                        }
                    },
                    SignalingMessage::Error { reason, .. } => HandshakeAction::Fail {
                        reason: "Agent rejected offer: ".to_owned().concat(reason.as_str()),
                        close: true,
                    },
                    _ => HandshakeAction::Continue(None),
                }
            },
            HandshakeEvent::SignalingLost => finish(session_id, reliable, None, now),
            HandshakeEvent::Described => {
                self.answer_received = true;
                let ack = make_ack(session_id, reliable, now);
                if self.received_end_of_candidates {
                    finish(session_id, reliable, ack, now)
                } else {
                    HandshakeAction::Continue(ack)
                }
            },
            HandshakeEvent::NotDescribed(reason) => HandshakeAction::Fail { reason, close: false },
            HandshakeEvent::Peer { state, reason } => match state {
                PeerState::Connected => finish(session_id, reliable, None, now),
                PeerState::Failed => {
                    let why = match reason {
                        Some(r) => r,
                        None => "".to_owned(),
                    };
                    HandshakeAction::Fail {
                        reason: "WebRTC failed: ".to_owned().concat(why.as_str()),
                        close: false,
                    }
                },
                PeerState::Closed => HandshakeAction::Fail {
                    reason: "WebRTC closed".to_owned(),
                    close: false,
                },
                _ => HandshakeAction::Continue(None),
            },
            HandshakeEvent::TimedOut => {
                if self.answer_received {
                    finish(session_id, reliable, None, now)
                } else if self.received_end_of_candidates {
                    HandshakeAction::Fail {
                        reason: "Timeout waiting for answer from agent".to_owned(),
                        close: false,
                    }
                } else {
                    HandshakeAction::Continue(None)
                }
            },
        }
    }
}

/// An offer that the agent refuses fails with the agent's reason, however far the handshake has
/// come.
pub proof fn law_refusal_is_reported(
    state: Handshake,
    m: ReliableModel,
    session_id: Seq<char>,
    refusal: MessageModel,
    now: Nanos,
)
    requires
        refusal is Error,
    ensures
        handshake_step(
            state,
            m,
            session_id,
            HandshakeEventModel::Received(refusal),
            now,
        ).action == (HandshakeActionModel::Fail {
            reason: "Agent rejected offer: "@ + refusal->Error_reason,
            close: true,
        }),
{
}

/// An answer is taken in once. When it comes again, it is not handed to the peer connection, and
/// an answer that was taken in is never forgotten.
pub proof fn law_answer_is_taken_once(
    state: Handshake,
    m: ReliableModel,
    session_id: Seq<char>,
    event: HandshakeEventModel,
    now: Nanos,
)
    requires
        state.answer_received,
    ensures
        handshake_step(state, m, session_id, event, now).state.answer_received,
        event matches HandshakeEventModel::Received(msg) && msg is Answer ==> handshake_step(
            state,
            m,
            session_id,
            event,
            now,
        ).action == HandshakeActionModel::Continue(None),
{
}

/// The answer and the end of the candidates may come in either order; with both, the handshake is
/// over.
pub proof fn law_order_does_not_matter(
    m: ReliableModel,
    session_id: Seq<char>,
    end: MessageModel,
    now: Nanos,
)
    requires
        end is EndOfCandidates,
    ensures
        ({
            let start = Handshake { answer_received: false, received_end_of_candidates: false };
            let ended = HandshakeEventModel::Received(end);
            let a = handshake_step(start, m, session_id, HandshakeEventModel::Described, now);
            let b = handshake_step(start, m, session_id, ended, now);
            &&& handshake_step(a.state, a.reliable, session_id, ended, now).action is Finish
            &&& handshake_step(
                b.state,
                b.reliable,
                session_id,
                HandshakeEventModel::Described,
                now,
            ).action is Finish
        }),
{
}

/// A handshake that is over has acknowledged the last number that came from the agent.
pub proof fn law_finish_acknowledges(
    state: Handshake,
    m: ReliableModel,
    session_id: Seq<char>,
    event: HandshakeEventModel,
    now: Nanos,
)
    ensures
        ({
            let o = handshake_step(state, m, session_id, event, now);
            o.action matches HandshakeActionModel::Finish(ms) ==> match o.reliable.last_recv_seq {
                Some(s) => ms.len() > 0 && numbers_of(ms.last()).1 == Some(s),
                None => ms.len() == 0,
            }
        }),
{
    let o = handshake_step(state, m, session_id, event, now);
    if let HandshakeActionModel::Finish(ms) = o.action {
        if event is Described {
            let acked = after_ack(m, session_id, now);
            assert(acked.last_recv_seq == m.last_recv_seq);
            if let Some(s) = m.last_recv_seq {
                assert(ms.last() == acked.outgoing(ack_message(session_id, s)));
            }
        }
    }
}

/// An acknowledgement ends the retransmission of what it acknowledges: once the agent has it, no
/// message up to that number is pending there any more.
pub proof fn law_acknowledged_messages_are_not_sent_again(
    client: ReliableModel,
    agent: ReliableModel,
    session_id: Seq<char>,
    now: Nanos,
)
    requires
        agent.wf(),
        client.last_recv_seq is Some,
    ensures
        ({
            let ack = current_ack(client, session_id)->Some_0;
            &&& forall|i: int|
                0 <= i < agent.received(ack).pending.len() ==> (#[trigger] agent.received(
                    ack,
                ).pending[i]).seq > client.last_recv_seq->Some_0
            &&& forall|i: int|
                0 <= i < agent.received(ack).due(now).len() ==> (#[trigger] agent.received(ack).due(
                    now,
                )[i]).seq > client.last_recv_seq->Some_0
        }),
{
    let s = client.last_recv_seq->Some_0;
    let ack = current_ack(client, session_id)->Some_0;
    crate::reliable::law_ack_settles_exactly(agent, ack, s);
    let left = agent.received(ack);
    crate::reliable::lemma_received_wf(agent, ack);
    assert forall|i: int| 0 <= i < left.due(now).len() implies (#[trigger] left.due(now)[i]).seq
        > s by {
        crate::reliable::lemma_due_was_pending(left, now, i);
        let p = choose|p: PendingModel| left.pending.contains(p) && p.seq == left.due(now)[i].seq;
        let k = choose|k: int| 0 <= k < left.pending.len() && left.pending[k] == p;
        assert(left.pending[k].seq > s);
    }
}

/// Before and after the answer, a candidate of the agent whose text can be read is handed to the
/// peer connection as the candidate that the text stands for. One that cannot be read is passed
/// over. Neither changes how far the handshake has come.
pub proof fn law_every_candidate_is_added(
    state: Handshake,
    m: ReliableModel,
    session_id: Seq<char>,
    msg: MessageModel,
    now: Nanos,
)
    requires
        msg is Candidate,
    ensures
        ({
            let o = handshake_step(state, m, session_id, HandshakeEventModel::Received(msg), now);
            &&& o.state == state
            &&& o.action == match candidate_syntax(msg->Candidate_candidate) {
                Some(c) => HandshakeActionModel::AddCandidate(c),
                None => HandshakeActionModel::Continue(None),
            }
        }),
{
}

/// The first answer is handed to the peer connection as the description that its text stands for.
/// An answer that cannot be read fails the handshake with what is wrong with it. Only that the
/// description was taken in counts as the answer.
pub proof fn law_first_answer_is_described(
    state: Handshake,
    m: ReliableModel,
    session_id: Seq<char>,
    msg: MessageModel,
    now: Nanos,
)
    requires
        msg is Answer,
        !state.answer_received,
    ensures
        ({
            let o = handshake_step(state, m, session_id, HandshakeEventModel::Received(msg), now);
            &&& o.state == state
            &&& match description_syntax(DescriptionKind::Answer, msg->Answer_answer_sdp) {
                Ok(d) => o.action == HandshakeActionModel::Describe(d),
                Err(why) => o.action == (HandshakeActionModel::Fail { reason: why, close: false }),
            }
        }),
{
}

/// What comes from the agent is noted in the numbering of the session, whatever kind of message it
/// is: its number becomes the last one that came, and what it acknowledges is settled.
pub proof fn law_handshake_notes_every_message(
    state: Handshake,
    m: ReliableModel,
    session_id: Seq<char>,
    msg: MessageModel,
    now: Nanos,
)
    ensures
        ({
            let o = handshake_step(state, m, session_id, HandshakeEventModel::Received(msg), now);
            let got = m.received(msg);
            &&& o.reliable.last_recv_seq == got.last_recv_seq
            &&& o.reliable.pending == got.pending
            &&& o.reliable.peer_reliable == got.peer_reliable
            &&& !(o.action is Finish) ==> o.reliable == got
        }),
{
}

/// The end of the candidates waits for the answer: before it, nothing is sent and only the end is
/// remembered; after it, the handshake is over.
pub proof fn law_end_of_candidates(
    state: Handshake,
    m: ReliableModel,
    session_id: Seq<char>,
    msg: MessageModel,
    now: Nanos,
)
    requires
        msg is EndOfCandidates,
    ensures
        ({
            let o = handshake_step(state, m, session_id, HandshakeEventModel::Received(msg), now);
            &&& o.state.answer_received == state.answer_received
            &&& state.answer_received ==> o.action is Finish
            &&& !state.answer_received ==> o.state.received_end_of_candidates && o.action
                == HandshakeActionModel::Continue(None)
        }),
{
}

/// The acknowledgement of what came last: it names its session and that number, and has the next
/// number of its sender.
pub open spec fn acknowledges(msg: MessageModel, session_id: Seq<char>, number: u64, own: int) -> bool {
    &&& msg is Ack
    &&& msg->Ack_session_id == session_id
    &&& msg->ack_seq == number
    &&& msg->Ack_seq matches Some(s) && s == own
    &&& msg->Ack_ack == Some(number)
}

/// An answer that was taken in is acknowledged at once, if the agent numbers its messages. With the
/// end of the candidates known, the handshake is over then, and the last number is acknowledged
/// once more.
pub proof fn law_answer_is_acknowledged(
    state: Handshake,
    m: ReliableModel,
    session_id: Seq<char>,
    now: Nanos,
)
    requires
        m.next_seq + 2 <= u64::MAX,
    ensures
        ({
            let o = handshake_step(state, m, session_id, HandshakeEventModel::Described, now);
            &&& o.state.answer_received
            &&& o.state.received_end_of_candidates == state.received_end_of_candidates
            &&& o.reliable.pending == m.pending
            &&& if state.received_end_of_candidates {
                &&& o.action matches HandshakeActionModel::Finish(ms)
                &&& match m.last_recv_seq {
                    Some(n) => ms.len() == 2 && acknowledges(
                        ms[0],
                        session_id,
                        n,
                        m.next_seq as int,
                    ) && acknowledges(ms[1], session_id, n, m.next_seq + 1) && o.reliable.next_seq
                        == m.next_seq + 2,
                    None => ms.len() == 0 && o.reliable.next_seq == m.next_seq,
                }
            } else {
                &&& o.action matches HandshakeActionModel::Continue(reply)
                &&& match m.last_recv_seq {
                    Some(n) => reply is Some && acknowledges(
                        reply->Some_0,
                        session_id,
                        n,
                        m.next_seq as int,
                    ) && o.reliable.next_seq == m.next_seq + 1,
                    None => reply is None && o.reliable.next_seq == m.next_seq,
                }
            }
        }),
{
}

/// A peer connection that stands ends the handshake well, however far it has come, and so does the
/// loss of the signaling connection: what was agreed on holds. The last number that came is
/// acknowledged.
pub proof fn law_connection_ends_the_handshake(
    state: Handshake,
    m: ReliableModel,
    session_id: Seq<char>,
    reason: Option<Seq<char>>,
    now: Nanos,
)
    requires
        m.next_seq < u64::MAX,
    ensures
        ({
            let o = handshake_step(
                state,
                m,
                session_id,
                HandshakeEventModel::Peer { state: PeerState::Connected, reason },
                now,
            );
            &&& o == handshake_step(state, m, session_id, HandshakeEventModel::SignalingLost, now)
            &&& o.state == state
            &&& o.action matches HandshakeActionModel::Finish(ms)
            &&& match m.last_recv_seq {
                Some(n) => ms.len() == 1 && acknowledges(ms[0], session_id, n, m.next_seq as int),
                None => ms.len() == 0,
            }
        }),
{
    let o = handshake_step(state, m, session_id, HandshakeEventModel::SignalingLost, now);
    if let Some(n) = m.last_recv_seq {
        let ack = m.outgoing(ack_message(session_id, n));
        assert(o.action->Finish_0 =~= seq![ack]);
    } else {
        assert(o.action->Finish_0 =~= Seq::empty());
    }
}

/// A peer connection that fails or is closed fails the handshake, with the reason that is known. Its
/// other states are waited out. None of them closes the signaling connection.
pub proof fn law_lost_peer_fails_the_handshake(
    state: Handshake,
    m: ReliableModel,
    session_id: Seq<char>,
    peer: PeerState,
    reason: Option<Seq<char>>,
    now: Nanos,
)
    ensures
        ({
            let o = handshake_step(
                state,
                m,
                session_id,
                HandshakeEventModel::Peer { state: peer, reason },
                now,
            );
            &&& o.state == state
            &&& peer is Failed && reason is Some ==> o.action == (HandshakeActionModel::Fail {
                reason: "WebRTC failed: "@ + reason->Some_0,
                close: false,
            })
            &&& peer is Failed ==> o.action is Fail && !o.action->close
            &&& peer is Closed ==> o.action == (HandshakeActionModel::Fail {
                reason: "WebRTC closed"@,
                close: false,
            })
            &&& peer is New || peer is Connecting || peer is Disconnected ==> o.action
                == HandshakeActionModel::Continue(None) && o.reliable == m
        }),
{
}

/// When nothing happens for a while, a handshake with the answer is over, one that knows of all
/// candidates but has no answer has failed, and any other goes on. A description that is not taken
/// in fails it with the reason.
pub proof fn law_handshake_timeouts(
    state: Handshake,
    m: ReliableModel,
    session_id: Seq<char>,
    why: Seq<char>,
    now: Nanos,
)
    ensures
        ({
            let o = handshake_step(state, m, session_id, HandshakeEventModel::TimedOut, now);
            &&& o.state == state
            &&& state.answer_received <==> o.action is Finish
            &&& !state.answer_received && state.received_end_of_candidates ==> o.action == (
            HandshakeActionModel::Fail {
                reason: "Timeout waiting for answer from agent"@,
                close: false,
            })
            &&& !state.answer_received && !state.received_end_of_candidates ==> o.action
                == HandshakeActionModel::Continue(None)
        }),
        handshake_step(state, m, session_id, HandshakeEventModel::NotDescribed(why), now).action == (
        HandshakeActionModel::Fail { reason: why, close: false }),
        HANDSHAKE_TIMEOUT == 30 * 1000000000,
{
}

/// Messages that are no part of a handshake are passed over.
pub proof fn law_other_messages_are_passed_over(
    state: Handshake,
    m: ReliableModel,
    session_id: Seq<char>,
    msg: MessageModel,
    now: Nanos,
)
    requires
        msg is Register || msg is Offer || msg is IceServers || msg is GetIceServers || msg is Ping
            || msg is Pong || msg is Ack,
    ensures
        ({
            let o = handshake_step(state, m, session_id, HandshakeEventModel::Received(msg), now);
            o.state == state && o.action == HandshakeActionModel::Continue(None)
        }),
{
}

/// Forwardings that all have local ports get a listener each, in their order: it listens on that
/// port of this machine alone, and leads to the host and the port of the forwarding.
pub proof fn law_each_forward_has_its_listener(forwards: Seq<ForwardModel>)
    requires
        forall|i: int| 0 <= i < forwards.len() ==> (#[trigger] forwards[i]).local_port is Some,
    ensures
        listeners_for(forwards).len() == forwards.len(),
        all_have_local_ports(forwards),
        forall|i: int|
            0 <= i < forwards.len() ==> (#[trigger] listeners_for(forwards)[i]).host
                == forwards[i].host && listeners_for(forwards)[i].port == forwards[i].port
                && listeners_for(forwards)[i].bind == "127.0.0.1:"@ + crate::text::decimal(
                forwards[i].local_port->Some_0 as nat,
            ),
    decreases forwards.len(),
{
    if forwards.len() > 0 {
        let rest = forwards.drop_first();
        assert forall|i: int| 0 <= i < rest.len() implies (#[trigger] rest[i]).local_port is Some by {
            assert(rest[i] == forwards[i + 1]);
        }
        law_each_forward_has_its_listener(rest);
        let all = listeners_for(forwards);
        assert forall|i: int| 0 <= i < forwards.len() implies (#[trigger] all[i]).host
            == forwards[i].host && all[i].port == forwards[i].port && all[i].bind == "127.0.0.1:"@
            + crate::text::decimal(forwards[i].local_port->Some_0 as nat) by {
            assert(forwards[0].local_port is Some);
            if i > 0 {
                assert(all[i] == listeners_for(rest)[i - 1]);
                assert(forwards[i] == rest[i - 1]);
            }
        }
    }
}

/// A forwarding without a local port is no forwarding of ports: it is an error, and the listeners
/// are those of the forwardings before it.
pub proof fn law_missing_local_port_ends_the_list(
    before: Seq<ForwardModel>,
    f: ForwardModel,
    after: Seq<ForwardModel>,
)
    requires
        f.local_port is None,
    ensures
        !all_have_local_ports(before + seq![f] + after),
        listeners_for(before + seq![f] + after) == listeners_for(before),
    decreases before.len(),
{
    let all = before + seq![f] + after;
    assert(all[before.len() as int].local_port is None);
    if before.len() > 0 {
        law_missing_local_port_ends_the_list(before.drop_first(), f, after);
        assert(all.drop_first() =~= before.drop_first() + seq![f] + after);
        assert(all[0] == before[0]);
    }
}

/// The label of a data channel tells its target: different targets have different labels.
pub proof fn law_label_tells_the_target(host: Seq<char>, port: u16, other: Seq<char>, to: u16)
    ensures
        channel_label(host, port) == channel_label(other, to) ==> host == other && port == to,
        channel_label(host, port).take(4) == "fwd:"@,
        crate::text::split_last(channel_label(host, port).skip(4), ':') == Some(
            (host, crate::text::decimal(port as nat)),
        ),
{
    lemma_label(host, port);
    lemma_label(other, to);
    if port != to {
        crate::text::law_decimal_tells_apart(port as nat, to as nat);
    }
}

proof fn lemma_label(host: Seq<char>, port: u16)
    ensures
        channel_label(host, port).take(4) == "fwd:"@,
        crate::text::split_last(channel_label(host, port).skip(4), ':') == Some(
            (host, crate::text::decimal(port as nat)),
        ),
{
    reveal_strlit("fwd:");
    reveal_strlit(":");
    let tail = crate::text::decimal(port as nat);
    crate::text::lemma_decimal_digits(port);
    assert forall|i: int| 0 <= i < tail.len() implies tail[i] != ':' by {
        assert(crate::text::is_digit(tail[i]));
    }
    crate::text::law_last_part_reads_back(host, tail, ':');
    assert(channel_label(host, port).take(4) =~= "fwd:"@);
    assert(channel_label(host, port).skip(4) =~= host + seq![':'] + tail);
}

/// An offer asks the agent for one target, the one of the forwarding, and carries the description
/// and the session as they are.
pub proof fn law_offer_asks_for_its_target(
    session_id: Seq<char>,
    agent_id: Seq<char>,
    offer_sdp: Seq<char>,
    host: Seq<char>,
    port: u16,
)
    ensures
        ({
            let o = offer_message(session_id, agent_id, offer_sdp, host, port);
            &&& o is Offer
            &&& o->Offer_session_id == session_id
            &&& o->agent_id == agent_id
            &&& o->offer_sdp == offer_sdp
            &&& o->targets is Some && o->targets->Some_0.len() == 1
            &&& o->targets->Some_0[0].host == Some(host)
            &&& o->targets->Some_0[0].port == port
        }),
{
}

/// Only a message that announces ICE servers brings any, and it brings all of them.
pub proof fn law_only_an_announcement_brings_servers(reply: IceReply)
    ensures
        servers_in(reply) is Some <==> (reply matches IceReply::Received(msg) && msg is IceServers),
        reply matches IceReply::Received(msg) ==> (msg.deep_view() matches MessageModel::IceServers {
            ice_servers,
        } ==> servers_in(reply) == Some(ice_servers)),
{
}

/// The handshake itself hands every candidate that can be read to the peer connection, before and
/// after the answer.
pub proof fn law_step_adds_every_candidate(
    handshake: &mut Handshake,
    reliable: &mut ReliableSession,
    session_id: &str,
    msg: SignalingMessage,
    now: Nanos,
    r: HandshakeAction,
)
    requires
        msg is Candidate,
        call_ensures(
            Handshake::step,
            (handshake, reliable, session_id, HandshakeEvent::Received(msg), now),
            r,
        ),
    ensures
        candidate_syntax(msg->candidate@) matches Some(c) ==> r == HandshakeAction::AddCandidate(c),
        *final(handshake) == *old(handshake),
{
    let ghost m = msg.deep_view();
    assert(m is Candidate && m->candidate == msg->candidate@);
}

/// An offer is made of the description of the client, for its own agent and the one target. Without
/// a description there is none.
pub proof fn law_offer_of_a_client(
    client: &CliClient,
    session_id: &str,
    local_description: Option<String>,
    host: &str,
    port: u16,
    r: Result<SignalingMessage, &'static str>,
)
    requires
        call_ensures(
            CliClient::make_offer,
            (client, session_id, local_description, host, port),
            r,
        ),
    ensures
        r is Ok <==> local_description is Some,
        r matches Ok(msg) ==> (msg.deep_view() matches MessageModel::Offer {
            session_id: sid,
            agent_id,
            offer_sdp,
            targets,
            ..
        } && sid == session_id@ && agent_id == client@.agent_id && offer_sdp
            == local_description->Some_0@ && targets is Some && targets->Some_0.len() == 1
            && targets->Some_0[0].host == Some(host@) && targets->Some_0[0].port == port),
{
}

/// Forwardings are listened for exactly if each has a local port.
pub proof fn law_listeners_need_local_ports(
    forwards: &Vec<ForwardMapping>,
    r: (Vec<Listener>, Result<(), &'static str>),
)
    requires
        call_ensures(CliClient::listeners, (forwards,), r),
    ensures
        r.1 is Ok <==> forall|i: int|
            0 <= i < forwards@.len() ==> (#[trigger] forwards@[i]).local_port is Some,
        r.1 is Ok ==> r.0@.len() == forwards@.len() && forall|i: int|
            0 <= i < forwards@.len() ==> (#[trigger] r.0@[i]).host@ == forwards@[i].host@ && r.0@[i].port
                == forwards@[i].port && r.0@[i].bind@ == "127.0.0.1:"@ + crate::text::decimal(
                forwards@[i].local_port->Some_0 as nat,
            ),
{
    let all = forwards.deep_view();
    assert(all.len() == forwards@.len());
    assert(r.0.deep_view().len() == r.0@.len());
    assert forall|i: int| 0 <= i < all.len() implies (#[trigger] all[i]).local_port
        == forwards@[i].local_port by {}
    if r.1 is Ok {
        law_each_forward_has_its_listener(all);
        assert forall|i: int| 0 <= i < forwards@.len() implies (#[trigger] r.0@[i]).host@
            == forwards@[i].host@ && r.0@[i].port == forwards@[i].port && r.0@[i].bind@
            == "127.0.0.1:"@ + crate::text::decimal(forwards@[i].local_port->Some_0 as nat) by {
            assert(r.0.deep_view()[i] == r.0@[i].deep_view());
            assert(all[i] == forwards@[i].deep_view());
            assert(listeners_for(all)[i].host == all[i].host);
        }
        assert forall|i: int| 0 <= i < forwards@.len() implies (#[trigger] forwards@[i]).local_port is Some by {
            assert(all[i].local_port is Some);
        }
    } else {
        let i = choose|i: int| 0 <= i < all.len() && !((#[trigger] all[i]).local_port is Some);
        assert(forwards@[i].local_port is None);
    }
}

/// A client holds what it was made with: its server, its token and its agent.
pub proof fn law_client_is_made_as_asked(
    server_url: &str,
    token: &str,
    agent_id: &str,
    ice_servers: Option<Vec<IceServerConfig>>,
    upnp: bool,
    wait_candidates: bool,
    cfg: &RportConfig,
    r: CliClient,
)
    requires
        call_ensures(
            CliClient::new,
            (server_url, token, agent_id, ice_servers, upnp, wait_candidates, cfg),
            r,
        ),
    ensures
        r@.server_url == server_url@,
        r@.token == token@,
        r@.agent_id == agent_id@,
        r@.wait_candidates == wait_candidates,
        r@.webrtc.enable_upnp == upnp,
        ice_servers matches Some(s) ==> r@.webrtc.ice_servers == s.deep_view(),
        ice_servers is None ==> r@.webrtc.ice_servers.len() == 0,
{
}

} // verus!
