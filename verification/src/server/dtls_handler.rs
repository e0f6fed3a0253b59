//! Signaling over DTLS: agents register, clients send offers, and messages go between them.
//!
//! A connection is known by a number that its user has given it.
use crate::peer::{is_random_uuid, new_id};
use crate::registry::{lemma_insert_modelled, lemma_remove_modelled, same_entry, Registry};
use crate::server::handler::{
    key_has_id, offer_notice, AppModel, AppState, PendingOfferModel, ServerDataModel, ServerMessage,
    ServerMessageModel,
};
use crate::text::text_eq;
use vstd::prelude::*;

verus! {

/// How often an agent is pinged.
pub const AGENT_PING_INTERVAL: u128 = 15000000000;

/// How long an agent may stay silent.
pub const AGENT_TIMEOUT: u128 = 30000000000;

/// How long a client may stay silent.
pub const CLIENT_TIMEOUT: u128 = 60000000000;

/// Where a forwarded connection goes.
#[derive(Debug)]
pub struct Target {
    pub host: Option<String>,
    pub port: u16,
}

/// What a [`Target`] says.
#[verifier::ext_equal]
pub struct TargetModel {
    pub host: Option<Seq<char>>,
    pub port: u16,
}

impl DeepView for Target {
    type V = TargetModel;

    open spec fn deep_view(&self) -> TargetModel {
        TargetModel { host: self.host.deep_view(), port: self.port }
    }
}

/// A message, as the server reads it and passes it on. Numbers of messages are not among it.
#[derive(Debug)]
pub enum SignalingMessage {
    Register { token: String, id: String },
    Offer {
        session_id: String,
        agent_id: String,
        offer_sdp: String,
        targets: Option<Vec<Target>>,
    },
    Answer { session_id: String, answer_sdp: String },
    Candidate { session_id: String, candidate: String },
    EndOfCandidates { session_id: String },
    Error { session_id: String, reason: String },
    Ping,
    Pong,
}

/// What a [`SignalingMessage`] says.
#[verifier::ext_equal]
pub enum MessageModel {
    Register { token: Seq<char>, id: Seq<char> },
    Offer {
        session_id: Seq<char>,
        agent_id: Seq<char>,
        offer_sdp: Seq<char>,
        targets: Option<Seq<TargetModel>>,
    },
    Answer { session_id: Seq<char>, answer_sdp: Seq<char> },
    Candidate { session_id: Seq<char>, candidate: Seq<char> },
    EndOfCandidates { session_id: Seq<char> },
    Error { session_id: Seq<char>, reason: Seq<char> },
    Ping,
    Pong,
}

impl DeepView for SignalingMessage {
    type V = MessageModel;

    open spec fn deep_view(&self) -> MessageModel {
        match *self {
            SignalingMessage::Register { token, id } => MessageModel::Register {
                token: token@,
                id: id@,
            },
            SignalingMessage::Offer { session_id, agent_id, offer_sdp, targets } =>
                MessageModel::Offer {
                session_id: session_id@,
                agent_id: agent_id@,
                offer_sdp: offer_sdp@,
                targets: targets.deep_view(),
            },
            SignalingMessage::Answer { session_id, answer_sdp } => MessageModel::Answer {
                session_id: session_id@,
                answer_sdp: answer_sdp@,
            },
            SignalingMessage::Candidate { session_id, candidate } => MessageModel::Candidate {
                session_id: session_id@,
                candidate: candidate@,
            },
            SignalingMessage::EndOfCandidates { session_id } => MessageModel::EndOfCandidates {
                session_id: session_id@,
            },
            SignalingMessage::Error { session_id, reason } => MessageModel::Error {
                session_id: session_id@,
                reason: reason@,
            },
            SignalingMessage::Ping => MessageModel::Ping,
            SignalingMessage::Pong => MessageModel::Pong,
        }
    }
}

/// The connection of a client, and the agent that it has asked for.
#[derive(Debug)]
pub struct ClientSession {
    pub connection: u64,
    pub agent_id: String,
}

/// What a [`ClientSession`] says.
#[verifier::ext_equal]
pub struct SessionModel {
    pub connection: u64,
    pub agent_id: Seq<char>,
}

impl ClientSession {
    /// What the session says.
    pub open spec fn model(&self) -> SessionModel {
        SessionModel { connection: self.connection, agent_id: self.agent_id@ }
    }
}

/// The agents and the sessions of clients that are connected over DTLS.
pub struct DtlsHandler {
    agents: Registry<u64>,
    sessions: Registry<ClientSession>,
    connect_counts: Registry<usize>,
}

/// What a [`DtlsHandler`] holds.
#[verifier::ext_equal]
pub struct HandlerModel {
    /// The connection of each agent.
    pub agents: Map<Seq<char>, u64>,
    /// The sessions of clients.
    pub sessions: Map<Seq<char>, SessionModel>,
    /// How often each agent has registered.
    pub connect_counts: Map<Seq<char>, usize>,
}

impl View for DtlsHandler {
    type V = HandlerModel;

    closed spec fn view(&self) -> HandlerModel {
        HandlerModel {
            agents: self.agents@,
            sessions: self.sessions@.map_values(|s: ClientSession| s.model()),
            connect_counts: self.connect_counts@,
        }
    }
}

/// The sessions that are not for this agent.
pub open spec fn sessions_without(
    sessions: Map<Seq<char>, SessionModel>,
    agent_id: Seq<char>,
) -> Map<Seq<char>, SessionModel> {
    Map::new(
        |k: Seq<char>| sessions.dom().contains(k) && sessions[k].agent_id != agent_id,
        |k: Seq<char>| sessions[k],
    )
}

impl HandlerModel {
    /// How often an agent has registered.
    pub open spec fn count(self, id: Seq<char>) -> usize {
        if self.connect_counts.dom().contains(id) {
            self.connect_counts[id]
        } else {
            0
        }
    }

    /// The state once an agent has registered over `connection`.
    pub open spec fn registered(self, id: Seq<char>, connection: u64) -> HandlerModel {
        HandlerModel {
            agents: self.agents.insert(id, connection),
            connect_counts: self.connect_counts.insert(id, (self.count(id) + 1) as usize),
            ..self
        }
    }

    /// The state once an agent is gone: so are the sessions for it.
    pub open spec fn agent_gone(self, id: Seq<char>) -> HandlerModel {
        HandlerModel {
            agents: self.agents.remove(id),
            sessions: sessions_without(self.sessions, id),
            ..self
        }
    }

    /// The state with a session of a client.
    pub open spec fn opened(self, session_id: Seq<char>, s: SessionModel) -> HandlerModel {
        HandlerModel { sessions: self.sessions.insert(session_id, s), ..self }
    }

    /// The state without a session.
    pub open spec fn closed(self, session_id: Seq<char>) -> HandlerModel {
        HandlerModel { sessions: self.sessions.remove(session_id), ..self }
    }
}

/// What to do with a connection after its first message.
#[derive(Debug)]
pub enum FirstAction {
    /// It is an agent, for the `count`th time: take its messages.
    ServeAgent { id: String, count: usize },
    /// It is a client. Send this offer to the agent, report what came of it to
    /// [`DtlsHandler::offer_forwarded`], and then take the messages of the client.
    ForwardOffer { to: u64, session_id: String, agent_id: String, msg: SignalingMessage },
    /// It is a client whose agent listens over HTTP. Send this message to the agent that goes by
    /// `agent_key` there, report what came of it to [`DtlsHandler::bridge_answered`], and then
    /// take the messages of the client.
    Bridge {
        uuid: String,
        agent_key: String,
        session_id: String,
        agent_id: String,
        message: ServerMessage,
    },
    /// Send this message back and leave the connection.
    Refuse(SignalingMessage),
    /// Leave the connection.
    Drop,
}

/// What is said when an agent cannot serve an offer.
pub open spec fn agent_error(
    session_id: Seq<char>,
    agent_id: Seq<char>,
    what: Seq<char>,
) -> MessageModel {
    MessageModel::Error { session_id, reason: "Agent '"@ + agent_id + "' "@ + what }
}

fn make_agent_error(session_id: String, agent_id: &str, what: &str) -> (r: SignalingMessage)
    ensures
        r.deep_view() == agent_error(session_id@, agent_id@, what@),
{
    SignalingMessage::Error {
        session_id,
        reason: "Agent '".to_owned().concat(agent_id).concat("' ").concat(what),
    }
}

/// The state with an offer that is bridged to an agent over HTTP.
pub open spec fn bridged<S, T, C>(
    http: AppModel<S, T, C>,
    uuid: Seq<char>,
    p: PendingOfferModel<T>,
    candidates: C,
) -> AppModel<S, T, C> {
    AppModel {
        pending_offers: http.pending_offers.insert(uuid, p),
        pending_candidates: http.pending_candidates.insert(uuid, candidates),
        ..http
    }
}

/// The state without an offer that was bridged.
pub open spec fn unbridged<S, T, C>(http: AppModel<S, T, C>, uuid: Seq<char>) -> AppModel<S, T, C> {
    AppModel {
        pending_offers: http.pending_offers.remove(uuid),
        pending_candidates: http.pending_candidates.remove(uuid),
        ..http
    }
}

/// What an offer as the first message leads to: the agent is asked over DTLS if it is there, else
/// over HTTP if it is there, else the client is told that there is no such agent.
pub open spec fn offer_step<S, T, C>(
    before: HandlerModel,
    http_before: AppModel<S, T, C>,
    connection: u64,
    client_ip: Seq<char>,
    offer: MessageModel,
    uuid: Seq<char>,
    answer: T,
    candidates: C,
    after: HandlerModel,
    http_after: AppModel<S, T, C>,
    action: FirstAction,
) -> bool {
    let sid = offer->Offer_session_id;
    let aid = offer->Offer_agent_id;
    let sdp = offer->Offer_offer_sdp;
    let opened = before.opened(sid, SessionModel { connection, agent_id: aid });
    if before.agents.dom().contains(aid) {
        &&& after == opened
        &&& http_after == http_before
        &&& action matches FirstAction::ForwardOffer { to, session_id, agent_id, msg }
        &&& to == before.agents[aid]
        &&& session_id@ == sid
        &&& agent_id@ == aid
        &&& msg.deep_view() == offer
    } else if exists|key: Seq<char>|
        http_before.agents.dom().contains(key) && #[trigger] key_has_id(key, aid) {
        &&& after == opened
        &&& http_after == bridged(
            http_before,
            uuid,
            PendingOfferModel { offer: sdp, client_ip, sender: answer },
            candidates,
        )
        &&& action matches FirstAction::Bridge {
            uuid: u,
            agent_key,
            session_id,
            agent_id,
            message,
        }
        &&& u@ == uuid
        &&& http_before.agents.dom().contains(agent_key@)
        &&& key_has_id(agent_key@, aid)
        &&& session_id@ == sid
        &&& agent_id@ == aid
        &&& message.deep_view() == offer_notice(uuid, sdp, client_ip)
    } else {
        &&& after == opened.closed(sid)
        &&& http_after == http_before
        &&& action matches FirstAction::Refuse(msg)
        &&& msg.deep_view() == agent_error(sid, aid, "not found"@)
    }
}

/// What the first message of a connection leads to.
pub open spec fn first_step<S, T, C>(
    before: HandlerModel,
    http_before: AppModel<S, T, C>,
    connection: u64,
    client_ip: Seq<char>,
    msg: MessageModel,
    uuid: Seq<char>,
    answer: T,
    candidates: C,
    after: HandlerModel,
    http_after: AppModel<S, T, C>,
    action: FirstAction,
) -> bool {
    match msg {
        MessageModel::Register { id, .. } => {
            &&& after == before.registered(id, connection)
            &&& http_after == http_before
            &&& action matches FirstAction::ServeAgent { id: i, count }
            &&& i@ == id
            &&& count == before.count(id) + 1
        },
        MessageModel::Offer { .. } => offer_step(
            before,
            http_before,
            connection,
            client_ip,
            msg,
            uuid,
            answer,
            candidates,
            after,
            http_after,
            action,
        ),
        _ => {
            &&& after == before
            &&& http_after == http_before
            &&& action is Drop
        },
    }
}

/// What happens on the connection of an agent.
#[derive(Debug)]
pub enum LoopEvent {
    Received(SignalingMessage),
    /// The connection has failed.
    Failed,
    /// Nothing came in time.
    TimedOut,
    /// The other side could not be pinged.
    PingFailed,
}

/// What to do about a [`LoopEvent`].
#[derive(Debug)]
pub enum LoopAction {
    /// Nothing.
    Wait,
    /// Send a message over a connection. Nothing follows if that fails.
    Send { to: u64, msg: SignalingMessage },
    /// Take no more messages.
    End,
}

/// Whether a message is passed on from an agent to the client of its session: the session.
pub open spec fn for_client(msg: MessageModel) -> Option<Seq<char>> {
    match msg {
        MessageModel::Answer { session_id, .. } => Some(session_id),
        MessageModel::Candidate { session_id, .. } => Some(session_id),
        MessageModel::EndOfCandidates { session_id } => Some(session_id),
        _ => None,
    }
}

/// Whether `action` sends `msg` over the connection `to`.
pub open spec fn sends(action: LoopAction, to: u64, msg: MessageModel) -> bool {
    action matches LoopAction::Send { to: t, msg: m } && t == to && m.deep_view() == msg
}

/// What an event on the connection of an agent leads to.
pub open spec fn agent_loop_step(
    state: HandlerModel,
    connection: u64,
    event: LoopEvent,
    action: LoopAction,
) -> bool {
    match event {
        LoopEvent::Received(msg) => match for_client(msg.deep_view()) {
            Some(sid) => if state.sessions.dom().contains(sid) {
                sends(action, state.sessions[sid].connection, msg.deep_view())
            } else {
                action is Wait
            },
            None => if msg is Ping {
                sends(action, connection, MessageModel::Pong)
            } else {
                action is Wait
            },
        },
        _ => action is End,
    }
}

/// What an event on the connection of a client leads to. Its candidates go to the agent that it has
/// asked for.
pub open spec fn client_loop_step(
    state: HandlerModel,
    connection: u64,
    agent_id: Seq<char>,
    event: LoopEvent,
    action: LoopAction,
) -> bool {
    match event {
        LoopEvent::Received(msg) => match msg {
            SignalingMessage::Candidate { .. } | SignalingMessage::EndOfCandidates { .. } =>
                if state.agents.dom().contains(agent_id) {
                sends(action, state.agents[agent_id], msg.deep_view())
            } else {
                action is Wait
            },
            SignalingMessage::Ping => sends(action, connection, MessageModel::Pong),
            SignalingMessage::Error { .. } => action is End,
            _ => action is Wait,
        },
        _ => action is End,
    }
}

/// What happens while a client is bridged to an agent over HTTP.
#[derive(Debug)]
pub enum BridgeEvent {
    /// A message came from the client.
    Received(SignalingMessage),
    /// The connection of the client has failed.
    Failed,
    /// A candidate came from the agent.
    Candidate(String),
    /// There will be no more candidates from the agent.
    CandidatesEnded,
}

/// What to do about a [`BridgeEvent`].
#[derive(Debug)]
pub enum BridgeAction {
    /// Nothing.
    Wait,
    /// Send this message to the client.
    ToClient(SignalingMessage),
    /// Send this message to the agent.
    ToAgent(ServerMessage),
    /// The bridge is over.
    End,
}

/// What a bridge event leads to. `agent_there` tells whether the agent was there when the bridge
/// began.
pub open spec fn bridge_step(
    session_id: Seq<char>,
    agent_there: bool,
    event: BridgeEvent,
    action: BridgeAction,
) -> bool {
    match event {
        BridgeEvent::Received(msg) => match msg.deep_view() {
            MessageModel::Candidate { session_id: sid, candidate } => if agent_there {
                action matches BridgeAction::ToAgent(m) && m.deep_view() == (ServerMessageModel {
                    message_type: "candidate"@,
                    data: ServerDataModel::Candidate { session_id: sid, candidate },
                })
            } else {
                action is Wait
            },
            MessageModel::EndOfCandidates { session_id: sid } => if agent_there {
                action matches BridgeAction::ToAgent(m) && m.deep_view() == (ServerMessageModel {
                    message_type: "end-of-candidates"@,
                    data: ServerDataModel::EndOfCandidates { session_id: sid },
                })
            } else {
                action is Wait
            },
            MessageModel::Ping => action matches BridgeAction::ToClient(m) && m.deep_view()
                == MessageModel::Pong,
            MessageModel::Error { .. } => action is End,
            _ => action is Wait,
        },
        BridgeEvent::Candidate(c) => action matches BridgeAction::ToClient(m) && m.deep_view() == (
        MessageModel::Candidate { session_id, candidate: c@ }),
        BridgeEvent::Failed | BridgeEvent::CandidatesEnded => action is End,
    }
}

/// What to do about an event of a bridge.
pub fn client_loop_bridge(session_id: &str, agent_there: bool, event: BridgeEvent) -> (r:
    BridgeAction)
    ensures
        bridge_step(session_id@, agent_there, event, r),
{
    match event {
        BridgeEvent::Received(msg) => match msg {
            SignalingMessage::Candidate { session_id: sid, candidate } => if agent_there {
                BridgeAction::ToAgent(ServerMessage::new_candidate(sid, candidate))
            } else {
                BridgeAction::Wait
            },
            SignalingMessage::EndOfCandidates { session_id: sid } => if agent_there {
                BridgeAction::ToAgent(ServerMessage::new_end_of_candidates(sid))
            } else {
                BridgeAction::Wait
            },
            SignalingMessage::Ping => BridgeAction::ToClient(SignalingMessage::Pong),
            SignalingMessage::Error { .. } => BridgeAction::End,
            _ => BridgeAction::Wait,
        },
        BridgeEvent::Candidate(candidate) => BridgeAction::ToClient(
            SignalingMessage::Candidate { session_id: session_id.to_owned(), candidate },
        ),
        BridgeEvent::Failed | BridgeEvent::CandidatesEnded => BridgeAction::End,
    }
}

/// What became of an offer that is bridged to an agent over HTTP.
#[derive(Debug)]
pub enum BridgeOutcome {
    /// The agent could not be reached.
    NotSent,
    /// The agent has answered.
    Answered(String),
    /// There was no answer in time, or there will be none.
    NoAnswer,
}

impl DtlsHandler {
    /// No name stands for two things.
    pub closed spec fn wf(&self) -> bool {
        self.agents.wf() && self.sessions.wf() && self.connect_counts.wf()
    }

    /// Nobody is connected.
    pub fn new() -> (r: DtlsHandler)
        ensures
            r.wf(),
            r@ == (HandlerModel {
                agents: Map::empty(),
                sessions: Map::empty(),
                connect_counts: Map::empty(),
            }),
    {
        let r = DtlsHandler {
            agents: Registry::new(),
            sessions: Registry::new(),
            connect_counts: Registry::new(),
        };
        assert(r@.sessions =~= Map::empty());
        r
    }

    /// How often an agent has registered.
    pub fn registrations(&self, id: &str) -> (r: usize)
        requires
            self.wf(),
        ensures
            r == self@.count(id@),
    {
        match self.connect_counts.get(id) {
            Some(n) => *n,
            None => 0,
        }
    }

    fn register(&mut self, id: String, connection: u64) -> (r: usize)
        requires
            old(self).wf(),
            old(self)@.count(id@) < usize::MAX,
        ensures
            final(self).wf(),
            final(self)@ == old(self)@.registered(id@, connection),
            r == old(self)@.count(id@) + 1,
    {
        let count: usize = self.registrations(id.as_str()) + 1;
        self.connect_counts.insert(id.clone(), count);
        self.agents.insert(id, connection);
        count
    }

    fn open_session(&mut self, session_id: String, connection: u64, agent_id: String)
        requires
            old(self).wf(),
        ensures
            final(self).wf(),
            final(self)@ == old(self)@.opened(
                session_id@,
                SessionModel { connection, agent_id: agent_id@ },
            ),
    {
        let s = ClientSession { connection, agent_id };
        proof {
            lemma_insert_modelled(self.sessions@, session_id@, s, |s: ClientSession| s.model());
        }
        self.sessions.insert(session_id, s);
    }

    /// The session of a client is over.
    pub fn close_session(&mut self, session_id: &str)
        requires
            old(self).wf(),
        ensures
            final(self).wf(),
            final(self)@ == old(self)@.closed(session_id@),
    {
        proof {
            lemma_remove_modelled(self.sessions@, session_id@, |s: ClientSession| s.model());
        }
        let _ = self.sessions.remove(session_id);
    }

    /// Takes in the first message of a connection. An offer for an agent over HTTP gets this uuid;
    /// its answer goes into `answer` and the candidates of the agent into `candidates`.
    pub fn first_message_as<S, T, C>(
        &mut self,
        http: &mut AppState<S, T, C>,
        connection: u64,
        client_ip: &str,
        msg: SignalingMessage,
        uuid: String,
        answer: T,
        candidates: C,
    ) -> (r: FirstAction)
        requires
            old(self).wf(),
            old(http).wf(),
            msg.deep_view() matches MessageModel::Register { id, .. } ==> old(self)@.count(id)
                < usize::MAX,
        ensures
            final(self).wf(),
            final(http).wf(),
            first_step(
                old(self)@,
                old(http)@,
                connection,
                client_ip@,
                msg.deep_view(),
                uuid@,
                answer,
                candidates,
                final(self)@,
                final(http)@,
                r,
            ),
    {
        match msg {
            SignalingMessage::Register { token: _, id } => {
                let count = self.register(id.clone(), connection);
                FirstAction::ServeAgent { id, count }
            },
            SignalingMessage::Offer { session_id, agent_id, offer_sdp, targets } => {
                self.open_session(session_id.clone(), connection, agent_id.clone());
                let over_dtls = match self.agents.get(agent_id.as_str()) {
                    Some(to) => Some(*to),
                    None => None,
                };
                if let Some(to) = over_dtls {
                    let msg = SignalingMessage::Offer {
                        session_id: session_id.clone(),
                        agent_id: agent_id.clone(),
                        offer_sdp,
                        targets,
                    };
                    return FirstAction::ForwardOffer { to, session_id, agent_id, msg };
                }
                match http.find_http_agent(agent_id.as_str()) {
                    Some(agent_key) => {
                        let client_ip = client_ip.to_owned();
                        let message = ServerMessage::new_offer(
                            uuid.clone(),
                            offer_sdp.clone(),
                            client_ip.clone(),
                        );
                        http.wait_for_answer(uuid.clone(), offer_sdp, client_ip, answer);
                        http.expect_candidates(uuid.clone(), candidates);
                        FirstAction::Bridge { uuid, agent_key, session_id, agent_id, message }
                    },
                    None => {
                        self.close_session(session_id.as_str());
                        FirstAction::Refuse(
                            make_agent_error(session_id, agent_id.as_str(), "not found"),
                        )
                    },
                }
            },
            _ => FirstAction::Drop,
        }
    }

    /// Takes in the first message of a connection. An offer for an agent over HTTP gets a fresh
    /// uuid.
    pub fn first_message<S, T, C>(
        &mut self,
        http: &mut AppState<S, T, C>,
        connection: u64,
        client_ip: &str,
        msg: SignalingMessage,
        answer: T,
        candidates: C,
    ) -> (r: FirstAction)
        requires
            old(self).wf(),
            old(http).wf(),
            msg.deep_view() matches MessageModel::Register { id, .. } ==> old(self)@.count(id)
                < usize::MAX,
        ensures
            final(self).wf(),
            final(http).wf(),
            exists|uuid: Seq<char>|
                #[trigger] is_random_uuid(uuid) && first_step(
                    old(self)@,
                    old(http)@,
                    connection,
                    client_ip@,
                    msg.deep_view(),
                    uuid,
                    answer,
                    candidates,
                    final(self)@,
                    final(http)@,
                    r,
                ),
    {
        let uuid = new_id();
        let ghost u = uuid@;
        let r = self.first_message_as(http, connection, client_ip, msg, uuid, answer, candidates);
        assert(is_random_uuid(u));
        r
    }

    /// An offer was sent to its agent, or could not be sent. If it could not, the session is over,
    /// and the client is sent the message that is handed back.
    pub fn offer_forwarded(&mut self, session_id: String, agent_id: &str, sent: bool) -> (r: Option<
        SignalingMessage,
    >)
        requires
            old(self).wf(),
        ensures
            final(self).wf(),
            if sent {
                r is None && final(self)@ == old(self)@
            } else {
                &&& r matches Some(m)
                &&& m.deep_view() == agent_error(session_id@, agent_id@, "unavailable"@)
                &&& final(self)@ == old(self)@.closed(session_id@)
            },
    {
        if sent {
            None
        } else {
            self.close_session(session_id.as_str());
            Some(make_agent_error(session_id, agent_id, "unavailable"))
        }
    }

    /// An offer over HTTP has come to this. The client is sent the message that is handed back. If
    /// it is an answer, the bridge begins; if it is an error, the session is over.
    pub fn bridge_answered<S, T, C>(
        &mut self,
        http: &mut AppState<S, T, C>,
        uuid: &str,
        session_id: String,
        agent_id: &str,
        outcome: BridgeOutcome,
    ) -> (r: SignalingMessage)
        requires
            old(self).wf(),
            old(http).wf(),
        ensures
            final(self).wf(),
            final(http).wf(),
            match outcome {
                BridgeOutcome::Answered(answer) => {
                    &&& r.deep_view() == (MessageModel::Answer {
                        session_id: session_id@,
                        answer_sdp: answer@,
                    })
                    &&& final(self)@ == old(self)@
                    &&& final(http)@ == old(http)@
                },
                BridgeOutcome::NotSent => {
                    &&& r.deep_view() == agent_error(session_id@, agent_id@, "unavailable"@)
                    &&& final(self)@ == old(self)@.closed(session_id@)
                    &&& final(http)@ == unbridged(old(http)@, uuid@)
                },
                BridgeOutcome::NoAnswer => {
                    &&& r.deep_view() == agent_error(session_id@, agent_id@, "answer timeout"@)
                    &&& final(self)@ == old(self)@.closed(session_id@)
                    &&& final(http)@ == unbridged(old(http)@, uuid@)
                },
            },
    {
        match outcome {
            BridgeOutcome::Answered(answer_sdp) => SignalingMessage::Answer {
                session_id,
                answer_sdp,
            },
            BridgeOutcome::NotSent => {
                let _ = http.give_up(uuid);
                http.drop_candidates(uuid);
                self.close_session(session_id.as_str());
                make_agent_error(session_id, agent_id, "unavailable")
            },
            BridgeOutcome::NoAnswer => {
                let _ = http.give_up(uuid);
                http.drop_candidates(uuid);
                self.close_session(session_id.as_str());
                make_agent_error(session_id, agent_id, "answer timeout")
            },
        }
    }

    /// A bridge is over.
    pub fn bridge_ended<S, T, C>(
        &mut self,
        http: &mut AppState<S, T, C>,
        uuid: &str,
        session_id: &str,
    )
        requires
            old(self).wf(),
            old(http).wf(),
        ensures
            final(self).wf(),
            final(http).wf(),
            final(self)@ == old(self)@.closed(session_id@),
            final(http)@ == (AppModel {
                pending_candidates: old(http)@.pending_candidates.remove(uuid@),
                ..old(http)@
            }),
    {
        http.drop_candidates(uuid);
        self.close_session(session_id);
    }

    fn pass_to_client(&self, session_id: &str, msg: SignalingMessage) -> (r: LoopAction)
        requires
            self.wf(),
        ensures
            if self@.sessions.dom().contains(session_id@) {
                sends(r, self@.sessions[session_id@].connection, msg.deep_view())
            } else {
                r is Wait
            },
    {
        match self.sessions.get(session_id) {
            Some(s) => LoopAction::Send { to: s.connection, msg },
            None => LoopAction::Wait,
        }
    }

    /// What to do about an event on the connection of an agent.
    pub fn agent_loop(&self, connection: u64, event: LoopEvent) -> (r: LoopAction)
        requires
            self.wf(),
        ensures
            agent_loop_step(self@, connection, event, r),
    {
        match event {
            LoopEvent::Received(msg) => match msg {
                SignalingMessage::Answer { session_id, answer_sdp } => {
                    let sid = session_id.clone();
                    self.pass_to_client(
                        sid.as_str(),
                        SignalingMessage::Answer { session_id, answer_sdp },
                    )
                },
                SignalingMessage::Candidate { session_id, candidate } => {
                    let sid = session_id.clone();
                    self.pass_to_client(
                        sid.as_str(),
                        SignalingMessage::Candidate { session_id, candidate },
                    )
                },
                SignalingMessage::EndOfCandidates { session_id } => {
                    let sid = session_id.clone();
                    self.pass_to_client(
                        sid.as_str(),
                        SignalingMessage::EndOfCandidates { session_id },
                    )
                },
                SignalingMessage::Ping => LoopAction::Send {
                    to: connection,
                    msg: SignalingMessage::Pong,
                },
                _ => LoopAction::Wait,
            },
            _ => LoopAction::End,
        }
    }

    /// What to do about an event on the connection of a client that has asked for this agent.
    pub fn client_loop(&self, connection: u64, agent_id: &str, event: LoopEvent) -> (r: LoopAction)
        requires
            self.wf(),
        ensures
            client_loop_step(self@, connection, agent_id@, event, r),
    {
        match event {
            LoopEvent::Received(msg) => match msg {
                SignalingMessage::Candidate { session_id, candidate } => match self.agents.get(
                    agent_id,
                ) {
                    Some(to) => LoopAction::Send {
                        to: *to,
                        msg: SignalingMessage::Candidate { session_id, candidate },
                    },
                    None => LoopAction::Wait,
                },
                SignalingMessage::EndOfCandidates { session_id } => match self.agents.get(agent_id) {
                    Some(to) => LoopAction::Send {
                        to: *to,
                        msg: SignalingMessage::EndOfCandidates { session_id },
                    },
                    None => LoopAction::Wait,
                },
                SignalingMessage::Ping => LoopAction::Send {
                    to: connection,
                    msg: SignalingMessage::Pong,
                },
                SignalingMessage::Error { .. } => LoopAction::End,
                _ => LoopAction::Wait,
            },
            _ => LoopAction::End,
        }
    }

    /// An agent is gone: so are the sessions for it.
    pub fn agent_ended(&mut self, id: &str)
        requires
            old(self).wf(),
        ensures
            final(self).wf(),
            final(self)@ == old(self)@.agent_gone(id@),
    {
        self.drop_sessions(id);
        let _ = self.agents.remove(id);
    }

    fn drop_sessions(&mut self, id: &str)
        requires
            old(self).wf(),
        ensures
            final(self).wf(),
            final(self)@ == (HandlerModel {
                sessions: sessions_without(old(self)@.sessions, id@),
                ..old(self)@
            }),
    {
        let ghost before = self@.sessions;
        let mut gone: Vec<String> = Vec::new();
        let n = self.sessions.len();
        let mut i: usize = 0;
        proof {
            self.sessions.lemma_names();
        }
        while i < n
            invariant
                self.wf(),
                *self == *old(self),
                before == self@.sessions,
                n == self.sessions.names().len(),
                i <= n,
                forall|k: int|
                    0 <= k < self.sessions.names().len() ==> self.sessions@.dom().contains(
                        #[trigger] self.sessions.names()[k],
                    ),
                forall|k: int|
                    0 <= k < gone@.len() ==> before.dom().contains(#[trigger] gone@[k]@)
                        && before[gone@[k]@].agent_id == id@,
                forall|k: int|
                    0 <= k < i && before[#[trigger] self.sessions.names()[k]].agent_id == id@
                        ==> is_listed(gone@, self.sessions.names()[k]),
            decreases n - i,
        {
            let s = self.sessions.value_at(i);
            let ghost held = gone@;
            if text_eq(s.agent_id.as_str(), id) {
                gone.push(self.sessions.name_at(i).to_owned());
                proof {
                    assert(gone@[held.len() as int]@ == self.sessions.names()[i as int]);
                    assert(is_listed(gone@, self.sessions.names()[i as int]));
                }
            }
            proof {
                assert forall|k: int| 0 <= k < i + 1 && before[#[trigger] self.sessions.names()[k]].agent_id
                    == id@ implies is_listed(gone@, self.sessions.names()[k]) by {
                    if k < i {
                        assert(is_listed(held, self.sessions.names()[k]));
                        let j = choose|j: int|
                            0 <= j < held.len() && held[j]@ == self.sessions.names()[k];
                        assert(gone@[j]@ == self.sessions.names()[k]);
                    }
                }
            }
            i = i + 1;
        }
        proof {
            assert forall|name: Seq<char>| before.dom().contains(name) && #[trigger] before[name].agent_id
                == id@ implies is_listed(gone@, name) by {
                assert(self.sessions.names().contains(name));
                let k = choose|k: int|
                    0 <= k < self.sessions.names().len() && self.sessions.names()[k] == name;
                assert(is_listed(gone@, self.sessions.names()[k]));
            }
        }
        let mut j: usize = 0;
        while j < gone.len()
            invariant
                self.wf(),
                j <= gone@.len(),
                self@.agents == old(self)@.agents,
                self@.connect_counts == old(self)@.connect_counts,
                forall|name: Seq<char>|
                    #[trigger] self@.sessions.dom().contains(name) <==> before.dom().contains(name)
                        && !is_listed(gone@.take(j as int), name),
                forall|name: Seq<char>|
                    self@.sessions.dom().contains(name) ==> #[trigger] self@.sessions[name]
                        == before[name],
            decreases gone@.len() - j,
        {
            let ghost held = self@.sessions;
            self.close_session(gone[j].as_str());
            proof {
                let first = gone@.take(j as int);
                let more = gone@.take(j + 1);
                assert forall|name: Seq<char>| is_listed(more, name) <==> is_listed(first, name)
                    || name == gone@[j as int]@ by {
                    if is_listed(more, name) {
                        let k = choose|k: int| 0 <= k < more.len() && more[k]@ == name;
                        if k < j {
                            assert(first[k]@ == name);
                        }
                    }
                    if is_listed(first, name) {
                        let k = choose|k: int| 0 <= k < first.len() && first[k]@ == name;
                        assert(more[k]@ == name);
                    }
                    if name == gone@[j as int]@ {
                        assert(more[j as int]@ == name);
                    }
                }
                assert(self@.sessions == held.remove(gone@[j as int]@));
            }
            j = j + 1;
        }
        proof {
            assert(gone@.take(gone@.len() as int) =~= gone@);
            assert forall|name: Seq<char>| is_listed(gone@, name) implies before.dom().contains(name)
                && before[name].agent_id == id@ by {
                let k = choose|k: int| 0 <= k < gone@.len() && gone@[k]@ == name;
                assert(before.dom().contains(gone@[k]@));
            }
            assert(self@.sessions =~= sessions_without(before, id@));
        }
    }
}

spec fn is_listed(names: Seq<String>, name: Seq<char>) -> bool {
    exists|k: int| 0 <= k < names.len() && #[trigger] names[k]@ == name
}

/// An answer of an agent reaches the client whose offer it answers, unchanged.
pub proof fn law_answer_reaches_its_client(
    state: HandlerModel,
    session_id: Seq<char>,
    s: SessionModel,
    connection: u64,
    answer: SignalingMessage,
    action: LoopAction,
)
    requires
        answer.deep_view() matches MessageModel::Answer { session_id: sid, .. } && sid == session_id,
        agent_loop_step(
            state.opened(session_id, s),
            connection,
            LoopEvent::Received(answer),
            action,
        ),
    ensures
        sends(action, s.connection, answer.deep_view()),
{
}

/// A candidate of a client reaches the agent that it has asked for, unchanged.
pub proof fn law_candidate_reaches_the_agent(
    state: HandlerModel,
    agent_id: Seq<char>,
    agent_connection: u64,
    connection: u64,
    candidate: SignalingMessage,
    action: LoopAction,
)
    requires
        candidate is Candidate || candidate is EndOfCandidates,
        client_loop_step(
            state.registered(agent_id, agent_connection),
            connection,
            agent_id,
            LoopEvent::Received(candidate),
            action,
        ),
    ensures
        sends(action, agent_connection, candidate.deep_view()),
{
}

/// When an agent is gone, no session for it is left, and every other session stays as it was.
pub proof fn law_agent_takes_its_sessions_along(
    state: HandlerModel,
    id: Seq<char>,
    session_id: Seq<char>,
)
    ensures
        ({
            let after = state.agent_gone(id);
            &&& !after.agents.dom().contains(id)
            &&& forall|other: Seq<char>| other != id ==> same_entry(state.agents, after.agents, other)
            &&& after.connect_counts == state.connect_counts
            &&& after.sessions.dom().contains(session_id) <==> state.sessions.dom().contains(
                session_id,
            ) && state.sessions[session_id].agent_id != id
            &&& after.sessions.dom().contains(session_id) ==> after.sessions[session_id]
                == state.sessions[session_id]
        }),
{
}

/// An offer that is refused leaves nothing behind: with a session name that was free, the state is
/// as before.
pub proof fn law_refused_offer_leaves_nothing_behind(
    state: HandlerModel,
    session_id: Seq<char>,
    s: SessionModel,
)
    requires
        !state.sessions.dom().contains(session_id),
    ensures
        state.opened(session_id, s).closed(session_id) == state,
{
    assert(state.sessions.insert(session_id, s).remove(session_id) =~= state.sessions);
}

/// A bridge that fails leaves nothing behind over HTTP: with a uuid that was free, the state is as
/// before.
pub proof fn law_failed_bridge_leaves_nothing_behind<S, T, C>(
    http: AppModel<S, T, C>,
    uuid: Seq<char>,
    p: PendingOfferModel<T>,
    candidates: C,
)
    requires
        !http.pending_offers.dom().contains(uuid),
        !http.pending_candidates.dom().contains(uuid),
    ensures
        unbridged(bridged(http, uuid, p, candidates), uuid) == http,
{
    assert(http.pending_offers.insert(uuid, p).remove(uuid) =~= http.pending_offers);
    assert(http.pending_candidates.insert(uuid, candidates).remove(uuid)
        =~= http.pending_candidates);
}

/// When an agent registers, it is known by its new connection, and every other agent stays
/// registered over the connection that it had. No session changes, and only the agent itself is
/// counted once more.
pub proof fn law_registration_keeps_the_others<S, T, C>(
    before: HandlerModel,
    http_before: AppModel<S, T, C>,
    connection: u64,
    client_ip: Seq<char>,
    msg: MessageModel,
    uuid: Seq<char>,
    answer: T,
    candidates: C,
    after: HandlerModel,
    http_after: AppModel<S, T, C>,
    action: FirstAction,
    other: Seq<char>,
)
    requires
        msg is Register,
        before.count(msg->Register_id) < usize::MAX,
        first_step(
            before,
            http_before,
            connection,
            client_ip,
            msg,
            uuid,
            answer,
            candidates,
            after,
            http_after,
            action,
        ),
    ensures
        after.agents.dom().contains(msg->Register_id),
        after.agents[msg->Register_id] == connection,
        after.sessions == before.sessions,
        http_after == http_before,
        action matches FirstAction::ServeAgent { id, count } && id@ == msg->Register_id && count
            == after.count(msg->Register_id),
        after.count(msg->Register_id) == before.count(msg->Register_id) + 1,
        other != msg->Register_id ==> same_entry(before.agents, after.agents, other)
            && after.count(other) == before.count(other),
{
}

/// An offer for an agent is forwarded to the connection of that agent, as it came, also when other
/// agents have registered since.
pub proof fn law_offer_reaches_its_agent<S, T, C>(
    state: HandlerModel,
    newcomer: Seq<char>,
    newcomer_connection: u64,
    http_before: AppModel<S, T, C>,
    connection: u64,
    client_ip: Seq<char>,
    offer: MessageModel,
    uuid: Seq<char>,
    answer: T,
    candidates: C,
    after: HandlerModel,
    http_after: AppModel<S, T, C>,
    action: FirstAction,
)
    requires
        offer is Offer,
        state.agents.dom().contains(offer->Offer_agent_id),
        newcomer != offer->Offer_agent_id,
        first_step(
            state.registered(newcomer, newcomer_connection),
            http_before,
            connection,
            client_ip,
            offer,
            uuid,
            answer,
            candidates,
            after,
            http_after,
            action,
        ),
    ensures
        action matches FirstAction::ForwardOffer { to, session_id, agent_id, msg } && to
            == state.agents[offer->Offer_agent_id] && session_id@ == offer->Offer_session_id
            && agent_id@ == offer->Offer_agent_id && msg.deep_view() == offer,
        http_after == http_before,
{
}

/// An offer that is passed on opens a session for its client: what the agent answers goes to the
/// connection that the offer came from. No other session and no agent changes.
pub proof fn law_offer_opens_its_session<S, T, C>(
    before: HandlerModel,
    http_before: AppModel<S, T, C>,
    connection: u64,
    client_ip: Seq<char>,
    offer: MessageModel,
    uuid: Seq<char>,
    answer: T,
    candidates: C,
    after: HandlerModel,
    http_after: AppModel<S, T, C>,
    action: FirstAction,
    other: Seq<char>,
    agent_connection: u64,
    reply: SignalingMessage,
    passed: LoopAction,
)
    requires
        offer is Offer,
        first_step(
            before,
            http_before,
            connection,
            client_ip,
            offer,
            uuid,
            answer,
            candidates,
            after,
            http_after,
            action,
        ),
        !(action is Refuse),
        reply matches SignalingMessage::Answer { session_id, .. } && session_id@
            == offer->Offer_session_id,
        agent_loop_step(after, agent_connection, LoopEvent::Received(reply), passed),
    ensures
        passed matches LoopAction::Send { to, msg } && to == connection && msg.deep_view()
            == reply.deep_view(),
        after.agents == before.agents,
        after.connect_counts == before.connect_counts,
        after.sessions.dom().contains(offer->Offer_session_id),
        after.sessions[offer->Offer_session_id].agent_id == offer->Offer_agent_id,
        other != offer->Offer_session_id ==> same_entry(before.sessions, after.sessions, other),
{
}

/// An offer for an agent that is nowhere is refused by name, and opens nothing.
pub proof fn law_unknown_agent_is_refused<S, T, C>(
    before: HandlerModel,
    http_before: AppModel<S, T, C>,
    connection: u64,
    client_ip: Seq<char>,
    offer: MessageModel,
    uuid: Seq<char>,
    answer: T,
    candidates: C,
    after: HandlerModel,
    http_after: AppModel<S, T, C>,
    action: FirstAction,
    other: Seq<char>,
)
    requires
        offer is Offer,
        !before.agents.dom().contains(offer->Offer_agent_id),
        forall|key: Seq<char>|
            http_before.agents.dom().contains(key) ==> !#[trigger] key_has_id(
                key,
                offer->Offer_agent_id,
            ),
        first_step(
            before,
            http_before,
            connection,
            client_ip,
            offer,
            uuid,
            answer,
            candidates,
            after,
            http_after,
            action,
        ),
    ensures
        action matches FirstAction::Refuse(msg) && msg.deep_view() == (MessageModel::Error {
            session_id: offer->Offer_session_id,
            reason: "Agent '"@ + offer->Offer_agent_id + "' "@ + "not found"@,
        }),
        http_after == http_before,
        after.agents == before.agents,
        !after.sessions.dom().contains(offer->Offer_session_id),
        other != offer->Offer_session_id ==> same_entry(before.sessions, after.sessions, other),
{
}

/// An offer for an agent that listens over HTTP alone is bridged to an agent with that id: it is
/// told of the offer, the offer waits under its uuid for the answer and for candidates, and nothing
/// else over HTTP changes.
pub proof fn law_offer_is_bridged<S, T, C>(
    before: HandlerModel,
    http_before: AppModel<S, T, C>,
    connection: u64,
    client_ip: Seq<char>,
    offer: MessageModel,
    uuid: Seq<char>,
    answer: T,
    candidates: C,
    after: HandlerModel,
    http_after: AppModel<S, T, C>,
    action: FirstAction,
    key: Seq<char>,
    other: Seq<char>,
)
    requires
        offer is Offer,
        !before.agents.dom().contains(offer->Offer_agent_id),
        http_before.agents.dom().contains(key) && key_has_id(key, offer->Offer_agent_id),
        first_step(
            before,
            http_before,
            connection,
            client_ip,
            offer,
            uuid,
            answer,
            candidates,
            after,
            http_after,
            action,
        ),
    ensures
        action matches FirstAction::Bridge { uuid: u, agent_key, session_id, agent_id, message }
            && u@ == uuid && http_before.agents.dom().contains(agent_key@) && key_has_id(
            agent_key@,
            offer->Offer_agent_id,
        ) && session_id@ == offer->Offer_session_id && agent_id@ == offer->Offer_agent_id
            && message.deep_view() == (ServerMessageModel {
            message_type: "offer"@,
            data: ServerDataModel::Offer { uuid, offer: offer->Offer_offer_sdp, client_ip },
        }),
        http_after.agents == http_before.agents,
        http_after.turn_server == http_before.turn_server,
        http_after.pending_offers.dom().contains(uuid),
        http_after.pending_offers[uuid].offer == offer->Offer_offer_sdp,
        http_after.pending_offers[uuid].client_ip == client_ip,
        http_after.pending_offers[uuid].sender == answer,
        http_after.pending_candidates.dom().contains(uuid),
        http_after.pending_candidates[uuid] == candidates,
        other != uuid ==> same_entry(
            http_before.pending_offers,
            http_after.pending_offers,
            other,
        ) && same_entry(http_before.pending_candidates, http_after.pending_candidates, other),
{
}

/// A connection starts with a registration or an offer. With anything else it is left, and nothing
/// changes.
pub proof fn law_other_first_messages_are_dropped<S, T, C>(
    before: HandlerModel,
    http_before: AppModel<S, T, C>,
    connection: u64,
    client_ip: Seq<char>,
    msg: MessageModel,
    uuid: Seq<char>,
    answer: T,
    candidates: C,
    after: HandlerModel,
    http_after: AppModel<S, T, C>,
    action: FirstAction,
)
    requires
        first_step(
            before,
            http_before,
            connection,
            client_ip,
            msg,
            uuid,
            answer,
            candidates,
            after,
            http_after,
            action,
        ),
    ensures
        action is Drop <==> !(msg is Register || msg is Offer),
        action is Drop ==> after == before && http_after == http_before,
{
}

/// Answers, candidates and the end of the candidates reach the client of their session as they are.
/// For a session that is not there they are passed over.
pub proof fn law_agent_messages_reach_their_clients(
    state: HandlerModel,
    connection: u64,
    msg: SignalingMessage,
    session_id: Seq<char>,
    action: LoopAction,
)
    requires
        match msg {
            SignalingMessage::Answer { session_id: sid, .. } => sid@ == session_id,
            SignalingMessage::Candidate { session_id: sid, .. } => sid@ == session_id,
            SignalingMessage::EndOfCandidates { session_id: sid } => sid@ == session_id,
            _ => false,
        },
        agent_loop_step(state, connection, LoopEvent::Received(msg), action),
    ensures
        state.sessions.dom().contains(session_id) ==> (action matches LoopAction::Send { to, msg: m }
            && to == state.sessions[session_id].connection && m.deep_view() == msg.deep_view()),
        !state.sessions.dom().contains(session_id) ==> action is Wait,
{
}

/// Both sides get a `Pong` back over their own connection for a `Ping`. A connection that fails or
/// stays silent is left, on both sides.
pub proof fn law_pings_and_losses(
    state: HandlerModel,
    connection: u64,
    agent_id: Seq<char>,
    event: LoopEvent,
    by_agent: LoopAction,
    by_client: LoopAction,
)
    requires
        agent_loop_step(state, connection, event, by_agent),
        client_loop_step(state, connection, agent_id, event, by_client),
    ensures
        event matches LoopEvent::Received(SignalingMessage::Ping) ==> (
        by_agent matches LoopAction::Send { to, msg } && to == connection && msg.deep_view()
            == MessageModel::Pong),
        event matches LoopEvent::Received(SignalingMessage::Ping) ==> (
        by_client matches LoopAction::Send { to, msg } && to == connection && msg.deep_view()
            == MessageModel::Pong),
        by_agent is End <==> !(event is Received),
        by_client is End <==> !(event is Received) || (event matches LoopEvent::Received(msg)
            && msg is Error),
        event matches LoopEvent::Received(msg) ==> (msg is Register || msg is Offer || msg is Error
            || msg is Pong ==> by_agent is Wait),
        event matches LoopEvent::Received(msg) ==> (msg is Register || msg is Offer || msg is Answer
            || msg is Pong ==> by_client is Wait),
{
}

/// The candidates of a client reach the agent that it has asked for, over the connection that the
/// agent has now. While the agent is not there they are passed over.
pub proof fn law_client_candidates_follow_the_agent(
    state: HandlerModel,
    connection: u64,
    agent_id: Seq<char>,
    msg: SignalingMessage,
    action: LoopAction,
)
    requires
        msg is Candidate || msg is EndOfCandidates,
        client_loop_step(state, connection, agent_id, LoopEvent::Received(msg), action),
    ensures
        state.agents.dom().contains(agent_id) ==> (action matches LoopAction::Send { to, msg: m }
            && to == state.agents[agent_id] && m.deep_view() == msg.deep_view()),
        !state.agents.dom().contains(agent_id) ==> action is Wait,
{
}

/// A session that is closed is gone, and nothing else is.
pub proof fn law_closing_a_session_closes_no_other(
    state: HandlerModel,
    session_id: Seq<char>,
    other: Seq<char>,
)
    ensures
        ({
            let after = state.closed(session_id);
            &&& !after.sessions.dom().contains(session_id)
            &&& other != session_id ==> same_entry(state.sessions, after.sessions, other)
            &&& after.agents == state.agents
            &&& after.connect_counts == state.connect_counts
        }),
{
}

/// Candidates cross a bridge in both directions as they are: those of the client become messages to
/// the agent with the same session and text, those of the agent become candidates of the session of
/// the client. Without the agent, what comes from the client is passed over.
pub proof fn law_candidates_cross_the_bridge(
    session_id: Seq<char>,
    agent_there: bool,
    event: BridgeEvent,
    action: BridgeAction,
)
    requires
        bridge_step(session_id, agent_there, event, action),
    ensures
        event matches BridgeEvent::Candidate(text) ==> (action matches BridgeAction::ToClient(m)
            && m.deep_view() == (MessageModel::Candidate { session_id, candidate: text@ })),
        event matches BridgeEvent::Received(SignalingMessage::Candidate { session_id: sid, candidate })
            ==> if agent_there {
            action matches BridgeAction::ToAgent(m) && m.deep_view() == (ServerMessageModel {
                message_type: "candidate"@,
                data: ServerDataModel::Candidate { session_id: sid@, candidate: candidate@ },
            })
        } else {
            action is Wait
        },
        event matches BridgeEvent::Received(SignalingMessage::EndOfCandidates { session_id: sid })
            ==> if agent_there {
            action matches BridgeAction::ToAgent(m) && m.deep_view() == (ServerMessageModel {
                message_type: "end-of-candidates"@,
                data: ServerDataModel::EndOfCandidates { session_id: sid@ },
            })
        } else {
            action is Wait
        },
        event matches BridgeEvent::Received(SignalingMessage::Ping) ==> (
        action matches BridgeAction::ToClient(m) && m.deep_view() == MessageModel::Pong),
        action is End <==> event is Failed || event is CandidatesEnded || (
        event matches BridgeEvent::Received(msg) && msg is Error),
{
}

/// A bridge that fails or ends takes its own offer and candidates along, and nothing else.
pub proof fn law_bridges_do_not_touch_each_other<S, T, C>(
    http: AppModel<S, T, C>,
    uuid: Seq<char>,
    p: PendingOfferModel<T>,
    candidates: C,
    other: Seq<char>,
)
    requires
        other != uuid,
    ensures
        ({
            let on = bridged(http, uuid, p, candidates);
            let off = unbridged(http, uuid);
            &&& on.agents == http.agents && off.agents == http.agents
            &&& on.pending_offers.dom().contains(uuid) && on.pending_offers[uuid] == p
            &&& on.pending_candidates.dom().contains(uuid) && on.pending_candidates[uuid]
                == candidates
            &&& !off.pending_offers.dom().contains(uuid)
            &&& !off.pending_candidates.dom().contains(uuid)
            &&& same_entry(http.pending_offers, on.pending_offers, other)
            &&& same_entry(http.pending_offers, off.pending_offers, other)
            &&& same_entry(http.pending_candidates, on.pending_candidates, other)
            &&& same_entry(http.pending_candidates, off.pending_candidates, other)
        }),
{
}

/// An offer that could not be sent on ends its session, and the client is told that the agent is
/// unavailable. One that was sent changes nothing.
pub proof fn law_unsent_offer_is_reported(
    handler: &mut DtlsHandler,
    session_id: String,
    agent_id: &str,
    sent: bool,
    r: Option<SignalingMessage>,
    other: Seq<char>,
)
    requires
        call_ensures(DtlsHandler::offer_forwarded, (handler, session_id, agent_id, sent), r),
    ensures
        sent ==> r is None && final(handler)@ == old(handler)@,
        !sent ==> (r matches Some(m) && m.deep_view() == (MessageModel::Error {
            session_id: session_id@,
            reason: "Agent '"@ + agent_id@ + "' "@ + "unavailable"@,
        })) && !final(handler)@.sessions.dom().contains(session_id@),
        final(handler)@.agents == old(handler)@.agents,
        other != session_id@ ==> same_entry(
            old(handler)@.sessions,
            final(handler)@.sessions,
            other,
        ),
{
}

/// The answer of an agent over HTTP reaches the client of the session as it is. Without one the
/// client gets an error, and neither the session nor the offer is left.
pub proof fn law_bridged_answer_reaches_the_client<S, T, C>(
    handler: &mut DtlsHandler,
    http: &mut AppState<S, T, C>,
    uuid: &str,
    session_id: String,
    agent_id: &str,
    outcome: BridgeOutcome,
    r: SignalingMessage,
)
    requires
        call_ensures(
            DtlsHandler::bridge_answered::<S, T, C>,
            (handler, http, uuid, session_id, agent_id, outcome),
            r,
        ),
    ensures
        outcome matches BridgeOutcome::Answered(answer) ==> r.deep_view() == (MessageModel::Answer {
            session_id: session_id@,
            answer_sdp: answer@,
        }) && final(handler)@ == old(handler)@ && final(http)@ == old(http)@,
        !(outcome is Answered) ==> (r.deep_view() matches MessageModel::Error { session_id: sid, .. }
            && sid == session_id@) && !final(handler)@.sessions.dom().contains(session_id@)
            && !final(http)@.pending_offers.dom().contains(uuid@)
            && !final(http)@.pending_candidates.dom().contains(uuid@),
        final(handler)@.agents == old(handler)@.agents,
        final(http)@.agents == old(http)@.agents,
{
}

/// A bridge that is over takes its session and its candidates along, and nothing else.
pub proof fn law_ended_bridge<S, T, C>(
    handler: &mut DtlsHandler,
    http: &mut AppState<S, T, C>,
    uuid: &str,
    session_id: &str,
    other: Seq<char>,
)
    requires
        call_ensures(
            DtlsHandler::bridge_ended::<S, T, C>,
            (handler, http, uuid, session_id),
            (),
        ),
    ensures
        !final(handler)@.sessions.dom().contains(session_id@),
        !final(http)@.pending_candidates.dom().contains(uuid@),
        other != session_id@ ==> same_entry(
            old(handler)@.sessions,
            final(handler)@.sessions,
            other,
        ),
        other != uuid@ ==> same_entry(
            old(http)@.pending_candidates,
            final(http)@.pending_candidates,
            other,
        ),
        final(handler)@.agents == old(handler)@.agents,
        final(http)@.agents == old(http)@.agents,
        final(http)@.pending_offers == old(http)@.pending_offers,
{
}

} // verus!
