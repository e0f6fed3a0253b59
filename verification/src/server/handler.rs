//! Signaling over HTTP: agents listen to a stream of events, clients post their offers.
use crate::peer::{is_random_uuid, new_id};
use crate::registry::{lemma_insert_modelled, lemma_remove_modelled, same_entry, Registry};
use crate::server::turn_server::TurnServer;
use crate::text::{ends_with, text_eq};
use vstd::prelude::*;

verus! {

/// How often an agent is pinged over its stream, in seconds.
pub const PING_INTERVAL: u64 = 30;

/// How often an idle stream is kept alive, in seconds.
pub const KEEP_ALIVE_INTERVAL: u64 = 15;

/// How long an offer waits for its answer.
pub const ANSWER_TIMEOUT: u128 = 30000000000;

/// The offer of a client for the agent `id`.
#[derive(Debug)]
pub struct OfferMessage {
    pub id: String,
    pub offer: String,
}

/// The answer of an agent.
#[derive(Debug)]
pub struct AnswerMessage {
    pub answer: String,
}

/// What a message to an agent carries.
#[derive(Debug)]
pub enum ServerData {
    Offer { uuid: String, offer: String, client_ip: String },
    Candidate { session_id: String, candidate: String },
    EndOfCandidates { session_id: String },
}

/// A message to an agent that listens over HTTP.
#[derive(Debug)]
pub struct ServerMessage {
    pub message_type: String,
    pub data: ServerData,
}

/// What [`ServerData`] says.
#[verifier::ext_equal]
pub enum ServerDataModel {
    Offer { uuid: Seq<char>, offer: Seq<char>, client_ip: Seq<char> },
    Candidate { session_id: Seq<char>, candidate: Seq<char> },
    EndOfCandidates { session_id: Seq<char> },
}

/// What a [`ServerMessage`] says.
#[verifier::ext_equal]
pub struct ServerMessageModel {
    pub message_type: Seq<char>,
    pub data: ServerDataModel,
}

impl DeepView for ServerMessage {
    type V = ServerMessageModel;

    open spec fn deep_view(&self) -> ServerMessageModel {
        ServerMessageModel {
            message_type: self.message_type@,
            data: match self.data {
                ServerData::Offer { uuid, offer, client_ip } => ServerDataModel::Offer {
                    uuid: uuid@,
                    offer: offer@,
                    client_ip: client_ip@,
                },
                ServerData::Candidate { session_id, candidate } => ServerDataModel::Candidate {
                    session_id: session_id@,
                    candidate: candidate@,
                },
                ServerData::EndOfCandidates { session_id } => ServerDataModel::EndOfCandidates {
                    session_id: session_id@,
                },
            },
        }
    }
}

/// The message that brings an offer to an agent.
pub open spec fn offer_notice(
    uuid: Seq<char>,
    offer: Seq<char>,
    client_ip: Seq<char>,
) -> ServerMessageModel {
    ServerMessageModel {
        message_type: "offer"@,
        data: ServerDataModel::Offer { uuid, offer, client_ip },
    }
}

impl ServerMessage {
    /// The message that brings an offer to an agent.
    pub fn new_offer(uuid: String, offer: String, client_ip: String) -> (r: ServerMessage)
        ensures
            r.deep_view() == offer_notice(uuid@, offer@, client_ip@),
    {
        ServerMessage {
            message_type: "offer".to_owned(),
            data: ServerData::Offer { uuid, offer, client_ip },
        }
    }

    /// The message that brings a candidate to an agent.
    pub fn new_candidate(session_id: String, candidate: String) -> (r: ServerMessage)
        ensures
            r.deep_view() == (ServerMessageModel {
                message_type: "candidate"@,
                data: ServerDataModel::Candidate { session_id: session_id@, candidate: candidate@ },
            }),
    {
        ServerMessage {
            message_type: "candidate".to_owned(),
            data: ServerData::Candidate { session_id, candidate },
        }
    }

    /// The message that tells an agent that there are no more candidates.
    pub fn new_end_of_candidates(session_id: String) -> (r: ServerMessage)
        ensures
            r.deep_view() == (ServerMessageModel {
                message_type: "end-of-candidates"@,
                data: ServerDataModel::EndOfCandidates { session_id: session_id@ },
            }),
    {
        ServerMessage {
            message_type: "end-of-candidates".to_owned(),
            data: ServerData::EndOfCandidates { session_id },
        }
    }
}

/// An agent that listens over HTTP. Messages to it go into a sender of type `S`.
#[derive(Debug)]
pub struct AgentConnection<S> {
    pub id: String,
    pub token: String,
    /// When it has connected, in nanoseconds since 1970.
    pub last_ping: u128,
    pub sender: S,
    pub connection_id: String,
}

/// What an [`AgentConnection`] says.
#[verifier::ext_equal]
pub struct ConnectionModel<S> {
    pub id: Seq<char>,
    pub token: Seq<char>,
    pub last_ping: u128,
    pub sender: S,
    pub connection_id: Seq<char>,
}

impl<S> AgentConnection<S> {
    /// What the connection says.
    pub open spec fn model(&self) -> ConnectionModel<S> {
        ConnectionModel {
            id: self.id@,
            token: self.token@,
            last_ping: self.last_ping,
            sender: self.sender,
            connection_id: self.connection_id@,
        }
    }
}

/// An offer that waits for its answer. The answer goes into a sender of type `T`.
#[derive(Debug)]
pub struct PendingOffer<T> {
    pub offer: String,
    pub client_ip: String,
    pub sender: T,
}

/// What a [`PendingOffer`] says.
#[verifier::ext_equal]
pub struct PendingOfferModel<T> {
    pub offer: Seq<char>,
    pub client_ip: Seq<char>,
    pub sender: T,
}

impl<T> PendingOffer<T> {
    /// What the offer says.
    pub open spec fn model(&self) -> PendingOfferModel<T> {
        PendingOfferModel { offer: self.offer@, client_ip: self.client_ip@, sender: self.sender }
    }
}

/// What an agent says of itself when it connects.
#[derive(Debug)]
pub struct ConnectQuery {
    pub token: String,
    pub id: String,
}

/// Who is connected over HTTP and what waits for an answer. Senders of messages, of answers and of
/// candidates are of the types `S`, `T` and `C`.
pub struct AppState<S, T, C> {
    agents: Registry<AgentConnection<S>>,
    pending_offers: Registry<PendingOffer<T>>,
    pending_candidates: Registry<C>,
    turn_server: TurnServer,
}

/// What an [`AppState`] holds.
#[verifier::ext_equal]
pub struct AppModel<S, T, C> {
    pub agents: Map<Seq<char>, ConnectionModel<S>>,
    pub pending_offers: Map<Seq<char>, PendingOfferModel<T>>,
    pub pending_candidates: Map<Seq<char>, C>,
    pub turn_server: TurnServer,
}

impl<S, T, C> View for AppState<S, T, C> {
    type V = AppModel<S, T, C>;

    closed spec fn view(&self) -> AppModel<S, T, C> {
        AppModel {
            agents: self.agents@.map_values(|c: AgentConnection<S>| c.model()),
            pending_offers: self.pending_offers@.map_values(|p: PendingOffer<T>| p.model()),
            pending_candidates: self.pending_candidates@,
            turn_server: self.turn_server,
        }
    }
}

/// The name under which an agent is known: its token and its id.
pub open spec fn agent_key(token: Seq<char>, id: Seq<char>) -> Seq<char> {
    token + ":"@ + id
}

/// The name under which an agent is known: its token and its id.
pub fn make_agent_key(token: &str, id: &str) -> (r: String)
    ensures
        r@ == agent_key(token@, id@),
{
    token.to_owned().concat(":").concat(id)
}

/// Whether a name belongs to an agent with this id, whatever its token.
pub open spec fn key_has_id(key: Seq<char>, id: Seq<char>) -> bool {
    (":"@ + id).is_suffix_of(key)
}

/// What a client or an agent is answered over HTTP.
#[derive(Debug)]
pub enum HttpReply {
    /// An offer was answered.
    Answered { uuid: String, offer: String, answer: String },
    /// An answer was taken.
    Accepted,
    /// Something is wrong.
    Error { status: u16, error: String },
}

/// What an [`HttpReply`] says.
#[verifier::ext_equal]
pub enum ReplyModel {
    Answered { uuid: Seq<char>, offer: Seq<char>, answer: Seq<char> },
    Accepted,
    Error { status: u16, error: Seq<char> },
}

impl DeepView for HttpReply {
    type V = ReplyModel;

    open spec fn deep_view(&self) -> ReplyModel {
        match *self {
            HttpReply::Answered { uuid, offer, answer } => ReplyModel::Answered {
                uuid: uuid@,
                offer: offer@,
                answer: answer@,
            },
            HttpReply::Accepted => ReplyModel::Accepted,
            HttpReply::Error { status, error } => ReplyModel::Error { status, error: error@ },
        }
    }
}

impl ReplyModel {
    /// The HTTP status of the reply.
    pub open spec fn status(self) -> u16 {
        match self {
            ReplyModel::Error { status, .. } => status,
            _ => 200,
        }
    }
}

impl HttpReply {
    /// The HTTP status of the reply.
    pub fn status(&self) -> (r: u16)
        ensures
            r == self.deep_view().status(),
    {
        match self {
            HttpReply::Error { status, .. } => *status,
            _ => 200,
        }
    }
}

fn error_reply(status: u16, error: &str) -> (r: HttpReply)
    ensures
        r.deep_view() == (ReplyModel::Error { status, error: error@ }),
{
    HttpReply::Error { status, error: error.to_owned() }
}

/// What posting an offer leads to.
#[derive(Debug)]
pub enum OfferStart {
    /// The offer is refused.
    Refused(HttpReply),
    /// Send this message to the agent that goes by `agent_key`, and wait for the answer.
    Notify { uuid: String, agent_key: String, message: ServerMessage },
}

/// What became of an offer that was sent to an agent.
#[derive(Debug)]
pub enum OfferOutcome {
    /// The agent could not be reached.
    NotSent,
    /// The agent has answered.
    Answered(String),
    /// There will be no answer.
    Dropped,
    /// There was no answer within [`ANSWER_TIMEOUT`].
    TimedOut,
}

/// What a client is answered.
pub open spec fn outcome_reply(
    uuid: Seq<char>,
    offer: Seq<char>,
    outcome: OfferOutcome,
) -> ReplyModel {
    match outcome {
        OfferOutcome::NotSent => ReplyModel::Error {
            status: 500,
            error: "failed to send offer to agent"@,
        },
        OfferOutcome::Answered(answer) => ReplyModel::Answered { uuid, offer, answer: answer@ },
        OfferOutcome::Dropped | OfferOutcome::TimedOut => ReplyModel::Error {
            status: 408,
            error: "answer timeout"@,
        },
    }
}

/// What an agent is answered when it submits an answer: `None` if no offer waits for it, else
/// whether the client could be reached.
pub open spec fn submission_reply(delivered: Option<bool>) -> ReplyModel {
    match delivered {
        Some(true) => ReplyModel::Accepted,
        Some(false) => ReplyModel::Error { status: 500, error: "failed to send answer"@ },
        None => ReplyModel::Error { status: 404, error: "offer not found"@ },
    }
}

/// The reply to an agent that submits an answer.
pub fn reply_to_submission(delivered: Option<bool>) -> (r: HttpReply)
    ensures
        r.deep_view() == submission_reply(delivered),
{
    match delivered {
        Some(true) => HttpReply::Accepted,
        Some(false) => error_reply(500, "failed to send answer"),
        None => error_reply(404, "offer not found"),
    }
}

impl<S, T, C> AppModel<S, T, C> {
    /// The state once an agent has connected.
    pub open spec fn connected(self, c: ConnectionModel<S>) -> AppModel<S, T, C> {
        AppModel { agents: self.agents.insert(agent_key(c.token, c.id), c), ..self }
    }

    /// The state once the stream of a connection has ended. A newer connection of the same agent
    /// stays.
    pub open spec fn disconnected(
        self,
        key: Seq<char>,
        connection_id: Seq<char>,
    ) -> AppModel<S, T, C> {
        if self.agents.dom().contains(key) && self.agents[key].connection_id == connection_id {
            AppModel { agents: self.agents.remove(key), ..self }
        } else {
            self
        }
    }

    /// The state once an offer waits for its answer.
    pub open spec fn waiting(self, uuid: Seq<char>, p: PendingOfferModel<T>) -> AppModel<S, T, C> {
        AppModel { pending_offers: self.pending_offers.insert(uuid, p), ..self }
    }

    /// The state once an offer waits no more.
    pub open spec fn given_up(self, uuid: Seq<char>) -> AppModel<S, T, C> {
        AppModel { pending_offers: self.pending_offers.remove(uuid), ..self }
    }

    /// The state after an offer came to this end. One that was answered was taken out before.
    pub open spec fn settled(self, uuid: Seq<char>, outcome: OfferOutcome) -> AppModel<S, T, C> {
        if outcome is Answered {
            self
        } else {
            self.given_up(uuid)
        }
    }
}

/// Whether `r` and `after` are what posting an offer under `uuid` leads to.
pub open spec fn offer_posted<S, T, C>(
    before: AppModel<S, T, C>,
    token: Option<Seq<char>>,
    id: Seq<char>,
    p: PendingOfferModel<T>,
    uuid: Seq<char>,
    after: AppModel<S, T, C>,
    r: OfferStart,
) -> bool {
    match token {
        None => {
            &&& after == before
            &&& r matches OfferStart::Refused(reply)
            &&& reply.deep_view() == (ReplyModel::Error { status: 400, error: "token required"@ })
        },
        Some(token) => if before.agents.dom().contains(agent_key(token, id)) {
            &&& after == before.waiting(uuid, p)
            &&& r matches OfferStart::Notify { uuid: u, agent_key: k, message }
            &&& u@ == uuid
            &&& k@ == agent_key(token, id)
            &&& message.deep_view() == offer_notice(uuid, p.offer, p.client_ip)
        } else {
            &&& after == before
            &&& r matches OfferStart::Refused(reply)
            &&& reply.deep_view() == (ReplyModel::Error { status: 404, error: "agent not found"@ })
        },
    }
}

impl<S, T, C> AppState<S, T, C> {
    /// No name stands for two things.
    pub closed spec fn wf(&self) -> bool {
        self.agents.wf() && self.pending_offers.wf() && self.pending_candidates.wf()
    }

    /// Nobody is connected.
    pub fn new_with_turn(turn_server: TurnServer) -> (r: AppState<S, T, C>)
        ensures
            r.wf(),
            r@ == (AppModel::<S, T, C> {
                agents: Map::empty(),
                pending_offers: Map::empty(),
                pending_candidates: Map::empty(),
                turn_server,
            }),
    {
        let r = AppState {
            agents: Registry::new(),
            pending_offers: Registry::new(),
            pending_candidates: Registry::new(),
            turn_server,
        };
        proof {
            assert(r@.agents =~= Map::empty());
            assert(r@.pending_offers =~= Map::empty());
        }
        r
    }

    /// The TURN server.
    pub fn turn_server(&self) -> (r: &TurnServer)
        ensures
            *r == self@.turn_server,
    {
        &self.turn_server
    }

    /// The sender for messages to the agent that goes by `key`.
    pub fn agent_sender(&self, key: &str) -> (r: Option<&S>)
        requires
            self.wf(),
        ensures
            match r {
                Some(s) => self@.agents.dom().contains(key@) && self@.agents[key@].sender == *s,
                None => !self@.agents.dom().contains(key@),
            },
    {
        match self.agents.get(key) {
            Some(c) => Some(&c.sender),
            None => None,
        }
    }

    /// The sender for candidates to the client whose offer has this uuid.
    pub fn candidate_sender(&self, uuid: &str) -> (r: Option<&C>)
        requires
            self.wf(),
        ensures
            match r {
                Some(c) => self@.pending_candidates.dom().contains(uuid@)
                    && self@.pending_candidates[uuid@] == *c,
                None => !self@.pending_candidates.dom().contains(uuid@),
            },
    {
        self.pending_candidates.get(uuid)
    }

    /// An agent connects under this connection id. Its name is handed back.
    pub fn connect_as(
        &mut self,
        query: ConnectQuery,
        sender: S,
        now: u128,
        connection_id: String,
    ) -> (r: String)
        requires
            old(self).wf(),
        ensures
            final(self).wf(),
            r@ == agent_key(query.token@, query.id@),
            final(self)@ == old(self)@.connected(
                ConnectionModel {
                    id: query.id@,
                    token: query.token@,
                    last_ping: now,
                    sender,
                    connection_id: connection_id@,
                },
            ),
    {
        let key = make_agent_key(query.token.as_str(), query.id.as_str());
        let c = AgentConnection {
            id: query.id,
            token: query.token,
            last_ping: now,
            sender,
            connection_id,
        };
        proof {
            lemma_insert_modelled(
                self.agents@,
                key@,
                c,
                |c: AgentConnection<S>| c.model(),
            );
        }
        self.agents.insert(key.clone(), c);
        key
    }

    /// An agent connects. Its name and the id of the connection are handed back.
    pub fn connect_sse(&mut self, query: ConnectQuery, sender: S, now: u128) -> (r: (String, String))
        requires
            old(self).wf(),
        ensures
            final(self).wf(),
            is_random_uuid(r.1@),
            r.0@ == agent_key(query.token@, query.id@),
            final(self)@ == old(self)@.connected(
                ConnectionModel {
                    id: query.id@,
                    token: query.token@,
                    last_ping: now,
                    sender,
                    connection_id: r.1@,
                },
            ),
    {
        let connection_id = new_id();
        let key = self.connect_as(query, sender, now, connection_id.clone());
        (key, connection_id)
    }

    /// The stream of a connection has ended.
    pub fn disconnect(&mut self, key: &str, connection_id: &str)
        requires
            old(self).wf(),
        ensures
            final(self).wf(),
            final(self)@ == old(self)@.disconnected(key@, connection_id@),
    {
        let same = match self.agents.get(key) {
            Some(c) => text_eq(c.connection_id.as_str(), connection_id),
            None => false,
        };
        if same {
            proof {
                lemma_remove_modelled(self.agents@, key@, |c: AgentConnection<S>| c.model());
            }
            let _ = self.agents.remove(key);
        }
    }

    /// A client posts an offer, which gets this uuid.
    pub fn create_offer_as(
        &mut self,
        uuid: String,
        token: Option<&str>,
        offer_msg: OfferMessage,
        client_ip: String,
        sender: T,
    ) -> (r: OfferStart)
        requires
            old(self).wf(),
        ensures
            final(self).wf(),
            offer_posted(
                old(self)@,
                match token {
                    Some(t) => Some(t@),
                    None => None,
                },
                offer_msg.id@,
                PendingOfferModel { offer: offer_msg.offer@, client_ip: client_ip@, sender },
                uuid@,
                final(self)@,
                r,
            ),
    {
        let token = match token {
            Some(t) => t,
            None => return OfferStart::Refused(error_reply(400, "token required")),
        };
        let agent_key = make_agent_key(token, offer_msg.id.as_str());
        if self.agents.get(agent_key.as_str()).is_none() {
            return OfferStart::Refused(error_reply(404, "agent not found"));
        }
        let message = ServerMessage::new_offer(
            uuid.clone(),
            offer_msg.offer.clone(),
            client_ip.clone(),
        );
        self.wait_for_answer(uuid.clone(), offer_msg.offer, client_ip, sender);
        OfferStart::Notify { uuid, agent_key, message }
    }

    /// A client posts an offer, which gets a fresh uuid.
    pub fn create_offer(
        &mut self,
        token: Option<&str>,
        offer_msg: OfferMessage,
        client_ip: String,
        sender: T,
    ) -> (r: OfferStart)
        requires
            old(self).wf(),
        ensures
            final(self).wf(),
            exists|uuid: Seq<char>|
                #[trigger] is_random_uuid(uuid) && offer_posted(
                    old(self)@,
                    match token {
                        Some(t) => Some(t@),
                        None => None,
                    },
                    offer_msg.id@,
                    PendingOfferModel { offer: offer_msg.offer@, client_ip: client_ip@, sender },
                    uuid,
                    final(self)@,
                    r,
                ),
    {
        let uuid = new_id();
        let ghost u = uuid@;
        let r = self.create_offer_as(uuid, token, offer_msg, client_ip, sender);
        assert(is_random_uuid(u));
        r
    }

    /// An offer waits for its answer.
    pub fn wait_for_answer(&mut self, uuid: String, offer: String, client_ip: String, sender: T)
        requires
            old(self).wf(),
        ensures
            final(self).wf(),
            final(self)@ == old(self)@.waiting(
                uuid@,
                PendingOfferModel { offer: offer@, client_ip: client_ip@, sender },
            ),
    {
        let p = PendingOffer { offer, client_ip, sender };
        proof {
            lemma_insert_modelled(
                self.pending_offers@,
                uuid@,
                p,
                |p: PendingOffer<T>| p.model(),
            );
        }
        self.pending_offers.insert(uuid, p);
    }

    /// An offer waits no more. The sender for its answer is handed back.
    pub fn give_up(&mut self, uuid: &str) -> (r: Option<T>)
        requires
            old(self).wf(),
        ensures
            final(self).wf(),
            final(self)@ == old(self)@.given_up(uuid@),
            match r {
                Some(t) => old(self)@.pending_offers.dom().contains(uuid@) && old(
                    self)@.pending_offers[uuid@].sender == t,
                None => !old(self)@.pending_offers.dom().contains(uuid@),
            },
    {
        proof {
            lemma_remove_modelled(self.pending_offers@, uuid@, |p: PendingOffer<T>| p.model());
        }
        match self.pending_offers.remove(uuid) {
            Some(p) => Some(p.sender),
            None => None,
        }
    }

    /// An offer has come to an end. The client is answered.
    pub fn settle_offer(&mut self, uuid: String, offer: String, outcome: OfferOutcome) -> (r:
        HttpReply)
        requires
            old(self).wf(),
        ensures
            final(self).wf(),
            final(self)@ == old(self)@.settled(uuid@, outcome),
            r.deep_view() == outcome_reply(uuid@, offer@, outcome),
    {
        match outcome {
            OfferOutcome::Answered(answer) => HttpReply::Answered { uuid, offer, answer },
            OfferOutcome::NotSent => {
                let _ = self.give_up(uuid.as_str());
                error_reply(500, "failed to send offer to agent")
            },
            OfferOutcome::Dropped | OfferOutcome::TimedOut => {
                let _ = self.give_up(uuid.as_str());
                error_reply(408, "answer timeout")
            },
        }
    }

    /// An agent submits the answer to an offer. What the answer goes into is handed back, if the
    /// offer still waits; [`reply_to_submission`] says what the agent is answered.
    pub fn submit_answer(&mut self, uuid: &str) -> (r: Option<T>)
        requires
            old(self).wf(),
        ensures
            final(self).wf(),
            final(self)@ == old(self)@.given_up(uuid@),
            match r {
                Some(t) => old(self)@.pending_offers.dom().contains(uuid@) && old(
                    self)@.pending_offers[uuid@].sender == t,
                None => !old(self)@.pending_offers.dom().contains(uuid@),
            },
    {
        self.give_up(uuid)
    }

    /// Candidates for the client of this offer go into `sender`.
    pub fn expect_candidates(&mut self, uuid: String, sender: C)
        requires
            old(self).wf(),
        ensures
            final(self).wf(),
            final(self)@ == (AppModel {
                pending_candidates: old(self)@.pending_candidates.insert(uuid@, sender),
                ..old(self)@
            }),
    {
        self.pending_candidates.insert(uuid, sender);
    }

    /// No more candidates go to the client of this offer.
    pub fn drop_candidates(&mut self, uuid: &str)
        requires
            old(self).wf(),
        ensures
            final(self).wf(),
            final(self)@ == (AppModel {
                pending_candidates: old(self)@.pending_candidates.remove(uuid@),
                ..old(self)@
            }),
    {
        let _ = self.pending_candidates.remove(uuid);
    }

    /// The name of an agent with this id, whatever its token. If there are several, any of them.
    pub fn find_http_agent(&self, agent_id: &str) -> (r: Option<String>)
        requires
            self.wf(),
        ensures
            match r {
                Some(key) => self@.agents.dom().contains(key@) && key_has_id(key@, agent_id@),
                None => forall|key: Seq<char>|
                    self@.agents.dom().contains(key) ==> !key_has_id(key, agent_id@),
            },
    {
        let suffix = ":".to_owned().concat(agent_id);
        proof {
            self.agents.lemma_names();
        }
        let n = self.agents.len();
        let mut i: usize = 0;
        while i < n
            invariant
                self.wf(),
                n == self.agents.names().len(),
                i <= n,
                suffix@ == ":"@ + agent_id@,
                forall|j: int| 0 <= j < i ==> !key_has_id(#[trigger] self.agents.names()[j], agent_id@),
                forall|k: int|
                    0 <= k < self.agents.names().len() ==> self.agents@.dom().contains(
                        #[trigger] self.agents.names()[k],
                    ),
            decreases n - i,
        {
            let key = self.agents.name_at(i);
            if ends_with(key, suffix.as_str()) {
                return Some(key.to_owned());
            }
            i = i + 1;
        }
        proof {
            assert forall|key: Seq<char>| self@.agents.dom().contains(key) implies !key_has_id(
                key,
                agent_id@,
            ) by {
                assert(self.agents.names().contains(key));
                let j = choose|j: int|
                    0 <= j < self.agents.names().len() && self.agents.names()[j] == key;
                assert(!key_has_id(self.agents.names()[j], agent_id@));
            }
        }
        None
    }
}

/// When an agent has connected anew, the end of its old stream does not disconnect it.
pub proof fn law_old_stream_leaves_new_connection<S, T, C>(
    before: AppModel<S, T, C>,
    old_connection: ConnectionModel<S>,
    new_connection: ConnectionModel<S>,
)
    requires
        old_connection.token == new_connection.token,
        old_connection.id == new_connection.id,
        old_connection.connection_id != new_connection.connection_id,
    ensures
        ({
            let key = agent_key(old_connection.token, old_connection.id);
            let now = before.connected(old_connection).connected(new_connection);
            now.disconnected(key, old_connection.connection_id) == now
        }),
{
}

/// An agent that has connected is found, and is gone once its stream has ended.
pub proof fn law_stream_end_disconnects<S, T, C>(
    before: AppModel<S, T, C>,
    c: ConnectionModel<S>,
)
    ensures
        before.connected(c).agents.dom().contains(agent_key(c.token, c.id)),
        !before.connected(c).disconnected(
            agent_key(c.token, c.id),
            c.connection_id,
        ).agents.dom().contains(agent_key(c.token, c.id)),
{
}

/// However an offer ends, nothing of it is left behind: with a uuid that was free, the table is as
/// before, both when the answer was submitted and when there was none.
pub proof fn law_offers_leave_nothing_behind<S, T, C>(
    before: AppModel<S, T, C>,
    uuid: Seq<char>,
    p: PendingOfferModel<T>,
    outcome: OfferOutcome,
)
    requires
        !before.pending_offers.dom().contains(uuid),
    ensures
        before.waiting(uuid, p).given_up(uuid) == before,
        outcome is Answered ==> before.waiting(uuid, p).given_up(uuid).settled(uuid, outcome)
            == before,
        !(outcome is Answered) ==> before.waiting(uuid, p).settled(uuid, outcome) == before,
{
    assert(before.pending_offers.insert(uuid, p).remove(uuid) =~= before.pending_offers);
}

/// An offer takes one answer: after the first, the offer is not found any more.
pub proof fn law_answer_is_taken_once<S, T, C>(before: AppModel<S, T, C>, uuid: Seq<char>)
    ensures
        !before.given_up(uuid).pending_offers.dom().contains(uuid),
        before.given_up(uuid).given_up(uuid) == before.given_up(uuid),
{
    assert(before.pending_offers.remove(uuid).remove(uuid) =~= before.pending_offers.remove(uuid));
}

proof fn lemma_key(token: Seq<char>, id: Seq<char>)
    ensures
        agent_key(token, id) == token + seq![':'] + id,
{
    reveal_strlit(":");
    assert(":"@ =~= seq![':']);
}

/// The name of an agent tells its token and its id, as long as the token holds no `:`. So agents
/// with different tokens or ids have different names.
pub proof fn law_agent_names_do_not_clash(
    token: Seq<char>,
    id: Seq<char>,
    token2: Seq<char>,
    id2: Seq<char>,
)
    requires
        forall|i: int| 0 <= i < token.len() ==> token[i] != ':',
        forall|i: int| 0 <= i < token2.len() ==> token2[i] != ':',
        agent_key(token, id) == agent_key(token2, id2),
    ensures
        token == token2,
        id == id2,
{
    lemma_key(token, id);
    lemma_key(token2, id2);
    let key = agent_key(token, id);
    let n = token.len() as int;
    let m = token2.len() as int;
    assert(key[n] == ':');
    assert(key[m] == ':');
    if n < m {
        assert(key[n] == token2[n]);
    }
    if m < n {
        assert(key[m] == token[m]);
    }
    assert(key.take(n) =~= token);
    assert(key.take(m) =~= token2);
    assert(key.skip(n + 1) =~= id);
    assert(key.skip(m + 1) =~= id2);
}

/// An agent is found by its id whatever its token, and no agent is found by the id of another, as
/// long as ids hold no `:`.
pub proof fn law_agents_are_found_by_id(token: Seq<char>, id: Seq<char>, wanted: Seq<char>)
    ensures
        key_has_id(agent_key(token, id), id),
        (forall|i: int| 0 <= i < id.len() ==> id[i] != ':') && (forall|i: int|
            0 <= i < wanted.len() ==> wanted[i] != ':') ==> (key_has_id(
            agent_key(token, id),
            wanted,
        ) <==> id == wanted),
{
    reveal_strlit(":");
    assert(":"@ =~= seq![':']);
    lemma_key(token, id);
    let key = agent_key(token, id);
    let own = ":"@ + id;
    assert(key.subrange(key.len() - own.len(), key.len() as int) =~= own);
    if (forall|i: int| 0 <= i < id.len() ==> id[i] != ':') && (forall|i: int|
        0 <= i < wanted.len() ==> wanted[i] != ':') && key_has_id(key, wanted) {
        let suffix = ":"@ + wanted;
        assert(key.subrange(key.len() - suffix.len(), key.len() as int) =~= suffix);
        let at = key.len() - suffix.len();
        let sep = token.len() as int;
        assert(key[at] == suffix[0]);
        assert(key[sep] == ':');
        if at > sep {
            assert(key[at] == id[at - sep - 1]);
        }
        if at < sep {
            assert(key[sep] == suffix[sep - at]);
            assert(suffix[sep - at] == wanted[sep - at - 1]);
        }
        assert(id =~= wanted) by {
            assert forall|i: int| 0 <= i < id.len() implies id[i] == wanted[i] by {
                assert(key[sep + 1 + i] == id[i]);
                assert(key[at + 1 + i] == suffix[1 + i]);
            }
        }
    }
}

/// An agent that connects is held with its token, its id, its sender and its connection id, in place
/// of an older connection of the same agent. Every other agent, and what waits for answers, stays.
pub proof fn law_connecting_keeps_the_others<S, T, C>(
    before: AppModel<S, T, C>,
    c: ConnectionModel<S>,
    other: Seq<char>,
)
    ensures
        ({
            let after = before.connected(c);
            let key = c.token + ":"@ + c.id;
            &&& after.agents.dom().contains(key) && after.agents[key] == c
            &&& other != key ==> same_entry(before.agents, after.agents, other)
            &&& after.pending_offers == before.pending_offers
            &&& after.pending_candidates == before.pending_candidates
            &&& after.turn_server == before.turn_server
        }),
{
}

/// The end of a stream disconnects its own agent alone, and only if it is the stream of the
/// connection that the agent has now.
pub proof fn law_disconnecting_keeps_the_others<S, T, C>(
    before: AppModel<S, T, C>,
    key: Seq<char>,
    connection_id: Seq<char>,
    other: Seq<char>,
)
    ensures
        ({
            let after = before.disconnected(key, connection_id);
            &&& other != key ==> same_entry(before.agents, after.agents, other)
            &&& after.agents.dom().contains(key) <==> before.agents.dom().contains(key)
                && before.agents[key].connection_id != connection_id
            &&& after.agents.dom().contains(key) ==> after.agents[key] == before.agents[key]
            &&& after.pending_offers == before.pending_offers
            &&& after.pending_candidates == before.pending_candidates
        }),
{
}

/// An offer waits with all that it came with until it is taken out, and waiting or ending changes
/// nothing for any other offer or any agent.
pub proof fn law_offers_do_not_touch_each_other<S, T, C>(
    before: AppModel<S, T, C>,
    uuid: Seq<char>,
    p: PendingOfferModel<T>,
    other: Seq<char>,
)
    ensures
        ({
            let on = before.waiting(uuid, p);
            let off = before.given_up(uuid);
            &&& on.pending_offers.dom().contains(uuid) && on.pending_offers[uuid] == p
            &&& other != uuid ==> same_entry(before.pending_offers, on.pending_offers, other)
            &&& other != uuid ==> same_entry(before.pending_offers, off.pending_offers, other)
            &&& on.agents == before.agents && off.agents == before.agents
            &&& on.pending_candidates == before.pending_candidates
            &&& off.pending_candidates == before.pending_candidates
        }),
{
}

/// An offer needs a token and an agent that is connected with that token and id. Without a token it
/// is a bad request, without the agent it is not found, and nothing waits in either case. Otherwise
/// that agent is told of the offer as it came, and the offer waits under its uuid.
pub proof fn law_offer_is_posted_to_its_agent<S, T, C>(
    before: AppModel<S, T, C>,
    token: Option<Seq<char>>,
    id: Seq<char>,
    p: PendingOfferModel<T>,
    uuid: Seq<char>,
    after: AppModel<S, T, C>,
    r: OfferStart,
)
    requires
        offer_posted(before, token, id, p, uuid, after, r),
    ensures
        r is Notify <==> token is Some && before.agents.dom().contains(
            token->Some_0 + ":"@ + id,
        ),
        r matches OfferStart::Notify { uuid: u, agent_key: k, message } ==> u@ == uuid && k@
            == token->Some_0 + ":"@ + id && message.deep_view() == (ServerMessageModel {
            message_type: "offer"@,
            data: ServerDataModel::Offer { uuid, offer: p.offer, client_ip: p.client_ip },
        }) && after.pending_offers.dom().contains(uuid) && after.pending_offers[uuid] == p
            && after.agents == before.agents,
        r matches OfferStart::Refused(reply) ==> after == before && reply.deep_view().status() == (
        if token is None {
            400u16
        } else {
            404u16
        }),
{
}

/// A client gets the answer of the agent with its own offer and uuid, and an error for anything
/// else: the server's own when the agent could not be reached, a timeout when there is no answer.
pub proof fn law_client_gets_the_answer(uuid: Seq<char>, offer: Seq<char>, outcome: OfferOutcome)
    ensures
        ({
            let reply = outcome_reply(uuid, offer, outcome);
            &&& outcome matches OfferOutcome::Answered(answer) ==> reply == (ReplyModel::Answered {
                uuid,
                offer,
                answer: answer@,
            }) && reply.status() == 200
            &&& outcome is NotSent ==> reply.status() == 500
            &&& outcome is Dropped || outcome is TimedOut ==> reply.status() == 408
            &&& reply is Error <==> !(outcome is Answered)
        }),
{
}

/// An agent is told that its answer was taken exactly if the client got it; that there is no such
/// offer, exactly if none waits.
pub proof fn law_agent_is_told_what_became_of_its_answer(delivered: Option<bool>)
    ensures
        submission_reply(delivered).status() == 200 <==> delivered == Some(true),
        submission_reply(delivered).status() == 404 <==> delivered is None,
        submission_reply(delivered).status() == 500 <==> delivered == Some(false),
        submission_reply(delivered) is Accepted <==> delivered == Some(true),
{
}

/// Taking out an offer hands back what its answer goes into, exactly if the offer waits, and then it
/// waits no more. This is what submitting an answer does.
pub proof fn law_answer_goes_to_its_offer<S, T, C>(
    state: &mut AppState<S, T, C>,
    uuid: &str,
    r: Option<T>,
    other: Seq<char>,
)
    requires
        call_ensures(AppState::<S, T, C>::submit_answer, (state, uuid), r),
    ensures
        r is Some <==> old(state)@.pending_offers.dom().contains(uuid@),
        r matches Some(t) ==> t == old(state)@.pending_offers[uuid@].sender,
        !final(state)@.pending_offers.dom().contains(uuid@),
        other != uuid@ ==> same_entry(
            old(state)@.pending_offers,
            final(state)@.pending_offers,
            other,
        ),
        final(state)@.agents == old(state)@.agents,
{
}

/// Messages to an agent go into the sender of its own connection, and there is one exactly if the
/// agent is connected.
pub proof fn law_senders_belong_to_their_agents<S, T, C>(
    state: &AppState<S, T, C>,
    key: &str,
    r: Option<&S>,
)
    requires
        call_ensures(AppState::<S, T, C>::agent_sender, (state, key), r),
    ensures
        r is Some <==> state@.agents.dom().contains(key@),
        r matches Some(s) ==> *s == state@.agents[key@].sender,
{
}

/// An agent that is found by its id is connected, and its name ends in that id.
pub proof fn law_agent_that_is_found<S, T, C>(
    state: &AppState<S, T, C>,
    id: &str,
    r: Option<String>,
)
    requires
        call_ensures(AppState::<S, T, C>::find_http_agent, (state, id), r),
    ensures
        r matches Some(key) ==> state@.agents.dom().contains(key@) && (":"@ + id@).is_suffix_of(
            key@,
        ),
{
}

} // verus!
