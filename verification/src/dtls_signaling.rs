//! The messages that clients, agents and the signaling server exchange.
use vstd::prelude::*;

verus! {

/// Where a forwarded connection goes. Without a host it goes to the agent's own machine.
#[derive(Debug)]
pub struct Target {
    pub host: Option<String>,
    pub port: u16,
}

/// What a [`Target`] says.
#[verifier::ext_equal]
pub struct TargetModel {
    pub host: Option<Seq<char>>,
    pub port: u16,
}

impl DeepView for Target {
    type V = TargetModel;

    open spec fn deep_view(&self) -> TargetModel {
        TargetModel { host: self.host.deep_view(), port: self.port }
    }
}

impl Clone for Target {
    fn clone(&self) -> (r: Target)
        ensures
            r.deep_view() == self.deep_view(),
    {
        Target { host: self.host.clone(), port: self.port }
    }
}

/// A STUN or TURN server, as the signaling server announces it.
#[derive(Debug)]
pub struct IceServerInfo {
    pub urls: Vec<String>,
    pub username: Option<String>,
    pub credential: Option<String>,
}

/// What an ICE server entry says.
#[verifier::ext_equal]
pub struct IceServerModel {
    pub urls: Seq<Seq<char>>,
    pub username: Option<Seq<char>>,
    pub credential: Option<Seq<char>>,
}

impl DeepView for IceServerInfo {
    type V = IceServerModel;

    open spec fn deep_view(&self) -> IceServerModel {
        IceServerModel {
            urls: self.urls.deep_view(),
            username: self.username.deep_view(),
            credential: self.credential.deep_view(),
        }
    }
}

impl Clone for IceServerInfo {
    fn clone(&self) -> (r: IceServerInfo)
        ensures
            r.deep_view() == self.deep_view(),
    {
        let r = IceServerInfo {
            urls: self.urls.clone(),
            username: self.username.clone(),
            credential: self.credential.clone(),
        };
        assert(r.urls.deep_view() =~= self.urls.deep_view());
        r
    }
}

/// A message between a client, an agent and the signaling server.
///
/// `seq` numbers the messages of one sender within a session; `ack` is the last number that the
/// sender has seen from its peer.
#[derive(Debug)]
pub enum SignalingMessage {
    Register { token: String, id: String },
    Offer {
        session_id: String,
        agent_id: String,
        offer_sdp: String,
        targets: Option<Vec<Target>>,
        seq: Option<u64>,
        ack: Option<u64>,
    },
    Answer { session_id: String, answer_sdp: String, seq: Option<u64>, ack: Option<u64> },
    Candidate { session_id: String, candidate: String, seq: Option<u64>, ack: Option<u64> },
    EndOfCandidates { session_id: String, seq: Option<u64>, ack: Option<u64> },
    IceServers { ice_servers: Vec<IceServerInfo> },
    GetIceServers,
    Error { session_id: String, reason: String, seq: Option<u64>, ack: Option<u64> },
    Ping,
    Pong,
    Ack { session_id: String, ack_seq: u64, seq: Option<u64>, ack: Option<u64> },
}

/// What a [`SignalingMessage`] says.
#[verifier::ext_equal]
pub enum MessageModel {
    Register { token: Seq<char>, id: Seq<char> },
    Offer {
        session_id: Seq<char>,
        agent_id: Seq<char>,
        offer_sdp: Seq<char>,
        targets: Option<Seq<TargetModel>>,
        seq: Option<u64>,
        ack: Option<u64>,
    },
    Answer { session_id: Seq<char>, answer_sdp: Seq<char>, seq: Option<u64>, ack: Option<u64> },
    Candidate { session_id: Seq<char>, candidate: Seq<char>, seq: Option<u64>, ack: Option<u64> },
    EndOfCandidates { session_id: Seq<char>, seq: Option<u64>, ack: Option<u64> },
    IceServers { ice_servers: Seq<IceServerModel> },
    GetIceServers,
    Error { session_id: Seq<char>, reason: Seq<char>, seq: Option<u64>, ack: Option<u64> },
    Ping,
    Pong,
    Ack { session_id: Seq<char>, ack_seq: u64, seq: Option<u64>, ack: Option<u64> },
}

impl DeepView for SignalingMessage {
    type V = MessageModel;

    open spec fn deep_view(&self) -> MessageModel {
        match *self {
            SignalingMessage::Register { token, id } => MessageModel::Register {
                token: token@,
                id: id@,
            },
            SignalingMessage::Offer { session_id, agent_id, offer_sdp, targets, seq, ack } =>
                MessageModel::Offer {
                session_id: session_id@,
                agent_id: agent_id@,
                offer_sdp: offer_sdp@,
                targets: targets.deep_view(),
                seq,
                ack,
            },
            SignalingMessage::Answer { session_id, answer_sdp, seq, ack } => MessageModel::Answer {
                session_id: session_id@,
                answer_sdp: answer_sdp@,
                seq,
                ack,
            },
            SignalingMessage::Candidate { session_id, candidate, seq, ack } =>
                MessageModel::Candidate {
                session_id: session_id@,
                candidate: candidate@,
                seq,
                ack,
            },
            SignalingMessage::EndOfCandidates { session_id, seq, ack } =>
                MessageModel::EndOfCandidates { session_id: session_id@, seq, ack },
            SignalingMessage::IceServers { ice_servers } => MessageModel::IceServers {
                ice_servers: ice_servers.deep_view(),
            },
            SignalingMessage::GetIceServers => MessageModel::GetIceServers,
            SignalingMessage::Error { session_id, reason, seq, ack } => MessageModel::Error {
                session_id: session_id@,
                reason: reason@,
                seq,
                ack,
            },
            SignalingMessage::Ping => MessageModel::Ping,
            SignalingMessage::Pong => MessageModel::Pong,
            SignalingMessage::Ack { session_id, ack_seq, seq, ack } => MessageModel::Ack {
                session_id: session_id@,
                ack_seq,
                seq,
                ack,
            },
        }
    }
}

fn clone_targets(targets: &Option<Vec<Target>>) -> (r: Option<Vec<Target>>)
    ensures
        r.deep_view() == targets.deep_view(),
{
    match targets {
        Some(v) => {
            let c = v.clone();
            assert(c.deep_view() =~= v.deep_view());
            Some(c)
        },
        None => None,
    }
}

impl Clone for SignalingMessage {
    fn clone(&self) -> (r: SignalingMessage)
        ensures
            r.deep_view() == self.deep_view(),
    {
        match self {
            SignalingMessage::Register { token, id } => SignalingMessage::Register {
                token: token.clone(),
                id: id.clone(),
            },
            SignalingMessage::Offer { session_id, agent_id, offer_sdp, targets, seq, ack } =>
                SignalingMessage::Offer {
                session_id: session_id.clone(),
                agent_id: agent_id.clone(),
                offer_sdp: offer_sdp.clone(),
                targets: clone_targets(targets),
                seq: *seq,
                ack: *ack,
            },
            SignalingMessage::Answer { session_id, answer_sdp, seq, ack } =>
                SignalingMessage::Answer {
                session_id: session_id.clone(),
                answer_sdp: answer_sdp.clone(),
                seq: *seq,
                ack: *ack,
            },
            SignalingMessage::Candidate { session_id, candidate, seq, ack } =>
                SignalingMessage::Candidate {
                session_id: session_id.clone(),
                candidate: candidate.clone(),
                seq: *seq,
                ack: *ack,
            },
            SignalingMessage::EndOfCandidates { session_id, seq, ack } =>
                SignalingMessage::EndOfCandidates {
                session_id: session_id.clone(),
                seq: *seq,
                ack: *ack,
            },
            SignalingMessage::IceServers { ice_servers } => {
                let c = ice_servers.clone();
                assert(c.deep_view() =~= ice_servers.deep_view());
                SignalingMessage::IceServers { ice_servers: c }
            },
            SignalingMessage::GetIceServers => SignalingMessage::GetIceServers,
            SignalingMessage::Error { session_id, reason, seq, ack } => SignalingMessage::Error {
                session_id: session_id.clone(),
                reason: reason.clone(),
                seq: *seq,
                ack: *ack,
            },
            SignalingMessage::Ping => SignalingMessage::Ping,
            SignalingMessage::Pong => SignalingMessage::Pong,
            SignalingMessage::Ack { session_id, ack_seq, seq, ack } => SignalingMessage::Ack {
                session_id: session_id.clone(),
                ack_seq: *ack_seq,
                seq: *seq,
                ack: *ack,
            },
        }
    }
}

impl SignalingMessage {
    /// An offer that is not numbered yet.
    pub fn new_offer(
        session_id: String,
        agent_id: String,
        offer_sdp: String,
        targets: Option<Vec<Target>>,
    ) -> (r: SignalingMessage)
        ensures
            r == (SignalingMessage::Offer {
                session_id,
                agent_id,
                offer_sdp,
                targets,
                seq: None,
                ack: None,
            }),
    {
        SignalingMessage::Offer { session_id, agent_id, offer_sdp, targets, seq: None, ack: None }
    }

    /// An answer that is not numbered yet.
    pub fn new_answer(session_id: String, answer_sdp: String) -> (r: SignalingMessage)
        ensures
            r == (SignalingMessage::Answer { session_id, answer_sdp, seq: None, ack: None }),
    {
        SignalingMessage::Answer { session_id, answer_sdp, seq: None, ack: None }
    }

    /// A candidate that is not numbered yet.
    pub fn new_candidate(session_id: String, candidate: String) -> (r: SignalingMessage)
        ensures
            r == (SignalingMessage::Candidate { session_id, candidate, seq: None, ack: None }),
    {
        SignalingMessage::Candidate { session_id, candidate, seq: None, ack: None }
    }

    /// The end of the candidates, not numbered yet.
    pub fn new_end_of_candidates(session_id: String) -> (r: SignalingMessage)
        ensures
            r == (SignalingMessage::EndOfCandidates { session_id, seq: None, ack: None }),
    {
        SignalingMessage::EndOfCandidates { session_id, seq: None, ack: None }
    }

    /// An error that is not numbered yet.
    pub fn new_error(session_id: String, reason: String) -> (r: SignalingMessage)
        ensures
            r == (SignalingMessage::Error { session_id, reason, seq: None, ack: None }),
    {
        SignalingMessage::Error { session_id, reason, seq: None, ack: None }
    }

    /// An acknowledgement of `ack_seq`, not numbered yet.
    pub fn new_ack(session_id: String, ack_seq: u64) -> (r: SignalingMessage)
        ensures
            r == (SignalingMessage::Ack { session_id, ack_seq, seq: None, ack: None }),
    {
        SignalingMessage::Ack { session_id, ack_seq, seq: None, ack: None }
    }
}

/// How far a DTLS handshake has come.
#[derive(Debug, Clone, Copy, PartialEq, Eq, Structural)]
pub enum DtlsProgress {
    /// It is going on.
    Pending,
    /// It has succeeded.
    Connected,
    /// It has failed.
    Failed,
    /// Nothing more will be heard of it.
    Unknown,
}

/// What is said when an address cannot be connected to.
pub open spec fn connect_error(addr: Seq<char>) -> Seq<char> {
    "DTLS handshake failed to "@ + addr
}

/// Whether a client that connects to `addr` is connected, has to wait, or has failed.
pub fn connect_step(addr: &str, progress: DtlsProgress) -> (r: Result<bool, String>)
    ensures
        match progress {
            DtlsProgress::Connected => r == Ok::<bool, String>(true),
            DtlsProgress::Pending => r == Ok::<bool, String>(false),
            DtlsProgress::Failed | DtlsProgress::Unknown => r matches Err(e) && e@ == connect_error(
                addr@,
            ),
        },
{
    match progress {
        DtlsProgress::Connected => Ok(true),
        DtlsProgress::Pending => Ok(false),
        DtlsProgress::Failed | DtlsProgress::Unknown => Err(
            "DTLS handshake failed to ".to_owned().concat(addr),
        ),
    }
}

/// Whether a server that takes a connection is connected, has to wait, or gives the connection up.
/// A handshake that has failed is waited for: the peer may try again.
pub fn accept_step(progress: DtlsProgress) -> (r: Option<bool>)
    ensures
        r == match progress {
            DtlsProgress::Connected => Some(true),
            DtlsProgress::Pending | DtlsProgress::Failed => Some(false),
            DtlsProgress::Unknown => None,
        },
{
    match progress {
        DtlsProgress::Connected => Some(true),
        DtlsProgress::Pending | DtlsProgress::Failed => Some(false),
        DtlsProgress::Unknown => None,
    }
}

/// What is said when an address has no IP address.
pub fn unresolved_message(addr: &str) -> (r: String)
    ensures
        r@ == "Could not resolve DTLS address '"@ + addr@ + "'"@,
{
    "Could not resolve DTLS address '".to_owned().concat(addr).concat("'")
}

/// What is said when a stream of records has ended.
pub fn channel_closed_message() -> (r: &'static str)
    ensures
        r@ == "DTLS channel closed"@,
{
    "DTLS channel closed"
}

/// A client is connected exactly if its handshake has succeeded, waits exactly while it goes on, and
/// otherwise fails by the name of the address. A server also waits after a failure.
pub proof fn law_handshake_progress(
    addr: &str,
    progress: DtlsProgress,
    client: Result<bool, String>,
    server: Option<bool>,
)
    requires
        call_ensures(connect_step, (addr, progress), client),
        call_ensures(accept_step, (progress,), server),
    ensures
        client == Ok::<bool, String>(true) <==> progress is Connected,
        client == Ok::<bool, String>(false) <==> progress is Pending,
        client is Err <==> progress is Failed || progress is Unknown,
        client matches Err(e) ==> e@ == "DTLS handshake failed to "@ + addr@,
        server == Some(true) <==> progress is Connected,
        server is None <==> progress is Unknown,
{
}

/// A message carries what it is made of, and no numbers until it is sent.
pub proof fn law_messages_carry_what_they_are_made_of(
    name: String,
    text: String,
    number: u64,
    answer: SignalingMessage,
    candidate: SignalingMessage,
    end: SignalingMessage,
    ack: SignalingMessage,
    error: SignalingMessage,
)
    requires
        call_ensures(SignalingMessage::new_answer, (name, text), answer),
        call_ensures(SignalingMessage::new_candidate, (name, text), candidate),
        call_ensures(SignalingMessage::new_end_of_candidates, (name,), end),
        call_ensures(SignalingMessage::new_ack, (name, number), ack),
        call_ensures(SignalingMessage::new_error, (name, text), error),
    ensures
        answer matches SignalingMessage::Answer { session_id, answer_sdp, seq, ack } && session_id
            == name && answer_sdp == text && seq is None && ack is None,
        candidate matches SignalingMessage::Candidate { session_id, candidate, seq, ack }
            && session_id == name && candidate == text && seq is None && ack is None,
        end matches SignalingMessage::EndOfCandidates { session_id, seq, ack } && session_id == name
            && seq is None && ack is None,
        ack matches SignalingMessage::Ack { session_id, ack_seq, seq, ack } && session_id == name
            && ack_seq == number && seq is None && ack is None,
        error matches SignalingMessage::Error { session_id, reason, seq, ack } && session_id == name
            && reason == text && seq is None && ack is None,
{
}

} // verus!
