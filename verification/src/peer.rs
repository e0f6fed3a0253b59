//! What clients and agents share of a peer connection: its states, the texts that describe it, and
//! the forwarding of candidates as they are gathered.
use crate::dtls_signaling::{MessageModel, SignalingMessage};
use crate::reliable::{Nanos, ReliableModel, ReliableSession, MAX_NANOS};
use vstd::prelude::*;

verus! {

/// The state of a peer connection.
#[derive(Debug, Clone, Copy, PartialEq, Eq, Structural)]
pub enum PeerState {
    New,
    Connecting,
    Connected,
    Disconnected,
    Failed,
    Closed,
}

impl PeerState {
    /// Whether the connection is lost for good.
    pub open spec fn lost(self) -> bool {
        self is Failed || self is Closed
    }

    /// Whether the connection is lost for good.
    pub fn is_lost(&self) -> (r: bool)
        ensures
            r == self.lost(),
    {
        matches!(*self, PeerState::Failed | PeerState::Closed)
    }
}

/// `rustrtc::IceCandidate`, a candidate that a peer connection can take in.
#[verifier::external_type_specification]
#[verifier::external_body]
pub struct ExIceCandidate(rustrtc::IceCandidate);

/// `rustrtc::SessionDescription`, a description that a peer connection can take in.
#[verifier::external_type_specification]
#[verifier::external_body]
pub struct ExSessionDescription(rustrtc::SessionDescription);

/// The candidate that a text stands for, by `rustrtc`'s syntax.
pub uninterp spec fn candidate_syntax(sdp: Seq<char>) -> Option<rustrtc::IceCandidate>;

/// `rustrtc::IceCandidate::from_sdp`: the candidate that a text stands for. It depends on the text
/// alone. What is wrong with a text that stands for none is not told apart.
#[verifier::external_body]
pub(crate) fn parse_candidate(sdp: &str) -> (r: Option<rustrtc::IceCandidate>)
    ensures
        r == candidate_syntax(sdp@),
{
    rustrtc::IceCandidate::from_sdp(sdp).ok()
}

/// Which half of an exchange a description is.
#[derive(Debug, Clone, Copy, PartialEq, Eq, Structural)]
pub enum DescriptionKind {
    Offer,
    Answer,
}

/// The description that a text stands for, by `rustrtc`'s syntax, or what is wrong with the text.
pub uninterp spec fn description_syntax(kind: DescriptionKind, sdp: Seq<char>) -> Result<
    rustrtc::SessionDescription,
    Seq<char>,
>;

/// `rustrtc::SessionDescription::parse`: the description that a text stands for, or the message of
/// its error. Both depend on the kind and the text alone.
#[verifier::external_body]
pub(crate) fn parse_description(kind: DescriptionKind, sdp: &str) -> (r: Result<
    rustrtc::SessionDescription,
    String,
>)
    ensures
        match r {
            Ok(d) => description_syntax(kind, sdp@) == Ok::<
                rustrtc::SessionDescription,
                Seq<char>,
            >(d),
            Err(e) => description_syntax(kind, sdp@) == Err::<
                rustrtc::SessionDescription,
                Seq<char>,
            >(e@),
        },
{
    let sdp_type = match kind {
        DescriptionKind::Offer => rustrtc::SdpType::Offer,
        DescriptionKind::Answer => rustrtc::SdpType::Answer,
    };
    match rustrtc::SessionDescription::parse(sdp_type, sdp) {
        Ok(d) => Ok(d),
        Err(e) => Err(e.to_string()),
    }
}

/// Whether `c` is a hexadecimal digit without capitals.
pub open spec fn is_hex_digit(c: char) -> bool {
    '0' <= c <= '9' || 'a' <= c <= 'f'
}

/// Whether `s` is a random UUID in its hyphenated form.
pub open spec fn is_random_uuid(s: Seq<char>) -> bool {
    &&& s.len() == 36
    &&& forall|i: int|
        0 <= i < 36 ==> if i == 8 || i == 13 || i == 18 || i == 23 {
            #[trigger] s[i] == '-'
        } else {
            is_hex_digit(s[i])
        }
    &&& s[14] == '4'
    &&& (s[19] == '8' || s[19] == '9' || s[19] == 'a' || s[19] == 'b')
}

/// `uuid::Uuid::new_v4` and its `Display`: a random identifier, in the hyphenated form with small
/// letters. Which one depends on chance.
#[verifier::external_body]
pub(crate) fn random_uuid() -> (r: String)
    ensures
        is_random_uuid(r@),
{
    uuid::Uuid::new_v4().to_string()
}

/// A fresh identifier for a session, a connection or a client.
pub fn new_id() -> (r: String)
    ensures
        is_random_uuid(r@),
{
    random_uuid()
}

/// What happens while candidates are gathered.
#[derive(Debug)]
pub enum TrickleEvent {
    /// A candidate was gathered; this is its text.
    Candidate(String),
    /// The gathering state was looked at: whether gathering is complete.
    Gathering { complete: bool },
    /// Some candidates were missed.
    Lagged,
    /// There will be no more candidates.
    Closed,
}

/// What to do about a [`TrickleEvent`].
#[derive(Debug)]
pub enum TrickleAction {
    /// Go on waiting.
    Wait,
    /// Send this message, then look at the gathering state.
    Send(SignalingMessage),
    /// Send this message, the last one.
    SendLast(SignalingMessage),
    /// Stop without another message.
    Stop,
}

/// What a [`TrickleAction`] says.
#[verifier::ext_equal]
pub enum TrickleModel {
    Wait,
    Send(MessageModel),
    SendLast(MessageModel),
    Stop,
}

impl DeepView for TrickleAction {
    type V = TrickleModel;

    open spec fn deep_view(&self) -> TrickleModel {
        match *self {
            TrickleAction::Wait => TrickleModel::Wait,
            TrickleAction::Send(m) => TrickleModel::Send(m.deep_view()),
            TrickleAction::SendLast(m) => TrickleModel::SendLast(m.deep_view()),
            TrickleAction::Stop => TrickleModel::Stop,
        }
    }
}

/// The candidate message, before it is numbered.
pub open spec fn candidate_message(session_id: Seq<char>, candidate: Seq<char>) -> MessageModel {
    MessageModel::Candidate { session_id, candidate, seq: None, ack: None }
}

/// The end-of-candidates message, before it is numbered.
pub open spec fn end_message(session_id: Seq<char>) -> MessageModel {
    MessageModel::EndOfCandidates { session_id, seq: None, ack: None }
}

/// Forwards the gathered candidates of a session to the peer: each candidate as it comes, and the
/// end of the candidates once gathering is complete. `track_end` tells whether the end is sent
/// again once if it is not acknowledged in time. Candidates never are.
pub fn trickle(
    session_id: &str,
    track_end: bool,
    reliable: &mut ReliableSession,
    event: TrickleEvent,
    now: Nanos,
) -> (r: TrickleAction)
    requires
        old(reliable)@.wf(),
        old(reliable)@.next_seq < u64::MAX,
        now <= MAX_NANOS,
    ensures
        final(reliable)@.wf(),
        match event {
            TrickleEvent::Candidate(c) => {
                let m = candidate_message(session_id@, c@);
                &&& r.deep_view() == TrickleModel::Send(old(reliable)@.outgoing(m))
                &&& final(reliable)@ == old(reliable)@.sent(m, false, now)
            },
            TrickleEvent::Gathering { complete: true } => {
                let m = end_message(session_id@);
                &&& r.deep_view() == TrickleModel::SendLast(old(reliable)@.outgoing(m))
                &&& final(reliable)@ == old(reliable)@.sent(m, track_end, now)
            },
            TrickleEvent::Gathering { complete: false } | TrickleEvent::Lagged => {
                &&& r is Wait
                &&& final(reliable)@ == old(reliable)@
            },
            TrickleEvent::Closed => {
                &&& r is Stop
                &&& final(reliable)@ == old(reliable)@
            },
        },
{
    match event {
        TrickleEvent::Candidate(c) => {
            let mut msg = SignalingMessage::new_candidate(session_id.to_owned(), c);
            reliable.prepare_send_at(&mut msg, false, now);
            TrickleAction::Send(msg)
        },
        TrickleEvent::Gathering { complete } => {
            if complete {
                let mut msg = SignalingMessage::new_end_of_candidates(session_id.to_owned());
                reliable.prepare_send_at(&mut msg, track_end, now);
                TrickleAction::SendLast(msg)
            } else {
                TrickleAction::Wait
            }
        },
        TrickleEvent::Lagged => TrickleAction::Wait,
        TrickleEvent::Closed => TrickleAction::Stop,
    }
}

/// Candidates are never sent again, whatever happens: forwarding them leaves the queue of pending
/// messages alone.
pub proof fn law_candidates_are_not_tracked(
    m: ReliableModel,
    session_id: Seq<char>,
    candidate: Seq<char>,
    now: Nanos,
)
    ensures
        m.sent(candidate_message(session_id, candidate), false, now).pending == m.pending,
{
}

/// A candidate and the end of the candidates go out for their session, the candidate with its text
/// as it was gathered, each with the next number of the session and the last one that came.
pub proof fn law_trickled_messages(m: ReliableModel, session_id: Seq<char>, candidate: Seq<char>)
    ensures
        m.outgoing(candidate_message(session_id, candidate)) == (MessageModel::Candidate {
            session_id,
            candidate,
            seq: Some(m.next_seq),
            ack: m.last_recv_seq,
        }),
        m.outgoing(end_message(session_id)) == (MessageModel::EndOfCandidates {
            session_id,
            seq: Some(m.next_seq),
            ack: m.last_recv_seq,
        }),
{
}

/// The end of the candidates, if it is tracked, is pending with the number that it goes out with.
pub proof fn law_tracked_end_is_pending(m: ReliableModel, session_id: Seq<char>, now: Nanos)
    ensures
        ({
            let after = m.sent(end_message(session_id), true, now);
            &&& after.pending.len() == m.pending.len() + 1
            &&& after.pending.last().seq == m.next_seq
            &&& after.pending.last().msg == m.outgoing(end_message(session_id))
        }),
{
}

/// A connection is lost for good exactly if it has failed or is closed.
pub proof fn law_lost_states(state: PeerState)
    ensures
        state.lost() <==> !(state is New || state is Connecting || state is Connected
            || state is Disconnected),
{
}

/// Candidates go out one by one as they are gathered, and the end of the candidates once, when all
/// are gathered. What was missed or is not complete is waited out.
pub proof fn law_trickling(
    session_id: &str,
    track_end: bool,
    reliable: &mut ReliableSession,
    event: TrickleEvent,
    now: Nanos,
    r: TrickleAction,
)
    requires
        call_ensures(trickle, (session_id, track_end, reliable, event, now), r),
    ensures
        event matches TrickleEvent::Candidate(text) ==> (r.deep_view() matches TrickleModel::Send(
            MessageModel::Candidate { session_id: sid, candidate, seq, ack },
        ) && sid == session_id@ && candidate == text@ && seq == Some(old(reliable)@.next_seq) && ack
            == old(reliable)@.last_recv_seq && final(reliable)@.pending == old(reliable)@.pending),
        event matches TrickleEvent::Gathering { complete } && complete ==> (
        r.deep_view() matches TrickleModel::SendLast(
            MessageModel::EndOfCandidates { session_id: sid, seq, ack },
        ) && sid == session_id@ && seq == Some(old(reliable)@.next_seq) && ack
            == old(reliable)@.last_recv_seq && final(reliable)@.pending.len()
            == old(reliable)@.pending.len() + if track_end {
            1int
        } else {
            0
        }),
        r is SendLast <==> (event matches TrickleEvent::Gathering { complete } && complete),
        r is Stop <==> event is Closed,
        r is Wait <==> event is Lagged || (event matches TrickleEvent::Gathering { complete }
            && !complete),
        r is Wait || r is Stop ==> final(reliable)@ == old(reliable)@,
{
}

} // verus!
