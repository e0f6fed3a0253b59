//! The agent: it takes offers, checks where they want to go, and answers them.
use crate::acl::{some_rule_admits, Acl, IpAddr, RuleModel};
use crate::client::{
    channel_label, configured_servers, make_channel_label, servers_in, servers_or_none,
    take_servers, IceReply,
};
use crate::config::{IceServerConfig, RportConfig};
use crate::dtls_signaling::{MessageModel, SignalingMessage, Target, TargetModel};
use crate::peer::{
    candidate_syntax, description_syntax, parse_candidate, parse_description, DescriptionKind,
};
use crate::registry::{same_entry, Registry};
use crate::reliable::{Nanos, PendingMessage, PendingModel, ReliableModel, ReliableSession, MAX_NANOS};
use crate::text::decimal_string;
use crate::webrtc_config::{webrtc_of, WebRTCConfig, WebRTCModel};
use vstd::prelude::*;

verus! {

/// How long to wait before the server is tried again, in seconds.
pub const RECONNECT_INTERVAL: u64 = 5;

/// How long to wait for the ICE servers of the signaling server.
pub const ICE_SERVERS_TIMEOUT: u128 = 5000000000;

/// How often the server is pinged.
pub const KEEPALIVE_INTERVAL: u128 = 10000000000;

/// How long the server may stay silent.
pub const RECEIVE_TIMEOUT: u128 = 45000000000;

/// How often the pending messages are looked through.
pub const RETRANSMIT_INTERVAL: u128 = 500000000;

/// An agent and how it reaches its signaling server.
#[derive(Debug)]
pub struct Agent {
    server_url: String,
    token: String,
    id: String,
    webrtc_config: WebRTCConfig,
    acl: Option<Acl>,
}

/// What an [`Agent`] says.
#[verifier::ext_equal]
pub struct AgentModel {
    pub server_url: Seq<char>,
    pub token: Seq<char>,
    pub id: Seq<char>,
    pub webrtc: WebRTCModel,
    pub acl: Option<Seq<RuleModel>>,
}

impl View for Agent {
    type V = AgentModel;

    closed spec fn view(&self) -> AgentModel {
        AgentModel {
            server_url: self.server_url@,
            token: self.token@,
            id: self.id@,
            webrtc: self.webrtc_config.deep_view(),
            acl: self.acl.deep_view(),
        }
    }
}

impl Agent {
    /// The networks of the access rules are in order.
    pub closed spec fn wf(&self) -> bool {
        self.acl matches Some(acl) ==> acl.wf()
    }

    /// An agent that goes by `id` at the server.
    pub fn new(
        server_url: &str,
        token: &str,
        id: &str,
        ice_servers: Option<Vec<IceServerConfig>>,
        enable_upnp: bool,
        acl: Option<Acl>,
        cfg: &RportConfig,
    ) -> (r: Agent)
        requires
            WebRTCConfig::fits(cfg),
            acl matches Some(a) ==> a.wf(),
        ensures
            r.wf(),
            r@ == (AgentModel {
                server_url: server_url@,
                token: token@,
                id: id@,
                webrtc: webrtc_of(
                    cfg.deep_view(),
                    servers_or_none(ice_servers.deep_view()),
                    enable_upnp,
                ),
                acl: acl.deep_view(),
            }),
    {
        let webrtc_config = WebRTCConfig::new(
            server_url.to_owned(),
            token.to_owned(),
            take_servers(ice_servers),
            enable_upnp,
            cfg,
        );
        Agent {
            server_url: server_url.to_owned(),
            token: token.to_owned(),
            id: id.to_owned(),
            webrtc_config,
            acl,
        }
    }

    /// The address of the signaling server.
    pub fn server_url(&self) -> (r: &str)
        ensures
            r@ == self@.server_url,
    {
        self.server_url.as_str()
    }

    /// The name of the agent.
    pub fn id(&self) -> (r: &str)
        ensures
            r@ == self@.id,
    {
        self.id.as_str()
    }

    /// The settings of the WebRTC stack.
    pub fn webrtc_config(&self) -> (r: &WebRTCConfig)
        ensures
            r.deep_view() == self@.webrtc,
    {
        &self.webrtc_config
    }

    /// The servers that the reply to the request for ICE servers brings, or none.
    pub fn extra_ice_servers(reply: IceReply) -> (r: Vec<IceServerConfig>)
        ensures
            r.deep_view() == servers_or_none(servers_in(reply)),
    {
        match reply {
            IceReply::Received(SignalingMessage::IceServers { ice_servers }) => configured_servers(
                ice_servers,
            ),
            _ => {
                let r: Vec<IceServerConfig> = Vec::new();
                assert(r.deep_view() =~= Seq::empty());
                r
            },
        }
    }

    /// The message that makes the agent known to the server.
    pub fn registration(&self) -> (r: SignalingMessage)
        ensures
            r.deep_view() == (MessageModel::Register { token: self@.token, id: self@.id }),
    {
        SignalingMessage::Register { token: self.token.clone(), id: self.id.clone() }
    }

    /// The check of the targets of an offer against the access rules of this agent.
    pub fn admission(&self, targets: Vec<ForwardTarget>) -> (r: Admission)
        requires
            self.wf(),
        ensures
            r.wf(),
            r.rules() == self@.acl,
            r.targets() == targets.deep_view(),
            r.checked() == 0,
    {
        Admission {
            acl: match &self.acl {
                Some(a) => {
                    let c = a.clone();
                    proof {
                        lemma_acl_wf(*a, c);
                    }
                    Some(c)
                },
                None => None,
            },
            targets,
            next: 0,
        }
    }
}

proof fn lemma_acl_wf(a: Acl, b: Acl)
    requires
        a.wf(),
        a.deep_view() == b.deep_view(),
    ensures
        b.wf(),
{
    assert(a.deep_view().len() == a.rules@.len());
    assert(b.deep_view().len() == b.rules@.len());
    assert forall|i: int| 0 <= i < b.rules@.len() implies #[trigger] b.rules@[i].network.wf() by {
        assert(b.deep_view()[i] == b.rules@[i].deep_view());
        assert(a.deep_view()[i] == a.rules@[i].deep_view());
        assert(a.rules@[i].network.wf());
    }
}

/// Where a forwarded connection goes.
#[derive(Debug)]
pub struct ForwardTarget {
    pub host: String,
    pub port: u16,
}

/// What a [`ForwardTarget`] says.
#[verifier::ext_equal]
pub struct ForwardTargetModel {
    pub host: Seq<char>,
    pub port: u16,
}

impl DeepView for ForwardTarget {
    type V = ForwardTargetModel;

    open spec fn deep_view(&self) -> ForwardTargetModel {
        ForwardTargetModel { host: self.host@, port: self.port }
    }
}

impl ForwardTargetModel {
    /// The target as `host:port`.
    pub open spec fn address(self) -> Seq<char> {
        self.host + ":"@ + crate::text::decimal(self.port as nat)
    }
}

impl ForwardTarget {
    /// The target as `host:port`.
    pub fn address(&self) -> (r: String)
        ensures
            r@ == self.deep_view().address(),
    {
        self.host.clone().concat(":").concat(decimal_string(self.port as u64).as_str())
    }
}

/// One target of an offer. Without a host it is on the agent's own machine.
pub open spec fn resolved_target(t: TargetModel) -> ForwardTargetModel {
    ForwardTargetModel {
        host: match t.host {
            Some(h) => h,
            None => "127.0.0.1"@,
        },
        port: t.port,
    }
}

/// The targets of an offer. An offer that names none means SSH on the agent's own machine.
pub open spec fn resolved_targets(targets: Option<Seq<TargetModel>>) -> Seq<ForwardTargetModel> {
    match targets {
        Some(ts) => ts.map_values(|t: TargetModel| resolved_target(t)),
        None => seq![ForwardTargetModel { host: "127.0.0.1"@, port: 22 }],
    }
}

/// The targets of an offer.
pub fn resolve_targets(targets: Option<Vec<Target>>) -> (r: Vec<ForwardTarget>)
    ensures
        r.deep_view() == resolved_targets(targets.deep_view()),
{
    let mut r: Vec<ForwardTarget> = Vec::new();
    match targets {
        Some(ts) => {
            let ghost all = ts.deep_view();
            for t in it: ts
                invariant
                    it.seq().len() == all.len(),
                    forall|i: int|
                        0 <= i < all.len() ==> (#[trigger] it.seq()[i]).deep_view() == all[i],
                    r.deep_view() == all.take(it.index() as int).map_values(
                        |t: TargetModel| resolved_target(t),
                    ),
            {
                let ghost before = r.deep_view();
                let ghost i = it.index() as int;
                r.push(
                    ForwardTarget {
                        host: match t.host {
                            Some(h) => h,
                            None => "127.0.0.1".to_owned(),
                        },
                        port: t.port,
                    },
                );
                proof {
                    assert(r.deep_view() =~= before.push(resolved_target(all[i])));
                    assert(r.deep_view() =~= all.take(i + 1).map_values(
                        |t: TargetModel| resolved_target(t),
                    ));
                }
            }
            assert(all.take(all.len() as int) =~= all);
        },
        None => {
            r.push(ForwardTarget { host: "127.0.0.1".to_owned(), port: 22 });
            assert(r.deep_view() =~= seq![ForwardTargetModel { host: "127.0.0.1"@, port: 22 }]);
        },
    }
    r
}

/// The labels of the data channels for targets, in their order.
pub fn channel_labels(targets: &Vec<ForwardTarget>) -> (r: Vec<String>)
    ensures
        r.deep_view() == targets.deep_view().map_values(
            |t: ForwardTargetModel| channel_label(t.host, t.port),
        ),
{
    let ghost all = targets.deep_view();
    let ghost label = |t: ForwardTargetModel| channel_label(t.host, t.port);
    let mut r: Vec<String> = Vec::new();
    let mut i: usize = 0;
    while i < targets.len()
        invariant
            all == targets.deep_view(),
            label == (|t: ForwardTargetModel| channel_label(t.host, t.port)),
            i <= targets@.len(),
            r.deep_view() == all.take(i as int).map_values(label),
        decreases targets@.len() - i,
    {
        let ghost before = r.deep_view();
        r.push(make_channel_label(targets[i].host.as_str(), targets[i].port));
        proof {
            assert(r.deep_view() =~= before.push(label(all[i as int])));
            assert(r.deep_view() =~= all.take(i + 1).map_values(label));
        }
        i = i + 1;
    }
    assert(all.take(all.len() as int) =~= all);
    r
}

/// What looking up the address of a target came to.
#[derive(Debug, Clone, Copy, PartialEq, Eq, Structural)]
pub enum Lookup {
    /// The lookup failed.
    Failed,
    /// The lookup succeeded; this is the first address, if there is one.
    Found(Option<IpAddr>),
}

/// The address that the access rules are asked about.
pub open spec fn looked_up(ip: Option<IpAddr>) -> IpAddr {
    match ip {
        Some(ip) => ip,
        None => IpAddr::V4(0),
    }
}

/// Why an offer is refused: what the client is told, and what the agent logs.
#[derive(Debug)]
pub struct Refusal {
    pub reply: SignalingMessage,
    pub error: String,
}

/// What a [`Refusal`] says.
#[verifier::ext_equal]
pub struct RefusalModel {
    pub reason: Seq<char>,
    pub error: Seq<char>,
}

/// Why a target is refused, if it is. Without rules nothing is.
pub open spec fn refusal_of(
    rules: Option<Seq<RuleModel>>,
    t: ForwardTargetModel,
    lookup: Lookup,
) -> Option<RefusalModel> {
    match rules {
        None => None,
        Some(rules) => match lookup {
            Lookup::Failed => Some(
                RefusalModel {
                    reason: "Cannot resolve target: "@ + t.host,
                    error: "Cannot resolve target: "@ + t.host,
                },
            ),
            Lookup::Found(ip) => if some_rule_admits(rules, looked_up(ip), t.port) {
                None
            } else {
                Some(
                    RefusalModel {
                        reason: "Access denied: "@ + t.address(),
                        error: "ACL denied: "@ + t.address(),
                    },
                )
            },
        },
    }
}

/// The message that tells a client why its offer is refused.
pub open spec fn refusal_message(session_id: Seq<char>, reason: Seq<char>) -> MessageModel {
    MessageModel::Error { session_id, reason, seq: None, ack: None }
}

/// The check of the targets of an offer against access rules, one target after the other.
#[derive(Debug)]
pub struct Admission {
    acl: Option<Acl>,
    targets: Vec<ForwardTarget>,
    next: usize,
}

impl Admission {
    /// The rules, if there are any.
    pub closed spec fn rules(&self) -> Option<Seq<RuleModel>> {
        self.acl.deep_view()
    }

    /// The targets.
    pub closed spec fn targets(&self) -> Seq<ForwardTargetModel> {
        self.targets.deep_view()
    }

    /// How many targets were checked.
    pub closed spec fn checked(&self) -> nat {
        self.next as nat
    }

    /// No more targets were checked than there are.
    pub closed spec fn wf(&self) -> bool {
        &&& self.next <= self.targets@.len()
        &&& self.acl matches Some(acl) ==> acl.wf()
    }

    /// The address to look up next. `None` means that the offer is admitted: every target was
    /// checked, or there are no rules.
    pub fn next_lookup(&self) -> (r: Option<String>)
        requires
            self.wf(),
        ensures
            match r {
                None => self.rules() is None || self.checked() == self.targets().len(),
                Some(a) => self.rules() is Some && self.checked() < self.targets().len() && a@
                    == self.targets()[self.checked() as int].address(),
            },
    {
        if self.acl.is_none() || self.next == self.targets.len() {
            None
        } else {
            Some(self.targets[self.next].address())
        }
    }

    /// Takes in what the lookup of the next target came to. If the target is refused, so is the
    /// offer for the session.
    pub fn check(&mut self, session_id: &str, lookup: Lookup) -> (r: Result<(), Refusal>)
        requires
            old(self).wf(),
            old(self).rules() is Some,
            old(self).checked() < old(self).targets().len(),
        ensures
            final(self).wf(),
            final(self).rules() == old(self).rules(),
            final(self).targets() == old(self).targets(),
            match refusal_of(
                old(self).rules(),
                old(self).targets()[old(self).checked() as int],
                lookup,
            ) {
                None => r is Ok && final(self).checked() == old(self).checked() + 1,
                Some(why) => {
                    &&& final(self).checked() == old(self).checked()
                    &&& r matches Err(refusal)
                    &&& refusal.reply.deep_view() == refusal_message(session_id@, why.reason)
                    &&& refusal.error@ == why.error
                },
            },
    {
        assert(self.targets.deep_view().len() == self.targets@.len());
        assert(self.next < self.targets.len());
        let t = &self.targets[self.next];
        match lookup {
            Lookup::Failed => {
                let reason = "Cannot resolve target: ".to_owned().concat(t.host.as_str());
                let error = reason.clone();
                return Err(
                    Refusal {
                        reply: SignalingMessage::new_error(session_id.to_owned(), reason),
                        error,
                    },
                );
            },
            Lookup::Found(found) => {
                let ip = match found {
                    Some(ip) => ip,
                    None => IpAddr::V4(0),
                };
                let allowed = match &self.acl {
                    Some(acl) => acl.is_allowed(&ip, t.port),
                    None => true,
                };
                if !allowed {
                    let address = t.address();
                    let reason = "Access denied: ".to_owned().concat(address.as_str());
                    let error = "ACL denied: ".to_owned().concat(address.as_str());
                    return Err(
                        Refusal {
                            reply: SignalingMessage::new_error(session_id.to_owned(), reason),
                            error,
                        },
                    );
                }
            },
        }
        self.next = self.next + 1;
        Ok(())
    }

    /// The targets of an admitted offer.
    pub fn into_targets(self) -> (r: Vec<ForwardTarget>)
        ensures
            r.deep_view() == self.targets(),
    {
        self.targets
    }
}

/// The outcome of checking `targets` from the first, when looking up the i-th gives `lookups[i]`:
/// the refusal of the first target that is refused, or none.
pub open spec fn admission_run(
    rules: Option<Seq<RuleModel>>,
    targets: Seq<ForwardTargetModel>,
    lookups: Seq<Lookup>,
) -> Option<RefusalModel>
    decreases targets.len(),
{
    if targets.len() == 0 || rules is None {
        None
    } else {
        match refusal_of(rules, targets[0], lookups[0]) {
            Some(why) => Some(why),
            None => admission_run(rules, targets.drop_first(), lookups.drop_first()),
        }
    }
}

/// An offer is admitted if and only if every one of its targets is: it can be looked up, and some
/// rule allows the address that was found on its port. Without rules every offer is.
pub proof fn law_admitted_iff_every_target_is_allowed(
    rules: Option<Seq<RuleModel>>,
    targets: Seq<ForwardTargetModel>,
    lookups: Seq<Lookup>,
)
    requires
        lookups.len() == targets.len(),
    ensures
        admission_run(rules, targets, lookups) is None <==> (rules matches Some(rs) ==> forall|
            i: int,
        |
            0 <= i < targets.len() ==> (#[trigger] lookups[i] matches Lookup::Found(ip)
                && some_rule_admits(rs, looked_up(ip), targets[i].port))),
    decreases targets.len(),
{
    if rules is Some && targets.len() > 0 {
        let rs = rules->Some_0;
        law_admitted_iff_every_target_is_allowed(rules, targets.drop_first(), lookups.drop_first());
        let rest_t = targets.drop_first();
        let rest_l = lookups.drop_first();
        assert forall|i: int| 0 <= i < rest_t.len() implies rest_t[i] == targets[i + 1] && rest_l[i]
            == lookups[i + 1] by {}
        if admission_run(rules, targets, lookups) is None {
            assert forall|i: int| 0 <= i < targets.len() implies (#[trigger] lookups[i] matches Lookup::Found(ip)
                && some_rule_admits(rs, looked_up(ip), targets[i].port)) by {
                if i > 0 {
                    assert(lookups[i] == rest_l[i - 1]);
                    assert(targets[i] == rest_t[i - 1]);
                }
            }
        } else if refusal_of(rules, targets[0], lookups[0]) is Some {
            assert(!(lookups[0] matches Lookup::Found(ip) && some_rule_admits(
                rs,
                looked_up(ip),
                targets[0].port,
            )));
        } else {
            let i = choose|i: int|
                0 <= i < rest_t.len() && !(#[trigger] rest_l[i] matches Lookup::Found(ip)
                    && some_rule_admits(rs, looked_up(ip), rest_t[i].port));
            assert(lookups[i + 1] == rest_l[i]);
            assert(targets[i + 1] == rest_t[i]);
        }
    }
}

/// What the text of an offer stands for as a description, or what is wrong with it.
pub fn offer_description(offer_sdp: &str) -> (r: Result<rustrtc::SessionDescription, String>)
    ensures
        match r {
            Ok(d) => description_syntax(DescriptionKind::Offer, offer_sdp@) == Ok::<
                rustrtc::SessionDescription,
                Seq<char>,
            >(d),
            Err(e) => description_syntax(DescriptionKind::Offer, offer_sdp@) == Err::<
                rustrtc::SessionDescription,
                Seq<char>,
            >(e@),
        },
{
    parse_description(DescriptionKind::Offer, offer_sdp)
}

/// The answer of an agent, before it is numbered.
pub open spec fn answer_message(session_id: Seq<char>, answer_sdp: Seq<char>) -> MessageModel {
    MessageModel::Answer { session_id, answer_sdp, seq: None, ack: None }
}

/// The answer for a session, made of the local description. It is sent again once if it is not
/// acknowledged in time. Without a description there is no answer.
pub fn make_answer(
    session_id: &str,
    local_description: Option<String>,
    reliable: &mut ReliableSession,
    now: Nanos,
) -> (r: Result<SignalingMessage, &'static str>)
    requires
        old(reliable)@.wf(),
        old(reliable)@.next_seq < u64::MAX,
        now <= MAX_NANOS,
    ensures
        final(reliable)@.wf(),
        match local_description {
            Some(sdp) => {
                let m = answer_message(session_id@, sdp@);
                &&& r matches Ok(msg)
                &&& msg.deep_view() == old(reliable)@.outgoing(m)
                &&& final(reliable)@ == old(reliable)@.sent(m, true, now)
            },
            None => {
                &&& r matches Err(e)
                &&& e@ == "No local description"@
                &&& final(reliable)@ == old(reliable)@
            },
        },
{
    match local_description {
        Some(sdp) => {
            let mut msg = SignalingMessage::new_answer(session_id.to_owned(), sdp);
            reliable.prepare_send_at(&mut msg, true, now);
            Ok(msg)
        },
        None => Err("No local description"),
    }
}

/// What to do when the pending messages were looked through.
#[derive(Debug)]
pub enum RetransmitAction {
    /// Send these messages again.
    Send(Vec<PendingMessage>),
    /// Look again after [`RETRANSMIT_INTERVAL`].
    Idle,
    /// There is nothing more to send again.
    Stop,
}

/// Looks through the pending messages at the time `now`.
pub fn retransmit_tick(reliable: &mut ReliableSession, now: Nanos) -> (r: RetransmitAction)
    requires
        old(reliable)@.wf(),
        now <= MAX_NANOS,
    ensures
        final(reliable)@.wf(),
        final(reliable)@ == old(reliable)@.after_due(now),
        match r {
            RetransmitAction::Send(ps) => ps@.len() > 0 && ps.deep_view() == old(reliable)@.due(now),
            RetransmitAction::Idle => old(reliable)@.due(now).len() == 0 && !final(reliable)@.exhausted && final(reliable)@.pending.len() > 0,
            RetransmitAction::Stop => old(reliable)@.due(now).len() == 0 && (final(reliable)@.exhausted || final(reliable)@.pending.len() == 0),
        },
{
    let due = reliable.due_retransmits(now);
    assert(due.deep_view().len() == due@.len());
    if due.len() == 0 {
        if reliable.is_exhausted() || !reliable.has_pending() {
            RetransmitAction::Stop
        } else {
            RetransmitAction::Idle
        }
    } else {
        RetransmitAction::Send(due)
    }
}

/// A message that is sent again is sent again once: no later look hands it out a second time.
pub proof fn law_message_is_resent_once(m: ReliableModel, now: Nanos, later: Nanos, i: int, j: int)
    requires
        m.wf(),
        0 <= i < m.due(now).len(),
        0 <= j < m.after_due(now).due(later).len(),
    ensures
        m.due(now)[i].seq != m.after_due(now).due(later)[j].seq,
{
    if !m.exhausted {
        let after = m.after_due(now);
        crate::reliable::lemma_after_due_wf(m, now);
        crate::reliable::lemma_due_was_pending(after, later, j);
        let q = choose|q: PendingModel|
            #[trigger] after.pending.contains(q) && q.seq == after.due(later)[j].seq;
        crate::reliable::law_due_messages_leave_the_queue(m, now);
        assert(m.pending.contains(q) && !crate::reliable::is_due(q, now, m.max_retransmits));
        crate::reliable::lemma_due_was_pending(m, now, i);
        let p = choose|p: PendingModel|
            #[trigger] m.pending.contains(p) && crate::reliable::is_due(p, now, m.max_retransmits)
                && p.seq == m.due(now)[i].seq;
        let a = choose|a: int| 0 <= a < m.pending.len() && m.pending[a] == p;
        let b = choose|b: int| 0 <= b < m.pending.len() && m.pending[b] == q;
        if a < b {
            assert(m.pending[a].seq < m.pending[b].seq);
        }
        if b < a {
            assert(m.pending[b].seq < m.pending[a].seq);
        }
    }
}

/// What happens on a data channel that leads to a target.
#[derive(Debug, Clone, Copy, PartialEq, Eq, Structural)]
pub enum ChannelEvent {
    Open,
    Message,
    Close,
    /// There will be no more events.
    Ended,
}

/// What to do about a [`ChannelEvent`].
#[derive(Debug, Clone, Copy, PartialEq, Eq, Structural)]
pub enum ChannelAction {
    /// Connect to the target, and write to it what is queued.
    Connect,
    /// Queue the message for the target.
    Enqueue,
    /// Nothing.
    Ignore,
    /// Stop listening to the channel.
    Stop,
}

/// A data channel that leads to a target. The target is connected to once.
#[derive(Debug, Clone, Copy, PartialEq, Eq, Structural)]
pub struct TargetChannel {
    pub connected: bool,
}

impl TargetChannel {
    /// A channel that is not open yet.
    pub fn new() -> (r: TargetChannel)
        ensures
            !r.connected,
    {
        TargetChannel { connected: false }
    }

    /// Takes in an event and says what to do.
    pub fn step(&mut self, event: ChannelEvent) -> (r: ChannelAction)
        ensures
            final(self).connected == (old(self).connected || event is Open),
            r == match event {
                ChannelEvent::Open => if old(self).connected {
                    ChannelAction::Ignore
                } else {
                    ChannelAction::Connect
                },
                ChannelEvent::Message => ChannelAction::Enqueue,
                ChannelEvent::Close | ChannelEvent::Ended => ChannelAction::Stop,
            },
    {
        match event {
            ChannelEvent::Open => {
                if self.connected {
                    ChannelAction::Ignore
                } else {
                    self.connected = true;
                    ChannelAction::Connect
                }
            },
            ChannelEvent::Message => ChannelAction::Enqueue,
            ChannelEvent::Close | ChannelEvent::Ended => ChannelAction::Stop,
        }
    }
}

/// What happens to an agent that is connected to its server.
#[derive(Debug)]
pub enum AgentEvent {
    /// The peer connection of a session is lost for good.
    SessionEnded(String),
    /// A message came from the server.
    Received(SignalingMessage),
    /// The connection to the server has failed.
    ReceiveFailed,
    /// Nothing came for [`RECEIVE_TIMEOUT`].
    TimedOut,
    /// The server could not be pinged.
    PingFailed,
}

/// What to do about an [`AgentEvent`]. A session is known by a handle of type `H`.
pub enum AgentAction<H> {
    /// Nothing.
    Wait,
    /// Close this session.
    Close(H),
    /// Close the session that had the same name, if there was one, and answer this offer. What
    /// comes of it is handed to [`AgentSessions::opened`] if it is a session.
    Answer {
        replaced: Option<H>,
        session_id: String,
        offer_sdp: String,
        targets: Option<Vec<Target>>,
    },
    /// Hand the candidate, if there is one, to the peer connection of the session, and let the
    /// session take note of the message.
    Note { session_id: String, candidate: Option<rustrtc::IceCandidate>, msg: SignalingMessage },
    /// Send this message to the server.
    Send(SignalingMessage),
    /// Close these sessions. The connection is lost.
    Stop(Vec<H>),
}

/// What is said when the connection to the server is lost.
pub open spec fn connection_lost_error() -> Seq<char> {
    "DTLS server connection lost"@
}

/// What is said when the connection to the server is lost.
pub fn connection_lost_message() -> (r: &'static str)
    ensures
        r@ == connection_lost_error(),
{
    "DTLS server connection lost"
}

/// The sessions of an agent, by name. A session is known by a handle of type `H`.
pub struct AgentSessions<H> {
    sessions: Registry<H>,
}

impl<H> View for AgentSessions<H> {
    type V = Map<Seq<char>, H>;

    closed spec fn view(&self) -> Map<Seq<char>, H> {
        self.sessions@
    }
}

/// Whether `msg` is taken note of by the session that it names: its name, and the text of the
/// candidate that it brings.
pub open spec fn noted(msg: MessageModel) -> Option<(Seq<char>, Option<Seq<char>>)> {
    match msg {
        MessageModel::Candidate { session_id, candidate, .. } => Some((session_id, Some(candidate))),
        MessageModel::EndOfCandidates { session_id, .. } => Some((session_id, None)),
        MessageModel::Ack { session_id, .. } => Some((session_id, None)),
        _ => None,
    }
}

/// The handle under `name`, if there is one.
pub open spec fn handle_of<H>(sessions: Map<Seq<char>, H>, name: Seq<char>) -> Option<H> {
    if sessions.dom().contains(name) {
        Some(sessions[name])
    } else {
        None
    }
}

/// Whether `handles` are the handles of all sessions, each once.
pub open spec fn all_handles<H>(sessions: Map<Seq<char>, H>, handles: Seq<H>) -> bool {
    exists|names: Seq<Seq<char>>|
        {
            &&& #[trigger] names.no_duplicates()
            &&& names.len() == handles.len()
            &&& forall|k: Seq<char>| names.contains(k) <==> sessions.dom().contains(k)
            &&& forall|i: int| 0 <= i < names.len() ==> handles[i] == sessions[#[trigger] names[i]]
        }
}

/// What a message of the server does to the sessions, and what is to be done.
pub open spec fn message_step<H>(
    before: Map<Seq<char>, H>,
    msg: MessageModel,
    after: Map<Seq<char>, H>,
    action: AgentAction<H>,
) -> bool {
    match msg {
        MessageModel::Offer { session_id, offer_sdp, targets, .. } => {
            &&& after == before.remove(session_id)
            &&& action matches AgentAction::Answer {
                replaced,
                session_id: sid,
                offer_sdp: sdp,
                targets: ts,
            }
            &&& replaced == handle_of(before, session_id)
            &&& sid@ == session_id
            &&& sdp@ == offer_sdp
            &&& ts.deep_view() == targets
        },
        MessageModel::Ping => after == before && (action matches AgentAction::Send(m)
            && m.deep_view() == MessageModel::Pong),
        _ => {
            &&& after == before
            &&& match noted(msg) {
                Some((session_id, candidate)) => if before.dom().contains(session_id) {
                    &&& action matches AgentAction::Note { session_id: sid, candidate: c, msg: m }
                    &&& sid@ == session_id
                    &&& c == match candidate {
                        Some(text) => candidate_syntax(text),
                        None => None,
                    }
                    &&& m.deep_view() == msg
                } else {
                    action is Wait
                },
                None => action is Wait,
            }
        },
    }
}

/// What an event does to the sessions of an agent, and what is to be done.
pub open spec fn agent_step<H>(
    before: Map<Seq<char>, H>,
    event: AgentEvent,
    after: Map<Seq<char>, H>,
    action: AgentAction<H>,
) -> bool {
    match event {
        AgentEvent::SessionEnded(name) => {
            &&& after == before.remove(name@)
            &&& match handle_of(before, name@) {
                Some(h) => action == AgentAction::Close(h),
                None => action is Wait,
            }
        },
        AgentEvent::Received(msg) => message_step(before, msg.deep_view(), after, action),
        AgentEvent::ReceiveFailed | AgentEvent::TimedOut | AgentEvent::PingFailed => {
            &&& after == Map::<Seq<char>, H>::empty()
            &&& action matches AgentAction::Stop(handles) && all_handles(before, handles@)
        },
    }
}

/// What to do about a candidate of a session, given what its text stands for.
pub fn note_candidate<H>(
    session_id: String,
    candidate: Option<rustrtc::IceCandidate>,
    msg: SignalingMessage,
) -> (r: AgentAction<H>)
    ensures
        r == (AgentAction::<H>::Note { session_id, candidate, msg }),
{
    AgentAction::Note { session_id, candidate, msg }
}

impl<H> AgentSessions<H> {
    /// No name stands for two sessions.
    pub closed spec fn wf(&self) -> bool {
        self.sessions.wf()
    }

    /// No sessions.
    pub fn new() -> (r: AgentSessions<H>)
        ensures
            r.wf(),
            r@ == Map::<Seq<char>, H>::empty(),
    {
        AgentSessions { sessions: Registry::new() }
    }

    /// The session that goes by `name`.
    pub fn get(&self, name: &str) -> (r: Option<&H>)
        requires
            self.wf(),
        ensures
            match r {
                Some(h) => handle_of(self@, name@) == Some(*h),
                None => handle_of(self@, name@) is None,
            },
    {
        self.sessions.get(name)
    }

    /// How many sessions there are.
    pub fn len(&self) -> (r: usize)
        requires
            self.wf(),
        ensures
            self@.dom().finite(),
            r == self@.dom().len(),
    {
        proof {
            self.sessions.lemma_count();
        }
        self.sessions.len()
    }

    /// An offer was answered and has become this session.
    pub fn opened(&mut self, name: String, session: H)
        requires
            old(self).wf(),
        ensures
            final(self).wf(),
            final(self)@ == old(self)@.insert(name@, session),
    {
        self.sessions.insert(name, session);
    }

    fn note(&self, session_id: &String, msg: SignalingMessage, candidate: Option<&String>) -> (r:
        AgentAction<H>)
        requires
            self.wf(),
        ensures
            if self@.dom().contains(session_id@) {
                &&& r matches AgentAction::Note { session_id: sid, candidate: c, msg: m }
                &&& sid@ == session_id@
                &&& m == msg
                &&& c == match candidate {
                    Some(text) => candidate_syntax(text@),
                    None => None,
                }
            } else {
                r is Wait
            },
    {
        match self.sessions.get(session_id.as_str()) {
            Some(_) => {
                let parsed = match candidate {
                    Some(text) => parse_candidate(text.as_str()),
                    None => None,
                };
                note_candidate(session_id.clone(), parsed, msg)
            },
            None => AgentAction::Wait,
        }
    }

    fn received(&mut self, msg: SignalingMessage) -> (r: AgentAction<H>)
        requires
            old(self).wf(),
        ensures
            final(self).wf(),
            message_step(old(self)@, msg.deep_view(), final(self)@, r),
    {
        let again = msg.clone();
        match msg {
            SignalingMessage::Offer { session_id, offer_sdp, targets, .. } => {
                let replaced = self.sessions.remove(session_id.as_str());
                AgentAction::Answer { replaced, session_id, offer_sdp, targets }
            },
            SignalingMessage::Candidate { session_id, candidate, .. } => self.note(
                &session_id,
                again,
                Some(&candidate),
            ),
            SignalingMessage::EndOfCandidates { session_id, .. } => self.note(
                &session_id,
                again,
                None,
            ),
            SignalingMessage::Ack { session_id, .. } => self.note(&session_id, again, None),
            SignalingMessage::Ping => AgentAction::Send(SignalingMessage::Pong),
            _ => AgentAction::Wait,
        }
    }

    /// Takes in an event and says what to do.
    pub fn step(&mut self, event: AgentEvent) -> (r: AgentAction<H>)
        requires
            old(self).wf(),
        ensures
            final(self).wf(),
            agent_step(old(self)@, event, final(self)@, r),
    {
        match event {
            AgentEvent::SessionEnded(name) => match self.sessions.remove(name.as_str()) {
                Some(h) => AgentAction::Close(h),
                None => AgentAction::Wait,
            },
            AgentEvent::Received(msg) => self.received(msg),
            AgentEvent::ReceiveFailed | AgentEvent::TimedOut | AgentEvent::PingFailed => {
                proof {
                    self.sessions.lemma_names();
                    assert(self.sessions.names().no_duplicates());
                }
                let handles = self.sessions.drain();
                assert(all_handles(old(self)@, handles@));
                AgentAction::Stop(handles)
            },
        }
    }
}

/// An offer for a name that is in use leaves no session behind: the old one is handed out to be
/// closed, and the name is free until the new one is open. No other session is touched.
pub proof fn law_reconnect_replaces_session<H>(
    before: Map<Seq<char>, H>,
    offer: MessageModel,
    after: Map<Seq<char>, H>,
    action: AgentAction<H>,
    other: Seq<char>,
)
    requires
        offer is Offer,
        message_step(before, offer, after, action),
    ensures
        !after.dom().contains(offer->Offer_session_id),
        action->replaced == handle_of(before, offer->Offer_session_id),
        other != offer->Offer_session_id ==> handle_of(after, other) == handle_of(before, other),
{
}

/// A message for a session that is not there is ignored.
pub proof fn law_unknown_session_is_ignored<H>(
    before: Map<Seq<char>, H>,
    msg: MessageModel,
    after: Map<Seq<char>, H>,
    action: AgentAction<H>,
)
    requires
        noted(msg) matches Some((session_id, _)) && !before.dom().contains(session_id),
        message_step(before, msg, after, action),
    ensures
        action is Wait,
        after == before,
{
}

/// An agent goes where the offer says: every target keeps its place, its port and its host, and one
/// without a host is on the machine of the agent. An offer that names no targets means SSH there.
pub proof fn law_targets_are_those_of_the_offer(targets: Seq<TargetModel>, i: int)
    requires
        0 <= i < targets.len(),
    ensures
        ({
            let r = resolved_targets(Some(targets));
            &&& r.len() == targets.len()
            &&& r[i].port == targets[i].port
            &&& targets[i].host is Some ==> r[i].host == targets[i].host->Some_0
            &&& targets[i].host is None ==> r[i].host == "127.0.0.1"@
        }),
        resolved_targets(None).len() == 1,
        resolved_targets(None)[0].host == "127.0.0.1"@,
        resolved_targets(None)[0].port == 22,
{
}

/// The address of a target is its host and its port, and tells both.
pub proof fn law_address_tells_the_target(t: ForwardTargetModel)
    ensures
        crate::text::split_last(t.address(), ':') == Some(
            (t.host, crate::text::decimal(t.port as nat)),
        ),
{
    reveal_strlit(":");
    let tail = crate::text::decimal(t.port as nat);
    crate::text::lemma_decimal_digits(t.port);
    assert forall|i: int| 0 <= i < tail.len() implies tail[i] != ':' by {
        assert(crate::text::is_digit(tail[i]));
    }
    crate::text::law_last_part_reads_back(t.host, tail, ':');
    assert(t.address() =~= t.host + seq![':'] + tail);
}

/// A target is refused exactly if there are rules and it cannot be looked up, or no rule has both
/// the address that was found and the port. A lookup without an address counts as `0.0.0.0`. The
/// refusal names the target.
pub proof fn law_refused_iff_no_rule_has_the_target(
    rules: Option<Seq<RuleModel>>,
    t: ForwardTargetModel,
    lookup: Lookup,
)
    ensures
        ({
            let why = refusal_of(rules, t, lookup);
            let ip = match lookup {
                Lookup::Found(Some(ip)) => ip,
                _ => IpAddr::V4(0),
            };
            let allowed = rules matches Some(rs) && exists|i: int, j: int|
                0 <= i < rs.len() && 0 <= j < rs[i].ports.len() && crate::acl::in_network(
                    rs[i].network,
                    ip,
                ) && (#[trigger] rs[i].ports[j]).start <= t.port <= rs[i].ports[j].end;
            &&& why is None <==> rules is None || (lookup is Found && allowed)
            &&& rules is Some && lookup is Failed ==> why->Some_0.reason
                == "Cannot resolve target: "@ + t.host
            &&& rules is Some && lookup is Found && !allowed ==> why->Some_0.reason
                == "Access denied: "@ + (t.host + ":"@ + crate::text::decimal(t.port as nat))
        }),
{
    if let Some(rs) = rules {
        let ip = match lookup {
            Lookup::Found(Some(ip)) => ip,
            _ => IpAddr::V4(0),
        };
        crate::acl::law_allowed_means_one_rule_has_both(rs, ip, t.port);
    }
}

/// The first target that is refused decides why an offer is.
pub proof fn law_first_refusal_decides(
    rules: Option<Seq<RuleModel>>,
    targets: Seq<ForwardTargetModel>,
    lookups: Seq<Lookup>,
    k: int,
)
    requires
        lookups.len() == targets.len(),
        0 <= k < targets.len(),
        forall|i: int| 0 <= i < k ==> refusal_of(rules, #[trigger] targets[i], lookups[i]) is None,
        refusal_of(rules, targets[k], lookups[k]) is Some,
    ensures
        admission_run(rules, targets, lookups) == refusal_of(rules, targets[k], lookups[k]),
    decreases k,
{
    if k > 0 {
        let rest_t = targets.drop_first();
        let rest_l = lookups.drop_first();
        assert(refusal_of(rules, targets[0], lookups[0]) is None);
        assert forall|i: int| 0 <= i < k - 1 implies refusal_of(
            rules,
            #[trigger] rest_t[i],
            rest_l[i],
        ) is None by {
            assert(rest_t[i] == targets[i + 1] && rest_l[i] == lookups[i + 1]);
        }
        law_first_refusal_decides(rules, rest_t, rest_l, k - 1);
    }
}

/// An offer is answered with its own description and targets, under its own name.
pub proof fn law_offer_is_answered_as_it_came<H>(
    before: Map<Seq<char>, H>,
    offer: MessageModel,
    after: Map<Seq<char>, H>,
    action: AgentAction<H>,
)
    requires
        offer is Offer,
        message_step(before, offer, after, action),
    ensures
        action matches AgentAction::Answer { session_id, offer_sdp, targets, .. } && session_id@
            == offer->Offer_session_id && offer_sdp@ == offer->offer_sdp && targets.deep_view()
            == offer->targets,
{
}

/// A candidate for a session that is there is handed to it as the candidate that its text stands
/// for, with the message that brought it. The end of the candidates and acknowledgements reach
/// their sessions too, without a candidate. The sessions stay as they are.
pub proof fn law_candidates_reach_their_session<H>(
    before: Map<Seq<char>, H>,
    msg: MessageModel,
    after: Map<Seq<char>, H>,
    action: AgentAction<H>,
)
    requires
        message_step(before, msg, after, action),
    ensures
        msg is Candidate && before.dom().contains(msg->Candidate_session_id) ==> (
        action matches AgentAction::Note { session_id, candidate, msg: m } && session_id@
            == msg->Candidate_session_id && candidate == candidate_syntax(msg->candidate)
            && m.deep_view() == msg),
        msg is EndOfCandidates && before.dom().contains(msg->EndOfCandidates_session_id) ==> (
        action matches AgentAction::Note { session_id, candidate, msg: m } && session_id@
            == msg->EndOfCandidates_session_id && candidate is None && m.deep_view() == msg),
        msg is Ack && before.dom().contains(msg->Ack_session_id) ==> (
        action matches AgentAction::Note { session_id, candidate, msg: m } && session_id@
            == msg->Ack_session_id && candidate is None && m.deep_view() == msg),
        !(msg is Offer) ==> after == before,
{
}

/// A `Ping` of the server gets a `Pong`. What an agent has nothing to do with is passed over.
pub proof fn law_agent_answers_pings<H>(
    before: Map<Seq<char>, H>,
    msg: MessageModel,
    after: Map<Seq<char>, H>,
    action: AgentAction<H>,
)
    requires
        message_step(before, msg, after, action),
    ensures
        msg is Ping ==> (action matches AgentAction::Send(m) && m.deep_view() == MessageModel::Pong),
        msg is Register || msg is Answer || msg is IceServers || msg is GetIceServers || msg is Error
            || msg is Pong ==> action is Wait,
{
}

/// A session whose peer connection is lost is closed, and no other is.
pub proof fn law_lost_session_is_closed_alone<H>(
    before: Map<Seq<char>, H>,
    name: String,
    after: Map<Seq<char>, H>,
    action: AgentAction<H>,
    other: Seq<char>,
)
    requires
        agent_step(before, AgentEvent::SessionEnded(name), after, action),
    ensures
        !after.dom().contains(name@),
        other != name@ ==> same_entry(before, after, other),
        before.dom().contains(name@) ==> action == AgentAction::Close(before[name@]),
        !before.dom().contains(name@) ==> action is Wait,
{
}

/// When the server is lost, however it is noticed, every session is handed out to be closed, and
/// none is left.
pub proof fn law_lost_server_closes_every_session<H>(
    before: Map<Seq<char>, H>,
    event: AgentEvent,
    after: Map<Seq<char>, H>,
    action: AgentAction<H>,
    name: Seq<char>,
)
    requires
        event is ReceiveFailed || event is TimedOut || event is PingFailed,
        agent_step(before, event, after, action),
    ensures
        !after.dom().contains(name),
        action is Stop,
        before.dom().contains(name) ==> action->Stop_0@.contains(before[name]),
        before.dom().finite(),
        action->Stop_0@.len() == before.dom().len(),
{
    let handles = action->Stop_0@;
    let names = choose|names: Seq<Seq<char>>|
        {
            &&& #[trigger] names.no_duplicates()
            &&& names.len() == handles.len()
            &&& forall|k: Seq<char>| names.contains(k) <==> before.dom().contains(k)
            &&& forall|i: int| 0 <= i < names.len() ==> handles[i] == before[#[trigger] names[i]]
        };
    names.unique_seq_to_set();
    assert(names.to_set() =~= before.dom());
    if before.dom().contains(name) {
        assert(names.contains(name));
        let i = choose|i: int| 0 <= i < names.len() && names[i] == name;
        assert(handles[i] == before[names[i]]);
    }
}

/// The answer and the refusal of an agent carry their session and their text as they are.
pub proof fn law_replies_name_their_session(session_id: Seq<char>, text: Seq<char>)
    ensures
        answer_message(session_id, text) is Answer,
        answer_message(session_id, text)->Answer_session_id == session_id,
        answer_message(session_id, text)->answer_sdp == text,
        refusal_message(session_id, text) is Error,
        refusal_message(session_id, text)->Error_session_id == session_id,
        refusal_message(session_id, text)->reason == text,
{
}

/// A channel connects its target once, when it opens; every message is queued for the target, before
/// and after; and it is left when it closes or ends.
pub proof fn law_channel_connects_once(
    channel: &mut TargetChannel,
    event: ChannelEvent,
    r: ChannelAction,
)
    requires
        call_ensures(TargetChannel::step, (channel, event), r),
    ensures
        r is Connect <==> event is Open && !old(channel).connected,
        r is Ignore <==> event is Open && old(channel).connected,
        r is Enqueue <==> event is Message,
        r is Stop <==> event is Close || event is Ended,
        final(channel).connected <==> old(channel).connected || event is Open,
{
}

/// The answer of an agent is made of its description, goes out numbered, and is tracked until it is
/// acknowledged. Without a description nothing is sent.
pub proof fn law_answer_is_tracked(
    session_id: &str,
    local_description: Option<String>,
    reliable: &mut ReliableSession,
    now: Nanos,
    r: Result<SignalingMessage, &'static str>,
)
    requires
        old(reliable)@.next_seq < u64::MAX,
        call_ensures(make_answer, (session_id, local_description, reliable, now), r),
    ensures
        r is Ok <==> local_description is Some,
        r matches Ok(msg) ==> (msg.deep_view() matches MessageModel::Answer {
            session_id: sid,
            answer_sdp,
            seq,
            ack,
        } && sid == session_id@ && answer_sdp == local_description->Some_0@ && seq == Some(
            old(reliable)@.next_seq,
        ) && ack == old(reliable)@.last_recv_seq && final(reliable)@.pending.len()
            == old(reliable)@.pending.len() + 1 && final(reliable)@.pending.last().msg
            == msg.deep_view()),
        r is Err ==> final(reliable)@ == old(reliable)@,
{
}

/// A look through the pending messages hands out all that are due, and stops only when none is due
/// and none is left or retransmission was given up.
pub proof fn law_retransmission_goes_on_while_needed(
    reliable: &mut ReliableSession,
    now: Nanos,
    r: RetransmitAction,
)
    requires
        call_ensures(retransmit_tick, (reliable, now), r),
    ensures
        final(reliable)@ == old(reliable)@.after_due(now),
        r is Send <==> old(reliable)@.due(now).len() > 0,
        r matches RetransmitAction::Send(ps) ==> ps.deep_view() == old(reliable)@.due(now),
        r is Stop ==> final(reliable)@.exhausted || final(reliable)@.pending.len() == 0,
        r is Idle ==> !final(reliable)@.exhausted && final(reliable)@.pending.len() > 0,
{
    if let RetransmitAction::Send(ps) = r {
        assert(ps.deep_view().len() == ps@.len());
    }
}

/// An agent registers with its own token and id.
pub proof fn law_agent_registers_by_its_id(agent: &Agent, r: SignalingMessage)
    requires
        call_ensures(Agent::registration, (agent,), r),
    ensures
        r.deep_view() matches MessageModel::Register { token, id } && token == agent@.token && id
            == agent@.id,
{
}

/// Targets are looked up one after the other as long as there are rules, each by its address, and
/// the offer is admitted once none is left.
pub proof fn law_targets_are_looked_up_in_order(admission: &Admission, r: Option<String>)
    requires
        admission.checked() <= admission.targets().len(),
        call_ensures(Admission::next_lookup, (admission,), r),
    ensures
        r is Some <==> admission.rules() is Some && admission.checked() < admission.targets().len(),
        r matches Some(a) ==> a@ == admission.targets()[admission.checked() as int].host + ":"@
            + crate::text::decimal(admission.targets()[admission.checked() as int].port as nat),
{
}

/// A target that passes the rules leads on to the next one; one that does not is refused with an
/// error for the session, and none is passed over. The rules and the targets stay.
pub proof fn law_check_of_a_target(
    admission: &mut Admission,
    session_id: &str,
    lookup: Lookup,
    r: Result<(), Refusal>,
)
    requires
        old(admission).rules() is Some,
        old(admission).checked() < old(admission).targets().len(),
        call_ensures(Admission::check, (admission, session_id, lookup), r),
    ensures
        ({
            let t = old(admission).targets()[old(admission).checked() as int];
            let rules = old(admission).rules()->Some_0;
            &&& r is Ok <==> (lookup matches Lookup::Found(ip) && some_rule_admits(
                rules,
                (if ip is Some {
                    ip->Some_0
                } else {
                    IpAddr::V4(0)
                }),
                t.port,
            ))
            &&& r is Ok ==> final(admission).checked() == old(admission).checked() + 1
            &&& r is Err ==> final(admission).checked() == old(admission).checked()
            &&& r matches Err(refusal) ==> (refusal.reply.deep_view() matches MessageModel::Error {
                session_id: sid,
                ..
            } && sid == session_id@)
        }),
        final(admission).targets() == old(admission).targets(),
        final(admission).rules() == old(admission).rules(),
{
}

/// An agent holds what it was made with: its server, its token, its id and its rules.
pub proof fn law_agent_is_made_as_asked(
    server_url: &str,
    token: &str,
    id: &str,
    ice_servers: Option<Vec<IceServerConfig>>,
    upnp: bool,
    acl: Option<Acl>,
    cfg: &RportConfig,
    r: Agent,
)
    requires
        call_ensures(Agent::new, (server_url, token, id, ice_servers, upnp, acl, cfg), r),
    ensures
        r@.server_url == server_url@,
        r@.token == token@,
        r@.id == id@,
        r@.acl is Some <==> acl is Some,
        acl matches Some(a) ==> r@.acl == Some(a.deep_view()),
        r@.webrtc.enable_upnp == upnp,
        ice_servers matches Some(s) ==> r@.webrtc.ice_servers == s.deep_view(),
        ice_servers is None ==> r@.webrtc.ice_servers.len() == 0,
{
}

/// The targets of an offer are checked against the rules of the agent from the first one on.
pub proof fn law_admission_starts_at_the_first_target(
    agent: &Agent,
    targets: Vec<ForwardTarget>,
    r: Admission,
)
    requires
        call_ensures(Agent::admission, (agent, targets), r),
    ensures
        r.rules() == agent@.acl,
        r.targets() == targets.deep_view(),
        r.checked() == 0,
{
}

/// The description of an offer is read as an offer.
pub proof fn law_offers_are_read_as_offers(
    offer_sdp: &str,
    r: Result<rustrtc::SessionDescription, String>,
)
    requires
        call_ensures(offer_description, (offer_sdp,), r),
    ensures
        r is Ok <==> description_syntax(DescriptionKind::Offer, offer_sdp@) is Ok,
        r matches Ok(d) ==> description_syntax(DescriptionKind::Offer, offer_sdp@)->Ok_0 == d,
{
}

/// A session that is opened is found by its name, and no other is touched.
pub proof fn law_opened_session_is_found<H>(
    sessions: &mut AgentSessions<H>,
    name: String,
    session: H,
    other: Seq<char>,
)
    requires
        call_ensures(AgentSessions::<H>::opened, (sessions, name, session), ()),
    ensures
        handle_of(final(sessions)@, name@) == Some(session),
        other != name@ ==> same_entry(old(sessions)@, final(sessions)@, other),
{
}

} // verus!
