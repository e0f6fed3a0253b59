//! Clients that the window starts and stops.
use crate::client::{CliClient, ClientModel};
use crate::config::{default_config, ForwardMapping, ForwardModel, RportConfig};
use crate::forward::ForwardStats;
use crate::text::decimal_string;
use crate::ui::config::{ClientConfig, ClientConfigModel, RuleModel};
use crate::webrtc_config::webrtc_of;
use vstd::prelude::*;

verus! {

/// How a client is doing.
#[derive(Debug)]
pub enum ClientStatus {
    Disconnected,
    Connecting,
    Connected,
    Failed(String),
}

/// What a [`ClientStatus`] says.
#[verifier::ext_equal]
pub enum StatusModel {
    Disconnected,
    Connecting,
    Connected,
    Failed(Seq<char>),
}

impl DeepView for ClientStatus {
    type V = StatusModel;

    open spec fn deep_view(&self) -> StatusModel {
        match *self {
            ClientStatus::Disconnected => StatusModel::Disconnected,
            ClientStatus::Connecting => StatusModel::Connecting,
            ClientStatus::Connected => StatusModel::Connected,
            ClientStatus::Failed(e) => StatusModel::Failed(e@),
        }
    }
}

impl Clone for ClientStatus {
    fn clone(&self) -> (r: ClientStatus)
        ensures
            r.deep_view() == self.deep_view(),
    {
        match self {
            ClientStatus::Disconnected => ClientStatus::Disconnected,
            ClientStatus::Connecting => ClientStatus::Connecting,
            ClientStatus::Connected => ClientStatus::Connected,
            ClientStatus::Failed(e) => ClientStatus::Failed(e.clone()),
        }
    }
}

impl StatusModel {
    /// Whether the client is started.
    pub open spec fn running(self) -> bool {
        self is Connecting || self is Connected
    }

    /// The status in words.
    pub open spec fn text(self) -> Seq<char> {
        match self {
            StatusModel::Connected => "Connected"@,
            StatusModel::Connecting => "Connecting..."@,
            StatusModel::Disconnected => "Disconnected"@,
            StatusModel::Failed(e) => "Failed: "@ + e,
        }
    }
}

impl ClientStatus {
    /// The status in words.
    pub fn text(&self) -> (r: String)
        ensures
            r@ == self.deep_view().text(),
    {
        match self {
            ClientStatus::Connected => "Connected".to_owned(),
            ClientStatus::Connecting => "Connecting...".to_owned(),
            ClientStatus::Disconnected => "Disconnected".to_owned(),
            ClientStatus::Failed(e) => "Failed: ".to_owned().concat(e.as_str()),
        }
    }

    /// The status as a sign.
    pub fn icon(&self) -> (r: &'static str)
        ensures
            r@ == match self.deep_view() {
                StatusModel::Connected => "●"@,
                StatusModel::Connecting => "◌"@,
                StatusModel::Disconnected => "○"@,
                StatusModel::Failed(_) => "✕"@,
            },
    {
        match self {
            ClientStatus::Connected => "●",
            ClientStatus::Connecting => "◌",
            ClientStatus::Disconnected => "○",
            ClientStatus::Failed(_) => "✕",
        }
    }
}

/// A client that can be started and stopped.
#[derive(Debug)]
pub struct ManagedClient {
    pub config: ClientConfig,
    pub status: ClientStatus,
    pub stats: ForwardStats,
}

/// What a [`ManagedClient`] says.
#[verifier::ext_equal]
pub struct ManagedModel {
    pub config: ClientConfigModel,
    pub status: StatusModel,
    pub stats: ForwardStats,
}

impl DeepView for ManagedClient {
    type V = ManagedModel;

    open spec fn deep_view(&self) -> ManagedModel {
        ManagedModel {
            config: self.config.deep_view(),
            status: self.status.deep_view(),
            stats: self.stats,
        }
    }
}

/// A client that was never started.
pub open spec fn new_managed(config: ClientConfigModel) -> ManagedModel {
    ManagedModel {
        config,
        status: StatusModel::Disconnected,
        stats: ForwardStats { bytes_sent: 0, bytes_recv: 0, packets_sent: 0, packets_recv: 0 },
    }
}

impl ManagedModel {
    /// The client after it was told to start. One that runs goes on.
    pub open spec fn started(self) -> ManagedModel {
        if self.status.running() {
            self
        } else {
            ManagedModel { status: StatusModel::Connecting, ..self }
        }
    }

    /// The client after it was stopped.
    pub open spec fn stopped(self) -> ManagedModel {
        ManagedModel { status: StatusModel::Disconnected, ..self }
    }
}

/// The forwardings that are enabled, in their order.
pub open spec fn enabled_forwards(rules: Seq<RuleModel>) -> Seq<ForwardModel>
    decreases rules.len(),
{
    if rules.len() == 0 {
        Seq::empty()
    } else {
        let before = enabled_forwards(rules.drop_last());
        let rule = rules.last();
        if rule.enabled {
            before.push(
                ForwardModel {
                    local_port: Some(rule.local_port),
                    host: rule.remote_host,
                    port: rule.remote_port,
                },
            )
        } else {
            before
        }
    }
}

/// What happens to a client that was started.
#[derive(Debug)]
pub enum TaskEvent {
    /// There is nothing to forward.
    NothingToForward,
    /// A local port cannot be listened on; this is why.
    BindFailed { local_port: u16, error: String },
    /// A connection to the agent is established.
    Established,
    /// The client was told to stop, and has.
    Cancelled,
}

/// The status of a client after this has happened to it.
pub open spec fn status_after(event: TaskEvent) -> StatusModel {
    match event {
        TaskEvent::NothingToForward => StatusModel::Failed("No enabled forward rules"@),
        TaskEvent::BindFailed { local_port, error } => StatusModel::Failed(
            "Cannot bind 127.0.0.1:"@ + crate::text::decimal(local_port as nat) + ": "@ + error@,
        ),
        TaskEvent::Established => StatusModel::Connected,
        TaskEvent::Cancelled => StatusModel::Disconnected,
    }
}

/// The status of a client after this has happened to it.
pub fn task_status(event: TaskEvent) -> (r: ClientStatus)
    ensures
        r.deep_view() == status_after(event),
{
    match event {
        TaskEvent::NothingToForward => ClientStatus::Failed("No enabled forward rules".to_owned()),
        TaskEvent::BindFailed { local_port, error } => ClientStatus::Failed(
            "Cannot bind 127.0.0.1:".to_owned().concat(
                decimal_string(local_port as u64).as_str(),
            ).concat(": ").concat(error.as_str()),
        ),
        TaskEvent::Established => ClientStatus::Connected,
        TaskEvent::Cancelled => ClientStatus::Disconnected,
    }
}

impl ManagedClient {
    /// A client that was never started.
    pub fn new(config: ClientConfig) -> (r: ManagedClient)
        ensures
            r.deep_view() == new_managed(config.deep_view()),
    {
        ManagedClient {
            config,
            status: ClientStatus::Disconnected,
            stats: ForwardStats::default(),
        }
    }

    /// Whether the client is started.
    pub fn is_running(&self) -> (r: bool)
        ensures
            r == self.deep_view().status.running(),
    {
        matches!(self.status, ClientStatus::Connecting | ClientStatus::Connected)
    }

    /// Starts the client. Returns whether it has to be launched: one that runs goes on.
    pub fn start(&mut self) -> (r: bool)
        ensures
            final(self).deep_view() == old(self).deep_view().started(),
            r == !old(self).deep_view().status.running(),
    {
        if self.is_running() {
            return false;
        }
        self.status = ClientStatus::Connecting;
        true
    }

    /// Stops the client.
    pub fn stop(&mut self)
        ensures
            final(self).deep_view() == old(self).deep_view().stopped(),
    {
        self.status = ClientStatus::Disconnected;
    }

    /// What to launch: the client, and the forwardings that are enabled. With none, there is
    /// nothing to launch.
    pub fn launch(config: &ClientConfig) -> (r: Result<(CliClient, Vec<ForwardMapping>), TaskEvent>)
        ensures
            ({
                let forwards = enabled_forwards(config.deep_view().forwards);
                if forwards.len() == 0 {
                    r matches Err(e) && e is NothingToForward
                } else {
                    &&& r matches Ok((client, fs))
                    &&& fs.deep_view() == forwards
                    &&& client@ == (ClientModel {
                        server_url: config.server_addr@,
                        token: config.token@,
                        agent_id: config.agent_id@,
                        webrtc: webrtc_of(default_config(), Seq::empty(), false),
                        wait_candidates: false,
                    })
                }
            }),
    {
        let ghost all = config.forwards.deep_view();
        let mut forwards: Vec<ForwardMapping> = Vec::new();
        let mut i: usize = 0;
        proof {
            assert(all.take(0) =~= Seq::empty());
            assert(forwards.deep_view() =~= Seq::empty());
        }
        while i < config.forwards.len()
            invariant
                i <= config.forwards@.len(),
                all == config.forwards.deep_view(),
                forwards.deep_view() == enabled_forwards(all.take(i as int)),
            decreases config.forwards@.len() - i,
        {
            let ghost before = forwards.deep_view();
            let rule = &config.forwards[i];
            proof {
                assert(all.take(i + 1).drop_last() =~= all.take(i as int));
                assert(all.take(i + 1).last() == rule.deep_view());
            }
            if rule.enabled {
                let f = ForwardMapping {
                    local_port: Some(rule.local_port),
                    host: rule.remote_host.clone(),
                    port: rule.remote_port,
                };
                let ghost m = f.deep_view();
                forwards.push(f);
                assert(forwards.deep_view() =~= before.push(m));
            }
            i = i + 1;
        }
        proof {
            assert(all.take(all.len() as int) =~= all);
            assert(forwards.deep_view().len() == forwards@.len());
        }
        if forwards.len() == 0 {
            return Err(TaskEvent::NothingToForward);
        }
        let client = CliClient::new(
            config.server_addr.as_str(),
            config.token.as_str(),
            config.agent_id.as_str(),
            None,
            false,
            false,
            &RportConfig::default(),
        );
        Ok((client, forwards))
    }
}

/// A client that was stopped does not run, and one that was started does, however often.
pub proof fn law_start_and_stop(m: ManagedModel)
    ensures
        m.started().status.running(),
        m.started().started() == m.started(),
        !m.stopped().status.running(),
        m.stopped().stopped() == m.stopped(),
        m.started().stopped() == m.stopped(),
{
}

/// Only rules that are enabled are forwarded: none is made up, and none that is enabled is left
/// out.
pub proof fn law_enabled_rules_are_forwarded(rules: Seq<RuleModel>)
    ensures
        enabled_forwards(rules).len() == 0 <==> forall|i: int|
            0 <= i < rules.len() ==> !(#[trigger] rules[i]).enabled,
        forall|i: int|
            0 <= i < enabled_forwards(rules).len() ==> came_from(
                rules,
                #[trigger] enabled_forwards(rules)[i],
            ),
    decreases rules.len(),
{
    if rules.len() > 0 {
        let init = rules.drop_last();
        law_enabled_rules_are_forwarded(init);
        let before = enabled_forwards(init);
        assert forall|i: int| 0 <= i < enabled_forwards(rules).len() implies came_from(
            rules,
            #[trigger] enabled_forwards(rules)[i],
        ) by {
            let f = enabled_forwards(rules)[i];
            if i < before.len() {
                assert(came_from(init, before[i]));
                let k = choose|k: int|
                    0 <= k < init.len() && (#[trigger] init[k]).enabled && f.local_port == Some(
                        init[k].local_port,
                    ) && f.host == init[k].remote_host && f.port == init[k].remote_port;
                assert(rules[k] == init[k]);
            } else {
                assert(rules[rules.len() - 1].enabled);
            }
        }
        if forall|i: int| 0 <= i < rules.len() ==> !(#[trigger] rules[i]).enabled {
            assert forall|i: int| 0 <= i < init.len() implies !(#[trigger] init[i]).enabled by {
                assert(rules[i] == init[i]);
            }
            assert(!rules[rules.len() - 1].enabled);
        } else {
            let k = choose|k: int| 0 <= k < rules.len() && (#[trigger] rules[k]).enabled;
            if k < init.len() {
                assert(init[k].enabled);
            }
        }
    }
}

/// Whether a forwarding is that of a rule that is enabled.
pub open spec fn came_from(rules: Seq<RuleModel>, f: ForwardModel) -> bool {
    exists|k: int|
        0 <= k < rules.len() && (#[trigger] rules[k]).enabled && f.local_port == Some(
            rules[k].local_port,
        ) && f.host == rules[k].remote_host && f.port == rules[k].remote_port
}

/// Starting and stopping change how a client is doing and nothing else: one that does not run
/// becomes connecting, one that runs goes on, and one that is stopped is disconnected.
pub proof fn law_starting_keeps_the_client(m: ManagedModel)
    ensures
        m.started().config == m.config && m.started().stats == m.stats,
        m.stopped().config == m.config && m.stopped().stats == m.stats,
        m.status is Connecting || m.status is Connected ==> m.started().status == m.status,
        m.status is Disconnected || m.status is Failed ==> m.started().status is Connecting,
        m.stopped().status is Disconnected,
{
}

/// A client runs exactly while it is connecting or connected.
pub proof fn law_running_states(s: StatusModel)
    ensures
        s.running() <==> !(s is Disconnected || s is Failed),
{
}

/// A new client has its configuration, is not started, and has forwarded nothing.
pub proof fn law_new_client(config: ClientConfigModel)
    ensures
        new_managed(config).config == config,
        new_managed(config).status is Disconnected,
        new_managed(config).stats.bytes_sent == 0 && new_managed(config).stats.bytes_recv == 0,
        new_managed(config).stats.packets_sent == 0 && new_managed(config).stats.packets_recv == 0,
{
}

/// Each rule that is enabled is forwarded, in its place among the others, from its local port to its
/// host and port. A rule that is not enabled gives nothing.
pub proof fn law_each_enabled_rule_in_its_place(
    before: Seq<RuleModel>,
    rule: RuleModel,
    after: Seq<RuleModel>,
)
    ensures
        enabled_forwards(before + seq![rule] + after) == enabled_forwards(before) + (if rule.enabled {
            seq![
                ForwardModel {
                    local_port: Some(rule.local_port),
                    host: rule.remote_host,
                    port: rule.remote_port,
                },
            ]
        } else {
            Seq::empty()
        }) + enabled_forwards(after),
    decreases after.len(),
{
    let all = before + seq![rule] + after;
    let own = if rule.enabled {
        seq![
            ForwardModel {
                local_port: Some(rule.local_port),
                host: rule.remote_host,
                port: rule.remote_port,
            },
        ]
    } else {
        Seq::empty()
    };
    if after.len() == 0 {
        assert(all.drop_last() =~= before);
        assert(all.last() == rule);
    } else {
        law_each_enabled_rule_in_its_place(before, rule, after.drop_last());
        assert(all.drop_last() =~= before + seq![rule] + after.drop_last());
        assert(all.last() == after.last());
    }
    assert(enabled_forwards(all) =~= enabled_forwards(before) + own + enabled_forwards(after));
}

/// A client is connected once a connection stands, disconnected once it was stopped, and has failed
/// where there is nothing to forward or a port is taken; then the port and the reason are named.
pub proof fn law_status_tells_what_happened(event: TaskEvent)
    ensures
        status_after(event) is Connected <==> event is Established,
        status_after(event) is Disconnected <==> event is Cancelled,
        status_after(event) is Failed <==> event is NothingToForward || event is BindFailed,
        event matches TaskEvent::BindFailed { local_port, error } ==> status_after(event)
            == StatusModel::Failed(
            "Cannot bind 127.0.0.1:"@ + crate::text::decimal(local_port as nat) + ": "@ + error@,
        ),
{
}

/// A client is launched exactly if some rule is enabled, against its own server, token and agent,
/// with the rules that are.
pub proof fn law_launching(
    config: &ClientConfig,
    r: Result<(CliClient, Vec<ForwardMapping>), TaskEvent>,
)
    requires
        call_ensures(ManagedClient::launch, (config,), r),
    ensures
        r is Ok <==> exists|i: int|
            0 <= i < config.deep_view().forwards.len() && (
            #[trigger] config.deep_view().forwards[i]).enabled,
        r matches Ok((client, forwards)) ==> client@.server_url == config.server_addr@
            && client@.token == config.token@ && client@.agent_id == config.agent_id@
            && forwards.deep_view() == enabled_forwards(config.deep_view().forwards),
        r matches Err(e) ==> e is NothingToForward,
{
    law_enabled_rules_are_forwarded(config.deep_view().forwards);
}

} // verus!
