//! What the program is to do: as an agent, as a client that forwards ports, or as a ProxyCommand.
use crate::acl::{allow_rules_of, network_syntax, parse_allow_rules, Acl, RuleModel};
use crate::cli::Cli;
use crate::config::{forwards_of, parse_forwards, ForwardMapping, ForwardModel};
use crate::text::{decimal, decimal_string, parse_u16, rsplit_once, split_last};
use vstd::prelude::*;

verus! {

/// The offer of a client for the agent `id`.
#[derive(Debug)]
pub struct OfferMessage {
    pub id: String,
    pub offer: String,
}

/// Where a text such as `host:port` or `port` leads. What stands after the last `:` is the port;
/// without a host it is this machine.
pub open spec fn target_of(text: Seq<char>) -> Result<(Seq<char>, u16), Seq<char>> {
    match split_last(text, ':') {
        Some((host, port)) => match crate::text::number_of(port) {
            Ok(n) => Ok((host, n as u16)),
            Err(e) => Err(crate::text::number_error_text(e)),
        },
        None => match crate::text::number_of(text) {
            Ok(n) => Ok(("127.0.0.1"@, n as u16)),
            Err(e) => Err(crate::text::number_error_text(e)),
        },
    }
}

/// Reads a target.
pub fn parse_target(target: &str) -> (r: Result<(String, u16), String>)
    ensures
        match r {
            Ok((host, port)) => target_of(target@) == Ok::<(Seq<char>, u16), Seq<char>>(
                (host@, port),
            ),
            Err(e) => target_of(target@) == Err::<(Seq<char>, u16), Seq<char>>(e@),
        },
{
    match rsplit_once(target, ':') {
        Some((host, port)) => match parse_u16(port) {
            Ok(n) => Ok((host.to_owned(), n)),
            Err(e) => Err(e.message().to_owned()),
        },
        None => match parse_u16(target) {
            Ok(n) => Ok(("127.0.0.1".to_owned(), n)),
            Err(e) => Err(e.message().to_owned()),
        },
    }
}

/// The log filter, if it is not left to the environment.
pub fn log_filter(debug: bool) -> (r: Option<&'static str>)
    ensures
        match r {
            Some(f) => debug && f@
                == "debug,hyper=warn,gather=warn,igd=warn,neli=warn,rustrtc=info"@,
            None => !debug,
        },
{
    if debug {
        Some("debug,hyper=warn,gather=warn,igd=warn,neli=warn,rustrtc=info")
    } else {
        None
    }
}

/// Where a daemon logs to: the file that was asked for, or `rport.log`.
pub fn daemon_log(log_file: Option<&String>) -> (r: String)
    ensures
        r@ == match log_file {
            Some(f) => f@,
            None => "rport.log"@,
        },
{
    match log_file {
        Some(f) => f.clone(),
        None => "rport.log".to_owned(),
    }
}

/// Where a daemon logs to: the file that was asked for, or one that tells what the daemon does.
pub fn daemon_log_by_mode(
    log_file: Option<&String>,
    has_target: bool,
    has_forwards: bool,
    has_port: bool,
    has_proxy_args: bool,
) -> (r: String)
    ensures
        r@ == match log_file {
            Some(f) => f@,
            None => if has_target {
                "/tmp/rport-agent.log"@
            } else if !has_forwards && has_port {
                "/tmp/rport-forward.log"@
            } else if has_proxy_args {
                "/tmp/rport-proxy.log"@
            } else {
                "/tmp/rport.log"@
            },
        },
{
    match log_file {
        Some(f) => f.clone(),
        None => {
            let path = if has_target {
                "/tmp/rport-agent.log"
            } else if !has_forwards && has_port {
                "/tmp/rport-forward.log"
            } else if has_proxy_args {
                "/tmp/rport-proxy.log"
            } else {
                "/tmp/rport.log"
            };
            path.to_owned()
        },
    }
}

/// What the program was asked for, once the command line and the file are merged.
#[derive(Debug)]
pub struct RunRequest {
    pub server: Option<String>,
    pub token: Option<String>,
    pub id: Option<String>,
    /// The access rules of an agent.
    pub allow: Option<String>,
    /// Whether forwardings were asked for. Those that cannot be read are not among `forwards`.
    pub wants_forwards: bool,
    /// The forwardings of a client.
    pub forwards: Vec<ForwardMapping>,
}

/// What a [`RunRequest`] says.
#[verifier::ext_equal]
pub struct RequestModel {
    pub server: Option<Seq<char>>,
    pub token: Option<Seq<char>>,
    pub id: Option<Seq<char>>,
    pub allow: Option<Seq<char>>,
    pub wants_forwards: bool,
    pub forwards: Seq<ForwardModel>,
}

impl DeepView for RunRequest {
    type V = RequestModel;

    open spec fn deep_view(&self) -> RequestModel {
        RequestModel {
            server: self.server.deep_view(),
            token: self.token.deep_view(),
            id: self.id.deep_view(),
            allow: self.allow.deep_view(),
            wants_forwards: self.wants_forwards,
            forwards: self.forwards.deep_view(),
        }
    }
}

/// What the program does.
#[derive(Debug)]
pub enum RunPlan {
    /// Serve clients, as far as the rules allow it.
    Agent { server: String, token: String, id: String, acl: Acl },
    /// Forward standard input and output.
    Proxy { server: String, token: String, agent_id: String, host: String, port: u16 },
    /// Forward local ports.
    Forward { server: String, token: String, agent_id: String, forwards: Vec<ForwardMapping> },
}

/// What a [`RunPlan`] says.
#[verifier::ext_equal]
pub enum PlanModel {
    Agent { server: Seq<char>, token: Seq<char>, id: Seq<char>, acl: Seq<RuleModel> },
    Proxy {
        server: Seq<char>,
        token: Seq<char>,
        agent_id: Seq<char>,
        host: Seq<char>,
        port: u16,
    },
    Forward {
        server: Seq<char>,
        token: Seq<char>,
        agent_id: Seq<char>,
        forwards: Seq<ForwardModel>,
    },
}

impl DeepView for RunPlan {
    type V = PlanModel;

    open spec fn deep_view(&self) -> PlanModel {
        match *self {
            RunPlan::Agent { server, token, id, acl } => PlanModel::Agent {
                server: server@,
                token: token@,
                id: id@,
                acl: acl.deep_view(),
            },
            RunPlan::Proxy { server, token, agent_id, host, port } => PlanModel::Proxy {
                server: server@,
                token: token@,
                agent_id: agent_id@,
                host: host@,
                port,
            },
            RunPlan::Forward { server, token, agent_id, forwards } => PlanModel::Forward {
                server: server@,
                token: token@,
                agent_id: agent_id@,
                forwards: forwards.deep_view(),
            },
        }
    }
}

/// Whether some forwarding is a ProxyCommand.
pub open spec fn some_proxy(forwards: Seq<ForwardModel>) -> bool {
    exists|i: int| 0 <= i < forwards.len() && (#[trigger] forwards[i]).local_port is None
}

/// Whether rules were given.
pub open spec fn is_agent(allow: Option<Seq<char>>) -> bool {
    allow matches Some(a) && a.len() > 0
}

/// What an agent does, given what its rules mean.
pub open spec fn agent_plan(
    server: Seq<char>,
    token: Seq<char>,
    id: Option<Seq<char>>,
    rules: Result<Seq<RuleModel>, Seq<char>>,
) -> Result<PlanModel, Seq<char>> {
    match rules {
        Err(e) => Err("Invalid --allow rule: "@ + e),
        Ok(acl) => Ok(
            PlanModel::Agent {
                server,
                token,
                id: match id {
                    Some(i) => i,
                    None => "default"@,
                },
                acl,
            },
        ),
    }
}

/// What a client does. Without a forwarding it is a ProxyCommand for SSH on the machine of the
/// agent.
pub open spec fn client_plan(
    server: Seq<char>,
    token: Seq<char>,
    id: Option<Seq<char>>,
    forwards: Seq<ForwardModel>,
) -> Result<PlanModel, Seq<char>> {
    match id {
        None => Err("Agent ID required for client mode. Use -i/--id"@),
        Some(agent_id) => if forwards.len() == 0 {
            Ok(PlanModel::Proxy { server, token, agent_id, host: "127.0.0.1"@, port: 22 })
        } else if some_proxy(forwards) {
            if forwards.len() > 1 {
                Err(
                    "ProxyCommand mode (-L host:port) cannot be combined with other -L specs"@,
                )
            } else {
                Ok(
                    PlanModel::Proxy {
                        server,
                        token,
                        agent_id,
                        host: forwards[0].host,
                        port: forwards[0].port,
                    },
                )
            }
        } else {
            Ok(PlanModel::Forward { server, token, agent_id, forwards })
        },
    }
}

/// What the program does, given what the rules of an agent mean, or why it cannot do anything. With
/// neither rules nor forwardings, but with the id of an agent, it is a ProxyCommand.
pub open spec fn run_plan(
    q: RequestModel,
    rules: Result<Seq<RuleModel>, Seq<char>>,
) -> Result<PlanModel, Seq<char>> {
    if !is_agent(q.allow) && q.forwards.len() == 0 && (q.id is None || q.wants_forwards) {
        Err(
            "No mode specified.\nAgent: use -A/--allow for access control rules\nClient: use -L for forwarding specs"@,
        )
    } else if is_agent(q.allow) && q.forwards.len() > 0 {
        Err("Cannot specify both -A (agent) and -L (client)"@)
    } else {
        match (q.server, q.token) {
            (None, _) => Err(
                "Server address required. Use -s/--server or set 'server' in config"@,
            ),
            (_, None) => Err("Token required. Use -k/--token or set 'token' in config"@),
            (Some(server), Some(token)) => if is_agent(q.allow) {
                agent_plan(server, token, q.id, rules)
            } else {
                client_plan(server, token, q.id, q.forwards)
            },
        }
    }
}

fn has_proxy(forwards: &Vec<ForwardMapping>) -> (r: bool)
    ensures
        r == some_proxy(forwards.deep_view()),
{
    let ghost all = forwards.deep_view();
    let mut i: usize = 0;
    while i < forwards.len()
        invariant
            i <= forwards@.len(),
            all == forwards.deep_view(),
            forall|j: int| 0 <= j < i ==> (#[trigger] all[j]).local_port is Some,
        decreases forwards@.len() - i,
    {
        if forwards[i].is_proxy_command() {
            assert(all[i as int].local_port is None);
            return true;
        }
        i = i + 1;
    }
    false
}

/// Whether `r` is what `expected` says.
pub open spec fn is_plan(
    r: Result<RunPlan, String>,
    expected: Result<PlanModel, Seq<char>>,
) -> bool {
    match expected {
        Ok(p) => r matches Ok(plan) && plan.deep_view() == p,
        Err(e) => r matches Err(t) && t@ == e,
    }
}

fn plan_client(
    server: String,
    token: String,
    id: Option<String>,
    forwards: Vec<ForwardMapping>,
) -> (r: Result<RunPlan, String>)
    ensures
        is_plan(r, client_plan(server@, token@, id.deep_view(), forwards.deep_view())),
{
    let agent_id = match id {
        Some(i) => i,
        None => return Err("Agent ID required for client mode. Use -i/--id".to_owned()),
    };
    assert(forwards.deep_view().len() == forwards@.len());
    if forwards.len() == 0 {
        return Ok(
            RunPlan::Proxy { server, token, agent_id, host: "127.0.0.1".to_owned(), port: 22 },
        );
    }
    if has_proxy(&forwards) {
        if forwards.len() > 1 {
            return Err(
                "ProxyCommand mode (-L host:port) cannot be combined with other -L specs".to_owned(),
            );
        }
        let host = forwards[0].host.clone();
        let port = forwards[0].port;
        Ok(RunPlan::Proxy { server, token, agent_id, host, port })
    } else {
        Ok(RunPlan::Forward { server, token, agent_id, forwards })
    }
}

/// What the program does, given what the rules of an agent mean. They are not looked at when it is
/// no agent.
pub fn plan_with_rules(request: RunRequest, acl: Result<Acl, String>) -> (r: Result<RunPlan, String>)
    ensures
        is_plan(
            r,
            run_plan(
                request.deep_view(),
                match acl {
                    Ok(a) => Ok(a.deep_view()),
                    Err(e) => Err(e@),
                },
            ),
        ),
        r matches Ok(RunPlan::Agent { acl: used, .. }) ==> acl == Ok::<Acl, String>(used),
{
    assert(request.forwards.deep_view().len() == request.forwards@.len());
    let agent = match &request.allow {
        Some(a) => a.as_str().unicode_len() > 0,
        None => false,
    };
    let client = request.forwards.len() > 0;
    if !agent && !client && (request.id.is_none() || request.wants_forwards) {
        return Err(
            "No mode specified.\nAgent: use -A/--allow for access control rules\nClient: use -L for forwarding specs".to_owned(),
        );
    }
    if agent && client {
        return Err("Cannot specify both -A (agent) and -L (client)".to_owned());
    }
    let server = match request.server {
        Some(s) => s,
        None => return Err(
            "Server address required. Use -s/--server or set 'server' in config".to_owned(),
        ),
    };
    let token = match request.token {
        Some(t) => t,
        None => return Err(
            "Token required. Use -k/--token or set 'token' in config".to_owned(),
        ),
    };
    if agent {
        match acl {
            Err(e) => Err("Invalid --allow rule: ".to_owned().concat(e.as_str())),
            Ok(acl) => Ok(
                RunPlan::Agent {
                    server,
                    token,
                    id: match request.id {
                        Some(i) => i,
                        None => "default".to_owned(),
                    },
                    acl,
                },
            ),
        }
    } else {
        plan_client(server, token, request.id, request.forwards)
    }
}

/// What the program does, or why it cannot do anything.
pub fn plan_run(request: RunRequest) -> (r: Result<RunPlan, String>)
    ensures
        is_plan(
            r,
            run_plan(
                request.deep_view(),
                match request.allow {
                    Some(a) => allow_rules_of(a@, |s: Seq<char>| network_syntax(s)),
                    None => Ok(Seq::empty()),
                },
            ),
        ),
        r matches Ok(RunPlan::Agent { acl, .. }) ==> acl.wf(),
{
    let acl = match &request.allow {
        Some(a) => parse_allow_rules(a.as_str()),
        None => {
            let rules: Vec<crate::acl::AccessRule> = Vec::new();
            assert(rules.deep_view() =~= Seq::empty());
            Ok(Acl { rules })
        },
    };
    plan_with_rules(request, acl)
}

/// What the program was asked for in the modes that name their signaling themselves.
#[derive(Debug)]
pub struct ModeRequest {
    pub server: Option<String>,
    pub token: Option<String>,
    pub id: Option<String>,
    pub target: Option<String>,
    pub port: Option<u16>,
    /// The forwardings, if there are any.
    pub forwards: Option<Vec<String>>,
    pub dtls_connect: Option<String>,
    pub dtls_listen: Option<String>,
    pub dtls_server: Option<String>,
    pub proxy_args: Vec<String>,
}

/// What a [`ModeRequest`] says.
#[verifier::ext_equal]
pub struct ModeRequestModel {
    pub server: Option<Seq<char>>,
    pub token: Option<Seq<char>>,
    pub id: Option<Seq<char>>,
    pub target: Option<Seq<char>>,
    pub port: Option<u16>,
    pub forwards: Option<Seq<Seq<char>>>,
    pub dtls_connect: Option<Seq<char>>,
    pub dtls_listen: Option<Seq<char>>,
    pub dtls_server: Option<Seq<char>>,
    pub has_proxy_args: bool,
}

impl DeepView for ModeRequest {
    type V = ModeRequestModel;

    open spec fn deep_view(&self) -> ModeRequestModel {
        ModeRequestModel {
            server: self.server.deep_view(),
            token: self.token.deep_view(),
            id: self.id.deep_view(),
            target: self.target.deep_view(),
            port: self.port,
            forwards: self.forwards.deep_view(),
            dtls_connect: self.dtls_connect.deep_view(),
            dtls_listen: self.dtls_listen.deep_view(),
            dtls_server: self.dtls_server.deep_view(),
            has_proxy_args: self.proxy_args@.len() > 0,
        }
    }
}

/// What the program does in the modes that name their signaling themselves.
#[allow(inconsistent_fields)]
#[derive(Debug)]
pub enum Mode {
    /// An agent that reaches its clients through a DTLS server.
    AgentViaServer {
        server: String,
        token: Option<String>,
        id: Option<String>,
        host: String,
        port: u16,
    },
    /// An agent that its clients reach over DTLS.
    AgentListen { listen: String, id: Option<String>, host: String, port: u16 },
    /// An agent that reaches its clients over HTTP. Without an id it goes by its process.
    HttpAgent {
        server: String,
        token: Option<String>,
        id: Option<String>,
        host: String,
        port: u16,
    },
    /// A client that forwards one local port. With `connect` it reaches its agent over DTLS.
    PortForward { connect: Option<String>, agent_id: String, port: u16, skip_known_hosts: bool },
    /// A client that forwards what the specifications say, over DTLS.
    Forwards { connect: String, forwards: Vec<String>, skip_known_hosts: bool },
    /// A client that forwards standard input and output. With `connect` it reaches its agent over
    /// DTLS.
    Proxy { connect: Option<String>, agent_id: String, skip_known_hosts: bool },
}

/// What a [`Mode`] says.
#[allow(inconsistent_fields)]
#[verifier::ext_equal]
pub enum ModeModel {
    AgentViaServer {
        server: Seq<char>,
        token: Option<Seq<char>>,
        id: Option<Seq<char>>,
        host: Seq<char>,
        port: u16,
    },
    AgentListen { listen: Seq<char>, id: Option<Seq<char>>, host: Seq<char>, port: u16 },
    HttpAgent {
        server: Seq<char>,
        token: Option<Seq<char>>,
        id: Option<Seq<char>>,
        host: Seq<char>,
        port: u16,
    },
    PortForward {
        connect: Option<Seq<char>>,
        agent_id: Seq<char>,
        port: u16,
        skip_known_hosts: bool,
    },
    Forwards { connect: Seq<char>, forwards: Seq<Seq<char>>, skip_known_hosts: bool },
    Proxy { connect: Option<Seq<char>>, agent_id: Seq<char>, skip_known_hosts: bool },
}

impl DeepView for Mode {
    type V = ModeModel;

    open spec fn deep_view(&self) -> ModeModel {
        match *self {
            Mode::AgentViaServer { server, token, id, host, port } => ModeModel::AgentViaServer {
                server: server@,
                token: token.deep_view(),
                id: id.deep_view(),
                host: host@,
                port,
            },
            Mode::AgentListen { listen, id, host, port } => ModeModel::AgentListen {
                listen: listen@,
                id: id.deep_view(),
                host: host@,
                port,
            },
            Mode::HttpAgent { server, token, id, host, port } => ModeModel::HttpAgent {
                server: server@,
                token: token.deep_view(),
                id: id.deep_view(),
                host: host@,
                port,
            },
            Mode::PortForward { connect, agent_id, port, skip_known_hosts } =>
                ModeModel::PortForward {
                connect: connect.deep_view(),
                agent_id: agent_id@,
                port,
                skip_known_hosts,
            },
            Mode::Forwards { connect, forwards, skip_known_hosts } => ModeModel::Forwards {
                connect: connect@,
                forwards: forwards.deep_view(),
                skip_known_hosts,
            },
            Mode::Proxy { connect, agent_id, skip_known_hosts } => ModeModel::Proxy {
                connect: connect.deep_view(),
                agent_id: agent_id@,
                skip_known_hosts,
            },
        }
    }
}

/// The fixed target of an agent. What is not given or cannot be read means SSH on this machine.
pub open spec fn fixed_target(target: Option<Seq<char>>) -> (Seq<char>, u16) {
    match target {
        Some(t) => match target_of(t) {
            Ok(x) => x,
            Err(_) => ("127.0.0.1"@, 22),
        },
        None => ("127.0.0.1"@, 22),
    }
}

/// The id that was given, or `default`.
pub open spec fn id_or_default(id: Option<Seq<char>>) -> Seq<char> {
    match id {
        Some(i) => i,
        None => "default"@,
    }
}

/// What a client over DTLS does.
pub open spec fn dtls_client_mode(q: ModeRequestModel) -> Result<ModeModel, Seq<char>> {
    let no_forwards = q.forwards is None || q.forwards->Some_0.len() == 0;
    if no_forwards && q.port is Some {
        Ok(
            ModeModel::PortForward {
                connect: q.dtls_connect,
                agent_id: id_or_default(q.id),
                port: q.port->Some_0,
                skip_known_hosts: q.has_proxy_args,
            },
        )
    } else if !no_forwards {
        Ok(
            ModeModel::Forwards {
                connect: q.dtls_connect->Some_0,
                forwards: q.forwards->Some_0,
                skip_known_hosts: q.has_proxy_args,
            },
        )
    } else if q.has_proxy_args {
        Ok(
            ModeModel::Proxy {
                connect: q.dtls_connect,
                agent_id: id_or_default(q.id),
                skip_known_hosts: true,
            },
        )
    } else {
        Err("No forward targets specified. Use --forward (-L) or --port"@)
    }
}

/// What the program does. The first that applies decides: an agent through a DTLS server, an agent
/// that listens, a client over DTLS without a server, an agent over HTTP, a client that forwards a
/// port, a ProxyCommand. The id of an agent is enough for the last.
pub open spec fn mode_of(q: ModeRequestModel) -> Result<ModeModel, Seq<char>> {
    if q.dtls_server is Some {
        let (host, port) = fixed_target(q.target);
        Ok(
            ModeModel::AgentViaServer {
                server: q.dtls_server->Some_0,
                token: q.token,
                id: q.id,
                host,
                port,
            },
        )
    } else if q.dtls_listen is Some {
        let (host, port) = fixed_target(q.target);
        Ok(ModeModel::AgentListen { listen: q.dtls_listen->Some_0, id: q.id, host, port })
    } else if q.dtls_connect is Some && q.server is None {
        dtls_client_mode(q)
    } else if q.target is Some && q.server is Some {
        match target_of(q.target->Some_0) {
            Ok((host, port)) => Ok(
                ModeModel::HttpAgent {
                    server: q.server->Some_0,
                    token: q.token,
                    id: q.id,
                    host,
                    port,
                },
            ),
            Err(e) => Err(e),
        }
    } else if q.port is None && q.forwards is None && !q.has_proxy_args && q.id is None {
        Err(
            "No mode specified. Use --target for agent, --port/--forward for client, --dtls-listen for DTLS agent, --dtls-server for DTLS agent via server, or --connect for DTLS client"@,
        )
    } else if q.port is Some {
        match q.id {
            Some(agent_id) => Ok(
                ModeModel::PortForward {
                    connect: None,
                    agent_id,
                    port: q.port->Some_0,
                    skip_known_hosts: true,
                },
            ),
            None => Err("Agent ID is required for port forwarding mode. Use --id <AGENT_ID>"@),
        }
    } else {
        match q.id {
            Some(agent_id) => Ok(
                ModeModel::Proxy { connect: None, agent_id, skip_known_hosts: true },
            ),
            None => Err("Agent ID is required for ProxyCommand mode. Use --id <AGENT_ID>"@),
        }
    }
}

fn take_target(target: Option<String>) -> (r: (String, u16))
    ensures
        (r.0@, r.1) == fixed_target(target.deep_view()),
{
    match target {
        Some(t) => match parse_target(t.as_str()) {
            Ok(x) => x,
            Err(_) => ("127.0.0.1".to_owned(), 22),
        },
        None => ("127.0.0.1".to_owned(), 22),
    }
}

fn take_id(id: Option<String>) -> (r: String)
    ensures
        r@ == id_or_default(id.deep_view()),
{
    match id {
        Some(i) => i,
        None => "default".to_owned(),
    }
}

/// Whether `r` is what `expected` says.
pub open spec fn is_mode(r: Result<Mode, String>, expected: Result<ModeModel, Seq<char>>) -> bool {
    match expected {
        Ok(m) => r matches Ok(mode) && mode.deep_view() == m,
        Err(e) => r matches Err(t) && t@ == e,
    }
}

/// What the program does in the modes that name their signaling themselves, or why it cannot do
/// anything.
pub fn select_mode(request: ModeRequest) -> (r: Result<Mode, String>)
    ensures
        is_mode(r, mode_of(request.deep_view())),
{
    let has_proxy_args = request.proxy_args.len() > 0;
    if let Some(server) = request.dtls_server {
        let (host, port) = take_target(request.target);
        return Ok(
            Mode::AgentViaServer { server, token: request.token, id: request.id, host, port },
        );
    }
    if let Some(listen) = request.dtls_listen {
        let (host, port) = take_target(request.target);
        return Ok(Mode::AgentListen { listen, id: request.id, host, port });
    }
    if request.dtls_connect.is_some() && request.server.is_none() {
        let connect = request.dtls_connect.unwrap();
        let forwards = match request.forwards {
            Some(f) => f,
            None => Vec::new(),
        };
        assert(forwards.deep_view().len() == forwards@.len());
        if forwards.len() == 0 {
            if let Some(port) = request.port {
                return Ok(
                    Mode::PortForward {
                        connect: Some(connect),
                        agent_id: take_id(request.id),
                        port,
                        skip_known_hosts: has_proxy_args,
                    },
                );
            }
            if has_proxy_args {
                return Ok(
                    Mode::Proxy {
                        connect: Some(connect),
                        agent_id: take_id(request.id),
                        skip_known_hosts: true,
                    },
                );
            }
            return Err("No forward targets specified. Use --forward (-L) or --port".to_owned());
        }
        return Ok(Mode::Forwards { connect, forwards, skip_known_hosts: has_proxy_args });
    }
    if request.target.is_some() && request.server.is_some() {
        let target = request.target.unwrap();
        let server = request.server.unwrap();
        return match parse_target(target.as_str()) {
            Ok((host, port)) => Ok(
                Mode::HttpAgent { server, token: request.token, id: request.id, host, port },
            ),
            Err(e) => Err(e),
        };
    }
    if request.port.is_none() && request.forwards.is_none() && !has_proxy_args
        && request.id.is_none() {
        return Err(
            "No mode specified. Use --target for agent, --port/--forward for client, --dtls-listen for DTLS agent, --dtls-server for DTLS agent via server, or --connect for DTLS client".to_owned(),
        );
    }
    if let Some(port) = request.port {
        return match request.id {
            Some(agent_id) => Ok(
                Mode::PortForward { connect: None, agent_id, port, skip_known_hosts: true },
            ),
            None => Err(
                "Agent ID is required for port forwarding mode. Use --id <AGENT_ID>".to_owned(),
            ),
        };
    }
    match request.id {
        Some(agent_id) => Ok(Mode::Proxy { connect: None, agent_id, skip_known_hosts: true }),
        None => Err("Agent ID is required for ProxyCommand mode. Use --id <AGENT_ID>".to_owned()),
    }
}

/// A program that runs has a server and a token, and is either an agent or a client, never both.
pub proof fn law_plan_needs_server_and_token(
    q: RequestModel,
    rules: Result<Seq<RuleModel>, Seq<char>>,
)
    ensures
        run_plan(q, rules) is Ok ==> q.server is Some && q.token is Some && !(is_agent(q.allow)
            && q.forwards.len() > 0),
        run_plan(q, rules) matches Ok(p) ==> (p is Agent <==> is_agent(q.allow)),
{
}

/// A server, a token and the id of an agent are enough for a ProxyCommand: it leads to SSH on the
/// machine of the agent, in both ways of naming the mode.
pub proof fn law_proxy_command_needs_no_forwarding(
    q: RequestModel,
    rules: Result<Seq<RuleModel>, Seq<char>>,
    m: ModeRequestModel,
)
    requires
        q.server is Some && q.token is Some && q.id is Some,
        !is_agent(q.allow) && q.forwards.len() == 0 && !q.wants_forwards,
        m.server is Some && m.id is Some,
        m.target is None && m.port is None && m.forwards is None,
        m.dtls_listen is None && m.dtls_server is None,
    ensures
        run_plan(q, rules) == Ok::<PlanModel, Seq<char>>(
            PlanModel::Proxy {
                server: q.server->Some_0,
                token: q.token->Some_0,
                agent_id: q.id->Some_0,
                host: "127.0.0.1"@,
                port: 22,
            },
        ),
        mode_of(m) == Ok::<ModeModel, Seq<char>>(
            ModeModel::Proxy { connect: None, agent_id: m.id->Some_0, skip_known_hosts: true },
        ),
{
}

/// A client that is not a ProxyCommand has a local port for every forwarding.
pub proof fn law_forward_plan_has_local_ports(
    q: RequestModel,
    rules: Result<Seq<RuleModel>, Seq<char>>,
)
    ensures
        run_plan(q, rules) matches Ok(PlanModel::Forward { forwards, .. }) ==> forwards
            == q.forwards && forall|i: int|
            0 <= i < forwards.len() ==> (#[trigger] forwards[i]).local_port is Some,
{
}

/// The options that decide what the program does. `server` and `token` are those of the command line
/// and the file together.
#[verifier::ext_equal]
pub struct OptionsModel {
    pub server: Option<Seq<char>>,
    pub token: Option<Seq<char>>,
    pub id: Option<Seq<char>>,
    pub target: Option<Seq<char>>,
    pub port: Option<u16>,
    pub forward: Seq<Seq<char>>,
    pub allow: Option<Seq<char>>,
    pub connect: Option<Seq<char>>,
    pub dtls_listen: Option<Seq<char>>,
    pub dtls_server: Option<Seq<char>>,
    pub has_proxy_args: bool,
}

/// The options of a command line, with the server and the token that hold.
pub open spec fn options_of(
    cli: Cli,
    server: Option<String>,
    token: Option<String>,
) -> OptionsModel {
    OptionsModel {
        server: server.deep_view(),
        token: token.deep_view(),
        id: cli.id.deep_view(),
        target: cli.target.deep_view(),
        port: cli.port,
        forward: cli.forward.deep_view(),
        allow: cli.allow.deep_view(),
        connect: cli.connect.deep_view(),
        dtls_listen: cli.dtls_listen.deep_view(),
        dtls_server: cli.dtls_server.deep_view(),
        has_proxy_args: cli.proxy_args@.len() > 0,
    }
}

impl OptionsModel {
    /// Whether an option was given that names the mode itself.
    pub open spec fn names_mode(self) -> bool {
        ||| self.target is Some
        ||| self.port is Some
        ||| self.connect is Some
        ||| self.dtls_listen is Some
        ||| self.dtls_server is Some
        ||| self.has_proxy_args
    }

    /// What is asked for where no option names the mode. Forwardings that cannot be read are left
    /// out.
    pub open spec fn request(self) -> RequestModel {
        RequestModel {
            server: self.server,
            token: self.token,
            id: self.id,
            allow: self.allow,
            wants_forwards: self.forward.len() > 0,
            forwards: forwards_of(self.forward),
        }
    }

    /// What is asked for where an option names the mode.
    pub open spec fn mode_request(self) -> ModeRequestModel {
        ModeRequestModel {
            server: self.server,
            token: self.token,
            id: self.id,
            target: self.target,
            port: self.port,
            forwards: if self.forward.len() > 0 {
                Some(self.forward)
            } else {
                None
            },
            dtls_connect: self.connect,
            dtls_listen: self.dtls_listen,
            dtls_server: self.dtls_server,
            has_proxy_args: self.has_proxy_args,
        }
    }
}

/// What the program has to do, with all that it takes.
#[allow(inconsistent_fields)]
#[derive(Debug)]
pub enum Job {
    /// Serve clients through a server. With a fixed target the clients have no choice of their own.
    Agent {
        server: String,
        token: String,
        id: String,
        acl: Option<Acl>,
        fixed: Option<(String, u16)>,
    },
    /// Serve clients that connect by themselves, with a fixed target.
    Listen { listen: String, id: String, acl: Option<Acl>, host: String, port: u16 },
    /// Forward standard input and output. `checks_host` tells whether the host is to be a known one.
    Proxy {
        server: String,
        token: String,
        agent_id: String,
        host: String,
        port: u16,
        checks_host: bool,
    },
    /// Forward local ports. `checks_host` tells whether the host is to be a known one.
    Forward {
        server: String,
        token: String,
        agent_id: String,
        forwards: Vec<ForwardMapping>,
        checks_host: bool,
    },
}

/// What a [`Job`] says.
#[allow(inconsistent_fields)]
#[verifier::ext_equal]
pub enum JobModel {
    Agent {
        server: Seq<char>,
        token: Seq<char>,
        id: Seq<char>,
        acl: Option<Seq<RuleModel>>,
        fixed: Option<(Seq<char>, u16)>,
    },
    Listen {
        listen: Seq<char>,
        id: Seq<char>,
        acl: Option<Seq<RuleModel>>,
        host: Seq<char>,
        port: u16,
    },
    Proxy {
        server: Seq<char>,
        token: Seq<char>,
        agent_id: Seq<char>,
        host: Seq<char>,
        port: u16,
        checks_host: bool,
    },
    Forward {
        server: Seq<char>,
        token: Seq<char>,
        agent_id: Seq<char>,
        forwards: Seq<ForwardModel>,
        checks_host: bool,
    },
}

impl DeepView for Job {
    type V = JobModel;

    open spec fn deep_view(&self) -> JobModel {
        match *self {
            Job::Agent { server, token, id, acl, fixed } => JobModel::Agent {
                server: server@,
                token: token@,
                id: id@,
                acl: acl.deep_view(),
                fixed: match fixed {
                    Some((host, port)) => Some((host@, port)),
                    None => None,
                },
            },
            Job::Listen { listen, id, acl, host, port } => JobModel::Listen {
                listen: listen@,
                id: id@,
                acl: acl.deep_view(),
                host: host@,
                port,
            },
            Job::Proxy { server, token, agent_id, host, port, checks_host } => JobModel::Proxy {
                server: server@,
                token: token@,
                agent_id: agent_id@,
                host: host@,
                port,
                checks_host,
            },
            Job::Forward { server, token, agent_id, forwards, checks_host } => JobModel::Forward {
                server: server@,
                token: token@,
                agent_id: agent_id@,
                forwards: forwards.deep_view(),
                checks_host,
            },
        }
    }
}

/// The id that was given, or one after the number of the process.
pub open spec fn id_or_process(id: Option<Seq<char>>, process: u32) -> Seq<char> {
    match id {
        Some(i) => i,
        None => "agent-"@ + decimal(process as nat),
    }
}

/// A text that was given, or nothing.
pub open spec fn text_or_empty(text: Option<Seq<char>>) -> Seq<char> {
    match text {
        Some(t) => t,
        None => ""@,
    }
}

/// The rules of an agent, if any were given.
pub open spec fn given_rules(
    allow: Option<Seq<char>>,
    rules: Result<Seq<RuleModel>, Seq<char>>,
) -> Result<Option<Seq<RuleModel>>, Seq<char>> {
    match (allow, rules) {
        (None, _) => Ok(None),
        (_, Ok(r)) => Ok(Some(r)),
        (_, Err(e)) => Err("Invalid --allow rule: "@ + e),
    }
}

/// The server of a client: what it is to connect to, or else the server that holds.
pub open spec fn client_server(
    connect: Option<Seq<char>>,
    server: Option<Seq<char>>,
) -> Result<Seq<char>, Seq<char>> {
    match (connect, server) {
        (Some(c), _) => Ok(c),
        (None, Some(s)) => Ok(s),
        (None, None) => Err(
            "Server address required. Use -s/--server or set 'server' in config"@,
        ),
    }
}

/// What it takes to do what a [`RunPlan`] says.
pub open spec fn job_of_plan(plan: PlanModel) -> JobModel {
    match plan {
        PlanModel::Agent { server, token, id, acl } => JobModel::Agent {
            server,
            token,
            id,
            acl: Some(acl),
            fixed: None,
        },
        PlanModel::Proxy { server, token, agent_id, host, port } => JobModel::Proxy {
            server,
            token,
            agent_id,
            host,
            port,
            checks_host: false,
        },
        PlanModel::Forward { server, token, agent_id, forwards } => JobModel::Forward {
            server,
            token,
            agent_id,
            forwards,
            checks_host: false,
        },
    }
}

/// What it takes to do what a [`Mode`] says. Clients reach SSH on the machine of the agent, unless
/// their forwardings lead elsewhere. An agent over HTTP has no rules beside its fixed target.
pub open spec fn job_of_mode(
    mode: ModeModel,
    o: OptionsModel,
    rules: Result<Seq<RuleModel>, Seq<char>>,
    process: u32,
) -> Result<JobModel, Seq<char>> {
    match mode {
        ModeModel::AgentViaServer { server, token, id, host, port } => match given_rules(
            o.allow,
            rules,
        ) {
            Ok(acl) => Ok(
                JobModel::Agent {
                    server,
                    token: text_or_empty(token),
                    id: id_or_process(id, process),
                    acl,
                    fixed: Some((host, port)),
                },
            ),
            Err(e) => Err(e),
        },
        ModeModel::AgentListen { listen, id, host, port } => match given_rules(o.allow, rules) {
            Ok(acl) => Ok(JobModel::Listen { listen, id: text_or_empty(id), acl, host, port }),
            Err(e) => Err(e),
        },
        ModeModel::HttpAgent { server, token, id, host, port } => Ok(
            JobModel::Agent {
                server,
                token: text_or_empty(token),
                id: id_or_process(id, process),
                acl: None,
                fixed: Some((host, port)),
            },
        ),
        ModeModel::PortForward { connect, agent_id, port, skip_known_hosts } => match client_server(
            connect,
            o.server,
        ) {
            Ok(server) => Ok(
                JobModel::Forward {
                    server,
                    token: text_or_empty(o.token),
                    agent_id,
                    forwards: seq![
                        ForwardModel { local_port: Some(port), host: "127.0.0.1"@, port: 22 },
                    ],
                    checks_host: connect is Some && !skip_known_hosts,
                },
            ),
            Err(e) => Err(e),
        },
        ModeModel::Forwards { connect, forwards, skip_known_hosts } => if forwards_of(
            forwards,
        ).len() == 0 {
            Err("No forward targets specified. Use --forward (-L) or --port"@)
        } else {
            Ok(
                JobModel::Forward {
                    server: connect,
                    token: text_or_empty(o.token),
                    agent_id: id_or_default(o.id),
                    forwards: forwards_of(forwards),
                    checks_host: !skip_known_hosts,
                },
            )
        },
        ModeModel::Proxy { connect, agent_id, skip_known_hosts } => match client_server(
            connect,
            o.server,
        ) {
            Ok(server) => Ok(
                JobModel::Proxy {
                    server,
                    token: text_or_empty(o.token),
                    agent_id,
                    host: "127.0.0.1"@,
                    port: 22,
                    checks_host: connect is Some && !skip_known_hosts,
                },
            ),
            Err(e) => Err(e),
        },
    }
}

/// What the program has to do, given what the rules of an agent mean and the number of the process,
/// or why it cannot do anything.
pub open spec fn job_of(
    o: OptionsModel,
    rules: Result<Seq<RuleModel>, Seq<char>>,
    process: u32,
) -> Result<JobModel, Seq<char>> {
    if o.names_mode() {
        match mode_of(o.mode_request()) {
            Ok(mode) => job_of_mode(mode, o, rules, process),
            Err(e) => Err(e),
        }
    } else {
        match run_plan(o.request(), rules) {
            Ok(plan) => Ok(job_of_plan(plan)),
            Err(e) => Err(e),
        }
    }
}

/// What the rules of a command line mean. Without rules there are none.
pub open spec fn rules_of_options(allow: Option<Seq<char>>) -> Result<Seq<RuleModel>, Seq<char>> {
    match allow {
        Some(a) => allow_rules_of(a, |s: Seq<char>| network_syntax(s)),
        None => Ok(Seq::empty()),
    }
}

/// Whether `r` is what `expected` says.
pub open spec fn is_job(r: Result<Job, String>, expected: Result<JobModel, Seq<char>>) -> bool {
    match expected {
        Ok(j) => r matches Ok(job) && job.deep_view() == j,
        Err(e) => r matches Err(t) && t@ == e,
    }
}

/// The rules that a job works with.
pub open spec fn rules_in(r: Result<Job, String>) -> Option<Acl> {
    match r {
        Ok(Job::Agent { acl, .. }) => acl,
        Ok(Job::Listen { acl, .. }) => acl,
        _ => None,
    }
}

/// The id of an agent: the one that was given, or `agent-` and the number of the process.
pub fn agent_name(id: Option<String>, process: u32) -> (r: String)
    ensures
        r@ == match id {
            Some(i) => i@,
            None => "agent-"@ + decimal(process as nat),
        },
{
    match id {
        Some(i) => i,
        None => "agent-".to_owned().concat(decimal_string(process as u64).as_str()),
    }
}

fn take_text(text: Option<String>) -> (r: String)
    ensures
        r@ == text_or_empty(text.deep_view()),
{
    match text {
        Some(t) => t,
        None => "".to_owned(),
    }
}

fn take_rules(given: bool, acl: Result<Acl, String>) -> (r: Result<Option<Acl>, String>)
    ensures
        match r {
            Ok(Some(a)) => given && acl == Ok::<Acl, String>(a),
            Ok(None) => !given,
            Err(e) => given && acl is Err && e@ == "Invalid --allow rule: "@ + acl->Err_0@,
        },
{
    if !given {
        return Ok(None);
    }
    match acl {
        Ok(a) => Ok(Some(a)),
        Err(e) => Err("Invalid --allow rule: ".to_owned().concat(e.as_str())),
    }
}

fn take_server(connect: Option<String>, server: Option<String>) -> (r: Result<String, String>)
    ensures
        match r {
            Ok(s) => client_server(connect.deep_view(), server.deep_view()) == Ok::<
                Seq<char>,
                Seq<char>,
            >(s@),
            Err(e) => client_server(connect.deep_view(), server.deep_view()) == Err::<
                Seq<char>,
                Seq<char>,
            >(e@),
        },
{
    match connect {
        Some(c) => Ok(c),
        None => match server {
            Some(s) => Ok(s),
            None => Err(
                "Server address required. Use -s/--server or set 'server' in config".to_owned(),
            ),
        },
    }
}

/// Whether an option was given that names the mode itself.
pub fn names_mode(cli: &Cli) -> (r: bool)
    ensures
        r == options_of(*cli, None, None).names_mode(),
{
    cli.target.is_some() || cli.port.is_some() || cli.connect.is_some() || cli.dtls_listen.is_some()
        || cli.dtls_server.is_some() || cli.proxy_args.len() > 0
}

/// Where the daemon of a command line logs to.
pub fn daemon_log_for(cli: &Cli) -> (r: String)
    ensures
        r@ == match cli.log_file {
            Some(f) => f@,
            None => if !options_of(*cli, None, None).names_mode() {
                "rport.log"@
            } else if cli.target is Some {
                "/tmp/rport-agent.log"@
            } else if cli.forward@.len() == 0 && cli.port is Some {
                "/tmp/rport-forward.log"@
            } else if cli.proxy_args@.len() > 0 {
                "/tmp/rport-proxy.log"@
            } else {
                "/tmp/rport.log"@
            },
        },
{
    if names_mode(cli) {
        daemon_log_by_mode(
            cli.log_file.as_ref(),
            cli.target.is_some(),
            cli.forward.len() > 0,
            cli.port.is_some(),
            cli.proxy_args.len() > 0,
        )
    } else {
        daemon_log(cli.log_file.as_ref())
    }
}

fn job_from_plan(plan: RunPlan) -> (r: Job)
    ensures
        r.deep_view() == job_of_plan(plan.deep_view()),
        plan matches RunPlan::Agent { acl, .. } ==> rules_in(Ok(r)) == Some(acl),
        !(plan is Agent) ==> rules_in(Ok(r)) is None,
{
    match plan {
        RunPlan::Agent { server, token, id, acl } => Job::Agent {
            server,
            token,
            id,
            acl: Some(acl),
            fixed: None,
        },
        RunPlan::Proxy { server, token, agent_id, host, port } => Job::Proxy {
            server,
            token,
            agent_id,
            host,
            port,
            checks_host: false,
        },
        RunPlan::Forward { server, token, agent_id, forwards } => Job::Forward {
            server,
            token,
            agent_id,
            forwards,
            checks_host: false,
        },
    }
}

fn job_from_mode(
    mode: Mode,
    server: Option<String>,
    token: Option<String>,
    id: Option<String>,
    given: bool,
    acl: Result<Acl, String>,
    process: u32,
    Ghost(o): Ghost<OptionsModel>,
) -> (r: Result<Job, String>)
    requires
        o.server == server.deep_view(),
        o.token == token.deep_view(),
        o.id == id.deep_view(),
        o.allow is Some == given,
    ensures
        is_job(r, job_of_mode(mode.deep_view(), o, read_rules(acl), process)),
        rules_in(r) matches Some(used) ==> acl == Ok::<Acl, String>(used),
{
    match mode {
        Mode::AgentViaServer { server, token, id, host, port } => match take_rules(given, acl) {
            Ok(acl) => Ok(
                Job::Agent {
                    server,
                    token: take_text(token),
                    id: agent_name(id, process),
                    acl,
                    fixed: Some((host, port)),
                },
            ),
            Err(e) => Err(e),
        },
        Mode::AgentListen { listen, id, host, port } => match take_rules(given, acl) {
            Ok(acl) => Ok(Job::Listen { listen, id: take_text(id), acl, host, port }),
            Err(e) => Err(e),
        },
        Mode::HttpAgent { server, token, id, host, port } => Ok(
            Job::Agent {
                server,
                token: take_text(token),
                id: agent_name(id, process),
                acl: None,
                fixed: Some((host, port)),
            },
        ),
        Mode::PortForward { connect, agent_id, port, skip_known_hosts } => {
            let checks_host = connect.is_some() && !skip_known_hosts;
            match take_server(connect, server) {
                Ok(server) => {
                    let forward = ForwardMapping {
                        local_port: Some(port),
                        host: "127.0.0.1".to_owned(),
                        port: 22,
                    };
                    let ghost only = forward.deep_view();
                    let mut forwards: Vec<ForwardMapping> = Vec::new();
                    forwards.push(forward);
                    assert(forwards.deep_view() =~= seq![only]);
                    Ok(
                        Job::Forward {
                            server,
                            token: take_text(token),
                            agent_id,
                            forwards,
                            checks_host,
                        },
                    )
                },
                Err(e) => Err(e),
            }
        },
        Mode::Forwards { connect, forwards, skip_known_hosts } => {
            let forwards = parse_forwards(&forwards);
            assert(forwards.deep_view().len() == forwards@.len());
            if forwards.len() == 0 {
                return Err("No forward targets specified. Use --forward (-L) or --port".to_owned());
            }
            Ok(
                Job::Forward {
                    server: connect,
                    token: take_text(token),
                    agent_id: take_id(id),
                    forwards,
                    checks_host: !skip_known_hosts,
                },
            )
        },
        Mode::Proxy { connect, agent_id, skip_known_hosts } => {
            let checks_host = connect.is_some() && !skip_known_hosts;
            match take_server(connect, server) {
                Ok(server) => Ok(
                    Job::Proxy {
                        server,
                        token: take_text(token),
                        agent_id,
                        host: "127.0.0.1".to_owned(),
                        port: 22,
                        checks_host,
                    },
                ),
                Err(e) => Err(e),
            }
        },
    }
}

/// What the rules of an agent came to.
pub open spec fn read_rules(acl: Result<Acl, String>) -> Result<Seq<RuleModel>, Seq<char>> {
    match acl {
        Ok(a) => Ok(a.deep_view()),
        Err(e) => Err(e@),
    }
}

/// What the program has to do, given what the rules of an agent mean. They are not looked at when
/// the program is no agent.
pub fn plan_job_with_rules(
    cli: Cli,
    server: Option<String>,
    token: Option<String>,
    process: u32,
    acl: Result<Acl, String>,
) -> (r: Result<Job, String>)
    ensures
        is_job(r, job_of(options_of(cli, server, token), read_rules(acl), process)),
        rules_in(r) matches Some(used) ==> acl == Ok::<Acl, String>(used),
{
    let ghost o = options_of(cli, server, token);
    assert(cli.forward.deep_view().len() == cli.forward@.len());
    if names_mode(&cli) {
        let given = cli.allow.is_some();
        let forwards = if cli.forward.len() > 0 {
            Some(cli.forward)
        } else {
            None
        };
        let request = ModeRequest {
            server: server.clone(),
            token: token.clone(),
            id: cli.id.clone(),
            target: cli.target,
            port: cli.port,
            forwards,
            dtls_connect: cli.connect,
            dtls_listen: cli.dtls_listen,
            dtls_server: cli.dtls_server,
            proxy_args: cli.proxy_args,
        };
        assert(request.deep_view() =~= o.mode_request());
        match select_mode(request) {
            Ok(mode) => job_from_mode(mode, server, token, cli.id, given, acl, process, Ghost(o)),
            Err(e) => Err(e),
        }
    } else {
        let wants_forwards = cli.forward.len() > 0;
        let forwards = parse_forwards(&cli.forward);
        let request = RunRequest { server, token, id: cli.id, allow: cli.allow, wants_forwards, forwards };
        assert(request.deep_view() =~= o.request());
        match plan_with_rules(request, acl) {
            Ok(plan) => Ok(job_from_plan(plan)),
            Err(e) => Err(e),
        }
    }
}

/// What the program has to do, or why it cannot do anything.
pub fn plan_job(cli: Cli, server: Option<String>, token: Option<String>, process: u32) -> (r: Result<
    Job,
    String,
>)
    ensures
        is_job(
            r,
            job_of(
                options_of(cli, server, token),
                rules_of_options(cli.allow.deep_view()),
                process,
            ),
        ),
        rules_in(r) matches Some(acl) ==> acl.wf(),
{
    let acl = match &cli.allow {
        Some(a) => parse_allow_rules(a.as_str()),
        None => {
            let rules: Vec<crate::acl::AccessRule> = Vec::new();
            assert(rules.deep_view() =~= Seq::empty());
            Ok(Acl { rules })
        },
    };
    assert(read_rules(acl) == rules_of_options(cli.allow.deep_view()));
    plan_job_with_rules(cli, server, token, process, acl)
}

/// A client goes to the server that holds, and to the address that it is to connect to only where
/// there is no server. It never runs without anything to forward.
pub proof fn law_clients_have_a_server(
    o: OptionsModel,
    rules: Result<Seq<RuleModel>, Seq<char>>,
    process: u32,
)
    ensures
        job_of(o, rules, process) matches Ok(JobModel::Proxy { server, .. }) ==> Some(server) == (
        if o.server is Some {
            o.server
        } else {
            o.connect
        }),
        job_of(o, rules, process) matches Ok(JobModel::Forward { server, forwards, .. }) ==> Some(
            server,
        ) == (if o.server is Some {
            o.server
        } else {
            o.connect
        }) && forwards.len() > 0,
{
}

/// An agent with a target of its own and no id goes by its process, and two processes never share
/// such an id.
pub proof fn law_unnamed_agents_differ(
    o: OptionsModel,
    rules: Result<Seq<RuleModel>, Seq<char>>,
    a: u32,
    b: u32,
)
    requires
        o.names_mode(),
        o.id is None,
        a != b,
    ensures
        job_of(o, rules, a) matches Ok(JobModel::Agent { id, .. }) ==> id == "agent-"@ + decimal(
            a as nat,
        ),
        job_of(o, rules, a) matches Ok(JobModel::Agent { id: first, .. }) ==> (job_of(o, rules, b)
            matches Ok(JobModel::Agent { id: second, .. }) && first != second),
{
    let first = "agent-"@ + decimal(a as nat);
    let second = "agent-"@ + decimal(b as nat);
    if first == second {
        assert(first.skip("agent-"@.len() as int) =~= decimal(a as nat));
        assert(second.skip("agent-"@.len() as int) =~= decimal(b as nat));
        crate::text::law_decimal_tells_apart(a as nat, b as nat);
    }
}

/// `host:port`, written with a decimal port, is that host and that port, also if the host holds a
/// `:`. A decimal port alone is that port of this machine.
pub proof fn law_target_reads_back(host: Seq<char>, port: u16)
    ensures
        target_of(host + seq![':'] + decimal(port as nat)) == Ok::<(Seq<char>, u16), Seq<char>>(
            (host, port),
        ),
        target_of(decimal(port as nat)) == Ok::<(Seq<char>, u16), Seq<char>>(("127.0.0.1"@, port)),
{
    let tail = decimal(port as nat);
    crate::text::lemma_decimal_digits(port);
    crate::text::law_decimal_reads_back(port);
    assert forall|i: int| 0 <= i < tail.len() implies tail[i] != ':' by {
        assert(crate::text::is_digit(tail[i]));
    }
    crate::text::law_last_part_reads_back(host, tail, ':');
    crate::text::law_split_last(tail, ':');
}

/// A target without a port number at its end is refused.
pub proof fn law_target_needs_a_port(host: Seq<char>, tail: Seq<char>)
    requires
        forall|i: int| 0 <= i < tail.len() ==> tail[i] != ':',
        crate::text::number_of(tail) is Err,
    ensures
        target_of(host + seq![':'] + tail) is Err,
        target_of(tail) is Err,
{
    crate::text::law_last_part_reads_back(host, tail, ':');
    crate::text::law_split_last(tail, ':');
}

/// Whether no option was given that names the mode itself.
pub open spec fn plain_options(o: OptionsModel) -> bool {
    &&& o.target is None && o.port is None && o.connect is None
    &&& o.dtls_listen is None && o.dtls_server is None
    &&& !o.has_proxy_args
}

/// Rules make an agent: it goes to the server with the token, by its id or as `default`, holds
/// exactly these rules, and leaves the target to its clients. Rules that cannot be read are an
/// error that says why.
pub proof fn law_rules_make_an_agent(
    o: OptionsModel,
    rules: Result<Seq<RuleModel>, Seq<char>>,
    process: u32,
)
    requires
        plain_options(o),
        o.allow is Some && o.allow->Some_0.len() > 0,
        o.forward.len() == 0,
        o.server is Some && o.token is Some,
    ensures
        rules matches Ok(r) ==> job_of(o, rules, process) == Ok::<JobModel, Seq<char>>(
            JobModel::Agent {
                server: o.server->Some_0,
                token: o.token->Some_0,
                id: if o.id is Some {
                    o.id->Some_0
                } else {
                    "default"@
                },
                acl: Some(r),
                fixed: None,
            },
        ),
        rules matches Err(e) ==> job_of(o, rules, process) == Err::<JobModel, Seq<char>>(
            "Invalid --allow rule: "@ + e,
        ),
{
}

/// Forwardings with local ports make a client that forwards exactly these, through the server to the
/// agent with the id. One without a local port makes it a ProxyCommand to its host and port, but
/// not together with others.
pub proof fn law_forwardings_make_a_client(
    o: OptionsModel,
    rules: Result<Seq<RuleModel>, Seq<char>>,
    process: u32,
)
    requires
        plain_options(o),
        o.allow is None,
        forwards_of(o.forward).len() > 0,
        o.server is Some && o.token is Some && o.id is Some,
    ensures
        ({
            let forwards = forwards_of(o.forward);
            let job = job_of(o, rules, process);
            &&& (forall|i: int|
                0 <= i < forwards.len() ==> (#[trigger] forwards[i]).local_port is Some) ==> job
                == Ok::<JobModel, Seq<char>>(
                JobModel::Forward {
                    server: o.server->Some_0,
                    token: o.token->Some_0,
                    agent_id: o.id->Some_0,
                    forwards,
                    checks_host: false,
                },
            )
            &&& forwards.len() == 1 && forwards[0].local_port is None ==> job == Ok::<
                JobModel,
                Seq<char>,
            >(
                JobModel::Proxy {
                    server: o.server->Some_0,
                    token: o.token->Some_0,
                    agent_id: o.id->Some_0,
                    host: forwards[0].host,
                    port: forwards[0].port,
                    checks_host: false,
                },
            )
            &&& (exists|i: int|
                0 <= i < forwards.len() && (#[trigger] forwards[i]).local_port is None)
                && forwards.len() > 1 ==> job is Err
        }),
{
}

/// An id with a server and a token, and nothing else, is a ProxyCommand for SSH on the machine of
/// the agent.
pub proof fn law_id_alone_is_a_proxy_command(
    o: OptionsModel,
    rules: Result<Seq<RuleModel>, Seq<char>>,
    process: u32,
)
    requires
        plain_options(o),
        o.allow is None,
        o.forward.len() == 0,
        o.server is Some && o.token is Some && o.id is Some,
    ensures
        job_of(o, rules, process) == Ok::<JobModel, Seq<char>>(
            JobModel::Proxy {
                server: o.server->Some_0,
                token: o.token->Some_0,
                agent_id: o.id->Some_0,
                host: "127.0.0.1"@,
                port: 22,
                checks_host: false,
            },
        ),
{
}

/// Without a named mode there is nothing to do where neither rules, forwardings nor an id are given,
/// where rules and forwardings are, where a client has no id, or without a server or a token.
pub proof fn law_what_a_job_needs(
    o: OptionsModel,
    rules: Result<Seq<RuleModel>, Seq<char>>,
    process: u32,
)
    requires
        plain_options(o),
    ensures
        ({
            let agent = o.allow is Some && o.allow->Some_0.len() > 0;
            let client = forwards_of(o.forward).len() > 0;
            &&& job_of(o, rules, process) is Ok ==> {
                &&& o.server is Some && o.token is Some
                &&& agent || o.id is Some
                &&& !(agent && client)
                &&& agent || client || o.forward.len() == 0
            }
            &&& agent && client ==> job_of(o, rules, process) == Err::<JobModel, Seq<char>>(
                "Cannot specify both -A (agent) and -L (client)"@,
            )
            &&& !agent && !client && o.id is None ==> job_of(o, rules, process) == Err::<
                JobModel,
                Seq<char>,
            >(
                "No mode specified.\nAgent: use -A/--allow for access control rules\nClient: use -L for forwarding specs"@,
            )
            &&& agent && !client && o.server is None ==> job_of(o, rules, process) == Err::<
                JobModel,
                Seq<char>,
            >("Server address required. Use -s/--server or set 'server' in config"@)
            &&& agent && !client && o.server is Some && o.token is None ==> job_of(o, rules, process)
                == Err::<JobModel, Seq<char>>(
                "Token required. Use -k/--token or set 'token' in config"@,
            )
            &&& !agent && client && o.server is Some && o.token is Some && o.id is None ==> job_of(
                o,
                rules,
                process,
            ) == Err::<JobModel, Seq<char>>("Agent ID required for client mode. Use -i/--id"@)
        }),
{
}

/// A target with a server makes an agent with that fixed target. It goes by its id, or by its
/// process. A target that cannot be read is an error.
pub proof fn law_target_makes_a_fixed_agent(
    o: OptionsModel,
    rules: Result<Seq<RuleModel>, Seq<char>>,
    process: u32,
    host: Seq<char>,
    port: u16,
)
    requires
        o.server is Some,
        o.dtls_server is None && o.dtls_listen is None,
        o.target == Some(host + seq![':'] + decimal(port as nat)),
    ensures
        job_of(o, rules, process) == Ok::<JobModel, Seq<char>>(
            JobModel::Agent {
                server: o.server->Some_0,
                token: if o.token is Some {
                    o.token->Some_0
                } else {
                    ""@
                },
                id: if o.id is Some {
                    o.id->Some_0
                } else {
                    "agent-"@ + decimal(process as nat)
                },
                acl: None,
                fixed: Some((host, port)),
            },
        ),
{
    law_target_reads_back(host, port);
}

/// A DTLS server makes an agent of that server, before anything else, with the target that was given
/// or SSH on this machine, and with the rules that were given.
pub proof fn law_dtls_server_makes_an_agent(
    o: OptionsModel,
    rules: Result<Seq<RuleModel>, Seq<char>>,
    process: u32,
    host: Seq<char>,
    port: u16,
)
    requires
        o.dtls_server is Some,
        o.allow is Some ==> rules is Ok,
    ensures
        ({
            let job = job_of(o, rules, process);
            &&& job matches Ok(JobModel::Agent { server, token, id, acl, fixed })
            &&& server == o.dtls_server->Some_0
            &&& token == (if o.token is Some {
                o.token->Some_0
            } else {
                ""@
            })
            &&& o.id is Some ==> id == o.id->Some_0
            &&& o.id is None ==> id == "agent-"@ + decimal(process as nat)
            &&& o.allow is None ==> acl is None
            &&& o.allow is Some ==> acl == Some(rules->Ok_0)
            &&& o.target == Some(host + seq![':'] + decimal(port as nat)) ==> fixed == Some(
                (host, port),
            )
            &&& o.target is None ==> fixed == Some(("127.0.0.1"@, 22u16))
        }),
{
    law_target_reads_back(host, port);
}

/// An address to listen on makes an agent that waits there for its clients, unless there is a DTLS
/// server, with the target that was given or SSH on this machine, and with the rules that were
/// given.
pub proof fn law_listening_makes_an_agent(
    o: OptionsModel,
    rules: Result<Seq<RuleModel>, Seq<char>>,
    process: u32,
    h: Seq<char>,
    p: u16,
)
    requires
        o.dtls_server is None,
        o.dtls_listen is Some,
        o.allow is Some ==> rules is Ok,
    ensures
        ({
            let job = job_of(o, rules, process);
            &&& job matches Ok(JobModel::Listen { listen, id, acl, host, port })
            &&& listen == o.dtls_listen->Some_0
            &&& o.id is Some ==> id == o.id->Some_0
            &&& o.allow is None ==> acl is None
            &&& o.allow is Some ==> acl == Some(rules->Ok_0)
            &&& o.target == Some(h + seq![':'] + decimal(p as nat)) ==> host == h && port == p
            &&& o.target is None ==> host == "127.0.0.1"@ && port == 22
        }),
{
    law_target_reads_back(h, p);
}

/// An agent that is named keeps nothing to itself: rules that cannot be read are an error.
pub proof fn law_bad_rules_stop_a_named_agent(
    o: OptionsModel,
    why: Seq<char>,
    process: u32,
)
    requires
        o.dtls_server is Some || o.dtls_listen is Some,
        o.allow is Some,
    ensures
        job_of(o, Err(why), process) == Err::<JobModel, Seq<char>>("Invalid --allow rule: "@ + why),
{
}

/// A port makes a client that forwards that port to SSH on the machine of the agent: of the agent
/// with the id through the server, or without a server directly over the address to connect to.
/// Only the direct way has a host to check, unless arguments of a ProxyCommand are given.
pub proof fn law_port_makes_a_client(
    o: OptionsModel,
    rules: Result<Seq<RuleModel>, Seq<char>>,
    process: u32,
)
    requires
        o.dtls_server is None && o.dtls_listen is None,
        o.target is None,
        o.port is Some,
        o.server is Some && o.id is Some || o.server is None && o.connect is Some && o.forward.len()
            == 0,
    ensures
        ({
            let job = job_of(o, rules, process);
            &&& job matches Ok(JobModel::Forward { server, token, agent_id, forwards, checks_host })
            &&& Some(server) == (if o.server is Some {
                o.server
            } else {
                o.connect
            })
            &&& token == (if o.token is Some {
                o.token->Some_0
            } else {
                ""@
            })
            &&& agent_id == (if o.id is Some {
                o.id->Some_0
            } else {
                "default"@
            })
            &&& forwards.len() == 1
            &&& forwards[0].local_port == o.port
            &&& forwards[0].host == "127.0.0.1"@
            &&& forwards[0].port == 22
            &&& checks_host <==> o.server is None && !o.has_proxy_args
        }),
{
}

/// Forwardings over an address to connect to make a client that forwards all of them that can be
/// read, directly, and only those.
pub proof fn law_direct_forwardings(
    o: OptionsModel,
    rules: Result<Seq<RuleModel>, Seq<char>>,
    process: u32,
)
    requires
        o.dtls_server is None && o.dtls_listen is None,
        o.server is None && o.connect is Some,
        o.forward.len() > 0,
    ensures
        ({
            let job = job_of(o, rules, process);
            &&& job is Ok <==> forwards_of(o.forward).len() > 0
            &&& job is Ok ==> (job matches Ok(
                JobModel::Forward { server, agent_id, forwards, checks_host, .. },
            ) && server == o.connect->Some_0 && forwards == forwards_of(o.forward) && agent_id == (
            if o.id is Some {
                o.id->Some_0
            } else {
                "default"@
            }) && checks_host == !o.has_proxy_args)
        }),
{
}

/// Arguments of a ProxyCommand make one, for SSH on the machine of the agent: through the server, or
/// without a server directly over the address to connect to.
pub proof fn law_arguments_make_a_proxy_command(
    o: OptionsModel,
    rules: Result<Seq<RuleModel>, Seq<char>>,
    process: u32,
)
    requires
        o.dtls_server is None && o.dtls_listen is None,
        o.target is None && o.port is None && o.forward.len() == 0,
        o.has_proxy_args,
        o.server is Some && o.id is Some || o.server is None && o.connect is Some,
    ensures
        ({
            let job = job_of(o, rules, process);
            &&& job matches Ok(JobModel::Proxy { server, token, agent_id, host, port, checks_host })
            &&& Some(server) == (if o.server is Some {
                o.server
            } else {
                o.connect
            })
            &&& token == (if o.token is Some {
                o.token->Some_0
            } else {
                ""@
            })
            &&& agent_id == (if o.id is Some {
                o.id->Some_0
            } else {
                "default"@
            })
            &&& host == "127.0.0.1"@ && port == 22
            &&& !checks_host
        }),
{
}

/// A client in a named mode needs to know its agent, unless it connects to it directly, and
/// something to forward.
pub proof fn law_named_clients_need_an_agent(
    o: OptionsModel,
    rules: Result<Seq<RuleModel>, Seq<char>>,
    process: u32,
)
    requires
        o.dtls_server is None && o.dtls_listen is None && o.target is None,
        o.names_mode(),
    ensures
        o.server is Some && o.id is None ==> job_of(o, rules, process) is Err,
        o.server is None && o.connect is None ==> job_of(o, rules, process) is Err,
        o.server is None && o.connect is Some && o.port is None && o.forward.len() == 0
            && !o.has_proxy_args ==> job_of(o, rules, process) == Err::<JobModel, Seq<char>>(
            "No forward targets specified. Use --forward (-L) or --port"@,
        ),
{
}

/// A daemon logs where it was asked to. Otherwise a plain one logs to its own directory, and one in
/// a named mode to a file that tells an agent, a port forwarding and a ProxyCommand apart.
pub proof fn law_daemon_log(cli: &Cli, r: String)
    requires
        call_ensures(daemon_log_for, (cli,), r),
    ensures
        cli.log_file is Some ==> r@ == cli.log_file->Some_0@,
        cli.log_file is None && cli.target is Some ==> r@ == "/tmp/rport-agent.log"@,
        cli.log_file is None && cli.target is None && cli.port is Some && cli.forward@.len() == 0
            ==> r@ == "/tmp/rport-forward.log"@,
        cli.log_file is None && cli.target is None && cli.port is None && cli.proxy_args@.len() > 0
            ==> r@ == "/tmp/rport-proxy.log"@,
        cli.log_file is None && cli.target is None && cli.port is None && cli.proxy_args@.len() == 0
            && cli.connect is None && cli.dtls_listen is None && cli.dtls_server is None ==> r@
            == "rport.log"@,
{
}

/// An agent over DTLS whose target cannot be read falls back on SSH on this machine; one over HTTP
/// is refused with what is wrong with the target.
pub proof fn law_unreadable_targets(
    o: OptionsModel,
    rules: Result<Seq<RuleModel>, Seq<char>>,
    process: u32,
    why: Seq<char>,
)
    requires
        o.target is Some && target_of(o.target->Some_0) == Err::<(Seq<char>, u16), Seq<char>>(why),
        o.allow is None,
    ensures
        o.dtls_server is Some ==> (job_of(o, rules, process) matches Ok(
            JobModel::Agent { fixed, .. },
        ) && fixed == Some(("127.0.0.1"@, 22u16))),
        o.dtls_server is None && o.dtls_listen is Some ==> (job_of(o, rules, process) matches Ok(
            JobModel::Listen { host, port, .. },
        ) && host == "127.0.0.1"@ && port == 22),
        o.dtls_server is None && o.dtls_listen is None && o.server is Some ==> job_of(
            o,
            rules,
            process,
        ) == Err::<JobModel, Seq<char>>(why),
{
}

} // verus!
