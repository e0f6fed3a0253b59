//! What the window remembers between runs.
use vstd::prelude::*;

verus! {

/// A forwarding of a client.
#[derive(Debug)]
pub struct ForwardRule {
    pub local_port: u16,
    pub remote_host: String,
    pub remote_port: u16,
    pub enabled: bool,
}

/// What a [`ForwardRule`] says.
#[verifier::ext_equal]
pub struct RuleModel {
    pub local_port: u16,
    pub remote_host: Seq<char>,
    pub remote_port: u16,
    pub enabled: bool,
}

impl DeepView for ForwardRule {
    type V = RuleModel;

    open spec fn deep_view(&self) -> RuleModel {
        RuleModel {
            local_port: self.local_port,
            remote_host: self.remote_host@,
            remote_port: self.remote_port,
            enabled: self.enabled,
        }
    }
}

impl Clone for ForwardRule {
    fn clone(&self) -> (r: ForwardRule)
        ensures
            r.deep_view() == self.deep_view(),
    {
        ForwardRule {
            local_port: self.local_port,
            remote_host: self.remote_host.clone(),
            remote_port: self.remote_port,
            enabled: self.enabled,
        }
    }
}

/// The rule that a new forwarding starts with.
pub open spec fn default_rule() -> RuleModel {
    RuleModel { local_port: 8080, remote_host: "127.0.0.1"@, remote_port: 80, enabled: true }
}

impl Default for ForwardRule {
    fn default() -> (r: ForwardRule)
        ensures
            r.deep_view() == default_rule(),
    {
        ForwardRule {
            local_port: 8080,
            remote_host: "127.0.0.1".to_owned(),
            remote_port: 80,
            enabled: true,
        }
    }
}

/// A client and its forwardings.
#[derive(Debug)]
pub struct ClientConfig {
    pub id: String,
    pub name: String,
    pub server_addr: String,
    pub token: String,
    pub agent_id: String,
    pub forwards: Vec<ForwardRule>,
}

/// What a [`ClientConfig`] says.
#[verifier::ext_equal]
pub struct ClientConfigModel {
    pub id: Seq<char>,
    pub name: Seq<char>,
    pub server_addr: Seq<char>,
    pub token: Seq<char>,
    pub agent_id: Seq<char>,
    pub forwards: Seq<RuleModel>,
}

impl DeepView for ClientConfig {
    type V = ClientConfigModel;

    open spec fn deep_view(&self) -> ClientConfigModel {
        ClientConfigModel {
            id: self.id@,
            name: self.name@,
            server_addr: self.server_addr@,
            token: self.token@,
            agent_id: self.agent_id@,
            forwards: self.forwards.deep_view(),
        }
    }
}

impl Clone for ClientConfig {
    fn clone(&self) -> (r: ClientConfig)
        ensures
            r.deep_view() == self.deep_view(),
    {
        let forwards = self.forwards.clone();
        assert(forwards.deep_view() =~= self.forwards.deep_view());
        ClientConfig {
            id: self.id.clone(),
            name: self.name.clone(),
            server_addr: self.server_addr.clone(),
            token: self.token.clone(),
            agent_id: self.agent_id.clone(),
            forwards,
        }
    }
}

/// The client that the dialog starts with: nothing is filled in.
pub open spec fn default_client() -> ClientConfigModel {
    ClientConfigModel {
        id: Seq::empty(),
        name: Seq::empty(),
        server_addr: Seq::empty(),
        token: Seq::empty(),
        agent_id: Seq::empty(),
        forwards: Seq::empty(),
    }
}

impl Default for ClientConfig {
    fn default() -> (r: ClientConfig)
        ensures
            r.deep_view() == default_client(),
    {
        let r = ClientConfig {
            id: String::new(),
            name: String::new(),
            server_addr: String::new(),
            token: String::new(),
            agent_id: String::new(),
            forwards: Vec::new(),
        };
        assert(r.forwards.deep_view() =~= Seq::empty());
        r
    }
}

/// All clients.
#[derive(Debug)]
pub struct UiConfig {
    pub clients: Vec<ClientConfig>,
}

impl DeepView for UiConfig {
    type V = Seq<ClientConfigModel>;

    open spec fn deep_view(&self) -> Seq<ClientConfigModel> {
        self.clients.deep_view()
    }
}

impl Default for UiConfig {
    fn default() -> (r: UiConfig)
        ensures
            r.deep_view() == Seq::<ClientConfigModel>::empty(),
    {
        let r = UiConfig { clients: Vec::new() };
        assert(r.clients.deep_view() =~= Seq::empty());
        r
    }
}

impl UiConfig {
    /// What the file gives. `None` stands for a file that is not there, cannot be read or is not
    /// understood; then there are no clients.
    pub fn load(file: Option<UiConfig>) -> (r: UiConfig)
        ensures
            match file {
                Some(c) => r == c,
                None => r.deep_view() == Seq::<ClientConfigModel>::empty(),
            },
    {
        match file {
            Some(c) => c,
            None => UiConfig::default(),
        }
    }
}

} // verus!
