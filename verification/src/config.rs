//! The configuration file and how the command line overrides it.
use crate::cli::Cli;
use crate::dtls_signaling::IceServerModel;
use crate::text::{parse_u16, split, NumberError};
use vstd::prelude::*;

verus! {

/// A STUN or TURN server, as it is configured.
#[derive(Debug)]
pub struct IceServerConfig {
    pub urls: Vec<String>,
    pub username: Option<String>,
    pub credential: Option<String>,
}

impl DeepView for IceServerConfig {
    type V = IceServerModel;

    open spec fn deep_view(&self) -> IceServerModel {
        IceServerModel {
            urls: self.urls.deep_view(),
            username: self.username.deep_view(),
            credential: self.credential.deep_view(),
        }
    }
}

impl Clone for IceServerConfig {
    fn clone(&self) -> (r: IceServerConfig)
        ensures
            r.deep_view() == self.deep_view(),
    {
        let r = IceServerConfig {
            urls: self.urls.clone(),
            username: self.username.clone(),
            credential: self.credential.clone(),
        };
        assert(r.urls.deep_view() =~= self.urls.deep_view());
        r
    }
}

/// The server that is used when none is configured.
pub open spec fn default_ice_server() -> IceServerModel {
    IceServerModel { urls: seq!["stun:restsend.com:3478"@], username: None, credential: None }
}

impl Default for IceServerConfig {
    fn default() -> (r: IceServerConfig)
        ensures
            r.deep_view() == default_ice_server(),
    {
        let mut urls: Vec<String> = Vec::new();
        urls.push("stun:restsend.com:3478".to_owned());
        let r = IceServerConfig { urls, username: None, credential: None };
        assert(r.urls.deep_view() =~= default_ice_server().urls);
        r
    }
}

/// Copies a list of ICE servers.
pub fn clone_servers(servers: &Vec<IceServerConfig>) -> (r: Vec<IceServerConfig>)
    ensures
        r.deep_view() == servers.deep_view(),
{
    let r = servers.clone();
    assert(r.deep_view() =~= servers.deep_view());
    r
}

/// One forwarding: a local port, or none for ProxyCommand, and where the traffic goes.
#[derive(Debug)]
pub struct ForwardMapping {
    pub local_port: Option<u16>,
    pub host: String,
    pub port: u16,
}

/// What a [`ForwardMapping`] says.
#[verifier::ext_equal]
pub struct ForwardModel {
    pub local_port: Option<u16>,
    pub host: Seq<char>,
    pub port: u16,
}

impl DeepView for ForwardMapping {
    type V = ForwardModel;

    open spec fn deep_view(&self) -> ForwardModel {
        ForwardModel { local_port: self.local_port, host: self.host@, port: self.port }
    }
}

impl Clone for ForwardMapping {
    fn clone(&self) -> (r: ForwardMapping)
        ensures
            r.deep_view() == self.deep_view(),
    {
        ForwardMapping {
            local_port: self.local_port,
            host: self.host.clone(),
            port: self.port,
        }
    }
}

impl ForwardMapping {
    /// Whether the traffic comes over standard input and output, not over a local port.
    pub fn is_proxy_command(&self) -> (r: bool)
        ensures
            r == self.local_port is None,
    {
        self.local_port.is_none()
    }
}

/// What is in the configuration file.
#[derive(Debug)]
pub struct RportConfig {
    pub server: Option<String>,
    pub token: Option<String>,
    pub ice_servers: Option<Vec<IceServerConfig>>,
    pub log_file: Option<String>,
    pub connect_timeout: Option<u32>,
    pub upnp: Option<bool>,
    pub ice_disconnect_threshold: Option<u64>,
    pub ice_disconnect_grace: Option<u64>,
    pub ice_connection_timeout: Option<u64>,
    pub sctp_rto_initial_ms: Option<u64>,
    pub sctp_rto_min_ms: Option<u64>,
    pub sctp_rto_max_sec: Option<u64>,
    pub sctp_max_association_retransmits: Option<u32>,
    pub sctp_receive_window_kb: Option<usize>,
}

/// What a [`RportConfig`] says.
#[verifier::ext_equal]
pub struct ConfigModel {
    pub server: Option<Seq<char>>,
    pub token: Option<Seq<char>>,
    pub ice_servers: Option<Seq<IceServerModel>>,
    pub log_file: Option<Seq<char>>,
    pub connect_timeout: Option<u32>,
    pub upnp: Option<bool>,
    pub ice_disconnect_threshold: Option<u64>,
    pub ice_disconnect_grace: Option<u64>,
    pub ice_connection_timeout: Option<u64>,
    pub sctp_rto_initial_ms: Option<u64>,
    pub sctp_rto_min_ms: Option<u64>,
    pub sctp_rto_max_sec: Option<u64>,
    pub sctp_max_association_retransmits: Option<u32>,
    pub sctp_receive_window_kb: Option<usize>,
}

impl DeepView for RportConfig {
    type V = ConfigModel;

    open spec fn deep_view(&self) -> ConfigModel {
        ConfigModel {
            server: self.server.deep_view(),
            token: self.token.deep_view(),
            ice_servers: self.ice_servers.deep_view(),
            log_file: self.log_file.deep_view(),
            connect_timeout: self.connect_timeout,
            upnp: self.upnp,
            ice_disconnect_threshold: self.ice_disconnect_threshold,
            ice_disconnect_grace: self.ice_disconnect_grace,
            ice_connection_timeout: self.ice_connection_timeout,
            sctp_rto_initial_ms: self.sctp_rto_initial_ms,
            sctp_rto_min_ms: self.sctp_rto_min_ms,
            sctp_rto_max_sec: self.sctp_rto_max_sec,
            sctp_max_association_retransmits: self.sctp_max_association_retransmits,
            sctp_receive_window_kb: self.sctp_receive_window_kb,
        }
    }
}

/// The configuration that holds when there is no file.
pub open spec fn default_config() -> ConfigModel {
    ConfigModel {
        server: None,
        token: None,
        ice_servers: None,
        log_file: None,
        connect_timeout: Some(30),
        upnp: Some(true),
        ice_disconnect_threshold: None,
        ice_disconnect_grace: None,
        ice_connection_timeout: None,
        sctp_rto_initial_ms: None,
        sctp_rto_min_ms: None,
        sctp_rto_max_sec: None,
        sctp_max_association_retransmits: None,
        sctp_receive_window_kb: None,
    }
}

impl Default for RportConfig {
    fn default() -> (r: RportConfig)
        ensures
            r.deep_view() == default_config(),
    {
        RportConfig {
            server: None,
            token: None,
            ice_servers: None,
            log_file: None,
            connect_timeout: Some(30),
            upnp: Some(true),
            ice_disconnect_threshold: None,
            ice_disconnect_grace: None,
            ice_connection_timeout: None,
            sctp_rto_initial_ms: None,
            sctp_rto_min_ms: None,
            sctp_rto_max_sec: None,
            sctp_max_association_retransmits: None,
            sctp_receive_window_kb: None,
        }
    }
}

/// The value of the command line if it gives one, else that of the file.
pub open spec fn overridden<T>(file: Option<T>, cli: Option<T>) -> Option<T> {
    if cli is Some {
        cli
    } else {
        file
    }
}

impl ConfigModel {
    /// The configuration after the command line was taken in.
    pub open spec fn merged(
        self,
        server: Option<Seq<char>>,
        token: Option<Seq<char>>,
        timeout: Option<u32>,
        log_file: Option<Seq<char>>,
        upnp: bool,
    ) -> ConfigModel {
        ConfigModel {
            server: overridden(self.server, server),
            token: overridden(self.token, token),
            connect_timeout: overridden(self.connect_timeout, timeout),
            log_file: overridden(self.log_file, log_file),
            upnp: if upnp {
                Some(true)
            } else {
                self.upnp
            },
            ..self
        }
    }
}

/// What a forwarding specification means: `port`, `local_port:port`, `host:port` or
/// `local_port:host:port`. Two parts of which the first is a number are a local port and a port.
pub open spec fn forward_of(text: Seq<char>) -> Result<ForwardModel, Seq<char>> {
    let parts = crate::text::split_on(text, ':');
    if parts.len() == 1 {
        match crate::text::number_of(parts[0]) {
            Ok(port) => Ok(
                ForwardModel { local_port: None, host: "127.0.0.1"@, port: port as u16 },
            ),
            Err(e) => Err(crate::text::number_error_text(e)),
        }
    } else if parts.len() == 2 {
        match crate::text::number_of(parts[1]) {
            Ok(port) => match crate::text::number_of(parts[0]) {
                Ok(local) => Ok(
                    ForwardModel {
                        local_port: Some(local as u16),
                        host: "127.0.0.1"@,
                        port: port as u16,
                    },
                ),
                Err(_) => Ok(ForwardModel { local_port: None, host: parts[0], port: port as u16 }),
            },
            Err(e) => Err(crate::text::number_error_text(e)),
        }
    } else if parts.len() == 3 {
        match crate::text::number_of(parts[0]) {
            Ok(local) => match crate::text::number_of(parts[2]) {
                Ok(port) => Ok(
                    ForwardModel {
                        local_port: Some(local as u16),
                        host: parts[1],
                        port: port as u16,
                    },
                ),
                Err(e) => Err(crate::text::number_error_text(e)),
            },
            Err(e) => Err(crate::text::number_error_text(e)),
        }
    } else {
        Err(
            "Invalid -L format: "@ + text
                + ". Use port, host:port, local_port:port, or local_port:host:port"@,
        )
    }
}

/// The forwardings that a list of specifications means. Bad ones are left out.
pub open spec fn forwards_of(texts: Seq<Seq<char>>) -> Seq<ForwardModel>
    decreases texts.len(),
{
    if texts.len() == 0 {
        Seq::empty()
    } else {
        let before = forwards_of(texts.drop_last());
        match forward_of(texts.last()) {
            Ok(f) => before.push(f),
            Err(_) => before,
        }
    }
}

fn number_error<T>(e: NumberError) -> (r: Result<T, String>)
    ensures
        r matches Err(t) && t@ == crate::text::number_error_text(e),
{
    Err(e.message().to_owned())
}

/// Reads a forwarding specification.
pub fn parse_forward_spec(text: &str) -> (r: Result<ForwardMapping, String>)
    ensures
        match r {
            Ok(f) => forward_of(text@) == Ok::<ForwardModel, Seq<char>>(f.deep_view()),
            Err(e) => forward_of(text@) == Err::<ForwardModel, Seq<char>>(e@),
        },
{
    let parts = split(text, ':');
    if parts.len() == 1 {
        match parse_u16(parts[0]) {
            Ok(port) => Ok(
                ForwardMapping { local_port: None, host: "127.0.0.1".to_owned(), port },
            ),
            Err(e) => number_error(e),
        }
    } else if parts.len() == 2 {
        match parse_u16(parts[0]) {
            Ok(local_port) => match parse_u16(parts[1]) {
                Ok(port) => Ok(
                    ForwardMapping {
                        local_port: Some(local_port),
                        host: "127.0.0.1".to_owned(),
                        port,
                    },
                ),
                Err(e) => number_error(e),
            },
            Err(_) => match parse_u16(parts[1]) {
                Ok(port) => Ok(
                    ForwardMapping { local_port: None, host: parts[0].to_owned(), port },
                ),
                Err(e) => number_error(e),
            },
        }
    } else if parts.len() == 3 {
        match parse_u16(parts[0]) {
            Ok(local_port) => match parse_u16(parts[2]) {
                Ok(port) => Ok(
                    ForwardMapping {
                        local_port: Some(local_port),
                        host: parts[1].to_owned(),
                        port,
                    },
                ),
                Err(e) => number_error(e),
            },
            Err(e) => number_error(e),
        }
    } else {
        Err(
            "Invalid -L format: ".to_owned().concat(text).concat(
                ". Use port, host:port, local_port:port, or local_port:host:port",
            ),
        )
    }
}

impl RportConfig {
    /// The configuration that a file gives. `file` is what reading the file came to, or `None` if
    /// there is no file; then the defaults hold.
    pub fn load_from_file(file: Option<Result<RportConfig, String>>) -> (r: Result<
        RportConfig,
        String,
    >)
        ensures
            match file {
                None => r matches Ok(c) && c.deep_view() == default_config(),
                Some(f) => r == f,
            },
    {
        match file {
            None => Ok(RportConfig::default()),
            Some(f) => f,
        }
    }

    /// Lets the command line override the file, and reads its forwarding specifications.
    pub fn merge_with_cli(&mut self, cli: Cli) -> (r: Vec<ForwardMapping>)
        ensures
            final(self).deep_view() == old(self).deep_view().merged(
                cli.server.deep_view(),
                cli.token.deep_view(),
                cli.timeout,
                cli.log_file.deep_view(),
                cli.upnp,
            ),
            r.deep_view() == forwards_of(cli.forward.deep_view()),
    {
        if cli.token.is_some() {
            self.token = cli.token;
        }
        if cli.server.is_some() {
            self.server = cli.server;
        }
        if cli.timeout.is_some() {
            self.connect_timeout = cli.timeout;
        }
        if cli.log_file.is_some() {
            self.log_file = cli.log_file;
        }
        if cli.upnp {
            self.upnp = Some(true);
        }
        parse_forwards(&cli.forward)
    }
}

/// Reads forwarding specifications. Those that cannot be read are left out.
pub fn parse_forwards(forward: &Vec<String>) -> (r: Vec<ForwardMapping>)
    ensures
        r.deep_view() == forwards_of(forward.deep_view()),
{
    let ghost texts = forward.deep_view();
    let mut forwards: Vec<ForwardMapping> = Vec::new();
    let mut i: usize = 0;
    proof {
        assert(texts.take(0) =~= Seq::empty());
        assert(forwards.deep_view() =~= Seq::empty());
    }
    while i < forward.len()
        invariant
            i <= forward@.len(),
            texts == forward.deep_view(),
            forwards.deep_view() == forwards_of(texts.take(i as int)),
        decreases forward@.len() - i,
    {
        proof {
            assert(texts.take(i + 1).drop_last() =~= texts.take(i as int));
            assert(texts.take(i + 1).last() == forward@[i as int]@);
        }
        let ghost before = forwards.deep_view();
        if let Ok(f) = parse_forward_spec(forward[i].as_str()) {
            let ghost m = f.deep_view();
            forwards.push(f);
            assert(forwards.deep_view() =~= before.push(m));
        }
        i = i + 1;
    }
    assert(texts.take(texts.len() as int) =~= texts);
    forwards
}

/// A value on the command line always wins over the file, and the file stands where the command
/// line is silent. Merging changes nothing else.
pub proof fn law_cli_overrides_file(
    file: ConfigModel,
    server: Option<Seq<char>>,
    token: Option<Seq<char>>,
    timeout: Option<u32>,
    log_file: Option<Seq<char>>,
    upnp: bool,
)
    ensures
        ({
            let m = file.merged(server, token, timeout, log_file, upnp);
            &&& server is Some ==> m.server == server
            &&& token is Some ==> m.token == token
            &&& timeout is Some ==> m.connect_timeout == timeout
            &&& log_file is Some ==> m.log_file == log_file
            &&& upnp ==> m.upnp == Some(true)
            &&& server is None ==> m.server == file.server
            &&& token is None ==> m.token == file.token
            &&& timeout is None ==> m.connect_timeout == file.connect_timeout
            &&& log_file is None ==> m.log_file == file.log_file
            &&& !upnp ==> m.upnp == file.upnp
            &&& m.ice_servers == file.ice_servers
            &&& m.ice_disconnect_threshold == file.ice_disconnect_threshold
            &&& m.ice_disconnect_grace == file.ice_disconnect_grace
            &&& m.ice_connection_timeout == file.ice_connection_timeout
            &&& m.sctp_rto_initial_ms == file.sctp_rto_initial_ms
            &&& m.sctp_rto_min_ms == file.sctp_rto_min_ms
            &&& m.sctp_rto_max_sec == file.sctp_rto_max_sec
            &&& m.sctp_max_association_retransmits == file.sctp_max_association_retransmits
            &&& m.sctp_receive_window_kb == file.sctp_receive_window_kb
            &&& file.merged(None, None, None, None, false) == file
        }),
{
}

/// Merging the same command line twice changes nothing more.
pub proof fn law_merge_is_idempotent(
    file: ConfigModel,
    server: Option<Seq<char>>,
    token: Option<Seq<char>>,
    timeout: Option<u32>,
    log_file: Option<Seq<char>>,
    upnp: bool,
)
    ensures
        file.merged(server, token, timeout, log_file, upnp).merged(
            server,
            token,
            timeout,
            log_file,
            upnp,
        ) == file.merged(server, token, timeout, log_file, upnp),
{
}

proof fn lemma_no_separator(s: Seq<char>, c: char)
    requires
        forall|i: int| 0 <= i < s.len() ==> s[i] != c,
    ensures
        crate::text::split_on(s, c) == seq![s],
{
    crate::text::lemma_first_index_unique(s, c, s.len() as int);
}

proof fn lemma_decimal_has_no_colon(n: u16)
    ensures
        forall|i: int|
            0 <= i < crate::text::decimal(n as nat).len() ==> crate::text::decimal(n as nat)[i]
                != ':',
{
    crate::text::lemma_decimal_digits(n);
}

/// `local_port:host:port`, written with decimal ports and a host without `:`, means what it says.
pub proof fn law_full_forward_reads_back(local: u16, host: Seq<char>, port: u16)
    requires
        forall|i: int| 0 <= i < host.len() ==> host[i] != ':',
    ensures
        forward_of(
            crate::text::decimal(local as nat) + seq![':'] + (host + seq![':'] + crate::text::decimal(
                port as nat,
            )),
        ) == Ok::<ForwardModel, Seq<char>>(ForwardModel { local_port: Some(local), host, port }),
{
    let a = crate::text::decimal(local as nat);
    let b = crate::text::decimal(port as nat);
    lemma_decimal_has_no_colon(local);
    lemma_decimal_has_no_colon(port);
    lemma_no_separator(a, ':');
    lemma_no_separator(b, ':');
    lemma_no_separator(host, ':');
    crate::text::lemma_split_joined(host, b, ':');
    crate::text::lemma_split_joined(a, host + seq![':'] + b, ':');
    assert(crate::text::split_on(a + seq![':'] + (host + seq![':'] + b), ':') =~= seq![a, host, b]);
    crate::text::law_decimal_reads_back(local);
    crate::text::law_decimal_reads_back(port);
}

/// `local_port:port` forwards to the machine of the agent, and a single `port` does so for
/// ProxyCommand.
pub proof fn law_short_forwards_go_to_the_agent(local: u16, port: u16)
    ensures
        forward_of(
            crate::text::decimal(local as nat) + seq![':'] + crate::text::decimal(port as nat),
        ) == Ok::<ForwardModel, Seq<char>>(
            ForwardModel { local_port: Some(local), host: "127.0.0.1"@, port },
        ),
        forward_of(crate::text::decimal(port as nat)) == Ok::<ForwardModel, Seq<char>>(
            ForwardModel { local_port: None, host: "127.0.0.1"@, port },
        ),
{
    let a = crate::text::decimal(local as nat);
    let b = crate::text::decimal(port as nat);
    lemma_decimal_has_no_colon(local);
    lemma_decimal_has_no_colon(port);
    lemma_no_separator(a, ':');
    lemma_no_separator(b, ':');
    crate::text::lemma_split_joined(a, b, ':');
    assert(crate::text::split_on(a + seq![':'] + b, ':') =~= seq![a, b]);
    crate::text::law_decimal_reads_back(local);
    crate::text::law_decimal_reads_back(port);
}

/// `host:port`, written with a decimal port and a host that holds no `:` and is not itself a port
/// number, is a ProxyCommand to exactly that host and port.
pub proof fn law_host_forward_reads_back(host: Seq<char>, port: u16)
    requires
        forall|i: int| 0 <= i < host.len() ==> host[i] != ':',
        crate::text::number_of(host) is Err,
    ensures
        forward_of(host + seq![':'] + crate::text::decimal(port as nat)) == Ok::<
            ForwardModel,
            Seq<char>,
        >(ForwardModel { local_port: None, host, port }),
{
    let b = crate::text::decimal(port as nat);
    lemma_decimal_has_no_colon(port);
    lemma_no_separator(host, ':');
    lemma_no_separator(b, ':');
    crate::text::lemma_split_joined(host, b, ':');
    assert(crate::text::split_on(host + seq![':'] + b, ':') =~= seq![host, b]);
    crate::text::law_decimal_reads_back(port);
}

/// A host that holds a character other than a digit, anywhere but at its start, is no port number:
/// an address with dots and a name are hosts.
pub proof fn law_names_are_no_ports(host: Seq<char>, i: int)
    requires
        0 < i < host.len(),
        !('0' <= host[i] <= '9'),
    ensures
        crate::text::number_of(host) is Err,
{
    crate::text::law_number_is_what_its_digits_mean(host);
    let digits = host.skip(1);
    assert(digits[i - 1] == host[i]);
    if crate::text::number_of(host) is Ok {
        if host[0] == '+' {
            assert('0' <= digits[i - 1] <= '9');
        } else {
            assert('0' <= host[i] <= '9');
        }
    }
}

/// A forwarding ends with a port: where what follows the last `:` is no port number, or the text
/// has more than three parts, or the first of three is no port number, it is refused.
pub proof fn law_bad_forwards_are_refused(a: Seq<char>, b: Seq<char>, c: Seq<char>, d: Seq<char>)
    requires
        forall|i: int| 0 <= i < a.len() ==> a[i] != ':',
        forall|i: int| 0 <= i < b.len() ==> b[i] != ':',
        forall|i: int| 0 <= i < c.len() ==> c[i] != ':',
    ensures
        crate::text::number_of(a) is Err ==> forward_of(a) is Err,
        crate::text::number_of(b) is Err ==> forward_of(a + seq![':'] + b) is Err,
        crate::text::number_of(c) is Err || crate::text::number_of(a) is Err ==> forward_of(
            a + seq![':'] + (b + seq![':'] + c),
        ) is Err,
        forward_of(a + seq![':'] + (b + seq![':'] + (c + seq![':'] + d))) is Err,
{
    lemma_no_separator(a, ':');
    lemma_no_separator(b, ':');
    lemma_no_separator(c, ':');
    crate::text::lemma_split_joined(a, b, ':');
    assert(crate::text::split_on(a + seq![':'] + b, ':') =~= seq![a, b]);
    crate::text::lemma_split_joined(b, c, ':');
    crate::text::lemma_split_joined(a, b + seq![':'] + c, ':');
    assert(crate::text::split_on(a + seq![':'] + (b + seq![':'] + c), ':') =~= seq![a, b, c]);
    crate::text::lemma_split_joined(c, d, ':');
    crate::text::lemma_split_joined(b, c + seq![':'] + d, ':');
    crate::text::lemma_split_joined(a, b + seq![':'] + (c + seq![':'] + d), ':');
    crate::text::law_split_joins_back(d, ':');
}

/// Forwardings are read one by one, in their order: each specification that can be read gives the
/// forwarding that it means, and the others give none.
pub proof fn law_forwards_are_read_one_by_one(
    before: Seq<Seq<char>>,
    text: Seq<char>,
    after: Seq<Seq<char>>,
)
    ensures
        forwards_of(before + seq![text] + after) == forwards_of(before) + (match forward_of(text) {
            Ok(f) => seq![f],
            Err(_) => Seq::empty(),
        }) + forwards_of(after),
        forwards_of(Seq::empty()) == Seq::<ForwardModel>::empty(),
    decreases after.len(),
{
    let all = before + seq![text] + after;
    if after.len() == 0 {
        assert(all.drop_last() =~= before);
        assert(all.last() == text);
        assert(forwards_of(all) =~= forwards_of(before) + (match forward_of(text) {
            Ok(f) => seq![f],
            Err(_) => Seq::empty(),
        }) + forwards_of(after));
    } else {
        law_forwards_are_read_one_by_one(before, text, after.drop_last());
        assert(all.drop_last() =~= before + seq![text] + after.drop_last());
        assert(all.last() == after.last());
        assert(forwards_of(all) =~= forwards_of(before) + (match forward_of(text) {
            Ok(f) => seq![f],
            Err(_) => Seq::empty(),
        }) + forwards_of(after));
    }
}

/// Without a file the command line still decides, over thirty seconds to connect and UPnP.
pub proof fn law_command_line_over_defaults(
    server: Option<Seq<char>>,
    token: Option<Seq<char>>,
    timeout: Option<u32>,
    log_file: Option<Seq<char>>,
    upnp: bool,
)
    ensures
        ({
            let m = default_config().merged(server, token, timeout, log_file, upnp);
            &&& m.server == server
            &&& m.token == token
            &&& m.log_file == log_file
            &&& m.connect_timeout == Some(
                if timeout is Some {
                    timeout->Some_0
                } else {
                    30
                },
            )
            &&& m.upnp == Some(true)
            &&& m.ice_servers is None
        }),
{
}

/// A file that can be read is the configuration, one that cannot is an error, and without a file the
/// defaults hold.
pub proof fn law_loading_takes_the_file(
    file: Option<Result<RportConfig, String>>,
    r: Result<RportConfig, String>,
)
    requires
        call_ensures(RportConfig::load_from_file, (file,), r),
    ensures
        file matches Some(f) ==> r == f,
        file is None ==> r is Ok && r->Ok_0.server is None && r->Ok_0.token is None
            && r->Ok_0.connect_timeout == Some(30u32) && r->Ok_0.upnp == Some(true),
{
    if file is None {
        let c = r->Ok_0;
        assert(c.deep_view().server == c.server.deep_view());
        assert(c.deep_view().token == c.token.deep_view());
        assert(c.deep_view().connect_timeout == c.connect_timeout);
        assert(c.deep_view().upnp == c.upnp);
    }
}

} // verus!
