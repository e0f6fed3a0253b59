//! The built-in TURN server: its addresses and its temporary credentials.
use crate::dtls_signaling::{IceServerInfo, IceServerModel};
use crate::text::decimal_string;
use vstd::prelude::*;

verus! {

/// `rand::random`: a random number. Which one depends on chance.
#[verifier::external_body]
fn random_number() -> u64 {
    rand::random::<u64>()
}

/// The password that belongs to a user name and a secret, by the `turn` crate.
pub uninterp spec fn turn_password(secret: Seq<char>, username: Seq<char>) -> Seq<char>;

/// `turn::auth::generate_long_term_credentials`: a user name and a password that hold for
/// `duration` seconds from now. The name is the moment at which they expire, in seconds, and the
/// password follows from the name and the secret. It fails only if the clock stands before 1970,
/// so when it fails is not stated.
#[verifier::external_body]
fn long_term_credentials(secret: &str, duration: u64) -> (r: Option<(String, String)>)
    requires
        duration < 0x8000000000000000,
    ensures
        r matches Some((username, password)) ==> {
            &&& exists|t: u64| t >= duration && username@ == #[trigger] crate::text::decimal(t as nat)
            &&& password@ == turn_password(secret@, username@)
        },
{
    turn::auth::generate_long_term_credentials(
        secret,
        std::time::Duration::from_secs(duration),
    ).ok()
}

/// An address to listen on: how it is written, and its port.
#[derive(Debug)]
pub struct ListenAddr {
    pub text: String,
    pub port: u16,
}

/// A user name and its password.
#[derive(Debug)]
pub struct TurnCredentials {
    pub username: String,
    pub password: String,
}

/// What [`TurnCredentials`] say.
#[verifier::ext_equal]
pub struct CredentialsModel {
    pub username: Seq<char>,
    pub password: Seq<char>,
}

impl DeepView for TurnCredentials {
    type V = CredentialsModel;

    open spec fn deep_view(&self) -> CredentialsModel {
        CredentialsModel { username: self.username@, password: self.password@ }
    }
}

/// What a TURN server is started with.
#[derive(Debug)]
pub struct TurnSettings {
    /// The address to listen on.
    pub listen_addr: String,
    /// The address that relayed traffic comes from.
    pub relay_ip: String,
    /// The realm of the credentials.
    pub realm: String,
    /// The secret that the credentials are made with.
    pub secret: String,
}

/// A simple TURN server with temporary authentication.
#[derive(Debug)]
pub struct TurnServer {
    /// How long credentials are valid, in seconds.
    pub auth_duration: u64,
    pub disabled: bool,
    pub listen_addr: ListenAddr,
    pub public_ip: Option<String>,
    pub secret: String,
}

/// The url of a server: its public address and port, or the address that it listens on.
pub open spec fn server_url(
    scheme: Seq<char>,
    public_ip: Option<Seq<char>>,
    listen_text: Seq<char>,
    port: u16,
) -> Seq<char> {
    match public_ip {
        Some(ip) => scheme + ip + ":"@ + crate::text::decimal(port as nat),
        None => scheme + listen_text,
    }
}

/// The ICE servers that clients are told of: STUN always, TURN with credentials.
pub open spec fn announced_servers(
    stun_url: Seq<char>,
    turn_url: Seq<char>,
    credentials: Option<CredentialsModel>,
) -> Seq<IceServerModel> {
    let stun = IceServerModel { urls: seq![stun_url], username: None, credential: None };
    match credentials {
        Some(c) => seq![
            stun,
            IceServerModel {
                urls: seq![turn_url],
                username: Some(c.username),
                credential: Some(c.password),
            },
        ],
        None => seq![stun],
    }
}

impl TurnServer {
    /// How the address that it listens on is written.
    pub open spec fn listen_text(&self) -> Seq<char> {
        self.listen_addr.text@
    }

    /// The port that it listens on.
    pub open spec fn listen_port(&self) -> u16 {
        self.listen_addr.port
    }

    /// The public address, if it is known.
    pub open spec fn public_address(&self) -> Option<Seq<char>> {
        self.public_ip.deep_view()
    }

    /// The secret that the credentials are made with.
    pub open spec fn shared_secret(&self) -> Seq<char> {
        self.secret@
    }

    /// A server with a random secret. Its credentials are valid for a minute.
    pub fn new(disabled: bool, listen_addr: ListenAddr, public_ip: Option<String>) -> (r: TurnServer)
        ensures
            r.auth_duration == 60,
            r.disabled == disabled,
            r.listen_text() == listen_addr.text@,
            r.listen_port() == listen_addr.port,
            r.public_address() == public_ip.deep_view(),
            exists|n: u64| r.shared_secret() == #[trigger] crate::text::decimal(n as nat),
    {
        let n = random_number();
        let secret = decimal_string(n);
        assert(secret@ == crate::text::decimal(n as nat));
        TurnServer { auth_duration: 60, disabled, listen_addr, public_ip, secret }
    }

    /// What to start the server with. A server that is disabled is not started.
    pub fn start_settings(&self) -> (r: Option<TurnSettings>)
        ensures
            match r {
                None => self.disabled,
                Some(s) => {
                    &&& !self.disabled
                    &&& s.listen_addr@ == self.listen_text()
                    &&& s.relay_ip@ == match self.public_address() {
                        Some(ip) => ip,
                        None => "127.0.0.1"@,
                    }
                    &&& s.realm@ == "rport.turn"@
                    &&& s.secret@ == self.shared_secret()
                },
            },
    {
        if self.disabled {
            return None;
        }
        Some(
            TurnSettings {
                listen_addr: self.listen_addr.text.clone(),
                relay_ip: match &self.public_ip {
                    Some(ip) => ip.clone(),
                    None => "127.0.0.1".to_owned(),
                },
                realm: "rport.turn".to_owned(),
                secret: self.secret.clone(),
            },
        )
    }

    /// What credentials are generated from: the secret, and how long they are valid, in seconds. A
    /// server that is disabled has none generated.
    pub fn credential_request(&self) -> (r: Option<(String, u64)>)
        ensures
            r is None <==> self.disabled,
            r matches Some((secret, duration)) ==> secret@ == self.shared_secret() && duration
                == self.auth_duration,
    {
        if self.disabled {
            None
        } else {
            Some((self.secret.clone(), self.auth_duration))
        }
    }

    /// The credentials that are handed out, given the user name and the password that were
    /// generated, if they could be. A server that is disabled hands out none.
    pub fn issue_credentials(&self, generated: Option<(String, String)>) -> (r: Option<
        TurnCredentials,
    >)
        ensures
            match r {
                Some(c) => {
                    &&& !self.disabled
                    &&& generated matches Some((username, password))
                    &&& c.deep_view() == (CredentialsModel {
                        username: username@,
                        password: password@,
                    })
                },
                None => self.disabled || generated is None,
            },
    {
        if self.disabled {
            return None;
        }
        match generated {
            Some((username, password)) => Some(TurnCredentials { username, password }),
            None => None,
        }
    }

    /// Generates temporary credentials. A server that is disabled has none; whether another one
    /// has any rests with the clock, and so does the moment at which they expire.
    /// [`TurnServer::credential_request`] tells what they are generated from, and
    /// [`TurnServer::issue_credentials`] what becomes of them.
    pub fn generate_credentials(&self) -> (r: Option<TurnCredentials>)
        requires
            self.auth_duration < 0x8000000000000000,
        ensures
            self.disabled ==> r is None,
            r matches Some(c) ==> {
                &&& exists|t: u64|
                    t >= self.auth_duration && c.username@ == #[trigger] crate::text::decimal(t as nat)
                &&& c.password@ == turn_password(self.shared_secret(), c.username@)
            },
    {
        match self.credential_request() {
            None => None,
            Some((secret, duration)) => {
                let generated = long_term_credentials(secret.as_str(), duration);
                self.issue_credentials(generated)
            },
        }
    }

    /// The address of the TURN server.
    pub fn get_turn_url(&self) -> (r: String)
        ensures
            r@ == server_url(
                "turn:"@,
                self.public_address(),
                self.listen_text(),
                self.listen_port(),
            ),
    {
        match &self.public_ip {
            Some(ip) => "turn:".to_owned().concat(ip.as_str()).concat(":").concat(
                decimal_string(self.listen_addr.port as u64).as_str(),
            ),
            None => "turn:".to_owned().concat(self.listen_addr.text.as_str()),
        }
    }

    /// The address of the STUN server.
    pub fn get_stun_url(&self) -> (r: String)
        ensures
            r@ == server_url(
                "stun:"@,
                self.public_address(),
                self.listen_text(),
                self.listen_port(),
            ),
    {
        match &self.public_ip {
            Some(ip) => "stun:".to_owned().concat(ip.as_str()).concat(":").concat(
                decimal_string(self.listen_addr.port as u64).as_str(),
            ),
            None => "stun:".to_owned().concat(self.listen_addr.text.as_str()),
        }
    }

    /// The ICE servers that clients are told of, given credentials for TURN if there are any.
    pub fn ice_servers(&self, credentials: Option<TurnCredentials>) -> (r: Vec<IceServerInfo>)
        ensures
            r.deep_view() == announced_servers(
                server_url(
                    "stun:"@,
                    self.public_address(),
                    self.listen_text(),
                    self.listen_port(),
                ),
                server_url(
                    "turn:"@,
                    self.public_address(),
                    self.listen_text(),
                    self.listen_port(),
                ),
                credentials.deep_view(),
            ),
    {
        let stun_url = self.get_stun_url();
        let ghost stun = IceServerModel { urls: seq![stun_url@], username: None, credential: None };
        let mut stun_urls: Vec<String> = Vec::new();
        stun_urls.push(stun_url);
        assert(stun_urls.deep_view() =~= stun.urls);
        let mut r: Vec<IceServerInfo> = Vec::new();
        r.push(IceServerInfo { urls: stun_urls, username: None, credential: None });
        assert(r.deep_view() =~= seq![stun]);
        if let Some(c) = credentials {
            let turn_url = self.get_turn_url();
            let ghost turn = IceServerModel {
                urls: seq![turn_url@],
                username: Some(c.username@),
                credential: Some(c.password@),
            };
            let mut turn_urls: Vec<String> = Vec::new();
            turn_urls.push(turn_url);
            assert(turn_urls.deep_view() =~= turn.urls);
            r.push(
                IceServerInfo {
                    urls: turn_urls,
                    username: Some(c.username),
                    credential: Some(c.password),
                },
            );
            assert(r.deep_view() =~= seq![stun, turn]);
        }
        r
    }

    /// The ICE servers that clients are told of, with credentials that were just generated.
    pub fn get_iceservers(&self) -> (r: Vec<IceServerInfo>)
        requires
            self.auth_duration < 0x8000000000000000,
        ensures
            exists|c: Option<CredentialsModel>|
                {
                    &&& self.disabled ==> c is None
                    &&& c matches Some(c) ==> {
                        &&& exists|t: u64|
                            t >= self.auth_duration && c.username == #[trigger] crate::text::decimal(
                                t as nat,
                            )
                        &&& c.password == turn_password(self.shared_secret(), c.username)
                    }
                    &&& r.deep_view() == #[trigger] announced_servers(
                        server_url(
                            "stun:"@,
                            self.public_address(),
                            self.listen_text(),
                            self.listen_port(),
                        ),
                        server_url(
                            "turn:"@,
                            self.public_address(),
                            self.listen_text(),
                            self.listen_port(),
                        ),
                        c,
                    )
                },
    {
        let credentials = self.generate_credentials();
        let ghost c = credentials.deep_view();
        let r = self.ice_servers(credentials);
        assert(c matches Some(c) ==> c.password == turn_password(self.shared_secret(), c.username));
        r
    }
}

/// Clients are always told of the STUN server first, and of TURN only together with credentials.
pub proof fn law_stun_is_always_announced(
    stun_url: Seq<char>,
    turn_url: Seq<char>,
    credentials: Option<CredentialsModel>,
)
    ensures
        ({
            let servers = announced_servers(stun_url, turn_url, credentials);
            &&& servers.len() > 0
            &&& servers[0].urls == seq![stun_url]
            &&& servers.len() == 2 <==> credentials is Some
            &&& forall|i: int|
                0 < i < servers.len() ==> (#[trigger] servers[i]).username is Some
                    && servers[i].credential is Some
        }),
{
}

/// Clients get the two addresses and the credentials as they are: STUN without credentials, and TURN,
/// if there are credentials, with exactly these.
pub proof fn law_credentials_are_announced_with_turn(
    stun_url: Seq<char>,
    turn_url: Seq<char>,
    credentials: Option<CredentialsModel>,
)
    ensures
        ({
            let servers = announced_servers(stun_url, turn_url, credentials);
            &&& servers[0].urls == seq![stun_url]
            &&& servers[0].username is None && servers[0].credential is None
            &&& credentials is None ==> servers.len() == 1
            &&& credentials matches Some(c) ==> servers.len() == 2 && servers[1].urls == seq![turn_url]
                && servers[1].username == Some(c.username) && servers[1].credential == Some(
                c.password,
            )
        }),
{
}

/// The url of a server that knows its public address ends in the port that it listens on, and has
/// that address before it. Without one it is the address that it listens on.
pub proof fn law_url_tells_the_public_address(
    scheme: Seq<char>,
    ip: Seq<char>,
    listen_text: Seq<char>,
    port: u16,
)
    ensures
        crate::text::split_last(server_url(scheme, Some(ip), listen_text, port), ':') == Some(
            (scheme + ip, crate::text::decimal(port as nat)),
        ),
        server_url(scheme, None, listen_text, port) == scheme + listen_text,
{
    reveal_strlit(":");
    let tail = crate::text::decimal(port as nat);
    crate::text::lemma_decimal_digits(port);
    assert forall|i: int| 0 <= i < tail.len() implies tail[i] != ':' by {
        assert(crate::text::is_digit(tail[i]));
    }
    crate::text::law_last_part_reads_back(scheme + ip, tail, ':');
    assert(server_url(scheme, Some(ip), listen_text, port) =~= scheme + ip + seq![':'] + tail);
}

/// A server that is disabled is not started, asks for no credentials and hands out none. One that is
/// not is started where it listens, relays from its public address, and hands out the credentials
/// that were generated from its own secret.
pub proof fn law_disabled_server_does_nothing(
    server: &TurnServer,
    settings: Option<TurnSettings>,
    asked: Option<(String, u64)>,
    generated: Option<(String, String)>,
    issued: Option<TurnCredentials>,
)
    requires
        call_ensures(TurnServer::start_settings, (server,), settings),
        call_ensures(TurnServer::credential_request, (server,), asked),
        call_ensures(TurnServer::issue_credentials, (server, generated), issued),
    ensures
        settings is Some <==> !server.disabled,
        asked is Some <==> !server.disabled,
        issued is Some <==> !server.disabled && generated is Some,
        settings matches Some(s) ==> s.listen_addr@ == server.listen_addr.text@ && s.secret@
            == server.secret@ && s.realm@ == "rport.turn"@ && s.relay_ip@ == (
        if server.public_ip is Some {
            server.public_ip->Some_0@
        } else {
            "127.0.0.1"@
        }),
        asked matches Some((secret, duration)) ==> secret@ == server.secret@ && duration
            == server.auth_duration,
        issued matches Some(c) ==> c.username@ == generated->Some_0.0@ && c.password@
            == generated->Some_0.1@,
{
}

/// Clients are told of STUN and TURN at the public address of the server, or where it listens, each
/// with its own scheme.
pub proof fn law_announced_addresses(
    server: &TurnServer,
    credentials: Option<TurnCredentials>,
    r: Vec<IceServerInfo>,
)
    requires
        call_ensures(TurnServer::ice_servers, (server, credentials), r),
    ensures
        ({
            let place = match server.public_ip {
                Some(ip) => ip@ + ":"@ + crate::text::decimal(server.listen_addr.port as nat),
                None => server.listen_addr.text@,
            };
            let servers = r.deep_view();
            &&& servers.len() == if credentials is Some {
                2int
            } else {
                1
            }
            &&& servers[0].urls == seq!["stun:"@ + place]
            &&& servers[0].username is None && servers[0].credential is None
            &&& credentials matches Some(c) ==> servers[1].urls == seq!["turn:"@ + place]
                && servers[1].username == Some(c.username@) && servers[1].credential == Some(
                c.password@,
            )
        }),
{
    if let Some(ip) = server.public_ip {
        let port = crate::text::decimal(server.listen_addr.port as nat);
        assert("stun:"@ + ip@ + ":"@ + port =~= "stun:"@ + (ip@ + ":"@ + port));
        assert("turn:"@ + ip@ + ":"@ + port =~= "turn:"@ + (ip@ + ":"@ + port));
    }
}

/// A new server is as it was asked for, and its credentials hold for a minute.
pub proof fn law_new_server(
    disabled: bool,
    listen_addr: ListenAddr,
    public_ip: Option<String>,
    r: TurnServer,
)
    requires
        call_ensures(TurnServer::new, (disabled, listen_addr, public_ip), r),
    ensures
        r.disabled == disabled,
        r.listen_addr.text@ == listen_addr.text@ && r.listen_addr.port == listen_addr.port,
        r.public_ip.deep_view() == public_ip.deep_view(),
        r.auth_duration == 60,
{
}

} // verus!
