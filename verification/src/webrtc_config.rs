//! Settings of the WebRTC stack.
use crate::config::{clone_servers, default_ice_server, ConfigModel, IceServerConfig, RportConfig};
use crate::dtls_signaling::IceServerModel;
use crate::reliable::Nanos;
use vstd::prelude::*;

verus! {

/// Nanoseconds in a second.
pub const SECOND: u128 = 1000000000;

/// Nanoseconds in a millisecond.
pub const MILLISECOND: u128 = 1000000;

/// What is configured of the WebRTC stack. What is not configured has a default.
#[derive(Debug)]
pub struct WebRTCConfig {
    pub ice_servers: Vec<IceServerConfig>,
    pub enable_upnp: bool,
    pub ice_disconnect_threshold: Option<Nanos>,
    pub ice_disconnect_grace: Option<Nanos>,
    pub ice_connection_timeout: Option<Nanos>,
    pub sctp_rto_initial: Option<Nanos>,
    pub sctp_rto_min: Option<Nanos>,
    pub sctp_rto_max: Option<Nanos>,
    pub sctp_max_association_retransmits: Option<u32>,
    pub sctp_receive_window: Option<usize>,
}

/// What a [`WebRTCConfig`] says.
#[verifier::ext_equal]
pub struct WebRTCModel {
    pub ice_servers: Seq<IceServerModel>,
    pub enable_upnp: bool,
    pub ice_disconnect_threshold: Option<Nanos>,
    pub ice_disconnect_grace: Option<Nanos>,
    pub ice_connection_timeout: Option<Nanos>,
    pub sctp_rto_initial: Option<Nanos>,
    pub sctp_rto_min: Option<Nanos>,
    pub sctp_rto_max: Option<Nanos>,
    pub sctp_max_association_retransmits: Option<u32>,
    pub sctp_receive_window: Option<usize>,
}

impl DeepView for WebRTCConfig {
    type V = WebRTCModel;

    open spec fn deep_view(&self) -> WebRTCModel {
        WebRTCModel {
            ice_servers: self.ice_servers.deep_view(),
            enable_upnp: self.enable_upnp,
            ice_disconnect_threshold: self.ice_disconnect_threshold,
            ice_disconnect_grace: self.ice_disconnect_grace,
            ice_connection_timeout: self.ice_connection_timeout,
            sctp_rto_initial: self.sctp_rto_initial,
            sctp_rto_min: self.sctp_rto_min,
            sctp_rto_max: self.sctp_rto_max,
            sctp_max_association_retransmits: self.sctp_max_association_retransmits,
            sctp_receive_window: self.sctp_receive_window,
        }
    }
}

impl Clone for WebRTCConfig {
    fn clone(&self) -> (r: WebRTCConfig)
        ensures
            r.deep_view() == self.deep_view(),
    {
        WebRTCConfig {
            ice_servers: clone_servers(&self.ice_servers),
            enable_upnp: self.enable_upnp,
            ice_disconnect_threshold: self.ice_disconnect_threshold,
            ice_disconnect_grace: self.ice_disconnect_grace,
            ice_connection_timeout: self.ice_connection_timeout,
            sctp_rto_initial: self.sctp_rto_initial,
            sctp_rto_min: self.sctp_rto_min,
            sctp_rto_max: self.sctp_rto_max,
            sctp_max_association_retransmits: self.sctp_max_association_retransmits,
            sctp_receive_window: self.sctp_receive_window,
        }
    }
}

/// The settings that a configuration file gives, with these servers.
pub open spec fn webrtc_of(
    cfg: ConfigModel,
    ice_servers: Seq<IceServerModel>,
    enable_upnp: bool,
) -> WebRTCModel {
    WebRTCModel {
        ice_servers,
        enable_upnp,
        ice_disconnect_threshold: scaled(cfg.ice_disconnect_threshold, SECOND),
        ice_disconnect_grace: scaled(cfg.ice_disconnect_grace, SECOND),
        ice_connection_timeout: scaled(cfg.ice_connection_timeout, SECOND),
        sctp_rto_initial: scaled(cfg.sctp_rto_initial_ms, MILLISECOND),
        sctp_rto_min: scaled(cfg.sctp_rto_min_ms, MILLISECOND),
        sctp_rto_max: scaled(cfg.sctp_rto_max_sec, SECOND),
        sctp_max_association_retransmits: cfg.sctp_max_association_retransmits,
        sctp_receive_window: kilobytes(cfg.sctp_receive_window_kb),
    }
}

/// Everything that a peer connection is created with.
#[derive(Debug)]
pub struct RtcSettings {
    pub ice_servers: Vec<IceServerConfig>,
    pub sctp_rto_initial: Nanos,
    pub sctp_rto_min: Nanos,
    pub sctp_rto_max: Nanos,
    pub sctp_max_association_retransmits: u32,
    pub sctp_receive_window: usize,
    pub ice_connection_timeout: Nanos,
    pub ice_disconnect_threshold: Nanos,
    pub ice_disconnect_grace: Nanos,
    pub enable_upnp: bool,
    pub prefer_srflx_over_natted_host: bool,
    /// Whether candidates with IPv6 addresses are left out.
    pub disable_ipv6: bool,
}

/// A number of units, in nanoseconds.
pub open spec fn scaled(n: Option<u64>, unit: u128) -> Option<Nanos> {
    match n {
        Some(n) => Some((n * unit) as u128),
        None => None,
    }
}

/// A number of kilobytes, in bytes.
pub open spec fn kilobytes(n: Option<usize>) -> Option<usize> {
    match n {
        Some(n) => Some((n * 1024) as usize),
        None => None,
    }
}

/// `value`, or `other` if there is none.
pub open spec fn or_else<T>(value: Option<T>, other: T) -> T {
    match value {
        Some(v) => v,
        None => other,
    }
}

fn seconds(n: Option<u64>) -> (r: Option<Nanos>)
    ensures
        r == scaled(n, SECOND),
{
    match n {
        Some(n) => Some(n as u128 * SECOND),
        None => None,
    }
}

fn milliseconds(n: Option<u64>) -> (r: Option<Nanos>)
    ensures
        r == scaled(n, MILLISECOND),
{
    match n {
        Some(n) => Some(n as u128 * MILLISECOND),
        None => None,
    }
}

/// The servers to use: those that are configured, or the default one.
pub open spec fn servers_or_default(configured: Seq<IceServerModel>) -> Seq<IceServerModel> {
    if configured.len() > 0 {
        configured
    } else {
        seq![default_ice_server()]
    }
}

impl WebRTCConfig {
    /// The window that is configured can be counted in bytes.
    pub open spec fn fits(cfg: &RportConfig) -> bool {
        cfg.sctp_receive_window_kb matches Some(kb) ==> kb * 1024 <= usize::MAX
    }

    /// What the configuration file says of the WebRTC stack. The server and the token play no part.
    pub fn new(
        _server: String,
        _token: String,
        ice_servers: Vec<IceServerConfig>,
        enable_upnp: bool,
        cfg: &RportConfig,
    ) -> (r: WebRTCConfig)
        requires
            WebRTCConfig::fits(cfg),
        ensures
            r.deep_view() == webrtc_of(cfg.deep_view(), ice_servers.deep_view(), enable_upnp),
    {
        WebRTCConfig {
            ice_servers,
            enable_upnp,
            ice_disconnect_threshold: seconds(cfg.ice_disconnect_threshold),
            ice_disconnect_grace: seconds(cfg.ice_disconnect_grace),
            ice_connection_timeout: seconds(cfg.ice_connection_timeout),
            sctp_rto_initial: milliseconds(cfg.sctp_rto_initial_ms),
            sctp_rto_min: milliseconds(cfg.sctp_rto_min_ms),
            sctp_rto_max: seconds(cfg.sctp_rto_max_sec),
            sctp_max_association_retransmits: cfg.sctp_max_association_retransmits,
            sctp_receive_window: match cfg.sctp_receive_window_kb {
                Some(kb) => Some(kb * 1024),
                None => None,
            },
        }
    }

    /// The settings for a peer connection that also knows `extra_ice_servers`. Candidates with
    /// IPv6 addresses are left out, which is more compatible.
    pub fn build_rtc_config(&self, extra_ice_servers: Vec<IceServerConfig>) -> (r: RtcSettings)
        ensures
            r.ice_servers.deep_view() == servers_or_default(self.ice_servers.deep_view())
                + extra_ice_servers.deep_view(),
            r.sctp_rto_initial == or_else(self.sctp_rto_initial, (400 * MILLISECOND) as u128),
            r.sctp_rto_min == or_else(self.sctp_rto_min, (200 * MILLISECOND) as u128),
            r.sctp_rto_max == or_else(self.sctp_rto_max, (30 * SECOND) as u128),
            r.sctp_max_association_retransmits == or_else(self.sctp_max_association_retransmits, 20),
            r.sctp_receive_window == or_else(self.sctp_receive_window, 2097152),
            r.ice_connection_timeout == or_else(self.ice_connection_timeout, (300 * SECOND) as u128),
            r.ice_disconnect_threshold == or_else(
                self.ice_disconnect_threshold,
                (30 * SECOND) as u128,
            ),
            r.ice_disconnect_grace == or_else(self.ice_disconnect_grace, (15 * SECOND) as u128),
            r.enable_upnp == self.enable_upnp,
            r.prefer_srflx_over_natted_host,
            r.disable_ipv6,
    {
        let mut ice_servers = self.get_ice_servers();
        let mut extra_ice_servers = extra_ice_servers;
        let ghost own = ice_servers.deep_view();
        let ghost extra = extra_ice_servers.deep_view();
        ice_servers.append(&mut extra_ice_servers);
        assert(ice_servers.deep_view() =~= own + extra);
        RtcSettings {
            ice_servers,
            sctp_rto_initial: self.sctp_rto_initial.unwrap_or(400 * MILLISECOND),
            sctp_rto_min: self.sctp_rto_min.unwrap_or(200 * MILLISECOND),
            sctp_rto_max: self.sctp_rto_max.unwrap_or(30 * SECOND),
            sctp_max_association_retransmits: self.sctp_max_association_retransmits.unwrap_or(20),
            sctp_receive_window: self.sctp_receive_window.unwrap_or(2097152),
            ice_connection_timeout: self.ice_connection_timeout.unwrap_or(300 * SECOND),
            ice_disconnect_threshold: self.ice_disconnect_threshold.unwrap_or(30 * SECOND),
            ice_disconnect_grace: self.ice_disconnect_grace.unwrap_or(15 * SECOND),
            enable_upnp: self.enable_upnp,
            prefer_srflx_over_natted_host: true,
            disable_ipv6: true,
        }
    }

    /// The servers to use: those that are configured, or the default one.
    pub fn get_ice_servers(&self) -> (r: Vec<IceServerConfig>)
        ensures
            r.deep_view() == servers_or_default(self.ice_servers.deep_view()),
    {
        if self.ice_servers.len() > 0 {
            return clone_servers(&self.ice_servers);
        }
        let mut r: Vec<IceServerConfig> = Vec::new();
        r.push(IceServerConfig::default());
        assert(r.deep_view() =~= seq![default_ice_server()]);
        r
    }
}

/// What is configured in seconds, milliseconds and kilobytes is used as so many nanoseconds and
/// bytes, each in its own place. What is not configured stays open.
pub proof fn law_settings_are_those_configured(
    cfg: ConfigModel,
    servers: Seq<IceServerModel>,
    upnp: bool,
)
    requires
        cfg.sctp_receive_window_kb matches Some(kb) ==> kb * 1024 <= usize::MAX,
    ensures
        ({
            let s = webrtc_of(cfg, servers, upnp);
            &&& s.ice_servers == servers
            &&& s.enable_upnp == upnp
            &&& means(s.ice_disconnect_threshold, cfg.ice_disconnect_threshold, 1000000000)
            &&& means(s.ice_disconnect_grace, cfg.ice_disconnect_grace, 1000000000)
            &&& means(s.ice_connection_timeout, cfg.ice_connection_timeout, 1000000000)
            &&& means(s.sctp_rto_max, cfg.sctp_rto_max_sec, 1000000000)
            &&& means(s.sctp_rto_initial, cfg.sctp_rto_initial_ms, 1000000)
            &&& means(s.sctp_rto_min, cfg.sctp_rto_min_ms, 1000000)
            &&& s.sctp_max_association_retransmits == cfg.sctp_max_association_retransmits
            &&& match cfg.sctp_receive_window_kb {
                Some(kb) => s.sctp_receive_window matches Some(b) && b == kb * 1024,
                None => s.sctp_receive_window is None,
            }
        }),
{
    lemma_scaled(cfg.ice_disconnect_threshold);
    lemma_scaled(cfg.ice_disconnect_grace);
    lemma_scaled(cfg.ice_connection_timeout);
    lemma_scaled(cfg.sctp_rto_max_sec);
    lemma_scaled(cfg.sctp_rto_initial_ms);
    lemma_scaled(cfg.sctp_rto_min_ms);
}

/// Whether `r` is `n` units, or nothing where there is none.
pub open spec fn means(r: Option<Nanos>, n: Option<u64>, unit: int) -> bool {
    match n {
        Some(n) => r matches Some(v) && v == n * unit,
        None => r is None,
    }
}

proof fn lemma_scaled(n: Option<u64>)
    ensures
        means(scaled(n, SECOND), n, 1000000000),
        means(scaled(n, MILLISECOND), n, 1000000),
{
}

/// Servers that are configured are all used, in their order. Without any there is one to fall back
/// on.
pub proof fn law_configured_servers_are_used(configured: Seq<IceServerModel>)
    ensures
        configured.len() > 0 ==> servers_or_default(configured) == configured,
        configured.len() == 0 ==> servers_or_default(configured).len() == 1
            && servers_or_default(configured)[0].urls == seq!["stun:restsend.com:3478"@]
            && servers_or_default(configured)[0].username is None,
{
}

/// A value that is there is used, and only without it the other one.
pub proof fn law_defaults_give_way<T>(value: T, other: T)
    ensures
        or_else(Some(value), other) == value,
        or_else(None, other) == other,
{
}

/// A peer connection is set up with what is configured, and with the defaults for the rest. Its ICE
/// servers are those that are configured, or the default one, and then the extra ones.
pub proof fn law_peer_connection_settings(
    config: &WebRTCConfig,
    extra: Vec<IceServerConfig>,
    r: RtcSettings,
)
    requires
        call_ensures(WebRTCConfig::build_rtc_config, (config, extra), r),
    ensures
        config.ice_servers.deep_view().len() > 0 ==> r.ice_servers.deep_view()
            == config.ice_servers.deep_view() + extra.deep_view(),
        config.ice_servers.deep_view().len() == 0 ==> r.ice_servers.deep_view().len()
            == extra.deep_view().len() + 1 && r.ice_servers.deep_view().skip(1)
            == extra.deep_view(),
        config.sctp_rto_initial matches Some(v) ==> r.sctp_rto_initial == v,
        config.sctp_rto_min matches Some(v) ==> r.sctp_rto_min == v,
        config.sctp_rto_max matches Some(v) ==> r.sctp_rto_max == v,
        config.sctp_max_association_retransmits matches Some(v)
            ==> r.sctp_max_association_retransmits == v,
        config.sctp_receive_window matches Some(v) ==> r.sctp_receive_window == v,
        config.ice_connection_timeout matches Some(v) ==> r.ice_connection_timeout == v,
        config.ice_disconnect_threshold matches Some(v) ==> r.ice_disconnect_threshold == v,
        config.ice_disconnect_grace matches Some(v) ==> r.ice_disconnect_grace == v,
        r.enable_upnp == config.enable_upnp,
        config.sctp_rto_initial is None ==> r.sctp_rto_initial == 400 * 1000000,
        config.sctp_rto_min is None ==> r.sctp_rto_min == 200 * 1000000,
        config.sctp_rto_max is None ==> r.sctp_rto_max == 30 * 1000000000,
        config.sctp_max_association_retransmits is None ==> r.sctp_max_association_retransmits == 20,
        config.sctp_receive_window is None ==> r.sctp_receive_window == 2 * 1024 * 1024,
        config.ice_connection_timeout is None ==> r.ice_connection_timeout == 300 * 1000000000,
        config.ice_disconnect_threshold is None ==> r.ice_disconnect_threshold == 30 * 1000000000,
        config.ice_disconnect_grace is None ==> r.ice_disconnect_grace == 15 * 1000000000,
        r.prefer_srflx_over_natted_host && r.disable_ipv6,
{
    let own = config.ice_servers.deep_view();
    if own.len() == 0 {
        assert(r.ice_servers.deep_view().skip(1) =~= extra.deep_view());
    }
}

} // verus!
