//! What can be asked for on the command line.
use vstd::prelude::*;

verus! {

/// The command line of `rport`. Paths are held as text.
#[derive(Debug)]
pub struct Cli {
    /// Configuration file path
    pub config: Option<String>,
    /// Server address
    pub server: Option<String>,
    /// Authentication token
    pub token: Option<String>,
    /// Agent ID
    pub id: Option<String>,
    /// Target address for agent mode, as in `127.0.0.1:22` or just `22`
    pub target: Option<String>,
    /// DTLS listen address for agent mode
    pub dtls_listen: Option<String>,
    /// DTLS certificate path
    pub dtls_cert: Option<String>,
    /// DTLS private key path
    pub dtls_key: Option<String>,
    /// Agent DTLS address to connect to
    pub connect: Option<String>,
    /// DTLS server address for the agent to connect to
    pub dtls_server: Option<String>,
    /// Remote target for client mode
    pub remote: Option<String>,
    /// Local port for single-port forwarding
    pub port: Option<u16>,
    /// Forwarding specifications, as in `local_port:host:port`
    pub forward: Vec<String>,
    /// Access control rules of an agent
    pub allow: Option<String>,
    /// Skip the known-hosts fingerprint check
    pub no_known_hosts_check: bool,
    /// Run as daemon
    pub daemon: bool,
    /// Log file path
    pub log_file: Option<String>,
    /// ProxyCommand arguments
    pub proxy_args: Vec<String>,
    /// Connection timeout in seconds
    pub timeout: Option<u32>,
    /// Log verbosely
    pub debug: bool,
    /// Map ports by UPnP
    pub upnp: bool,
}

} // verus!
