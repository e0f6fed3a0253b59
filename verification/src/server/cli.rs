//! What can be asked for on the command line of the server.
use vstd::prelude::*;

verus! {

/// The command line of `rport-server`.
#[derive(Debug)]
pub struct ServerCli {
    /// HTTP server bind address
    pub addr: String,
    /// DTLS server bind address
    pub dtls_addr: Option<String>,
    /// DTLS certificate path
    pub dtls_cert: Option<String>,
    /// DTLS private key path
    pub dtls_key: Option<String>,
    /// Disable TURN server
    pub disable_turn: bool,
    /// TURN server bind address
    pub turn_addr: Option<String>,
    /// Public IP address for TURN server
    pub public_ip: Option<String>,
    /// Enable debug logging
    pub debug: bool,
}

} // verus!
