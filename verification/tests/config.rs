use rport::cli::Cli;
use rport::config::{parse_forward_spec, parse_forwards, ForwardMapping, IceServerConfig, RportConfig};
use rport::webrtc_config::{WebRTCConfig, MILLISECOND, SECOND};

fn cli() -> Cli {
    Cli {
        config: None,
        server: None,
        token: None,
        id: None,
        target: None,
        dtls_listen: None,
        dtls_cert: None,
        dtls_key: None,
        connect: None,
        dtls_server: None,
        remote: None,
        port: None,
        forward: vec![],
        allow: None,
        no_known_hosts_check: false,
        daemon: false,
        log_file: None,
        proxy_args: vec![],
        timeout: None,
        debug: false,
        upnp: false,
    }
}

fn forward(f: ForwardMapping) -> (Option<u16>, String, u16) {
    (f.local_port, f.host, f.port)
}

#[test]
fn forward_specifications() {
    let read = |s: &str| parse_forward_spec(s).map(forward);
    assert_eq!(read("22"), Ok((None, "127.0.0.1".to_string(), 22)));
    assert_eq!(read("8080:22"), Ok((Some(8080), "127.0.0.1".to_string(), 22)));
    assert_eq!(read("host:22"), Ok((None, "host".to_string(), 22)));
    assert_eq!(read("8080:host:22"), Ok((Some(8080), "host".to_string(), 22)));
    assert_eq!(read(":22"), Ok((None, "".to_string(), 22)));
    assert_eq!(read("70000:22"), Ok((None, "70000".to_string(), 22)));
    assert_eq!(read("1::2"), Ok((Some(1), "".to_string(), 2)));
}

#[test]
fn bad_forward_specifications() {
    let error = |s: &str| parse_forward_spec(s).unwrap_err();
    assert_eq!(error(""), "cannot parse integer from empty string");
    assert_eq!(error("host"), "invalid digit found in string");
    assert_eq!(error("host:x"), "invalid digit found in string");
    assert_eq!(error("1:99999"), "number too large to fit in target type");
    assert_eq!(error("x:host:22"), "invalid digit found in string");
    assert_eq!(error("1:host:"), "cannot parse integer from empty string");
    assert_eq!(
        error("1:2:3:4"),
        "Invalid -L format: 1:2:3:4. Use port, host:port, local_port:port, or local_port:host:port"
    );
}

#[test]
fn a_forward_without_local_port_is_a_proxy_command() {
    assert!(parse_forward_spec("22").unwrap().is_proxy_command());
    assert!(!parse_forward_spec("1:22").unwrap().is_proxy_command());
}

#[test]
fn defaults() {
    let c = RportConfig::default();
    assert_eq!(c.connect_timeout, Some(30));
    assert_eq!(c.upnp, Some(true));
    assert_eq!(c.server, None);
    assert_eq!(c.token, None);
    assert!(c.ice_servers.is_none());
    assert_eq!(c.log_file, None);
    assert_eq!(c.sctp_receive_window_kb, None);
    let i = IceServerConfig::default();
    assert_eq!(i.urls, vec!["stun:restsend.com:3478".to_string()]);
    assert_eq!(i.username, None);
    assert_eq!(i.credential, None);
}

#[test]
fn a_file_that_is_not_there_gives_the_defaults() {
    assert_eq!(RportConfig::load_from_file(None).unwrap().connect_timeout, Some(30));
    let mut c = RportConfig::default();
    c.connect_timeout = Some(5);
    assert_eq!(RportConfig::load_from_file(Some(Ok(c))).unwrap().connect_timeout, Some(5));
    assert_eq!(
        RportConfig::load_from_file(Some(Err("bad".to_string()))).unwrap_err(),
        "bad"
    );
}

#[test]
fn the_command_line_overrides_the_file() {
    let mut c = RportConfig::default();
    c.server = Some("file".to_string());
    c.token = Some("file-token".to_string());
    c.log_file = Some("file.log".to_string());
    let mut asked = cli();
    asked.server = Some("cli".to_string());
    asked.timeout = Some(7);
    asked.forward = vec!["22".to_string(), "bad".to_string(), "1:h:2".to_string()];
    asked.upnp = true;
    let forwards = c.merge_with_cli(asked);
    assert_eq!(c.server, Some("cli".to_string()));
    assert_eq!(c.token, Some("file-token".to_string()));
    assert_eq!(c.log_file, Some("file.log".to_string()));
    assert_eq!(c.connect_timeout, Some(7));
    assert_eq!(c.upnp, Some(true));
    assert_eq!(forwards.len(), 2);
    assert_eq!(forwards[1].host, "h");

    let mut other = cli();
    other.token = Some("cli-token".to_string());
    other.log_file = Some("cli.log".to_string());
    let none = c.merge_with_cli(other);
    assert!(none.is_empty());
    assert_eq!(c.server, Some("cli".to_string()));
    assert_eq!(c.token, Some("cli-token".to_string()));
    assert_eq!(c.log_file, Some("cli.log".to_string()));
    assert_eq!(c.upnp, Some(true));
}

#[test]
fn upnp_is_left_as_configured() {
    for configured in [None, Some(false), Some(true)] {
        let mut c = RportConfig::default();
        c.upnp = configured;
        let _ = c.merge_with_cli(cli());
        assert_eq!(c.upnp, configured);
        let mut asked = cli();
        asked.upnp = true;
        let _ = c.merge_with_cli(asked);
        assert_eq!(c.upnp, Some(true));
    }
    let mut c = RportConfig::default();
    assert_eq!(c.upnp, Some(true));
    let _ = c.merge_with_cli(cli());
    assert_eq!(c.upnp, Some(true));
}

#[test]
fn webrtc_settings_have_defaults() {
    let w = WebRTCConfig::new(
        "s".to_string(),
        "t".to_string(),
        vec![],
        true,
        &RportConfig::default(),
    );
    let s = w.build_rtc_config(vec![]);
    assert_eq!(s.sctp_rto_initial, 400 * MILLISECOND);
    assert_eq!(s.sctp_rto_min, 200 * MILLISECOND);
    assert_eq!(s.sctp_rto_max, 30 * SECOND);
    assert_eq!(s.sctp_max_association_retransmits, 20);
    assert_eq!(s.sctp_receive_window, 2 * 1024 * 1024);
    assert_eq!(s.ice_connection_timeout, 300 * SECOND);
    assert_eq!(s.ice_disconnect_threshold, 30 * SECOND);
    assert_eq!(s.ice_disconnect_grace, 15 * SECOND);
    assert!(s.enable_upnp);
    assert!(s.prefer_srflx_over_natted_host);
    assert!(s.disable_ipv6);
    assert_eq!(s.ice_servers.len(), 1);
    assert_eq!(s.ice_servers[0].urls, vec!["stun:restsend.com:3478".to_string()]);
}

#[test]
fn webrtc_settings_follow_the_file() {
    let mut c = RportConfig::default();
    c.ice_disconnect_threshold = Some(31);
    c.ice_disconnect_grace = Some(16);
    c.ice_connection_timeout = Some(301);
    c.sctp_rto_initial_ms = Some(401);
    c.sctp_rto_min_ms = Some(201);
    c.sctp_rto_max_sec = Some(u64::MAX);
    c.sctp_max_association_retransmits = Some(21);
    c.sctp_receive_window_kb = Some(3);
    let own = IceServerConfig {
        urls: vec!["stun:own".to_string()],
        username: Some("u".to_string()),
        credential: Some("c".to_string()),
    };
    let extra = IceServerConfig {
        urls: vec!["turn:extra".to_string()],
        username: None,
        credential: None,
    };
    let w = WebRTCConfig::new("s".to_string(), "t".to_string(), vec![own], false, &c).clone();
    let s = w.build_rtc_config(vec![extra]);
    assert_eq!(s.ice_disconnect_threshold, 31 * SECOND);
    assert_eq!(s.ice_disconnect_grace, 16 * SECOND);
    assert_eq!(s.ice_connection_timeout, 301 * SECOND);
    assert_eq!(s.sctp_rto_initial, 401 * MILLISECOND);
    assert_eq!(s.sctp_rto_min, 201 * MILLISECOND);
    assert_eq!(s.sctp_rto_max, u64::MAX as u128 * SECOND);
    assert_eq!(s.sctp_max_association_retransmits, 21);
    assert_eq!(s.sctp_receive_window, 3072);
    assert!(!s.enable_upnp);
    assert_eq!(s.ice_servers.len(), 2);
    assert_eq!(s.ice_servers[0].urls, vec!["stun:own".to_string()]);
    assert_eq!(s.ice_servers[0].username, Some("u".to_string()));
    assert_eq!(s.ice_servers[1].urls, vec!["turn:extra".to_string()]);
}

#[test]
fn forwardings_that_cannot_be_read_are_left_out() {
    let texts = ["1:h:2", "x", "22", "3:4"].map(|t| t.to_string()).to_vec();
    let got: Vec<_> = parse_forwards(&texts).into_iter().map(forward).collect();
    assert_eq!(
        got,
        vec![
            (Some(1), "h".to_string(), 2),
            (None, "127.0.0.1".to_string(), 22),
            (Some(3), "127.0.0.1".to_string(), 4),
        ]
    );
    assert!(parse_forwards(&vec![]).is_empty());
}
