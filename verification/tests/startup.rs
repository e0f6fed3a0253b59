use rport::acl::{Acl, IpAddr};
use rport::cli::Cli;
use rport::config::parse_forward_spec;
use rport::startup::{
    agent_name, daemon_log, daemon_log_by_mode, daemon_log_for, log_filter, names_mode, parse_target,
    plan_job, plan_job_with_rules, plan_run, plan_with_rules, select_mode, Job, Mode, ModeRequest,
    RunPlan, RunRequest,
};

fn request(allow: Option<&str>, forwards: &[&str]) -> RunRequest {
    RunRequest {
        server: Some("srv".to_string()),
        token: Some("tok".to_string()),
        id: Some("id".to_string()),
        allow: allow.map(|t| t.to_string()),
        wants_forwards: !forwards.is_empty(),
        forwards: forwards.iter().map(|f| parse_forward_spec(f).unwrap()).collect(),
    }
}

#[test]
fn targets() {
    assert_eq!(parse_target("22"), Ok(("127.0.0.1".to_string(), 22)));
    assert_eq!(parse_target("h:22"), Ok(("h".to_string(), 22)));
    assert_eq!(parse_target(":22"), Ok(("".to_string(), 22)));
    assert_eq!(parse_target("::1:22"), Ok(("::1".to_string(), 22)));
    assert_eq!(parse_target("h"), Err("invalid digit found in string".to_string()));
    assert_eq!(parse_target("h:"), Err("cannot parse integer from empty string".to_string()));
    assert_eq!(
        parse_target("h:65536"),
        Err("number too large to fit in target type".to_string())
    );
}

#[test]
fn an_agent_is_planned() {
    match plan_run(request(Some("127.0.0.0/8:22"), &[])) {
        Ok(RunPlan::Agent { server, token, id, acl }) => {
            assert_eq!((server.as_str(), token.as_str(), id.as_str()), ("srv", "tok", "id"));
            assert_eq!(acl.rules.len(), 1);
        }
        _ => panic!("Expected an agent"),
    }
    let mut unnamed = request(Some("127.0.0.0/8:22"), &[]);
    unnamed.id = None;
    match plan_run(unnamed) {
        Ok(RunPlan::Agent { id, .. }) => assert_eq!(id, "default"),
        _ => panic!("Expected an agent"),
    }
    assert_eq!(
        plan_run(request(Some("x"), &[])).unwrap_err(),
        "Invalid --allow rule: Invalid rule 'x': expected network:ports format"
    );
}

#[test]
fn a_client_is_planned() {
    match plan_run(request(None, &["1:h:2", "3:4"])) {
        Ok(RunPlan::Forward { server, token, agent_id, forwards }) => {
            assert_eq!((server.as_str(), token.as_str(), agent_id.as_str()), ("srv", "tok", "id"));
            assert_eq!(forwards.len(), 2);
        }
        _ => panic!("Expected forwards"),
    }
    match plan_run(request(None, &["h:22"])) {
        Ok(RunPlan::Proxy { agent_id, host, port, .. }) => {
            assert_eq!((agent_id.as_str(), host.as_str(), port), ("id", "h", 22));
        }
        _ => panic!("Expected a proxy"),
    }
}

#[test]
fn an_id_is_enough_for_a_proxy_command() {
    for allow in [None, Some("")] {
        match plan_run(request(allow, &[])) {
            Ok(RunPlan::Proxy { server, token, agent_id, host, port }) => {
                assert_eq!((server.as_str(), token.as_str()), ("srv", "tok"));
                assert_eq!((agent_id.as_str(), host.as_str(), port), ("id", "127.0.0.1", 22));
            }
            _ => panic!("Expected a proxy"),
        }
    }
    let mut q = mode();
    q.server = Some("s".to_string());
    q.id = Some("me".to_string());
    match select_mode(q) {
        Ok(Mode::Proxy { connect, agent_id, skip_known_hosts }) => {
            assert_eq!(connect, None);
            assert_eq!((agent_id.as_str(), skip_known_hosts), ("me", true));
        }
        other => panic!("Unexpected {:?}", other),
    }
}

#[test]
fn a_port_is_enough_for_an_agent() {
    match plan_run(request(Some("22"), &[])) {
        Ok(RunPlan::Agent { acl, .. }) => {
            assert!(acl.is_allowed(&IpAddr::V4(0x7f000001), 22));
            assert!(!acl.is_allowed(&IpAddr::V4(0x7f000001), 23));
            assert!(!acl.is_allowed(&IpAddr::V4(0x0a000001), 22));
        }
        _ => panic!("Expected an agent"),
    }
}

#[test]
fn plans_that_cannot_be() {
    let error = |r: RunRequest| plan_run(r).unwrap_err();
    let no_mode = "No mode specified.\nAgent: use -A/--allow for access control rules\nClient: use -L for forwarding specs";
    for allow in [None, Some("")] {
        let mut nobody = request(allow, &[]);
        nobody.id = None;
        assert_eq!(error(nobody), no_mode);
        let mut unread = request(allow, &[]);
        unread.wants_forwards = true;
        assert_eq!(error(unread), no_mode);
    }
    let mut no_server = request(None, &[]);
    no_server.server = None;
    assert_eq!(
        error(no_server),
        "Server address required. Use -s/--server or set 'server' in config"
    );
    let mut no_token = request(None, &[]);
    no_token.token = None;
    assert_eq!(
        error(no_token),
        "Token required. Use -k/--token or set 'token' in config"
    );
    assert_eq!(
        error(request(Some("127.0.0.0/8:22"), &["22"])),
        "Cannot specify both -A (agent) and -L (client)"
    );
    let mut no_server = request(None, &["22"]);
    no_server.server = None;
    no_server.token = None;
    assert_eq!(
        error(no_server),
        "Server address required. Use -s/--server or set 'server' in config"
    );
    let mut no_token = request(None, &["22"]);
    no_token.token = None;
    assert_eq!(
        error(no_token),
        "Token required. Use -k/--token or set 'token' in config"
    );
    let mut no_id = request(None, &["22"]);
    no_id.id = None;
    assert_eq!(error(no_id), "Agent ID required for client mode. Use -i/--id");
    assert_eq!(
        error(request(None, &["22", "1:2"])),
        "ProxyCommand mode (-L host:port) cannot be combined with other -L specs"
    );
}

#[test]
fn rules_that_were_read_before() {
    match plan_with_rules(request(Some("a"), &[]), Ok(Acl { rules: vec![] })) {
        Ok(RunPlan::Agent { acl, .. }) => assert!(acl.rules.is_empty()),
        _ => panic!("Expected an agent"),
    }
    assert_eq!(
        plan_with_rules(request(Some("a"), &[]), Err("why".to_string())).unwrap_err(),
        "Invalid --allow rule: why"
    );
    assert!(plan_with_rules(request(None, &["1:2"]), Err("why".to_string())).is_ok());
}

fn mode() -> ModeRequest {
    ModeRequest {
        server: None,
        token: Some("tok".to_string()),
        id: None,
        target: None,
        port: None,
        forwards: None,
        dtls_connect: None,
        dtls_listen: None,
        dtls_server: None,
        proxy_args: vec![],
    }
}

#[test]
fn agents_by_mode() {
    let mut q = mode();
    q.dtls_server = Some("d".to_string());
    q.dtls_listen = Some("l".to_string());
    q.target = Some("bad".to_string());
    match select_mode(q) {
        Ok(Mode::AgentViaServer { server, token, id, host, port }) => {
            assert_eq!(server, "d");
            assert_eq!(token, Some("tok".to_string()));
            assert_eq!(id, None);
            assert_eq!((host.as_str(), port), ("127.0.0.1", 22));
        }
        other => panic!("Unexpected {:?}", other),
    }
    let mut q = mode();
    q.dtls_listen = Some("l".to_string());
    q.target = Some("h:80".to_string());
    match select_mode(q) {
        Ok(Mode::AgentListen { listen, host, port, .. }) => {
            assert_eq!((listen.as_str(), host.as_str(), port), ("l", "h", 80));
        }
        other => panic!("Unexpected {:?}", other),
    }
    let mut q = mode();
    q.server = Some("s".to_string());
    q.target = Some("80".to_string());
    q.dtls_connect = Some("c".to_string());
    match select_mode(q) {
        Ok(Mode::HttpAgent { server, host, port, .. }) => {
            assert_eq!((server.as_str(), host.as_str(), port), ("s", "127.0.0.1", 80));
        }
        other => panic!("Unexpected {:?}", other),
    }
    let mut q = mode();
    q.server = Some("s".to_string());
    q.target = Some("x".to_string());
    assert_eq!(select_mode(q).unwrap_err(), "invalid digit found in string");
}

#[test]
fn clients_over_dtls_by_mode() {
    let dtls = || {
        let mut q = mode();
        q.dtls_connect = Some("c".to_string());
        q
    };
    let mut q = dtls();
    q.port = Some(5);
    match select_mode(q) {
        Ok(Mode::PortForward { connect, agent_id, port, skip_known_hosts }) => {
            assert_eq!(connect, Some("c".to_string()));
            assert_eq!((agent_id.as_str(), port, skip_known_hosts), ("default", 5, false));
        }
        other => panic!("Unexpected {:?}", other),
    }
    let mut q = dtls();
    q.port = Some(5);
    q.forwards = Some(vec!["1:2".to_string()]);
    assert!(matches!(select_mode(q), Ok(Mode::Forwards { .. })));
    let mut q = dtls();
    q.proxy_args = vec!["x".to_string()];
    q.id = Some("me".to_string());
    match select_mode(q) {
        Ok(Mode::Proxy { connect, agent_id, skip_known_hosts }) => {
            assert_eq!(connect, Some("c".to_string()));
            assert_eq!((agent_id.as_str(), skip_known_hosts), ("me", true));
        }
        other => panic!("Unexpected {:?}", other),
    }
    assert_eq!(
        select_mode(dtls()).unwrap_err(),
        "No forward targets specified. Use --forward (-L) or --port"
    );
}

#[test]
fn clients_over_http_by_mode() {
    let mut q = mode();
    q.port = Some(5);
    assert_eq!(
        select_mode(q).unwrap_err(),
        "Agent ID is required for port forwarding mode. Use --id <AGENT_ID>"
    );
    let mut q = mode();
    q.port = Some(5);
    q.id = Some("me".to_string());
    assert!(matches!(
        select_mode(q),
        Ok(Mode::PortForward { connect: None, port: 5, skip_known_hosts: true, .. })
    ));
    let mut q = mode();
    q.forwards = Some(vec![]);
    assert_eq!(
        select_mode(q).unwrap_err(),
        "Agent ID is required for ProxyCommand mode. Use --id <AGENT_ID>"
    );
    let mut q = mode();
    q.proxy_args = vec!["x".to_string()];
    q.id = Some("me".to_string());
    assert!(matches!(
        select_mode(q),
        Ok(Mode::Proxy { connect: None, skip_known_hosts: true, .. })
    ));
    assert_eq!(
        select_mode(mode()).unwrap_err(),
        "No mode specified. Use --target for agent, --port/--forward for client, --dtls-listen for DTLS agent, --dtls-server for DTLS agent via server, or --connect for DTLS client"
    );
}

#[test]
fn logs_of_daemons() {
    let file = "f.log".to_string();
    assert_eq!(daemon_log(Some(&file)), "f.log");
    assert_eq!(daemon_log(None), "rport.log");
    assert_eq!(daemon_log_by_mode(Some(&file), true, true, true, true), "f.log");
    assert_eq!(daemon_log_by_mode(None, true, true, true, true), "/tmp/rport-agent.log");
    assert_eq!(daemon_log_by_mode(None, false, false, true, true), "/tmp/rport-forward.log");
    assert_eq!(daemon_log_by_mode(None, false, true, true, true), "/tmp/rport-proxy.log");
    assert_eq!(daemon_log_by_mode(None, false, true, true, false), "/tmp/rport.log");
    assert_eq!(
        log_filter(true),
        Some("debug,hyper=warn,gather=warn,igd=warn,neli=warn,rustrtc=info")
    );
    assert_eq!(log_filter(false), None);
}

fn options() -> Cli {
    Cli {
        config: None,
        server: None,
        token: None,
        id: None,
        target: None,
        dtls_listen: None,
        dtls_cert: None,
        dtls_key: None,
        connect: None,
        dtls_server: None,
        remote: None,
        port: None,
        forward: vec![],
        allow: None,
        no_known_hosts_check: false,
        daemon: false,
        log_file: None,
        proxy_args: vec![],
        timeout: None,
        debug: false,
        upnp: false,
    }
}

fn text(t: &str) -> Option<String> {
    Some(t.to_string())
}

/// The job with the server `srv`, the token `tok` and the process 42.
fn job(change: fn(&mut Cli)) -> Result<Job, String> {
    let mut cli = options();
    change(&mut cli);
    plan_job(cli, text("srv"), text("tok"), 42)
}

/// The job with neither a server nor a token.
fn lone_job(change: fn(&mut Cli)) -> Result<Job, String> {
    let mut cli = options();
    change(&mut cli);
    plan_job(cli, None, None, 42)
}

#[test]
fn an_agent_goes_by_its_id_or_its_process() {
    assert_eq!(agent_name(text("me"), 42), "me");
    assert_eq!(agent_name(text(""), 42), "");
    assert_eq!(agent_name(None, 42), "agent-42");
    assert_eq!(agent_name(None, 0), "agent-0");
    assert_eq!(agent_name(None, u32::MAX), "agent-4294967295");
    for (id, process) in [("agent-1", 1u32), ("agent-10", 10)] {
        let mut cli = options();
        cli.target = text("80");
        match plan_job(cli, text("srv"), None, process) {
            Ok(Job::Agent { id: got, .. }) => assert_eq!(got, id),
            other => panic!("Unexpected {:?}", other),
        }
    }
}

#[test]
fn options_that_name_the_mode() {
    assert!(!names_mode(&options()));
    let mut cli = options();
    cli.forward = vec!["1:2".to_string()];
    cli.allow = text("22");
    cli.id = text("me");
    assert!(!names_mode(&cli));
    let changes: [fn(&mut Cli); 6] = [
        |c| c.target = text("22"),
        |c| c.port = Some(5),
        |c| c.connect = text("c"),
        |c| c.dtls_listen = text("l"),
        |c| c.dtls_server = text("d"),
        |c| c.proxy_args = vec!["h".to_string()],
    ];
    for change in changes {
        let mut cli = options();
        change(&mut cli);
        assert!(names_mode(&cli));
    }
}

#[test]
fn jobs_of_agents() {
    match job(|c| c.allow = text("22")) {
        Ok(Job::Agent { server, token, id, acl, fixed }) => {
            assert_eq!((server.as_str(), token.as_str(), id.as_str()), ("srv", "tok", "default"));
            assert_eq!(acl.unwrap().rules.len(), 1);
            assert_eq!(fixed, None);
        }
        other => panic!("Unexpected {:?}", other),
    }
    match job(|c| c.target = text("h:80")) {
        Ok(Job::Agent { server, token, id, acl, fixed }) => {
            assert_eq!((server.as_str(), token.as_str(), id.as_str()), ("srv", "tok", "agent-42"));
            assert!(acl.is_none());
            assert_eq!(fixed, Some(("h".to_string(), 80)));
        }
        other => panic!("Unexpected {:?}", other),
    }
    let via_server = lone_job(|c| {
        c.dtls_server = text("d");
        c.allow = text("22");
        c.id = text("me");
    });
    match via_server {
        Ok(Job::Agent { server, token, id, acl, fixed }) => {
            assert_eq!((server.as_str(), token.as_str(), id.as_str()), ("d", "", "me"));
            assert_eq!(acl.unwrap().rules.len(), 1);
            assert_eq!(fixed, Some(("127.0.0.1".to_string(), 22)));
        }
        other => panic!("Unexpected {:?}", other),
    }
    match job(|c| c.dtls_listen = text("l")) {
        Ok(Job::Listen { listen, id, acl, host, port }) => {
            assert_eq!((listen.as_str(), id.as_str()), ("l", ""));
            assert!(acl.is_none());
            assert_eq!((host.as_str(), port), ("127.0.0.1", 22));
        }
        other => panic!("Unexpected {:?}", other),
    }
}

#[test]
fn jobs_of_clients() {
    let port = job(|c| {
        c.port = Some(5);
        c.id = text("me");
    });
    match port {
        Ok(Job::Forward { server, token, agent_id, forwards, checks_host }) => {
            assert_eq!((server.as_str(), token.as_str(), agent_id.as_str()), ("srv", "tok", "me"));
            assert_eq!(forwards.len(), 1);
            assert_eq!(forwards[0].local_port, Some(5));
            assert_eq!((forwards[0].host.as_str(), forwards[0].port), ("127.0.0.1", 22));
            assert!(!checks_host);
        }
        other => panic!("Unexpected {:?}", other),
    }
    let direct = lone_job(|c| {
        c.connect = text("c");
        c.forward = vec!["bad".to_string(), "1:h:2".to_string()];
    });
    match direct {
        Ok(Job::Forward { server, token, agent_id, forwards, checks_host }) => {
            assert_eq!((server.as_str(), token.as_str(), agent_id.as_str()), ("c", "", "default"));
            assert_eq!(forwards.len(), 1);
            assert_eq!((forwards[0].local_port, forwards[0].port), (Some(1), 2));
            assert!(checks_host);
        }
        other => panic!("Unexpected {:?}", other),
    }
    let proxy = lone_job(|c| {
        c.connect = text("c");
        c.proxy_args = vec!["h".to_string()];
    });
    match proxy {
        Ok(Job::Proxy { server, token, agent_id, host, port, checks_host }) => {
            assert_eq!((server.as_str(), token.as_str(), agent_id.as_str()), ("c", "", "default"));
            assert_eq!((host.as_str(), port, checks_host), ("127.0.0.1", 22, false));
        }
        other => panic!("Unexpected {:?}", other),
    }
    // A server comes before an address to connect to.
    let both = job(|c| {
        c.connect = text("c");
        c.port = Some(5);
        c.id = text("me");
    });
    assert!(matches!(both, Ok(Job::Forward { server, .. }) if server == "srv"));
    let plain = job(|c| {
        c.id = text("me");
        c.forward = vec!["h:80".to_string()];
    });
    match plain {
        Ok(Job::Proxy { server, host, port, checks_host, .. }) => {
            assert_eq!((server.as_str(), host.as_str(), port), ("srv", "h", 80));
            assert!(!checks_host);
        }
        other => panic!("Unexpected {:?}", other),
    }
    let ports = job(|c| {
        c.id = text("me");
        c.forward = vec!["1:2".to_string(), "bad".to_string()];
    });
    assert!(matches!(ports, Ok(Job::Forward { forwards, .. }) if forwards.len() == 1));
}

#[test]
fn jobs_that_cannot_be() {
    let no_server = "Server address required. Use -s/--server or set 'server' in config";
    let changes: [fn(&mut Cli); 2] = [
        |c| {
            c.port = Some(5);
            c.id = text("me");
        },
        |c| {
            c.proxy_args = vec!["h".to_string()];
            c.id = text("me");
        },
    ];
    for change in changes {
        assert_eq!(lone_job(change).unwrap_err(), no_server);
    }
    let unread = lone_job(|c| {
        c.connect = text("c");
        c.forward = vec!["bad".to_string()];
    });
    assert_eq!(
        unread.unwrap_err(),
        "No forward targets specified. Use --forward (-L) or --port"
    );
    let rules = job(|c| {
        c.dtls_listen = text("l");
        c.allow = text("x");
    });
    assert_eq!(
        rules.unwrap_err(),
        "Invalid --allow rule: Invalid rule 'x': expected network:ports format"
    );
    assert_eq!(
        job(|c| c.target = text("x")).unwrap_err(),
        "invalid digit found in string"
    );
    assert_eq!(
        job(|_| {}).unwrap_err(),
        "No mode specified.\nAgent: use -A/--allow for access control rules\nClient: use -L for forwarding specs"
    );
}

#[test]
fn jobs_with_rules_that_were_read_before() {
    let plan = |target: bool, acl: Result<Acl, String>| {
        let mut cli = options();
        cli.allow = text("a");
        if target {
            cli.dtls_server = text("d");
        }
        plan_job_with_rules(cli, text("srv"), text("tok"), 42, acl)
    };
    for target in [false, true] {
        match plan(target, Ok(Acl { rules: vec![] })) {
            Ok(Job::Agent { acl, .. }) => assert!(acl.unwrap().rules.is_empty()),
            other => panic!("Unexpected {:?}", other),
        }
        assert_eq!(
            plan(target, Err("why".to_string())).unwrap_err(),
            "Invalid --allow rule: why"
        );
    }
    let mut cli = options();
    cli.port = Some(5);
    cli.id = text("me");
    assert!(plan_job_with_rules(cli, text("srv"), None, 42, Err("why".to_string())).is_ok());
}

#[test]
fn logs_of_daemons_by_their_options() {
    let log = |change: fn(&mut Cli)| {
        let mut cli = options();
        change(&mut cli);
        daemon_log_for(&cli)
    };
    assert_eq!(log(|_| {}), "rport.log");
    assert_eq!(log(|c| c.log_file = text("f.log")), "f.log");
    assert_eq!(log(|c| c.forward = vec!["1:2".to_string()]), "rport.log");
    assert_eq!(log(|c| c.target = text("22")), "/tmp/rport-agent.log");
    assert_eq!(log(|c| c.port = Some(5)), "/tmp/rport-forward.log");
    assert_eq!(log(|c| c.proxy_args = vec!["h".to_string()]), "/tmp/rport-proxy.log");
    assert_eq!(log(|c| c.connect = text("c")), "/tmp/rport.log");
}
