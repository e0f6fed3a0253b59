use rport::acl::{
    make_rule, parse_acl_spec, parse_allow_rules, parse_ports_spec, AccessRule, Acl, IpAddr, IpNetwork, PortRange,
};

fn ip(text: &str) -> IpAddr {
    let mut n: u32 = 0;
    for part in text.split('.') {
        n = n * 256 + part.parse::<u32>().unwrap();
    }
    IpAddr::V4(n)
}

#[test]
fn test_acl_simple() {
    let acl = parse_acl_spec("127.0.0.0/8:22,80,443").unwrap();
    assert!(acl.is_allowed(&ip("127.0.0.1"), 22));
    assert!(acl.is_allowed(&ip("127.0.0.1"), 80));
    assert!(!acl.is_allowed(&ip("127.0.0.1"), 8080));
    assert!(!acl.is_allowed(&ip("10.0.0.1"), 22));
}

#[test]
fn test_acl_multi_range() {
    let acl = parse_acl_spec("10.0.0.0/8:3000-4000,5432").unwrap();
    assert!(acl.is_allowed(&ip("10.0.0.5"), 3500));
    assert!(acl.is_allowed(&ip("10.0.0.5"), 5432));
    assert!(!acl.is_allowed(&ip("10.0.0.5"), 6379));
    assert!(!acl.is_allowed(&ip("192.168.1.1"), 3500));
}

#[test]
fn test_acl_multi_rule() {
    let acl = parse_acl_spec("127.0.0.0/8:22;10.0.0.0/8:3000-4000").unwrap();
    assert!(acl.is_allowed(&ip("127.0.0.1"), 22));
    assert!(acl.is_allowed(&ip("10.0.0.5"), 3500));
    assert!(!acl.is_allowed(&ip("192.168.1.1"), 22));
}

#[test]
fn port_ranges_hold_both_ends() {
    let r = PortRange::range(10, 12);
    assert!(!r.contains(9));
    assert!(r.contains(10));
    assert!(r.contains(12));
    assert!(!r.contains(13));
    let one = PortRange::new(7);
    assert!(one.contains(7));
    assert!(!one.contains(6));
    assert!(!one.contains(8));
}

#[test]
fn networks_are_read_with_their_prefix() {
    let acl = parse_acl_spec("172.16.123.123/16:1").unwrap();
    assert_eq!(
        acl.rules[0].network,
        IpNetwork::V4 { addr: 0xac107b7b, prefix_len: 16 }
    );
    assert!(acl.is_allowed(&ip("172.16.0.0"), 1));
    assert!(acl.is_allowed(&ip("172.16.255.255"), 1));
    assert!(!acl.is_allowed(&ip("172.17.0.0"), 1));
    assert!(!acl.is_allowed(&ip("172.15.255.255"), 1));
}

#[test]
fn widest_and_narrowest_networks() {
    let all = parse_acl_spec("1.2.3.4/0:5").unwrap();
    assert!(all.is_allowed(&ip("0.0.0.0"), 5));
    assert!(all.is_allowed(&ip("255.255.255.255"), 5));
    let one = parse_acl_spec("1.2.3.4/32:5").unwrap();
    assert!(one.is_allowed(&ip("1.2.3.4"), 5));
    assert!(!one.is_allowed(&ip("1.2.3.5"), 5));
}

#[test]
fn families_do_not_mix() {
    let v4 = Acl {
        rules: vec![AccessRule {
            network: IpNetwork::V4 { addr: 0, prefix_len: 0 },
            ports: vec![PortRange::range(0, 65535)],
        }],
    };
    let v6 = Acl {
        rules: vec![AccessRule {
            network: IpNetwork::V6 { addr: 0xfe80u128 << 112, prefix_len: 10 },
            ports: vec![PortRange::range(0, 65535)],
        }],
    };
    assert!(v4.is_allowed(&IpAddr::V4(1), 1));
    assert!(!v4.is_allowed(&IpAddr::V6(1), 1));
    assert!(v6.is_allowed(&IpAddr::V6((0xfe80u128 << 112) + 1), 1));
    assert!(v6.is_allowed(&IpAddr::V6(0xfebfu128 << 112), 1));
    assert!(!v6.is_allowed(&IpAddr::V6(0xfec0u128 << 112), 1));
    assert!(!v6.is_allowed(&IpAddr::V4(0), 1));
}

#[test]
fn a_rule_is_split_at_its_first_colon() {
    // An IPv6 network holds colons itself, so it cannot be written in a rule.
    assert_eq!(
        parse_acl_spec("fe80::/10:22").unwrap_err(),
        "Invalid network 'fe80': invalid IP address syntax"
    );
}

#[test]
fn blanks_do_not_count() {
    let acl = parse_acl_spec(" ; 127.0.0.0/8: 22 , ,80 ;; ").unwrap();
    assert_eq!(acl.rules.len(), 1);
    assert_eq!(acl.rules[0].ports.len(), 2);
    assert_eq!(parse_acl_spec("").unwrap().rules.len(), 0);
    assert_eq!(parse_ports_spec("").unwrap().len(), 0);
}

#[test]
fn every_error_of_a_specification() {
    assert_eq!(
        parse_acl_spec("127.0.0.0/8").unwrap_err(),
        "Invalid rule '127.0.0.0/8': expected network:ports format"
    );
    assert_eq!(
        parse_acl_spec("nonsense:22").unwrap_err(),
        "Invalid network 'nonsense': invalid IP address syntax"
    );
    assert_eq!(
        parse_acl_spec("127.0.0.0/33:22").unwrap_err(),
        "Invalid network '127.0.0.0/33': invalid IP address syntax"
    );
    assert_eq!(
        parse_ports_spec("x").unwrap_err(),
        "Invalid port 'x': invalid digit found in string"
    );
    assert_eq!(
        parse_ports_spec("65536").unwrap_err(),
        "Invalid port '65536': number too large to fit in target type"
    );
    assert_eq!(
        parse_ports_spec("-5").unwrap_err(),
        "Invalid port '': cannot parse integer from empty string"
    );
    assert_eq!(
        parse_ports_spec("5-a").unwrap_err(),
        "Invalid port 'a': invalid digit found in string"
    );
    assert_eq!(
        parse_ports_spec("9-8").unwrap_err(),
        "Invalid port range '9-8': start > end"
    );
}

#[test]
fn the_first_bad_part_decides() {
    assert_eq!(
        parse_acl_spec("127.0.0.0/8:x;nonsense").unwrap_err(),
        "Invalid port 'x': invalid digit found in string"
    );
}

#[test]
fn a_rule_from_a_network_that_was_read() {
    let n = IpNetwork::V4 { addr: 0x7f000000, prefix_len: 8 };
    let rule = make_rule("127.0.0.0/8", Ok(n), "22-23").unwrap();
    assert_eq!(rule.network, n);
    assert_eq!(rule.ports, vec![PortRange::range(22, 23)]);
    assert!(rule.matches(&ip("127.1.2.3"), 23));
    assert!(!rule.matches(&ip("127.1.2.3"), 24));
    assert_eq!(
        make_rule("n", Err("why".to_string()), "22").unwrap_err(),
        "Invalid network 'n': why"
    );
}

#[test]
fn joined_specifications_mean_both() {
    let both = parse_acl_spec("127.0.0.0/8:22;10.0.0.0/8:80").unwrap();
    let a = parse_acl_spec("127.0.0.0/8:22").unwrap();
    let b = parse_acl_spec("10.0.0.0/8:80").unwrap();
    for address in ["127.0.0.1", "10.0.0.1", "9.9.9.9"] {
        for port in [22u16, 80, 81] {
            let i = ip(address);
            assert_eq!(
                both.is_allowed(&i, port),
                a.is_allowed(&i, port) || b.is_allowed(&i, port)
            );
        }
    }
    assert!(!Acl { rules: vec![] }.is_allowed(&ip("127.0.0.1"), 22));
}

#[test]
fn a_copy_allows_the_same() {
    let acl = parse_acl_spec("127.0.0.0/8:22").unwrap();
    let copy = acl.clone();
    assert!(copy.is_allowed(&ip("127.0.0.1"), 22));
    assert!(!copy.is_allowed(&ip("127.0.0.1"), 23));
}

#[test]
fn ports_alone_are_ports_of_this_machine() {
    let acl = parse_allow_rules("22").unwrap();
    assert_eq!(acl.rules.len(), 1);
    assert!(acl.is_allowed(&ip("127.0.0.1"), 22));
    assert!(acl.is_allowed(&ip("127.9.9.9"), 22));
    assert!(!acl.is_allowed(&ip("127.0.0.1"), 23));
    assert!(!acl.is_allowed(&ip("128.0.0.1"), 22));
    assert!(!acl.is_allowed(&IpAddr::V6(1), 22));
    let more = parse_allow_rules(" 22, 80-90 ; 10.0.0.0/8:5").unwrap();
    assert!(more.is_allowed(&ip("127.0.0.1"), 85));
    assert!(more.is_allowed(&ip("10.1.2.3"), 5));
    assert!(!more.is_allowed(&ip("10.1.2.3"), 22));
}

#[test]
fn rules_that_are_neither() {
    for text in ["x", ",", "90-80", "65536"] {
        let expected = format!("Invalid rule '{}': expected network:ports format", text);
        assert_eq!(parse_allow_rules(text).unwrap_err(), expected);
    }
    assert_eq!(
        parse_acl_spec("22").unwrap_err(),
        "Invalid rule '22': expected network:ports format"
    );
    assert_eq!(
        parse_allow_rules("127.0.0.1:x").unwrap_err(),
        parse_acl_spec("127.0.0.1:x").unwrap_err()
    );
    assert!(parse_allow_rules("").unwrap().rules.is_empty());
}
