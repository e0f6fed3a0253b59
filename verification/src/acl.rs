//! Access control: which networks may be reached on which ports.
//!
//! A specification is a list of rules separated by `;`. A rule is a network, a `:` and a list of
//! ports or port ranges separated by `,`, as in `127.0.0.0/8:22,80;10.0.0.0/8:3000-4000`.
use crate::text::{parse_u16, split, split_once, trim, NumberError};
use vstd::arithmetic::power2::pow2;
use vstd::prelude::*;

verus! {

/// An IP address, as a number.
#[derive(Debug, Clone, Copy, PartialEq, Eq, Structural)]
pub enum IpAddr {
    V4(u32),
    V6(u128),
}

/// An IP network: an address in it and how many leading bits its addresses share.
#[allow(inconsistent_fields)]
#[derive(Debug, Clone, Copy, PartialEq, Eq, Structural)]
pub enum IpNetwork {
    V4 { addr: u32, prefix_len: u8 },
    V6 { addr: u128, prefix_len: u8 },
}

impl IpNetwork {
    /// The prefix is no longer than an address.
    pub open spec fn wf(self) -> bool {
        match self {
            IpNetwork::V4 { prefix_len, .. } => prefix_len <= 32,
            IpNetwork::V6 { prefix_len, .. } => prefix_len <= 128,
        }
    }
}

/// Whether two addresses of `bits` bits agree in their first `prefix_len` bits.
pub open spec fn same_prefix(bits: int, prefix_len: int, a: int, b: int) -> bool {
    a / (pow2((bits - prefix_len) as nat) as int) == b / (pow2((bits - prefix_len) as nat) as int)
}

/// Whether an address lies in a network. An address of the other family never does.
pub open spec fn in_network(network: IpNetwork, ip: IpAddr) -> bool {
    match (network, ip) {
        (IpNetwork::V4 { addr, prefix_len }, IpAddr::V4(a)) => same_prefix(
            32,
            prefix_len as int,
            addr as int,
            a as int,
        ),
        (IpNetwork::V6 { addr, prefix_len }, IpAddr::V6(a)) => same_prefix(
            128,
            prefix_len as int,
            addr as int,
            a as int,
        ),
        _ => false,
    }
}

/// `ipnet::Ipv4Net::contains` for an address: whether it lies between the network and the
/// broadcast address, that is, whether it shares the prefix of the network.
#[verifier::external_body]
fn ipv4_net_contains(addr: u32, prefix_len: u8, ip: u32) -> (r: bool)
    requires
        prefix_len <= 32,
    ensures
        r == same_prefix(32, prefix_len as int, addr as int, ip as int),
{
    let host = ipnet::Ipv4Net::new_assert(ip.into(), 32).addr();
    ipnet::Ipv4Net::new_assert(addr.into(), prefix_len).contains(&host)
}

/// `ipnet::Ipv6Net::contains` for an address: whether it lies between the network and the
/// broadcast address, that is, whether it shares the prefix of the network.
#[verifier::external_body]
fn ipv6_net_contains(addr: u128, prefix_len: u8, ip: u128) -> (r: bool)
    requires
        prefix_len <= 128,
    ensures
        r == same_prefix(128, prefix_len as int, addr as int, ip as int),
{
    let host = ipnet::Ipv6Net::new_assert(ip.into(), 128).addr();
    ipnet::Ipv6Net::new_assert(addr.into(), prefix_len).contains(&host)
}

/// The network that a text stands for, by `ipnet`'s syntax, or what is wrong with the text.
pub uninterp spec fn network_syntax(s: Seq<char>) -> Result<IpNetwork, Seq<char>>;

/// `ipnet::IpNet`'s `FromStr`: the network that `text` stands for, or the message of the error.
/// Both depend on the text alone. The prefix of a network fits its family.
#[verifier::external_body]
fn parse_network(text: &str) -> (r: Result<IpNetwork, String>)
    ensures
        match r {
            Ok(n) => network_syntax(text@) == Ok::<IpNetwork, Seq<char>>(n) && n.wf(),
            Err(e) => network_syntax(text@) == Err::<IpNetwork, Seq<char>>(e@),
        },
{
    match text.parse::<ipnet::IpNet>() {
        Ok(ipnet::IpNet::V4(n)) => Ok(
            IpNetwork::V4 { addr: n.addr().into(), prefix_len: n.prefix_len() },
        ),
        Ok(ipnet::IpNet::V6(n)) => Ok(
            IpNetwork::V6 { addr: n.addr().into(), prefix_len: n.prefix_len() },
        ),
        Err(e) => Err(e.to_string()),
    }
}

/// The ports from `start` to `end`, both included.
#[derive(Debug, Clone, Copy, PartialEq, Eq, Structural)]
pub struct PortRange {
    pub start: u16,
    pub end: u16,
}

impl PortRange {
    /// Whether `port` lies in the range.
    pub open spec fn has(self, port: u16) -> bool {
        self.start <= port <= self.end
    }

    /// The range of one port.
    pub fn new(port: u16) -> (r: PortRange)
        ensures
            r == (PortRange { start: port, end: port }),
    {
        PortRange { start: port, end: port }
    }

    /// The range from `start` to `end`.
    pub fn range(start: u16, end: u16) -> (r: PortRange)
        ensures
            r == (PortRange { start, end }),
    {
        PortRange { start, end }
    }

    /// Whether `port` lies in the range.
    pub fn contains(&self, port: u16) -> (r: bool)
        ensures
            r == self.has(port),
    {
        port >= self.start && port <= self.end
    }
}

/// A network and the ports that may be reached in it.
#[derive(Debug)]
pub struct AccessRule {
    pub network: IpNetwork,
    pub ports: Vec<PortRange>,
}

/// What an [`AccessRule`] says.
#[verifier::ext_equal]
pub struct RuleModel {
    pub network: IpNetwork,
    pub ports: Seq<PortRange>,
}

impl DeepView for AccessRule {
    type V = RuleModel;

    open spec fn deep_view(&self) -> RuleModel {
        RuleModel { network: self.network, ports: self.ports@ }
    }
}

impl Clone for AccessRule {
    fn clone(&self) -> (r: AccessRule)
        ensures
            r.deep_view() == self.deep_view(),
    {
        let ports = self.ports.clone();
        assert(ports@ =~= self.ports@);
        AccessRule { network: self.network, ports }
    }
}

/// Whether one of the ranges holds `port`.
pub open spec fn some_range_has(ranges: Seq<PortRange>, port: u16) -> bool {
    exists|i: int| 0 <= i < ranges.len() && #[trigger] ranges[i].has(port)
}

impl RuleModel {
    /// Whether the rule admits `port` of `ip`.
    pub open spec fn admits(self, ip: IpAddr, port: u16) -> bool {
        in_network(self.network, ip) && some_range_has(self.ports, port)
    }
}

/// Whether one of the rules admits `port` of `ip`.
pub open spec fn some_rule_admits(rules: Seq<RuleModel>, ip: IpAddr, port: u16) -> bool {
    exists|i: int| 0 <= i < rules.len() && #[trigger] rules[i].admits(ip, port)
}

impl AccessRule {
    /// Whether the rule admits `port` of `ip`.
    pub fn matches(&self, ip: &IpAddr, port: u16) -> (r: bool)
        requires
            self.network.wf(),
        ensures
            r == self.deep_view().admits(*ip, port),
    {
        let inside = match (self.network, *ip) {
            (IpNetwork::V4 { addr, prefix_len }, IpAddr::V4(a)) => ipv4_net_contains(
                addr,
                prefix_len,
                a,
            ),
            (IpNetwork::V6 { addr, prefix_len }, IpAddr::V6(a)) => ipv6_net_contains(
                addr,
                prefix_len,
                a,
            ),
            _ => false,
        };
        if !inside {
            return false;
        }
        let mut i: usize = 0;
        while i < self.ports.len()
            invariant
                in_network(self.network, *ip),
                i <= self.ports@.len(),
                forall|j: int| 0 <= j < i ==> !(#[trigger] self.ports@[j].has(port)),
            decreases self.ports@.len() - i,
        {
            if self.ports[i].contains(port) {
                assert(self.deep_view().ports[i as int].has(port));
                return true;
            }
            i = i + 1;
        }
        false
    }
}

/// Rules of which any one is enough.
#[derive(Debug)]
pub struct Acl {
    pub rules: Vec<AccessRule>,
}

impl DeepView for Acl {
    type V = Seq<RuleModel>;

    open spec fn deep_view(&self) -> Seq<RuleModel> {
        self.rules.deep_view()
    }
}

impl Clone for Acl {
    fn clone(&self) -> (r: Acl)
        ensures
            r.deep_view() == self.deep_view(),
    {
        let rules = self.rules.clone();
        assert(rules.deep_view() =~= self.rules.deep_view());
        Acl { rules }
    }
}

impl Acl {
    /// The prefix of every network fits its family.
    pub open spec fn wf(&self) -> bool {
        forall|i: int| 0 <= i < self.rules@.len() ==> #[trigger] self.rules@[i].network.wf()
    }

    /// Whether one of the rules admits `port` of `ip`.
    pub fn is_allowed(&self, ip: &IpAddr, port: u16) -> (r: bool)
        requires
            self.wf(),
        ensures
            r == some_rule_admits(self.deep_view(), *ip, port),
    {
        let mut i: usize = 0;
        while i < self.rules.len()
            invariant
                self.wf(),
                i <= self.rules@.len(),
                forall|j: int| 0 <= j < i ==> !(#[trigger] self.deep_view()[j].admits(*ip, port)),
            decreases self.rules@.len() - i,
        {
            if self.rules[i].matches(ip, port) {
                assert(self.deep_view()[i as int].admits(*ip, port));
                return true;
            }
            i = i + 1;
        }
        false
    }
}

/// What is said of a text that is not a port.
pub open spec fn port_error(text: Seq<char>, e: NumberError) -> Seq<char> {
    "Invalid port '"@ + text + "': "@ + crate::text::number_error_text(e)
}

/// What one item of a port list means: a port, or a first and a last port around a `-`.
pub open spec fn port_item(part: Seq<char>) -> Result<PortRange, Seq<char>> {
    match crate::text::split_first(part, '-') {
        Some((first, last)) => match crate::text::number_of(first) {
            Err(e) => Err(port_error(first, e)),
            Ok(s) => match crate::text::number_of(last) {
                Err(e) => Err(port_error(last, e)),
                Ok(e) => if s > e {
                    Err("Invalid port range '"@ + part + "': start > end"@)
                } else {
                    Ok(PortRange { start: s as u16, end: e as u16 })
                },
            },
        },
        None => match crate::text::number_of(part) {
            Err(e) => Err(port_error(part, e)),
            Ok(p) => Ok(PortRange { start: p as u16, end: p as u16 }),
        },
    }
}

/// What the items of a port list mean. Blank items do not count; the first bad one decides.
pub open spec fn port_items(parts: Seq<Seq<char>>) -> Result<Seq<PortRange>, Seq<char>>
    decreases parts.len(),
{
    if parts.len() == 0 {
        Ok(Seq::empty())
    } else {
        let part = crate::text::trimmed(parts[0]);
        let rest = port_items(parts.drop_first());
        if part.len() == 0 {
            rest
        } else {
            match port_item(part) {
                Err(e) => Err(e),
                Ok(r) => put_before(seq![r], rest),
            }
        }
    }
}

/// `items` before what `rest` holds, or the error of `rest`.
pub open spec fn put_before<T>(items: Seq<T>, rest: Result<Seq<T>, Seq<char>>) -> Result<
    Seq<T>,
    Seq<char>,
> {
    match rest {
        Err(e) => Err(e),
        Ok(r) => Ok(items + r),
    }
}

/// What a port list means.
pub open spec fn ports_of(spec_text: Seq<char>) -> Result<Seq<PortRange>, Seq<char>> {
    port_items(crate::text::split_on(spec_text, ','))
}

fn port_error_text(text: &str, e: NumberError) -> (r: String)
    ensures
        r@ == port_error(text@, e),
{
    "Invalid port '".to_owned().concat(text).concat("': ").concat(e.message())
}

fn parse_port_item(part: &str) -> (r: Result<PortRange, String>)
    ensures
        match r {
            Ok(p) => port_item(part@) == Ok::<PortRange, Seq<char>>(p),
            Err(e) => port_item(part@) == Err::<PortRange, Seq<char>>(e@),
        },
{
    match split_once(part, '-') {
        Some((start, end)) => {
            let s = match parse_u16(start) {
                Ok(n) => n,
                Err(e) => return Err(port_error_text(start, e)),
            };
            let e = match parse_u16(end) {
                Ok(n) => n,
                Err(e) => return Err(port_error_text(end, e)),
            };
            if s > e {
                return Err(
                    "Invalid port range '".to_owned().concat(part).concat("': start > end"),
                );
            }
            Ok(PortRange::range(s, e))
        },
        None => match parse_u16(part) {
            Ok(p) => Ok(PortRange::new(p)),
            Err(e) => Err(port_error_text(part, e)),
        },
    }
}

/// Reads a port list.
pub fn parse_ports_spec(spec_text: &str) -> (r: Result<Vec<PortRange>, String>)
    ensures
        match r {
            Ok(v) => ports_of(spec_text@) == Ok::<Seq<PortRange>, Seq<char>>(v@),
            Err(e) => ports_of(spec_text@) == Err::<Seq<PortRange>, Seq<char>>(e@),
        },
{
    let parts = split(spec_text, ',');
    let ghost all = crate::text::split_on(spec_text@, ',');
    let mut ranges: Vec<PortRange> = Vec::new();
    let mut i: usize = 0;
    proof {
        assert(all.skip(0) =~= all);
        assert(put_before(ranges@, port_items(all)) == port_items(all)) by {
            if let Ok(x) = port_items(all) {
                assert(ranges@ + x =~= x);
            }
        }
    }
    while i < parts.len()
        invariant
            i <= parts@.len(),
            all == crate::text::split_on(spec_text@, ','),
            parts@.len() == all.len(),
            forall|k: int| 0 <= k < parts@.len() ==> #[trigger] parts@[k]@ == all[k],
            port_items(all) == put_before(ranges@, port_items(all.skip(i as int))),
        decreases parts@.len() - i,
    {
        let part = trim(parts[i]);
        let ghost done = ranges@;
        let ghost rest = all.skip(i as int);
        proof {
            assert(rest.drop_first() =~= all.skip(i + 1));
            assert(rest[0] == all[i as int]);
        }
        if part.unicode_len() > 0 {
            match parse_port_item(part) {
                Ok(range) => {
                    ranges.push(range);
                    proof {
                        if let Ok(x) = port_items(all.skip(i + 1)) {
                            assert(done + (seq![range] + x) =~= ranges@ + x);
                        }
                    }
                },
                Err(e) => return Err(e),
            }
        }
        i = i + 1;
    }
    proof {
        assert(all.skip(all.len() as int) =~= Seq::empty());
        assert(ranges@ + Seq::<PortRange>::empty() =~= ranges@);
    }
    Ok(ranges)
}

/// What a rule means, given what its network part stands for.
pub open spec fn rule_of(
    network_part: Seq<char>,
    network: Result<IpNetwork, Seq<char>>,
    ports_part: Seq<char>,
) -> Result<RuleModel, Seq<char>> {
    match network {
        Err(e) => Err("Invalid network '"@ + network_part + "': "@ + e),
        Ok(network) => match ports_of(ports_part) {
            Err(e) => Err(e),
            Ok(ports) => Ok(RuleModel { network, ports }),
        },
    }
}

/// The plain values of what a text stands for as a network.
pub open spec fn network_value(network: Result<IpNetwork, String>) -> Result<IpNetwork, Seq<char>> {
    match network {
        Ok(n) => Ok(n),
        Err(e) => Err(e@),
    }
}

/// The rule that a network and a port list make up. `network` is what `network_part` stands for.
pub fn make_rule(
    network_part: &str,
    network: Result<IpNetwork, String>,
    ports_part: &str,
) -> (r: Result<AccessRule, String>)
    ensures
        match r {
            Ok(rule) => rule_of(network_part@, network_value(network), ports_part@) == Ok::<
                RuleModel,
                Seq<char>,
            >(rule.deep_view()),
            Err(e) => rule_of(network_part@, network_value(network), ports_part@) == Err::<
                RuleModel,
                Seq<char>,
            >(e@),
        },
{
    match network {
        Err(e) => Err(
            "Invalid network '".to_owned().concat(network_part).concat("': ").concat(e.as_str()),
        ),
        Ok(network) => match parse_ports_spec(ports_part) {
            Ok(ports) => Ok(AccessRule { network, ports }),
            Err(e) => Err(e),
        },
    }
}

/// The network of this machine alone, `127.0.0.0/8`.
pub open spec fn this_machine() -> IpNetwork {
    IpNetwork::V4 { addr: 0x7f000000, prefix_len: 8 }
}

/// What a segment without a network means. Where `bare_ports` allows it, a list of ports stands for
/// these ports on this machine.
pub open spec fn bare_rule(segment: Seq<char>, bare_ports: bool) -> Result<RuleModel, Seq<char>> {
    match ports_of(segment) {
        Ok(ports) if bare_ports && ports.len() > 0 => Ok(
            RuleModel { network: this_machine(), ports },
        ),
        _ => Err("Invalid rule '"@ + segment + "': expected network:ports format"@),
    }
}

/// What a segment that is not blank means as a rule, given what texts stand for as networks.
pub open spec fn segment_rule(
    segment: Seq<char>,
    networks: spec_fn(Seq<char>) -> Result<IpNetwork, Seq<char>>,
    bare_ports: bool,
) -> Result<RuleModel, Seq<char>> {
    match crate::text::split_first(segment, ':') {
        None => bare_rule(segment, bare_ports),
        Some((network_part, ports_part)) => rule_of(
            network_part,
            networks(network_part),
            ports_part,
        ),
    }
}

/// What the segments of a specification mean. Blank ones do not count; the first bad one decides.
pub open spec fn segment_rules(
    segments: Seq<Seq<char>>,
    networks: spec_fn(Seq<char>) -> Result<IpNetwork, Seq<char>>,
    bare_ports: bool,
) -> Result<Seq<RuleModel>, Seq<char>>
    decreases segments.len(),
{
    if segments.len() == 0 {
        Ok(Seq::empty())
    } else {
        let segment = crate::text::trimmed(segments[0]);
        let rest = segment_rules(segments.drop_first(), networks, bare_ports);
        if segment.len() == 0 {
            rest
        } else {
            match segment_rule(segment, networks, bare_ports) {
                Err(e) => Err(e),
                Ok(r) => put_before(seq![r], rest),
            }
        }
    }
}

/// What a specification means, given what texts stand for as networks.
pub open spec fn rules_of(
    spec_text: Seq<char>,
    networks: spec_fn(Seq<char>) -> Result<IpNetwork, Seq<char>>,
) -> Result<Seq<RuleModel>, Seq<char>> {
    segment_rules(crate::text::split_on(spec_text, ';'), networks, false)
}

/// What the rules of an agent mean, given what texts stand for as networks. A rule may be a list of
/// ports alone.
pub open spec fn allow_rules_of(
    text: Seq<char>,
    networks: spec_fn(Seq<char>) -> Result<IpNetwork, Seq<char>>,
) -> Result<Seq<RuleModel>, Seq<char>> {
    segment_rules(crate::text::split_on(text, ';'), networks, true)
}

fn make_bare_rule(segment: &str, bare_ports: bool) -> (r: Result<AccessRule, String>)
    ensures
        match r {
            Ok(rule) => rule.network.wf() && bare_rule(segment@, bare_ports) == Ok::<
                RuleModel,
                Seq<char>,
            >(rule.deep_view()),
            Err(e) => bare_rule(segment@, bare_ports) == Err::<RuleModel, Seq<char>>(e@),
        },
{
    if bare_ports {
        if let Ok(ports) = parse_ports_spec(segment) {
            if ports.len() > 0 {
                let network = IpNetwork::V4 { addr: 0x7f000000, prefix_len: 8 };
                return Ok(AccessRule { network, ports });
            }
        }
    }
    Err("Invalid rule '".to_owned().concat(segment).concat("': expected network:ports format"))
}

fn parse_segment(segment: &str, bare_ports: bool) -> (r: Result<AccessRule, String>)
    ensures
        match r {
            Ok(rule) => rule.network.wf() && segment_rule(
                segment@,
                |s: Seq<char>| network_syntax(s),
                bare_ports,
            ) == Ok::<RuleModel, Seq<char>>(rule.deep_view()),
            Err(e) => segment_rule(segment@, |s: Seq<char>| network_syntax(s), bare_ports) == Err::<
                RuleModel,
                Seq<char>,
            >(e@),
        },
{
    match split_once(segment, ':') {
        None => make_bare_rule(segment, bare_ports),
        Some((network_part, ports_part)) => make_rule(
            network_part,
            parse_network(network_part),
            ports_part,
        ),
    }
}

/// Reads a specification. Each rule has a network and ports.
pub fn parse_acl_spec(spec_text: &str) -> (r: Result<Acl, String>)
    ensures
        match r {
            Ok(acl) => acl.wf() && rules_of(spec_text@, |s: Seq<char>| network_syntax(s)) == Ok::<
                Seq<RuleModel>,
                Seq<char>,
            >(acl.deep_view()),
            Err(e) => rules_of(spec_text@, |s: Seq<char>| network_syntax(s)) == Err::<
                Seq<RuleModel>,
                Seq<char>,
            >(e@),
        },
{
    parse_rules(spec_text, false)
}

/// Reads the rules of an agent. A rule has a network and ports, or is a list of ports alone, which
/// stands for these ports on this machine.
pub fn parse_allow_rules(text: &str) -> (r: Result<Acl, String>)
    ensures
        match r {
            Ok(acl) => acl.wf() && allow_rules_of(text@, |s: Seq<char>| network_syntax(s)) == Ok::<
                Seq<RuleModel>,
                Seq<char>,
            >(acl.deep_view()),
            Err(e) => allow_rules_of(text@, |s: Seq<char>| network_syntax(s)) == Err::<
                Seq<RuleModel>,
                Seq<char>,
            >(e@),
        },
{
    parse_rules(text, true)
}

fn parse_rules(spec_text: &str, bare_ports: bool) -> (r: Result<Acl, String>)
    ensures
        match r {
            Ok(acl) => acl.wf() && segment_rules(
                crate::text::split_on(spec_text@, ';'),
                |s: Seq<char>| network_syntax(s),
                bare_ports,
            ) == Ok::<Seq<RuleModel>, Seq<char>>(acl.deep_view()),
            Err(e) => segment_rules(
                crate::text::split_on(spec_text@, ';'),
                |s: Seq<char>| network_syntax(s),
                bare_ports,
            ) == Err::<Seq<RuleModel>, Seq<char>>(e@),
        },
{
    let segments = split(spec_text, ';');
    let ghost all = crate::text::split_on(spec_text@, ';');
    let ghost networks = |s: Seq<char>| network_syntax(s);
    let mut rules: Vec<AccessRule> = Vec::new();
    let mut i: usize = 0;
    proof {
        assert(all.skip(0) =~= all);
        assert(put_before(rules.deep_view(), segment_rules(all, networks, bare_ports)) == segment_rules(
            all,
            networks,
            bare_ports,
        )) by {
            if let Ok(x) = segment_rules(all, networks, bare_ports) {
                assert(rules.deep_view() + x =~= x);
            }
        }
    }
    while i < segments.len()
        invariant
            i <= segments@.len(),
            all == crate::text::split_on(spec_text@, ';'),
            segments@.len() == all.len(),
            forall|k: int| 0 <= k < segments@.len() ==> #[trigger] segments@[k]@ == all[k],
            networks == (|s: Seq<char>| network_syntax(s)),
            segment_rules(all, networks, bare_ports) == put_before(
                rules.deep_view(),
                segment_rules(all.skip(i as int), networks, bare_ports),
            ),
            forall|k: int| 0 <= k < rules@.len() ==> #[trigger] rules@[k].network.wf(),
        decreases segments@.len() - i,
    {
        let segment = trim(segments[i]);
        let ghost done = rules.deep_view();
        let ghost rest = all.skip(i as int);
        proof {
            assert(rest.drop_first() =~= all.skip(i + 1));
            assert(rest[0] == all[i as int]);
        }
        if segment.unicode_len() > 0 {
            match parse_segment(segment, bare_ports) {
                Ok(rule) => {
                    let ghost m = rule.deep_view();
                    rules.push(rule);
                    proof {
                        assert(rules.deep_view() =~= done.push(m));
                        if let Ok(x) = segment_rules(all.skip(i + 1), networks, bare_ports) {
                            assert(done + (seq![m] + x) =~= rules.deep_view() + x);
                        }
                    }
                },
                Err(e) => return Err(e),
            }
        }
        i = i + 1;
    }
    proof {
        assert(all.skip(all.len() as int) =~= Seq::empty());
        assert(rules.deep_view() + Seq::<RuleModel>::empty() =~= rules.deep_view());
    }
    Ok(Acl { rules })
}

/// Without rules nothing is allowed.
pub proof fn law_no_rules_allow_nothing(ip: IpAddr, port: u16)
    ensures
        !some_rule_admits(Seq::empty(), ip, port),
{
}

/// More rules never take a permission away, and give none that neither part gives.
pub proof fn law_rules_add_up(a: Seq<RuleModel>, b: Seq<RuleModel>, ip: IpAddr, port: u16)
    ensures
        some_rule_admits(a + b, ip, port) <==> some_rule_admits(a, ip, port) || some_rule_admits(
            b,
            ip,
            port,
        ),
{
    let both = a + b;
    if some_rule_admits(both, ip, port) {
        let i = choose|i: int| 0 <= i < both.len() && #[trigger] both[i].admits(ip, port);
        if i < a.len() {
            assert(a[i].admits(ip, port));
        } else {
            assert(b[i - a.len()].admits(ip, port));
        }
    }
    if some_rule_admits(a, ip, port) {
        let i = choose|i: int| 0 <= i < a.len() && #[trigger] a[i].admits(ip, port);
        assert(both[i].admits(ip, port));
    }
    if some_rule_admits(b, ip, port) {
        let i = choose|i: int| 0 <= i < b.len() && #[trigger] b[i].admits(ip, port);
        assert(both[a.len() + i].admits(ip, port));
    }
}

proof fn lemma_segments_add_up(
    a: Seq<Seq<char>>,
    b: Seq<Seq<char>>,
    networks: spec_fn(Seq<char>) -> Result<IpNetwork, Seq<char>>,
    bare_ports: bool,
)
    ensures
        segment_rules(a + b, networks, bare_ports) == match segment_rules(a, networks, bare_ports) {
            Err(e) => Err(e),
            Ok(x) => put_before(x, segment_rules(b, networks, bare_ports)),
        },
    decreases a.len(),
{
    if a.len() == 0 {
        assert(a + b =~= b);
        if let Ok(y) = segment_rules(b, networks, bare_ports) {
            assert(Seq::<RuleModel>::empty() + y =~= y);
        }
    } else {
        assert((a + b).drop_first() =~= a.drop_first() + b);
        assert((a + b)[0] == a[0]);
        lemma_segments_add_up(a.drop_first(), b, networks, bare_ports);
        if let Ok(x) = segment_rules(a.drop_first(), networks, bare_ports) {
            if let Ok(y) = segment_rules(b, networks, bare_ports) {
                if let Ok(r) = segment_rule(crate::text::trimmed(a[0]), networks, bare_ports) {
                    assert(seq![r] + (x + y) =~= (seq![r] + x) + y);
                }
            }
        }
    }
}

/// Two specifications joined by `;` mean the rules of the first and then those of the second. If
/// the first is bad, its error decides.
pub proof fn law_joined_specs(
    a: Seq<char>,
    b: Seq<char>,
    networks: spec_fn(Seq<char>) -> Result<IpNetwork, Seq<char>>,
)
    ensures
        rules_of(a + seq![';'] + b, networks) == match rules_of(a, networks) {
            Err(e) => Err(e),
            Ok(x) => put_before(x, rules_of(b, networks)),
        },
        allow_rules_of(a + seq![';'] + b, networks) == match allow_rules_of(a, networks) {
            Err(e) => Err(e),
            Ok(x) => put_before(x, allow_rules_of(b, networks)),
        },
{
    crate::text::lemma_split_joined(a, b, ';');
    let first = crate::text::split_on(a, ';');
    let second = crate::text::split_on(b, ';');
    lemma_segments_add_up(first, second, networks, false);
    lemma_segments_add_up(first, second, networks, true);
}

/// A port alone as a rule of an agent admits that port on this machine, and nothing else.
pub proof fn law_bare_port_means_this_machine(
    n: u16,
    networks: spec_fn(Seq<char>) -> Result<IpNetwork, Seq<char>>,
    ip: IpAddr,
    port: u16,
)
    ensures
        allow_rules_of(crate::text::decimal(n as nat), networks) matches Ok(rules)
            && (some_rule_admits(rules, ip, port) <==> (ip matches IpAddr::V4(a) && 0x7f000000 <= a
            <= 0x7fffffff) && port == n),
{
    lemma_this_machine(ip);
    let text = crate::text::decimal(n as nat);
    let range = PortRange { start: n, end: n };
    let rule = RuleModel { network: this_machine(), ports: seq![range] };
    crate::text::lemma_decimal_digits(n);
    crate::text::law_decimal_reads_back(n);
    crate::text::lemma_first_index_unique(text, ';', text.len() as int);
    crate::text::lemma_first_index_unique(text, ',', text.len() as int);
    crate::text::lemma_first_index_unique(text, ':', text.len() as int);
    crate::text::lemma_first_index_unique(text, '-', text.len() as int);
    assert(crate::text::trimmed(text) == text) by {
        assert(crate::text::trim_start(text) == text);
        assert(crate::text::trim_end(text) == text);
    }
    assert(seq![text].drop_first() =~= Seq::<Seq<char>>::empty());
    reveal_with_fuel(port_items, 2);
    reveal_with_fuel(segment_rules, 2);
    assert(ports_of(text) == Ok::<Seq<PortRange>, Seq<char>>(seq![range])) by {
        assert(seq![range] + Seq::<PortRange>::empty() =~= seq![range]);
    }
    assert(seq![rule] + Seq::<RuleModel>::empty() =~= seq![rule]);
    assert(seq![range][0].has(n));
    assert(allow_rules_of(text, networks) == Ok::<Seq<RuleModel>, Seq<char>>(seq![rule]));
    if in_network(this_machine(), ip) && port == n {
        assert(rule.admits(ip, port));
        assert(seq![rule][0].admits(ip, port));
    }
}

/// Every range that a port list gives has its first port no higher than its last, so each admits
/// some port.
pub proof fn law_ranges_are_ordered(spec_text: Seq<char>)
    ensures
        ports_of(spec_text) matches Ok(v) ==> forall|i: int|
            0 <= i < v.len() ==> (#[trigger] v[i]).start <= v[i].end,
{
    lemma_items_ordered(crate::text::split_on(spec_text, ','));
}

proof fn lemma_items_ordered(parts: Seq<Seq<char>>)
    ensures
        port_items(parts) matches Ok(v) ==> forall|i: int|
            0 <= i < v.len() ==> (#[trigger] v[i]).start <= v[i].end,
    decreases parts.len(),
{
    if parts.len() > 0 {
        lemma_items_ordered(parts.drop_first());
        if let Some((first, last)) = crate::text::split_first(crate::text::trimmed(parts[0]), '-') {
            crate::text::lemma_number_fits(first);
            crate::text::lemma_number_fits(last);
        }
    }
}

/// How many addresses a network holds, as a power of two.
pub open spec fn host_bits(network: IpNetwork) -> nat {
    match network {
        IpNetwork::V4 { prefix_len, .. } => (32 - prefix_len) as nat,
        IpNetwork::V6 { prefix_len, .. } => (128 - prefix_len) as nat,
    }
}

proof fn lemma_block_size(bits: nat)
    ensures
        pow2(bits) > 0,
        bits == 24 ==> pow2(bits) == 0x1000000,
        bits == 0 ==> pow2(bits) == 1,
        bits == 32 ==> pow2(bits) == 0x100000000,
{
    vstd::arithmetic::power2::lemma_pow2_pos(bits);
    vstd::arithmetic::power2::lemma2_to64();
}

proof fn lemma_same_block(a: int, b: int, size: int)
    requires
        size > 0,
    ensures
        a / size == b / size <==> a - a % size <= b < a - a % size + size,
{
    vstd::arithmetic::div_mod::lemma_fundamental_div_mod(a, size);
    vstd::arithmetic::div_mod::lemma_fundamental_div_mod(b, size);
    vstd::arithmetic::mul::lemma_mul_is_commutative(a / size, size);
    vstd::arithmetic::div_mod::lemma_mod_bound(a, size);
    vstd::arithmetic::div_mod::lemma_mod_bound(b, size);
    let base = a - a % size;
    assert(base == size * (a / size));
    assert(base == (a / size) * size);
    if base <= b < base + size {
        vstd::arithmetic::div_mod::lemma_fundamental_div_mod_converse(
            b,
            size,
            a / size,
            b - base,
        );
    }
    if a / size == b / size {
        assert(b - b % size == base);
    }
}

/// A network is a block of addresses of its own family: it starts at its address without the bits
/// behind the prefix, and has as many addresses as these bits can number.
pub proof fn law_network_is_a_block(network: IpNetwork, ip: IpAddr)
    requires
        network.wf(),
    ensures
        in_network(network, ip) <==> match (network, ip) {
            (IpNetwork::V4 { addr, .. }, IpAddr::V4(a)) => {
                let size = pow2(host_bits(network)) as int;
                addr - addr as int % size <= a < addr - addr as int % size + size
            },
            (IpNetwork::V6 { addr, .. }, IpAddr::V6(a)) => {
                let size = pow2(host_bits(network)) as int;
                addr - addr as int % size <= a < addr - addr as int % size + size
            },
            _ => false,
        },
{
    let size = pow2(host_bits(network)) as int;
    lemma_block_size(host_bits(network));
    match (network, ip) {
        (IpNetwork::V4 { addr, .. }, IpAddr::V4(a)) => {
            lemma_same_block(addr as int, a as int, size);
        },
        (IpNetwork::V6 { addr, .. }, IpAddr::V6(a)) => {
            lemma_same_block(addr as int, a as int, size);
        },
        _ => {},
    }
}

proof fn lemma_this_machine(ip: IpAddr)
    ensures
        in_network(this_machine(), ip) <==> (ip matches IpAddr::V4(a) && 0x7f000000 <= a
            <= 0x7fffffff),
{
    law_network_is_a_block(this_machine(), ip);
    lemma_block_size(24);
    assert(0x7f000000int % 0x1000000 == 0);
}

/// A network with the longest prefix holds its own address alone, and one with no prefix all
/// addresses of its family.
pub proof fn law_extreme_networks(addr: u32, a: u32)
    ensures
        in_network(IpNetwork::V4 { addr, prefix_len: 32 }, IpAddr::V4(a)) <==> a == addr,
        in_network(IpNetwork::V4 { addr, prefix_len: 0 }, IpAddr::V4(a)),
{
    lemma_block_size(0);
    lemma_block_size(32);
    vstd::arithmetic::div_mod::lemma_small_mod(addr as nat, 0x100000000);
    law_network_is_a_block(IpNetwork::V4 { addr, prefix_len: 32 }, IpAddr::V4(a));
    law_network_is_a_block(IpNetwork::V4 { addr, prefix_len: 0 }, IpAddr::V4(a));
}

/// An address and a port are allowed exactly if one rule has both: the address in its network, and
/// the port between the first and the last port of one of its ranges, both included.
pub proof fn law_allowed_means_one_rule_has_both(rules: Seq<RuleModel>, ip: IpAddr, port: u16)
    ensures
        some_rule_admits(rules, ip, port) <==> exists|i: int, j: int|
            0 <= i < rules.len() && 0 <= j < rules[i].ports.len() && in_network(
                rules[i].network,
                ip,
            ) && (#[trigger] rules[i].ports[j]).start <= port <= rules[i].ports[j].end,
{
    if some_rule_admits(rules, ip, port) {
        let i = choose|i: int| 0 <= i < rules.len() && #[trigger] rules[i].admits(ip, port);
        let j = choose|j: int| 0 <= j < rules[i].ports.len() && #[trigger] rules[i].ports[j].has(port);
        assert(rules[i].ports[j].start <= port <= rules[i].ports[j].end);
    }
    if exists|i: int, j: int|
        0 <= i < rules.len() && 0 <= j < rules[i].ports.len() && in_network(rules[i].network, ip) && (
        #[trigger] rules[i].ports[j]).start <= port <= rules[i].ports[j].end {
        let (i, j) = choose|i: int, j: int|
            0 <= i < rules.len() && 0 <= j < rules[i].ports.len() && in_network(
                rules[i].network,
                ip,
            ) && (#[trigger] rules[i].ports[j]).start <= port <= rules[i].ports[j].end;
        assert(rules[i].ports[j].has(port));
        assert(rules[i].admits(ip, port));
    }
}

/// Whether one of the ranges reaches over `port`.
pub open spec fn within_some(ranges: Seq<PortRange>, port: u16) -> bool {
    exists|i: int| 0 <= i < ranges.len() && (#[trigger] ranges[i]).start <= port <= ranges[i].end
}

proof fn lemma_plain_item(item: Seq<char>)
    requires
        item.len() > 0,
        forall|i: int| 0 <= i < item.len() ==> item[i] != ',',
        !crate::text::is_whitespace(item[0]),
        !crate::text::is_whitespace(item.last()),
    ensures
        ports_of(item) == match port_item(item) {
            Ok(r) => Ok::<Seq<PortRange>, Seq<char>>(seq![r]),
            Err(e) => Err(e),
        },
{
    crate::text::lemma_first_index_unique(item, ',', item.len() as int);
    let nothing = Seq::<char>::empty();
    crate::text::law_trim_takes_the_blanks_around(nothing, item, nothing);
    assert(nothing + item + nothing =~= item);
    assert(seq![item].drop_first() =~= Seq::<Seq<char>>::empty());
    reveal_with_fuel(port_items, 2);
    if let Ok(r) = port_item(item) {
        assert(seq![r] + Seq::<PortRange>::empty() =~= seq![r]);
    }
}

/// `a-b`, written with decimal ports, admits a port exactly if it lies between `a` and `b`, both
/// included. With `a` over `b` it is refused.
pub proof fn law_port_range_reads_back(a: u16, b: u16, port: u16)
    ensures
        ({
            let text = crate::text::decimal(a as nat) + seq!['-'] + crate::text::decimal(b as nat);
            &&& a <= b ==> (ports_of(text) matches Ok(v) && (within_some(v, port) <==> a <= port <= b))
            &&& a > b ==> ports_of(text) is Err
        }),
{
    let x = crate::text::decimal(a as nat);
    let y = crate::text::decimal(b as nat);
    let text = x + seq!['-'] + y;
    lemma_range_text(a, b);
    lemma_plain_item(text);
    crate::text::law_decimal_reads_back(a);
    crate::text::law_decimal_reads_back(b);
    if a <= b {
        let v = ports_of(text)->Ok_0;
        assert(v[0].start == a && v[0].end == b);
        if a <= port <= b {
            assert(v[0].start <= port <= v[0].end);
        }
    }
}

proof fn lemma_range_text(a: u16, b: u16)
    ensures
        ({
            let x = crate::text::decimal(a as nat);
            let y = crate::text::decimal(b as nat);
            let text = x + seq!['-'] + y;
            &&& text.len() > 0
            &&& crate::text::split_first(text, '-') == Some((x, y))
            &&& !crate::text::is_whitespace(text[0])
            &&& !crate::text::is_whitespace(text.last())
            &&& forall|i: int|
                0 <= i < text.len() ==> text[i] != ',' && text[i] != ';' && text[i] != ':'
        }),
{
    let x = crate::text::decimal(a as nat);
    let y = crate::text::decimal(b as nat);
    let text = x + seq!['-'] + y;
    crate::text::lemma_decimal_digits(a);
    crate::text::lemma_decimal_digits(b);
    assert forall|i: int| 0 <= i < text.len() implies text[i] != ',' && text[i] != ';' && text[i]
        != ':' by {
        if i < x.len() {
            assert(text[i] == x[i]);
            assert(crate::text::is_digit(x[i]));
        } else if i > x.len() {
            assert(text[i] == y[i - x.len() - 1]);
            assert(crate::text::is_digit(y[i - x.len() - 1]));
        }
    }
    assert forall|j: int| 0 <= j < x.len() implies text[j] != '-' by {
        assert(text[j] == x[j]);
        assert(crate::text::is_digit(x[j]));
    }
    crate::text::lemma_first_index_unique(text, '-', x.len() as int);
    assert(text.take(x.len() as int) =~= x);
    assert(text.skip(x.len() as int + 1) =~= y);
    assert(text[0] == x[0] && crate::text::is_digit(x[0]));
    assert(text.last() == y.last() && crate::text::is_digit(y[y.len() - 1]));
}

/// A decimal port admits itself and no other port.
pub proof fn law_single_port_reads_back(a: u16, port: u16)
    ensures
        ports_of(crate::text::decimal(a as nat)) matches Ok(v) && (within_some(v, port) <==> port
            == a),
{
    let x = crate::text::decimal(a as nat);
    crate::text::lemma_decimal_digits(a);
    crate::text::law_decimal_reads_back(a);
    assert(crate::text::is_digit(x[0]) && crate::text::is_digit(x[x.len() - 1]));
    lemma_plain_item(x);
    crate::text::lemma_first_index_unique(x, '-', x.len() as int);
    let v = ports_of(x)->Ok_0;
    assert(v[0].start == a && v[0].end == a);
}

proof fn lemma_items_add_up(a: Seq<Seq<char>>, b: Seq<Seq<char>>)
    ensures
        port_items(a + b) == match port_items(a) {
            Err(e) => Err(e),
            Ok(x) => put_before(x, port_items(b)),
        },
    decreases a.len(),
{
    if a.len() == 0 {
        assert(a + b =~= b);
        if let Ok(y) = port_items(b) {
            assert(Seq::<PortRange>::empty() + y =~= y);
        }
    } else {
        assert((a + b).drop_first() =~= a.drop_first() + b);
        assert((a + b)[0] == a[0]);
        lemma_items_add_up(a.drop_first(), b);
        if let Ok(x) = port_items(a.drop_first()) {
            if let Ok(y) = port_items(b) {
                if let Ok(r) = port_item(crate::text::trimmed(a[0])) {
                    assert(seq![r] + (x + y) =~= (seq![r] + x) + y);
                }
            }
        }
    }
}

/// Two port lists joined by `,` admit what one of them admits, and are read exactly if both are.
pub proof fn law_joined_port_lists(a: Seq<char>, b: Seq<char>, port: u16)
    ensures
        ports_of(a + seq![','] + b) is Ok <==> ports_of(a) is Ok && ports_of(b) is Ok,
        ports_of(a + seq![','] + b) matches Ok(v) ==> (within_some(v, port) <==> within_some(
            ports_of(a)->Ok_0,
            port,
        ) || within_some(ports_of(b)->Ok_0, port)),
{
    crate::text::lemma_split_joined(a, b, ',');
    lemma_items_add_up(crate::text::split_on(a, ','), crate::text::split_on(b, ','));
    if let Ok(v) = ports_of(a + seq![','] + b) {
        let x = ports_of(a)->Ok_0;
        let y = ports_of(b)->Ok_0;
        assert(v == x + y);
        if within_some(v, port) {
            let i = choose|i: int| 0 <= i < v.len() && (#[trigger] v[i]).start <= port <= v[i].end;
            if i < x.len() {
                assert(x[i].start <= port <= x[i].end);
            } else {
                assert(y[i - x.len()].start <= port <= y[i - x.len()].end);
            }
        }
        if within_some(x, port) {
            let i = choose|i: int| 0 <= i < x.len() && (#[trigger] x[i]).start <= port <= x[i].end;
            assert(v[i].start <= port <= v[i].end);
        }
        if within_some(y, port) {
            let i = choose|i: int| 0 <= i < y.len() && (#[trigger] y[i]).start <= port <= y[i].end;
            assert(v[x.len() + i].start <= port <= v[x.len() + i].end);
        }
    }
}

/// Whether `text` can stand for a network in a rule: it holds no separator, and no blank around it.
pub open spec fn is_network_text(text: Seq<char>) -> bool {
    &&& text.len() > 0
    &&& !crate::text::is_whitespace(text[0])
    &&& forall|i: int| 0 <= i < text.len() ==> text[i] != ':' && text[i] != ';'
}

/// A rule `network:first-last` allows an address and a port exactly if the address lies in the
/// network that the text stands for, and the port between the first and the last, both included.
/// It means the same in both kinds of specification.
pub proof fn law_rule_means_its_network_and_ports(
    net: Seq<char>,
    networks: spec_fn(Seq<char>) -> Result<IpNetwork, Seq<char>>,
    first: u16,
    last: u16,
    ip: IpAddr,
    port: u16,
)
    requires
        is_network_text(net),
        networks(net) is Ok,
        first <= last,
    ensures
        ({
            let text = net + seq![':'] + (crate::text::decimal(first as nat) + seq!['-']
                + crate::text::decimal(last as nat));
            let allowed = in_network(networks(net)->Ok_0, ip) && first <= port <= last;
            &&& rules_of(text, networks) matches Ok(rules) && (some_rule_admits(rules, ip, port)
                <==> allowed)
            &&& allow_rules_of(text, networks) matches Ok(rules) && (some_rule_admits(
                rules,
                ip,
                port,
            ) <==> allowed)
        }),
{
    let ports = crate::text::decimal(first as nat) + seq!['-'] + crate::text::decimal(last as nat);
    law_port_range_reads_back(first, last, port);
    lemma_range_text(first, last);
    lemma_one_rule(net, networks, ports);
    let v = ports_of(ports)->Ok_0;
    let rule = RuleModel { network: networks(net)->Ok_0, ports: v };
    assert(rules_of(net + seq![':'] + ports, networks) == Ok::<Seq<RuleModel>, Seq<char>>(
        seq![rule],
    ));
    lemma_one_rule_admits(rule, ip, port);
}

proof fn lemma_one_rule_admits(rule: RuleModel, ip: IpAddr, port: u16)
    ensures
        some_rule_admits(seq![rule], ip, port) <==> in_network(rule.network, ip) && within_some(
            rule.ports,
            port,
        ),
{
    let rules = seq![rule];
    law_allowed_means_one_rule_has_both(rules, ip, port);
    if in_network(rule.network, ip) && within_some(rule.ports, port) {
        let j = choose|j: int|
            0 <= j < rule.ports.len() && (#[trigger] rule.ports[j]).start <= port
                <= rule.ports[j].end;
        assert(rules[0].ports[j].start <= port <= rules[0].ports[j].end);
    }
    if some_rule_admits(rules, ip, port) {
        let (i, j) = choose|i: int, j: int|
            0 <= i < rules.len() && 0 <= j < rules[i].ports.len() && in_network(
                rules[i].network,
                ip,
            ) && (#[trigger] rules[i].ports[j]).start <= port <= rules[i].ports[j].end;
        assert(rule.ports[j].start <= port <= rule.ports[j].end);
    }
}

proof fn lemma_one_rule(
    net: Seq<char>,
    networks: spec_fn(Seq<char>) -> Result<IpNetwork, Seq<char>>,
    ports: Seq<char>,
)
    requires
        is_network_text(net),
        ports.len() > 0,
        !crate::text::is_whitespace(ports.last()),
        forall|i: int| 0 <= i < ports.len() ==> ports[i] != ';',
    ensures
        ({
            let text = net + seq![':'] + ports;
            let expected = match (networks(net), ports_of(ports)) {
                (Ok(network), Ok(v)) => Ok::<Seq<RuleModel>, Seq<char>>(
                    seq![RuleModel { network, ports: v }],
                ),
                (Err(e), _) => Err("Invalid network '"@ + net + "': "@ + e),
                (_, Err(e)) => Err(e),
            };
            &&& rules_of(text, networks) == expected
            &&& allow_rules_of(text, networks) == expected
        }),
{
    let text = net + seq![':'] + ports;
    assert forall|i: int| 0 <= i < text.len() implies text[i] != ';' by {
        if i < net.len() {
            assert(text[i] == net[i]);
        } else if i > net.len() {
            assert(text[i] == ports[i - net.len() - 1]);
        }
    }
    crate::text::lemma_first_index_unique(text, ';', text.len() as int);
    assert(text[0] == net[0]);
    assert(text.last() == ports.last());
    let nothing = Seq::<char>::empty();
    crate::text::law_trim_takes_the_blanks_around(nothing, text, nothing);
    assert(nothing + text + nothing =~= text);
    assert forall|i: int| 0 <= i < net.len() implies text[i] != ':' by {
        assert(text[i] == net[i]);
    }
    crate::text::lemma_first_index_unique(text, ':', net.len() as int);
    assert(text.take(net.len() as int) =~= net);
    assert(text.skip(net.len() as int + 1) =~= ports);
    assert(seq![text].drop_first() =~= Seq::<Seq<char>>::empty());
    reveal_with_fuel(segment_rules, 2);
    if let (Ok(network), Ok(v)) = (networks(net), ports_of(ports)) {
        let rule = RuleModel { network, ports: v };
        assert(seq![rule] + Seq::<RuleModel>::empty() =~= seq![rule]);
    }
}

/// A rule whose network cannot be read is refused, whatever its ports, with what is wrong with the
/// network.
pub proof fn law_bad_network_is_refused(
    net: Seq<char>,
    networks: spec_fn(Seq<char>) -> Result<IpNetwork, Seq<char>>,
    ports: Seq<char>,
)
    requires
        is_network_text(net),
        networks(net) is Err,
        ports.len() > 0,
        !crate::text::is_whitespace(ports.last()),
        forall|i: int| 0 <= i < ports.len() ==> ports[i] != ';',
    ensures
        rules_of(net + seq![':'] + ports, networks) == Err::<Seq<RuleModel>, Seq<char>>(
            "Invalid network '"@ + net + "': "@ + networks(net)->Err_0,
        ),
        allow_rules_of(net + seq![':'] + ports, networks) is Err,
{
    lemma_one_rule(net, networks, ports);
}

/// A port alone is a rule of an agent, but no rule of a specification that asks for networks.
pub proof fn law_strict_rules_need_a_network(
    n: u16,
    networks: spec_fn(Seq<char>) -> Result<IpNetwork, Seq<char>>,
)
    ensures
        rules_of(crate::text::decimal(n as nat), networks) is Err,
{
    let text = crate::text::decimal(n as nat);
    crate::text::lemma_decimal_digits(n);
    crate::text::lemma_first_index_unique(text, ';', text.len() as int);
    crate::text::lemma_first_index_unique(text, ':', text.len() as int);
    assert(crate::text::is_digit(text[0]) && crate::text::is_digit(text[text.len() - 1]));
    let nothing = Seq::<char>::empty();
    crate::text::law_trim_takes_the_blanks_around(nothing, text, nothing);
    assert(nothing + text + nothing =~= text);
    reveal_with_fuel(segment_rules, 2);
}

/// Blanks alone are no rule and no error: they allow nothing.
pub proof fn law_blanks_are_no_rule(
    blanks: Seq<char>,
    networks: spec_fn(Seq<char>) -> Result<IpNetwork, Seq<char>>,
)
    requires
        crate::text::all_blank(blanks),
    ensures
        rules_of(blanks, networks) == Ok::<Seq<RuleModel>, Seq<char>>(Seq::empty()),
        allow_rules_of(blanks, networks) == Ok::<Seq<RuleModel>, Seq<char>>(Seq::empty()),
        ports_of(blanks) == Ok::<Seq<PortRange>, Seq<char>>(Seq::empty()),
{
    let nothing = Seq::<char>::empty();
    assert forall|i: int| 0 <= i < blanks.len() implies blanks[i] != ';' && blanks[i] != ',' by {
        assert(crate::text::is_whitespace(blanks[i]));
    }
    crate::text::lemma_first_index_unique(blanks, ';', blanks.len() as int);
    crate::text::lemma_first_index_unique(blanks, ',', blanks.len() as int);
    crate::text::law_trim_takes_the_blanks_around(blanks, nothing, nothing);
    assert(blanks + nothing + nothing =~= blanks);
    assert(seq![blanks].drop_first() =~= Seq::<Seq<char>>::empty());
    reveal_with_fuel(segment_rules, 2);
    reveal_with_fuel(port_items, 2);
}

/// Blanks around a rule do not change what it means.
pub proof fn law_blanks_around_a_rule(
    before: Seq<char>,
    rule: Seq<char>,
    after: Seq<char>,
    networks: spec_fn(Seq<char>) -> Result<IpNetwork, Seq<char>>,
)
    requires
        crate::text::all_blank(before),
        crate::text::all_blank(after),
        rule.len() > 0,
        !crate::text::is_whitespace(rule[0]),
        !crate::text::is_whitespace(rule.last()),
        forall|i: int| 0 <= i < rule.len() ==> rule[i] != ';',
    ensures
        rules_of(before + rule + after, networks) == rules_of(rule, networks),
        allow_rules_of(before + rule + after, networks) == allow_rules_of(rule, networks),
{
    let text = before + rule + after;
    let nothing = Seq::<char>::empty();
    assert forall|i: int| 0 <= i < text.len() implies text[i] != ';' by {
        if i < before.len() {
            assert(text[i] == before[i] && crate::text::is_whitespace(before[i]));
        } else if i < before.len() + rule.len() {
            assert(text[i] == rule[i - before.len()]);
        } else {
            let j = i - before.len() - rule.len();
            assert(text[i] == after[j] && crate::text::is_whitespace(after[j]));
        }
    }
    crate::text::lemma_first_index_unique(text, ';', text.len() as int);
    crate::text::lemma_first_index_unique(rule, ';', rule.len() as int);
    crate::text::law_trim_takes_the_blanks_around(before, rule, after);
    crate::text::law_trim_takes_the_blanks_around(nothing, rule, nothing);
    assert(nothing + rule + nothing =~= rule);
    assert(seq![text].drop_first() =~= seq![rule].drop_first());
    reveal_with_fuel(segment_rules, 2);
}

/// What is no port number is no port, alone or at either end of a range: it is refused.
pub proof fn law_bad_ports_are_refused(a: Seq<char>, b: Seq<char>)
    requires
        a.len() > 0 && b.len() > 0,
        !crate::text::is_whitespace(a[0]) && !crate::text::is_whitespace(a.last()),
        !crate::text::is_whitespace(b.last()),
        forall|i: int| 0 <= i < a.len() ==> a[i] != ',' && a[i] != '-',
        forall|i: int| 0 <= i < b.len() ==> b[i] != ',',
    ensures
        crate::text::number_of(a) is Err ==> ports_of(a) is Err,
        crate::text::number_of(a) is Err || crate::text::number_of(b) is Err ==> ports_of(
            a + seq!['-'] + b,
        ) is Err,
{
    lemma_plain_item(a);
    crate::text::lemma_first_index_unique(a, '-', a.len() as int);
    let text = a + seq!['-'] + b;
    assert forall|i: int| 0 <= i < text.len() implies text[i] != ',' by {
        if i < a.len() {
            assert(text[i] == a[i]);
        } else if i > a.len() {
            assert(text[i] == b[i - a.len() - 1]);
        }
    }
    assert(text[0] == a[0] && text.last() == b.last());
    lemma_plain_item(text);
    assert forall|i: int| 0 <= i < a.len() implies text[i] != '-' by {
        assert(text[i] == a[i]);
    }
    crate::text::lemma_first_index_unique(text, '-', a.len() as int);
    assert(text.take(a.len() as int) =~= a);
    assert(text.skip(a.len() as int + 1) =~= b);
}

/// A rule allows what its network and its port list say together, whatever the port list. With a
/// port list that cannot be read it is refused.
pub proof fn law_rule_with_any_ports(
    net: Seq<char>,
    networks: spec_fn(Seq<char>) -> Result<IpNetwork, Seq<char>>,
    ports: Seq<char>,
    ip: IpAddr,
    port: u16,
)
    requires
        is_network_text(net),
        networks(net) is Ok,
        ports.len() > 0,
        !crate::text::is_whitespace(ports.last()),
        forall|i: int| 0 <= i < ports.len() ==> ports[i] != ';',
    ensures
        ports_of(ports) matches Ok(v) ==> (rules_of(net + seq![':'] + ports, networks) matches Ok(
            rules,
        ) && (some_rule_admits(rules, ip, port) <==> in_network(networks(net)->Ok_0, ip)
            && within_some(v, port))),
        ports_of(ports) matches Err(e) ==> rules_of(net + seq![':'] + ports, networks) == Err::<
            Seq<RuleModel>,
            Seq<char>,
        >(e),
        allow_rules_of(net + seq![':'] + ports, networks) == rules_of(
            net + seq![':'] + ports,
            networks,
        ),
{
    lemma_one_rule(net, networks, ports);
    if let Ok(v) = ports_of(ports) {
        lemma_one_rule_admits(RuleModel { network: networks(net)->Ok_0, ports: v }, ip, port);
    }
}

/// A list of ports alone as a rule of an agent admits these ports on this machine, and nothing else.
pub proof fn law_bare_ports_mean_this_machine(
    text: Seq<char>,
    networks: spec_fn(Seq<char>) -> Result<IpNetwork, Seq<char>>,
    ip: IpAddr,
    port: u16,
)
    requires
        text.len() > 0,
        !crate::text::is_whitespace(text[0]) && !crate::text::is_whitespace(text.last()),
        forall|i: int| 0 <= i < text.len() ==> text[i] != ';' && text[i] != ':',
        ports_of(text) is Ok && ports_of(text)->Ok_0.len() > 0,
    ensures
        allow_rules_of(text, networks) matches Ok(rules) && (some_rule_admits(rules, ip, port) <==> (
        ip matches IpAddr::V4(a) && 0x7f000000 <= a <= 0x7fffffff) && within_some(
            ports_of(text)->Ok_0,
            port,
        )),
{
    let v = ports_of(text)->Ok_0;
    let rule = RuleModel { network: this_machine(), ports: v };
    let nothing = Seq::<char>::empty();
    crate::text::lemma_first_index_unique(text, ';', text.len() as int);
    crate::text::lemma_first_index_unique(text, ':', text.len() as int);
    crate::text::law_trim_takes_the_blanks_around(nothing, text, nothing);
    assert(nothing + text + nothing =~= text);
    assert(seq![text].drop_first() =~= Seq::<Seq<char>>::empty());
    reveal_with_fuel(segment_rules, 2);
    assert(seq![rule] + Seq::<RuleModel>::empty() =~= seq![rule]);
    assert(allow_rules_of(text, networks) == Ok::<Seq<RuleModel>, Seq<char>>(seq![rule]));
    lemma_one_rule_admits(rule, ip, port);
    lemma_this_machine(ip);
}

/// What rules were read from a text decides alone what they allow: the whole way from the text of a
/// rule to the answer for an address and a port.
pub proof fn law_rules_from_their_text(
    acl: &Acl,
    ip: &IpAddr,
    port: u16,
    allowed: bool,
    text: &str,
    read: Result<Acl, String>,
)
    requires
        call_ensures(parse_acl_spec, (text,), read),
        read == Ok::<Acl, String>(*acl),
        call_ensures(Acl::is_allowed, (acl, ip, port), allowed),
    ensures
        rules_of(text@, |s: Seq<char>| network_syntax(s)) matches Ok(rules) && (allowed
            <==> exists|i: int, j: int|
            0 <= i < rules.len() && 0 <= j < rules[i].ports.len() && in_network(
                rules[i].network,
                *ip,
            ) && (#[trigger] rules[i].ports[j]).start <= port <= rules[i].ports[j].end),
{
    law_allowed_means_one_rule_has_both(acl.deep_view(), *ip, port);
}

} // verus!
