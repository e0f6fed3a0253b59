//! What the server starts with: its own address, and where TURN listens.
use crate::acl::IpAddr;
use crate::text::{split, split_on};
use vstd::prelude::*;

verus! {

/// An address of a network interface.
#[derive(Debug, Clone, Copy, PartialEq, Eq, Structural)]
pub struct Interface {
    pub loopback: bool,
    pub addr: IpAddr,
}

/// Whether an interface is a candidate for the address of the server.
pub open spec fn is_public_v4(i: Interface) -> bool {
    !i.loopback && i.addr is V4
}

/// The first IPv4 address that is not a loopback address.
pub fn get_first_non_loopback_interface(interfaces: &Vec<Interface>) -> (r: Result<
    IpAddr,
    &'static str,
>)
    ensures
        match r {
            Ok(ip) => exists|i: int|
                {
                    &&& 0 <= i < interfaces@.len()
                    &&& #[trigger] is_public_v4(interfaces@[i])
                    &&& interfaces@[i].addr == ip
                    &&& forall|j: int| 0 <= j < i ==> !is_public_v4(interfaces@[j])
                },
            Err(e) => e@ == "No IPV4 interface found"@ && forall|i: int|
                0 <= i < interfaces@.len() ==> !is_public_v4(interfaces@[i]),
        },
{
    let mut i: usize = 0;
    while i < interfaces.len()
        invariant
            i <= interfaces@.len(),
            forall|j: int| 0 <= j < i ==> !is_public_v4(interfaces@[j]),
        decreases interfaces@.len() - i,
    {
        if !interfaces[i].loopback {
            if let IpAddr::V4(_) = interfaces[i].addr {
                assert(is_public_v4(interfaces@[i as int]));
                return Ok(interfaces[i].addr);
            }
        }
        i = i + 1;
    }
    Err("No IPV4 interface found")
}

/// Whether an address stands for any address.
pub open spec fn is_unspecified(ip: IpAddr) -> bool {
    ip == IpAddr::V4(0) || ip == IpAddr::V6(0)
}

/// The address of the server, if the address that it binds says it: `parsed` is the IP address at
/// the head of the bind address, if there is one. `None` means that an interface has to be found.
pub fn bound_ip(parsed: Option<IpAddr>) -> (r: Option<IpAddr>)
    ensures
        r == match parsed {
            Some(ip) => if is_unspecified(ip) {
                None
            } else {
                Some(ip)
            },
            None => None,
        },
{
    match parsed {
        Some(ip) => if ip == IpAddr::V4(0) || ip == IpAddr::V6(0) {
            None
        } else {
            Some(ip)
        },
        None => None,
    }
}

/// What stands before the first `:` of the bind address.
pub fn bind_host(addr: &str) -> (r: &str)
    ensures
        r@ == split_on(addr@, ':')[0],
{
    let parts = split(addr, ':');
    parts[0]
}

/// The port that is shown for the bind address: what stands between its first and second `:`, or
/// `3000`.
pub fn shown_port(addr: &str) -> (r: &str)
    ensures
        r@ == (if split_on(addr@, ':').len() > 1 {
            split_on(addr@, ':')[1]
        } else {
            "3000"@
        }),
{
    let parts = split(addr, ':');
    if parts.len() > 1 {
        parts[1]
    } else {
        "3000"
    }
}

/// Where TURN listens: the address that was asked for, or a fixed port of the server's own address.
pub fn turn_address(turn_addr: Option<String>, ip: &str) -> (r: String)
    ensures
        r@ == match turn_addr {
            Some(a) => a@,
            None => ip@ + ":13478"@,
        },
{
    match turn_addr {
        Some(a) => a,
        None => ip.to_owned().concat(":13478"),
    }
}

/// The log filter of the server, if it is not left to the environment.
pub fn log_filter(debug: bool) -> (r: Option<&'static str>)
    ensures
        match r {
            Some(f) => debug && f@
                == "debug,hyper=warn,gather=warn,igd=warn,neli=warn,rustls_platform_verifier=warn"@,
            None => !debug,
        },
{
    if debug {
        Some("debug,hyper=warn,gather=warn,igd=warn,neli=warn,rustls_platform_verifier=warn")
    } else {
        None
    }
}

/// The address of the server is the first IPv4 address that is not a loopback address: it is among
/// the interfaces, and none before it would do. There is none exactly if no interface would do.
pub proof fn law_first_public_interface(
    interfaces: &Vec<Interface>,
    r: Result<IpAddr, &'static str>,
    i: int,
)
    requires
        call_ensures(get_first_non_loopback_interface, (interfaces,), r),
        0 <= i < interfaces@.len(),
        !interfaces@[i].loopback && interfaces@[i].addr is V4,
        forall|j: int|
            0 <= j < i ==> (#[trigger] interfaces@[j]).loopback || interfaces@[j].addr is V6,
    ensures
        r == Ok::<IpAddr, &'static str>(interfaces@[i].addr),
{
    assert(is_public_v4(interfaces@[i]));
    assert(r is Ok);
    let k = choose|k: int|
        {
            &&& 0 <= k < interfaces@.len()
            &&& #[trigger] is_public_v4(interfaces@[k])
            &&& interfaces@[k].addr == r->Ok_0
            &&& forall|j: int| 0 <= j < k ==> !is_public_v4(interfaces@[j])
        };
    if k < i {
        assert(interfaces@[k].loopback || interfaces@[k].addr is V6);
    }
}

/// An address that is bound is the address of the server, unless it stands for any address.
pub proof fn law_bound_address(parsed: Option<IpAddr>, r: Option<IpAddr>)
    requires
        call_ensures(bound_ip, (parsed,), r),
    ensures
        r is Some ==> r == parsed,
        r is None <==> parsed is None || parsed == Some(IpAddr::V4(0)) || parsed == Some(
            IpAddr::V6(0),
        ),
{
}

/// `host:port` is bound at that host and shown with that port.
pub proof fn law_bind_address_parts(
    addr: &str,
    host: Seq<char>,
    port: Seq<char>,
    bound: &str,
    shown: &str,
)
    requires
        forall|i: int| 0 <= i < host.len() ==> host[i] != ':',
        forall|i: int| 0 <= i < port.len() ==> port[i] != ':',
        addr@ == host + seq![':'] + port,
        call_ensures(bind_host, (addr,), bound),
        call_ensures(shown_port, (addr,), shown),
    ensures
        bound@ == host,
        shown@ == port,
{
    crate::text::lemma_first_index_unique(host, ':', host.len() as int);
    crate::text::lemma_first_index_unique(port, ':', port.len() as int);
    crate::text::lemma_split_joined(host, port, ':');
    assert(split_on(addr@, ':') =~= seq![host, port]);
}

/// TURN listens where it was asked to, and otherwise on its own port of the address of the server.
pub proof fn law_turn_listens_where_asked(turn_addr: Option<String>, ip: &str, r: String)
    requires
        call_ensures(turn_address, (turn_addr, ip), r),
    ensures
        turn_addr is Some ==> r@ == turn_addr->Some_0@,
        turn_addr is None ==> r@ == ip@ + ":13478"@,
{
}

} // verus!
