//! The bookkeeping done around each genuine socket call: what is tracked after
//! a socket is created, resolved, connected and closed.
use vstd::prelude::*;
use crate::addr_response::{AddrResponse, yielded};
use crate::ip_addr::{AF_INET, AF_INET6, UnifiedIpAddr, ip_text, parse_sockaddr, unified_text};
use crate::monitored_sockets::{self, MonitoredSockets, added, addressed};
use crate::resolved_addresses::{self, ResolvedAddresses, lookup};

verus! {

/// Text recorded for a connect target that is not an IPv4 or IPv6 address.
pub open spec fn not_ip_text() -> Seq<char> {
    seq!['(', 'n', 'o', 't', ' ', 'I', 'P', 'v', '4', '/', 'I', 'P', 'v', '6', ')']
}

/// Whether a socket created in `domain`, with result `rv`, is tracked.
pub open spec fn tracks(domain: i32, rv: i32) -> bool {
    rv >= 0 && (domain == AF_INET || domain == AF_INET6)
}

/// The resolution table after recording `node` for the IP of each address.
pub open spec fn recorded(
    m: Map<Seq<char>, Seq<char>>,
    node: Seq<char>,
    addrs: Seq<UnifiedIpAddr>,
) -> Map<Seq<char>, Seq<char>>
    decreases addrs.len(),
{
    if addrs.len() == 0 {
        m
    } else {
        recorded(m, node, addrs.drop_last()).insert(ip_text(addrs.last().addr), node)
    }
}

/// Every address of a successful resolution maps to the name resolved.
pub proof fn lemma_recorded_maps_node(
    m: Map<Seq<char>, Seq<char>>,
    node: Seq<char>,
    addrs: Seq<UnifiedIpAddr>,
    i: int,
)
    requires
        0 <= i < addrs.len(),
    ensures
        lookup(recorded(m, node, addrs), ip_text(addrs[i].addr)) == node,
    decreases addrs.len(),
{
    if i < addrs.len() - 1 {
        lemma_recorded_maps_node(m, node, addrs.drop_last(), i);
    }
}

/// What a connect call is about: the text recorded for its target and the
/// hostname that target's IP was resolved from.
pub struct ConnectTarget {
    pub addr_text: String,
    pub node: String,
}

/// After the genuine `socket` call returned `rv`: tracks the new descriptor
/// when the call succeeded in an IPv4 or IPv6 domain. Returns whether it did.
pub fn on_socket(sockets: &mut MonitoredSockets, domain: i32, rv: i32) -> (now_tracked: bool)
    ensures
        now_tracked == tracks(domain, rv),
        final(sockets)@ == if now_tracked {
            added(old(sockets)@, rv)
        } else {
            old(sockets)@
        },
{
    if rv >= 0 && (domain == AF_INET || domain == AF_INET6) {
        monitored_sockets::add(sockets, rv);
        true
    } else {
        false
    }
}

/// Before the genuine `connect` call: reads the target structure (`None` for
/// a null one) and looks up the hostname of its IP.
pub fn connect_target(resolved: &ResolvedAddresses, addr: Option<&[u8]>) -> (r: ConnectTarget)
    requires
        resolved.wf(),
    ensures
        match addr {
            Some(b) if parse_sockaddr(b@) is Some => {
                let u = parse_sockaddr(b@)->0;
                &&& r.addr_text@ == unified_text(u)
                &&& r.node@ == lookup(resolved@, ip_text(u.addr))
            },
            _ => r.addr_text@ == not_ip_text() && r.node@ == lookup(resolved@, not_ip_text()),
        },
{
    match UnifiedIpAddr::from_sockaddr_ptr(addr) {
        Some(u) => {
            let ip = u.addr.to_text();
            let node = resolved_addresses::get_node_by_ip(resolved, ip.as_str());
            ConnectTarget { addr_text: u.to_text(), node }
        },
        None => {
            let t = "(not IPv4/IPv6)".to_owned();
            proof {
                reveal_strlit("(not IPv4/IPv6)");
                assert(t@ =~= not_ip_text());
            }
            let node = resolved_addresses::get_node_by_ip(resolved, t.as_str());
            ConnectTarget { addr_text: t, node }
        },
    }
}

/// After the genuine `connect` call: records the target's text for `fd`,
/// where `fd` is tracked.
pub fn on_connect(sockets: &mut MonitoredSockets, fd: i32, target: &ConnectTarget)
    ensures
        final(sockets)@ == addressed(old(sockets)@, fd, target.addr_text@),
{
    monitored_sockets::set_socket_addr(sockets, fd, target.addr_text.as_str());
}

/// After the genuine `getaddrinfo` call returned `rv` with the result list
/// `response` (`None` for a null one): on success records `node` for the IP
/// of each address the list yields, and returns how many; on failure records
/// nothing.
pub fn on_getaddrinfo(
    resolved: &mut ResolvedAddresses,
    node: &str,
    rv: i32,
    response: Option<AddrResponse>,
) -> (count: usize)
    requires
        old(resolved).wf(),
        response matches Some(a) ==> a.wf(),
    ensures
        final(resolved).wf(),
        match response {
            Some(a) if rv == 0 => {
                &&& final(resolved)@ == recorded(old(resolved)@, node@, yielded(a.remaining()))
                &&& count == yielded(a.remaining()).len()
            },
            _ => final(resolved)@ == old(resolved)@ && count == 0,
        },
{
    if rv != 0 {
        return 0;
    }
    match response {
        None => 0,
        Some(mut a) => {
            let addrs = a.collect_addresses();
            let mut i: usize = 0;
            while i < addrs.len()
                invariant
                    0 <= i <= addrs@.len(),
                    resolved.wf(),
                    resolved@ == recorded(old(resolved)@, node@, addrs@.subrange(0, i as int)),
                decreases addrs@.len() - i,
            {
                let ip = addrs[i].addr.to_text();
                resolved_addresses::add(resolved, node, ip.as_str());
                assert(addrs@.subrange(0, i + 1).drop_last() =~= addrs@.subrange(0, i as int));
                i = i + 1;
            }
            assert(addrs@.subrange(0, addrs@.len() as int) =~= addrs@);
            i
        },
    }
}

/// After the genuine `close` call: stops tracking `fd`. Returns whether it
/// was tracked.
pub fn on_close(sockets: &mut MonitoredSockets, fd: i32) -> (was_tracked: bool)
    ensures
        was_tracked == old(sockets)@.contains_key(fd),
        final(sockets)@ == old(sockets)@.remove(fd),
{
    if monitored_sockets::contains(sockets, fd) {
        monitored_sockets::remove(sockets, fd);
        true
    } else {
        monitored_sockets::remove(sockets, fd);
        false
    }
}

} // verus!
