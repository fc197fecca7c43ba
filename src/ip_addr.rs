//! The unified address model: an IPv4 or IPv6 address with an optional port,
//! read from the bytes of an OS socket-address structure.
use vstd::prelude::*;
use crate::text::{dec_text, hex_text, push_char, push_decimal, push_hex};

verus! {

/// Family tag of an IPv4 socket address (Linux).
pub const AF_INET: i32 = 2;

/// Family tag of an IPv6 socket address (Linux).
pub const AF_INET6: i32 = 10;

/// Size in bytes of an IPv4 socket-address structure.
pub const SOCKADDR_IN_LEN: usize = 16;

/// Size in bytes of an IPv6 socket-address structure.
pub const SOCKADDR_IN6_LEN: usize = 28;

/// An IP address: four octets, or eight 16-bit segments, both in network order.
#[derive(Clone, Copy, Debug, PartialEq, Eq)]
pub enum IpAddr {
    V4([u8; 4]),
    V6([u16; 8]),
}

/// An IP address with an optional port.
#[derive(Clone, Copy, Debug, PartialEq, Eq)]
pub struct UnifiedIpAddr {
    pub addr: IpAddr,
    pub port: Option<u16>,
}

/// An IP address with a port: something a connection can be made to.
#[derive(Clone, Copy, Debug, PartialEq, Eq)]
pub struct SocketAddress {
    pub ip: IpAddr,
    pub port: u16,
}

/// The family tag at the start of a socket-address structure, a 16-bit value
/// in the byte order of little-endian Linux targets.
pub open spec fn family_of(b: Seq<u8>) -> int {
    b[0] as int + 256 * b[1] as int
}

/// A big-endian 16-bit value at offset `i`.
pub open spec fn be16(b: Seq<u8>, i: int) -> u16 {
    (b[i] as int * 256 + b[i + 1] as int) as u16
}

/// The address that the bytes `b` of a socket-address structure describe, if any.
pub open spec fn parse_sockaddr(b: Seq<u8>) -> Option<UnifiedIpAddr> {
    if b.len() >= 2 && family_of(b) == AF_INET && b.len() >= SOCKADDR_IN_LEN {
        Some(UnifiedIpAddr {
            addr: IpAddr::V4([b[4], b[5], b[6], b[7]]),
            port: Some(be16(b, 2)),
        })
    } else if b.len() >= 2 && family_of(b) == AF_INET6 && b.len() >= SOCKADDR_IN6_LEN {
        Some(UnifiedIpAddr {
            addr: IpAddr::V6([
                be16(b, 8), be16(b, 10), be16(b, 12), be16(b, 14),
                be16(b, 16), be16(b, 18), be16(b, 20), be16(b, 22),
            ]),
            port: Some(be16(b, 2)),
        })
    } else {
        None
    }
}

/// Dotted-decimal text of four octets.
pub open spec fn ipv4_text(o: [u8; 4]) -> Seq<char> {
    dec_text(o[0] as nat) + seq!['.'] + dec_text(o[1] as nat) + seq!['.']
        + dec_text(o[2] as nat) + seq!['.'] + dec_text(o[3] as nat)
}

/// Hexadecimal segments joined by colons.
pub open spec fn join_hex(s: Seq<u16>) -> Seq<char>
    decreases s.len(),
{
    if s.len() == 0 {
        seq![]
    } else if s.len() == 1 {
        hex_text(s[0] as nat)
    } else {
        join_hex(s.drop_last()) + seq![':'] + hex_text(s.last() as nat)
    }
}

/// After the first `n` segments: (start, length) of the first longest run of
/// zero segments, then (start, length) of the run that ends at `n`.
pub open spec fn zero_scan(s: Seq<u16>, n: nat) -> (int, int, int, int)
    decreases n,
{
    if n == 0 {
        (0, 0, 0, 0)
    } else {
        let (ls, ll, cs, cl) = zero_scan(s, (n - 1) as nat);
        if s[n - 1] == 0 {
            let ncs = if cl == 0 { n - 1 } else { cs };
            let ncl = cl + 1;
            if ncl > ll { (ncs, ncl, ncs, ncl) } else { (ls, ll, ncs, ncl) }
        } else {
            (ls, ll, 0, 0)
        }
    }
}

/// Standard text of eight IPv6 segments: an IPv4-mapped address as
/// `::ffff:a.b.c.d`; otherwise lowercase hex groups, the first longest run of
/// two or more zero groups written as `::`.
pub open spec fn ipv6_text(g: [u16; 8]) -> Seq<char> {
    let s = g@;
    if g[0] == 0 && g[1] == 0 && g[2] == 0 && g[3] == 0 && g[4] == 0 && g[5] == 0xffff {
        seq![':', ':', 'f', 'f', 'f', 'f', ':'] + ipv4_text(
            [(g[6] / 256) as u8, (g[6] % 256) as u8, (g[7] / 256) as u8, (g[7] % 256) as u8],
        )
    } else {
        let (start, len, _cs, _cl) = zero_scan(s, 8);
        if len > 1 {
            join_hex(s.subrange(0, start)) + seq![':', ':'] + join_hex(s.subrange(start + len, 8))
        } else {
            join_hex(s)
        }
    }
}

pub open spec fn ip_text(a: IpAddr) -> Seq<char> {
    match a {
        IpAddr::V4(o) => ipv4_text(o),
        IpAddr::V6(g) => ipv6_text(g),
    }
}

/// `ip` alone without a port, else `ip:port`. An IPv6 address is written
/// without brackets: the text is for people reading diagnostics.
pub open spec fn unified_text(u: UnifiedIpAddr) -> Seq<char> {
    match u.port {
        None => ip_text(u.addr),
        Some(p) => ip_text(u.addr) + seq![':'] + dec_text(p as nat),
    }
}

/// A whole IPv4 structure gives its four address bytes and its big-endian
/// port, and renders as `a.b.c.d:port`.
pub proof fn lemma_ipv4_parse_text(b: Seq<u8>)
    requires
        b.len() >= SOCKADDR_IN_LEN,
        family_of(b) == AF_INET,
    ensures
        parse_sockaddr(b) matches Some(u) && u.addr == IpAddr::V4([b[4], b[5], b[6], b[7]])
            && u.port == Some(be16(b, 2)) && unified_text(u) == ipv4_text([b[4], b[5], b[6], b[7]])
            + seq![':'] + dec_text((b[2] as int * 256 + b[3] as int) as nat),
{
}

/// A whole IPv6 structure gives its eight big-endian segments and its
/// big-endian port, and renders as the segments' text, `:`, and the port.
pub proof fn lemma_ipv6_parse_text(b: Seq<u8>)
    requires
        b.len() >= SOCKADDR_IN6_LEN,
        family_of(b) == AF_INET6,
    ensures
        parse_sockaddr(b) matches Some(u) && u.addr == IpAddr::V6([
            be16(b, 8), be16(b, 10), be16(b, 12), be16(b, 14),
            be16(b, 16), be16(b, 18), be16(b, 20), be16(b, 22),
        ]) && u.port == Some(be16(b, 2)) && unified_text(u) == ipv6_text([
            be16(b, 8), be16(b, 10), be16(b, 12), be16(b, 14),
            be16(b, 16), be16(b, 18), be16(b, 20), be16(b, 22),
        ]) + seq![':'] + dec_text((b[2] as int * 256 + b[3] as int) as nat),
{
}

/// Any family tag other than IPv4 or IPv6, like a null structure, gives no value.
pub proof fn lemma_unknown_family(b: Seq<u8>)
    requires
        b.len() >= 2 ==> family_of(b) != AF_INET && family_of(b) != AF_INET6,
    ensures
        parse_sockaddr(b) is None,
{
}

fn read_be16(b: &[u8], i: usize) -> (r: u16)
    requires
        i + 1 < b@.len(),
    ensures
        r == be16(b@, i as int),
{
    (b[i] as u16) * 256 + (b[i + 1] as u16)
}

fn push_ipv4(s: &mut String, o: [u8; 4])
    ensures
        final(s)@ == old(s)@ + ipv4_text(o),
{
    push_decimal(s, o[0] as u16);
    push_char(s, '.');
    push_decimal(s, o[1] as u16);
    push_char(s, '.');
    push_decimal(s, o[2] as u16);
    push_char(s, '.');
    push_decimal(s, o[3] as u16);
    assert(s@ =~= old(s)@ + ipv4_text(o));
}

/// Appends segments `g[lo..hi]` joined by colons.
fn push_joined(s: &mut String, g: &[u16; 8], lo: usize, hi: usize)
    requires
        lo <= hi <= 8,
    ensures
        final(s)@ == old(s)@ + join_hex(g@.subrange(lo as int, hi as int)),
{
    let mut i: usize = lo;
    while i < hi
        invariant
            lo <= i <= hi <= 8,
            s@ == old(s)@ + join_hex(g@.subrange(lo as int, i as int)),
        decreases hi - i,
    {
        if i > lo {
            push_char(s, ':');
        }
        push_hex(s, g[i]);
        proof {
            let t = g@.subrange(lo as int, i + 1);
            assert(t.drop_last() =~= g@.subrange(lo as int, i as int));
            if i == lo {
                assert(g@.subrange(lo as int, i as int) =~= Seq::<u16>::empty());
            }
        }
        i = i + 1;
    }
}

fn push_ipv6(s: &mut String, g: [u16; 8])
    ensures
        final(s)@ == old(s)@ + ipv6_text(g),
{
    if g[0] == 0 && g[1] == 0 && g[2] == 0 && g[3] == 0 && g[4] == 0 && g[5] == 0xffff {
        push_char(s, ':');
        push_char(s, ':');
        push_char(s, 'f');
        push_char(s, 'f');
        push_char(s, 'f');
        push_char(s, 'f');
        push_char(s, ':');
        let o: [u8; 4] = [(g[6] / 256) as u8, (g[6] % 256) as u8, (g[7] / 256) as u8, (g[7] % 256) as u8];
        push_ipv4(s, o);
        assert(s@ =~= old(s)@ + ipv6_text(g));
    } else {
        let mut longest_start: usize = 0;
        let mut longest_len: usize = 0;
        let mut cur_start: usize = 0;
        let mut cur_len: usize = 0;
        let mut i: usize = 0;
        while i < 8
            invariant
                0 <= i <= 8,
                zero_scan(g@, i as nat) == (
                    longest_start as int,
                    longest_len as int,
                    cur_start as int,
                    cur_len as int,
                ),
                longest_start + longest_len <= i,
                cur_start + cur_len <= i,
            decreases 8 - i,
        {
            if g[i] == 0 {
                if cur_len == 0 {
                    cur_start = i;
                }
                cur_len = cur_len + 1;
                if cur_len > longest_len {
                    longest_start = cur_start;
                    longest_len = cur_len;
                }
            } else {
                cur_start = 0;
                cur_len = 0;
            }
            i = i + 1;
        }
        if longest_len > 1 {
            push_joined(s, &g, 0, longest_start);
            push_char(s, ':');
            push_char(s, ':');
            push_joined(s, &g, longest_start + longest_len, 8);
            assert(s@ =~= old(s)@ + ipv6_text(g));
        } else {
            push_joined(s, &g, 0, 8);
            assert(g@.subrange(0, 8) =~= g@);
        }
    }
}

impl IpAddr {
    /// The standard text form of the address.
    pub fn to_text(&self) -> (r: String)
        ensures
            r@ == ip_text(*self),
    {
        let mut s = String::new();
        match *self {
            IpAddr::V4(o) => push_ipv4(&mut s, o),
            IpAddr::V6(g) => push_ipv6(&mut s, g),
        }
        s
    }
}

impl UnifiedIpAddr {
    /// Reads a socket-address structure given as its bytes. Only an IPv4 or
    /// IPv6 family tag, with the whole structure present, gives a value.
    pub fn from_sockaddr(b: &[u8]) -> (r: Option<UnifiedIpAddr>)
        ensures
            r == parse_sockaddr(b@),
    {
        if b.len() < 2 {
            return None;
        }
        let family: i32 = b[0] as i32 + 256 * (b[1] as i32);
        if family == AF_INET && b.len() >= SOCKADDR_IN_LEN {
            let port = read_be16(b, 2);
            Some(UnifiedIpAddr { addr: IpAddr::V4([b[4], b[5], b[6], b[7]]), port: Some(port) })
        } else if family == AF_INET6 && b.len() >= SOCKADDR_IN6_LEN {
            let port = read_be16(b, 2);
            let g: [u16; 8] = [
                read_be16(b, 8), read_be16(b, 10), read_be16(b, 12), read_be16(b, 14),
                read_be16(b, 16), read_be16(b, 18), read_be16(b, 20), read_be16(b, 22),
            ];
            Some(UnifiedIpAddr { addr: IpAddr::V6(g), port: Some(port) })
        } else {
            None
        }
    }

    /// Like `from_sockaddr`, where `None` stands for a null structure.
    pub fn from_sockaddr_ptr(b: Option<&[u8]>) -> (r: Option<UnifiedIpAddr>)
        ensures
            r == match b {
                None => None,
                Some(b) => parse_sockaddr(b@),
            },
    {
        match b {
            None => None,
            Some(b) => UnifiedIpAddr::from_sockaddr(b),
        }
    }

    /// `ip` alone if there is no port, else `ip:port`.
    pub fn to_text(&self) -> (r: String)
        ensures
            r@ == unified_text(*self),
    {
        let mut s = self.addr.to_text();
        match self.port {
            None => {},
            Some(p) => {
                push_char(&mut s, ':');
                push_decimal(&mut s, p);
            },
        }
        s
    }

    /// The socket address, which exists only when there is a port.
    pub fn to_socket_address(&self) -> (r: Result<SocketAddress, ()>)
        ensures
            match self.port {
                Some(p) => r == Ok::<SocketAddress, ()>(SocketAddress { ip: self.addr, port: p }),
                None => r is Err,
            },
    {
        match self.port {
            Some(p) => Ok(SocketAddress { ip: self.addr, port: p }),
            None => Err(()),
        }
    }

    /// Equality over address and port.
    pub fn eq(&self, other: &UnifiedIpAddr) -> (r: bool)
        ensures
            r == (self.addr == other.addr && self.port == other.port),
    {
        let same_addr = match (self.addr, other.addr) {
            (IpAddr::V4(a), IpAddr::V4(b)) => a[0] == b[0] && a[1] == b[1] && a[2] == b[2] && a[3] == b[3],
            (IpAddr::V6(a), IpAddr::V6(b)) => {
                let mut i: usize = 0;
                let mut same = true;
                while i < 8
                    invariant
                        0 <= i <= 8,
                        same == (forall|k: int| 0 <= k < i ==> a[k] == b[k]),
                    decreases 8 - i,
                {
                    if a[i] != b[i] {
                        same = false;
                    }
                    i = i + 1;
                }
                proof {
                    if same {
                        assert(a =~= b);
                    }
                }
                same
            },
            _ => false,
        };
        let same_port = match (self.port, other.port) {
            (None, None) => true,
            (Some(p), Some(q)) => p == q,
            _ => false,
        };
        proof {
            if same_addr {
                match (self.addr, other.addr) {
                    (IpAddr::V4(a), IpAddr::V4(b)) => { assert(a =~= b); },
                    _ => {},
                }
            }
        }
        same_addr && same_port
    }
}

} // verus!
