use net_monitor::ip_addr::{IpAddr, UnifiedIpAddr, AF_INET, AF_INET6};
use net_monitor::printable_cstring::PrintableCString;
use net_monitor::text::{push_decimal, push_hex};

fn sockaddr_in(port: u16, ip: [u8; 4]) -> Vec<u8> {
    let fam = (AF_INET as u16).to_ne_bytes();
    let p = port.to_be_bytes();
    let mut b = vec![fam[0], fam[1], p[0], p[1], ip[0], ip[1], ip[2], ip[3]];
    b.extend_from_slice(&[0u8; 8]);
    b
}

fn sockaddr_in6(port: u16, segs: [u16; 8]) -> Vec<u8> {
    let fam = (AF_INET6 as u16).to_ne_bytes();
    let p = port.to_be_bytes();
    let mut b = vec![fam[0], fam[1], p[0], p[1], 0, 0, 0, 0];
    for s in segs.iter() {
        b.extend_from_slice(&s.to_be_bytes());
    }
    b.extend_from_slice(&[0u8; 4]);
    b
}

fn text_of(segs: [u16; 8]) -> String {
    UnifiedIpAddr { addr: IpAddr::V6(segs), port: None }.to_text()
}

#[test]
fn ipv4_parses_and_renders_with_port() {
    let b = sockaddr_in(443, [93, 184, 216, 34]);
    let u = UnifiedIpAddr::from_sockaddr(&b).unwrap();
    assert_eq!(u.addr, IpAddr::V4([93, 184, 216, 34]));
    assert_eq!(u.port, Some(443));
    assert_eq!(u.to_text(), "93.184.216.34:443");
    assert_eq!(u.addr.to_text(), "93.184.216.34");
}

#[test]
fn ipv4_extreme_values() {
    let b = sockaddr_in(65535, [255, 0, 10, 1]);
    let u = UnifiedIpAddr::from_sockaddr(&b).unwrap();
    assert_eq!(u.to_text(), "255.0.10.1:65535");
    let b = sockaddr_in(0, [0, 0, 0, 0]);
    assert_eq!(UnifiedIpAddr::from_sockaddr(&b).unwrap().to_text(), "0.0.0.0:0");
}

#[test]
fn ipv6_parses_and_renders_with_port() {
    let segs = [0x2606, 0x2800, 0x220, 0x1, 0x248, 0x1893, 0x25c8, 0x1946];
    let b = sockaddr_in6(8080, segs);
    let u = UnifiedIpAddr::from_sockaddr(&b).unwrap();
    assert_eq!(u.addr, IpAddr::V6(segs));
    assert_eq!(u.port, Some(8080));
    assert_eq!(u.to_text(), "2606:2800:220:1:248:1893:25c8:1946:8080");
}

#[test]
fn ipv6_standard_text() {
    let cases: [([u16; 8], &str); 8] = [
        ([0, 0, 0, 0, 0, 0, 0, 1], "::1"),
        ([0, 0, 0, 0, 0, 0, 0, 0], "::"),
        ([0x2001, 0xdb8, 0, 0, 1, 0, 0, 1], "2001:db8::1:0:0:1"),
        ([0x2001, 0xdb8, 0, 0, 0, 1, 0, 0], "2001:db8::1:0:0"),
        ([0x2001, 0xdb8, 1, 0, 1, 1, 1, 1], "2001:db8:1:0:1:1:1:1"),
        ([0xfe80, 0, 0, 0, 0x1ff, 0xfe23, 0x4567, 0x890a], "fe80::1ff:fe23:4567:890a"),
        ([0, 0, 0, 0, 0, 0xffff, 0xc000, 0x0280], "::ffff:192.0.2.128"),
        ([0, 0, 0, 0, 0, 0, 0xc000, 0x0280], "::c000:280"),
    ];
    for (segs, expected) in cases.iter() {
        assert_eq!(text_of(*segs), *expected);
    }
}

#[test]
fn ipv4_standard_text() {
    let cases: [([u8; 4], &str); 3] = [
        ([1, 2, 3, 4], "1.2.3.4"),
        ([10, 0, 0, 255], "10.0.0.255"),
        ([127, 0, 0, 1], "127.0.0.1"),
    ];
    for (ip, expected) in cases.iter() {
        let u = UnifiedIpAddr { addr: IpAddr::V4(*ip), port: None };
        assert_eq!(u.to_text(), *expected);
    }
}

#[test]
fn unknown_family_gives_nothing() {
    let mut b = sockaddr_in(80, [1, 2, 3, 4]);
    b[0] = 1;
    b[1] = 0;
    assert!(UnifiedIpAddr::from_sockaddr(&b).is_none());
    b[0] = 0xff;
    b[1] = 0xff;
    assert!(UnifiedIpAddr::from_sockaddr(&b).is_none());
}

#[test]
fn null_or_short_structure_gives_nothing() {
    assert!(UnifiedIpAddr::from_sockaddr_ptr(None).is_none());
    let b = sockaddr_in(80, [1, 2, 3, 4]);
    assert!(UnifiedIpAddr::from_sockaddr(&b[..8]).is_none());
    assert!(UnifiedIpAddr::from_sockaddr(&[]).is_none());
    let b6 = sockaddr_in6(80, [1, 0, 0, 0, 0, 0, 0, 1]);
    assert!(UnifiedIpAddr::from_sockaddr(&b6[..16]).is_none());
    assert!(UnifiedIpAddr::from_sockaddr_ptr(Some(&b)).is_some());
}

#[test]
fn socket_address_needs_a_port() {
    let u = UnifiedIpAddr { addr: IpAddr::V4([1, 2, 3, 4]), port: Some(80) };
    let s = u.to_socket_address().unwrap();
    assert_eq!(s.ip, IpAddr::V4([1, 2, 3, 4]));
    assert_eq!(s.port, 80);
    let bare = UnifiedIpAddr { addr: IpAddr::V4([1, 2, 3, 4]), port: None };
    assert!(bare.to_socket_address().is_err());
    assert_eq!(bare.to_text(), "1.2.3.4");
}

#[test]
fn equality_over_ip_and_port() {
    let a = UnifiedIpAddr { addr: IpAddr::V4([1, 2, 3, 4]), port: Some(80) };
    let b = UnifiedIpAddr { addr: IpAddr::V4([1, 2, 3, 4]), port: Some(80) };
    let c = UnifiedIpAddr { addr: IpAddr::V4([1, 2, 3, 4]), port: None };
    let d = UnifiedIpAddr { addr: IpAddr::V6([0, 0, 0, 0, 0, 0, 0, 1]), port: Some(80) };
    let e = UnifiedIpAddr { addr: IpAddr::V6([0, 0, 0, 0, 0, 0, 0, 2]), port: Some(80) };
    assert!(a.eq(&b));
    assert!(!a.eq(&c));
    assert!(!a.eq(&d));
    assert!(d.eq(&d));
    assert!(!d.eq(&e));
}

#[test]
fn number_text() {
    let mut s = String::from("x");
    push_decimal(&mut s, 0);
    push_decimal(&mut s, 65535);
    assert_eq!(s, "x065535");
    let mut h = String::new();
    push_hex(&mut h, 0xbeef);
    push_hex(&mut h, 0);
    assert_eq!(h, "beef0");
}

#[test]
fn printable_cstring_escapes() {
    let p = PrintableCString::from(Some(&b"example.com"[..]));
    assert_eq!(p.to_text(), "example.com");
    let q = PrintableCString::from(Some(&[b'a', 0x0a, 0xff, b'~', 0x1f][..]));
    assert_eq!(q.to_text(), "a!\\x0a!\\xff~!\\x1f");
    assert_eq!(PrintableCString::from(None).to_text(), "");
    assert_eq!(PrintableCString::from(Some(&[][..])).to_text(), "");
}

#[test]
fn family_tags_match_the_platform() {
    assert_eq!(AF_INET, libc::AF_INET);
    assert_eq!(AF_INET6, libc::AF_INET6);
    assert_eq!((libc::AF_INET as libc::sa_family_t).to_ne_bytes(), [2, 0]);
    assert_eq!((libc::AF_INET6 as libc::sa_family_t).to_ne_bytes(), [10, 0]);
    assert_eq!(net_monitor::ip_addr::SOCKADDR_IN_LEN, std::mem::size_of::<libc::sockaddr_in>());
    assert_eq!(net_monitor::ip_addr::SOCKADDR_IN6_LEN, std::mem::size_of::<libc::sockaddr_in6>());
}
