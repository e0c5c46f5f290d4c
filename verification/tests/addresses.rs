use dns_json::ip::{ip_to_string, parse_ip, parse_server_address, IpAddress};
use dns_json::reverse::reverse_name;

fn unwrap_v4(ip: &IpAddress) -> (u8, u8, u8, u8) {
    match ip {
        IpAddress::V4(v4) => (v4.a, v4.b, v4.c, v4.d),
        IpAddress::V6(_) => panic!("expected an IPv4 address"),
    }
}

fn unwrap_v6(ip: &IpAddress) -> Vec<u16> {
    match ip {
        IpAddress::V4(_) => panic!("expected an IPv6 address"),
        IpAddress::V6(v6) => v6.groups.clone(),
    }
}

#[test]
fn server_bare_ipv4_defaults_to_port_53() {
    let ep = parse_server_address("1.1.1.1").expect("should parse");
    assert_eq!(unwrap_v4(&ep.ip), (1, 1, 1, 1));
    assert_eq!(ep.port, 53);
}

#[test]
fn server_ipv4_with_port() {
    let ep = parse_server_address("1.1.1.1:53").expect("should parse");
    assert_eq!(unwrap_v4(&ep.ip), (1, 1, 1, 1));
    assert_eq!(ep.port, 53);
}

#[test]
fn server_ipv4_with_other_port() {
    let ep = parse_server_address("8.8.8.8:5353").expect("should parse");
    assert_eq!(unwrap_v4(&ep.ip), (8, 8, 8, 8));
    assert_eq!(ep.port, 5353);
}

#[test]
fn server_bracketed_ipv6_with_port() {
    let ep = parse_server_address("[::1]:53").expect("should parse");
    assert_eq!(unwrap_v6(&ep.ip), vec![0, 0, 0, 0, 0, 0, 0, 1]);
    assert_eq!(ep.port, 53);
}

#[test]
fn server_bare_ipv6_defaults_to_port_53() {
    let ep = parse_server_address("2001:db8::1").expect("should parse");
    assert_eq!(unwrap_v6(&ep.ip), vec![0x2001, 0x0db8, 0, 0, 0, 0, 0, 1]);
    assert_eq!(ep.port, 53);
}

#[test]
fn server_rejects_non_ip() {
    assert!(parse_server_address("not-an-ip").is_none());
}

#[test]
fn server_rejects_hostnames_and_garbage() {
    assert!(parse_server_address("dns.example.com").is_none());
    assert!(parse_server_address("").is_none());
    assert!(parse_server_address("1.1.1.1:").is_none());
    assert!(parse_server_address("1.1.1.1:70000").is_none());
    assert!(parse_server_address("[::1]").is_none());
    assert!(parse_server_address("[::1]53").is_none());
}

#[test]
fn ip_literal_ipv4() {
    let ip = parse_ip("192.0.2.5").expect("should parse");
    assert_eq!(unwrap_v4(&ip), (192, 0, 2, 5));
}

#[test]
fn ip_literal_rejects_octet_overflow_and_leading_zero() {
    assert!(parse_ip("256.1.1.1").is_none());
    assert!(parse_ip("01.2.3.4").is_none());
    assert!(parse_ip("1.2.3").is_none());
    assert!(parse_ip("1.2.3.4.5").is_none());
}

#[test]
fn ip_literal_ipv6_forms() {
    assert_eq!(
        unwrap_v6(&parse_ip("1:2:3:4:5:6:7:8").expect("full form")),
        vec![1, 2, 3, 4, 5, 6, 7, 8]
    );
    assert_eq!(
        unwrap_v6(&parse_ip("2001:db8::1").expect("compressed")),
        vec![0x2001, 0x0db8, 0, 0, 0, 0, 0, 1]
    );
    assert_eq!(unwrap_v6(&parse_ip("::").expect("all zero")), vec![0, 0, 0, 0, 0, 0, 0, 0]);
    assert_eq!(
        unwrap_v6(&parse_ip("::ffff:1.2.3.4").expect("embedded v4")),
        vec![0, 0, 0, 0, 0, 0xffff, 0x0102, 0x0304]
    );
    assert_eq!(
        unwrap_v6(&parse_ip("1:2::").expect("trailing run")),
        vec![1, 2, 0, 0, 0, 0, 0, 0]
    );
}

#[test]
fn ip_literal_rejects_bad_ipv6() {
    assert!(parse_ip("1::2::3").is_none());
    assert!(parse_ip(":::").is_none());
    assert!(parse_ip("1:2:3:4:5:6:7").is_none());
    assert!(parse_ip("1:2:3:4:5:6:7:8:9").is_none());
    assert!(parse_ip("1:2:3:4:5:6:7::8").is_none());
    assert!(parse_ip("12345::").is_none());
    assert!(parse_ip("not-an-ip").is_none());
}

#[test]
fn server_port_accepts_leading_zeros() {
    let ep = parse_server_address("1.1.1.1:053").expect("should parse");
    assert_eq!(ep.port, 53);
}

#[test]
fn ip_literal_uppercase_hex_accepted_lowercase_emitted() {
    let ip = parse_ip("2001:DB8::A").expect("should parse");
    assert_eq!(ip_to_string(&ip), "2001:db8::a");
}

#[test]
fn ip_text_round_trip_canonical() {
    let ip = parse_ip("2001:0db8:0000:0000:0000:0000:0000:0001").expect("long form");
    assert_eq!(ip_to_string(&ip), "2001:db8::1");
    let ip = parse_ip("1:0:0:1:0:0:0:1").expect("two runs");
    assert_eq!(ip_to_string(&ip), "1:0:0:1::1");
    let ip = parse_ip("10.0.0.7").expect("v4");
    assert_eq!(ip_to_string(&ip), "10.0.0.7");
}

#[test]
fn reverse_name_ipv4() {
    let ip = parse_ip("192.0.2.5").expect("should parse");
    assert_eq!(reverse_name(&ip), "5.2.0.192.in-addr.arpa.");
}

#[test]
fn reverse_name_ipv6_loopback() {
    let ip = parse_ip("::1").expect("should parse");
    assert_eq!(
        reverse_name(&ip),
        "1.0.0.0.0.0.0.0.0.0.0.0.0.0.0.0.0.0.0.0.0.0.0.0.0.0.0.0.0.0.0.0.ip6.arpa."
    );
}

#[test]
fn reverse_name_ipv6_reference_expansion() {
    let ip = parse_ip("2001:db8::1").expect("should parse");
    assert_eq!(
        reverse_name(&ip),
        "1.0.0.0.0.0.0.0.0.0.0.0.0.0.0.0.0.0.0.0.0.0.0.0.8.b.d.0.1.0.0.2.ip6.arpa."
    );
}
