use patu::addr::{addr_from_cidr_checked, ip4_addr_from_cidr, parse_ipv4, Ipv4Addr};

#[test]
fn test_ip4_addr_from_cidr() {
    let a1 = ip4_addr_from_cidr("10.10.1.1/24".to_string());
    assert_eq!(
        a1,
        Ipv4Addr {
            o0: 10,
            o1: 10,
            o2: 1,
            o3: 1
        }
    );
}

#[test]
fn strip_equals_bare_parse() {
    // stripping the prefix length equals parsing the bare address
    let stripped = addr_from_cidr_checked("10.10.1.1/24");
    let bare = parse_ipv4("10.10.1.1");
    assert_eq!(stripped, bare);
    assert!(stripped.is_some());
    let stripped = addr_from_cidr_checked("192.168.0.0/31");
    let bare = parse_ipv4("192.168.0.0");
    assert_eq!(stripped, bare);
}

#[test]
fn bare_text_without_slash_parses_whole() {
    assert_eq!(
        addr_from_cidr_checked("1.2.3.4"),
        Some(Ipv4Addr {
            o0: 1,
            o1: 2,
            o2: 3,
            o3: 4
        })
    );
}

#[test]
fn parse_rejects_malformed_text() {
    assert_eq!(parse_ipv4(""), None);
    assert_eq!(parse_ipv4("10.10.1"), None);
    assert_eq!(parse_ipv4("10.10.1.1.1"), None);
    assert_eq!(parse_ipv4("256.0.0.1"), None);
    assert_eq!(parse_ipv4("01.2.3.4"), None);
    assert_eq!(parse_ipv4("a.b.c.d"), None);
    assert_eq!(parse_ipv4("1..2.3"), None);
}

#[test]
fn parse_accepts_bounds() {
    assert_eq!(
        parse_ipv4("0.0.0.0"),
        Some(Ipv4Addr {
            o0: 0,
            o1: 0,
            o2: 0,
            o3: 0
        })
    );
    assert_eq!(
        parse_ipv4("255.255.255.255"),
        Some(Ipv4Addr {
            o0: 255,
            o1: 255,
            o2: 255,
            o3: 255
        })
    );
}

#[test]
fn strip_uses_last_slash() {
    // an address-in-CIDR form keeps everything before the last slash
    assert_eq!(addr_from_cidr_checked("1.2.3.4/"), parse_ipv4("1.2.3.4"));
    assert_eq!(addr_from_cidr_checked("/24"), None);
}
