use patu::addr::Ipv4Addr;
use patu::wire::{
    create_default_route_request, create_dev_route_request, create_gateway_request,
    create_veth_request, delete_link_request, get_link_request, parse_response, set_ip_request,
    set_up_request, NlResponse,
};

fn addr(o0: u8, o1: u8, o2: u8, o3: u8) -> Ipv4Addr {
    Ipv4Addr { o0, o1, o2, o3 }
}

#[test]
fn gateway_request_bytes_are_exact() {
    let v = create_gateway_request();
    let expected: Vec<u8> = vec![
        // header: length 60, new-link, request|create|excl|ack, seq 0, port 0
        60, 0, 0, 0, 16, 0, 0x05, 0x06, 0, 0, 0, 0, 0, 0, 0, 0,
        // link structure: up flag and change mask
        0, 0, 0, 0, 0, 0, 0, 0, 1, 0, 0, 0, 1, 0, 0, 0,
        // interface name "patu0"
        10, 0, 3, 0, 112, 97, 116, 117, 48, 0, 0, 0,
        // link info holding kind "dummy"
        16, 0, 18, 0, 10, 0, 1, 0, 100, 117, 109, 109, 121, 0, 0, 0,
    ];
    assert_eq!(v, expected);
}

#[test]
fn set_up_request_bytes_are_exact() {
    let v = set_up_request(5);
    let expected: Vec<u8> = vec![
        32, 0, 0, 0, 19, 0, 0x05, 0x06, 0, 0, 0, 0, 0, 0, 0, 0, //
        0, 0, 0, 0, 5, 0, 0, 0, 1, 0, 0, 0, 1, 0, 0, 0,
    ];
    assert_eq!(v, expected);
}

#[test]
fn delete_link_request_bytes_are_exact() {
    let v = delete_link_request(9);
    let expected: Vec<u8> = vec![
        32, 0, 0, 0, 17, 0, 0x05, 0x06, 0, 0, 0, 0, 0, 0, 0, 0, //
        0, 0, 0, 0, 9, 0, 0, 0, 0, 0, 0, 0, 0, 0, 0, 0,
    ];
    assert_eq!(v, expected);
}

#[test]
fn set_ip_request_bytes_are_exact() {
    let v = set_ip_request(3, addr(10, 10, 1, 1));
    let expected: Vec<u8> = vec![
        // header: 16 + 8 + 3 * 8 = 48 bytes total
        48, 0, 0, 0, 20, 0, 0x05, 0x06, 0, 0, 0, 0, 0, 0, 0, 0,
        // address structure: family 2, /32, index 3
        2, 32, 0, 0, 3, 0, 0, 0, //
        8, 0, 1, 0, 10, 10, 1, 1, // address
        8, 0, 2, 0, 10, 10, 1, 1, // local
        8, 0, 4, 0, 10, 10, 1, 1, // broadcast
    ];
    assert_eq!(v, expected);
}

#[test]
fn route_request_bytes_are_exact() {
    let v = create_default_route_request(addr(10, 10, 1, 1));
    let expected: Vec<u8> = vec![
        36, 0, 0, 0, 24, 0, 0x05, 0x06, 0, 0, 0, 0, 0, 0, 0, 0,
        // route structure: family 2, main table 254, static 4, unicast
        2, 0, 0, 0, 254, 4, 0, 1, 0, 0, 0, 0, //
        8, 0, 5, 0, 10, 10, 1, 1, // gateway
    ];
    assert_eq!(v, expected);

    let v = create_dev_route_request(7, addr(10, 10, 1, 4));
    let expected: Vec<u8> = vec![
        44, 0, 0, 0, 24, 0, 0x05, 0x06, 0, 0, 0, 0, 0, 0, 0, 0,
        // route structure: /32 destination, link scope 253
        2, 32, 0, 0, 254, 4, 253, 1, 0, 0, 0, 0, //
        8, 0, 4, 0, 7, 0, 0, 0, // out interface
        8, 0, 1, 0, 10, 10, 1, 4, // destination
    ];
    assert_eq!(v, expected);
}

#[test]
fn get_link_request_names_the_interface() {
    let v = get_link_request("eth0");
    let expected: Vec<u8> = vec![
        // header: request|ack only, get-link
        52, 0, 0, 0, 18, 0, 0x05, 0x00, 0, 0, 0, 0, 0, 0, 0, 0, //
        0, 0, 0, 0, 0, 0, 0, 0, 0, 0, 0, 0, 0, 0, 0, 0, //
        9, 0, 3, 0, 101, 116, 104, 48, 0, 0, 0, 0, // name "eth0"
        8, 0, 29, 0, 1, 0, 0, 0, // extension mask
    ];
    assert_eq!(v, expected);
}

#[test]
fn veth_request_nests_the_peer() {
    let v = create_veth_request("eth0", "veth0a1b2c3d", 33, 1500);
    // header
    let mut expected: Vec<u8> = vec![0, 0, 0, 0, 16, 0, 0x05, 0x06, 0, 0, 0, 0, 0, 0, 0, 0];
    // link structure
    expected.extend_from_slice(&[0u8; 16]);
    // mtu 1500 = 0x05DC
    expected.extend_from_slice(&[8, 0, 4, 0, 0xDC, 0x05, 0, 0]);
    // container-side name
    expected.extend_from_slice(&[9, 0, 3, 0, 101, 116, 104, 48, 0, 0, 0, 0]);
    // namespace file descriptor
    expected.extend_from_slice(&[8, 0, 28, 0, 33, 0, 0, 0]);
    // link info: kind "veth", then nested peer message
    let peer: Vec<u8> = {
        let mut p: Vec<u8> = vec![0; 16];
        p.extend_from_slice(&[8, 0, 4, 0, 0xDC, 0x05, 0, 0]);
        p.extend_from_slice(&[17, 0, 3, 0]);
        p.extend_from_slice(b"veth0a1b2c3d\0");
        p.extend_from_slice(&[0, 0, 0]);
        p
    };
    let mut info_data: Vec<u8> = vec![(peer.len() + 4) as u8, 0, 1, 0];
    info_data.extend_from_slice(&peer);
    let mut link_info: Vec<u8> = vec![9, 0, 1, 0, 118, 101, 116, 104, 0, 0, 0, 0];
    link_info.extend_from_slice(&[(info_data.len() + 4) as u8, 0, 2, 0]);
    link_info.extend_from_slice(&info_data);
    expected.extend_from_slice(&[(link_info.len() + 4) as u8, 0, 18, 0]);
    expected.extend_from_slice(&link_info);
    let total = expected.len() as u32;
    expected[0] = (total & 0xff) as u8;
    expected[1] = ((total >> 8) & 0xff) as u8;
    assert_eq!(v, expected);
}

#[test]
fn parse_classifies_ack_and_refusals() {
    let ack: Vec<u8> = vec![20, 0, 0, 0, 2, 0, 0, 0, 0, 0, 0, 0, 0, 0, 0, 0, 0, 0, 0, 0];
    assert!(matches!(parse_response(&ack), NlResponse::Ack));

    // refused with value -17: the object already exists
    let exist: Vec<u8> = vec![
        20, 0, 0, 0, 2, 0, 0, 0, 0, 0, 0, 0, 0, 0, 0, 0, 0xEF, 0xFF, 0xFF, 0xFF,
    ];
    match parse_response(&exist) {
        NlResponse::Refused(code) => assert_eq!(code, 0xFFFF_FFEF),
        _ => panic!("must classify as a refusal"),
    }

    let short: Vec<u8> = vec![1, 2, 3];
    assert!(matches!(parse_response(&short), NlResponse::Other));
}

#[test]
fn parse_reads_link_record() {
    // a new-link response: index 7, then a hardware-address attribute
    let mut buf: Vec<u8> = vec![0, 0, 0, 0, 16, 0, 0, 0, 0, 0, 0, 0, 0, 0, 0, 0];
    buf.extend_from_slice(&[0, 0, 0, 0, 7, 0, 0, 0, 0, 0, 0, 0, 0, 0, 0, 0]);
    buf.extend_from_slice(&[10, 0, 1, 0, 0xAA, 0xBB, 0xCC, 0xDD, 0xEE, 0xFF, 0, 0]);
    let n = buf.len() as u8;
    buf[0] = n;
    match parse_response(&buf) {
        NlResponse::Link(li) => {
            assert_eq!(li.index, 7);
            assert_eq!(li.mac, vec![0xAA, 0xBB, 0xCC, 0xDD, 0xEE, 0xFF]);
        }
        _ => panic!("must classify as a link record"),
    }
}

#[test]
fn parse_link_without_address_reports_zeros() {
    // the record carries only an unrelated attribute, skipped by its
    // padded length
    let mut buf: Vec<u8> = vec![0, 0, 0, 0, 16, 0, 0, 0, 0, 0, 0, 0, 0, 0, 0, 0];
    buf.extend_from_slice(&[0, 0, 0, 0, 2, 0, 0, 0, 0, 0, 0, 0, 0, 0, 0, 0]);
    buf.extend_from_slice(&[5, 0, 3, 0, 65, 0, 0, 0]);
    let n = buf.len() as u8;
    buf[0] = n;
    match parse_response(&buf) {
        NlResponse::Link(li) => {
            assert_eq!(li.index, 2);
            assert_eq!(li.mac, vec![0, 0, 0, 0, 0, 0]);
        }
        _ => panic!("must classify as a link record"),
    }
}
