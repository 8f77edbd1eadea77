use patu::fastpath::{
    establishment_key, htonl, message_decision, message_key, sock_ops_decision,
};

#[test]
fn htonl_swaps_bytes() {
    assert_eq!(htonl(0x12345678), 0x78563412);
    assert_eq!(htonl(0), 0);
    assert_eq!(htonl(8080), 0x901F0000);
    assert_eq!(htonl(htonl(0xDEADBEEF)), 0xDEADBEEF);
}

// one connection as the kernel presents it to the two peers: addresses
// in network byte order on both sides, the local port in host byte
// order, the remote port in network byte order
const IP_A: u32 = 0x0101A8C0;
const IP_B: u32 = 0x0201A8C0;
const PORT_A: u32 = 8080;
const PORT_B: u32 = 35000;

#[test]
fn keys_converge_across_the_role_swap() {
    // the key A records at establishment equals the key B builds for
    // its own outgoing messages, and the other way round
    let a_est = establishment_key(IP_A, IP_B, PORT_A, htonl(PORT_B));
    let b_msg = message_key(IP_B, IP_A, PORT_B, htonl(PORT_A));
    assert_eq!(a_est, b_msg);

    let b_est = establishment_key(IP_B, IP_A, PORT_B, htonl(PORT_A));
    let a_msg = message_key(IP_A, IP_B, PORT_A, htonl(PORT_B));
    assert_eq!(b_est, a_msg);
}

#[test]
fn establishment_hook_records_only_ipv4_establishment() {
    // both establishment callbacks record; other callbacks and other
    // address families stay silent, failing open
    let key = sock_ops_decision(4, 2, IP_A, IP_B, PORT_A, htonl(PORT_B));
    assert!(key.is_some());
    let key = sock_ops_decision(5, 2, IP_A, IP_B, PORT_A, htonl(PORT_B));
    assert!(key.is_some());
    assert!(sock_ops_decision(3, 2, IP_A, IP_B, PORT_A, htonl(PORT_B)).is_none());
    assert!(sock_ops_decision(4, 10, IP_A, IP_B, PORT_A, htonl(PORT_B)).is_none());
}

#[test]
fn message_hook_redirects_only_ipv4() {
    assert!(message_decision(2, IP_B, IP_A, PORT_B, htonl(PORT_A)).is_some());
    // anything else passes through the normal stack unmodified
    assert!(message_decision(10, IP_B, IP_A, PORT_B, htonl(PORT_A)).is_none());
}

#[test]
fn recorded_key_swaps_roles() {
    let key = sock_ops_decision(4, 2, IP_A, IP_B, PORT_A, htonl(PORT_B)).unwrap();
    assert_eq!(key.remote_ip4, IP_A);
    assert_eq!(key.local_ip4, IP_B);
    assert_eq!(key.remote_port, htonl(PORT_A) >> 16);
    assert_eq!(key.local_port, htonl(PORT_B) >> 16);
}
