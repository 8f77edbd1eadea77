use patu::addr::Ipv4Addr;
use patu::types::{Error, ErrorCode};
use patu::engine::{
    attach_start, detach_start, AttachAction, AttachEvent, DetachAction, DetachEvent,
};
use patu::textfmt::{forward_rule, mac_string, netlink_error_text, veth_name};
use patu::types::{Ip, Success};
use patu::wire::{
    create_default_route_request, create_dev_route_request, create_gateway_request,
    create_veth_request, delete_link_request, get_link_request, set_ip_request, set_up_request,
    LinkInfo, NlResponse,
};

#[test]
fn test_veth_name() {
    let name = veth_name();
    assert_eq!(12, name.len());
}

#[test]
fn veth_names_have_fixed_prefix_and_hex_tail() {
    for _ in 0..64 {
        let name = veth_name();
        assert_eq!(name.len(), 12);
        assert!(name.starts_with("veth"));
        assert!(name[4..]
            .chars()
            .all(|c| c.is_ascii_hexdigit() && !c.is_ascii_uppercase()));
    }
}

#[test]
fn mac_string_formats_colon_separated_hex() {
    let mac = vec![0xAA, 0xBB, 0x0C, 0x00, 0xEE, 0x1F];
    assert_eq!(mac_string(&mac), "aa:bb:0c:00:ee:1f");
}

#[test]
fn netlink_error_text_renders_signed_code() {
    assert_eq!(netlink_error_text(0xFFFF_FFEF), "netlink error code -17");
    assert_eq!(netlink_error_text(3), "netlink error code 3");
}

#[test]
fn forward_rule_names_the_interface() {
    assert_eq!(forward_rule("veth0a1b2c3d"), "-i veth0a1b2c3d -j ACCEPT");
}

fn ipam_success() -> Success {
    let mut s = Success::default();
    s.cni_version = "1.0.0".to_string();
    s.ips = vec![Ip {
        address: "10.10.1.4/24".to_string(),
        gateway: "10.10.1.1".to_string(),
        interface: None,
    }];
    s
}

const GW: Ipv4Addr = Ipv4Addr {
    o0: 10,
    o1: 10,
    o2: 1,
    o3: 1,
};
const PEER: Ipv4Addr = Ipv4Addr {
    o0: 10,
    o1: 10,
    o2: 1,
    o3: 4,
};

fn link(index: u32, mac: [u8; 6]) -> NlResponse {
    NlResponse::Link(LinkInfo {
        index,
        mac: mac.to_vec(),
    })
}

#[test]
fn attach_happy_path_runs_the_ordered_sequence() {
    let netns = "/var/run/netns/c1".to_string();
    let (st, act) = attach_start(netns.clone(), "eth0".to_string());
    assert!(matches!(act, AttachAction::CallIpam));

    let (st, act) = st.step(AttachEvent::Ipam(Ok(ipam_success())));
    match &act {
        AttachAction::OpenNsSocket(p) => assert_eq!(p, &netns),
        _ => panic!("must open the namespace socket next"),
    }

    let (st, act) = st.step(AttachEvent::NsSocket(Ok(())));
    match &act {
        AttachAction::HostSend(v) => assert_eq!(v, &create_gateway_request()),
        _ => panic!("must create the gateway"),
    }

    // the gateway may already exist: the exclusive create is refused
    // with the tolerated value and the sequence continues
    let (st, act) = st.step(AttachEvent::Netlink(NlResponse::Refused(0xFFFF_FFEF)));
    match &act {
        AttachAction::HostSend(v) => assert_eq!(v, &get_link_request("patu0")),
        _ => panic!("must resolve the gateway"),
    }

    let (st, act) = st.step(AttachEvent::Netlink(link(3, [1, 2, 3, 4, 5, 6])));
    assert!(matches!(act, AttachAction::HostRecv));
    let (st, act) = st.step(AttachEvent::Netlink(NlResponse::Ack));
    match &act {
        AttachAction::HostSend(v) => assert_eq!(v, &set_ip_request(3, GW)),
        _ => panic!("must assign the gateway address"),
    }
    // the gateway record was merged into the result
    let ifaces = st.result.interfaces.as_ref().unwrap();
    assert_eq!(ifaces.len(), 1);
    assert_eq!(ifaces[0].name, "patu0");
    assert_eq!(ifaces[0].mac.as_deref(), Some("01:02:03:04:05:06"));
    assert!(ifaces[0].sandbox.is_none());

    let (st, act) = st.step(AttachEvent::Netlink(NlResponse::Ack));
    match &act {
        AttachAction::OpenNsFd(p) => assert_eq!(p, &netns),
        _ => panic!("must open the namespace descriptor"),
    }
    let host_name = st.host_name.clone();
    assert!(host_name.starts_with("veth"));

    let (st, act) = st.step(AttachEvent::NsFd(Ok(33)));
    match &act {
        AttachAction::HostSend(v) => {
            assert_eq!(v, &create_veth_request("eth0", &host_name, 33, 1500))
        }
        _ => panic!("must create the veth pair"),
    }

    let (st, act) = st.step(AttachEvent::Netlink(NlResponse::Ack));
    match &act {
        AttachAction::HostSend(v) => assert_eq!(v, &get_link_request(&host_name)),
        _ => panic!("must resolve the host-side end"),
    }
    let (st, act) = st.step(AttachEvent::Netlink(link(8, [6, 5, 4, 3, 2, 1])));
    assert!(matches!(act, AttachAction::HostRecv));
    let (st, act) = st.step(AttachEvent::Netlink(NlResponse::Ack));
    match &act {
        AttachAction::HostSend(v) => assert_eq!(v, &set_up_request(8)),
        _ => panic!("must raise the host-side end"),
    }

    let (st, act) = st.step(AttachEvent::Netlink(NlResponse::Ack));
    match &act {
        AttachAction::ContainerSend(v) => assert_eq!(v, &get_link_request("eth0")),
        _ => panic!("must resolve the container-side end"),
    }
    let (st, act) = st.step(AttachEvent::Netlink(link(2, [9, 9, 9, 9, 9, 9])));
    assert!(matches!(act, AttachAction::ContainerRecv));
    let (st, act) = st.step(AttachEvent::Netlink(NlResponse::Ack));
    match &act {
        AttachAction::ContainerSend(v) => assert_eq!(v, &set_ip_request(2, PEER)),
        _ => panic!("must assign the container address, mask discarded"),
    }

    let (st, act) = st.step(AttachEvent::Netlink(NlResponse::Ack));
    match &act {
        AttachAction::ContainerSend(v) => assert_eq!(v, &set_up_request(2)),
        _ => panic!("must raise the container-side end"),
    }
    let (st, act) = st.step(AttachEvent::Netlink(NlResponse::Ack));
    match &act {
        AttachAction::ContainerSend(v) => assert_eq!(v, &create_dev_route_request(2, GW)),
        _ => panic!("must route to the gateway"),
    }
    let (st, act) = st.step(AttachEvent::Netlink(NlResponse::Ack));
    match &act {
        AttachAction::ContainerSend(v) => assert_eq!(v, &create_default_route_request(GW)),
        _ => panic!("must install the default route"),
    }
    let (st, act) = st.step(AttachEvent::Netlink(NlResponse::Ack));
    match &act {
        AttachAction::InstallForward(rule) => {
            assert_eq!(rule, &format!("-i {} -j ACCEPT", host_name))
        }
        _ => panic!("must install the forwarding rule"),
    }
    let (st, act) = st.step(AttachEvent::Firewall(Ok(())));
    match &act {
        AttachAction::HostSend(v) => assert_eq!(v, &create_dev_route_request(8, PEER)),
        _ => panic!("must route to the container"),
    }

    let (st, act) = st.step(AttachEvent::Netlink(NlResponse::Ack));
    assert!(matches!(act, AttachAction::Finish));

    // the merged result: the delegate's addresses untouched, and the
    // gateway, host-side and container-side records in order
    assert_eq!(st.result.cni_version, "1.0.0");
    assert_eq!(st.result.ips.len(), 1);
    assert_eq!(st.result.ips[0].address, "10.10.1.4/24");
    let ifaces = st.result.interfaces.as_ref().unwrap();
    assert_eq!(ifaces.len(), 3);
    assert_eq!(ifaces[0].name, "patu0");
    assert_eq!(ifaces[1].name, host_name);
    assert_eq!(ifaces[1].mac.as_deref(), Some("06:05:04:03:02:01"));
    assert!(ifaces[1].sandbox.is_none());
    assert_eq!(ifaces[2].name, "eth0");
    assert_eq!(ifaces[2].mac.as_deref(), Some("09:09:09:09:09:09"));
    assert_eq!(ifaces[2].sandbox.as_deref(), Some("/var/run/netns/c1"));
}

#[test]
fn attach_ipam_failure_propagates_verbatim_without_release() {
    let (st, _) = attach_start("/ns".to_string(), "eth0".to_string());
    let own = patu::types::Error::new_custom(7, "Invalid Configuration".to_string(), None);
    let (_, act) = st.step(AttachEvent::Ipam(Err(own)));
    match act {
        AttachAction::Fail { release, error } => {
            assert!(!release);
            assert_eq!(error.code, 7);
            assert_eq!(error.msg, "Invalid Configuration");
        }
        _ => panic!("delegate failure must fail the attach"),
    }
}

#[test]
fn attach_later_failure_wraps_and_releases() {
    let (st, _) = attach_start("/ns".to_string(), "eth0".to_string());
    let (st, _) = st.step(AttachEvent::Ipam(Ok(ipam_success())));
    let (st, _) = st.step(AttachEvent::NsSocket(Ok(())));
    // the gateway create is refused with a real error
    let (_, act) = st.step(AttachEvent::Netlink(NlResponse::Refused(0xFFFF_FFF5)));
    match act {
        AttachAction::Fail { release, error } => {
            assert!(release);
            assert_eq!(error.code, 102);
            assert_eq!(error.msg, "Error creating gateway");
            assert_eq!(error.details, Some("netlink error code -11".to_string()));
        }
        _ => panic!("a refused request must fail the attach"),
    }
}

#[test]
fn attach_socket_failure_wraps_and_releases() {
    let (st, _) = attach_start("/ns".to_string(), "eth0".to_string());
    let (st, _) = st.step(AttachEvent::Ipam(Ok(ipam_success())));
    let (_, act) = st.step(AttachEvent::NsSocket(Err("no such namespace".to_string())));
    match act {
        AttachAction::Fail { release, error } => {
            assert!(release);
            assert_eq!(error.code, 102);
            assert_eq!(error.msg, "Error creating netlink socket in container ns");
            assert_eq!(error.details, Some("no such namespace".to_string()));
        }
        _ => panic!("a socket failure must fail the attach"),
    }
}

fn run_detach_missing_namespace() -> (patu::engine::DetachStage, bool) {
    let (st, act) = detach_start("/gone".to_string(), "eth0".to_string());
    match &act {
        DetachAction::OpenNsSocket(p) => assert_eq!(p, "/gone"),
        _ => panic!("detach must open the namespace socket first"),
    }
    let (st, act) = st.step(DetachEvent::NsSocket(Err("gone".to_string())));
    (st.stage, matches!(act, DetachAction::Finish))
}

#[test]
fn detach_is_idempotent_for_missing_namespace() {
    // two runs against an already-removed namespace: both finish at
    // once, with no request sent and no delegate call
    let (stage1, fin1) = run_detach_missing_namespace();
    let (stage2, fin2) = run_detach_missing_namespace();
    assert_eq!(stage1, patu::engine::DetachStage::Done);
    assert_eq!(stage1, stage2);
    assert!(fin1 && fin2);
}

#[test]
fn detach_is_idempotent_for_missing_interface() {
    for _ in 0..2 {
        let (st, _) = detach_start("/ns".to_string(), "eth0".to_string());
        let (st, act) = st.step(DetachEvent::NsSocket(Ok(())));
        match &act {
            DetachAction::ContainerSend(v) => assert_eq!(v, &get_link_request("eth0")),
            _ => panic!("detach must resolve the interface by name"),
        }
        // the dump closes without a single record: the interface is gone
        let (st, act) = st.step(DetachEvent::Netlink(NlResponse::Ack));
        assert_eq!(st.stage, patu::engine::DetachStage::Done);
        assert!(matches!(act, DetachAction::Finish));
    }
}

#[test]
fn detach_deletes_and_releases() {
    let (st, _) = detach_start("/ns".to_string(), "eth0".to_string());
    let (st, _) = st.step(DetachEvent::NsSocket(Ok(())));
    let (st, act) = st.step(DetachEvent::Netlink(link(2, [0, 0, 0, 0, 0, 0])));
    assert!(matches!(act, DetachAction::ContainerRecv));
    let (st, act) = st.step(DetachEvent::Netlink(NlResponse::Ack));
    match &act {
        DetachAction::ContainerSend(v) => assert_eq!(v, &delete_link_request(2)),
        _ => panic!("detach must delete the resolved link"),
    }
    let (st, act) = st.step(DetachEvent::Netlink(NlResponse::Ack));
    assert!(matches!(act, DetachAction::CallIpamRelease));
    let (st, act) = st.step(DetachEvent::IpamDone);
    assert_eq!(st.stage, patu::engine::DetachStage::Done);
    assert!(matches!(act, DetachAction::Finish));
}

#[test]
fn error_codes_have_reserved_values() {
    let cases = [
        (ErrorCode::IncompatibleCniVersion, 1),
        (ErrorCode::UnsupportedConfigField, 2),
        (ErrorCode::ContainerUnknown, 3),
        (ErrorCode::InvalidEnvironmentVars, 4),
        (ErrorCode::IoFailure, 5),
        (ErrorCode::FailedToDecodeContent, 6),
        (ErrorCode::InvalidNetworkConfig, 7),
        (ErrorCode::TryAgainLater, 11),
    ];
    for (code, value) in cases {
        let e = Error::new(code, "m".to_string(), None);
        assert_eq!(e.code, value);
    }
    let e = Error::new_custom(102, "m".to_string(), Some("d".to_string()));
    assert_eq!(e.code, 102);
    assert_eq!(e.details.as_deref(), Some("d"));
}
