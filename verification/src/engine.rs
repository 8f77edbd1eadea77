//! The attachment operation engine.
//!
//! Attach and detach are multi-step protocol conversations: the engine is
//! written as explicit state machines whose step functions are pure.  The
//! caller owns the sockets, the delegate process and the firewall: it
//! performs each returned action, observes the outcome, and hands it back
//! as the next event.  The transition relations [`attach_rel`] and
//! [`detach_rel`] are the machines' specifications: ordering, compensation
//! and error wrapping are all stated there and proved of the step
//! functions.
//!
//! Attach compensates on failure by releasing the delegate allocation
//! before the error propagates — and only that: interfaces already created
//! stay, for a later detach to find by name.  Detach is best-effort and
//! cannot fail: its action type has no failing variant.

use vstd::prelude::*;
use vstd::string::string_is_ascii;
use crate::addr::{Ipv4Addr, spec_parse_ipv4, spec_addr_from_cidr, parse_ipv4, addr_from_cidr_checked};
use crate::textfmt::{veth_name, mac_string, spec_mac_string, netlink_error_text, spec_netlink_error_text, forward_rule, lemma_veth_name_ascii};
use crate::types::{Success, Error, Interface as ResultInterface};
use crate::wire::{NlResponse, LinkInfo, ERR_EXIST, spec_gateway_request, spec_get_link_request, spec_set_ip_request, spec_set_up_request, spec_veth_request, spec_default_route_request, spec_dev_route_request, spec_delete_link_request, create_gateway_request, get_link_request, set_ip_request, set_up_request, create_veth_request, create_default_route_request, create_dev_route_request, delete_link_request};

verus! {

/// The interface records the codec resolves: index, name, and the
/// hexadecimal hardware address when known.
#[derive(Debug, Clone)]
pub struct Interface {
    pub ifindex: u32,
    pub name: String,
    pub mac: Option<String>,
}

/// The default maximum transmission unit requested for the veth pair.
pub const VETH_MTU: u32 = 1500;

/// The uniform internal code that wraps every attachment failure past the
/// delegate call.
pub const ATTACH_ERR_CODE: u64 = 102;

#[derive(Clone, Copy, Debug, PartialEq, Eq, Structural)]
pub enum AttachStage {
    AwaitIpam,
    AwaitNsSocket,
    AwaitGatewayAck,
    AwaitGatewayInfo,
    AwaitGatewayAddrAck,
    AwaitNsFd,
    AwaitVethAck,
    AwaitHostInfo,
    AwaitHostUpAck,
    AwaitPeerInfo,
    AwaitPeerAddrAck,
    AwaitPeerUpAck,
    AwaitPeerRouteAck,
    AwaitDefaultRouteAck,
    AwaitForwardRule,
    AwaitHostRouteAck,
    Done,
}

/// What the caller observed while performing the last action.
pub enum AttachEvent {
    /// The delegate finished (or could not run): its decided outcome.
    Ipam(Result<Success, Error>),
    /// Opening the namespace-scoped socket succeeded or failed.
    NsSocket(Result<(), String>),
    /// Opening the namespace file descriptor succeeded or failed.
    NsFd(Result<i32, String>),
    /// One response datagram, classified by the wire codec.
    Netlink(NlResponse),
    /// The firewall rule install succeeded or failed.
    Firewall(Result<(), String>),
}

/// What the caller must do next.
pub enum AttachAction {
    /// Run the delegate in allocation mode and decide its outcome.
    CallIpam,
    /// Open a routing socket bound inside the named namespace.
    OpenNsSocket(String),
    /// Open the namespace path and hand back its file descriptor.
    OpenNsFd(String),
    /// Send on the host socket, then read one response datagram.
    HostSend(Vec<u8>),
    /// Read one more response datagram from the host socket.
    HostRecv,
    /// Send on the namespace-scoped socket, then read one datagram.
    ContainerSend(Vec<u8>),
    /// Read one more datagram from the namespace-scoped socket.
    ContainerRecv,
    /// Append the given forwarding-accept rule.
    InstallForward(String),
    /// The attachment is complete; the state's result document, now
    /// merged, is what the invocation reports.
    Finish,
    /// The attachment failed.  When `release` is set the delegate
    /// allocation is released, errors ignored, before the error document
    /// is reported.
    Fail { release: bool, error: Error },
}

pub struct AttachState {
    pub stage: AttachStage,
    pub netns: String,
    pub ifname: String,
    pub gw_addr: Ipv4Addr,
    pub peer_addr: Ipv4Addr,
    pub host_name: String,
    pub gw_index: u32,
    pub host_index: u32,
    pub host_mac: String,
    pub peer_mac: String,
    pub peer_index: u32,
    pub dump_count: u32,
    pub dump_index: u32,
    pub dump_mac: Vec<u8>,
    pub result: Success,
}

impl AttachState {
    /// Machine-limit well-formedness: names short enough for the wire
    /// format, and a six-byte dump record.
    pub open spec fn wf(&self) -> bool {
        &&& string_is_ascii(&self.ifname)
        &&& self.ifname@.len() <= 255
        &&& string_is_ascii(&self.host_name)
        &&& self.host_name@.len() <= 255
        &&& self.dump_mac@.len() == 6
    }

    /// Which events this state accepts: the outcome of the action it
    /// asked for, with the delegate result usable when it is a success.
    pub open spec fn accepts(&self, ev: &AttachEvent) -> bool {
        match (self.stage, ev) {
            (AttachStage::AwaitIpam, AttachEvent::Ipam(res)) => match res {
                Ok(s) => ipam_result_usable(s),
                Err(_) => true,
            },
            (AttachStage::AwaitNsSocket, AttachEvent::NsSocket(_)) => true,
            (AttachStage::AwaitNsFd, AttachEvent::NsFd(_)) => true,
            (AttachStage::AwaitForwardRule, AttachEvent::Firewall(_)) => true,
            (s, AttachEvent::Netlink(resp)) => netlink_stage(s) && (match resp {
                NlResponse::Link(li) => li.mac@.len() == 6,
                _ => true,
            }),
            _ => false,
        }
    }
}

/// The stages that wait for a response datagram.
pub open spec fn netlink_stage(s: AttachStage) -> bool {
    match s {
        AttachStage::AwaitGatewayAck | AttachStage::AwaitGatewayInfo
            | AttachStage::AwaitGatewayAddrAck | AttachStage::AwaitVethAck
            | AttachStage::AwaitHostInfo | AttachStage::AwaitHostUpAck
            | AttachStage::AwaitPeerInfo | AttachStage::AwaitPeerAddrAck
            | AttachStage::AwaitPeerUpAck | AttachStage::AwaitPeerRouteAck
            | AttachStage::AwaitDefaultRouteAck | AttachStage::AwaitHostRouteAck => true,
        _ => false,
    }
}

/// A delegate result the attach sequence can consume: at least one
/// address assignment, a parseable bare gateway address, and a parseable
/// address-in-CIDR text.
pub open spec fn ipam_result_usable(s: &Success) -> bool {
    &&& s.ips@.len() >= 1
    &&& spec_parse_ipv4(s.ips@[0].gateway@) is Some
    &&& spec_addr_from_cidr(s.ips@[0].address@) is Some
}

/// A mutating exchange succeeded: acknowledged outright, or refused only
/// because the object already exists.
pub open spec fn ack_ok(resp: NlResponse) -> bool {
    match resp {
        NlResponse::Ack => true,
        NlResponse::Refused(code) => code == ERR_EXIST,
        _ => false,
    }
}

/// The detail text reported for a failed exchange.
pub open spec fn resp_details(resp: NlResponse) -> Seq<char> {
    match resp {
        NlResponse::Refused(code) => spec_netlink_error_text(code),
        _ => "unexpected netlink message"@,
    }
}

/// A wrapped attachment failure: the delegate allocation is released, the
/// uniform internal code is reported, and the originating message is
/// preserved as detail.
pub open spec fn wrapped_fail(act: AttachAction, msg: Seq<char>, details: Option<Seq<char>>) -> bool {
    match act {
        AttachAction::Fail { release, error } => {
            &&& release
            &&& error.code == ATTACH_ERR_CODE
            &&& error.msg@ == msg
            &&& (match (error.details, details) {
                (Some(d), Some(v)) => d@ == v,
                (None, None) => true,
                _ => false,
            })
        },
        _ => false,
    }
}

/// Core identity of a state: the parameters and resolved values that a
/// transition does not touch.
pub open spec fn same_params(a: AttachState, b: AttachState) -> bool {
    &&& a.netns == b.netns
    &&& a.ifname == b.ifname
}

pub open spec fn same_addrs(a: AttachState, b: AttachState) -> bool {
    &&& a.gw_addr == b.gw_addr
    &&& a.peer_addr == b.peer_addr
}

pub open spec fn same_links(a: AttachState, b: AttachState) -> bool {
    &&& a.gw_index == b.gw_index
    &&& a.host_index == b.host_index
    &&& a.host_mac == b.host_mac
    &&& a.peer_mac == b.peer_mac
    &&& a.peer_index == b.peer_index
}

pub open spec fn same_result(a: AttachState, b: AttachState) -> bool {
    a.result == b.result
}

/// An ordinary acknowledgment stage: on success the machine moves to
/// `next` emitting `act`; on failure it stops, releases the allocation
/// and wraps the underlying message under `msg`.
pub open spec fn ack_stage_rel(
    pre: AttachState,
    resp: NlResponse,
    post: AttachState,
    act: AttachAction,
    next: AttachStage,
    msg: Seq<char>,
) -> bool {
    if ack_ok(resp) {
        &&& post.stage == next
        &&& same_params(pre, post)
        &&& same_addrs(pre, post)
        &&& same_links(pre, post)
        &&& same_result(pre, post)
        &&& post.host_name == pre.host_name
    } else {
        &&& post.stage == AttachStage::Done
        &&& wrapped_fail(act, msg, Some(resp_details(resp)))
    }
}

/// A link-dump stage: link records are counted (the first one kept)
/// until the closing acknowledgment; any refusal, any unexpected
/// message, or a count other than one fails the stage under `msg`.
pub open spec fn dump_stage_rel(
    pre: AttachState,
    resp: NlResponse,
    post: AttachState,
    act: AttachAction,
    recv: AttachAction,
    msg: Seq<char>,
) -> bool {
    match resp {
        NlResponse::Link(li) => {
            &&& post.stage == pre.stage
            &&& act == recv
            &&& same_params(pre, post)
            &&& same_addrs(pre, post)
            &&& same_links(pre, post)
            &&& same_result(pre, post)
            &&& post.host_name == pre.host_name
            &&& post.dump_count as int == (if pre.dump_count < 2 { pre.dump_count + 1 } else { 2int })
            &&& (pre.dump_count == 0 ==> post.dump_index == li.index && post.dump_mac == li.mac)
            &&& (pre.dump_count != 0 ==> post.dump_index == pre.dump_index && post.dump_mac
                == pre.dump_mac)
        },
        NlResponse::Ack => {
            if pre.dump_count == 1 {
                true  // resolution is stated by the per-stage clauses
            } else {
                &&& post.stage == AttachStage::Done
                &&& wrapped_fail(
                    act,
                    msg,
                    Some(
                        if pre.dump_count == 0 {
                            "no interface with this name"@
                        } else {
                            "more than one interface with this name"@
                        },
                    ),
                )
            }
        },
        _ => {
            &&& post.stage == AttachStage::Done
            &&& wrapped_fail(act, msg, Some(resp_details(resp)))
        },
    }
}

/// The gateway interface record appended to the result when the gateway
/// dump resolves.
pub open spec fn pushed_gateway(pre: Success, post: Success, mac: Seq<char>) -> bool {
    &&& post.cni_version == pre.cni_version
    &&& post.ips == pre.ips
    &&& post.routes == pre.routes
    &&& post.dns == pre.dns
    &&& (match (pre.interfaces, post.interfaces) {
        (Some(old_v), Some(new_v)) => {
            &&& new_v@.len() == old_v@.len() + 1
            &&& new_v@.subrange(0, old_v@.len() as int) == old_v@
            &&& gateway_entry(new_v@.last(), mac)
        },
        (None, Some(new_v)) => new_v@.len() == 1 && gateway_entry(new_v@.last(), mac),
        _ => false,
    })
}

pub open spec fn gateway_entry(e: ResultInterface, mac: Seq<char>) -> bool {
    &&& e.name@ == "patu0"@
    &&& (e.mac matches Some(m) && m@ == mac)
    &&& e.sandbox is None
}

/// The action sends exactly these bytes on the host socket.
pub open spec fn host_send_is(act: AttachAction, v: Seq<u8>) -> bool {
    match act {
        AttachAction::HostSend(b) => b@ == v,
        _ => false,
    }
}

/// The action sends exactly these bytes on the namespace-scoped socket.
pub open spec fn container_send_is(act: AttachAction, v: Seq<u8>) -> bool {
    match act {
        AttachAction::ContainerSend(b) => b@ == v,
        _ => false,
    }
}

/// The action installs exactly this forwarding rule.
pub open spec fn install_forward_is(act: AttachAction, rule: Seq<char>) -> bool {
    match act {
        AttachAction::InstallForward(r) => r@ == rule,
        _ => false,
    }
}

/// The transition relation of the attach machine: the ordered protocol
/// conversation, its compensation policy, and its error wrapping.
pub open spec fn attach_rel(
    pre: AttachState,
    ev: AttachEvent,
    post: AttachState,
    act: AttachAction,
) -> bool {
    match (pre.stage, ev) {
        (AttachStage::AwaitIpam, AttachEvent::Ipam(res)) => match res {
            Err(e) => {
                &&& post.stage == AttachStage::Done
                &&& act == (AttachAction::Fail { release: false, error: e })
            },
            Ok(s) => {
                &&& post.stage == AttachStage::AwaitNsSocket
                &&& act matches AttachAction::OpenNsSocket(p) && p == pre.netns
                &&& post.host_name == pre.host_name
                &&& same_params(pre, post)
                &&& Some(post.gw_addr) == spec_parse_ipv4(s.ips@[0].gateway@)
                &&& Some(post.peer_addr) == spec_addr_from_cidr(s.ips@[0].address@)
                &&& post.result == s
            },
        },
        (AttachStage::AwaitNsSocket, AttachEvent::NsSocket(res)) => match res {
            Err(m) => {
                &&& post.stage == AttachStage::Done
                &&& wrapped_fail(
                    act,
                    "Error creating netlink socket in container ns"@,
                    Some(m@),
                )
            },
            Ok(_) => {
                &&& post.stage == AttachStage::AwaitGatewayAck
                &&& act matches AttachAction::HostSend(v) && v@ == spec_gateway_request()
                &&& post.host_name == pre.host_name
                &&& same_params(pre, post)
                &&& same_addrs(pre, post)
                &&& same_result(pre, post)
            },
        },
        (AttachStage::AwaitGatewayAck, AttachEvent::Netlink(resp)) => {
            &&& ack_stage_rel(
                pre,
                resp,
                post,
                act,
                AttachStage::AwaitGatewayInfo,
                "Error creating gateway"@,
            )
            &&& (ack_ok(resp) ==> host_send_is(act, spec_get_link_request("patu0"@))
                && post.dump_count == 0)
        },
        (AttachStage::AwaitGatewayInfo, AttachEvent::Netlink(resp)) => {
            &&& dump_stage_rel(
                pre,
                resp,
                post,
                act,
                AttachAction::HostRecv,
                "Error creating gateway"@,
            )
            &&& (resp matches NlResponse::Ack && pre.dump_count == 1 ==> {
                &&& post.stage == AttachStage::AwaitGatewayAddrAck
                &&& post.gw_index == pre.dump_index
                &&& act matches AttachAction::HostSend(v) && v@ == spec_set_ip_request(
                    pre.dump_index,
                    pre.gw_addr,
                )
                &&& same_params(pre, post)
                &&& same_addrs(pre, post)
                &&& pushed_gateway(pre.result, post.result, spec_mac_string(pre.dump_mac@))
            })
        },
        (AttachStage::AwaitGatewayAddrAck, AttachEvent::Netlink(resp)) => {
            if ack_ok(resp) {
                &&& post.stage == AttachStage::AwaitNsFd
                &&& same_params(pre, post)
                &&& same_addrs(pre, post)
                &&& same_links(pre, post)
                &&& same_result(pre, post)
                &&& act matches AttachAction::OpenNsFd(p) && p == pre.netns
                &&& post.host_name@.len() == 12
                &&& post.host_name@.subrange(0, 4) == "veth"@
            } else {
                &&& post.stage == AttachStage::Done
                &&& wrapped_fail(act, "Error setting gateway IP"@, Some(resp_details(resp)))
            }
        },
        (AttachStage::AwaitNsFd, AttachEvent::NsFd(res)) => match res {
            Err(m) => {
                &&& post.stage == AttachStage::Done
                &&& wrapped_fail(act, "Error creating container interfaces"@, Some(m@))
            },
            Ok(fd) => {
                &&& post.stage == AttachStage::AwaitVethAck
                &&& post.host_name == pre.host_name
                &&& act matches AttachAction::HostSend(v) && v@ == spec_veth_request(
                    pre.ifname@,
                    pre.host_name@,
                    fd,
                    VETH_MTU,
                )
                &&& same_params(pre, post)
                &&& same_addrs(pre, post)
                &&& same_links(pre, post)
                &&& same_result(pre, post)
            },
        },
        (AttachStage::AwaitVethAck, AttachEvent::Netlink(resp)) => {
            &&& ack_stage_rel(
                pre,
                resp,
                post,
                act,
                AttachStage::AwaitHostInfo,
                "Error creating container interfaces"@,
            )
            &&& (ack_ok(resp) ==> host_send_is(act, spec_get_link_request(pre.host_name@))
                && post.dump_count == 0)
        },
        (AttachStage::AwaitHostInfo, AttachEvent::Netlink(resp)) => {
            &&& dump_stage_rel(
                pre,
                resp,
                post,
                act,
                AttachAction::HostRecv,
                "Error creating container interfaces"@,
            )
            &&& (resp matches NlResponse::Ack && pre.dump_count == 1 ==> {
                &&& post.stage == AttachStage::AwaitHostUpAck
                &&& post.host_index == pre.dump_index
                &&& post.host_mac@ == spec_mac_string(pre.dump_mac@)
                &&& act matches AttachAction::HostSend(v) && v@ == spec_set_up_request(
                    pre.dump_index,
                )
                &&& same_params(pre, post)
                &&& same_addrs(pre, post)
                &&& same_result(pre, post)
                &&& post.host_name == pre.host_name
            })
        },
        (AttachStage::AwaitHostUpAck, AttachEvent::Netlink(resp)) => {
            &&& ack_stage_rel(
                pre,
                resp,
                post,
                act,
                AttachStage::AwaitPeerInfo,
                "Error setting veth interface to up"@,
            )
            &&& (ack_ok(resp) ==> container_send_is(act, spec_get_link_request(pre.ifname@))
                && post.dump_count == 0)
        },
        (AttachStage::AwaitPeerInfo, AttachEvent::Netlink(resp)) => {
            &&& dump_stage_rel(
                pre,
                resp,
                post,
                act,
                AttachAction::ContainerRecv,
                "Error getting veth info"@,
            )
            &&& (resp matches NlResponse::Ack && pre.dump_count == 1 ==> {
                &&& post.stage == AttachStage::AwaitPeerAddrAck
                &&& post.peer_index == pre.dump_index
                &&& post.peer_mac@ == spec_mac_string(pre.dump_mac@)
                &&& act matches AttachAction::ContainerSend(v) && v@ == spec_set_ip_request(
                    pre.dump_index,
                    pre.peer_addr,
                )
                &&& same_params(pre, post)
                &&& same_addrs(pre, post)
                &&& same_result(pre, post)
                &&& post.host_name == pre.host_name
                &&& post.host_index == pre.host_index
                &&& post.host_mac == pre.host_mac
            })
        },
        (AttachStage::AwaitPeerAddrAck, AttachEvent::Netlink(resp)) => {
            &&& ack_stage_rel(
                pre,
                resp,
                post,
                act,
                AttachStage::AwaitPeerUpAck,
                "Error setting veth IP"@,
            )
            &&& (ack_ok(resp) ==> container_send_is(act, spec_set_up_request(pre.peer_index)))
        },
        (AttachStage::AwaitPeerUpAck, AttachEvent::Netlink(resp)) => {
            &&& ack_stage_rel(
                pre,
                resp,
                post,
                act,
                AttachStage::AwaitPeerRouteAck,
                "Error setting veth interface to up"@,
            )
            &&& (ack_ok(resp) ==> container_send_is(
                act,
                spec_dev_route_request(pre.peer_index, pre.gw_addr),
            ))
        },
        (AttachStage::AwaitPeerRouteAck, AttachEvent::Netlink(resp)) => {
            &&& ack_stage_rel(
                pre,
                resp,
                post,
                act,
                AttachStage::AwaitDefaultRouteAck,
                "Error creating route to host-side IP"@,
            )
            &&& (ack_ok(resp) ==> container_send_is(act, spec_default_route_request(pre.gw_addr)))
        },
        (AttachStage::AwaitDefaultRouteAck, AttachEvent::Netlink(resp)) => {
            &&& ack_stage_rel(
                pre,
                resp,
                post,
                act,
                AttachStage::AwaitForwardRule,
                "Error creating container default route"@,
            )
            &&& (ack_ok(resp) ==> install_forward_is(
                act,
                "-i "@ + pre.host_name@ + " -j ACCEPT"@,
            ))
        },
        (AttachStage::AwaitForwardRule, AttachEvent::Firewall(res)) => match res {
            Err(m) => {
                &&& post.stage == AttachStage::Done
                &&& wrapped_fail(act, "Can't set up forwarding rules"@, Some(m@))
            },
            Ok(_) => {
                &&& post.stage == AttachStage::AwaitHostRouteAck
                &&& post.host_name == pre.host_name
                &&& act matches AttachAction::HostSend(v) && v@ == spec_dev_route_request(
                    pre.host_index,
                    pre.peer_addr,
                )
                &&& same_params(pre, post)
                &&& same_addrs(pre, post)
                &&& same_links(pre, post)
                &&& same_result(pre, post)
            },
        },
        (AttachStage::AwaitHostRouteAck, AttachEvent::Netlink(resp)) => {
            if ack_ok(resp) {
                &&& post.stage == AttachStage::Done
                &&& act == AttachAction::Finish
                &&& merged_result(
                    pre.result,
                    post.result,
                    pre.host_name@,
                    pre.host_mac@,
                    pre.ifname@,
                    pre.peer_mac@,
                    pre.netns@,
                )
            } else {
                &&& post.stage == AttachStage::Done
                &&& wrapped_fail(
                    act,
                    "Error creating route to container IP"@,
                    Some(resp_details(resp)),
                )
            }
        },
        _ => false,
    }
}

/// The merged final result: everything the delegate reported, plus the
/// host-side record and the container-side record, in that order, at the
/// end of the interface list.
pub open spec fn merged_result(
    pre: Success,
    s: Success,
    host_name: Seq<char>,
    host_mac: Seq<char>,
    ifname: Seq<char>,
    peer_mac: Seq<char>,
    netns: Seq<char>,
) -> bool {
    &&& s.cni_version == pre.cni_version
    &&& s.ips == pre.ips
    &&& s.routes == pre.routes
    &&& s.dns == pre.dns
    &&& (match (pre.interfaces, s.interfaces) {
        (Some(old_v), Some(new_v)) => {
            &&& new_v@.len() == old_v@.len() + 2
            &&& new_v@.subrange(0, old_v@.len() as int) == old_v@
            &&& host_entry(new_v@[new_v@.len() - 2], host_name, host_mac)
            &&& peer_entry(new_v@.last(), ifname, peer_mac, netns)
        },
        (None, Some(new_v)) => {
            &&& new_v@.len() == 2
            &&& host_entry(new_v@[0], host_name, host_mac)
            &&& peer_entry(new_v@[1], ifname, peer_mac, netns)
        },
        _ => false,
    })
}

pub open spec fn host_entry(e: ResultInterface, name: Seq<char>, mac: Seq<char>) -> bool {
    &&& e.name@ == name
    &&& (e.mac matches Some(m) && m@ == mac)
    &&& e.sandbox is None
}

pub open spec fn peer_entry(e: ResultInterface, name: Seq<char>, mac: Seq<char>, netns: Seq<char>) -> bool {
    &&& e.name@ == name
    &&& (e.mac matches Some(m) && m@ == mac)
    &&& (e.sandbox matches Some(sb) && sb@ == netns)
}

/// Starts one attach conversation: the first action runs the delegate.
pub fn attach_start(netns: String, ifname: String) -> (r: (AttachState, AttachAction))
    requires
        string_is_ascii(&ifname),
        ifname@.len() <= 255,
    ensures
        r.0.wf(),
        r.0.stage == AttachStage::AwaitIpam,
        r.0.netns == netns,
        r.0.ifname == ifname,
        r.1 == AttachAction::CallIpam,
{
    let mut zeros: Vec<u8> = Vec::new();
    let mut k: usize = 0;
    while k < 6
        invariant
            k <= 6,
            zeros@.len() == k,
        decreases 6 - k,
    {
        zeros.push(0);
        k = k + 1;
    }
    let st = AttachState {
        stage: AttachStage::AwaitIpam,
        netns,
        ifname,
        gw_addr: Ipv4Addr { o0: 0, o1: 0, o2: 0, o3: 0 },
        peer_addr: Ipv4Addr { o0: 0, o1: 0, o2: 0, o3: 0 },
        host_name: String::new(),
        gw_index: 0,
        host_index: 0,
        host_mac: String::new(),
        peer_mac: String::new(),
        peer_index: 0,
        dump_count: 0,
        dump_index: 0,
        dump_mac: zeros,
        result: Success::default(),
    };
    (st, AttachAction::CallIpam)
}

fn wrap_fail(msg: &str, details: Option<String>) -> (act: AttachAction)
    ensures
        (act matches AttachAction::Fail { release, error } && release && error.code
            == ATTACH_ERR_CODE && error.msg@ == msg@ && (match (error.details, details) {
            (Some(d), Some(v)) => d == v,
            (None, None) => true,
            _ => false,
        })),
{
    AttachAction::Fail {
        release: true,
        error: Error::new_custom(ATTACH_ERR_CODE, String::from_str(msg), details),
    }
}

fn resp_details_text(resp: &NlResponse) -> (r: String)
    ensures
        r@ == resp_details(*resp),
{
    match resp {
        NlResponse::Refused(code) => netlink_error_text(*code),
        _ => String::from_str("unexpected netlink message"),
    }
}

fn is_ack_ok(resp: &NlResponse) -> (r: bool)
    ensures
        r == ack_ok(*resp),
{
    match resp {
        NlResponse::Ack => true,
        NlResponse::Refused(code) => *code == ERR_EXIST,
        _ => false,
    }
}

impl AttachState {
    /// Runs one transition of the attach machine.
    #[verifier::rlimit(100)]
    #[verifier::spinoff_prover]
    pub fn step(self, ev: AttachEvent) -> (r: (AttachState, AttachAction))
        requires
            self.wf(),
            self.accepts(&ev),
        ensures
            r.0.wf(),
            attach_rel(self, ev, r.0, r.1),
    {
        match (self.stage, ev) {
            (AttachStage::AwaitIpam, AttachEvent::Ipam(res)) => match res {
                Err(e) => {
                    let post = AttachState { stage: AttachStage::Done, ..self };
                    (post, AttachAction::Fail { release: false, error: e })
                },
                Ok(s) => {
                    let gw = match parse_ipv4(s.ips[0].gateway.as_str()) {
                        Some(a) => a,
                        None => vstd::pervasive::unreached(),
                    };
                    let peer = match addr_from_cidr_checked(s.ips[0].address.as_str()) {
                        Some(a) => a,
                        None => vstd::pervasive::unreached(),
                    };
                    let netns = self.netns.clone();
                    let post = AttachState {
                        stage: AttachStage::AwaitNsSocket,
                        gw_addr: gw,
                        peer_addr: peer,
                        result: s,
                        ..self
                    };
                    (post, AttachAction::OpenNsSocket(netns))
                },
            },
            (AttachStage::AwaitNsSocket, AttachEvent::NsSocket(res)) => match res {
                Err(m) => {
                    let post = AttachState { stage: AttachStage::Done, ..self };
                    (post, wrap_fail("Error creating netlink socket in container ns", Some(m)))
                },
                Ok(_) => {
                    let post = AttachState { stage: AttachStage::AwaitGatewayAck, ..self };
                    (post, AttachAction::HostSend(create_gateway_request()))
                },
            },
            (AttachStage::AwaitGatewayAck, AttachEvent::Netlink(resp)) => {
                if is_ack_ok(&resp) {
                    proof {
                        reveal_strlit("patu0");
                        assert(vstd::string::is_ascii("patu0"));
                    }
                    let post = AttachState {
                        stage: AttachStage::AwaitGatewayInfo,
                        dump_count: 0,
                        ..self
                    };
                    (post, AttachAction::HostSend(get_link_request("patu0")))
                } else {
                    let d = resp_details_text(&resp);
                    let post = AttachState { stage: AttachStage::Done, ..self };
                    (post, wrap_fail("Error creating gateway", Some(d)))
                }
            },
            (AttachStage::AwaitGatewayInfo, AttachEvent::Netlink(resp)) => match resp {
                NlResponse::Link(li) => self.dump_link(li, AttachAction::HostRecv),
                NlResponse::Ack => {
                    if self.dump_count == 1 {
                        let mac = mac_string(&self.dump_mac);
                        let entry = ResultInterface {
                            name: String::from_str("patu0"),
                            mac: Some(mac),
                            sandbox: None,
                        };
                        let idx = self.dump_index;
                        let gw_addr = self.gw_addr;
                        let mut post = AttachState {
                            stage: AttachStage::AwaitGatewayAddrAck,
                            gw_index: idx,
                            ..self
                        };
                        push_interface(&mut post.result, entry);
                        proof {
                            reveal_strlit("patu0");
                        }
                        (post, AttachAction::HostSend(set_ip_request(idx, gw_addr)))
                    } else {
                        self.dump_mismatch("Error creating gateway")
                    }
                },
                resp => {
                    let d = resp_details_text(&resp);
                    let post = AttachState { stage: AttachStage::Done, ..self };
                    (post, wrap_fail("Error creating gateway", Some(d)))
                },
            },
            (AttachStage::AwaitGatewayAddrAck, AttachEvent::Netlink(resp)) => {
                if is_ack_ok(&resp) {
                    let name = veth_name();
                    proof {
                        lemma_veth_name_ascii(name@);
                    }
                    let netns = self.netns.clone();
                    let post = AttachState {
                        stage: AttachStage::AwaitNsFd,
                        host_name: name,
                        ..self
                    };
                    (post, AttachAction::OpenNsFd(netns))
                } else {
                    let d = resp_details_text(&resp);
                    let post = AttachState { stage: AttachStage::Done, ..self };
                    (post, wrap_fail("Error setting gateway IP", Some(d)))
                }
            },
            (AttachStage::AwaitNsFd, AttachEvent::NsFd(res)) => match res {
                Err(m) => {
                    let post = AttachState { stage: AttachStage::Done, ..self };
                    (post, wrap_fail("Error creating container interfaces", Some(m)))
                },
                Ok(fd) => {
                    let req = create_veth_request(
                        self.ifname.as_str(),
                        self.host_name.as_str(),
                        fd,
                        VETH_MTU,
                    );
                    let post = AttachState { stage: AttachStage::AwaitVethAck, ..self };
                    (post, AttachAction::HostSend(req))
                },
            },
            (AttachStage::AwaitVethAck, AttachEvent::Netlink(resp)) => {
                if is_ack_ok(&resp) {
                    let req = get_link_request(self.host_name.as_str());
                    let post = AttachState {
                        stage: AttachStage::AwaitHostInfo,
                        dump_count: 0,
                        ..self
                    };
                    (post, AttachAction::HostSend(req))
                } else {
                    let d = resp_details_text(&resp);
                    let post = AttachState { stage: AttachStage::Done, ..self };
                    (post, wrap_fail("Error creating container interfaces", Some(d)))
                }
            },
            (AttachStage::AwaitHostInfo, AttachEvent::Netlink(resp)) => match resp {
                NlResponse::Link(li) => self.dump_link(li, AttachAction::HostRecv),
                NlResponse::Ack => {
                    if self.dump_count == 1 {
                        let mac = mac_string(&self.dump_mac);
                        let idx = self.dump_index;
                        let post = AttachState {
                            stage: AttachStage::AwaitHostUpAck,
                            host_index: idx,
                            host_mac: mac,
                            ..self
                        };
                        (post, AttachAction::HostSend(set_up_request(idx)))
                    } else {
                        self.dump_mismatch("Error creating container interfaces")
                    }
                },
                resp => {
                    let d = resp_details_text(&resp);
                    let post = AttachState { stage: AttachStage::Done, ..self };
                    (post, wrap_fail("Error creating container interfaces", Some(d)))
                },
            },
            (AttachStage::AwaitHostUpAck, AttachEvent::Netlink(resp)) => {
                if is_ack_ok(&resp) {
                    let req = get_link_request(self.ifname.as_str());
                    let post = AttachState {
                        stage: AttachStage::AwaitPeerInfo,
                        dump_count: 0,
                        ..self
                    };
                    (post, AttachAction::ContainerSend(req))
                } else {
                    let d = resp_details_text(&resp);
                    let post = AttachState { stage: AttachStage::Done, ..self };
                    (post, wrap_fail("Error setting veth interface to up", Some(d)))
                }
            },
            (AttachStage::AwaitPeerInfo, AttachEvent::Netlink(resp)) => match resp {
                NlResponse::Link(li) => self.dump_link(li, AttachAction::ContainerRecv),
                NlResponse::Ack => {
                    if self.dump_count == 1 {
                        let mac = mac_string(&self.dump_mac);
                        let idx = self.dump_index;
                        let peer_addr = self.peer_addr;
                        let post = AttachState {
                            stage: AttachStage::AwaitPeerAddrAck,
                            peer_index: idx,
                            peer_mac: mac,
                            ..self
                        };
                        (post, AttachAction::ContainerSend(set_ip_request(idx, peer_addr)))
                    } else {
                        self.dump_mismatch("Error getting veth info")
                    }
                },
                resp => {
                    let d = resp_details_text(&resp);
                    let post = AttachState { stage: AttachStage::Done, ..self };
                    (post, wrap_fail("Error getting veth info", Some(d)))
                },
            },
            (AttachStage::AwaitPeerAddrAck, AttachEvent::Netlink(resp)) => {
                if is_ack_ok(&resp) {
                    let idx = self.peer_index;
                    let post = AttachState { stage: AttachStage::AwaitPeerUpAck, ..self };
                    (post, AttachAction::ContainerSend(set_up_request(idx)))
                } else {
                    let d = resp_details_text(&resp);
                    let post = AttachState { stage: AttachStage::Done, ..self };
                    (post, wrap_fail("Error setting veth IP", Some(d)))
                }
            },
            (AttachStage::AwaitPeerUpAck, AttachEvent::Netlink(resp)) => {
                if is_ack_ok(&resp) {
                    let idx = self.peer_index;
                    let gw = self.gw_addr;
                    let post = AttachState { stage: AttachStage::AwaitPeerRouteAck, ..self };
                    (post, AttachAction::ContainerSend(create_dev_route_request(idx, gw)))
                } else {
                    let d = resp_details_text(&resp);
                    let post = AttachState { stage: AttachStage::Done, ..self };
                    (post, wrap_fail("Error setting veth interface to up", Some(d)))
                }
            },
            (AttachStage::AwaitPeerRouteAck, AttachEvent::Netlink(resp)) => {
                if is_ack_ok(&resp) {
                    let gw = self.gw_addr;
                    let post = AttachState { stage: AttachStage::AwaitDefaultRouteAck, ..self };
                    (post, AttachAction::ContainerSend(create_default_route_request(gw)))
                } else {
                    let d = resp_details_text(&resp);
                    let post = AttachState { stage: AttachStage::Done, ..self };
                    (post, wrap_fail("Error creating route to host-side IP", Some(d)))
                }
            },
            (AttachStage::AwaitDefaultRouteAck, AttachEvent::Netlink(resp)) => {
                if is_ack_ok(&resp) {
                    let rule = forward_rule(self.host_name.as_str());
                    let post = AttachState { stage: AttachStage::AwaitForwardRule, ..self };
                    (post, AttachAction::InstallForward(rule))
                } else {
                    let d = resp_details_text(&resp);
                    let post = AttachState { stage: AttachStage::Done, ..self };
                    (post, wrap_fail("Error creating container default route", Some(d)))
                }
            },
            (AttachStage::AwaitForwardRule, AttachEvent::Firewall(res)) => match res {
                Err(m) => {
                    let post = AttachState { stage: AttachStage::Done, ..self };
                    (post, wrap_fail("Can't set up forwarding rules", Some(m)))
                },
                Ok(_) => {
                    let idx = self.host_index;
                    let peer_addr = self.peer_addr;
                    let post = AttachState { stage: AttachStage::AwaitHostRouteAck, ..self };
                    (post, AttachAction::HostSend(create_dev_route_request(idx, peer_addr)))
                },
            },
            (AttachStage::AwaitHostRouteAck, AttachEvent::Netlink(resp)) => {
                if is_ack_ok(&resp) {
                    let host_entry = ResultInterface {
                        name: self.host_name.clone(),
                        mac: Some(self.host_mac.clone()),
                        sandbox: None,
                    };
                    let peer_entry = ResultInterface {
                        name: self.ifname.clone(),
                        mac: Some(self.peer_mac.clone()),
                        sandbox: Some(self.netns.clone()),
                    };
                    let ghost pre_res = self.result;
                    let mut post = AttachState { stage: AttachStage::Done, ..self };
                    push_interface(&mut post.result, host_entry);
                    let ghost mid_res = post.result;
                    push_interface(&mut post.result, peer_entry);
                    proof {
                        if pre_res.interfaces is Some {
                            let v0 = pre_res.interfaces->0@;
                            let v1 = mid_res.interfaces->0@;
                            let v2 = post.result.interfaces->0@;
                            assert forall|i: int| 0 <= i < v0.len() implies v2[i] == v0[i] by {
                                assert(v1.subrange(0, v0.len() as int)[i] == v1[i]);
                                assert(v2.subrange(0, v1.len() as int)[i] == v2[i]);
                            }
                            assert(v2.subrange(0, v0.len() as int) =~= v0);
                            assert(v2.subrange(0, v1.len() as int)[v1.len() - 1] == v2[v2.len()
                                - 2]);
                            assert(v2[v2.len() - 2] == v1.last());
                        } else {
                            let v1 = mid_res.interfaces->0@;
                            let v2 = post.result.interfaces->0@;
                            assert(v2.subrange(0, v1.len() as int)[0] == v2[0]);
                            assert(v2[0] == v1.last());
                        }
                    }
                    (post, AttachAction::Finish)
                } else {
                    let d = resp_details_text(&resp);
                    let post = AttachState { stage: AttachStage::Done, ..self };
                    (post, wrap_fail("Error creating route to container IP", Some(d)))
                }
            },
            _ => vstd::pervasive::unreached(),
        }
    }

    /// One more link record of a dump: count it and keep the first.
    fn dump_link(self, li: LinkInfo, recv: AttachAction) -> (r: (AttachState, AttachAction))
        requires
            self.wf(),
            li.mac@.len() == 6,
            recv == AttachAction::HostRecv || recv == AttachAction::ContainerRecv,
        ensures
            r.0.wf(),
            r.0.stage == self.stage,
            r.1 == recv,
            r.0.host_name == self.host_name,
            same_params(self, r.0),
            same_addrs(self, r.0),
            same_links(self, r.0),
            same_result(self, r.0),
            r.0.dump_count as int == (if self.dump_count < 2 {
                self.dump_count + 1
            } else {
                2int
            }),
            (self.dump_count == 0 ==> r.0.dump_index == li.index && r.0.dump_mac == li.mac),
            (self.dump_count != 0 ==> r.0.dump_index == self.dump_index && r.0.dump_mac
                == self.dump_mac),
    {
        if self.dump_count == 0 {
            let post = AttachState { dump_count: 1, dump_index: li.index, dump_mac: li.mac, ..self };
            (post, recv)
        } else {
            let c = if self.dump_count < 2 {
                self.dump_count + 1
            } else {
                2
            };
            let post = AttachState { dump_count: c, ..self };
            (post, recv)
        }
    }

    /// A dump that closed without exactly one record fails its stage.
    fn dump_mismatch(self, msg: &str) -> (r: (AttachState, AttachAction))
        requires
            self.wf(),
            self.dump_count != 1,
        ensures
            r.0.wf(),
            r.0.stage == AttachStage::Done,
            wrapped_fail(
                r.1,
                msg@,
                Some(
                    if self.dump_count == 0 {
                        "no interface with this name"@
                    } else {
                        "more than one interface with this name"@
                    },
                ),
            ),
    {
        let d = if self.dump_count == 0 {
            String::from_str("no interface with this name")
        } else {
            String::from_str("more than one interface with this name")
        };
        let post = AttachState { stage: AttachStage::Done, ..self };
        (post, wrap_fail(msg, Some(d)))
    }
}

// ---------------------------------------------------------------------
// Detach.
#[derive(Clone, Copy, Debug, PartialEq, Eq, Structural)]
pub enum DetachStage {
    AwaitNsSocket,
    AwaitLinkInfo,
    AwaitDeleteAck,
    AwaitIpamRelease,
    Done,
}

/// What the caller observed while performing the last detach action.
pub enum DetachEvent {
    /// Opening the namespace-scoped socket succeeded or failed.
    NsSocket(Result<(), String>),
    /// One response datagram, classified by the wire codec.
    Netlink(NlResponse),
    /// The delegate release ran; its outcome is deliberately ignored.
    IpamDone,
}

/// What the caller must do next.  There is no failing variant: detach is
/// best-effort and always reports success.
pub enum DetachAction {
    /// Open a routing socket bound inside the named namespace.
    OpenNsSocket(String),
    /// Send on the namespace-scoped socket, then read one datagram.
    ContainerSend(Vec<u8>),
    /// Read one more datagram from the namespace-scoped socket.
    ContainerRecv,
    /// Run the delegate in release mode; ignore its outcome.
    CallIpamRelease,
    /// The detach is complete; it reports an empty result.
    Finish,
}

pub struct DetachState {
    pub stage: DetachStage,
    pub netns: String,
    pub ifname: String,
    pub dump_count: u32,
    pub dump_index: u32,
}

/// The action sends exactly these bytes on the namespace-scoped socket.
pub open spec fn detach_send_is(act: DetachAction, v: Seq<u8>) -> bool {
    match act {
        DetachAction::ContainerSend(b) => b@ == v,
        _ => false,
    }
}

impl DetachState {
    pub open spec fn wf(&self) -> bool {
        &&& string_is_ascii(&self.ifname)
        &&& self.ifname@.len() <= 255
    }

    /// Which events this state accepts.
    pub open spec fn accepts(&self, ev: &DetachEvent) -> bool {
        match (self.stage, ev) {
            (DetachStage::AwaitNsSocket, DetachEvent::NsSocket(_)) => true,
            (DetachStage::AwaitLinkInfo, DetachEvent::Netlink(_)) => true,
            (DetachStage::AwaitDeleteAck, DetachEvent::Netlink(_)) => true,
            (DetachStage::AwaitIpamRelease, DetachEvent::IpamDone) => true,
            _ => false,
        }
    }
}

/// The transition relation of the detach machine: resolve the
/// container-side interface by name, delete it, release the delegate
/// allocation — and at the first thing missing, simply finish.
pub open spec fn detach_rel(
    pre: DetachState,
    ev: DetachEvent,
    post: DetachState,
    act: DetachAction,
) -> bool {
    match (pre.stage, ev) {
        (DetachStage::AwaitNsSocket, DetachEvent::NsSocket(res)) => match res {
            Err(_) => post.stage == DetachStage::Done && act == DetachAction::Finish,
            Ok(_) => {
                &&& post.stage == DetachStage::AwaitLinkInfo
                &&& detach_send_is(act, spec_get_link_request(pre.ifname@))
                &&& post.dump_count == 0
                &&& post.netns == pre.netns
                &&& post.ifname == pre.ifname
            },
        },
        (DetachStage::AwaitLinkInfo, DetachEvent::Netlink(resp)) => match resp {
            NlResponse::Link(li) => {
                &&& post.stage == pre.stage
                &&& act == DetachAction::ContainerRecv
                &&& post.netns == pre.netns
                &&& post.ifname == pre.ifname
                &&& post.dump_count as int == (if pre.dump_count < 2 {
                    pre.dump_count + 1
                } else {
                    2int
                })
                &&& (pre.dump_count == 0 ==> post.dump_index == li.index)
                &&& (pre.dump_count != 0 ==> post.dump_index == pre.dump_index)
            },
            NlResponse::Ack => {
                if pre.dump_count == 1 {
                    &&& post.stage == DetachStage::AwaitDeleteAck
                    &&& detach_send_is(act, spec_delete_link_request(pre.dump_index))
                    &&& post.netns == pre.netns
                    &&& post.ifname == pre.ifname
                } else {
                    post.stage == DetachStage::Done && act == DetachAction::Finish
                }
            },
            _ => post.stage == DetachStage::Done && act == DetachAction::Finish,
        },
        (DetachStage::AwaitDeleteAck, DetachEvent::Netlink(_)) => {
            &&& post.stage == DetachStage::AwaitIpamRelease
            &&& act == DetachAction::CallIpamRelease
            &&& post.netns == pre.netns
            &&& post.ifname == pre.ifname
        },
        (DetachStage::AwaitIpamRelease, DetachEvent::IpamDone) => post.stage == DetachStage::Done
            && act == DetachAction::Finish,
        _ => false,
    }
}

/// Starts one detach conversation.
pub fn detach_start(netns: String, ifname: String) -> (r: (DetachState, DetachAction))
    requires
        string_is_ascii(&ifname),
        ifname@.len() <= 255,
    ensures
        r.0.wf(),
        r.0.stage == DetachStage::AwaitNsSocket,
        r.0.netns == netns,
        r.0.ifname == ifname,
        (r.1 matches DetachAction::OpenNsSocket(p) && p == netns),
{
    let p = netns.clone();
    let st = DetachState {
        stage: DetachStage::AwaitNsSocket,
        netns,
        ifname,
        dump_count: 0,
        dump_index: 0,
    };
    (st, DetachAction::OpenNsSocket(p))
}

impl DetachState {
    /// Runs one transition of the detach machine.
    pub fn step(self, ev: DetachEvent) -> (r: (DetachState, DetachAction))
        requires
            self.wf(),
            self.accepts(&ev),
        ensures
            r.0.wf(),
            detach_rel(self, ev, r.0, r.1),
    {
        match (self.stage, ev) {
            (DetachStage::AwaitNsSocket, DetachEvent::NsSocket(res)) => match res {
                Err(_) => {
                    let post = DetachState { stage: DetachStage::Done, ..self };
                    (post, DetachAction::Finish)
                },
                Ok(_) => {
                    let req = get_link_request(self.ifname.as_str());
                    let post = DetachState {
                        stage: DetachStage::AwaitLinkInfo,
                        dump_count: 0,
                        ..self
                    };
                    (post, DetachAction::ContainerSend(req))
                },
            },
            (DetachStage::AwaitLinkInfo, DetachEvent::Netlink(resp)) => match resp {
                NlResponse::Link(li) => {
                    if self.dump_count == 0 {
                        let post = DetachState { dump_count: 1, dump_index: li.index, ..self };
                        (post, DetachAction::ContainerRecv)
                    } else {
                        let c = if self.dump_count < 2 {
                            self.dump_count + 1
                        } else {
                            2
                        };
                        let post = DetachState { dump_count: c, ..self };
                        (post, DetachAction::ContainerRecv)
                    }
                },
                NlResponse::Ack => {
                    if self.dump_count == 1 {
                        let req = delete_link_request(self.dump_index);
                        let post = DetachState { stage: DetachStage::AwaitDeleteAck, ..self };
                        (post, DetachAction::ContainerSend(req))
                    } else {
                        let post = DetachState { stage: DetachStage::Done, ..self };
                        (post, DetachAction::Finish)
                    }
                },
                _ => {
                    let post = DetachState { stage: DetachStage::Done, ..self };
                    (post, DetachAction::Finish)
                },
            },
            (DetachStage::AwaitDeleteAck, DetachEvent::Netlink(_)) => {
                let post = DetachState { stage: DetachStage::AwaitIpamRelease, ..self };
                (post, DetachAction::CallIpamRelease)
            },
            (DetachStage::AwaitIpamRelease, DetachEvent::IpamDone) => {
                let post = DetachState { stage: DetachStage::Done, ..self };
                (post, DetachAction::Finish)
            },
            _ => vstd::pervasive::unreached(),
        }
    }
}

/// Law: detach is idempotent for an already-removed namespace.  When the
/// namespace-scoped socket cannot be opened, the very first transition
/// finishes the machine: no protocol request is sent and the delegate is
/// never invoked, so running detach again does exactly the same and both
/// runs report success.
pub proof fn lemma_detach_idempotent_missing_namespace(
    pre: DetachState,
    m: String,
    post: DetachState,
    act: DetachAction,
)
    requires
        pre.stage == DetachStage::AwaitNsSocket,
        detach_rel(pre, DetachEvent::NsSocket(Err(m)), post, act),
    ensures
        post.stage == DetachStage::Done,
        act == DetachAction::Finish,
{
}

/// Law: detach is idempotent for an already-removed interface.  When the
/// filtered dump closes without a single matching record, the machine
/// finishes: no deletion is attempted and the delegate is never invoked,
/// so running detach again does exactly the same and both runs report
/// success.
pub proof fn lemma_detach_idempotent_missing_interface(
    pre: DetachState,
    post: DetachState,
    act: DetachAction,
)
    requires
        pre.stage == DetachStage::AwaitLinkInfo,
        pre.dump_count == 0,
        detach_rel(pre, DetachEvent::Netlink(NlResponse::Ack), post, act),
    ensures
        post.stage == DetachStage::Done,
        act == DetachAction::Finish,
{
}

/// Law: attach leaves nothing a detach cannot remove.  The container-side
/// record a finished attach reports carries exactly the requested
/// interface name, inside the attachment's namespace; a detach run with
/// the same parameters asks the kernel for exactly that name, and deletes
/// the link the dump resolves.  Dependent addresses, routes and firewall
/// references cascade away with the link inside the kernel, so no
/// host-side or container-side artifact attributable to the attachment
/// survives.
pub proof fn lemma_attach_then_detach_cleanup(
    pre_result: Success,
    s: Success,
    host_name: Seq<char>,
    host_mac: Seq<char>,
    ifname: Seq<char>,
    peer_mac: Seq<char>,
    netns: Seq<char>,
    dpre: DetachState,
    dpost: DetachState,
    dact: DetachAction,
)
    requires
        merged_result(pre_result, s, host_name, host_mac, ifname, peer_mac, netns),
        dpre.ifname@ == ifname,
        dpre.stage == DetachStage::AwaitNsSocket,
        detach_rel(dpre, DetachEvent::NsSocket(Ok(())), dpost, dact),
    ensures
        (s.interfaces matches Some(v) && v@.len() >= 1 && v@.last().name@ == ifname && (
        v@.last().sandbox matches Some(sb) && sb@ == netns)),
        detach_send_is(dact, spec_get_link_request(ifname)),
{
}

/// Appends one interface record to a result's list, starting the list
/// when the delegate reported none.
fn push_interface(result: &mut Success, entry: ResultInterface)
    ensures
        final(result).cni_version == old(result).cni_version,
        final(result).ips == old(result).ips,
        final(result).routes == old(result).routes,
        final(result).dns == old(result).dns,
        (match (old(result).interfaces, final(result).interfaces) {
            (Some(old_v), Some(new_v)) => new_v@.len() == old_v@.len() + 1 && new_v@.subrange(
                0,
                old_v@.len() as int,
            ) == old_v@ && new_v@.last() == entry,
            (None, Some(new_v)) => new_v@.len() == 1 && new_v@.last() == entry,
            _ => false,
        }),
{
    let ifaces = result.interfaces.take();
    match ifaces {
        Some(mut v) => {
            let ghost old_v = v@;
            v.push(entry);
            proof {
                assert(v@.subrange(0, old_v.len() as int) =~= old_v);
            }
            result.interfaces = Some(v);
        },
        None => {
            let mut v: Vec<ResultInterface> = Vec::new();
            v.push(entry);
            result.interfaces = Some(v);
        },
    }
}

} // verus!
