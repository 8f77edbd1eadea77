//! The routing-protocol wire codec.
//!
//! Requests are little-endian byte strings: a 16-byte message header, a
//! fixed per-family structure, and a run of padded type-length-value
//! attributes.  Each builder's contract pins the exact bytes produced.
//! Responses are classified into the acknowledgment, error and link-record
//! shapes the operation engine interprets.

use vstd::prelude::*;
use vstd::string::StringSliceAdditionalSpecFns;
use vstd::string::is_ascii_spec_bytes;
use crate::addr::{Ipv4Addr, spec_addr_bytes};

verus! {

pub const RTM_NEWLINK: u16 = 16;

pub const RTM_DELLINK: u16 = 17;

pub const RTM_GETLINK: u16 = 18;

pub const RTM_SETLINK: u16 = 19;

pub const RTM_NEWADDR: u16 = 20;

pub const RTM_NEWROUTE: u16 = 24;

pub const NLMSG_ERROR: u16 = 2;

pub const NLM_F_REQUEST: u16 = 0x1;

pub const NLM_F_ACK: u16 = 0x4;

pub const NLM_F_EXCL: u16 = 0x200;

pub const NLM_F_CREATE: u16 = 0x400;

/// Flags of every mutating request: request, create, exclusive, and a
/// demanded acknowledgment.
pub const CREATE_FLAGS: u16 = NLM_F_REQUEST | NLM_F_CREATE | NLM_F_EXCL | NLM_F_ACK;

/// Flags of the filtered link dump: request and acknowledgment only.
pub const GET_FLAGS: u16 = NLM_F_REQUEST | NLM_F_ACK;

pub const IFF_UP: u32 = 1;

pub const IFLA_ADDRESS: u16 = 1;

pub const IFLA_IFNAME: u16 = 3;

pub const IFLA_MTU: u16 = 4;

pub const IFLA_LINKINFO: u16 = 18;

pub const IFLA_NET_NS_FD: u16 = 28;

pub const IFLA_EXT_MASK: u16 = 29;

pub const IFLA_INFO_KIND: u16 = 1;

pub const IFLA_INFO_DATA: u16 = 2;

pub const VETH_INFO_PEER: u16 = 1;

pub const IFA_ADDRESS: u16 = 1;

pub const IFA_LOCAL: u16 = 2;

pub const IFA_BROADCAST: u16 = 4;

pub const RTA_DST: u16 = 1;

pub const RTA_OIF: u16 = 4;

pub const RTA_GATEWAY: u16 = 5;

pub const AF_INET_BYTE: u8 = 2;

pub const RT_TABLE_MAIN: u8 = 254;

pub const RTPROT_STATIC: u8 = 4;

pub const RT_SCOPE_UNIVERSE: u8 = 0;

pub const RT_SCOPE_LINK: u8 = 253;

pub const RTN_UNICAST: u8 = 1;

/// Extension-mask value asking the kernel to omit the virtual-function
/// tree from link dumps.
pub const RTEXT_FILTER_VF: u32 = 1;

/// The value reported by a refused request whose target already exists;
/// such a refusal is treated as success by every create operation.
pub const ERR_EXIST: u32 = 0xFFFF_FFEF;

/// A 16-bit value, least significant byte first.
pub open spec fn spec_le16(x: u16) -> Seq<u8> {
    seq![(x & 0xff) as u8, (x >> 8) as u8]
}

/// A 32-bit value, least significant byte first.
pub open spec fn spec_le32(x: u32) -> Seq<u8> {
    seq![
        (x & 0xff) as u8,
        ((x >> 8) & 0xff) as u8,
        ((x >> 16) & 0xff) as u8,
        ((x >> 24) & 0xff) as u8,
    ]
}

/// The bytes of ASCII text.
pub open spec fn str_bytes(s: Seq<char>) -> Seq<u8> {
    Seq::new(s.len(), |i: int| s.index(i) as u8)
}

/// Zero padding aligning a payload of the given length up to four bytes.
pub open spec fn spec_pad4(n: int) -> Seq<u8> {
    Seq::new((((4 - n % 4) % 4)) as nat, |i: int| 0u8)
}

/// One attribute: length (header included), type, payload, padding.
pub open spec fn spec_nla(ty: u16, payload: Seq<u8>) -> Seq<u8> {
    spec_le16((payload.len() + 4) as u16) + spec_le16(ty) + payload + spec_pad4(
        payload.len() as int,
    )
}

/// The 16-byte message header: total length, type, flags, and zeroed
/// sequence and port numbers.
pub open spec fn spec_nl_header(total_len: u32, ty: u16, flags: u16) -> Seq<u8> {
    spec_le32(total_len) + spec_le16(ty) + spec_le16(flags) + spec_le32(0) + spec_le32(0)
}

/// A whole message: header with computed total length, then the payload.
pub open spec fn spec_message(ty: u16, flags: u16, payload: Seq<u8>) -> Seq<u8> {
    spec_nl_header((16 + payload.len()) as u32, ty, flags) + payload
}

/// The 16-byte link structure: family, type, index, flags, change mask.
pub open spec fn spec_ifinfomsg(index: u32, flags: u32, change: u32) -> Seq<u8> {
    seq![0u8, 0u8] + spec_le16(0) + spec_le32(index) + spec_le32(flags) + spec_le32(change)
}

/// The 8-byte address structure: IPv4 family, prefix length, flags,
/// scope, index.
pub open spec fn spec_ifaddrmsg(prefix_len: u8, index: u32) -> Seq<u8> {
    seq![AF_INET_BYTE, prefix_len, 0u8, 0u8] + spec_le32(index)
}

/// The 12-byte route structure for an IPv4 unicast route in the main
/// table, installed as a static route.
pub open spec fn spec_rtmsg(dst_len: u8, scope: u8) -> Seq<u8> {
    seq![AF_INET_BYTE, dst_len, 0u8, 0u8, RT_TABLE_MAIN, RTPROT_STATIC, scope, RTN_UNICAST]
        + spec_le32(0)
}

fn push_le16(buf: &mut Vec<u8>, x: u16)
    ensures
        final(buf)@ == old(buf)@ + spec_le16(x),
{
    buf.push(#[verifier::truncate] ((x & 0xff) as u8));
    buf.push(#[verifier::truncate] ((x >> 8) as u8));
    assert(final(buf)@ =~= old(buf)@ + spec_le16(x));
}

fn push_le32(buf: &mut Vec<u8>, x: u32)
    ensures
        final(buf)@ == old(buf)@ + spec_le32(x),
{
    buf.push(#[verifier::truncate] ((x & 0xff) as u8));
    buf.push(#[verifier::truncate] (((x >> 8) & 0xff) as u8));
    buf.push(#[verifier::truncate] (((x >> 16) & 0xff) as u8));
    buf.push(#[verifier::truncate] (((x >> 24) & 0xff) as u8));
    assert(final(buf)@ =~= old(buf)@ + spec_le32(x));
}

/// Appends ASCII text and a terminating zero byte, as interface names and
/// link kinds travel on the wire.
fn push_str_z(buf: &mut Vec<u8>, s: &str)
    requires
        s.is_ascii(),
    ensures
        final(buf)@ == old(buf)@ + str_bytes(s@) + seq![0u8],
{
    proof {
        is_ascii_spec_bytes(s);
    }
    buf.extend_from_slice(s.as_bytes());
    buf.push(0);
    assert(final(buf)@ =~= old(buf)@ + str_bytes(s@) + seq![0u8]);
}

fn push_nla(buf: &mut Vec<u8>, ty: u16, payload: &Vec<u8>)
    requires
        payload@.len() <= 65531,
    ensures
        final(buf)@ == old(buf)@ + spec_nla(ty, payload@),
{
    push_le16(buf, (payload.len() + 4) as u16);
    push_le16(buf, ty);
    buf.extend_from_slice(payload.as_slice());
    let rem = payload.len() % 4;
    if rem == 1 {
        buf.push(0);
        buf.push(0);
        buf.push(0);
    } else if rem == 2 {
        buf.push(0);
        buf.push(0);
    } else if rem == 3 {
        buf.push(0);
    }
    assert(final(buf)@ =~= old(buf)@ + spec_nla(ty, payload@));
}

fn push_ifinfomsg(buf: &mut Vec<u8>, index: u32, flags: u32, change: u32)
    ensures
        final(buf)@ == old(buf)@ + spec_ifinfomsg(index, flags, change),
{
    buf.push(0);
    buf.push(0);
    push_le16(buf, 0);
    push_le32(buf, index);
    push_le32(buf, flags);
    push_le32(buf, change);
    assert(final(buf)@ =~= old(buf)@ + spec_ifinfomsg(index, flags, change));
}

fn finish_message(ty: u16, flags: u16, payload: Vec<u8>) -> (v: Vec<u8>)
    requires
        payload@.len() <= 65519,
    ensures
        v@ == spec_message(ty, flags, payload@),
{
    let mut v: Vec<u8> = Vec::new();
    push_le32(&mut v, (payload.len() + 16) as u32);
    push_le16(&mut v, ty);
    push_le16(&mut v, flags);
    push_le32(&mut v, 0);
    push_le32(&mut v, 0);
    v.extend_from_slice(payload.as_slice());
    assert(v@ =~= spec_message(ty, flags, payload@));
    v
}

/// The request creating the fixed host gateway link: a dummy-kind link,
/// flagged up, created exclusively so that an existing gateway answers
/// with the tolerated already-exists refusal.
pub open spec fn spec_gateway_request() -> Seq<u8> {
    spec_message(
        RTM_NEWLINK,
        CREATE_FLAGS,
        spec_ifinfomsg(0, IFF_UP, IFF_UP) + spec_nla(IFLA_IFNAME, str_bytes("patu0"@) + seq![0u8])
            + spec_nla(IFLA_LINKINFO, spec_nla(IFLA_INFO_KIND, str_bytes("dummy"@) + seq![0u8])),
    )
}

/// Builds the gateway-creation request.
pub fn create_gateway_request() -> (v: Vec<u8>)
    ensures
        v@ == spec_gateway_request(),
{
    proof {
        reveal_strlit("patu0");
        reveal_strlit("dummy");
    }
    let mut payload: Vec<u8> = Vec::new();
    push_ifinfomsg(&mut payload, 0, IFF_UP, IFF_UP);
    let mut name_z: Vec<u8> = Vec::new();
    push_str_z(&mut name_z, "patu0");
    push_nla(&mut payload, IFLA_IFNAME, &name_z);
    let mut kind_z: Vec<u8> = Vec::new();
    push_str_z(&mut kind_z, "dummy");
    let mut link_info: Vec<u8> = Vec::new();
    push_nla(&mut link_info, IFLA_INFO_KIND, &kind_z);
    push_nla(&mut payload, IFLA_LINKINFO, &link_info);
    let v = finish_message(RTM_NEWLINK, CREATE_FLAGS, payload);
    proof {
        assert(v@ =~= spec_gateway_request());
    }
    v
}

/// The filtered link dump for one interface name.
pub open spec fn spec_get_link_request(name: Seq<char>) -> Seq<u8> {
    spec_message(
        RTM_GETLINK,
        GET_FLAGS,
        spec_ifinfomsg(0, 0, 0) + spec_nla(IFLA_IFNAME, str_bytes(name) + seq![0u8]) + spec_nla(
            IFLA_EXT_MASK,
            spec_le32(RTEXT_FILTER_VF),
        ),
    )
}

/// Builds the link-info request for one interface name.
pub fn get_link_request(name: &str) -> (v: Vec<u8>)
    requires
        name.is_ascii(),
        name@.len() <= 255,
    ensures
        v@ == spec_get_link_request(name@),
{
    let mut payload: Vec<u8> = Vec::new();
    push_ifinfomsg(&mut payload, 0, 0, 0);
    let mut name_z: Vec<u8> = Vec::new();
    push_str_z(&mut name_z, name);
    push_nla(&mut payload, IFLA_IFNAME, &name_z);
    let mut mask: Vec<u8> = Vec::new();
    push_le32(&mut mask, RTEXT_FILTER_VF);
    push_nla(&mut payload, IFLA_EXT_MASK, &mask);
    let v = finish_message(RTM_GETLINK, GET_FLAGS, payload);
    proof {
        assert(v@ =~= spec_get_link_request(name@));
    }
    v
}

/// The request raising a link's administrative-up flag.
pub open spec fn spec_set_up_request(index: u32) -> Seq<u8> {
    spec_message(RTM_SETLINK, CREATE_FLAGS, spec_ifinfomsg(index, IFF_UP, IFF_UP))
}

/// Builds the request raising a link's administrative-up flag.
pub fn set_up_request(index: u32) -> (v: Vec<u8>)
    ensures
        v@ == spec_set_up_request(index),
{
    let mut payload: Vec<u8> = Vec::new();
    push_ifinfomsg(&mut payload, index, IFF_UP, IFF_UP);
    let v = finish_message(RTM_SETLINK, CREATE_FLAGS, payload);
    proof {
        assert(v@ =~= spec_set_up_request(index));
    }
    v
}

/// The request assigning a host-bit-length address to a link: the same
/// four octets as address, local address and broadcast address.
pub open spec fn spec_set_ip_request(index: u32, a: Ipv4Addr) -> Seq<u8> {
    spec_message(
        RTM_NEWADDR,
        CREATE_FLAGS,
        spec_ifaddrmsg(32, index) + spec_nla(IFA_ADDRESS, spec_addr_bytes(a)) + spec_nla(
            IFA_LOCAL,
            spec_addr_bytes(a),
        ) + spec_nla(IFA_BROADCAST, spec_addr_bytes(a)),
    )
}

fn push_addr(buf: &mut Vec<u8>, a: Ipv4Addr)
    ensures
        final(buf)@ == old(buf)@ + spec_addr_bytes(a),
{
    buf.push(a.o0);
    buf.push(a.o1);
    buf.push(a.o2);
    buf.push(a.o3);
    assert(final(buf)@ =~= old(buf)@ + spec_addr_bytes(a));
}

/// Builds the request assigning a host-bit-length address to a link.
pub fn set_ip_request(index: u32, a: Ipv4Addr) -> (v: Vec<u8>)
    ensures
        v@ == spec_set_ip_request(index, a),
{
    let mut payload: Vec<u8> = Vec::new();
    payload.push(AF_INET_BYTE);
    payload.push(32);
    payload.push(0);
    payload.push(0);
    push_le32(&mut payload, index);
    assert(payload@ =~= spec_ifaddrmsg(32, index));
    let mut addr: Vec<u8> = Vec::new();
    push_addr(&mut addr, a);
    push_nla(&mut payload, IFA_ADDRESS, &addr);
    push_nla(&mut payload, IFA_LOCAL, &addr);
    push_nla(&mut payload, IFA_BROADCAST, &addr);
    let v = finish_message(RTM_NEWADDR, CREATE_FLAGS, payload);
    proof {
        assert(v@ =~= spec_set_ip_request(index, a));
    }
    v
}

/// The request installing the default route via a gateway address.
pub open spec fn spec_default_route_request(gw: Ipv4Addr) -> Seq<u8> {
    spec_message(
        RTM_NEWROUTE,
        CREATE_FLAGS,
        spec_rtmsg(0, RT_SCOPE_UNIVERSE) + spec_nla(RTA_GATEWAY, spec_addr_bytes(gw)),
    )
}

fn push_rtmsg(buf: &mut Vec<u8>, dst_len: u8, scope: u8)
    ensures
        final(buf)@ == old(buf)@ + spec_rtmsg(dst_len, scope),
{
    buf.push(AF_INET_BYTE);
    buf.push(dst_len);
    buf.push(0);
    buf.push(0);
    buf.push(RT_TABLE_MAIN);
    buf.push(RTPROT_STATIC);
    buf.push(scope);
    buf.push(RTN_UNICAST);
    push_le32(buf, 0);
    assert(final(buf)@ =~= old(buf)@ + spec_rtmsg(dst_len, scope));
}

/// Builds the default-route request.
pub fn create_default_route_request(gw: Ipv4Addr) -> (v: Vec<u8>)
    ensures
        v@ == spec_default_route_request(gw),
{
    let mut payload: Vec<u8> = Vec::new();
    push_rtmsg(&mut payload, 0, RT_SCOPE_UNIVERSE);
    let mut addr: Vec<u8> = Vec::new();
    push_addr(&mut addr, gw);
    push_nla(&mut payload, RTA_GATEWAY, &addr);
    let v = finish_message(RTM_NEWROUTE, CREATE_FLAGS, payload);
    proof {
        assert(v@ =~= spec_default_route_request(gw));
    }
    v
}

/// The request installing a link-scoped single-address route out of one
/// interface.
pub open spec fn spec_dev_route_request(index: u32, dst: Ipv4Addr) -> Seq<u8> {
    spec_message(
        RTM_NEWROUTE,
        CREATE_FLAGS,
        spec_rtmsg(32, RT_SCOPE_LINK) + spec_nla(RTA_OIF, spec_le32(index)) + spec_nla(
            RTA_DST,
            spec_addr_bytes(dst),
        ),
    )
}

/// Builds the single-address device route request.
pub fn create_dev_route_request(index: u32, dst: Ipv4Addr) -> (v: Vec<u8>)
    ensures
        v@ == spec_dev_route_request(index, dst),
{
    let mut payload: Vec<u8> = Vec::new();
    push_rtmsg(&mut payload, 32, RT_SCOPE_LINK);
    let mut oif: Vec<u8> = Vec::new();
    push_le32(&mut oif, index);
    push_nla(&mut payload, RTA_OIF, &oif);
    let mut addr: Vec<u8> = Vec::new();
    push_addr(&mut addr, dst);
    push_nla(&mut payload, RTA_DST, &addr);
    let v = finish_message(RTM_NEWROUTE, CREATE_FLAGS, payload);
    proof {
        assert(v@ =~= spec_dev_route_request(index, dst));
    }
    v
}

/// The request deleting a link by index; dependent addresses, routes and
/// firewall references cascade away inside the kernel.
pub open spec fn spec_delete_link_request(index: u32) -> Seq<u8> {
    spec_message(RTM_DELLINK, CREATE_FLAGS, spec_ifinfomsg(index, 0, 0))
}

/// Builds the link-deletion request.
pub fn delete_link_request(index: u32) -> (v: Vec<u8>)
    ensures
        v@ == spec_delete_link_request(index),
{
    let mut payload: Vec<u8> = Vec::new();
    push_ifinfomsg(&mut payload, index, 0, 0);
    let v = finish_message(RTM_DELLINK, CREATE_FLAGS, payload);
    proof {
        assert(v@ =~= spec_delete_link_request(index));
    }
    v
}

/// The request creating a veth pair: the container-side end carries the
/// requested name and moves into the target namespace by file descriptor;
/// the nested peer is the host-side end under the generated name.
pub open spec fn spec_veth_request(
    peer_name: Seq<char>,
    host_name: Seq<char>,
    nsfd: i32,
    mtu: u32,
) -> Seq<u8> {
    spec_message(
        RTM_NEWLINK,
        CREATE_FLAGS,
        spec_ifinfomsg(0, 0, 0) + spec_nla(IFLA_MTU, spec_le32(mtu)) + spec_nla(
            IFLA_IFNAME,
            str_bytes(peer_name) + seq![0u8],
        ) + spec_nla(IFLA_NET_NS_FD, spec_le32(nsfd as u32)) + spec_nla(
            IFLA_LINKINFO,
            spec_nla(IFLA_INFO_KIND, str_bytes("veth"@) + seq![0u8]) + spec_nla(
                IFLA_INFO_DATA,
                spec_nla(
                    VETH_INFO_PEER,
                    spec_ifinfomsg(0, 0, 0) + spec_nla(IFLA_MTU, spec_le32(mtu)) + spec_nla(
                        IFLA_IFNAME,
                        str_bytes(host_name) + seq![0u8],
                    ),
                ),
            ),
        ),
    )
}

/// Builds the veth-pair creation request.
pub fn create_veth_request(peer_name: &str, host_name: &str, nsfd: i32, mtu: u32) -> (v: Vec<u8>)
    requires
        peer_name.is_ascii(),
        peer_name@.len() <= 255,
        host_name.is_ascii(),
        host_name@.len() <= 255,
    ensures
        v@ == spec_veth_request(peer_name@, host_name@, nsfd, mtu),
{
    proof {
        reveal_strlit("veth");
    }
    let mut payload: Vec<u8> = Vec::new();
    push_ifinfomsg(&mut payload, 0, 0, 0);
    let mut mtu_v: Vec<u8> = Vec::new();
    push_le32(&mut mtu_v, mtu);
    push_nla(&mut payload, IFLA_MTU, &mtu_v);
    let mut peer_z: Vec<u8> = Vec::new();
    push_str_z(&mut peer_z, peer_name);
    push_nla(&mut payload, IFLA_IFNAME, &peer_z);
    let mut fd_v: Vec<u8> = Vec::new();
    push_le32(&mut fd_v, #[verifier::truncate] (nsfd as u32));
    push_nla(&mut payload, IFLA_NET_NS_FD, &fd_v);
    let mut peer_msg: Vec<u8> = Vec::new();
    push_ifinfomsg(&mut peer_msg, 0, 0, 0);
    push_nla(&mut peer_msg, IFLA_MTU, &mtu_v);
    let mut host_z: Vec<u8> = Vec::new();
    push_str_z(&mut host_z, host_name);
    push_nla(&mut peer_msg, IFLA_IFNAME, &host_z);
    let mut info_data: Vec<u8> = Vec::new();
    push_nla(&mut info_data, VETH_INFO_PEER, &peer_msg);
    let mut kind_z: Vec<u8> = Vec::new();
    push_str_z(&mut kind_z, "veth");
    let mut link_info: Vec<u8> = Vec::new();
    push_nla(&mut link_info, IFLA_INFO_KIND, &kind_z);
    push_nla(&mut link_info, IFLA_INFO_DATA, &info_data);
    push_nla(&mut payload, IFLA_LINKINFO, &link_info);
    let v = finish_message(RTM_NEWLINK, CREATE_FLAGS, payload);
    proof {
        assert(v@ =~= spec_veth_request(peer_name@, host_name@, nsfd, mtu));
    }
    v
}

// ---------------------------------------------------------------------
// Response parsing.
/// One link record from a dump response: the link's index and its
/// six-byte hardware address (zeros when the record carried none).
pub struct LinkInfo {
    pub index: u32,
    pub mac: Vec<u8>,
}

/// One parsed response datagram.
pub enum NlResponse {
    /// The empty acknowledgment closing a successful exchange.
    Ack,
    /// A refusal carrying the kernel's error value (a negated errno, in
    /// two's complement).
    Refused(u32),
    /// One link record of a dump.
    Link(LinkInfo),
    /// Anything else: too short, or a type the engine never asks for.
    Other,
}

/// A 16-bit little-endian read.
pub open spec fn spec_u16_at(b: Seq<u8>, i: int) -> u16 {
    (b[i] + b[i + 1] * 0x100) as u16
}

/// A 32-bit little-endian read.
pub open spec fn spec_u32_at(b: Seq<u8>, i: int) -> u32 {
    (b[i] + b[i + 1] * 0x100 + b[i + 2] * 0x10000 + b[i + 3] * 0x1000000) as u32
}

/// An acknowledgment: an error-type message whose value is zero.
pub open spec fn spec_is_ack(b: Seq<u8>) -> bool {
    b.len() >= 20 && spec_u16_at(b, 4) == NLMSG_ERROR && spec_u32_at(b, 16) == 0
}

/// A refusal: an error-type message with a nonzero value.
pub open spec fn spec_is_refused(b: Seq<u8>) -> bool {
    b.len() >= 20 && spec_u16_at(b, 4) == NLMSG_ERROR && spec_u32_at(b, 16) != 0
}

/// A link record: a new-link message long enough to carry the link
/// structure.
pub open spec fn spec_is_link(b: Seq<u8>) -> bool {
    b.len() >= 32 && spec_u16_at(b, 4) == RTM_NEWLINK
}

/// Scans the attribute run for the first hardware address of six or more
/// bytes, walking padded attribute boundaries.
pub open spec fn spec_mac_scan(b: Seq<u8>, pos: int) -> Option<Seq<u8>>
    decreases b.len() - pos,
{
    if pos < 0 || pos + 4 > b.len() {
        None
    } else {
        let alen = spec_u16_at(b, pos) as int;
        if alen < 4 {
            None
        } else if spec_u16_at(b, pos + 2) == IFLA_ADDRESS && alen >= 10 && pos + 10 <= b.len() {
            Some(b.subrange(pos + 4, pos + 10))
        } else {
            let next = pos + alen + ((4 - alen % 4) % 4);
            if next > b.len() {
                None
            } else {
                spec_mac_scan(b, next)
            }
        }
    }
}

/// The hardware address a link record reports, or zeros when it reports
/// none.
pub open spec fn spec_link_mac(b: Seq<u8>) -> Seq<u8> {
    match spec_mac_scan(b, 32) {
        Some(m) => m,
        None => seq![0u8, 0u8, 0u8, 0u8, 0u8, 0u8],
    }
}

/// Classifies one response datagram.  The classification is exact: each
/// variant holds exactly when its shape predicate holds of the bytes, and
/// a link record carries the index and hardware address read from them.
pub fn parse_response(buf: &[u8]) -> (r: NlResponse)
    requires
        buf@.len() <= 0x100000,
    ensures
        (match r {
            NlResponse::Ack => spec_is_ack(buf@),
            NlResponse::Refused(code) => spec_is_refused(buf@) && code == spec_u32_at(buf@, 16),
            NlResponse::Link(li) => spec_is_link(buf@) && li.index == spec_u32_at(buf@, 20)
                && li.mac@ == spec_link_mac(buf@) && li.mac@.len() == 6,
            NlResponse::Other => !spec_is_ack(buf@) && !spec_is_refused(buf@) && !spec_is_link(
                buf@,
            ),
        }),
{
    let n = buf.len();
    if n < 16 {
        return NlResponse::Other;
    }
    let ty = read_u16(buf, 4);
    if ty == NLMSG_ERROR {
        if n >= 20 {
            let code = read_u32(buf, 16);
            if code == 0 {
                NlResponse::Ack
            } else {
                NlResponse::Refused(code)
            }
        } else {
            NlResponse::Other
        }
    } else if ty == RTM_NEWLINK && n >= 32 {
        let index = read_u32(buf, 20);
        let mac = scan_mac(buf);
        NlResponse::Link(LinkInfo { index, mac })
    } else {
        NlResponse::Other
    }
}

fn read_u16(buf: &[u8], i: usize) -> (r: u16)
    requires
        i + 2 <= buf@.len(),
    ensures
        r == spec_u16_at(buf@, i as int),
{
    (buf[i] as u16) + (buf[i + 1] as u16) * 0x100
}

fn read_u32(buf: &[u8], i: usize) -> (r: u32)
    requires
        i + 4 <= buf@.len(),
    ensures
        r == spec_u32_at(buf@, i as int),
{
    (buf[i] as u32) + (buf[i + 1] as u32) * 0x100 + (buf[i + 2] as u32) * 0x10000 + (buf[i
        + 3] as u32) * 0x1000000
}

fn scan_mac(buf: &[u8]) -> (r: Vec<u8>)
    requires
        32 <= buf@.len() <= 0x100000,
    ensures
        r@ == spec_link_mac(buf@),
        r@.len() == 6,
{
    let n = buf.len();
    let mut pos: usize = 32;
    loop
        invariant
            32 <= pos,
            pos <= n + 4,
            n == buf@.len(),
            n <= 0x100000,
            spec_mac_scan(buf@, 32) == spec_mac_scan(buf@, pos as int),
        decreases n + 4 - pos,
    {
        if pos + 4 > n {
            return zero_mac(buf);
        }
        let alen = read_u16(buf, pos) as usize;
        if alen < 4 {
            return zero_mac(buf);
        }
        let aty = read_u16(buf, pos + 2);
        if aty == IFLA_ADDRESS && alen >= 10 && pos + 10 <= n {
            let mut mac: Vec<u8> = Vec::new();
            let mut k: usize = 0;
            while k < 6
                invariant
                    k <= 6,
                    pos + 10 <= n,
                    n == buf@.len(),
                    mac@ =~= buf@.subrange(pos + 4, pos + 4 + k),
                decreases 6 - k,
            {
                mac.push(buf[pos + 4 + k]);
                k = k + 1;
                assert(mac@ =~= buf@.subrange(pos + 4, pos + 4 + k as int));
            }
            assert(mac@ =~= buf@.subrange(pos + 4, pos + 10));
            return mac;
        }
        let mut next = pos + alen;
        if alen % 4 != 0 {
            next = next + (4 - alen % 4);
        }
        if next > n {
            return zero_mac(buf);
        }
        pos = next;
    }
}

/// The all-zero hardware address reported when a link record carries
/// none that the scan accepts.
fn zero_mac(buf: &[u8]) -> (r: Vec<u8>)
    requires
        spec_mac_scan(buf@, 32) is None,
    ensures
        r@ == spec_link_mac(buf@),
        r@.len() == 6,
{
    let mut zero: Vec<u8> = Vec::new();
    let mut k: usize = 0;
    while k < 6
        invariant
            k <= 6,
            zero@ =~= Seq::new(k as nat, |i: int| 0u8),
        decreases 6 - k,
    {
        zero.push(0);
        k = k + 1;
        assert(zero@ =~= Seq::new(k as nat, |i: int| 0u8));
    }
    assert(zero@ =~= seq![0u8, 0u8, 0u8, 0u8, 0u8, 0u8]);
    zero
}

} // verus!
