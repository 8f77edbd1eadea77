//! Fast-path redirect dataplane model.
//!
//! Two kernel hooks share one connection-keyed map: the
//! connection-established hook inserts a key for every new IPv4 TCP
//! connection, and the outgoing-message hook looks the key up to redirect a
//! message straight into the peer socket's receive buffer.  Both hooks are
//! reactive and fail open; the decisions they take are pure functions of the
//! hook context fields and are verified here.
//!
//! Context field encoding, as the kernel presents it: the two IP addresses
//! are in network byte order on both hooks; the local port is in host byte
//! order and the remote port in network byte order.

use vstd::prelude::*;

verus! {

/// Address family number for IPv4.
pub const AF_INET: u32 = 2;

/// Operation code of the connection-established callback for an actively
/// opened (outgoing) TCP connection.
pub const SOCK_OPS_ACTIVE_ESTABLISHED: u32 = 4;

/// Operation code of the connection-established callback for a passively
/// opened (accepted) TCP connection.
pub const SOCK_OPS_PASSIVE_ESTABLISHED: u32 = 5;

/// Key identifying one directed half of a TCP connection in the redirect
/// map, as seen by the side that recorded it.
#[derive(Clone, Copy, Debug, PartialEq, Eq, Structural)]
pub struct SockKey {
    pub remote_ip4: u32,
    pub local_ip4: u32,
    pub remote_port: u32,
    pub local_port: u32,
}

/// Byte swap of a 32-bit value: host byte order to network byte order on a
/// little-endian machine.
pub open spec fn spec_htonl(u: u32) -> u32 {
    ((u & 0xff) << 24) | ((u & 0xff00) << 8) | ((u >> 8) & 0xff00) | (u >> 24)
}

/// Converts a 32-bit value from host to network byte order.
pub fn htonl(u: u32) -> (r: u32)
    ensures
        r == spec_htonl(u),
{
    ((u & 0xff) << 24) | ((u & 0xff00) << 8) | ((u >> 8) & 0xff00) | (u >> 24)
}

/// The key the connection-established hook stores: the recording side's own
/// view of the tuple with the roles deliberately swapped, so that the peer's
/// outgoing messages resolve to the same entry.
pub open spec fn spec_establishment_key(
    local_ip4: u32,
    remote_ip4: u32,
    local_port: u32,
    remote_port: u32,
) -> SockKey {
    (SockKey {
        remote_ip4: local_ip4,
        local_ip4: remote_ip4,
        remote_port: spec_htonl(local_port) >> 16,
        local_port: remote_port >> 16,
    })
}

/// The key the outgoing-message hook looks up, built from the message's own
/// tuple without a swap.
pub open spec fn spec_message_key(
    local_ip4: u32,
    remote_ip4: u32,
    local_port: u32,
    remote_port: u32,
) -> SockKey {
    (SockKey {
        remote_ip4: remote_ip4,
        local_ip4: local_ip4,
        remote_port: remote_port >> 16,
        local_port: spec_htonl(local_port) >> 16,
    })
}

/// Builds the map key recorded at TCP establishment time from the
/// recording side's context fields.
pub fn establishment_key(
    local_ip4: u32,
    remote_ip4: u32,
    local_port: u32,
    remote_port: u32,
) -> (r: SockKey)
    ensures
        r == spec_establishment_key(local_ip4, remote_ip4, local_port, remote_port),
{
    SockKey {
        remote_ip4: local_ip4,
        local_ip4: remote_ip4,
        remote_port: htonl(local_port) >> 16,
        local_port: remote_port >> 16,
    }
}

/// Builds the map key looked up for an outgoing message from the sending
/// side's context fields.
pub fn message_key(local_ip4: u32, remote_ip4: u32, local_port: u32, remote_port: u32) -> (r:
    SockKey)
    ensures
        r == spec_message_key(local_ip4, remote_ip4, local_port, remote_port),
{
    SockKey {
        remote_ip4: remote_ip4,
        local_ip4: local_ip4,
        remote_port: remote_port >> 16,
        local_port: htonl(local_port) >> 16,
    }
}

/// Decision taken by the connection-established hook: record a key exactly
/// for IPv4 establishment callbacks, and stay silent otherwise.  Insertion
/// failure downstream is ignored; the map is a pure optimization.
pub fn sock_ops_decision(
    op: u32,
    family: u32,
    local_ip4: u32,
    remote_ip4: u32,
    local_port: u32,
    remote_port: u32,
) -> (r: Option<SockKey>)
    ensures
        r == (if (op == SOCK_OPS_ACTIVE_ESTABLISHED || op == SOCK_OPS_PASSIVE_ESTABLISHED)
            && family == AF_INET {
            Some(spec_establishment_key(local_ip4, remote_ip4, local_port, remote_port))
        } else {
            None::<SockKey>
        }),
{
    if (op == SOCK_OPS_ACTIVE_ESTABLISHED || op == SOCK_OPS_PASSIVE_ESTABLISHED) && family
        == AF_INET {
        Some(establishment_key(local_ip4, remote_ip4, local_port, remote_port))
    } else {
        None
    }
}

/// Decision taken by the outgoing-message hook: redirect through the map key
/// exactly for IPv4 messages; everything else passes through the normal
/// stack unmodified.
pub fn message_decision(
    family: u32,
    local_ip4: u32,
    remote_ip4: u32,
    local_port: u32,
    remote_port: u32,
) -> (r: Option<SockKey>)
    ensures
        r == (if family == AF_INET {
            Some(spec_message_key(local_ip4, remote_ip4, local_port, remote_port))
        } else {
            None::<SockKey>
        }),
{
    if family == AF_INET {
        Some(message_key(local_ip4, remote_ip4, local_port, remote_port))
    } else {
        None
    }
}

/// Law: the key one peer records at establishment equals the key the other
/// peer builds for its own outgoing messages, for every valid IPv4 4-tuple.
///
/// The hypotheses state how the kernel presents the same connection to the
/// two sides: mirrored addresses, and each side's remote port field holding
/// the network-byte-order form of the other side's host-byte-order local
/// port field.
pub proof fn lemma_key_convergence(
    a_local_ip4: u32,
    a_remote_ip4: u32,
    a_local_port: u32,
    a_remote_port: u32,
    b_local_ip4: u32,
    b_remote_ip4: u32,
    b_local_port: u32,
    b_remote_port: u32,
)
    requires
        b_local_ip4 == a_remote_ip4,
        b_remote_ip4 == a_local_ip4,
        a_remote_port == spec_htonl(b_local_port),
        b_remote_port == spec_htonl(a_local_port),
    ensures
        spec_establishment_key(a_local_ip4, a_remote_ip4, a_local_port, a_remote_port)
            == spec_message_key(b_local_ip4, b_remote_ip4, b_local_port, b_remote_port),
{
}

} // verus!
