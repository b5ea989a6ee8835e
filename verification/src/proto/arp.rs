//! ARP (RFC 826): "who has this IPv4 address? tell me your MAC". An Ethernet
//! + IPv4 ARP message is 28 bytes, and a reply is the request with the roles
//! swapped.

use vstd::prelude::*;
use super::ethernet::MacAddress;
use super::ipv4::{Ipv4Addr, ipv4_at};
use super::wire::{be16, read_be16};

verus! {

/// The MAC MiniTCP invented for itself, 02:00:00:00:00:02; the leading 02
/// marks it as locally administered rather than burned into a network card.
pub open spec fn spec_our_mac() -> MacAddress {
    MacAddress([0x02, 0x00, 0x00, 0x00, 0x00, 0x02])
}

/// The IPv4 address MiniTCP answers for by default, 10.0.0.2.
pub open spec fn spec_our_ip() -> Ipv4Addr {
    Ipv4Addr([10, 0, 0, 2])
}

/// MiniTCP's default MAC, 02:00:00:00:00:02.
#[verifier::when_used_as_spec(spec_our_mac)]
pub fn our_mac() -> (m: MacAddress)
    ensures
        m == spec_our_mac(),
{
    MacAddress([0x02, 0x00, 0x00, 0x00, 0x00, 0x02])
}

/// MiniTCP's default IPv4 address, 10.0.0.2.
#[verifier::when_used_as_spec(spec_our_ip)]
pub fn our_ip() -> (a: Ipv4Addr)
    ensures
        a == spec_our_ip(),
{
    Ipv4Addr([10, 0, 0, 2])
}

/// An Ethernet/IPv4 request: hardware type 1, protocol 0x0800, address
/// lengths 6 and 4, operation 1.
pub open spec fn is_request(m: Seq<u8>) -> bool {
    &&& m.len() >= 28
    &&& be16(m[0], m[1]) == 1
    &&& be16(m[2], m[3]) == 0x0800
    &&& m[4] == 6
    &&& m[5] == 4
    &&& be16(m[6], m[7]) == 1
}

/// The 28-byte reply: we are the sender, the asker is the target.
pub open spec fn arp_reply_bytes(our_ip: Ipv4Addr, our_mac: MacAddress, request: Seq<u8>) -> Seq<u8> {
    seq![0u8, 1u8, 8u8, 0u8, 6u8, 4u8, 0u8, 2u8] + our_mac.0@ + our_ip.0@ + request.subrange(8, 14)
        + request.subrange(14, 18)
}

/// The sender (bytes 14..18) and target (bytes 24..28) IPv4 addresses of an
/// ARP message.
pub fn addresses(payload: &[u8]) -> (r: Option<(Ipv4Addr, Ipv4Addr)>)
    ensures
        payload@.len() < 28 <==> r is None,
        r matches Some(p) ==> p.0 == ipv4_at(payload@, 14) && p.1 == ipv4_at(payload@, 24),
{
    if payload.len() < 28 {
        return None;
    }
    Some((
        Ipv4Addr([payload[14], payload[15], payload[16], payload[17]]),
        Ipv4Addr([payload[24], payload[25], payload[26], payload[27]]),
    ))
}

/// The reply to "who has `our_ip`?", or `None` for anything else: a short
/// message, another hardware or protocol type, a reply, or a question about
/// another address.
pub fn reply_for(request: &[u8], our_ip: Ipv4Addr, our_mac: MacAddress) -> (r: Option<[u8; 28]>)
    ensures
        r is Some <==> (is_request(request@) && ipv4_at(request@, 24) == our_ip),
        r matches Some(reply) ==> reply@ == arp_reply_bytes(our_ip, our_mac, request@),
{
    if request.len() < 28 {
        return None;
    }
    let hardware_type = read_be16(request[0], request[1]);
    let protocol_type = read_be16(request[2], request[3]);
    let operation = read_be16(request[6], request[7]);
    if hardware_type != 1 || protocol_type != 0x0800 || request[4] != 6 || request[5] != 4 {
        return None;
    }
    let (requester_ip, target_ip) = match addresses(request) {
        Some(pair) => pair,
        None => return None,
    };
    if operation != 1 || target_ip != our_ip {
        return None;
    }
    let m = our_mac.0;
    let a = our_ip.0;
    let reply: [u8; 28] = [
        0, 1, 8, 0, 6, 4, 0, 2,
        m[0], m[1], m[2], m[3], m[4], m[5],
        a[0], a[1], a[2], a[3],
        request[8], request[9], request[10], request[11], request[12], request[13],
        requester_ip.0[0], requester_ip.0[1], requester_ip.0[2], requester_ip.0[3],
    ];
    assert(reply@ =~= arp_reply_bytes(our_ip, our_mac, request@));
    Some(reply)
}

/// A reply is never mistaken for a request, so answering cannot loop.
pub proof fn lemma_reply_is_not_a_request(our_ip: Ipv4Addr, our_mac: MacAddress, request: Seq<u8>)
    requires
        request.len() >= 28,
    ensures
        !is_request(arp_reply_bytes(our_ip, our_mac, request)),
        arp_reply_bytes(our_ip, our_mac, request).len() == 28,
{
    let b = arp_reply_bytes(our_ip, our_mac, request);
    assert(b[6] == 0 && b[7] == 2);
}

} // verus!
