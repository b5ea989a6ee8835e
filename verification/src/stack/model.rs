//! What `Stack::handle` decides for a frame, stated over the bytes of the
//! frame and the configuration.

use vstd::prelude::*;
use crate::event::{ArpOperation, DropReason, Dropped, Echo, Endpoints, Layer, OutcomeView, Scope, Step, arp_operation_of};
use crate::proto::arp::{arp_reply_bytes, is_request};
use crate::proto::checksum::checksum_of;
use crate::proto::ethernet::{EthernetFrame, EthernetType, MacAddress, ethertype_of, frame_bytes, mac_at};
use crate::proto::icmp::{echo_reply_bytes, with_echo_id};
use crate::proto::ipv4::{
    Ipv4Addr, Ipv4Packet, Protocol, bad_header_checksum, bad_ipv4_header, bad_total_length, ihl_bytes,
    ipv4_accepts, ipv4_at, is_fragment, packet_bytes, protocol_of, total_length,
};
use crate::proto::wire::{be16, byte_count};
use super::DropKind;

verus! {

/// A stack configuration with its drop list taken as a sequence.
pub struct ConfigModel {
    pub addr: Ipv4Addr,
    pub mac: MacAddress,
    pub ttl: u8,
    pub icmp_id: Option<u16>,
    pub drop: Seq<DropKind>,
    pub drop_pct: u8,
}

/// A drop step.
pub open spec fn dropped(layer: &'static str, osi: &'static str, scope: Scope, reason: DropReason) -> Step {
    Step::Drop(Dropped { layer, osi, scope, reason })
}

/// An outcome with no IPv4 endpoints and no reply.
pub open spec fn link_only(link: Option<Endpoints<MacAddress>>, steps: Seq<Step>) -> OutcomeView {
    OutcomeView { link, network: None, steps, reply: None }
}

/// The Ethernet endpoints of a frame.
pub open spec fn link_of(b: Seq<u8>) -> Endpoints<MacAddress> {
    Endpoints { source: mac_at(b, 6), destination: mac_at(b, 0) }
}

/// The Ethernet payload of a frame.
pub open spec fn eth_payload(b: Seq<u8>) -> Seq<u8> {
    b.subrange(14, b.len() as int)
}

/// The inbound Ethernet layer of a frame.
pub open spec fn ethernet_layer_of(b: Seq<u8>) -> Layer {
    Layer::Ethernet { source: mac_at(b, 6), destination: mac_at(b, 0), ethertype: be16(b[12], b[13]) }
}

/// A parsed frame agrees with its bytes.
pub open spec fn frame_matches(f: &EthernetFrame, b: Seq<u8>) -> bool {
    &&& f.destination == mac_at(b, 0)
    &&& f.source == mac_at(b, 6)
    &&& f.ethertype == ethertype_of(be16(b[12], b[13]))
    &&& f.payload@ == eth_payload(b)
}

/// The sender and target of an ARP payload, when it is long enough.
pub open spec fn arp_addresses_of(p: Seq<u8>) -> Option<Endpoints<Ipv4Addr>> {
    if p.len() < 28 {
        None
    } else {
        Some(Endpoints { source: ipv4_at(p, 14), destination: ipv4_at(p, 24) })
    }
}

/// The operation of an ARP payload; `Other(0)` when too short to say.
pub open spec fn arp_operation_in(p: Seq<u8>) -> ArpOperation {
    if p.len() < 8 {
        ArpOperation::Other(0)
    } else {
        arp_operation_of(be16(p[6], p[7]))
    }
}

/// An ICMP message as the step log describes it.
pub open spec fn icmp_layer_of(m: Seq<u8>) -> Layer {
    Layer::Icmp {
        kind: if m.len() == 0 { 0 } else { m[0] },
        code: if m.len() < 2 { 0 } else { m[1] },
        echo: if m.len() >= 8 {
            Some(Echo { id: be16(m[4], m[5]), sequence: be16(m[6], m[7]) })
        } else {
            None
        },
        len: byte_count(m),
    }
}

/// What the stack does with an ARP frame.
pub open spec fn arp_outcome(c: ConfigModel, b: Seq<u8>) -> OutcomeView {
    let p = eth_payload(b);
    let inbound = seq![
        Step::In(ethernet_layer_of(b)),
        Step::In(Layer::Arp { operation: arp_operation_in(p), addresses: arp_addresses_of(p), sender_mac: None }),
    ];
    if is_request(p) && ipv4_at(p, 24) == c.addr {
        OutcomeView {
            link: Some(link_of(b)),
            network: None,
            steps: inbound + seq![
                Step::Out(Layer::Ethernet { source: c.mac, destination: mac_at(b, 6), ethertype: 0x0806 }),
                Step::Out(Layer::Arp {
                    operation: ArpOperation::Reply,
                    addresses: Some(Endpoints { source: c.addr, destination: ipv4_at(p, 14) }),
                    sender_mac: Some(c.mac),
                }),
            ],
            reply: Some(frame_bytes(mac_at(b, 6), c.mac, 0x0806, arp_reply_bytes(c.addr, c.mac, p))),
        }
    } else {
        link_only(Some(link_of(b)), inbound)
    }
}

/// The message `Ipv4Packet::parse` refuses a packet with.
pub open spec fn ipv4_refusal(p: Seq<u8>) -> &'static str {
    if p.len() < 20 {
        "truncated ipv4 header"
    } else if bad_ipv4_header(p) {
        "invalid ipv4 header"
    } else if bad_total_length(p) {
        "invalid ipv4 total length"
    } else if is_fragment(p) {
        "ipv4 fragmentation unsupported"
    } else {
        "bad ipv4 checksum"
    }
}

/// The Ethernet payload is an IPv4 packet `Ipv4Packet::parse` accepts.
pub open spec fn ipv4_accepts_payload(b: Seq<u8>) -> bool {
    ipv4_accepts(eth_payload(b))
}

/// The IPv4 payload carried by a frame.
pub open spec fn ip_data(b: Seq<u8>) -> Seq<u8> {
    let p = eth_payload(b);
    p.subrange(ihl_bytes(p) as int, total_length(p) as int)
}

/// A parsed packet agrees with the frame's bytes.
pub open spec fn packet_matches(k: &Ipv4Packet, b: Seq<u8>) -> bool {
    let p = eth_payload(b);
    &&& k.ttl == p[8]
    &&& k.protocol == protocol_of(p[9])
    &&& k.source == ipv4_at(p, 12)
    &&& k.destination == ipv4_at(p, 16)
    &&& k.payload@ == ip_data(b)
}

/// The outcome once an IPv4 header has been accepted, before its payload is
/// looked at.
pub open spec fn ipv4_prefix(b: Seq<u8>) -> OutcomeView {
    let p = eth_payload(b);
    OutcomeView {
        link: Some(link_of(b)),
        network: Some(Endpoints { source: ipv4_at(p, 12), destination: ipv4_at(p, 16) }),
        steps: seq![
            Step::In(ethernet_layer_of(b)),
            Step::In(Layer::Ipv4 {
                source: ipv4_at(p, 12),
                destination: ipv4_at(p, 16),
                ttl: p[8],
                protocol: protocol_of(p[9]),
                payload_len: ip_data(b).len() as usize,
            }),
        ],
        reply: None,
    }
}

/// `o` with one more step.
pub open spec fn then(o: OutcomeView, s: Step) -> OutcomeView {
    OutcomeView { steps: o.steps.push(s), ..o }
}

/// The message `make_echo_reply` refuses a message with.
pub open spec fn icmp_refusal(m: Seq<u8>) -> &'static str {
    if m.len() < 8 {
        "truncated ICMP echo"
    } else if m[0] != 8 || m[1] != 0 {
        "not echo request"
    } else {
        "bad icmp checksum"
    }
}

/// `make_echo_reply` answers this message.
pub open spec fn is_echo_request(m: Seq<u8>) -> bool {
    m.len() >= 8 && m[0] == 8 && m[1] == 0 && checksum_of(m) == 0
}

/// The ICMP message the stack sends back: the echo reply, with the
/// configured identifier if there is one.
pub open spec fn icmp_reply_message(c: ConfigModel, m: Seq<u8>) -> Seq<u8> {
    match c.icmp_id {
        Some(id) => with_echo_id(echo_reply_bytes(m), id),
        None => echo_reply_bytes(m),
    }
}

/// The whole reply frame to an echo request.
pub open spec fn icmp_reply_frame(c: ConfigModel, b: Seq<u8>) -> Seq<u8> {
    let p = eth_payload(b);
    frame_bytes(
        mac_at(b, 6),
        c.mac,
        0x0800,
        packet_bytes(c.ttl, Protocol::Icmp, c.addr, ipv4_at(p, 12), icmp_reply_message(c, ip_data(b))),
    )
}

/// What the stack does with an accepted ICMP packet.
pub open spec fn icmp_outcome(c: ConfigModel, b: Seq<u8>) -> OutcomeView {
    let p = eth_payload(b);
    let m = ip_data(b);
    let pre = ipv4_prefix(b);
    if ipv4_at(p, 16) != c.addr {
        then(pre, dropped("icmp", "L3", Scope::Payload, DropReason::NotForUs))
    } else if c.drop.contains(DropKind::Icmp) {
        then(pre, dropped("icmp", "L3", Scope::Payload, DropReason::Filtered))
    } else if !is_echo_request(m) {
        then(
            then(pre, Step::In(icmp_layer_of(m))),
            dropped("icmp", "L3", Scope::Payload, DropReason::Malformed(icmp_refusal(m))),
        )
    } else {
        let r = icmp_reply_message(c, m);
        OutcomeView {
            steps: pre.steps + seq![
                Step::In(icmp_layer_of(m)),
                Step::Out(Layer::Ethernet { source: c.mac, destination: mac_at(b, 6), ethertype: 0x0800 }),
                Step::Out(Layer::Ipv4 {
                    source: c.addr,
                    destination: ipv4_at(p, 12),
                    ttl: c.ttl,
                    protocol: Protocol::Icmp,
                    payload_len: byte_count(r),
                }),
                Step::Out(icmp_layer_of(r)),
            ],
            reply: Some(icmp_reply_frame(c, b)),
            ..pre
        }
    }
}

/// What the stack does with an IPv4 frame.
pub open spec fn ipv4_outcome(c: ConfigModel, b: Seq<u8>) -> OutcomeView {
    let p = eth_payload(b);
    if !ipv4_accepts(p) {
        link_only(
            Some(link_of(b)),
            seq![
                Step::In(ethernet_layer_of(b)),
                dropped("ipv4", "L3", Scope::Network, DropReason::Malformed(ipv4_refusal(p))),
            ],
        )
    } else {
        match protocol_of(p[9]) {
            Protocol::Icmp => icmp_outcome(c, b),
            Protocol::Udp => then(ipv4_prefix(b), dropped("udp", "L4", Scope::Payload, DropReason::NotImplemented)),
            Protocol::Tcp => then(ipv4_prefix(b), dropped("tcp", "L4", Scope::Payload, DropReason::NotImplemented)),
            Protocol::Unknown(n) => then(
                ipv4_prefix(b),
                dropped("ipv4", "L3", Scope::Network, DropReason::UnknownProtocol(n)),
            ),
        }
    }
}

/// What the stack does with a frame, given whether `drop_pct` chose to lose it.
pub open spec fn outcome_of(c: ConfigModel, b: Seq<u8>, lost: bool) -> OutcomeView {
    if b.len() < 14 {
        link_only(None, seq![dropped("ethernet", "L2", Scope::Link, DropReason::Malformed("truncated ethernet frame"))])
    } else {
        let link = Some(link_of(b));
        let t = ethertype_of(be16(b[12], b[13]));
        if lost {
            link_only(link, seq![dropped("ethernet", "L2", Scope::Link, DropReason::RandomLoss)])
        } else if c.drop.contains(DropKind::Arp) && t == EthernetType::Arp {
            link_only(link, seq![dropped("arp", "L2", Scope::Link, DropReason::Filtered)])
        } else if c.drop.contains(DropKind::Ip) && t == EthernetType::Ipv4 {
            link_only(link, seq![dropped("ipv4", "L3", Scope::Link, DropReason::Filtered)])
        } else {
            match t {
                EthernetType::Arp => arp_outcome(c, b),
                EthernetType::Ipv4 => ipv4_outcome(c, b),
                EthernetType::Unknown(_) => link_only(link, seq![Step::In(ethernet_layer_of(b))]),
            }
        }
    }
}

} // verus!
