//! The userspace stack: one Ethernet frame in, at most one frame out.
//!
//! `Stack::handle` is sans-io: it opens no sockets, reads no clock and prints
//! nothing. It takes one frame and returns what it made of it, which is what
//! lets the same code run against a TAP device, a pcap file, a hex dump, or a
//! byte array in a test.

pub mod rng;
pub mod model;
pub mod laws;
pub mod session;

use vstd::prelude::*;
use crate::event::{
    ArpOperation, DropReason, Dropped, Echo, Endpoints, Layer, Outcome, Scope, Step, arp_operation_of,
};
use crate::proto::arp::{our_ip, our_mac, reply_for, addresses};
use crate::proto::ethernet::{EthernetFrame, EthernetType, MacAddress};
use crate::proto::icmp::{make_echo_reply, set_echo_id};
use crate::proto::ipv4::{Ipv4Addr, Ipv4Packet, Protocol};
use crate::proto::wire::read_be16;
use rng::{SeededRng, drop_pct_hit, loss};
use model::{
    ConfigModel, arp_addresses_of, arp_operation_in, arp_outcome, ethernet_layer_of, frame_matches, icmp_layer_of,
    icmp_outcome, ipv4_accepts_payload, ipv4_outcome, ipv4_prefix, link_of, outcome_of, packet_matches,
};

verus! {

/// A kind of traffic to discard on purpose, so you can watch what breaks.
#[derive(Clone, Copy, Debug, PartialEq, Eq, Structural)]
pub enum DropKind {
    Arp,
    Icmp,
    Ip,
}

impl DropKind {
    /// The name used on the command line and in minitcp.toml.
    pub fn name(self) -> (r: &'static str)
        ensures
            r@ == drop_kind_name(self),
    {
        match self {
            DropKind::Arp => "arp",
            DropKind::Icmp => "icmp",
            DropKind::Ip => "ip",
        }
    }
}

/// The name of a drop kind.
pub open spec fn drop_kind_name(k: DropKind) -> Seq<char> {
    match k {
        DropKind::Arp => "arp"@,
        DropKind::Icmp => "icmp"@,
        DropKind::Ip => "ip"@,
    }
}

/// Who the stack is on the wire, and which packets it should deliberately lose.
#[derive(Clone, Debug, PartialEq, Eq)]
pub struct StackConfig {
    /// The IPv4 address this stack answers for.
    pub addr: Ipv4Addr,
    /// The MAC address it advertises in ARP replies.
    pub mac: MacAddress,
    /// TTL written on outgoing IPv4 packets.
    pub ttl: u8,
    /// Override the ICMP echo identifier on replies instead of echoing it back.
    pub icmp_id: Option<u16>,
    /// Protocols to discard on arrival.
    pub drop: Vec<DropKind>,
    /// Percentage of frames to discard at random, before anything is decoded.
    pub drop_pct: u8,
}

impl StackConfig {
    /// The configuration with its drop list taken as a sequence.
    pub open spec fn model(&self) -> ConfigModel {
        ConfigModel {
            addr: self.addr,
            mac: self.mac,
            ttl: self.ttl,
            icmp_id: self.icmp_id,
            drop: self.drop@,
            drop_pct: self.drop_pct,
        }
    }
}

impl Default for StackConfig {
    /// MiniTCP at 10.0.0.2 / 02:00:00:00:00:02, TTL 64, nothing dropped.
    fn default() -> (c: Self)
        ensures
            c.addr == crate::proto::arp::spec_our_ip(),
            c.mac == crate::proto::arp::spec_our_mac(),
            c.ttl == 64,
            c.icmp_id is None,
            c.drop@ == Seq::<DropKind>::empty(),
            c.drop_pct == 0,
    {
        StackConfig {
            addr: our_ip(),
            mac: our_mac(),
            ttl: 64,
            icmp_id: None,
            drop: Vec::new(),
            drop_pct: 0,
        }
    }
}

pub struct Stack {
    config: StackConfig,
    rng: SeededRng,
}

impl Stack {
    /// The configuration the stack runs with.
    pub closed spec fn spec_config(&self) -> ConfigModel {
        self.config.model()
    }

    /// The state of the random generator that `drop_pct` draws from.
    pub closed spec fn rng_state(&self) -> u64 {
        self.rng.state()
    }

    /// A stack seeded from the clock.
    pub fn new(config: StackConfig) -> (s: Self)
        ensures
            s.spec_config() == config.model(),
            s.rng_state() & 1 == 1,
    {
        Stack { config, rng: SeededRng::from_entropy() }
    }

    /// Same stack with a fixed random seed, so `drop_pct` is reproducible.
    pub fn with_seed(config: StackConfig, seed: u64) -> (s: Self)
        ensures
            s.spec_config() == config.model(),
            s.rng_state() == seed | 1,
    {
        Stack { config, rng: SeededRng::new(seed) }
    }

    pub fn config(&self) -> (c: &StackConfig)
        ensures
            c.model() == self.spec_config(),
    {
        &self.config
    }

    fn drops(&self, kind: DropKind) -> (r: bool)
        ensures
            r == self.spec_config().drop.contains(kind),
    {
        let mut i: usize = 0;
        while i < self.config.drop.len()
            invariant
                i <= self.config.drop@.len(),
                forall|j: int| 0 <= j < i ==> self.config.drop@[j] != kind,
            decreases self.config.drop@.len() - i,
        {
            if self.config.drop[i] == kind {
                return true;
            }
            i = i + 1;
        }
        false
    }

    /// Decodes one Ethernet frame and decides what, if anything, to send back.
    pub fn handle(&mut self, bytes: &[u8]) -> (out: Outcome)
        ensures
            final(self).spec_config() == old(self).spec_config(),
            ({
                let (lost, next) = if bytes@.len() < 14 {
                    (false, old(self).rng_state())
                } else {
                    loss(old(self).spec_config().drop_pct, old(self).rng_state())
                };
                &&& final(self).rng_state() == next
                &&& out@ == outcome_of(old(self).spec_config(), bytes@, lost)
            }),
    {
        let mut out = Outcome::new();
        let frame = match EthernetFrame::parse(bytes) {
            Ok(frame) => frame,
            Err(e) => {
                out.steps.push(drop_step("ethernet", "L2", Scope::Link, DropReason::Malformed(e)));
                return out;
            },
        };
        out.link = Some(Endpoints::new(frame.source, frame.destination));
        if drop_pct_hit(self.config.drop_pct, &mut self.rng) {
            out.steps.push(drop_step("ethernet", "L2", Scope::Link, DropReason::RandomLoss));
            return out;
        }
        if self.drops(DropKind::Arp) && frame.ethertype == EthernetType::Arp {
            out.steps.push(drop_step("arp", "L2", Scope::Link, DropReason::Filtered));
            return out;
        }
        if self.drops(DropKind::Ip) && frame.ethertype == EthernetType::Ipv4 {
            out.steps.push(drop_step("ipv4", "L3", Scope::Link, DropReason::Filtered));
            return out;
        }
        match frame.ethertype {
            EthernetType::Arp => self.handle_arp(&mut out, &frame, Ghost(bytes@)),
            EthernetType::Ipv4 => self.handle_ipv4(&mut out, &frame, Ghost(bytes@)),
            EthernetType::Unknown(_) => out.steps.push(Step::In(ethernet_layer(&frame))),
        }
        out
    }

    fn handle_arp(&self, out: &mut Outcome, frame: &EthernetFrame<'_>, Ghost(bytes): Ghost<Seq<u8>>)
        requires
            bytes.len() >= 14,
            old(out).link == Some(link_of(bytes)),
            old(out).network is None,
            old(out).reply is None,
            old(out).steps@ == Seq::<Step>::empty(),
            frame_matches(frame, bytes),
        ensures
            final(out)@ == arp_outcome(self.spec_config(), bytes),
    {
        let addrs = arp_addresses(frame.payload);
        let operation = arp_operation(frame.payload);
        let our = self.config.addr;
        let mac = self.config.mac;
        out.steps.push(Step::In(ethernet_layer(frame)));
        out.steps.push(Step::In(Layer::Arp { operation, addresses: addrs, sender_mac: None }));
        let reply = match reply_for(frame.payload, our, mac) {
            Some(reply) => reply,
            None => {
                assert(out@ =~= arp_outcome(self.spec_config(), bytes));
                return;
            },
        };
        let asked = match addrs {
            Some(asked) => asked,
            None => {
                return;
            },
        };
        let mut ethernet_reply: Vec<u8> = Vec::new();
        EthernetFrame::write_ethernet(&mut ethernet_reply, frame.source, mac, 0x0806, &reply);
        out.steps.push(Step::Out(Layer::Ethernet { source: mac, destination: frame.source, ethertype: 0x0806 }));
        out.steps.push(
            Step::Out(
                Layer::Arp {
                    operation: ArpOperation::Reply,
                    addresses: Some(Endpoints::new(our, asked.source)),
                    sender_mac: Some(mac),
                },
            ),
        );
        assert(ethernet_reply@ =~= crate::proto::ethernet::frame_bytes(frame.source, mac, 0x0806, reply@));
        out.reply = Some(ethernet_reply);
        assert(out@ =~= arp_outcome(self.spec_config(), bytes));
    }

    fn handle_ipv4(&self, out: &mut Outcome, frame: &EthernetFrame<'_>, Ghost(bytes): Ghost<Seq<u8>>)
        requires
            bytes.len() >= 14,
            old(out).link == Some(link_of(bytes)),
            old(out).network is None,
            old(out).reply is None,
            old(out).steps@ == Seq::<Step>::empty(),
            frame_matches(frame, bytes),
        ensures
            final(out)@ == ipv4_outcome(self.spec_config(), bytes),
    {
        let packet = match Ipv4Packet::parse(frame.payload) {
            Ok(packet) => packet,
            Err(e) => {
                out.steps.push(Step::In(ethernet_layer(frame)));
                out.steps.push(drop_step("ipv4", "L3", Scope::Network, DropReason::Malformed(e)));
                return;
            },
        };
        out.network = Some(Endpoints::new(packet.source, packet.destination));
        out.steps.push(Step::In(ethernet_layer(frame)));
        out.steps.push(
            Step::In(
                Layer::Ipv4 {
                    source: packet.source,
                    destination: packet.destination,
                    ttl: packet.ttl,
                    protocol: packet.protocol,
                    payload_len: packet.payload.len(),
                },
            ),
        );
        assert(out@ =~= ipv4_prefix(bytes));
        match packet.protocol {
            Protocol::Icmp => self.handle_icmp(out, frame, &packet, Ghost(bytes)),
            Protocol::Udp => out.steps.push(drop_step("udp", "L4", Scope::Payload, DropReason::NotImplemented)),
            Protocol::Tcp => out.steps.push(drop_step("tcp", "L4", Scope::Payload, DropReason::NotImplemented)),
            Protocol::Unknown(n) => out.steps.push(
                drop_step("ipv4", "L3", Scope::Network, DropReason::UnknownProtocol(n)),
            ),
        }
    }

    fn handle_icmp(&self, out: &mut Outcome, frame: &EthernetFrame<'_>, packet: &Ipv4Packet<'_>, Ghost(bytes): Ghost<Seq<u8>>)
        requires
            bytes.len() >= 14,
            frame_matches(frame, bytes),
            ipv4_accepts_payload(bytes),
            packet_matches(packet, bytes),
            old(out)@ == ipv4_prefix(bytes),
        ensures
            final(out)@ == icmp_outcome(self.spec_config(), bytes),
    {
        let our = self.config.addr;
        let mac = self.config.mac;
        if packet.destination != our {
            out.steps.push(drop_step("icmp", "L3", Scope::Payload, DropReason::NotForUs));
            return;
        }
        if self.drops(DropKind::Icmp) {
            out.steps.push(drop_step("icmp", "L3", Scope::Payload, DropReason::Filtered));
            return;
        }
        out.steps.push(Step::In(icmp_layer(packet.payload)));
        let mut icmp_reply = match make_echo_reply(packet.payload) {
            Ok(reply) => reply,
            Err(e) => {
                out.steps.push(drop_step("icmp", "L3", Scope::Payload, DropReason::Malformed(e)));
                return;
            },
        };
        if let Some(id) = self.config.icmp_id {
            set_echo_id(&mut icmp_reply, id);
        }
        let mut ip_packet: Vec<u8> = Vec::new();
        Ipv4Packet::write(&mut ip_packet, self.config.ttl, Protocol::Icmp, our, packet.source, icmp_reply.as_slice());
        let mut ethernet_reply: Vec<u8> = Vec::new();
        EthernetFrame::write_ethernet(&mut ethernet_reply, frame.source, mac, 0x0800, ip_packet.as_slice());
        out.steps.push(Step::Out(Layer::Ethernet { source: mac, destination: frame.source, ethertype: 0x0800 }));
        out.steps.push(
            Step::Out(
                Layer::Ipv4 {
                    source: our,
                    destination: packet.source,
                    ttl: self.config.ttl,
                    protocol: Protocol::Icmp,
                    payload_len: icmp_reply.len(),
                },
            ),
        );
        out.steps.push(Step::Out(icmp_layer(icmp_reply.as_slice())));
        out.reply = Some(ethernet_reply);
    }
}

fn drop_step(layer: &'static str, osi: &'static str, scope: Scope, reason: DropReason) -> (s: Step)
    ensures
        s == Step::Drop(Dropped { layer, osi, scope, reason }),
{
    Step::Drop(Dropped { layer, osi, scope, reason })
}

/// The inbound Ethernet layer of a frame.
fn ethernet_layer(frame: &EthernetFrame<'_>) -> (l: Layer)
    ensures
        l == (Layer::Ethernet {
            source: frame.source,
            destination: frame.destination,
            ethertype: crate::proto::ethernet::ethertype_number(frame.ethertype),
        }),
{
    Layer::Ethernet {
        source: frame.source,
        destination: frame.destination,
        ethertype: match frame.ethertype {
            EthernetType::Ipv4 => 0x0800,
            EthernetType::Arp => 0x0806,
            EthernetType::Unknown(n) => n,
        },
    }
}

/// Describes an ICMP message for the step log, tolerating short ones.
pub fn icmp_layer(message: &[u8]) -> (l: Layer)
    ensures
        l == icmp_layer_of(message@),
{
    let kind = if message.len() == 0 { 0 } else { message[0] };
    let code = if message.len() < 2 { 0 } else { message[1] };
    let echo = if message.len() >= 8 {
        Some(Echo { id: read_be16(message[4], message[5]), sequence: read_be16(message[6], message[7]) })
    } else {
        None
    };
    Layer::Icmp { kind, code, echo, len: message.len() }
}

/// The sender and target addresses of an ARP payload, when it is long enough.
fn arp_addresses(payload: &[u8]) -> (r: Option<Endpoints<Ipv4Addr>>)
    ensures
        r == arp_addresses_of(payload@),
{
    match addresses(payload) {
        Some((spa, tpa)) => Some(Endpoints::new(spa, tpa)),
        None => None,
    }
}

/// The operation of an ARP payload; `Other(0)` when too short to say.
fn arp_operation(payload: &[u8]) -> (r: ArpOperation)
    ensures
        r == arp_operation_in(payload@),
{
    if payload.len() < 8 {
        return ArpOperation::Other(0);
    }
    ArpOperation::from_number(read_be16(payload[6], payload[7]))
}

} // verus!
