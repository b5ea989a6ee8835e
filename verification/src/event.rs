//! What the stack saw, and what it did about it. `Stack::handle` returns one
//! `Outcome` per frame instead of printing anything, so a caller can log the
//! steps, draw them, count them, or ignore them.

use vstd::prelude::*;
use crate::proto::ethernet::MacAddress;
use crate::proto::ipv4::{Ipv4Addr, Protocol};
use crate::text::{decimal, push_decimal, push_str};

verus! {

/// The result of feeding one Ethernet frame to the stack.
#[derive(Clone, Debug, PartialEq, Eq)]
pub struct Outcome {
    /// The Ethernet endpoints, once the frame header parsed.
    pub link: Option<Endpoints<MacAddress>>,
    /// The IPv4 endpoints, once an IPv4 header parsed.
    pub network: Option<Endpoints<Ipv4Addr>>,
    /// What happened, in the order it happened.
    pub steps: Vec<Step>,
    /// The frame to put back on the wire, if the stack chose to answer.
    pub reply: Option<Vec<u8>>,
}

/// An `Outcome` with its vectors taken as sequences.
#[verifier::ext_equal]
pub struct OutcomeView {
    pub link: Option<Endpoints<MacAddress>>,
    pub network: Option<Endpoints<Ipv4Addr>>,
    pub steps: Seq<Step>,
    pub reply: Option<Seq<u8>>,
}

impl View for Outcome {
    type V = OutcomeView;

    open spec fn view(&self) -> OutcomeView {
        OutcomeView {
            link: self.link,
            network: self.network,
            steps: self.steps@,
            reply: match self.reply {
                Some(r) => Some(r@),
                None => None,
            },
        }
    }
}

impl Outcome {
    /// Nothing seen, nothing decided.
    pub fn new() -> (o: Self)
        ensures
            o.link is None,
            o.network is None,
            o.steps@ == Seq::<Step>::empty(),
            o.reply is None,
    {
        Outcome { link: None, network: None, steps: Vec::new(), reply: None }
    }

    /// The first inbound layer that `pick` accepts, if the frame carried one.
    pub fn inbound(&self, pick: impl Fn(&Layer) -> bool) -> (r: Option<&Layer>)
        requires
            forall|l: &Layer| call_requires(pick, (l,)),
        ensures
            r matches Some(l) ==> exists|i: int|
                0 <= i < self.steps@.len() && self.steps@[i] == Step::In(*l) && call_ensures(pick, (l,), true)
                    && forall|j: int| 0 <= j < i ==> (#[trigger] self.steps@[j] matches Step::In(k)
                        ==> call_ensures(pick, (&k,), false)),
            r is None ==> forall|j: int|
                0 <= j < self.steps@.len() ==> (#[trigger] self.steps@[j] matches Step::In(k)
                    ==> call_ensures(pick, (&k,), false)),
    {
        let mut i: usize = 0;
        while i < self.steps.len()
            invariant
                i <= self.steps@.len(),
                forall|l: &Layer| call_requires(pick, (l,)),
                forall|j: int| 0 <= j < i ==> (#[trigger] self.steps@[j] matches Step::In(k)
                    ==> call_ensures(pick, (&k,), false)),
            decreases self.steps@.len() - i,
        {
            match &self.steps[i] {
                Step::In(layer) => {
                    if pick(layer) {
                        return Some(layer);
                    }
                },
                _ => {},
            }
            i = i + 1;
        }
        None
    }

    /// True when the frame was discarded rather than processed.
    pub fn dropped(&self) -> (r: bool)
        ensures
            r == exists|i: int| 0 <= i < self.steps@.len() && #[trigger] self.steps@[i] is Drop,
    {
        let mut i: usize = 0;
        while i < self.steps.len()
            invariant
                i <= self.steps@.len(),
                forall|j: int| 0 <= j < i ==> !(#[trigger] self.steps@[j] is Drop),
            decreases self.steps@.len() - i,
        {
            if let Step::Drop(_) = &self.steps[i] {
                return true;
            }
            i = i + 1;
        }
        false
    }
}

impl Default for Outcome {
    fn default() -> (o: Self)
        ensures
            o.link is None,
            o.network is None,
            o.steps@ == Seq::<Step>::empty(),
            o.reply is None,
    {
        Outcome::new()
    }
}

/// A source and a destination at one layer.
#[derive(Clone, Copy, Debug, PartialEq, Eq)]
pub struct Endpoints<T> {
    pub source: T,
    pub destination: T,
}

impl<T> Endpoints<T> {
    pub fn new(source: T, destination: T) -> (e: Self)
        ensures
            e.source == source,
            e.destination == destination,
    {
        Endpoints { source, destination }
    }
}

#[derive(Clone, Debug, PartialEq, Eq)]
pub enum Step {
    /// A layer decoded from the frame that arrived.
    In(Layer),
    /// A layer written into the reply.
    Out(Layer),
    /// Processing stopped here; nothing below this layer was looked at.
    Drop(Dropped),
}

#[derive(Clone, Copy, Debug, PartialEq, Eq)]
pub enum Layer {
    Ethernet { source: MacAddress, destination: MacAddress, ethertype: u16 },
    Arp {
        operation: ArpOperation,
        /// `None` when the ARP payload was too short to carry addresses.
        addresses: Option<Endpoints<Ipv4Addr>>,
        /// The hardware address being advertised, on a reply we sent.
        sender_mac: Option<MacAddress>,
    },
    Ipv4 { source: Ipv4Addr, destination: Ipv4Addr, ttl: u8, protocol: Protocol, payload_len: usize },
    Icmp {
        kind: u8,
        code: u8,
        /// `None` when the message was too short to be an echo.
        echo: Option<Echo>,
        len: usize,
    },
}

/// The identifier and sequence number `ping` uses to match replies to requests.
#[derive(Clone, Copy, Debug, PartialEq, Eq, Structural)]
pub struct Echo {
    pub id: u16,
    pub sequence: u16,
}

#[derive(Clone, Copy, Debug, PartialEq, Eq, Structural)]
pub enum ArpOperation {
    Request,
    Reply,
    Other(u16),
}

/// The operation an ARP opcode names: 1 request, 2 reply.
pub open spec fn arp_operation_of(n: u16) -> ArpOperation {
    if n == 1 {
        ArpOperation::Request
    } else if n == 2 {
        ArpOperation::Reply
    } else {
        ArpOperation::Other(n)
    }
}

impl ArpOperation {
    pub fn from_number(n: u16) -> (op: Self)
        ensures
            op == arp_operation_of(n),
    {
        match n {
            1 => ArpOperation::Request,
            2 => ArpOperation::Reply,
            other => ArpOperation::Other(other),
        }
    }
}

/// A frame the stack refused, and how far it got first.
#[derive(Clone, Debug, PartialEq, Eq)]
pub struct Dropped {
    /// Protocol name, e.g. `"ipv4"`.
    pub layer: &'static str,
    /// OSI shorthand, e.g. `"L3"`.
    pub osi: &'static str,
    /// Which endpoints describe this drop.
    pub scope: Scope,
    pub reason: DropReason,
}

/// How deep the stack was when it gave up, which decides whose addresses
/// describe the drop.
#[derive(Clone, Copy, Debug, PartialEq, Eq, Structural)]
pub enum Scope {
    /// At the link layer: described by `Outcome::link`.
    Link,
    /// The IPv4 header itself: described by `Outcome::network`.
    Network,
    /// Inside the IPv4 payload (ICMP, UDP, TCP), which sits under the IPv4 line.
    Payload,
}

/// Why a frame was dropped.
#[derive(Clone, Copy, Debug, PartialEq, Eq)]
pub enum DropReason {
    /// A parser refused it, with the parser's message.
    Malformed(&'static str),
    /// `drop_pct` chose this frame.
    RandomLoss,
    /// The configuration drops this kind of traffic.
    Filtered,
    /// Addressed to another host.
    NotForUs,
    /// An ARP payload too short to carry addresses.
    TruncatedArp,
    /// A transport this stack does not speak yet.
    NotImplemented,
    /// An IPv4 protocol number nobody handles.
    UnknownProtocol(u8),
}

/// How a drop reason reads in the trace.
pub open spec fn reason_text(r: DropReason) -> Seq<char> {
    match r {
        DropReason::Malformed(message) => message@,
        DropReason::RandomLoss => "random drop"@,
        DropReason::Filtered => "dropped"@,
        DropReason::NotForUs => "not for us"@,
        DropReason::TruncatedArp => "truncated ARP payload"@,
        DropReason::NotImplemented => "not implemented"@,
        DropReason::UnknownProtocol(n) => "unknown protocol "@ + decimal(n as nat),
    }
}

impl DropReason {
    /// The reason as the trace prints it.
    pub fn to_string(&self) -> (s: String)
        ensures
            s@ == reason_text(*self),
    {
        let mut s = String::new();
        match *self {
            DropReason::Malformed(message) => push_str(&mut s, message),
            DropReason::RandomLoss => push_str(&mut s, "random drop"),
            DropReason::Filtered => push_str(&mut s, "dropped"),
            DropReason::NotForUs => push_str(&mut s, "not for us"),
            DropReason::TruncatedArp => push_str(&mut s, "truncated ARP payload"),
            DropReason::NotImplemented => push_str(&mut s, "not implemented"),
            DropReason::UnknownProtocol(n) => {
                push_str(&mut s, "unknown protocol ");
                push_decimal(&mut s, n as u64);
            },
        }
        assert(s@ =~= reason_text(*self));
        s
    }
}

} // verus!
