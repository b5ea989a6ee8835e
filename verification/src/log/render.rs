//! Rendering an `Outcome`.
//!
//! `Stack::handle` decides; this decides how it looks. Verbose writes one line
//! per layer, indented under the packet that carried it. Quiet writes one line
//! per completed exchange, plus anything that was dropped.

use vstd::prelude::*;
use crate::event::{DropReason, Dropped, Echo, Endpoints, Layer, Outcome, OutcomeView, Scope, Step, reason_text};
use crate::proto::ethernet::{MacAddress, mac_text};
use crate::proto::ipv4::{Ipv4Addr, Protocol, ipv4_text};
use crate::text::{decimal_u16, decimal_u8, decimal_usize, hex4, push_hex4, push_str, push_u16, push_u8, push_usize};
use super::trace::{Verb, branch, emit_at, emit_cont, emit_inside, emit_quiet, event_text, quiet_text};

verus! {

/// `source -> destination`.
pub open spec fn pair_text(source: Seq<char>, destination: Seq<char>) -> Seq<char> {
    source + " -> "@ + destination
}

/// The Ethernet endpoints as text, or nothing when they are unknown.
pub open spec fn link_text(e: Option<Endpoints<MacAddress>>) -> Seq<char> {
    match e {
        Some(e) => pair_text(mac_text(e.source.0@), mac_text(e.destination.0@)),
        None => Seq::empty(),
    }
}

/// The IPv4 endpoints as text, or nothing when they are unknown.
pub open spec fn net_text(e: Option<Endpoints<Ipv4Addr>>) -> Seq<char> {
    match e {
        Some(e) => pair_text(ipv4_text(e.source.0@), ipv4_text(e.destination.0@)),
        None => Seq::empty(),
    }
}

/// A protocol's name, or its number when it has none here.
pub open spec fn protocol_text(p: Protocol) -> Seq<char> {
    match p {
        Protocol::Icmp => "icmp"@,
        Protocol::Udp => "udp"@,
        Protocol::Tcp => "tcp"@,
        Protocol::Unknown(n) => "protocol "@ + decimal_u8(n),
    }
}

/// The detail column of an ICMP line.
pub open spec fn icmp_detail_text(kind: u8, code: u8, echo: Option<Echo>, len: usize) -> Seq<char> {
    match echo {
        None => "truncated"@,
        Some(e) => "type="@ + decimal_u8(kind) + " code="@ + decimal_u8(code) + " id="@ + decimal_u16(e.id)
            + " seq="@ + decimal_u16(e.sequence) + "  len="@ + decimal_usize(len),
    }
}

/// One line and its newline.
pub open spec fn line(
    show_time: bool,
    verb: Verb,
    layer: Seq<char>,
    osi: Seq<char>,
    address: Seq<char>,
    reason: Seq<char>,
    when: &str,
) -> Seq<char> {
    event_text(show_time, verb, layer, osi, address, reason, when) + seq!['\n']
}

/// The verbose line for a layer; `first` says whether it opens the frame and
/// so carries the time. ICMP hangs under its IPv4 line and never does.
pub open spec fn layer_line(l: Layer, outbound: bool, first: bool, when: &str) -> Seq<char> {
    match l {
        Layer::Ethernet { source, destination, ethertype } => line(
            first,
            if outbound { Verb::Out } else { Verb::In },
            "ethernet"@,
            "L2"@,
            pair_text(mac_text(source.0@), mac_text(destination.0@)),
            "ethertype 0x"@ + hex4(ethertype),
            when,
        ),
        Layer::Arp { addresses, sender_mac, .. } => line(
            first,
            Verb::More,
            "arp"@,
            "L2"@,
            net_text(addresses),
            match sender_mac {
                Some(mac) => "is-at "@ + mac_text(mac.0@),
                None => "who-has"@,
            },
            when,
        ),
        Layer::Ipv4 { source, destination, ttl, protocol, payload_len } => line(
            first,
            Verb::More,
            "ipv4"@,
            "L3"@,
            pair_text(ipv4_text(source.0@), ipv4_text(destination.0@)),
            "ttl="@ + decimal_u8(ttl) + " proto="@ + protocol_text(protocol) + " payload="@ + decimal_usize(payload_len),
            when,
        ),
        Layer::Icmp { kind, code, echo, len } => line(
            false,
            Verb::More,
            branch() + "icmp"@,
            "L3"@,
            Seq::empty(),
            icmp_detail_text(kind, code, echo, len),
            when,
        ),
    }
}

/// The verbose line for a drop. One inside an IPv4 payload hangs under the
/// ipv4 line; one at the IPv4 header names no addresses, the ipv4 line above
/// it already did; one at the link names the Ethernet endpoints.
pub open spec fn drop_line(o: OutcomeView, d: Dropped, first: bool, when: &str) -> Seq<char> {
    match d.scope {
        Scope::Payload => line(false, Verb::Drop, branch() + d.layer@, d.osi@, Seq::empty(), reason_text(d.reason), when),
        Scope::Network => line(first, Verb::Drop, d.layer@, d.osi@, Seq::empty(), reason_text(d.reason), when),
        Scope::Link => line(first, Verb::Drop, d.layer@, d.osi@, link_text(o.link), reason_text(d.reason), when),
    }
}

/// The verbose line for a step.
pub open spec fn step_line(o: OutcomeView, s: Step, first: bool, when: &str) -> Seq<char> {
    match s {
        Step::In(l) => layer_line(l, false, first, when),
        Step::Out(l) => layer_line(l, true, first, when),
        Step::Drop(d) => drop_line(o, d, first, when),
    }
}

/// The verbose lines of the first `n` steps; only the very first line can
/// carry the time.
pub open spec fn verbose_upto(o: OutcomeView, n: nat, when: &str) -> Seq<char>
    decreases n,
{
    if n == 0 {
        Seq::empty()
    } else {
        verbose_upto(o, (n - 1) as nat, when) + step_line(o, o.steps[n - 1], n == 1, when)
    }
}

/// The whole verbose rendering of an outcome.
pub open spec fn verbose_text(o: OutcomeView, when: &str) -> Seq<char> {
    verbose_upto(o, o.steps.len(), when)
}

/// The quiet line for a step: a drop names the endpoints of its scope; any
/// other step says nothing.
pub open spec fn quiet_step_line(o: OutcomeView, s: Step, when: &str) -> Seq<char> {
    match s {
        Step::Drop(d) => line(
            true,
            Verb::Drop,
            d.layer@,
            d.osi@,
            match d.scope {
                Scope::Link => link_text(o.link),
                Scope::Network | Scope::Payload => net_text(o.network),
            },
            reason_text(d.reason),
            when,
        ),
        _ => Seq::empty(),
    }
}

/// The quiet drop lines of the first `n` steps.
pub open spec fn quiet_upto(o: OutcomeView, n: nat, when: &str) -> Seq<char>
    decreases n,
{
    if n == 0 {
        Seq::empty()
    } else {
        quiet_upto(o, (n - 1) as nat, when) + quiet_step_line(o, o.steps[n - 1], when)
    }
}

/// The step is an inbound layer of the wanted kind: ARP when `arp`, else ICMP.
pub open spec fn wanted(s: Step, arp: bool) -> bool {
    match s {
        Step::In(Layer::Arp { .. }) => arp,
        Step::In(Layer::Icmp { .. }) => !arp,
        _ => false,
    }
}

/// The first inbound layer of the wanted kind at or after step `i`.
pub open spec fn first_inbound_from(steps: Seq<Step>, i: int, arp: bool) -> Option<Layer>
    decreases steps.len() - i,
{
    if i < 0 || i >= steps.len() {
        None
    } else if wanted(steps[i], arp) {
        Some(steps[i]->In_0)
    } else {
        first_inbound_from(steps, i + 1, arp)
    }
}

/// The one summary line of an answered exchange: who asked for our MAC, or
/// which ping we echoed. Nothing when the stack sent nothing.
pub open spec fn summary_text(o: OutcomeView, when: &str) -> Seq<char> {
    if o.reply is None {
        Seq::empty()
    } else {
        match first_inbound_from(o.steps, 0, true) {
            Some(Layer::Arp { addresses, .. }) => quiet_text(when@, "arp"@, net_text(addresses), "who-has"@)
                + seq!['\n'],
            _ => match first_inbound_from(o.steps, 0, false) {
                Some(Layer::Icmp { echo, len, .. }) => {
                    let (id, seq) = match echo {
                        Some(e) => (e.id, e.sequence),
                        None => (0u16, 0u16),
                    };
                    quiet_text(
                        when@,
                        "icmp"@,
                        net_text(o.network),
                        "echo id="@ + decimal_u16(id) + " seq="@ + decimal_u16(seq) + "  len="@ + decimal_usize(len),
                    ) + seq!['\n']
                },
                _ => Seq::empty(),
            },
        }
    }
}

/// The whole quiet rendering of an outcome.
pub open spec fn quiet_render_text(o: OutcomeView, when: &str) -> Seq<char> {
    quiet_upto(o, o.steps.len(), when) + summary_text(o, when)
}

/// Appends `source -> destination`.
fn push_mac_pair(s: &mut String, source: MacAddress, destination: MacAddress)
    ensures
        final(s)@ == old(s)@ + pair_text(mac_text(source.0@), mac_text(destination.0@)),
{
    push_str(s, source.to_string().as_str());
    push_str(s, " -> ");
    push_str(s, destination.to_string().as_str());
    assert(final(s)@ =~= old(s)@ + pair_text(mac_text(source.0@), mac_text(destination.0@)));
}

/// Appends `source -> destination`.
fn push_ip_pair(s: &mut String, source: Ipv4Addr, destination: Ipv4Addr)
    ensures
        final(s)@ == old(s)@ + pair_text(ipv4_text(source.0@), ipv4_text(destination.0@)),
{
    push_str(s, source.to_string().as_str());
    push_str(s, " -> ");
    push_str(s, destination.to_string().as_str());
    assert(final(s)@ =~= old(s)@ + pair_text(ipv4_text(source.0@), ipv4_text(destination.0@)));
}

/// The Ethernet endpoints as text, or an empty string.
pub fn link_endpoints(e: Option<Endpoints<MacAddress>>) -> (s: String)
    ensures
        s@ == link_text(e),
{
    let mut s = String::new();
    if let Some(e) = e {
        push_mac_pair(&mut s, e.source, e.destination);
    }
    assert(s@ =~= link_text(e));
    s
}

/// The IPv4 endpoints as text, or an empty string.
pub fn net_endpoints(e: Option<Endpoints<Ipv4Addr>>) -> (s: String)
    ensures
        s@ == net_text(e),
{
    let mut s = String::new();
    if let Some(e) = e {
        push_ip_pair(&mut s, e.source, e.destination);
    }
    assert(s@ =~= net_text(e));
    s
}

/// A protocol's name for the ipv4 line.
pub fn protocol_name(p: Protocol) -> (s: String)
    ensures
        s@ == protocol_text(p),
{
    let mut s = String::new();
    match p {
        Protocol::Icmp => push_str(&mut s, "icmp"),
        Protocol::Udp => push_str(&mut s, "udp"),
        Protocol::Tcp => push_str(&mut s, "tcp"),
        Protocol::Unknown(n) => {
            push_str(&mut s, "protocol ");
            push_u8(&mut s, n);
        },
    }
    assert(s@ =~= protocol_text(p));
    s
}

/// The detail column of an ICMP line: type, code, identifier and sequence
/// number, or `truncated` for a message too short to be an echo.
pub fn icmp_detail(kind: u8, code: u8, echo: Option<Echo>, len: usize) -> (s: String)
    ensures
        s@ == icmp_detail_text(kind, code, echo, len),
{
    let mut s = String::new();
    match echo {
        None => push_str(&mut s, "truncated"),
        Some(e) => {
            push_str(&mut s, "type=");
            push_u8(&mut s, kind);
            push_str(&mut s, " code=");
            push_u8(&mut s, code);
            push_str(&mut s, " id=");
            push_u16(&mut s, e.id);
            push_str(&mut s, " seq=");
            push_u16(&mut s, e.sequence);
            push_str(&mut s, "  len=");
            push_usize(&mut s, len);
        },
    }
    assert(s@ =~= icmp_detail_text(kind, code, echo, len));
    s
}

/// Appends a line that carries the time when it is the first of its frame.
fn emit_line(out: &mut String, first: bool, when: &str, verb: Verb, layer: &str, osi: &str, address: &str, detail: &str)
    ensures
        final(out)@ == old(out)@ + line(first, verb, layer@, osi@, address@, detail@, when),
{
    if first {
        emit_at(out, when, verb, layer, osi, address, detail);
    } else {
        emit_cont(out, when, verb, layer, osi, address, detail);
    }
}

/// Appends the verbose line for a layer.
fn render_layer(out: &mut String, when: &str, first: bool, layer: &Layer, outbound: bool)
    ensures
        final(out)@ == old(out)@ + layer_line(*layer, outbound, first, when),
{
    match *layer {
        Layer::Ethernet { source, destination, ethertype } => {
            let verb = if outbound { Verb::Out } else { Verb::In };
            let mut address = String::new();
            push_mac_pair(&mut address, source, destination);
            let mut detail = String::new();
            push_str(&mut detail, "ethertype 0x");
            push_hex4(&mut detail, ethertype);
            assert(address@ =~= pair_text(mac_text(source.0@), mac_text(destination.0@)));
            assert(detail@ =~= "ethertype 0x"@ + hex4(ethertype));
            emit_line(out, first, when, verb, "ethernet", "L2", address.as_str(), detail.as_str());
        },
        Layer::Arp { addresses, sender_mac, .. } => {
            let mut detail = String::new();
            match sender_mac {
                Some(mac) => {
                    push_str(&mut detail, "is-at ");
                    push_str(&mut detail, mac.to_string().as_str());
                },
                None => push_str(&mut detail, "who-has"),
            }
            let address = net_endpoints(addresses);
            assert(detail@ =~= match sender_mac {
                Some(mac) => "is-at "@ + mac_text(mac.0@),
                None => "who-has"@,
            });
            emit_line(out, first, when, Verb::More, "arp", "L2", address.as_str(), detail.as_str());
        },
        Layer::Ipv4 { source, destination, ttl, protocol, payload_len } => {
            let mut address = String::new();
            push_ip_pair(&mut address, source, destination);
            let mut detail = String::new();
            push_str(&mut detail, "ttl=");
            push_u8(&mut detail, ttl);
            push_str(&mut detail, " proto=");
            push_str(&mut detail, protocol_name(protocol).as_str());
            push_str(&mut detail, " payload=");
            push_usize(&mut detail, payload_len);
            assert(address@ =~= pair_text(ipv4_text(source.0@), ipv4_text(destination.0@)));
            assert(detail@ =~= "ttl="@ + decimal_u8(ttl) + " proto="@ + protocol_text(protocol) + " payload="@
                + decimal_usize(payload_len));
            emit_line(out, first, when, Verb::More, "ipv4", "L3", address.as_str(), detail.as_str());
        },
        Layer::Icmp { kind, code, echo, len } => {
            let detail = icmp_detail(kind, code, echo, len);
            emit_inside(out, when, Verb::More, "icmp", "L3", detail.as_str());
        },
    }
}

/// Appends the verbose line for a drop.
fn render_drop(out: &mut String, when: &str, first: bool, outcome: &Outcome, dropped: &Dropped)
    ensures
        final(out)@ == old(out)@ + drop_line(outcome@, *dropped, first, when),
{
    let reason = dropped.reason.to_string();
    match dropped.scope {
        Scope::Payload => emit_inside(out, when, Verb::Drop, dropped.layer, dropped.osi, reason.as_str()),
        Scope::Network => {
            proof {
                reveal_strlit("");
            }
            emit_line(out, first, when, Verb::Drop, dropped.layer, dropped.osi, "", reason.as_str());
        },
        Scope::Link => {
            let address = link_endpoints(outcome.link);
            emit_line(out, first, when, Verb::Drop, dropped.layer, dropped.osi, address.as_str(), reason.as_str());
        },
    }
}

/// Appends one line per step, each layer under the one that carried it.
pub fn render_verbose(out: &mut String, when: &str, outcome: &Outcome)
    ensures
        final(out)@ == old(out)@ + verbose_text(outcome@, when),
{
    let ghost start = out@;
    let mut i: usize = 0;
    while i < outcome.steps.len()
        invariant
            i <= outcome.steps@.len(),
            out@ == start + verbose_upto(outcome@, i as nat, when),
        decreases outcome.steps@.len() - i,
    {
        let first = i == 0;
        match &outcome.steps[i] {
            Step::In(layer) => render_layer(out, when, first, layer, false),
            Step::Out(layer) => render_layer(out, when, first, layer, true),
            Step::Drop(dropped) => render_drop(out, when, first, outcome, dropped),
        }
        i = i + 1;
        assert(out@ =~= start + verbose_upto(outcome@, i as nat, when));
    }
}

/// Whether a step is an inbound layer of the wanted kind.
fn is_wanted(s: &Step, arp: bool) -> (r: bool)
    ensures
        r == wanted(*s, arp),
{
    match s {
        Step::In(Layer::Arp { .. }) => arp,
        Step::In(Layer::Icmp { .. }) => !arp,
        _ => false,
    }
}

/// The first inbound ARP layer (`arp`) or ICMP layer (otherwise).
fn first_inbound(steps: &Vec<Step>, arp: bool) -> (r: Option<Layer>)
    ensures
        r == first_inbound_from(steps@, 0, arp),
{
    let mut i: usize = 0;
    while i < steps.len()
        invariant
            i <= steps@.len(),
            first_inbound_from(steps@, 0, arp) == first_inbound_from(steps@, i as int, arp),
        decreases steps@.len() - i,
    {
        if is_wanted(&steps[i], arp) {
            match &steps[i] {
                Step::In(layer) => return Some(*layer),
                _ => {},
            }
        }
        i = i + 1;
    }
    None
}

/// Appends the one line that sums up an answered exchange.
fn render_summary(out: &mut String, when: &str, outcome: &Outcome)
    ensures
        final(out)@ == old(out)@ + summary_text(outcome@, when),
{
    if outcome.reply.is_none() {
        assert(final(out)@ =~= old(out)@ + summary_text(outcome@, when));
        return;
    }
    if let Some(Layer::Arp { addresses, .. }) = first_inbound(&outcome.steps, true) {
        let address = net_endpoints(addresses);
        emit_quiet(out, when, "arp", address.as_str(), "who-has");
    } else if let Some(Layer::Icmp { echo, len, .. }) = first_inbound(&outcome.steps, false) {
        let (id, seq) = match echo {
            Some(e) => (e.id, e.sequence),
            None => (0u16, 0u16),
        };
        let address = net_endpoints(outcome.network);
        let mut reason = String::new();
        push_str(&mut reason, "echo id=");
        push_u16(&mut reason, id);
        push_str(&mut reason, " seq=");
        push_u16(&mut reason, seq);
        push_str(&mut reason, "  len=");
        push_usize(&mut reason, len);
        assert(reason@ =~= "echo id="@ + decimal_u16(id) + " seq="@ + decimal_u16(seq) + "  len="@ + decimal_usize(len));
        emit_quiet(out, when, "icmp", address.as_str(), reason.as_str());
    } else {
        assert(final(out)@ =~= old(out)@ + summary_text(outcome@, when));
    }
}

/// Appends the drops, then one line for the exchange if the stack answered.
pub fn render_quiet(out: &mut String, when: &str, outcome: &Outcome)
    ensures
        final(out)@ == old(out)@ + quiet_render_text(outcome@, when),
{
    let ghost start = out@;
    let mut i: usize = 0;
    while i < outcome.steps.len()
        invariant
            i <= outcome.steps@.len(),
            out@ == start + quiet_upto(outcome@, i as nat, when),
        decreases outcome.steps@.len() - i,
    {
        if let Step::Drop(dropped) = &outcome.steps[i] {
            let address = match dropped.scope {
                Scope::Link => link_endpoints(outcome.link),
                Scope::Network | Scope::Payload => net_endpoints(outcome.network),
            };
            let reason = dropped.reason.to_string();
            emit_at(out, when, Verb::Drop, dropped.layer, dropped.osi, address.as_str(), reason.as_str());
        }
        i = i + 1;
        assert(out@ =~= start + quiet_upto(outcome@, i as nat, when));
    }
    render_summary(out, when, outcome);
    assert(out@ =~= start + quiet_render_text(outcome@, when));
}

/// Appends what an outcome says: every layer when `verbose`, otherwise the
/// drops and the answered exchange.
pub fn render(out: &mut String, when: &str, outcome: &Outcome, verbose: bool)
    ensures
        final(out)@ == old(out)@ + if verbose {
            verbose_text(outcome@, when)
        } else {
            quiet_render_text(outcome@, when)
        },
{
    if verbose {
        render_verbose(out, when, outcome);
    } else {
        render_quiet(out, when, outcome);
    }
}

} // verus!
