//! What holds of every frame the stack handles, stated over `outcome_of`,
//! which `Stack::handle` is proved to compute.

use vstd::prelude::*;
use crate::event::{DropReason, Echo, Layer, OutcomeView, Scope, Step};
use crate::log::render::{first_inbound_from, quiet_render_text, quiet_upto};
use crate::log::trace::quiet_text;
use crate::text::{decimal_u16, decimal_usize};
use crate::proto::arp::{arp_reply_bytes, is_request};
use crate::proto::checksum::{checksum_of, lemma_stamped_checksum_is_zero};
use crate::proto::ethernet::{EthernetType, ethertype_of, frame_bytes, lemma_ethernet_roundtrip, mac_at};
use crate::proto::icmp::{echo_reply_bytes, lemma_echo_id_rewrite, reply_template, with_echo_id};
use crate::proto::ipv4::{Protocol, ihl_bytes, ipv4_text, ipv4_accepts, ipv4_at, lemma_ipv4_roundtrip, packet_bytes, protocol_of, total_length};
use crate::proto::wire::{be16, byte_count};
use super::DropKind;
use super::model::{
    ConfigModel, arp_outcome, dropped, eth_payload, icmp_outcome, icmp_reply_message, ip_data, ipv4_outcome,
    link_of, link_only, outcome_of, is_echo_request,
};

verus! {

/// No step of the outcome is a drop.
pub open spec fn no_drop(o: OutcomeView) -> bool {
    forall|i: int| 0 <= i < o.steps.len() ==> !(#[trigger] o.steps[i] is Drop)
}

/// The EtherType a frame of at least 14 bytes announces.
pub open spec fn frame_type(b: Seq<u8>) -> EthernetType {
    ethertype_of(be16(b[12], b[13]))
}

/// The stack only answers a frame it followed to the end: an outcome with a
/// reply holds no drop step.
pub proof fn lemma_reply_is_never_dropped(c: ConfigModel, b: Seq<u8>, lost: bool)
    ensures
        outcome_of(c, b, lost).reply is Some ==> no_drop(outcome_of(c, b, lost)),
{
    let o = outcome_of(c, b, lost);
    if o.reply is Some {
        assert forall|i: int| 0 <= i < o.steps.len() implies !(#[trigger] o.steps[i] is Drop) by {
            if frame_type(b) == EthernetType::Arp {
                assert(o == arp_outcome(c, b));
            } else {
                assert(o == icmp_outcome(c, b));
            }
        }
    }
}

/// A drop step, if any, is the only one and the last: processing stops where
/// a frame is dropped.
pub open spec fn drop_is_last(o: OutcomeView) -> bool {
    forall|i: int| 0 <= i < o.steps.len() && #[trigger] o.steps[i] is Drop ==> i == o.steps.len() - 1
}

/// Every outcome stops at its drop: at most one drop step, and only as the
/// last step; and a dropped frame gets no reply.
pub proof fn lemma_drop_ends_the_outcome(c: ConfigModel, b: Seq<u8>, lost: bool)
    ensures
        drop_is_last(outcome_of(c, b, lost)),
        !no_drop(outcome_of(c, b, lost)) ==> outcome_of(c, b, lost).reply is None,
{
    let o = outcome_of(c, b, lost);
    lemma_reply_is_never_dropped(c, b, lost);
    if b.len() >= 14 && !lost && !(c.drop.contains(DropKind::Arp) && frame_type(b) == EthernetType::Arp)
        && !(c.drop.contains(DropKind::Ip) && frame_type(b) == EthernetType::Ipv4) {
        if frame_type(b) == EthernetType::Arp {
            assert(o == arp_outcome(c, b));
        } else if frame_type(b) == EthernetType::Ipv4 {
            assert(o == ipv4_outcome(c, b));
            let p = eth_payload(b);
            if ipv4_accepts(p) && protocol_of(p[9]) == Protocol::Icmp {
                assert(o == icmp_outcome(c, b));
            }
        }
    }
}

/// A frame shorter than an Ethernet header is dropped at the link layer
/// before any address is known, and nothing is sent.
pub proof fn lemma_truncated_frame(c: ConfigModel, b: Seq<u8>, lost: bool)
    requires
        b.len() < 14,
    ensures
        outcome_of(c, b, lost) == link_only(
            None,
            seq![dropped("ethernet", "L2", Scope::Link, DropReason::Malformed("truncated ethernet frame"))],
        ),
        outcome_of(c, b, lost).reply is None,
{
}

/// A frame `drop_pct` chose is lost whole: its Ethernet endpoints are known,
/// nothing inside it is looked at, and nothing is sent.
pub proof fn lemma_lost_frame(c: ConfigModel, b: Seq<u8>)
    requires
        b.len() >= 14,
    ensures
        outcome_of(c, b, true) == link_only(
            Some(link_of(b)),
            seq![dropped("ethernet", "L2", Scope::Link, DropReason::RandomLoss)],
        ),
        outcome_of(c, b, true).reply is None,
{
}

/// With `arp` in the drop list no ARP frame is answered; with `ip` or `icmp`
/// in it, no IPv4 frame is.
pub proof fn lemma_filters_silence(c: ConfigModel, b: Seq<u8>, lost: bool)
    requires
        b.len() >= 14,
    ensures
        c.drop.contains(DropKind::Arp) && frame_type(b) == EthernetType::Arp ==> outcome_of(c, b, lost).reply is None,
        c.drop.contains(DropKind::Ip) && frame_type(b) == EthernetType::Ipv4 ==> outcome_of(c, b, lost).reply is None,
        c.drop.contains(DropKind::Icmp) && frame_type(b) == EthernetType::Ipv4 ==> outcome_of(c, b, lost).reply is None,
{
    if frame_type(b) == EthernetType::Ipv4 && !lost && !c.drop.contains(DropKind::Ip) {
        assert(outcome_of(c, b, lost) == ipv4_outcome(c, b));
    }
}

/// The drop kinds do not reach past their own traffic: what happens to an
/// ARP frame depends on the drop list only through whether it names `arp`,
/// and what happens to an IPv4 frame only through `ip` and `icmp`.
pub proof fn lemma_filters_are_independent(c1: ConfigModel, c2: ConfigModel, b: Seq<u8>, lost: bool)
    requires
        c1.addr == c2.addr,
        c1.mac == c2.mac,
        c1.ttl == c2.ttl,
        c1.icmp_id == c2.icmp_id,
        b.len() >= 14,
    ensures
        frame_type(b) == EthernetType::Arp && c1.drop.contains(DropKind::Arp) == c2.drop.contains(DropKind::Arp)
            ==> outcome_of(c1, b, lost) == outcome_of(c2, b, lost),
        frame_type(b) == EthernetType::Ipv4 && c1.drop.contains(DropKind::Ip) == c2.drop.contains(DropKind::Ip)
            && c1.drop.contains(DropKind::Icmp) == c2.drop.contains(DropKind::Icmp) ==> outcome_of(c1, b, lost)
            == outcome_of(c2, b, lost),
{
}

/// The answer to an ARP request goes back to the asker from our MAC, says
/// that our address is at our MAC, and is itself a reply, which the stack
/// would never answer.
pub proof fn lemma_arp_reply_shape(c: ConfigModel, b: Seq<u8>, lost: bool)
    requires
        b.len() >= 14,
        frame_type(b) == EthernetType::Arp,
        outcome_of(c, b, lost).reply is Some,
    ensures
        ({
            let r = outcome_of(c, b, lost).reply->0;
            let q = eth_payload(b);
            let a = eth_payload(r);
            &&& r.len() == 42
            &&& mac_at(r, 0) == mac_at(b, 6)
            &&& mac_at(r, 6) == c.mac
            &&& be16(r[12], r[13]) == 0x0806
            &&& !is_request(a)
            &&& be16(a[6], a[7]) == 2
            &&& mac_at(a, 8) == c.mac
            &&& ipv4_at(a, 14) == c.addr
            &&& mac_at(a, 18) == mac_at(q, 8)
            &&& ipv4_at(a, 24) == ipv4_at(q, 14)
        }),
{
    broadcast use vstd::array::group_array_axioms;
    let q = eth_payload(b);
    assert(outcome_of(c, b, lost) == arp_outcome(c, b));
    let a = arp_reply_bytes(c.addr, c.mac, q);
    let r = frame_bytes(mac_at(b, 6), c.mac, 0x0806, a);
    lemma_ethernet_roundtrip(mac_at(b, 6), c.mac, 0x0806, a);
    crate::proto::arp::lemma_reply_is_not_a_request(c.addr, c.mac, q);
    assert(eth_payload(r) == a);
    assert(mac_at(a, 8).0 =~= c.mac.0);
    assert(ipv4_at(a, 14).0 =~= c.addr.0);
    assert(mac_at(a, 18).0 =~= mac_at(q, 8).0);
    assert(ipv4_at(a, 24).0 =~= ipv4_at(q, 14).0);
}

/// The bytes of an echo reply after its identifier: the sequence number and
/// the data.
pub open spec fn after_id(m: Seq<u8>) -> Seq<u8> {
    m.subrange(6, m.len() as int)
}

/// The answer to a ping goes back to the sender from our MAC and our address,
/// with our TTL, as an IPv4 packet that parses. Its ICMP message is an echo
/// reply (type 0, which the stack never answers in turn) that checksums to
/// zero, as long as the request, with the sequence number and data of the
/// request, and with the configured identifier or else the request's.
#[verifier::rlimit(50)]
pub proof fn lemma_icmp_reply_shape(c: ConfigModel, b: Seq<u8>, lost: bool)
    requires
        b.len() >= 14,
        frame_type(b) == EthernetType::Ipv4,
        outcome_of(c, b, lost).reply is Some,
    ensures
        ({
            let r = outcome_of(c, b, lost).reply->0;
            let p = eth_payload(r);
            let q = eth_payload(b);
            let m = ip_data(r);
            let req = ip_data(b);
            &&& mac_at(r, 0) == mac_at(b, 6)
            &&& mac_at(r, 6) == c.mac
            &&& be16(r[12], r[13]) == 0x0800
            &&& ipv4_accepts(p)
            &&& p[8] == c.ttl
            &&& protocol_of(p[9]) == Protocol::Icmp
            &&& ipv4_at(p, 12) == c.addr
            &&& ipv4_at(p, 16) == ipv4_at(q, 12)
            &&& m.len() == req.len()
            &&& m[0] == 0
            &&& m[1] == 0
            &&& checksum_of(m) == 0
            &&& be16(m[4], m[5]) == (match c.icmp_id {
                Some(id) => id,
                None => be16(req[4], req[5]),
            })
            &&& after_id(m) == after_id(req)
        }),
{
    let q = eth_payload(b);
    let req = ip_data(b);
    assert(outcome_of(c, b, lost) == ipv4_outcome(c, b));
    assert(ipv4_outcome(c, b) == icmp_outcome(c, b));
    let e = echo_reply_bytes(req);
    let t = reply_template(req);
    lemma_stamped_checksum_is_zero(t, 2);
    assert(after_id(e) =~= after_id(req));
    let msg = icmp_reply_message(c, req);
    match c.icmp_id {
        Some(id) => {
            lemma_echo_id_rewrite(e, id);
            assert(msg == with_echo_id(e, id));
        },
        None => {},
    }
    assert(total_length(q) <= 65535);
    assert(ihl_bytes(q) >= 20);
    assert(msg.len() <= 65515);
    let pk = packet_bytes(c.ttl, Protocol::Icmp, c.addr, ipv4_at(q, 12), msg);
    lemma_ipv4_roundtrip(c.ttl, Protocol::Icmp, c.addr, ipv4_at(q, 12), msg);
    lemma_ethernet_roundtrip(mac_at(b, 6), c.mac, 0x0800, pk);
    let r = frame_bytes(mac_at(b, 6), c.mac, 0x0800, pk);
    assert(eth_payload(r) == pk);
    assert(ip_data(r) == msg);
}

/// The ping an answered IPv4 frame carried: a frame the stack answers is an
/// echo request, and its trace records the request as it arrived: type 8,
/// code 0, the identifier from bytes 4-5 of the ICMP message and the
/// sequence number from bytes 6-7, and the message's length.
pub proof fn lemma_answered_ping_is_traced_as_sent(c: ConfigModel, b: Seq<u8>, lost: bool)
    requires
        b.len() >= 14,
        frame_type(b) == EthernetType::Ipv4,
        outcome_of(c, b, lost).reply is Some,
    ensures
        ({
            let o = outcome_of(c, b, lost);
            let m = ip_data(b);
            &&& m.len() >= 8
            &&& m[0] == 8
            &&& m[1] == 0
            &&& o.steps.len() == 6
            &&& o.steps[2] == Step::In(
                Layer::Icmp {
                    kind: 8,
                    code: 0,
                    echo: Some(Echo { id: be16(m[4], m[5]), sequence: be16(m[6], m[7]) }),
                    len: byte_count(m),
                },
            )
        }),
{
    assert(outcome_of(c, b, lost) == ipv4_outcome(c, b));
    assert(ipv4_outcome(c, b) == icmp_outcome(c, b));
    assert(is_echo_request(ip_data(b)));
}

/// The quiet trace of an answered ping is one line: the time, `icmp`, the
/// sender's and our address, then `echo id=` with the identifier from bytes
/// 4-5 of the request's ICMP message, ` seq=` with its sequence number from
/// bytes 6-7, and the message's length, in decimal.
#[verifier::rlimit(40)]
pub proof fn lemma_answered_ping_quiet_line(c: ConfigModel, b: Seq<u8>, lost: bool, when: &str)
    requires
        b.len() >= 14,
        frame_type(b) == EthernetType::Ipv4,
        outcome_of(c, b, lost).reply is Some,
    ensures
        ({
            let m = ip_data(b);
            let p = eth_payload(b);
            quiet_render_text(outcome_of(c, b, lost), when) == quiet_text(
                when@,
                "icmp"@,
                ipv4_text(ipv4_at(p, 12).0@) + " -> "@ + ipv4_text(ipv4_at(p, 16).0@),
                "echo id="@ + decimal_u16(be16(m[4], m[5])) + " seq="@ + decimal_u16(be16(m[6], m[7])) + "  len="@
                    + decimal_usize(byte_count(m)),
            ) + seq!['\n']
        }),
{
    let o = outcome_of(c, b, lost);
    lemma_answered_ping_is_traced_as_sent(c, b, lost);
    lemma_answered_ping_steps(c, b, lost);
    let st = o.steps;
    assert(first_inbound_from(st, 6, true) is None);
    assert(first_inbound_from(st, 5, true) is None);
    assert(first_inbound_from(st, 4, true) is None);
    assert(first_inbound_from(st, 3, true) is None);
    assert(first_inbound_from(st, 2, true) is None);
    assert(first_inbound_from(st, 1, true) is None);
    assert(first_inbound_from(st, 0, true) is None);
    assert(first_inbound_from(st, 1, false) == first_inbound_from(st, 2, false));
    assert(first_inbound_from(st, 0, false) == Some(st[2]->In_0));
    assert(quiet_upto(o, 0, when) == Seq::<char>::empty());
    assert(quiet_upto(o, 1, when) =~= Seq::<char>::empty());
    assert(quiet_upto(o, 2, when) =~= Seq::<char>::empty());
    assert(quiet_upto(o, 3, when) =~= Seq::<char>::empty());
    assert(quiet_upto(o, 4, when) =~= Seq::<char>::empty());
    assert(quiet_upto(o, 5, when) =~= Seq::<char>::empty());
    assert(quiet_upto(o, 6, when) =~= Seq::<char>::empty());
    assert(quiet_render_text(o, when) =~= Seq::<char>::empty() + crate::log::render::summary_text(o, when));
}

/// The steps of an answered ping: three inbound layers (Ethernet, IPv4,
/// ICMP), then three outbound ones, none of them ARP or a drop, and the
/// sender's and our address as the network endpoints.
proof fn lemma_answered_ping_steps(c: ConfigModel, b: Seq<u8>, lost: bool)
    requires
        b.len() >= 14,
        frame_type(b) == EthernetType::Ipv4,
        outcome_of(c, b, lost).reply is Some,
    ensures
        ({
            let o = outcome_of(c, b, lost);
            let p = eth_payload(b);
            &&& o.steps.len() == 6
            &&& o.steps[0] is In && !(o.steps[0]->In_0 is Arp) && !(o.steps[0]->In_0 is Icmp)
            &&& o.steps[1] is In && !(o.steps[1]->In_0 is Arp) && !(o.steps[1]->In_0 is Icmp)
            &&& o.steps[2] is In
            &&& o.steps[3] is Out
            &&& o.steps[4] is Out
            &&& o.steps[5] is Out
            &&& o.network == Some(crate::event::Endpoints { source: ipv4_at(p, 12), destination: ipv4_at(p, 16) })
        }),
{
    assert(outcome_of(c, b, lost) == ipv4_outcome(c, b));
    assert(ipv4_outcome(c, b) == icmp_outcome(c, b));
}

} // verus!
