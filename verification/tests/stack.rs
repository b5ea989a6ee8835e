use minitcp::event::{ArpOperation, DropReason, Layer, Step};
use minitcp::log::render::render;
use minitcp::proto::checksum::internet_checksum;
use minitcp::proto::ethernet::{EthernetFrame, MacAddress};
use minitcp::proto::icmp::{make_echo_reply, set_echo_id};
use minitcp::proto::ipv4::{Ipv4Addr, Ipv4Packet, Protocol};
use minitcp::stack::rng::{drop_pct_hit, SeededRng};
use minitcp::stack::{DropKind, Stack, StackConfig};

const ARP_REQUEST: [u8; 42] = [
    0xff, 0xff, 0xff, 0xff, 0xff, 0xff, 0x02, 0x00, 0x00, 0x00, 0x00, 0x01, 0x08, 0x06, 0x00, 0x01,
    0x08, 0x00, 0x06, 0x04, 0x00, 0x01, 0x02, 0x00, 0x00, 0x00, 0x00, 0x01, 0x0a, 0x00, 0x00, 0x01,
    0x00, 0x00, 0x00, 0x00, 0x00, 0x00, 0x0a, 0x00, 0x00, 0x02,
];

fn ping_frame() -> Vec<u8> {
    let mut icmp = vec![8, 0, 0, 0, 0x12, 0x34, 0x00, 0x01, b'h', b'i'];
    let sum = internet_checksum(&icmp);
    icmp[2..4].copy_from_slice(&sum.to_be_bytes());
    let mut ip = Vec::new();
    Ipv4Packet::write(&mut ip, 64, Protocol::Icmp, Ipv4Addr::new(10, 0, 0, 1), Ipv4Addr::new(10, 0, 0, 2), &icmp);
    let mut eth = Vec::new();
    EthernetFrame::write_ethernet(
        &mut eth,
        MacAddress([0x02, 0x00, 0x00, 0x00, 0x00, 0x02]),
        MacAddress([0x02, 0x00, 0x00, 0x00, 0x00, 0x01]),
        0x0800,
        &ip,
    );
    eth
}

fn reply(config: StackConfig, frame: &[u8]) -> Option<Vec<u8>> {
    Stack::with_seed(config, 1).handle(frame).reply
}

fn with_drops(drop: Vec<DropKind>) -> StackConfig {
    StackConfig { drop, ..StackConfig::default() }
}

#[test]
fn handle_replies_to_arp() {
    let config = StackConfig::default();
    let mac = config.mac;
    let out = reply(config, &ARP_REQUEST).expect("arp reply");
    assert_eq!(&out[0..6], &ARP_REQUEST[6..12]);
    assert_eq!(&out[6..12], &mac.0);
    assert_eq!(&out[12..14], &[0x08, 0x06]);
}

#[test]
fn handle_frame_replies_to_arp() {
    let out = reply(StackConfig::default(), &ARP_REQUEST).expect("arp reply");
    assert_eq!(out.len(), 42);
    assert_eq!(&out[20..22], &[0x00, 0x02]);
    assert_eq!(&out[38..42], &[10, 0, 0, 1]);
}

#[test]
fn outcome_describes_the_arp_exchange() {
    let out = Stack::with_seed(StackConfig::default(), 1).handle(&ARP_REQUEST);
    assert!(!out.dropped());
    assert_eq!(out.link.unwrap().source, MacAddress([0x02, 0x00, 0x00, 0x00, 0x00, 0x01]));
    let asked = out.inbound(|l| matches!(l, Layer::Arp { .. })).copied().unwrap();
    let Layer::Arp { operation, addresses, .. } = asked else {
        panic!("expected arp");
    };
    assert_eq!(operation, ArpOperation::Request);
    assert_eq!(addresses.unwrap().destination, Ipv4Addr::new(10, 0, 0, 2));
}

fn drop_arp_case() {
    let config = with_drops(vec![DropKind::Arp]);
    assert!(reply(config.clone(), &ARP_REQUEST).is_none());
    assert!(reply(config, &ping_frame()).is_some());
}

fn drop_icmp_case() {
    let config = with_drops(vec![DropKind::Icmp]);
    assert!(reply(config.clone(), &ping_frame()).is_none());
    assert!(reply(config, &ARP_REQUEST).is_some());
}

fn drop_ip_case() {
    let config = with_drops(vec![DropKind::Ip]);
    assert!(reply(config.clone(), &ping_frame()).is_none());
    assert!(reply(config, &ARP_REQUEST).is_some());
}

fn drop_both_case() {
    let config = with_drops(vec![DropKind::Arp, DropKind::Icmp]);
    assert!(reply(config.clone(), &ARP_REQUEST).is_none());
    assert!(reply(config, &ping_frame()).is_none());
}

#[test]
fn stack_drop_arp_produces_no_write_icmp_still_replies() {
    drop_arp_case();
}

#[test]
fn mod_drop_arp_produces_no_write_icmp_still_replies() {
    drop_arp_case();
}

#[test]
fn stack_drop_icmp_produces_no_write_arp_still_replies() {
    drop_icmp_case();
}

#[test]
fn mod_drop_icmp_produces_no_write_arp_still_replies() {
    drop_icmp_case();
}

#[test]
fn stack_drop_ip_ignores_ipv4_but_not_arp() {
    drop_ip_case();
}

#[test]
fn mod_drop_ip_ignores_ipv4_but_not_arp() {
    drop_ip_case();
}

#[test]
fn stack_drop_arp_and_icmp_together() {
    drop_both_case();
}

#[test]
fn mod_drop_arp_and_icmp_together() {
    drop_both_case();
}

fn drop_pct_case() {
    let mut rng = SeededRng::new(42);
    for _ in 0..32 {
        assert!(!drop_pct_hit(0, &mut rng));
    }
    let mut rng = SeededRng::new(42);
    for _ in 0..32 {
        assert!(drop_pct_hit(100, &mut rng));
    }
    let mut a = SeededRng::new(7);
    let mut b = SeededRng::new(7);
    let seq_a: Vec<bool> = (0..20).map(|_| drop_pct_hit(50, &mut a)).collect();
    let seq_b: Vec<bool> = (0..20).map(|_| drop_pct_hit(50, &mut b)).collect();
    assert_eq!(seq_a, seq_b);
    assert!(seq_a.iter().any(|h| *h) && seq_a.iter().any(|h| !*h));
}

#[test]
fn stack_drop_pct_zero_never_hundred_always_fifty_is_deterministic() {
    drop_pct_case();
}

#[test]
fn rng_drop_pct_zero_never_hundred_always_fifty_is_deterministic() {
    drop_pct_case();
}

fn ttl_and_id_case() {
    let config = StackConfig { ttl: 32, icmp_id: Some(0x9999), ..StackConfig::default() };
    let out = reply(config, &ping_frame()).expect("icmp reply");
    let frame = EthernetFrame::parse(&out).unwrap();
    let ip = Ipv4Packet::parse(frame.payload).unwrap();
    assert_eq!(ip.ttl, 32);
    assert_eq!(&ip.payload[4..6], &[0x99, 0x99]);
    assert_eq!(internet_checksum(ip.payload), 0);

    let default = reply(StackConfig::default(), &ping_frame()).unwrap();
    let default_ip = Ipv4Packet::parse(EthernetFrame::parse(&default).unwrap().payload).unwrap();
    assert_eq!(default_ip.ttl, 64);
    assert_eq!(&default_ip.payload[4..6], &[0x12, 0x34]);
}

#[test]
fn stack_ttl_and_id_on_icmp_reply() {
    ttl_and_id_case();
}

#[test]
fn mod_ttl_and_id_on_icmp_reply() {
    ttl_and_id_case();
}

#[test]
fn unhandled_transports_are_reported_not_answered() {
    let mut ip = Vec::new();
    Ipv4Packet::write(&mut ip, 64, Protocol::Tcp, Ipv4Addr::new(10, 0, 0, 1), Ipv4Addr::new(10, 0, 0, 2), &[0u8; 20]);
    let mut eth = Vec::new();
    EthernetFrame::write_ethernet(
        &mut eth,
        MacAddress([0x02, 0x00, 0x00, 0x00, 0x00, 0x02]),
        MacAddress([0x02, 0x00, 0x00, 0x00, 0x00, 0x01]),
        0x0800,
        &ip,
    );
    let out = Stack::with_seed(StackConfig::default(), 1).handle(&eth);
    assert!(out.reply.is_none());
    assert!(out.dropped());
    let Some(Step::Drop(dropped)) = out.steps.last() else {
        panic!("expected a drop");
    };
    assert_eq!(dropped.layer, "tcp");
    assert_eq!(dropped.reason, DropReason::NotImplemented);
}

#[test]
fn truncated_frame_drops_before_any_endpoints_are_known() {
    let out = Stack::with_seed(StackConfig::default(), 1).handle(&[0u8; 13]);
    assert!(out.link.is_none());
    assert!(out.dropped());
}

fn echo_id_case() {
    let frame = ping_frame();
    let eth = EthernetFrame::parse(&frame).unwrap();
    let ip = Ipv4Packet::parse(eth.payload).unwrap();
    let mut reply = make_echo_reply(ip.payload).unwrap();
    set_echo_id(&mut reply, 7);
    assert_eq!(&reply[4..6], &[0x00, 0x07]);
    assert_eq!(internet_checksum(&reply), 0);
}

#[test]
fn stack_echo_id_helper_rewrites_checksum() {
    echo_id_case();
}

#[test]
fn mod_echo_id_helper_rewrites_checksum() {
    echo_id_case();
}

// ------------------------------------------------------------ more cases

#[test]
fn a_ping_for_someone_else_is_not_answered() {
    let config = StackConfig { addr: Ipv4Addr::new(10, 0, 0, 9), ..StackConfig::default() };
    assert!(reply(config.clone(), &ping_frame()).is_none());
    assert!(reply(config, &ARP_REQUEST).is_none());
}

#[test]
fn every_frame_is_lost_at_a_hundred_percent() {
    let config = StackConfig { drop_pct: 100, ..StackConfig::default() };
    let mut stack = Stack::with_seed(config, 3);
    for _ in 0..5 {
        let out = stack.handle(&ARP_REQUEST);
        assert!(out.reply.is_none());
        assert!(out.dropped());
    }
}

#[test]
fn the_stack_keeps_its_configuration() {
    let config = with_drops(vec![DropKind::Icmp]);
    let mut stack = Stack::with_seed(config.clone(), 5);
    stack.handle(&ping_frame());
    assert_eq!(stack.config(), &config);
}

#[test]
fn drop_reasons_read_as_the_trace_prints_them() {
    assert_eq!(DropReason::NotImplemented.to_string(), "not implemented");
    assert_eq!(DropReason::UnknownProtocol(99).to_string(), "unknown protocol 99");
    assert_eq!(DropReason::Malformed("bad ipv4 checksum").to_string(), "bad ipv4 checksum");
    assert_eq!(DropKind::Arp.name(), "arp");
    assert_eq!(DropKind::Icmp.name(), "icmp");
    assert_eq!(DropKind::Ip.name(), "ip");
}

#[test]
fn a_rendered_exchange_shows_both_directions() {
    let out = Stack::with_seed(StackConfig::default(), 1).handle(&ARP_REQUEST);
    let mut text = String::new();
    render(&mut text, "23:12:05", &out, true);
    assert!(text.contains("[IN]"), "{text}");
    assert!(text.contains("[OUT]"), "{text}");
    let mut quiet = String::new();
    render(&mut quiet, "23:12:05", &out, false);
    assert!(quiet.starts_with("23:12:05"), "{quiet}");
    assert!(quiet.lines().count() < text.lines().count(), "{quiet}");
}

#[test]
fn seeded_generators_repeat_and_draw_from_the_state() {
    let mut a = SeededRng::new(9);
    let mut b = SeededRng::new(9);
    for _ in 0..10 {
        assert_eq!(a.next_u32(), b.next_u32());
    }
    let mut c = SeededRng::new(8);
    let mut d = SeededRng::new(9);
    assert_eq!(c.next_u32(), d.next_u32());
    let _ = SeededRng::from_entropy().next_u32();
}

use minitcp::stack::session::{source_for, Session, Source};

#[test]
fn a_count_stops_the_run_after_that_many_frames() {
    let mut s = Session::new(Some(2), source_for(false, true));
    assert_eq!(s.source, Source::Hex);
    assert!(s.wants_more());
    s.frame_read();
    assert!(s.wants_more());
    s.frame_read();
    assert!(!s.wants_more());
    assert!(s.at_end().is_ok());
    let none = Session::new(Some(0), Source::Replay);
    assert!(!none.wants_more());
    let live = Session::new(None, source_for(false, false));
    assert!(live.wants_more());
    assert_eq!(live.at_end().unwrap_err(), "frame source closed unexpectedly");
    assert_eq!(source_for(true, true), Source::Replay);
}

use minitcp::interface::hex::frame_from_line;
use minitcp::interface::pcap::{pcap_header, pcap_info, pcap_record};

fn hex_line(frame: &[u8]) -> String {
    frame.iter().map(|b| format!("{b:02x}")).collect::<String>() + "\n"
}

/// One hex line through the stack, printed as the trace prints it.
fn trace_of(config: StackConfig, line: &str, verbose: bool) -> (String, Option<Vec<u8>>) {
    let frame = frame_from_line(line, 2048).unwrap().unwrap();
    let out = Stack::with_seed(config, 1).handle(&frame);
    let mut text = String::new();
    render(&mut text, "12:00:00", &out, verbose);
    (text, out.reply)
}

#[test]
fn a_hex_arp_request_is_answered_and_traced_in_one_line() {
    let (text, reply) = trace_of(StackConfig::default(), &hex_line(&ARP_REQUEST), false);
    assert!(text.contains("arp") && text.contains("10.0.0.1 -> 10.0.0.2"), "{text}");
    assert!(text.contains("who-has"), "{text}");
    assert!(reply.is_some());
}

#[test]
fn the_verbose_trace_shows_the_layer_tree_and_the_reply() {
    let (text, _) = trace_of(StackConfig::default(), &hex_line(&ARP_REQUEST), true);
    for expected in ["[IN]", "ethernet", "L2", "who-has", "[OUT]", "is-at 02:00:00:00:00:02"] {
        assert!(text.contains(expected), "{expected}: {text}");
    }
}

#[test]
fn a_dropped_arp_is_reported_not_decoded() {
    let (text, reply) = trace_of(with_drops(vec![DropKind::Arp]), &hex_line(&ARP_REQUEST), false);
    assert!(text.contains("[DROP]"), "{text}");
    assert!(!text.contains("who-has"), "{text}");
    assert!(reply.is_none());
}

#[test]
fn a_runt_frame_is_reported_as_a_drop() {
    let (text, reply) = trace_of(StackConfig::default(), "0011\n", false);
    assert!(text.contains("[DROP]"), "{text}");
    assert!(reply.is_none());
    assert!(frame_from_line("not hex at all\n", 2048).is_err());
}

#[test]
fn a_capture_of_one_exchange_holds_both_frames() {
    let mut stack = Stack::with_seed(StackConfig::default(), 1);
    let out = stack.handle(&ARP_REQUEST);
    let mut capture = pcap_header();
    capture.extend_from_slice(&pcap_record(1, 2, &ARP_REQUEST));
    capture.extend_from_slice(&pcap_record(1, 3, &out.reply.unwrap()));
    let info = pcap_info(capture).unwrap();
    assert!(info.contains("2 frames"), "{info}");
}

#[test]
fn seeds_that_differ_in_the_low_bit_give_the_same_long_run() {
    let mut c = SeededRng::new(8);
    let mut d = SeededRng::new(9);
    let mut e = SeededRng::new(10);
    let mut differs = false;
    for _ in 0..1000 {
        let x = c.next_u32();
        assert_eq!(x, d.next_u32());
        if x != e.next_u32() {
            differs = true;
        }
    }
    assert!(differs);
}

#[test]
fn draws_are_the_scrambled_high_half_of_each_state() {
    let mut r = SeededRng::new(0);
    assert_eq!(r.next_u32(), 3136999266);
    assert_eq!(r.next_u32(), 47868049);
}
