use minitcp::proto::arp::{addresses, our_ip, our_mac, reply_for};
use minitcp::proto::checksum::{internet_checksum, transport_checksum_ipv4};
use minitcp::proto::error::ParseError;
use minitcp::proto::ethernet::{EthernetFrame, EthernetType, MacAddress};
use minitcp::proto::icmp::{make_echo_reply, set_echo_id};
use minitcp::proto::ipv4::{Ipv4Addr, Ipv4Packet, Protocol};
use minitcp::proto::udp::{checksum_ok, UdpDatagram};

// ---------------------------------------------------------------- checksum

#[test]
fn rfc1071_example() {
    let bytes = [0x00, 0x01, 0xf2, 0x03, 0xf4, 0xf5, 0xf6, 0xf7];
    assert_eq!(internet_checksum(&bytes), 0x220d);
}

#[test]
fn odd_byte_is_high_octet() {
    assert_eq!(internet_checksum(&[0xab]), internet_checksum(&[0xab, 0x00]));
}

#[test]
fn valid_header_checksums_to_zero() {
    let header = [
        0x45, 0x00, 0x00, 0x1c, 0x00, 0x00, 0x00, 0x00, 0x40, 0x01, 0x66, 0xdf, 0x0a, 0x00, 0x00, 0x01,
        0x0a, 0x00, 0x00, 0x02,
    ];
    assert_eq!(internet_checksum(&header), 0);
}

#[test]
fn checksum_of_nothing_is_all_ones() {
    assert_eq!(internet_checksum(&[]), 0xffff);
}

#[test]
fn stamping_the_checksum_makes_the_sum_zero() {
    let mut bytes = vec![0x12, 0x34, 0x00, 0x00, 0xab, 0xcd, 0xef];
    let sum = internet_checksum(&bytes);
    bytes[2] = (sum >> 8) as u8;
    bytes[3] = (sum & 0xff) as u8;
    assert_eq!(internet_checksum(&bytes), 0);
}

// ---------------------------------------------------------------- arp

const WHO_HAS_10_0_0_2: [u8; 28] = [
    0x00, 0x01, 0x08, 0x00, 0x06, 0x04, 0x00, 0x01, 0x02, 0x00, 0x00, 0x00, 0x00, 0x01, 0x0a, 0x00,
    0x00, 0x01, 0x00, 0x00, 0x00, 0x00, 0x00, 0x00, 0x0a, 0x00, 0x00, 0x02,
];

fn who_has(target: Ipv4Addr) -> [u8; 28] {
    let mut req = WHO_HAS_10_0_0_2;
    req[24..28].copy_from_slice(&target.octets());
    req
}

#[test]
fn default_identity_still_answers() {
    let reply = reply_for(&WHO_HAS_10_0_0_2, our_ip(), our_mac()).unwrap();
    assert_eq!(&reply[8..14], &our_mac().0);
    assert_eq!(&reply[14..18], &our_ip().octets());
    assert_eq!(&reply[24..28], &[10, 0, 0, 1]);
}

#[test]
fn custom_ip_and_mac_are_independent() {
    let ip = Ipv4Addr::new(10, 0, 0, 3);
    let mac = MacAddress([0x02, 0x00, 0x00, 0x00, 0x00, 0x03]);
    assert!(reply_for(&who_has(our_ip()), ip, mac).is_none());
    let reply = reply_for(&who_has(ip), ip, mac).unwrap();
    assert_eq!(&reply[8..14], &mac.0);
    assert_eq!(&reply[14..18], &ip.octets());

    let default_ip_new_mac = MacAddress([0x02, 0x00, 0x00, 0x00, 0x00, 0x09]);
    let reply = reply_for(&WHO_HAS_10_0_0_2, our_ip(), default_ip_new_mac).unwrap();
    assert_eq!(&reply[8..14], &default_ip_new_mac.0);
    assert_eq!(&reply[14..18], &our_ip().octets());
}

#[test]
fn addresses_reads_sender_then_target() {
    assert_eq!(
        addresses(&WHO_HAS_10_0_0_2),
        Some((Ipv4Addr::new(10, 0, 0, 1), Ipv4Addr::new(10, 0, 0, 2)))
    );
    assert_eq!(addresses(&WHO_HAS_10_0_0_2[..27]), None);
}

#[test]
fn arp_reply_swaps_the_roles_and_says_reply() {
    let reply = reply_for(&WHO_HAS_10_0_0_2, our_ip(), our_mac()).unwrap();
    assert_eq!(&reply[0..6], &WHO_HAS_10_0_0_2[0..6]);
    assert_eq!(&reply[6..8], &[0x00, 0x02]);
    assert_eq!(&reply[18..24], &WHO_HAS_10_0_0_2[8..14]);
}

#[test]
fn arp_replies_are_not_answered() {
    let mut answer = WHO_HAS_10_0_0_2;
    answer[7] = 2;
    assert!(reply_for(&answer, our_ip(), our_mac()).is_none());
    assert!(reply_for(&WHO_HAS_10_0_0_2[..27], our_ip(), our_mac()).is_none());
}

// ---------------------------------------------------------------- errors

#[test]
fn messages_are_the_ones_the_cli_prints() {
    assert_eq!(ParseError::TruncatedEthernet.message(), "truncated ethernet frame");
    assert_eq!(ParseError::BadIcmpChecksum.message(), "bad icmp checksum");
    assert_eq!(ParseError::Ipv4FragmentUnsupported.message(), "ipv4 fragmentation unsupported");
}

#[test]
fn each_error_names_the_layer_that_raised_it() {
    assert_eq!(ParseError::TruncatedEthernet.layer(), "ethernet");
    assert_eq!(ParseError::BadIpv4Checksum.layer(), "ipv4");
    assert_eq!(ParseError::NotEchoRequest.layer(), "icmp");
}

#[test]
fn udp_errors_name_the_udp_layer() {
    assert_eq!(ParseError::TruncatedUdp.layer(), "udp");
    assert_eq!(ParseError::InvalidUdpLength.layer(), "udp");
}

// ---------------------------------------------------------------- ethernet

const ARP_REQUEST: [u8; 42] = [
    0xff, 0xff, 0xff, 0xff, 0xff, 0xff, // destination: broadcast
    0x02, 0x00, 0x00, 0x00, 0x00, 0x01, // source
    0x08, 0x06, // EtherType: ARP
    0x00, 0x01, 0x08, 0x00, 0x06, 0x04, 0x00, 0x01, 0x02, 0x00, 0x00, 0x00, 0x00, 0x01, 0x0a, 0x00,
    0x00, 0x01, 0x00, 0x00, 0x00, 0x00, 0x00, 0x00, 0x0a, 0x00, 0x00, 0x02,
];

const IPV4_FRAME: [u8; 16] = [
    0x02, 0x00, 0x00, 0x00, 0x00, 0x02, 0x02, 0x00, 0x00, 0x00, 0x00, 0x01, 0x08, 0x00, 0x45, 0x00,
];

const UNKNOWN_FRAME: [u8; 14] = [
    0x33, 0x33, 0x00, 0x00, 0x00, 0x01, 0x02, 0x00, 0x00, 0x00, 0x00, 0x01, 0x86, 0xdd,
];

#[test]
fn parse_rejects_truncated_frame() {
    assert_eq!(EthernetFrame::parse(&[0u8; 13]).err(), Some("truncated ethernet frame"));
    assert_eq!(EthernetFrame::parse(&[]).err(), Some("truncated ethernet frame"));
}

#[test]
fn parse_arp_request() {
    let frame = EthernetFrame::parse(&ARP_REQUEST).unwrap();
    assert_eq!(frame.destination, MacAddress([0xff; 6]));
    assert_eq!(frame.source, MacAddress([0x02, 0x00, 0x00, 0x00, 0x00, 0x01]));
    assert_eq!(frame.ethertype, EthernetType::Arp);
    assert_eq!(frame.payload, &ARP_REQUEST[14..]);
}

#[test]
fn parse_ipv4() {
    let frame = EthernetFrame::parse(&IPV4_FRAME).unwrap();
    assert_eq!(frame.destination, MacAddress([0x02, 0x00, 0x00, 0x00, 0x00, 0x02]));
    assert_eq!(frame.source, MacAddress([0x02, 0x00, 0x00, 0x00, 0x00, 0x01]));
    assert_eq!(frame.ethertype, EthernetType::Ipv4);
    assert_eq!(frame.payload, &[0x45, 0x00]);
}

#[test]
fn parse_unknown_ethertype() {
    let frame = EthernetFrame::parse(&UNKNOWN_FRAME).unwrap();
    assert_eq!(frame.ethertype, EthernetType::Unknown(0x86dd));
    assert!(frame.payload.is_empty());
}

#[test]
fn parse_then_write_reproduces_arp_bytes() {
    let frame = EthernetFrame::parse(&ARP_REQUEST).unwrap();
    let mut out = Vec::new();
    EthernetFrame::write_ethernet(&mut out, frame.destination, frame.source, 0x0806, frame.payload);
    assert_eq!(out.as_slice(), &ARP_REQUEST[..]);
}

#[test]
fn ethernet_write_then_parse_roundtrip() {
    let dst = MacAddress([0xaa, 0xbb, 0xcc, 0xdd, 0xee, 0xff]);
    let src = MacAddress([0x02, 0x00, 0x00, 0x00, 0x00, 0x01]);
    let payload = [0xde, 0xad, 0xbe, 0xef];

    let mut bytes = Vec::new();
    EthernetFrame::write_ethernet(&mut bytes, dst, src, 0x0800, &payload);

    let frame = EthernetFrame::parse(&bytes).unwrap();
    assert_eq!(frame.destination, dst);
    assert_eq!(frame.source, src);
    assert_eq!(frame.ethertype, EthernetType::Ipv4);
    assert_eq!(frame.payload, &payload);
}

#[test]
fn write_ethernet_appends_after_what_is_there() {
    let mut bytes = vec![0x77, 0x88];
    EthernetFrame::write_ethernet(&mut bytes, our_mac(), our_mac(), 0x86dd, &[1, 2, 3]);
    assert_eq!(bytes.len(), 2 + 14 + 3);
    assert_eq!(&bytes[0..2], &[0x77, 0x88]);
    assert_eq!(&bytes[14..16], &[0x86, 0xdd]);
    assert_eq!(&bytes[16..], &[1, 2, 3]);
}

#[test]
fn mac_address_display() {
    assert_eq!(MacAddress([0x02, 0x00, 0x00, 0x00, 0x00, 0x01]).to_string(), "02:00:00:00:00:01");
    assert_eq!(MacAddress([0xff; 6]).to_string(), "ff:ff:ff:ff:ff:ff");
}

#[test]
fn ipv4_address_display() {
    assert_eq!(Ipv4Addr::new(10, 0, 0, 2).to_string(), "10.0.0.2");
    assert_eq!(Ipv4Addr::new(255, 0, 100, 7).to_string(), "255.0.100.7");
}

// ---------------------------------------------------------------- icmp

fn echo_request_with_payload(id: u16, seq: u16, payload: &[u8]) -> Vec<u8> {
    let mut req = Vec::with_capacity(8 + payload.len());
    req.push(8);
    req.push(0);
    req.extend_from_slice(&[0, 0]);
    req.extend_from_slice(&id.to_be_bytes());
    req.extend_from_slice(&seq.to_be_bytes());
    req.extend_from_slice(payload);
    let sum = internet_checksum(&req);
    req[2..4].copy_from_slice(&sum.to_be_bytes());
    req
}

#[test]
fn icmp_rejects_truncated() {
    assert_eq!(make_echo_reply(&[8, 0, 0, 0, 0, 1, 0]).err(), Some("truncated ICMP echo"));
}

#[test]
fn rejects_non_echo() {
    let mut bytes = echo_request_with_payload(1, 1, b"hi");
    bytes[0] = 0;
    bytes[2] = 0;
    bytes[3] = 0;
    let sum = internet_checksum(&bytes);
    bytes[2..4].copy_from_slice(&sum.to_be_bytes());
    assert_eq!(make_echo_reply(&bytes).err(), Some("not echo request"));
}

#[test]
fn rejects_bad_checksum() {
    let mut req = echo_request_with_payload(1, 2, b"payload");
    req[2] ^= 0xff;
    assert_eq!(make_echo_reply(&req).err(), Some("bad icmp checksum"));
}

#[test]
fn reply_preserves_id_seq_payload_and_checksums() {
    let req = echo_request_with_payload(0x1234, 0x0007, b"hello");
    let reply = make_echo_reply(&req).unwrap();
    assert_eq!(reply[0], 0);
    assert_eq!(reply[1], 0);
    assert_eq!(&reply[4..8], &req[4..8]);
    assert_eq!(&reply[8..], b"hello");
    assert_eq!(internet_checksum(&reply), 0);
    assert_ne!(&reply[2..4], &req[2..4]);
}

#[test]
fn set_echo_id_rewrites_id_and_keeps_the_sum_valid() {
    let mut reply = make_echo_reply(&echo_request_with_payload(0x1234, 3, b"abc")).unwrap();
    set_echo_id(&mut reply, 0xbeef);
    assert_eq!(&reply[4..6], &[0xbe, 0xef]);
    assert_eq!(&reply[6..8], &[0x00, 0x03]);
    assert_eq!(internet_checksum(&reply), 0);
    let mut short = vec![8, 0, 1];
    set_echo_id(&mut short, 7);
    assert_eq!(short, vec![8, 0, 1]);
}

// ---------------------------------------------------------------- ipv4

const PING: [u8; 28] = [
    0x45, 0x00, 0x00, 0x1c, 0x00, 0x00, 0x00, 0x00, 0x40, 0x01, 0x66, 0xdf, 0x0a, 0x00, 0x00, 0x01,
    0x0a, 0x00, 0x00, 0x02, 0x08, 0x00, 0x00, 0x00, 0x00, 0x00, 0x00, 0x00,
];

#[test]
fn ipv4_parse_rejects_truncated() {
    assert_eq!(Ipv4Packet::parse(&[0u8; 19]).err(), Some("truncated ipv4 header"));
}

#[test]
fn ipv4_parse_rejects_invalid_version_and_ihl() {
    let mut bad_ver = PING;
    bad_ver[0] = 0x65;
    assert_eq!(Ipv4Packet::parse(&bad_ver).err(), Some("invalid ipv4 header"));

    let mut bad_ihl = PING;
    bad_ihl[0] = 0x44;
    assert_eq!(Ipv4Packet::parse(&bad_ihl).err(), Some("invalid ipv4 header"));
}

#[test]
fn ipv4_parse_rejects_invalid_total_length() {
    let mut too_small = PING;
    too_small[2..4].copy_from_slice(&19u16.to_be_bytes());
    assert_eq!(Ipv4Packet::parse(&too_small).err(), Some("invalid ipv4 total length"));
    let mut too_big = PING;
    too_big[2..4].copy_from_slice(&100u16.to_be_bytes());
    assert_eq!(Ipv4Packet::parse(&too_big).err(), Some("invalid ipv4 total length"));
}

#[test]
fn ipv4_parse_rejects_bad_checksum() {
    let mut bad = PING;
    bad[10] ^= 0xff;
    assert_eq!(Ipv4Packet::parse(&bad).err(), Some("bad ipv4 checksum"));
}

#[test]
fn ipv4_parse_rejects_fragments() {
    let mut mf = PING;
    mf[6..8].copy_from_slice(&0x2000u16.to_be_bytes());
    mf[10..12].copy_from_slice(&[0, 0]);
    let csum = internet_checksum(&mf[..20]);
    mf[10..12].copy_from_slice(&csum.to_be_bytes());
    assert_eq!(Ipv4Packet::parse(&mf).err(), Some("ipv4 fragmentation unsupported"));
    let mut offset = PING;
    offset[6..8].copy_from_slice(&0x0001u16.to_be_bytes());
    offset[10..12].copy_from_slice(&[0, 0]);
    let csum = internet_checksum(&offset[..20]);
    offset[10..12].copy_from_slice(&csum.to_be_bytes());
    assert_eq!(Ipv4Packet::parse(&offset).err(), Some("ipv4 fragmentation unsupported"));
}

#[test]
fn ipv4_parse_ping() {
    let pkt = Ipv4Packet::parse(&PING).unwrap();
    assert_eq!(pkt.ttl, 64);
    assert_eq!(pkt.protocol, Protocol::Icmp);
    assert_eq!(pkt.source, Ipv4Addr::new(10, 0, 0, 1));
    assert_eq!(pkt.destination, Ipv4Addr::new(10, 0, 0, 2));
    assert_eq!(pkt.payload, &PING[20..]);
}

#[test]
fn ipv4_ethernet_padding_is_ignored() {
    let mut padded = PING.to_vec();
    padded.extend_from_slice(&[0xaa, 0xbb, 0xcc, 0xdd]);
    let pkt = Ipv4Packet::parse(&padded).unwrap();
    assert_eq!(pkt.payload.len(), 8);
}

#[test]
fn ipv4_write_then_parse_roundtrip() {
    let payload = [0x08, 0x00, 0xf7, 0xff, 0x00, 0x01, 0x00, 0x02];
    let mut bytes = Vec::new();
    Ipv4Packet::write(
        &mut bytes,
        64,
        Protocol::Icmp,
        Ipv4Addr::new(10, 0, 0, 2),
        Ipv4Addr::new(10, 0, 0, 1),
        &payload,
    );
    assert_eq!(bytes.len(), 28);
    assert_eq!(internet_checksum(&bytes[..20]), 0);
    let pkt = Ipv4Packet::parse(&bytes).unwrap();
    assert_eq!(pkt.protocol, Protocol::Icmp);
    assert_eq!(pkt.source, Ipv4Addr::new(10, 0, 0, 2));
    assert_eq!(pkt.destination, Ipv4Addr::new(10, 0, 0, 1));
    assert_eq!(pkt.payload, &payload);
}

#[test]
fn protocol_numbers_round_trip() {
    for n in [0u8, 1, 6, 17, 41, 255] {
        assert_eq!(Protocol::from_number(n).number(), n);
    }
    assert_eq!(Protocol::from_number(1), Protocol::Icmp);
    assert_eq!(Protocol::from_number(17), Protocol::Udp);
    assert_eq!(Protocol::from_number(6), Protocol::Tcp);
    assert_eq!(Protocol::from_number(99), Protocol::Unknown(99));
}

// ---------------------------------------------------------------- udp

const SRC: [u8; 4] = [10, 0, 0, 1];
const DST: [u8; 4] = [10, 0, 0, 2];

fn datagram(src_port: u16, dst_port: u16, payload: &[u8]) -> Vec<u8> {
    let mut out = Vec::new();
    minitcp::proto::udp::write(&mut out, SRC, DST, src_port, dst_port, payload);
    out
}

#[test]
fn udp_rejects_truncated() {
    assert_eq!(UdpDatagram::parse(&[0; 7]).err(), Some(ParseError::TruncatedUdp));
}

#[test]
fn rejects_length_below_header() {
    let mut bytes = datagram(1, 2, b"hi");
    bytes[4..6].copy_from_slice(&7u16.to_be_bytes());
    assert_eq!(UdpDatagram::parse(&bytes).err(), Some(ParseError::InvalidUdpLength));
}

#[test]
fn rejects_length_past_end() {
    let mut bytes = datagram(1, 2, b"hi");
    bytes[4..6].copy_from_slice(&100u16.to_be_bytes());
    assert_eq!(UdpDatagram::parse(&bytes).err(), Some(ParseError::InvalidUdpLength));
}

#[test]
fn zero_checksum_is_accepted() {
    let mut bytes = datagram(1, 2, b"hi");
    bytes[6..8].copy_from_slice(&[0, 0]);
    assert!(checksum_ok(SRC, DST, &bytes));
}

#[test]
fn rejects_flipped_checksum() {
    let bytes = datagram(0x1234, 0x5678, b"hello");
    assert!(checksum_ok(SRC, DST, &bytes));

    let mut flipped = bytes.clone();
    flipped[8] ^= 0xff;
    assert!(!checksum_ok(SRC, DST, &flipped));

    let mut flipped = bytes.clone();
    flipped[6] ^= 0x0f;
    assert_ne!(&flipped[6..8], &[0, 0]);
    assert!(!checksum_ok(SRC, DST, &flipped));
}

#[test]
fn write_then_parse_round_trips() {
    let bytes = datagram(0x1234, 0x5678, b"hello");
    let parsed = UdpDatagram::parse(&bytes).unwrap();
    assert_eq!(parsed.src_port, 0x1234);
    assert_eq!(parsed.dst_port, 0x5678);
    assert_eq!(parsed.payload, b"hello");
    assert_eq!(parsed.checksum, u16::from_be_bytes([bytes[6], bytes[7]]));
}

#[test]
fn writes_at_the_end_of_a_non_empty_buffer() {
    let mut out = vec![0xaa; 20];
    minitcp::proto::udp::write(&mut out, SRC, DST, 0x1234, 0x5678, b"hello");
    assert_eq!(&out[..20], &[0xaa; 20]);
    assert!(checksum_ok(SRC, DST, &out[20..]));
    assert_eq!(UdpDatagram::parse(&out[20..]).unwrap().payload, b"hello");
}

#[test]
fn computed_zero_checksum_is_stored_as_ffff() {
    let payload = [0x83, 0x2b];
    let segment = [0x12, 0x34, 0x56, 0x78, 0, 10, 0, 0, 0x83, 0x2b];
    assert_eq!(transport_checksum_ipv4(SRC, DST, 17, &segment), 0);

    let bytes = datagram(0x1234, 0x5678, &payload);
    assert_eq!(&bytes[6..8], &[0xff, 0xff]);
    assert!(checksum_ok(SRC, DST, &bytes));
}

#[test]
fn outgoing_checksum_is_never_zero() {
    for len in 0..64 {
        let payload: Vec<u8> = (0..len).map(|i| i as u8).collect();
        let bytes = datagram(0x1234, 0x5678, &payload);
        assert_ne!(&bytes[6..8], &[0, 0], "zero checksum at payload len {len}");
    }
}

#[test]
fn udp_length_field_counts_the_header() {
    let bytes = datagram(7, 9, b"abcd");
    assert_eq!(bytes.len(), 12);
    assert_eq!(&bytes[4..6], &[0x00, 0x0c]);
    let parsed = UdpDatagram::parse(&bytes).unwrap();
    assert_eq!(parsed.payload, b"abcd");
}

#[test]
fn a_datagram_whose_length_fits_parses() {
    let bytes = [0x12, 0x34, 0x00, 0x35, 0x00, 0x0a, 0xbe, 0xef, 7, 9, 0xff];
    let d = UdpDatagram::parse(&bytes).unwrap();
    assert_eq!(d.src_port, 0x1234);
    assert_eq!(d.dst_port, 53);
    assert_eq!(d.checksum, 0xbeef);
    assert_eq!(d.payload, &[7, 9]);
}

#[test]
fn an_echo_reply_changes_the_checksum_field() {
    let mut req = vec![8u8, 0, 0, 0, 0x12, 0x34, 0, 7, b'h', b'i'];
    let sum = internet_checksum(&req);
    req[2..4].copy_from_slice(&sum.to_be_bytes());
    let reply = make_echo_reply(&req).unwrap();
    assert_ne!(&reply[2..4], &req[2..4]);
    assert_eq!(&reply[4..], &req[4..]);
    assert_eq!(internet_checksum(&reply), 0);
}
