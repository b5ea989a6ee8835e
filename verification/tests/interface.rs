use minitcp::interface::fwd::{frame_record, record_length, MAX_FRAME};
use minitcp::interface::hex::{decode_hex_line, frame_from_line, HexReader};
use minitcp::interface::pcap::{pcap_header, pcap_info, pcap_record, PcapError, PcapReader};

const ARP_FRAME: [u8; 42] = [
    0xff, 0xff, 0xff, 0xff, 0xff, 0xff, 0x02, 0x00, 0x00, 0x00, 0x00, 0x01, 0x08, 0x06, 0x00, 0x01,
    0x08, 0x00, 0x06, 0x04, 0x00, 0x01, 0x02, 0x00, 0x00, 0x00, 0x00, 0x01, 0x0a, 0x00, 0x00, 0x01,
    0x00, 0x00, 0x00, 0x00, 0x00, 0x00, 0x0a, 0x00, 0x00, 0x02,
];

fn spaced_hex() -> String {
    ARP_FRAME.iter().map(|b| format!("{b:02x}")).collect::<Vec<_>>().join(" ")
}

fn one_line_hex() -> String {
    ARP_FRAME.iter().map(|b| format!("{b:02x}")).collect::<String>() + "\n"
}

fn capture(frames: &[&[u8]]) -> Vec<u8> {
    let mut bytes = pcap_header();
    for frame in frames {
        bytes.extend_from_slice(&pcap_record(0, 0, frame));
    }
    bytes
}

// ---------------------------------------------------------------- hex

#[test]
fn hex_hex_decodes_spaced_line() {
    assert_eq!(decode_hex_line(&spaced_hex()).unwrap(), ARP_FRAME);
}

#[test]
fn hex_hex_rejects_odd_length() {
    assert_eq!(decode_hex_line("abc").unwrap_err(), "odd-length hex");
}

#[test]
fn hex_hex_reader_yields_one_frame() {
    let mut hex = HexReader::new(&one_line_hex());
    let mut buf = vec![0u8; 2048];
    let n = hex.read_frame(&mut buf).unwrap();
    assert_eq!(&buf[..n], &ARP_FRAME);
    assert_eq!(hex.read_frame(&mut buf).unwrap(), 0);
}

#[test]
fn pcap_hex_decodes_spaced_line() {
    assert_eq!(decode_hex_line(&spaced_hex()).unwrap(), ARP_FRAME);
}

#[test]
fn pcap_hex_rejects_odd_length() {
    assert_eq!(decode_hex_line("abc").unwrap_err(), "odd-length hex");
}

#[test]
fn pcap_hex_reader_yields_one_frame() {
    let mut hex = HexReader::new(&one_line_hex());
    let mut buf = vec![0u8; 2048];
    let n = hex.read_frame(&mut buf).unwrap();
    assert_eq!(&buf[..n], &ARP_FRAME);
    assert_eq!(hex.read_frame(&mut buf).unwrap(), 0);
}

#[test]
fn hex_accepts_upper_case_and_colons() {
    assert_eq!(decode_hex_line("DE AD\tbe EF").unwrap(), vec![0xde, 0xad, 0xbe, 0xef]);
    assert_eq!(decode_hex_line("zz").unwrap_err(), "invalid hex: zz");
    assert_eq!(decode_hex_line("de:add").unwrap_err(), "invalid hex: :a");
    assert_eq!(decode_hex_line("+f").unwrap_err(), "invalid hex: +f");
    assert_eq!(decode_hex_line("").unwrap(), Vec::<u8>::new());
}

#[test]
fn blank_and_comment_lines_are_skipped() {
    let text = format!("\n# a comment\n   \n{}", one_line_hex());
    let mut hex = HexReader::new(&text);
    let mut buf = vec![0u8; 2048];
    let n = hex.read_frame(&mut buf).unwrap();
    assert_eq!(n, ARP_FRAME.len());
    assert_eq!(frame_from_line("# note", 64).unwrap(), None);
    assert_eq!(frame_from_line("", 64).unwrap(), None);
}

#[test]
fn a_frame_longer_than_the_buffer_is_an_error() {
    let mut hex = HexReader::new(&one_line_hex());
    let mut buf = vec![0u8; 8];
    assert!(hex.read_frame(&mut buf).is_err());
    assert!(frame_from_line(&spaced_hex(), 8).is_err());
}

// ---------------------------------------------------------------- pcap

#[test]
fn write_then_read_roundtrip() {
    let mut r = PcapReader::open(capture(&[&ARP_FRAME])).unwrap();
    let frame = r.read_frame(2048).unwrap();
    assert_eq!(frame, ARP_FRAME);
    assert_eq!(r.read_frame(2048), None);
}

#[test]
fn several_records_read_back_in_order() {
    let short: [u8; 3] = [1, 2, 3];
    let empty: [u8; 0] = [];
    let mut r = PcapReader::open(capture(&[&ARP_FRAME, &short, &empty, &ARP_FRAME])).unwrap();
    assert_eq!(r.read_frame(2048).unwrap(), ARP_FRAME);
    assert_eq!(r.read_frame(2048).unwrap(), short);
    assert_eq!(r.read_frame(2048).unwrap(), Vec::<u8>::new());
    assert_eq!(r.read_frame(2048).unwrap(), ARP_FRAME);
    assert_eq!(r.read_frame(2048), None);
}

#[test]
fn pcap_info_lists_ethertype() {
    let text = pcap_info(capture(&[&ARP_FRAME])).unwrap();
    assert!(text.contains("ethertype 0x0806"), "{text}");
    assert!(text.contains("1 frames"), "{text}");
}

#[test]
fn a_file_that_is_not_a_pcap_is_refused() {
    assert_eq!(pcap_info(b"hello, world, this is text!".to_vec()).unwrap_err(), PcapError::BadMagic);
    assert_eq!(pcap_info(vec![0xd4, 0xc3]).unwrap_err(), PcapError::Truncated);
    let mut other_link = pcap_header();
    other_link[20] = 101;
    assert_eq!(PcapReader::open(other_link).err(), Some(PcapError::NotEthernet(101)));
    assert!(PcapError::BadMagic.message().contains("unsupported pcap magic"));
    assert_eq!(PcapError::NotEthernet(101).message(), "pcap link type 101 is not Ethernet (1)");
}

#[test]
fn the_header_is_classic_little_endian_ethernet() {
    let h = pcap_header();
    assert_eq!(h.len(), 24);
    assert_eq!(&h[0..4], &[0xd4, 0xc3, 0xb2, 0xa1]);
    assert_eq!(&h[20..24], &[1, 0, 0, 0]);
}

#[test]
fn records_carry_time_and_both_lengths() {
    let r = pcap_record(0x01020304, 5, &[9, 9, 9]);
    assert_eq!(&r[0..4], &[4, 3, 2, 1]);
    assert_eq!(&r[4..8], &[5, 0, 0, 0]);
    assert_eq!(&r[8..12], &[3, 0, 0, 0]);
    assert_eq!(&r[12..16], &[3, 0, 0, 0]);
    assert_eq!(&r[16..], &[9, 9, 9]);
}

#[test]
fn a_capture_read_with_a_small_buffer_is_cut_to_fit() {
    let mut r = PcapReader::open(capture(&[&ARP_FRAME, &[1, 2, 3]])).unwrap();
    assert_eq!(r.read_frame(10).unwrap(), &ARP_FRAME[..10]);
    assert_eq!(r.read_frame(10).unwrap(), vec![1, 2, 3]);
    assert_eq!(r.read_frame(10), None);
}

#[test]
fn an_empty_capture_has_no_frames() {
    let text = pcap_info(pcap_header()).unwrap();
    assert!(text.contains("0 frames"), "{text}");
}

// ---------------------------------------------------------------- fwd

#[test]
fn records_are_length_prefixed() {
    assert_eq!(frame_record(b"\x00\x01\x02hello").unwrap(), b"\x00\x00\x00\x08\x00\x01\x02hello".to_vec());
    assert_eq!(record_length([0, 0, 0, 8], 64).unwrap(), 8);
    assert_eq!(record_length([0, 0, 0, 0], 64).unwrap(), 0);
}

#[test]
fn oversized_records_are_refused() {
    let big = vec![0u8; MAX_FRAME + 1];
    assert!(frame_record(&big).unwrap_err().contains("maximum"));
    let too_long = ((MAX_FRAME as u32) + 1).to_be_bytes();
    assert!(record_length(too_long, 2048).unwrap_err().contains("maximum"));
    assert!(record_length([0, 0, 0x10, 0], 2048).unwrap_err().contains("receive buffer holds 2048"));
}
