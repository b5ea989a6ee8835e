//! UDP (RFC 768): an 8-byte header of ports, length and checksum, then the
//! payload. The checksum covers the IPv4 pseudo-header too.

use vstd::prelude::*;
use vstd::slice::slice_subrange;
use super::checksum::{
    checksum_of, pseudo_header, stamp, transport_checksum_ipv4, transport_checksum_of,
    lemma_stamped_checksum_is_zero, lemma_stamped_ffff_is_zero,
};
use super::error::ParseError;
use super::wire::{be16, be16_bytes, read_be16, push_be16, push_all};

verus! {

/// A parsed datagram, borrowing its payload from the input.
pub struct UdpDatagram<'a> {
    pub src_port: u16,
    pub dst_port: u16,
    pub checksum: u16,
    pub payload: &'a [u8],
}

/// The Length field of a UDP header.
pub open spec fn udp_length(b: Seq<u8>) -> nat {
    be16(b[4], b[5]) as nat
}

impl<'a> UdpDatagram<'a> {
    /// Reads the header; the payload ends where Length says, not where the
    /// input does.
    pub fn parse(input: &'a [u8]) -> (r: Result<Self, ParseError>)
        ensures
            input@.len() < 8 <==> r == Err::<Self, ParseError>(ParseError::TruncatedUdp),
            input@.len() >= 8 && (udp_length(input@) < 8 || udp_length(input@) > input@.len()) <==> r
                == Err::<Self, ParseError>(ParseError::InvalidUdpLength),
            input@.len() >= 8 && 8 <= udp_length(input@) <= input@.len() <==> r is Ok,
            r matches Ok(d) ==> {
                &&& d.src_port == be16(input@[0], input@[1])
                &&& d.dst_port == be16(input@[2], input@[3])
                &&& d.checksum == be16(input@[6], input@[7])
                &&& d.payload@ == input@.subrange(8, udp_length(input@) as int)
            },
    {
        if input.len() < 8 {
            return Err(ParseError::TruncatedUdp);
        }
        let src_port = read_be16(input[0], input[1]);
        let dst_port = read_be16(input[2], input[3]);
        let length = read_be16(input[4], input[5]) as usize;
        if length < 8 || length > input.len() {
            return Err(ParseError::InvalidUdpLength);
        }
        let checksum = read_be16(input[6], input[7]);
        Ok(UdpDatagram { src_port, dst_port, checksum, payload: slice_subrange(input, 8, length) })
    }
}

/// The checksum field is zero (the sender opted out, which IPv4 allows), or
/// the datagram checksums to zero with its pseudo-header.
pub open spec fn udp_checksum_valid(src: Seq<u8>, dst: Seq<u8>, datagram: Seq<u8>) -> bool {
    be16(datagram[6], datagram[7]) == 0 || transport_checksum_of(src, dst, 17, datagram) == 0
}

/// Whether a received datagram's checksum holds.
pub fn checksum_ok(src: [u8; 4], dst: [u8; 4], datagram: &[u8]) -> (r: bool)
    requires
        datagram@.len() >= 8,
    ensures
        r == udp_checksum_valid(src@, dst@, datagram@),
{
    let checksum = read_be16(datagram[6], datagram[7]);
    if checksum == 0 {
        return true;
    }
    transport_checksum_ipv4(src, dst, 17, datagram) == 0
}

/// The datagram `write` builds before its checksum is filled in.
pub open spec fn udp_template(src_port: u16, dst_port: u16, payload: Seq<u8>) -> Seq<u8> {
    be16_bytes(src_port) + be16_bytes(dst_port) + be16_bytes(((8 + payload.len()) % 65536) as u16)
        + seq![0u8, 0u8] + payload
}

/// The checksum `write` stores: the computed one, with zero sent as 0xffff
/// because a zero field means "no checksum".
pub open spec fn udp_wire_checksum(src: Seq<u8>, dst: Seq<u8>, segment: Seq<u8>) -> u16 {
    let c = transport_checksum_of(src, dst, 17, segment);
    if c == 0 {
        0xffff
    } else {
        c
    }
}

/// The bytes `write` appends.
pub open spec fn udp_bytes(src: Seq<u8>, dst: Seq<u8>, src_port: u16, dst_port: u16, payload: Seq<u8>) -> Seq<u8> {
    let t = udp_template(src_port, dst_port, payload);
    stamp(t, 6, udp_wire_checksum(src, dst, t))
}

/// Appends a datagram from `src_port` to `dst_port` with a correct checksum.
pub fn write(
    out: &mut Vec<u8>,
    src: [u8; 4],
    dst: [u8; 4],
    src_port: u16,
    dst_port: u16,
    payload: &[u8],
)
    ensures
        final(out)@ == old(out)@ + udp_bytes(src@, dst@, src_port, dst_port, payload@),
{
    let length = (((payload.len() % 65536) as u32 + 8) % 65536) as u16;
    let mut segment: Vec<u8> = Vec::new();
    push_be16(&mut segment, src_port);
    push_be16(&mut segment, dst_port);
    push_be16(&mut segment, length);
    push_be16(&mut segment, 0);
    push_all(&mut segment, payload);
    let ghost template = segment@;
    assert(template =~= udp_template(src_port, dst_port, payload@));
    let mut csum = transport_checksum_ipv4(src, dst, 17, segment.as_slice());
    if csum == 0 {
        csum = 0xffff;
    }
    segment.set(6, (csum / 256) as u8);
    segment.set(7, (csum % 256) as u8);
    assert(segment@ =~= udp_bytes(src@, dst@, src_port, dst_port, payload@));
    push_all(out, segment.as_slice());
}

/// Every datagram `write` produces passes `checksum_ok`, and its checksum
/// field is never the "no checksum" zero.
pub proof fn lemma_written_checksum_holds(src: [u8; 4], dst: [u8; 4], src_port: u16, dst_port: u16, payload: Seq<u8>)
    ensures
        ({
            let b = udp_bytes(src@, dst@, src_port, dst_port, payload);
            &&& b.len() == 8 + payload.len()
            &&& be16(b[6], b[7]) != 0
            &&& transport_checksum_of(src@, dst@, 17, b) == 0
            &&& udp_checksum_valid(src@, dst@, b)
        }),
{
    let t = udp_template(src_port, dst_port, payload);
    let p = pseudo_header(src@, dst@, 17, t.len());
    let c = udp_wire_checksum(src@, dst@, t);
    let b = stamp(t, 6, c);
    assert(p + b =~= stamp(p + t, 18, c));
    crate::proto::wire::lemma_be16_roundtrip(c);
    assert(b[6] == be16_bytes(c)[0] && b[7] == be16_bytes(c)[1]);
    if transport_checksum_of(src@, dst@, 17, t) == 0 {
        lemma_stamped_ffff_is_zero(p + t, 18);
    } else {
        lemma_stamped_checksum_is_zero(p + t, 18);
    }
}

/// A written datagram parses back to its ports and payload, as long as it
/// fits the 16-bit Length field.
pub proof fn lemma_udp_roundtrip(src: [u8; 4], dst: [u8; 4], src_port: u16, dst_port: u16, payload: Seq<u8>)
    requires
        payload.len() <= 65527,
    ensures
        ({
            let b = udp_bytes(src@, dst@, src_port, dst_port, payload);
            &&& b.len() >= 8
            &&& udp_length(b) == b.len()
            &&& be16(b[0], b[1]) == src_port
            &&& be16(b[2], b[3]) == dst_port
            &&& b.subrange(8, udp_length(b) as int) == payload
        }),
{
    let t = udp_template(src_port, dst_port, payload);
    let b = udp_bytes(src@, dst@, src_port, dst_port, payload);
    let len = ((8 + payload.len()) % 65536) as u16;
    crate::proto::wire::lemma_be16_roundtrip(src_port);
    crate::proto::wire::lemma_be16_roundtrip(dst_port);
    crate::proto::wire::lemma_be16_roundtrip(len);
    assert(b[0] == t[0] && b[1] == t[1] && b[2] == t[2] && b[3] == t[3] && b[4] == t[4] && b[5] == t[5]);
    assert(b.subrange(8, b.len() as int) =~= payload);
}

} // verus!
