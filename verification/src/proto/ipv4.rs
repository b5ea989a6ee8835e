//! IPv4 (RFC 791): parse and validate a header, reject fragments, and write a
//! 20-byte header with its checksum.

use vstd::prelude::*;
use vstd::slice::{slice_subrange, slice_to_vec};
use super::checksum::{checksum_of, internet_checksum, stamp, lemma_stamped_checksum_is_zero};
use super::wire::{be16, be16_bytes, read_be16, push_all};
use crate::text::{decimal, push_decimal, push_char};

verus! {

/// An IPv4 address, held as its four octets in network order.
#[derive(Clone, Copy, Debug, Eq)]
pub struct Ipv4Addr(pub [u8; 4]);

impl PartialEq for Ipv4Addr {
    fn eq(&self, other: &Self) -> (r: bool) {
        let r = self.0[0] == other.0[0] && self.0[1] == other.0[1] && self.0[2] == other.0[2]
            && self.0[3] == other.0[3];
        proof {
            if r {
                assert(self.0 =~= other.0);
            }
        }
        r
    }
}

impl vstd::std_specs::cmp::PartialEqSpecImpl for Ipv4Addr {
    open spec fn obeys_eq_spec() -> bool {
        true
    }

    open spec fn eq_spec(&self, other: &Self) -> bool {
        *self == *other
    }
}

/// Dotted-quad text: `10.0.0.1`.
pub open spec fn ipv4_text(o: Seq<u8>) -> Seq<char> {
    decimal(o[0] as nat) + seq!['.'] + decimal(o[1] as nat) + seq!['.'] + decimal(o[2] as nat)
        + seq!['.'] + decimal(o[3] as nat)
}

/// The four bytes at `at` as an address.
pub open spec fn ipv4_at(bytes: Seq<u8>, at: int) -> Ipv4Addr {
    Ipv4Addr([bytes[at], bytes[at + 1], bytes[at + 2], bytes[at + 3]])
}

impl Ipv4Addr {
    /// The address `a.b.c.d`.
    pub fn new(a: u8, b: u8, c: u8, d: u8) -> (r: Self)
        ensures
            r.0@ == seq![a, b, c, d],
    {
        let r = Ipv4Addr([a, b, c, d]);
        assert(r.0@ =~= seq![a, b, c, d]);
        r
    }

    /// The four octets, most significant first.
    pub fn octets(&self) -> (r: [u8; 4])
        ensures
            r == self.0,
    {
        self.0
    }

    /// Dotted-quad text, as `Display` prints an address.
    pub fn to_string(&self) -> (s: String)
        ensures
            s@ == ipv4_text(self.0@),
    {
        let mut s = String::new();
        push_decimal(&mut s, self.0[0] as u64);
        push_char(&mut s, '.');
        push_decimal(&mut s, self.0[1] as u64);
        push_char(&mut s, '.');
        push_decimal(&mut s, self.0[2] as u64);
        push_char(&mut s, '.');
        push_decimal(&mut s, self.0[3] as u64);
        assert(s@ =~= ipv4_text(self.0@));
        s
    }
}

/// The protocol number in byte 9 of the header.
#[derive(Clone, Copy, Debug, PartialEq, Eq, Structural)]
pub enum Protocol {
    Icmp,
    Udp,
    Tcp,
    Unknown(u8),
}

/// The protocol an IANA number names: 1 ICMP, 6 TCP, 17 UDP.
pub open spec fn protocol_of(n: u8) -> Protocol {
    if n == 1 {
        Protocol::Icmp
    } else if n == 6 {
        Protocol::Tcp
    } else if n == 17 {
        Protocol::Udp
    } else {
        Protocol::Unknown(n)
    }
}

/// The IANA number of a protocol.
pub open spec fn protocol_number(p: Protocol) -> u8 {
    match p {
        Protocol::Icmp => 1,
        Protocol::Tcp => 6,
        Protocol::Udp => 17,
        Protocol::Unknown(n) => n,
    }
}

impl Protocol {
    pub fn from_number(n: u8) -> (p: Self)
        ensures
            p == protocol_of(n),
    {
        match n {
            1 => Protocol::Icmp,
            6 => Protocol::Tcp,
            17 => Protocol::Udp,
            _ => Protocol::Unknown(n),
        }
    }

    pub fn number(self) -> (n: u8)
        ensures
            n == protocol_number(self),
    {
        match self {
            Protocol::Icmp => 1,
            Protocol::Tcp => 6,
            Protocol::Udp => 17,
            Protocol::Unknown(n) => n,
        }
    }
}

/// Naming a protocol by its number and reading the number back is lossless.
pub proof fn lemma_protocol_number_roundtrip(n: u8)
    ensures
        protocol_number(protocol_of(n)) == n,
{
}

/// Header length in bytes, from the IHL nibble of byte 0.
pub open spec fn ihl_bytes(b: Seq<u8>) -> nat {
    (b[0] % 16) as nat * 4
}

/// The Total Length field.
pub open spec fn total_length(b: Seq<u8>) -> nat {
    be16(b[2], b[3]) as nat
}

/// Byte 0 is not version 4 with a header of at least 20 bytes that we hold.
pub open spec fn bad_ipv4_header(b: Seq<u8>) -> bool {
    b[0] / 16 != 4 || ihl_bytes(b) < 20 || b.len() < ihl_bytes(b)
}

/// Total Length is shorter than the header or longer than what we hold.
pub open spec fn bad_total_length(b: Seq<u8>) -> bool {
    total_length(b) < ihl_bytes(b) || total_length(b) > b.len()
}

/// More Fragments is set, or the fragment offset is not zero.
pub open spec fn is_fragment(b: Seq<u8>) -> bool {
    let frag = be16(b[6], b[7]);
    frag & 0x1fff != 0 || frag & 0x2000 != 0
}

/// The header does not checksum to zero.
pub open spec fn bad_header_checksum(b: Seq<u8>) -> bool {
    checksum_of(b.subrange(0, ihl_bytes(b) as int)) != 0
}

/// Every check `Ipv4Packet::parse` makes passes.
pub open spec fn ipv4_accepts(b: Seq<u8>) -> bool {
    b.len() >= 20 && !bad_ipv4_header(b) && !bad_total_length(b) && !is_fragment(b)
        && !bad_header_checksum(b)
}

/// A parsed IPv4 header and the payload it delimits.
#[derive(Debug)]
pub struct Ipv4Packet<'a> {
    pub ttl: u8,
    pub protocol: Protocol,
    pub source: Ipv4Addr,
    pub destination: Ipv4Addr,
    pub payload: &'a [u8],
}

/// The 20-byte header `write` produces, before its checksum is filled in.
pub open spec fn header_template(ttl: u8, protocol: Protocol, source: Ipv4Addr, destination: Ipv4Addr, payload_len: nat) -> Seq<u8> {
    seq![0x45u8, 0u8] + be16_bytes(((20 + payload_len) % 65536) as u16) + seq![0u8, 0u8, 0u8, 0u8, ttl, protocol_number(protocol), 0u8, 0u8]
        + source.0@ + destination.0@
}

/// The bytes `write` appends: the header with its checksum, then the payload.
pub open spec fn packet_bytes(ttl: u8, protocol: Protocol, source: Ipv4Addr, destination: Ipv4Addr, payload: Seq<u8>) -> Seq<u8> {
    let h = header_template(ttl, protocol, source, destination, payload.len());
    stamp(h, 10, checksum_of(h)) + payload
}

impl<'a> Ipv4Packet<'a> {
    /// Validates the header and slices out the payload, which ends at Total
    /// Length so that Ethernet padding is not part of it.
    pub fn parse(input: &'a [u8]) -> (r: Result<Self, &'static str>)
        ensures
            r is Ok <==> ipv4_accepts(input@),
            input@.len() < 20 ==> (r matches Err(e) && e == "truncated ipv4 header"),
            input@.len() >= 20 && bad_ipv4_header(input@) ==> (r matches Err(e) && e == "invalid ipv4 header"),
            input@.len() >= 20 && !bad_ipv4_header(input@) && bad_total_length(input@) ==> (r matches Err(e) && e == "invalid ipv4 total length"),
            input@.len() >= 20 && !bad_ipv4_header(input@) && !bad_total_length(input@) && is_fragment(
                input@,
            ) ==> (r matches Err(e) && e == "ipv4 fragmentation unsupported"),
            input@.len() >= 20 && !bad_ipv4_header(input@) && !bad_total_length(input@) && !is_fragment(
                input@,
            ) && bad_header_checksum(input@) ==> (r matches Err(e) && e == "bad ipv4 checksum"),
            r matches Ok(p) ==> {
                &&& p.ttl == input@[8]
                &&& p.protocol == protocol_of(input@[9])
                &&& p.source == ipv4_at(input@, 12)
                &&& p.destination == ipv4_at(input@, 16)
                &&& p.payload@ == input@.subrange(ihl_bytes(input@) as int, total_length(input@) as int)
            },
    {
        if input.len() < 20 {
            return Err("truncated ipv4 header");
        }
        let version = input[0] / 16;
        let ihl = ((input[0] % 16) as usize) * 4;
        if version != 4 || ihl < 20 || input.len() < ihl {
            return Err("invalid ipv4 header");
        }
        let total = read_be16(input[2], input[3]) as usize;
        if total < ihl || total > input.len() {
            return Err("invalid ipv4 total length");
        }
        let frag = read_be16(input[6], input[7]);
        if (frag & 0x1fff) != 0 || (frag & 0x2000) != 0 {
            return Err("ipv4 fragmentation unsupported");
        }
        if internet_checksum(slice_subrange(input, 0, ihl)) != 0 {
            return Err("bad ipv4 checksum");
        }
        Ok(Ipv4Packet {
            ttl: input[8],
            protocol: Protocol::from_number(input[9]),
            source: Ipv4Addr([input[12], input[13], input[14], input[15]]),
            destination: Ipv4Addr([input[16], input[17], input[18], input[19]]),
            payload: slice_subrange(input, ihl, total),
        })
    }

    /// Appends a 20-byte header with no options, then the payload. The
    /// checksum is computed with bytes 10-11 zeroed.
    #[verifier::rlimit(40)]
    pub fn write(
        out: &mut Vec<u8>,
        ttl: u8,
        protocol: Protocol,
        source: Ipv4Addr,
        destination: Ipv4Addr,
        payload: &[u8],
    )
        ensures
            final(out)@ == old(out)@ + packet_bytes(ttl, protocol, source, destination, payload@),
    {
        let total = (((payload.len() % 65536) as u32 + 20) % 65536) as u16;
        let pn = protocol.number();
        let a = source.0;
        let d = destination.0;
        let fields: [u8; 20] = [
            0x45, 0, (total / 256) as u8, (total % 256) as u8, 0, 0, 0, 0, ttl, pn, 0, 0,
            a[0], a[1], a[2], a[3], d[0], d[1], d[2], d[3],
        ];
        let mut header = slice_to_vec(fields.as_slice());
        let ghost template = header@;
        assert(template =~= header_template(ttl, protocol, source, destination, payload@.len()));
        let checksum = internet_checksum(header.as_slice());
        header.set(10, (checksum / 256) as u8);
        header.set(11, (checksum % 256) as u8);
        assert(header@ =~= stamp(template, 10, checksum));
        push_all(out, header.as_slice());
        push_all(out, payload);
        assert(final(out)@ =~= old(out)@ + packet_bytes(ttl, protocol, source, destination, payload@));
    }
}

/// A written packet parses back to what was written, as long as the payload
/// fits the 16-bit Total Length.
pub proof fn lemma_ipv4_roundtrip(ttl: u8, protocol: Protocol, source: Ipv4Addr, destination: Ipv4Addr, payload: Seq<u8>)
    requires
        payload.len() <= 65515,
    ensures
        ({
            let b = packet_bytes(ttl, protocol, source, destination, payload);
            &&& ipv4_accepts(b)
            &&& b[8] == ttl
            &&& b[9] == protocol_number(protocol)
            &&& ipv4_at(b, 12) == source
            &&& ipv4_at(b, 16) == destination
            &&& b.subrange(ihl_bytes(b) as int, total_length(b) as int) == payload
        }),
{
    broadcast use vstd::array::group_array_axioms;
    let h = header_template(ttl, protocol, source, destination, payload.len());
    let c = checksum_of(h);
    let sh = stamp(h, 10, c);
    let b = sh + payload;
    lemma_stamped_checksum_is_zero(h, 10);
    let t = ((20 + payload.len()) % 65536) as u16;
    assert(t == 20 + payload.len());
    crate::proto::wire::lemma_be16_roundtrip(t);
    assert(b[0] == 0x45);
    assert(b[2] == be16_bytes(t)[0] && b[3] == be16_bytes(t)[1]);
    assert(ihl_bytes(b) == 20);
    assert(b.subrange(0, 20) =~= sh);
    assert(total_length(b) == 20 + payload.len());
    assert(b[6] == 0 && b[7] == 0);
    assert(be16(b[6], b[7]) == 0);
    assert(0u16 & 0x1fff == 0 && 0u16 & 0x2000 == 0) by (bit_vector);
    assert(!is_fragment(b));
    assert(!bad_header_checksum(b));
    assert(b.subrange(20, total_length(b) as int) =~= payload);
    assert(ipv4_at(b, 12).0 =~= source.0);
    assert(ipv4_at(b, 16).0 =~= destination.0);
}

} // verus!
