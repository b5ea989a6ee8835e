//! Ethernet II: destination MAC, source MAC, EtherType, payload.

use vstd::prelude::*;
use vstd::slice::slice_subrange;
use super::wire::{be16, be16_bytes, read_be16, push_be16, push_all};
use crate::text::{hex2, push_hex2, push_char};

verus! {

/// An address on this cable only. The IPv4 address is a different address,
/// inside the payload.
#[derive(Clone, Copy, Debug, Eq)]
pub struct MacAddress(pub [u8; 6]);

impl PartialEq for MacAddress {
    fn eq(&self, other: &Self) -> (r: bool) {
        let r = self.0[0] == other.0[0] && self.0[1] == other.0[1] && self.0[2] == other.0[2]
            && self.0[3] == other.0[3] && self.0[4] == other.0[4] && self.0[5] == other.0[5];
        proof {
            if r {
                assert(self.0 =~= other.0);
            }
        }
        r
    }
}

impl vstd::std_specs::cmp::PartialEqSpecImpl for MacAddress {
    open spec fn obeys_eq_spec() -> bool {
        true
    }

    open spec fn eq_spec(&self, other: &Self) -> bool {
        *self == *other
    }
}

/// The text of a MAC address: six two-digit lowercase hex bytes joined by `:`.
pub open spec fn mac_text(m: Seq<u8>) -> Seq<char> {
    hex2(m[0]) + seq![':'] + hex2(m[1]) + seq![':'] + hex2(m[2]) + seq![':'] + hex2(m[3])
        + seq![':'] + hex2(m[4]) + seq![':'] + hex2(m[5])
}

impl MacAddress {
    /// `02:00:00:00:00:01`, the way `ip` and tcpdump print a MAC.
    pub fn to_string(&self) -> (s: String)
        ensures
            s@ == mac_text(self.0@),
    {
        let b = self.0;
        let mut s = String::new();
        push_hex2(&mut s, b[0]);
        push_char(&mut s, ':');
        push_hex2(&mut s, b[1]);
        push_char(&mut s, ':');
        push_hex2(&mut s, b[2]);
        push_char(&mut s, ':');
        push_hex2(&mut s, b[3]);
        push_char(&mut s, ':');
        push_hex2(&mut s, b[4]);
        push_char(&mut s, ':');
        push_hex2(&mut s, b[5]);
        assert(s@ =~= mac_text(self.0@));
        s
    }
}

/// Bytes 12-13: which parser should see the payload.
#[derive(Clone, Copy, Debug, PartialEq, Eq, Structural)]
pub enum EthernetType {
    Ipv4,
    Arp,
    Unknown(u16),
}

/// The EtherType a raw number names.
pub open spec fn ethertype_of(raw: u16) -> EthernetType {
    if raw == 0x0800 {
        EthernetType::Ipv4
    } else if raw == 0x0806 {
        EthernetType::Arp
    } else {
        EthernetType::Unknown(raw)
    }
}

/// The raw number of an EtherType.
pub open spec fn ethertype_number(t: EthernetType) -> u16 {
    match t {
        EthernetType::Ipv4 => 0x0800,
        EthernetType::Arp => 0x0806,
        EthernetType::Unknown(n) => n,
    }
}

/// The six bytes at `at` as a MAC address.
pub open spec fn mac_at(bytes: Seq<u8>, at: int) -> MacAddress {
    MacAddress([bytes[at], bytes[at + 1], bytes[at + 2], bytes[at + 3], bytes[at + 4], bytes[at + 5]])
}

/// The bytes of an Ethernet II frame.
pub open spec fn frame_bytes(dst: MacAddress, src: MacAddress, ethertype: u16, payload: Seq<u8>) -> Seq<u8> {
    dst.0@ + src.0@ + be16_bytes(ethertype) + payload
}

/// A parsed Ethernet II frame, borrowing its payload from the input.
pub struct EthernetFrame<'a> {
    pub destination: MacAddress,
    pub source: MacAddress,
    pub ethertype: EthernetType,
    pub payload: &'a [u8],
}

impl<'a> EthernetFrame<'a> {
    /// Reads the 14-byte header; everything after it is the payload.
    pub fn parse(input: &'a [u8]) -> (r: Result<Self, &'static str>)
        ensures
            input@.len() < 14 <==> r is Err,
            r matches Err(e) ==> e == "truncated ethernet frame",
            r matches Ok(f) ==> {
                &&& f.destination == mac_at(input@, 0)
                &&& f.source == mac_at(input@, 6)
                &&& f.ethertype == ethertype_of(be16(input@[12], input@[13]))
                &&& f.payload@ == input@.subrange(14, input@.len() as int)
            },
    {
        if input.len() < 14 {
            return Err("truncated ethernet frame");
        }
        let destination = MacAddress([input[0], input[1], input[2], input[3], input[4], input[5]]);
        let source = MacAddress([input[6], input[7], input[8], input[9], input[10], input[11]]);
        let raw = read_be16(input[12], input[13]);
        let ethertype = if raw == 0x0800 {
            EthernetType::Ipv4
        } else if raw == 0x0806 {
            EthernetType::Arp
        } else {
            EthernetType::Unknown(raw)
        };
        Ok(EthernetFrame {
            destination,
            source,
            ethertype,
            payload: slice_subrange(input, 14, input.len()),
        })
    }

    /// Appends a frame: the same layout `parse` reads.
    pub fn write_ethernet(
        out: &mut Vec<u8>,
        dst: MacAddress,
        src: MacAddress,
        ethertype: u16,
        payload: &[u8],
    )
        ensures
            final(out)@ == old(out)@ + frame_bytes(dst, src, ethertype, payload@),
    {
        push_all(out, &dst.0);
        push_all(out, &src.0);
        push_be16(out, ethertype);
        push_all(out, payload);
        assert(final(out)@ =~= old(out)@ + frame_bytes(dst, src, ethertype, payload@));
    }
}

/// Writing a frame and reading it back gives back what was written.
pub proof fn lemma_ethernet_roundtrip(dst: MacAddress, src: MacAddress, ethertype: u16, payload: Seq<u8>)
    ensures
        ({
            let b = frame_bytes(dst, src, ethertype, payload);
            &&& b.len() == 14 + payload.len()
            &&& mac_at(b, 0) == dst
            &&& mac_at(b, 6) == src
            &&& be16(b[12], b[13]) == ethertype
            &&& b.subrange(14, b.len() as int) == payload
        }),
{
    broadcast use vstd::array::group_array_axioms;
    let b = frame_bytes(dst, src, ethertype, payload);
    assert(mac_at(b, 0).0 =~= dst.0);
    assert(mac_at(b, 6).0 =~= src.0);
    assert(b.subrange(14, b.len() as int) =~= payload);
}

} // verus!
