//! Why a parser refused a packet. Callers match on the reason; the text is
//! what the command line prints, so it stays stable.

use vstd::prelude::*;

verus! {

/// A packet this stack will not accept.
#[derive(Clone, Copy, Debug, PartialEq, Eq, Structural)]
pub enum ParseError {
    /// Fewer bytes than the 14-byte Ethernet II header needs.
    TruncatedEthernet,
    /// Fewer bytes than the 20-byte IPv4 header needs.
    TruncatedIpv4,
    /// Version is not 4, or IHL claims a header shorter than 20 bytes.
    InvalidIpv4Header,
    /// Total Length disagrees with the header length or the bytes we hold.
    InvalidIpv4TotalLength,
    /// A fragment, which is rejected rather than reassembled.
    Ipv4FragmentUnsupported,
    /// The IPv4 header checksum does not come out to zero.
    BadIpv4Checksum,
    /// Fewer bytes than the 8-byte ICMP echo header needs.
    TruncatedIcmpEcho,
    /// An ICMP message that is not type 8 / code 0.
    NotEchoRequest,
    /// The ICMP checksum does not come out to zero.
    BadIcmpChecksum,
    /// Fewer bytes than the 8-byte UDP header needs.
    TruncatedUdp,
    /// The UDP Length field is shorter than the header or longer than the datagram.
    InvalidUdpLength,
}

/// The layer that rejects a packet for this reason.
pub open spec fn layer_of(e: ParseError) -> Seq<char> {
    match e {
        ParseError::TruncatedEthernet => "ethernet"@,
        ParseError::TruncatedIpv4 | ParseError::InvalidIpv4Header | ParseError::InvalidIpv4TotalLength
        | ParseError::Ipv4FragmentUnsupported | ParseError::BadIpv4Checksum => "ipv4"@,
        ParseError::TruncatedIcmpEcho | ParseError::NotEchoRequest | ParseError::BadIcmpChecksum => "icmp"@,
        ParseError::TruncatedUdp | ParseError::InvalidUdpLength => "udp"@,
    }
}

/// The message printed for this reason.
pub open spec fn message_of(e: ParseError) -> Seq<char> {
    match e {
        ParseError::TruncatedEthernet => "truncated ethernet frame"@,
        ParseError::TruncatedIpv4 => "truncated ipv4 header"@,
        ParseError::InvalidIpv4Header => "invalid ipv4 header"@,
        ParseError::InvalidIpv4TotalLength => "invalid ipv4 total length"@,
        ParseError::Ipv4FragmentUnsupported => "ipv4 fragmentation unsupported"@,
        ParseError::BadIpv4Checksum => "bad ipv4 checksum"@,
        ParseError::TruncatedIcmpEcho => "truncated ICMP echo"@,
        ParseError::NotEchoRequest => "not echo request"@,
        ParseError::BadIcmpChecksum => "bad icmp checksum"@,
        ParseError::TruncatedUdp => "truncated udp datagram"@,
        ParseError::InvalidUdpLength => "invalid udp length"@,
    }
}

impl ParseError {
    /// The layer that rejected the packet: `"ethernet"`, `"ipv4"`, `"icmp"` or `"udp"`.
    pub fn layer(self) -> (r: &'static str)
        ensures
            r@ == layer_of(self),
    {
        match self {
            ParseError::TruncatedEthernet => "ethernet",
            ParseError::TruncatedIpv4 | ParseError::InvalidIpv4Header
            | ParseError::InvalidIpv4TotalLength | ParseError::Ipv4FragmentUnsupported
            | ParseError::BadIpv4Checksum => "ipv4",
            ParseError::TruncatedIcmpEcho | ParseError::NotEchoRequest
            | ParseError::BadIcmpChecksum => "icmp",
            ParseError::TruncatedUdp | ParseError::InvalidUdpLength => "udp",
        }
    }

    /// The message the command line prints for this reason.
    pub fn message(self) -> (r: &'static str)
        ensures
            r@ == message_of(self),
    {
        match self {
            ParseError::TruncatedEthernet => "truncated ethernet frame",
            ParseError::TruncatedIpv4 => "truncated ipv4 header",
            ParseError::InvalidIpv4Header => "invalid ipv4 header",
            ParseError::InvalidIpv4TotalLength => "invalid ipv4 total length",
            ParseError::Ipv4FragmentUnsupported => "ipv4 fragmentation unsupported",
            ParseError::BadIpv4Checksum => "bad ipv4 checksum",
            ParseError::TruncatedIcmpEcho => "truncated ICMP echo",
            ParseError::NotEchoRequest => "not echo request",
            ParseError::BadIcmpChecksum => "bad icmp checksum",
            ParseError::TruncatedUdp => "truncated udp datagram",
            ParseError::InvalidUdpLength => "invalid udp length",
        }
    }

    /// The message as an owned string, as `Display` would print it.
    pub fn to_string(self) -> (r: String)
        ensures
            r@ == message_of(self),
    {
        String::from_str(self.message())
    }
}

} // verus!
