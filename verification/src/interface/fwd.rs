//! Length-prefixed Ethernet frames over TCP, between the TAP sidecar and the
//! host stack: four big-endian length bytes, then the frame. A length of
//! zero ends the stream.

use vstd::prelude::*;
use crate::text::{decimal_usize, decimal_u64, owned, push_decimal, push_str, push_usize};

verus! {

/// The longest frame a record may carry.
pub const MAX_FRAME: usize = 65535;

/// The four big-endian bytes of `v`.
pub open spec fn be32(v: u32) -> Seq<u8> {
    seq![(v / 16777216) as u8, ((v / 65536) % 256) as u8, ((v / 256) % 256) as u8, (v % 256) as u8]
}

/// The big-endian `u32` of four bytes.
pub open spec fn read_be32(b: [u8; 4]) -> u32 {
    (b[0] as int * 16777216 + b[1] as int * 65536 + b[2] as int * 256 + b[3] as int) as u32
}

/// What framing a frame gives: its length and the frame, or the refusal of
/// one too long to forward.
pub open spec fn record_spec(frame: Seq<u8>) -> Result<Seq<u8>, Seq<char>> {
    if frame.len() > MAX_FRAME {
        Err("cannot forward "@ + decimal_usize(frame.len() as usize) + "-byte frame; maximum is 65535"@)
    } else {
        Ok(be32(frame.len() as u32) + frame)
    }
}

/// Frames a frame for the wire.
pub fn frame_record(frame: &[u8]) -> (r: Result<Vec<u8>, String>)
    ensures
        match record_spec(frame@) {
            Ok(b) => r matches Ok(v) && v@ == b,
            Err(e) => r matches Err(m) && m@ == e,
        },
{
    let n = frame.len();
    if n > MAX_FRAME {
        let mut m = owned("cannot forward ");
        push_usize(&mut m, n);
        push_str(&mut m, "-byte frame; maximum is 65535");
        return Err(m);
    }
    let v = n as u32;
    let mut out: Vec<u8> = Vec::new();
    out.push((v / 16777216) as u8);
    out.push(((v / 65536) % 256) as u8);
    out.push(((v / 256) % 256) as u8);
    out.push((v % 256) as u8);
    crate::proto::wire::push_all(&mut out, frame);
    assert(out@ =~= be32(n as u32) + frame@);
    Ok(out)
}

/// What a record's length header announces, for a receive buffer of
/// `capacity` bytes: `0` is the end of the stream, and a frame longer than
/// the maximum or than the buffer is refused.
pub open spec fn length_spec(header: [u8; 4], capacity: usize) -> Result<usize, Seq<char>> {
    let n = read_be32(header);
    if n == 0 {
        Ok(0)
    } else if n > MAX_FRAME {
        Err("forwarded frame is "@ + decimal_u64(n as u64) + " bytes; maximum is 65535"@)
    } else if n > capacity {
        Err("forwarded frame is "@ + decimal_u64(n as u64) + " bytes but the receive buffer holds "@ + decimal_usize(
            capacity,
        ))
    } else {
        Ok(n as usize)
    }
}

/// Reads a record's length header.
pub fn record_length(header: [u8; 4], capacity: usize) -> (r: Result<usize, String>)
    ensures
        match length_spec(header, capacity) {
            Ok(n) => r == Ok::<usize, String>(n),
            Err(e) => r matches Err(m) && m@ == e,
        },
{
    let n: u32 = (header[0] as u32) * 16777216 + (header[1] as u32) * 65536 + (header[2] as u32) * 256
        + (header[3] as u32);
    if n == 0 {
        return Ok(0);
    }
    if n as u64 > MAX_FRAME as u64 {
        let mut m = owned("forwarded frame is ");
        push_decimal(&mut m, n as u64);
        push_str(&mut m, " bytes; maximum is 65535");
        return Err(m);
    }
    if n as u64 > capacity as u64 {
        let mut m = owned("forwarded frame is ");
        push_decimal(&mut m, n as u64);
        push_str(&mut m, " bytes but the receive buffer holds ");
        push_usize(&mut m, capacity);
        return Err(m);
    }
    Ok(n as usize)
}

/// A framed frame announces its own length: what `frame_record` writes,
/// `record_length` reads back, for any buffer that can hold it.
pub proof fn lemma_record_roundtrip(frame: Seq<u8>, capacity: usize)
    requires
        frame.len() <= MAX_FRAME,
        frame.len() <= capacity,
        frame.len() > 0,
    ensures
        ({
            let b = record_spec(frame)->Ok_0;
            &&& b.len() == 4 + frame.len()
            &&& length_spec([b[0], b[1], b[2], b[3]], capacity) == Ok::<usize, Seq<char>>(frame.len() as usize)
            &&& b.subrange(4, b.len() as int) == frame
        }),
{
    let v = frame.len() as u32;
    let b = be32(v) + frame;
    assert(b.subrange(4, b.len() as int) =~= frame);
    assert(read_be32([b[0], b[1], b[2], b[3]]) == v) by (nonlinear_arith)
        requires
            b[0] == (v / 16777216) as u8,
            b[1] == ((v / 65536) % 256) as u8,
            b[2] == ((v / 256) % 256) as u8,
            b[3] == (v % 256) as u8,
    ;
}

} // verus!
