//! Classic pcap, Ethernet link type 1, little-endian: the bytes of a capture
//! file and how they are read back. Opening and writing files is the
//! program's business; the layout is decided here.

use vstd::prelude::*;
use crate::text::{decimal_u16, decimal_u64, decimal_usize, hex4, owned, push_decimal, push_hex4, push_str, push_u16, push_usize};
use crate::proto::wire::be16;

verus! {

/// The magic number of a classic little-endian capture.
pub const MAGIC_LE: u32 = 0xa1b2_c3d4;

/// The format version written: 2.4.
pub const VERSION_MAJOR: u16 = 2;

/// The format version written: 2.4.
pub const VERSION_MINOR: u16 = 4;

/// The longest frame a record may hold.
pub const SNAPLEN: u32 = 65535;

/// The link type of Ethernet.
pub const LINKTYPE_ETHERNET: u32 = 1;

/// The four little-endian bytes of `v`.
pub open spec fn le32(v: u32) -> Seq<u8> {
    seq![(v % 256) as u8, ((v / 256) % 256) as u8, ((v / 65536) % 256) as u8, (v / 16777216) as u8]
}

/// The two little-endian bytes of `v`.
pub open spec fn le16(v: u16) -> Seq<u8> {
    seq![(v % 256) as u8, (v / 256) as u8]
}

/// The little-endian `u32` at `at`.
pub open spec fn read_le32(b: Seq<u8>, at: int) -> u32 {
    (b[at] as int + b[at + 1] as int * 256 + b[at + 2] as int * 65536 + b[at + 3] as int * 16777216) as u32
}

/// The 24-byte file header: magic, version 2.4, zone 0, sigfigs 0, snap
/// length 65535, Ethernet.
pub open spec fn header_bytes() -> Seq<u8> {
    le32(MAGIC_LE) + le16(VERSION_MAJOR) + le16(VERSION_MINOR) + le32(0) + le32(0) + le32(SNAPLEN) + le32(
        LINKTYPE_ETHERNET,
    )
}

/// A record: seconds, microseconds, the length kept and the length on the
/// wire (both the frame's length, as a `u32`), then the frame.
pub open spec fn record_bytes(sec: u32, usec: u32, frame: Seq<u8>) -> Seq<u8> {
    let len = ((frame.len() as u64) % 0x1_0000_0000) as u32;
    le32(sec) + le32(usec) + le32(len) + le32(len) + frame
}

fn push_le32(out: &mut Vec<u8>, v: u32)
    ensures
        final(out)@ == old(out)@ + le32(v),
{
    out.push((v % 256) as u8);
    out.push(((v / 256) % 256) as u8);
    out.push(((v / 65536) % 256) as u8);
    out.push((v / 16777216) as u8);
    assert(final(out)@ =~= old(out)@ + le32(v));
}

fn push_le16(out: &mut Vec<u8>, v: u16)
    ensures
        final(out)@ == old(out)@ + le16(v),
{
    out.push((v % 256) as u8);
    out.push((v / 256) as u8);
    assert(final(out)@ =~= old(out)@ + le16(v));
}

/// The file header every capture starts with.
pub fn pcap_header() -> (b: Vec<u8>)
    ensures
        b@ == header_bytes(),
{
    let mut b: Vec<u8> = Vec::new();
    push_le32(&mut b, MAGIC_LE);
    push_le16(&mut b, VERSION_MAJOR);
    push_le16(&mut b, VERSION_MINOR);
    push_le32(&mut b, 0);
    push_le32(&mut b, 0);
    push_le32(&mut b, SNAPLEN);
    push_le32(&mut b, LINKTYPE_ETHERNET);
    assert(b@ =~= header_bytes());
    b
}

/// One record: the time it was seen and the frame.
pub fn pcap_record(sec: u32, usec: u32, frame: &[u8]) -> (b: Vec<u8>)
    ensures
        b@ == record_bytes(sec, usec, frame@),
{
    let len = ((frame.len() as u64) % 0x1_0000_0000) as u32;
    let mut b: Vec<u8> = Vec::new();
    push_le32(&mut b, sec);
    push_le32(&mut b, usec);
    push_le32(&mut b, len);
    push_le32(&mut b, len);
    crate::proto::wire::push_all(&mut b, frame);
    assert(b@ =~= record_bytes(sec, usec, frame@));
    b
}

/// Why a capture cannot be read.
#[derive(Clone, Copy, Debug, PartialEq, Eq, Structural)]
pub enum PcapError {
    /// The file ends inside its header.
    Truncated,
    /// Not a classic little-endian capture.
    BadMagic,
    /// A capture of another link type.
    NotEthernet(u32),
}

/// How a refusal reads.
pub open spec fn pcap_error_text(e: PcapError) -> Seq<char> {
    match e {
        PcapError::Truncated => "failed to fill whole buffer"@,
        PcapError::BadMagic => "unsupported pcap magic (want classic little-endian 0xa1b2c3d4)"@,
        PcapError::NotEthernet(n) => "pcap link type "@ + decimal_u64(n as u64) + " is not Ethernet (1)"@,
    }
}

impl PcapError {
    /// The message, as the program prints it.
    pub fn message(&self) -> (s: String)
        ensures
            s@ == pcap_error_text(*self),
    {
        match *self {
            PcapError::Truncated => owned("failed to fill whole buffer"),
            PcapError::BadMagic => owned("unsupported pcap magic (want classic little-endian 0xa1b2c3d4)"),
            PcapError::NotEthernet(n) => {
                let mut s = owned("pcap link type ");
                push_decimal(&mut s, n as u64);
                push_str(&mut s, " is not Ethernet (1)");
                s
            },
        }
    }
}

/// What opening a capture finds: the magic first, then the rest of the
/// header, then the link type.
pub open spec fn open_result(data: Seq<u8>) -> Result<(), PcapError> {
    if data.len() < 4 {
        Err(PcapError::Truncated)
    } else if read_le32(data, 0) != MAGIC_LE {
        Err(PcapError::BadMagic)
    } else if data.len() < 24 {
        Err(PcapError::Truncated)
    } else if read_le32(data, 20) != LINKTYPE_ETHERNET {
        Err(PcapError::NotEthernet(read_le32(data, 20)))
    } else {
        Ok(())
    }
}

/// The record at `pos`: the frame (cut to `capacity` bytes) and where the
/// next record starts, or `None` where the data ends first.
pub open spec fn record_at(data: Seq<u8>, pos: int, capacity: nat) -> Option<(Seq<u8>, int)> {
    if pos < 0 || pos + 16 > data.len() {
        None
    } else {
        let incl = read_le32(data, pos + 8) as int;
        if pos + 16 + incl > data.len() {
            None
        } else if incl > capacity {
            Some((data.subrange(pos + 16, pos + 16 + capacity), pos + 16 + incl))
        } else {
            Some((data.subrange(pos + 16, pos + 16 + incl), pos + 16 + incl))
        }
    }
}

/// The frames of the records from `pos` on.
pub open spec fn frames_from(data: Seq<u8>, pos: int, capacity: nat) -> Seq<Seq<u8>>
    decreases data.len() - pos,
{
    match record_at(data, pos, capacity) {
        None => Seq::empty(),
        Some((f, next)) => if pos < next <= data.len() {
            seq![f] + frames_from(data, next, capacity)
        } else {
            seq![f]
        },
    }
}

fn le32_at(data: &Vec<u8>, at: usize) -> (v: u32)
    requires
        at + 4 <= data@.len(),
    ensures
        v == read_le32(data@, at as int),
{
    let n = data.len();
    (data[at] as u32) + (data[at + 1] as u32) * 256 + (data[at + 2] as u32) * 65536 + (data[at + 3] as u32) * 16777216
}

/// A capture being read.
pub struct PcapReader {
    data: Vec<u8>,
    pos: usize,
}

impl PcapReader {
    /// The bytes of the capture.
    pub closed spec fn data(&self) -> Seq<u8> {
        self.data@
    }

    /// Where the next record starts.
    pub closed spec fn position(&self) -> int {
        self.pos as int
    }

    /// Checks the header of a capture's bytes.
    pub fn open(data: Vec<u8>) -> (r: Result<PcapReader, PcapError>)
        ensures
            match open_result(data@) {
                Ok(()) => r matches Ok(p) && p.data() == data@ && p.position() == 24,
                Err(e) => r == Err::<PcapReader, PcapError>(e),
            },
    {
        if data.len() < 4 {
            return Err(PcapError::Truncated);
        }
        if le32_at(&data, 0) != MAGIC_LE {
            return Err(PcapError::BadMagic);
        }
        if data.len() < 24 {
            return Err(PcapError::Truncated);
        }
        let network = le32_at(&data, 20);
        if network != LINKTYPE_ETHERNET {
            return Err(PcapError::NotEthernet(network));
        }
        Ok(PcapReader { data, pos: 24 })
    }

    /// The next frame, at most `capacity` bytes of it; `None` at the end of
    /// the data, or where it stops inside a record.
    pub fn read_frame(&mut self, capacity: usize) -> (r: Option<Vec<u8>>)
        requires
            0 <= old(self).position() <= old(self).data().len(),
        ensures
            final(self).data() == old(self).data(),
            0 <= final(self).position() <= final(self).data().len(),
            match record_at(old(self).data(), old(self).position(), capacity as nat) {
                None => r is None && final(self).position() == old(self).position(),
                Some((f, next)) => r matches Some(v) && v@ == f && final(self).position() == next,
            },
    {
        let len = self.data.len();
        if len < 16 || self.pos > len - 16 {
            return None;
        }
        let incl = le32_at(&self.data, self.pos + 8) as usize;
        let start = self.pos + 16;
        if incl > len - start {
            return None;
        }
        let take = if incl > capacity { capacity } else { incl };
        let mut frame: Vec<u8> = Vec::new();
        let mut i: usize = 0;
        while i < take
            invariant
                len == self.data@.len(),
                i <= take,
                take <= incl,
                start + incl <= self.data@.len(),
                frame@ == self.data@.subrange(start as int, start + i),
            decreases take - i,
        {
            frame.push(self.data[start + i]);
            i = i + 1;
            assert(frame@ =~= self.data@.subrange(start as int, start + i));
        }
        self.pos = start + incl;
        Some(frame)
    }
}

proof fn lemma_frames_bounded(data: Seq<u8>, pos: int, capacity: nat)
    requires
        0 <= pos <= data.len(),
    ensures
        frames_from(data, pos, capacity).len() <= data.len() - pos,
    decreases data.len() - pos,
{
    match record_at(data, pos, capacity) {
        None => {},
        Some((f, next)) => {
            if pos < next <= data.len() {
                lemma_frames_bounded(data, next, capacity);
            }
        },
    }
}

/// One line of `pcap_info`: the frame's number, its length and its
/// EtherType (0 for a frame too short to have one).
pub open spec fn info_line(count: nat, f: Seq<u8>) -> Seq<char> {
    let ethertype: u16 = if f.len() >= 14 {
        be16(f[12], f[13])
    } else {
        0
    };
    decimal_u64(count as u64) + "  "@ + decimal_usize(f.len() as usize) + " bytes  ethertype 0x"@ + hex4(ethertype)
        + seq!['\n']
}

/// The lines of the first `n` frames.
pub open spec fn info_lines(fs: Seq<Seq<u8>>, n: nat) -> Seq<char>
    decreases n,
{
    if n == 0 {
        Seq::empty()
    } else {
        info_lines(fs, (n - 1) as nat) + info_line(n, fs[n - 1])
    }
}

/// The listing of a capture: one line per frame, then the count.
pub open spec fn info_text(data: Seq<u8>) -> Seq<char> {
    let fs = frames_from(data, 24, 65535);
    info_lines(fs, fs.len()) + decimal_u64(fs.len() as u64) + " frames\n"@
}

/// Lists the frames of a capture and their EtherTypes.
pub fn pcap_info(data: Vec<u8>) -> (r: Result<String, PcapError>)
    ensures
        match open_result(data@) {
            Ok(()) => r matches Ok(s) && s@ == info_text(data@),
            Err(e) => r == Err::<String, PcapError>(e),
        },
{
    let ghost d = data@;
    let dlen = data.len();
    let mut reader = PcapReader::open(data)?;
    let ghost all = frames_from(d, 24, 65535);
    proof {
        lemma_frames_bounded(d, 24, 65535);
    }
    let mut out = String::new();
    let mut count: u64 = 0;
    loop
        invariant
            reader.data() == d,
            0 <= reader.position() <= d.len(),
            all.len() <= d.len(),
            d.len() == dlen,
            all == frames_from(d, 24, 65535),
            all.len() == count + frames_from(d, reader.position(), 65535).len(),
            forall|k: int| 0 <= k < frames_from(d, reader.position(), 65535).len() ==> #[trigger] frames_from(d, reader.position(), 65535)[k] == all[count + k],
            out@ == info_lines(all, count as nat),
        ensures
            all.len() == count,
            out@ == info_lines(all, count as nat),
        decreases d.len() - reader.position(),
    {
        let ghost pos = reader.position();
        let frame = match reader.read_frame(65535) {
            Some(f) => f,
            None => break,
        };
        proof {
            let rest = frames_from(d, pos, 65535);
            assert(rest[0] == frame@);
            assert(rest[0] == all[count as int]);
            assert(frames_from(d, reader.position(), 65535) =~= rest.drop_first());
        }
        count = count + 1;
        let n = frame.len();
        let ethertype: u16 = if n >= 14 {
            crate::proto::wire::read_be16(frame[12], frame[13])
        } else {
            0
        };
        push_decimal(&mut out, count);
        push_str(&mut out, "  ");
        push_usize(&mut out, n);
        push_str(&mut out, " bytes  ethertype 0x");
        push_hex4(&mut out, ethertype);
        crate::text::push_char(&mut out, '\n');
        assert(out@ =~= info_lines(all, count as nat));
    }
    push_decimal(&mut out, count);
    push_str(&mut out, " frames\n");
    assert(out@ =~= info_text(d));
    Ok(out)
}

/// Reading back the little-endian bytes of a value gives the value.
pub proof fn lemma_le32_roundtrip(v: u32)
    ensures
        read_le32(le32(v), 0) == v,
{
    let b = le32(v);
    assert(read_le32(b, 0) == v) by (nonlinear_arith)
        requires
            b[0] == (v % 256) as u8,
            b[1] == ((v / 256) % 256) as u8,
            b[2] == ((v / 65536) % 256) as u8,
            b[3] == (v / 16777216) as u8,
    ;
}

/// The records of a run of frames, each with its time, one after another.
pub open spec fn records_bytes(times: Seq<(u32, u32)>, frames: Seq<Seq<u8>>) -> Seq<u8>
    decreases frames.len(),
{
    if frames.len() == 0 || times.len() == 0 {
        Seq::empty()
    } else {
        record_bytes(times[0].0, times[0].1, frames[0]) + records_bytes(times.drop_first(), frames.drop_first())
    }
}

/// A record written after any bytes is read there, whatever follows it.
proof fn lemma_record_at_start(p: Seq<u8>, sec: u32, usec: u32, f: Seq<u8>, rest: Seq<u8>, capacity: nat)
    requires
        f.len() <= capacity,
        f.len() < 0x1_0000_0000,
    ensures
        record_at(p + record_bytes(sec, usec, f) + rest, p.len() as int, capacity) == Some(
            (f, (p + record_bytes(sec, usec, f)).len() as int),
        ),
{
    let r = record_bytes(sec, usec, f);
    let d = p + r + rest;
    let pos = p.len() as int;
    let len = (f.len() % 0x1_0000_0000) as u32;
    let l = le32(len);
    lemma_le32_roundtrip(len);
    assert(r =~= le32(sec) + le32(usec) + l + l + f);
    assert(r[8] == l[0] && r[9] == l[1] && r[10] == l[2] && r[11] == l[3]);
    assert(d[pos + 8] == r[8] && d[pos + 9] == r[9] && d[pos + 10] == r[10] && d[pos + 11] == r[11]);
    assert(read_le32(d, pos + 8) == read_le32(l, 0));
    assert(d.subrange(pos + 16, pos + 16 + f.len()) =~= f);
}

/// Whatever comes before them, records written one after another read back
/// as their frames, in order, and nothing more.
proof fn lemma_records_read_back(p: Seq<u8>, times: Seq<(u32, u32)>, frames: Seq<Seq<u8>>, capacity: nat)
    requires
        times.len() == frames.len(),
        forall|i: int| 0 <= i < frames.len() ==> #[trigger] frames[i].len() <= capacity && frames[i].len() < 0x1_0000_0000,
    ensures
        frames_from(p + records_bytes(times, frames), p.len() as int, capacity) == frames,
    decreases frames.len(),
{
    let d = p + records_bytes(times, frames);
    let pos = p.len() as int;
    if frames.len() == 0 {
        assert(d =~= p);
        assert(record_at(d, pos, capacity) is None);
        assert(frames_from(d, pos, capacity) =~= frames);
    } else {
        let f = frames[0];
        let r = record_bytes(times[0].0, times[0].1, f);
        let rest = records_bytes(times.drop_first(), frames.drop_first());
        assert(d =~= (p + r) + rest);
        assert forall|i: int| 0 <= i < frames.drop_first().len() implies #[trigger] frames.drop_first()[i].len()
            <= capacity && frames.drop_first()[i].len() < 0x1_0000_0000 by {
            assert(frames.drop_first()[i] == frames[i + 1]);
        }
        lemma_records_read_back(p + r, times.drop_first(), frames.drop_first(), capacity);
        lemma_record_at_start(p, times[0].0, times[0].1, f, rest, capacity);
        assert((p + r).len() > pos);
        assert(frames_from(d, pos, capacity) == seq![f] + frames_from(d, (p + r).len() as int, capacity));
        assert(seq![f] + frames.drop_first() =~= frames);
    }
}

/// A capture written as the header and any run of records opens, reads back
/// as exactly those frames in order, and its reader then finds no more.
pub proof fn lemma_capture_roundtrip(times: Seq<(u32, u32)>, frames: Seq<Seq<u8>>, capacity: nat)
    requires
        times.len() == frames.len(),
        forall|i: int| 0 <= i < frames.len() ==> #[trigger] frames[i].len() <= capacity && frames[i].len() < 0x1_0000_0000,
    ensures
        open_result(header_bytes() + records_bytes(times, frames)) == Ok::<(), PcapError>(()),
        frames_from(header_bytes() + records_bytes(times, frames), 24, capacity) == frames,
        record_at(
            header_bytes() + records_bytes(times, frames),
            (header_bytes() + records_bytes(times, frames)).len() as int,
            capacity,
        ) is None,
{
    let h = header_bytes();
    let d = h + records_bytes(times, frames);
    lemma_le32_roundtrip(MAGIC_LE);
    lemma_le32_roundtrip(LINKTYPE_ETHERNET);
    assert(d.subrange(0, 4) =~= le32(MAGIC_LE));
    assert(read_le32(d, 0) == read_le32(le32(MAGIC_LE), 0));
    assert(d.subrange(20, 24) =~= le32(LINKTYPE_ETHERNET));
    assert(read_le32(d, 20) == read_le32(le32(LINKTYPE_ETHERNET), 0));
    assert(h.len() == 24);
    lemma_records_read_back(h, times, frames, capacity);
}

/// A capture written as the header and any run of records of at most 65535
/// bytes is listed as one line per record, in order (its number from 1, its
/// length, and its EtherType, or 0 for a frame too short to have one), then
/// the count of frames.
pub proof fn lemma_capture_listing(times: Seq<(u32, u32)>, frames: Seq<Seq<u8>>)
    requires
        times.len() == frames.len(),
        forall|i: int| 0 <= i < frames.len() ==> #[trigger] frames[i].len() <= 65535,
    ensures
        open_result(header_bytes() + records_bytes(times, frames)) == Ok::<(), PcapError>(()),
        info_text(header_bytes() + records_bytes(times, frames)) == info_lines(frames, frames.len()) + decimal_u64(
            frames.len() as u64,
        ) + " frames\n"@,
{
    assert forall|i: int| 0 <= i < frames.len() implies #[trigger] frames[i].len() <= 65535 && frames[i].len()
        < 0x1_0000_0000 by {}
    lemma_capture_roundtrip(times, frames, 65535);
}

/// What a reader finds at a position is the head of the frames from there:
/// no record exactly when none are left, and after a record that moves the
/// position on, the rest of them.
pub proof fn lemma_reading_walks_the_frames(data: Seq<u8>, pos: int, capacity: nat)
    ensures
        record_at(data, pos, capacity) is None <==> frames_from(data, pos, capacity).len() == 0,
        record_at(data, pos, capacity) matches Some((f, next)) ==> {
            &&& frames_from(data, pos, capacity)[0] == f
            &&& pos < next <= data.len() ==> frames_from(data, next, capacity) == frames_from(data, pos, capacity).drop_first()
        },
{
    match record_at(data, pos, capacity) {
        None => {},
        Some((f, next)) => {
            if pos < next <= data.len() {
                assert(frames_from(data, pos, capacity) == seq![f] + frames_from(data, next, capacity));
                assert((seq![f] + frames_from(data, next, capacity)).drop_first() =~= frames_from(data, next, capacity));
            }
        },
    }
}

/// Where record `j` of a capture of `frames` starts: after the header and
/// the records before it.
pub open spec fn record_start(times: Seq<(u32, u32)>, frames: Seq<Seq<u8>>, j: int) -> int {
    24 + records_bytes(times.take(j), frames.take(j)).len() as int
}

proof fn lemma_records_split(times: Seq<(u32, u32)>, frames: Seq<Seq<u8>>, j: int)
    requires
        times.len() == frames.len(),
        0 <= j <= frames.len(),
    ensures
        records_bytes(times, frames) == records_bytes(times.take(j), frames.take(j)) + records_bytes(
            times.skip(j),
            frames.skip(j),
        ),
    decreases j,
{
    if j == 0 {
        assert(times.take(0) =~= Seq::<(u32, u32)>::empty());
        assert(frames.take(0) =~= Seq::<Seq<u8>>::empty());
        assert(times.skip(0) =~= times);
        assert(frames.skip(0) =~= frames);
        assert(records_bytes(times.take(0), frames.take(0)) == Seq::<u8>::empty());
        assert(Seq::<u8>::empty() + records_bytes(times, frames) =~= records_bytes(times, frames));
    } else {
        let tt = times.drop_first();
        let ff = frames.drop_first();
        lemma_records_split(tt, ff, j - 1);
        assert(tt.take(j - 1) =~= times.take(j).drop_first());
        assert(ff.take(j - 1) =~= frames.take(j).drop_first());
        assert(tt.skip(j - 1) =~= times.skip(j));
        assert(ff.skip(j - 1) =~= frames.skip(j));
        assert(times.take(j)[0] == times[0] && frames.take(j)[0] == frames[0]);
        let r0 = record_bytes(times[0].0, times[0].1, frames[0]);
        assert(records_bytes(times.take(j), frames.take(j)) == r0 + records_bytes(tt.take(j - 1), ff.take(j - 1)));
        vstd::seq_lib::lemma_concat_associative(
            r0,
            records_bytes(tt.take(j - 1), ff.take(j - 1)),
            records_bytes(tt.skip(j - 1), ff.skip(j - 1)),
        );
    }
}

proof fn lemma_records_from(times: Seq<(u32, u32)>, frames: Seq<Seq<u8>>, j: int)
    requires
        times.len() == frames.len(),
        0 <= j < frames.len(),
    ensures
        records_bytes(times.skip(j), frames.skip(j)) == record_bytes(times[j].0, times[j].1, frames[j])
            + records_bytes(times.skip(j + 1), frames.skip(j + 1)),
{
    assert(times.skip(j).drop_first() =~= times.skip(j + 1));
    assert(frames.skip(j).drop_first() =~= frames.skip(j + 1));
    assert(times.skip(j)[0] == times[j] && frames.skip(j)[0] == frames[j]);
}

proof fn lemma_one_record(t: (u32, u32), f: Seq<u8>)
    ensures
        records_bytes(seq![t], seq![f]) == record_bytes(t.0, t.1, f),
{
    assert(seq![t].drop_first() =~= Seq::<(u32, u32)>::empty());
    assert(seq![f].drop_first() =~= Seq::<Seq<u8>>::empty());
    assert(records_bytes(Seq::<(u32, u32)>::empty(), Seq::<Seq<u8>>::empty()) == Seq::<u8>::empty());
    assert(record_bytes(t.0, t.1, f) + Seq::<u8>::empty() =~= record_bytes(t.0, t.1, f));
}

proof fn lemma_next_start(times: Seq<(u32, u32)>, frames: Seq<Seq<u8>>, j: int)
    requires
        times.len() == frames.len(),
        0 <= j < frames.len(),
    ensures
        record_start(times, frames, j + 1) == record_start(times, frames, j) + record_bytes(
            times[j].0,
            times[j].1,
            frames[j],
        ).len(),
{
    let t1 = times.take(j + 1);
    let f1 = frames.take(j + 1);
    let r = record_bytes(times[j].0, times[j].1, frames[j]);
    lemma_records_split(t1, f1, j);
    assert(t1.take(j) =~= times.take(j));
    assert(f1.take(j) =~= frames.take(j));
    assert(t1.skip(j) =~= seq![times[j]]);
    assert(f1.skip(j) =~= seq![frames[j]]);
    lemma_one_record(times[j], frames[j]);
    assert(records_bytes(t1, f1).len() == records_bytes(times.take(j), frames.take(j)).len() + r.len());
}

/// A reader of a written capture, started after the header, finds record
/// `j` at `record_start(j)`: its frame, and the start of the next record;
/// after the last record it finds none. So the `j`-th read gives the `j`-th
/// frame and the read after the last gives nothing.
pub proof fn lemma_reader_finds_each_record(
    times: Seq<(u32, u32)>,
    frames: Seq<Seq<u8>>,
    capacity: nat,
    j: int,
)
    requires
        times.len() == frames.len(),
        forall|i: int| 0 <= i < frames.len() ==> #[trigger] frames[i].len() <= capacity && frames[i].len() < 0x1_0000_0000,
        0 <= j <= frames.len(),
    ensures
        record_start(times, frames, 0) == 24,
        j < frames.len() ==> record_at(header_bytes() + records_bytes(times, frames), record_start(times, frames, j), capacity)
            == Some((frames[j], record_start(times, frames, j + 1))),
        j == frames.len() ==> record_at(
            header_bytes() + records_bytes(times, frames),
            record_start(times, frames, j),
            capacity,
        ) is None,
{
    let h = header_bytes();
    let d = h + records_bytes(times, frames);
    assert(times.take(0) =~= Seq::<(u32, u32)>::empty());
    assert(frames.take(0) =~= Seq::<Seq<u8>>::empty());
    assert(h.len() == 24);
    if j < frames.len() {
        let a = records_bytes(times.take(j), frames.take(j));
        let r = record_bytes(times[j].0, times[j].1, frames[j]);
        let b = records_bytes(times.skip(j + 1), frames.skip(j + 1));
        lemma_records_split(times, frames, j);
        lemma_records_from(times, frames, j);
        vstd::seq_lib::lemma_concat_associative(a, r, b);
        vstd::seq_lib::lemma_concat_associative(h, a, r + b);
        vstd::seq_lib::lemma_concat_associative(h + a, r, b);
        assert(d == (h + a) + r + b);
        assert(frames[j].len() <= capacity && frames[j].len() < 0x1_0000_0000);
        lemma_record_at_start(h + a, times[j].0, times[j].1, frames[j], b, capacity);
        lemma_next_start(times, frames, j);
    } else {
        assert(times.take(j) =~= times);
        assert(frames.take(j) =~= frames);
    }
}

/// The file header every capture starts with: the magic 0xa1b2c3d4, format
/// version 2.4 (major then minor, each two bytes little-endian), time zone
/// and accuracy 0, snapshot length 65535, and link type 1 (Ethernet).
pub proof fn lemma_header_fields()
    ensures
        header_bytes().len() == 24,
        read_le32(header_bytes(), 0) == 0xa1b2c3d4,
        header_bytes()[4] as int + header_bytes()[5] as int * 256 == 2,
        header_bytes()[6] as int + header_bytes()[7] as int * 256 == 4,
        read_le32(header_bytes(), 8) == 0,
        read_le32(header_bytes(), 12) == 0,
        read_le32(header_bytes(), 16) == 65535,
        read_le32(header_bytes(), 20) == 1,
{
    let h = header_bytes();
    assert(h[4] == 2 && h[5] == 0 && h[6] == 4 && h[7] == 0);
    assert(h[0] == 0xd4 && h[1] == 0xc3 && h[2] == 0xb2 && h[3] == 0xa1);
    assert(h[16] == 0xff && h[17] == 0xff && h[18] == 0 && h[19] == 0);
    assert(h[20] == 1 && h[21] == 0 && h[22] == 0 && h[23] == 0);
    assert(h[8] == 0 && h[9] == 0 && h[10] == 0 && h[11] == 0);
    assert(h[12] == 0 && h[13] == 0 && h[14] == 0 && h[15] == 0);
}

} // verus!
