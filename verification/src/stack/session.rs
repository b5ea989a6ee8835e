//! One run of the stack over a frame source: when to stop reading, and what
//! the end of the source means. The program reads the frames and writes the
//! replies; this keeps the count.

use vstd::prelude::*;
use crate::text::owned;

verus! {

/// Where the frames of a run come from.
#[derive(Clone, Copy, Debug, PartialEq, Eq, Structural)]
pub enum Source {
    /// A pcap file being replayed.
    Replay,
    /// Hex lines on standard input.
    Hex,
    /// A live TAP, here or behind the sidecar.
    Live,
}

/// The source a run reads: a replayed file, hex on stdin, or the wire.
pub fn source_for(replay: bool, hex: bool) -> (s: Source)
    ensures
        s == if replay {
            Source::Replay
        } else if hex {
            Source::Hex
        } else {
            Source::Live
        },
{
    if replay {
        Source::Replay
    } else if hex {
        Source::Hex
    } else {
        Source::Live
    }
}

/// A run in progress: how many frames to read at most, and how many were.
pub struct Session {
    pub limit: Option<u64>,
    pub seen: u64,
    pub source: Source,
}

/// Whether a run with `limit` that has read `seen` frames reads another.
pub open spec fn reads_more(limit: Option<u64>, seen: u64) -> bool {
    match limit {
        Some(n) => seen < n,
        None => true,
    }
}

impl Session {
    /// A run that has read nothing yet.
    pub fn new(limit: Option<u64>, source: Source) -> (s: Self)
        ensures
            s.limit == limit,
            s.seen == 0,
            s.source == source,
    {
        Session { limit, seen: 0, source }
    }

    /// Whether to read another frame: always, unless the count is reached.
    pub fn wants_more(&self) -> (r: bool)
        ensures
            r == reads_more(self.limit, self.seen),
    {
        match self.limit {
            Some(n) => self.seen < n,
            None => true,
        }
    }

    /// Notes that a frame was read.
    pub fn frame_read(&mut self)
        ensures
            final(self).limit == old(self).limit,
            final(self).source == old(self).source,
            final(self).seen == if old(self).seen == u64::MAX {
                u64::MAX as int
            } else {
                old(self).seen + 1
            },
    {
        if self.seen < u64::MAX {
            self.seen = self.seen + 1;
        }
    }

    /// What the end of the source means: the natural end of a file or of
    /// stdin, or, for a live source, a failure.
    pub fn at_end(&self) -> (r: Result<(), String>)
        ensures
            match self.source {
                Source::Live => r matches Err(m) && m@ == "frame source closed unexpectedly"@,
                _ => r is Ok,
            },
    {
        match self.source {
            Source::Live => Err(owned("frame source closed unexpectedly")),
            _ => Ok(()),
        }
    }
}

} // verus!
