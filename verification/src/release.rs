//! Where minitcp is published, and how a newer release is recognised: the
//! tag GitHub reports, version comparison, and the marker that remembers
//! when the last check ran. Fetching and the file system are the program's.

use vstd::prelude::*;
use crate::parse::{parse_u64, parse_u64_spec};
use crate::text::{find_key, find_seq, chars_of, first_index, find_char, has_prefix, owned, push_str, split_chars, split_on, string_between, string_of};

verus! {

/// The GitHub repository releases come from.
pub const REPO: &'static str = "dfoshidero/minitcp";

/// The one-liner the README, `--help` and the update nag all point at.
pub const INSTALL_URL: &'static str = "https://github.com/dfoshidero/minitcp/releases/latest/download/install.sh";

/// How long a successful check is trusted for, in seconds: a day.
pub const CACHE_MAX_AGE_SECS: u64 = 86400;

/// How long to wait after a check that never got an answer, in seconds: an
/// hour, since the usual cause is a laptop that was briefly offline.
pub const RETRY_AFTER_SECS: u64 = 3600;

/// Whether the last check actually reached GitHub.
#[derive(Clone, Copy, Debug, PartialEq, Eq, Structural)]
pub enum CheckOutcome {
    Succeeded,
    Failed,
}

/// The marker file's contents for an outcome.
pub open spec fn marker_bytes(o: CheckOutcome) -> Seq<u8> {
    match o {
        CheckOutcome::Succeeded => seq![0x6fu8, 0x6bu8],
        CheckOutcome::Failed => seq![0x66u8, 0x61u8, 0x69u8, 0x6cu8, 0x65u8, 0x64u8],
    }
}

/// How long an outcome silences the next check, in seconds.
pub open spec fn max_age(o: CheckOutcome) -> u64 {
    match o {
        CheckOutcome::Succeeded => CACHE_MAX_AGE_SECS,
        CheckOutcome::Failed => RETRY_AFTER_SECS,
    }
}

/// What a marker file says: a success if it starts with `ok`, otherwise (an
/// old empty file, garbage) a failure, which re-checks sooner.
pub open spec fn outcome_of_marker(b: Seq<u8>) -> CheckOutcome {
    if b.len() >= 2 && b[0] == 0x6f && b[1] == 0x6b {
        CheckOutcome::Succeeded
    } else {
        CheckOutcome::Failed
    }
}

impl CheckOutcome {
    /// What the marker file says, and how long it silences the next check.
    pub fn marker(self) -> (r: (Vec<u8>, u64))
        ensures
            r.0@ == marker_bytes(self),
            r.1 == max_age(self),
    {
        match self {
            CheckOutcome::Succeeded => {
                let v: Vec<u8> = vec![0x6f, 0x6b];
                assert(v@ =~= marker_bytes(self));
                (v, CACHE_MAX_AGE_SECS)
            },
            CheckOutcome::Failed => {
                let v: Vec<u8> = vec![0x66, 0x61, 0x69, 0x6c, 0x65, 0x64];
                assert(v@ =~= marker_bytes(self));
                (v, RETRY_AFTER_SECS)
            },
        }
    }

    /// Reads a marker file's contents.
    pub fn from_marker(bytes: &[u8]) -> (o: CheckOutcome)
        ensures
            o == outcome_of_marker(bytes@),
    {
        if bytes.len() >= 2 && bytes[0] == 0x6f && bytes[1] == 0x6b {
            CheckOutcome::Succeeded
        } else {
            CheckOutcome::Failed
        }
    }
}

/// Reading back a marker gives the outcome that wrote it.
pub proof fn lemma_marker_roundtrip(o: CheckOutcome)
    ensures
        outcome_of_marker(marker_bytes(o)) == o,
        max_age(CheckOutcome::Failed) < max_age(CheckOutcome::Succeeded),
        marker_bytes(CheckOutcome::Succeeded) != marker_bytes(CheckOutcome::Failed),
{
    assert(marker_bytes(CheckOutcome::Succeeded).len() != marker_bytes(CheckOutcome::Failed).len());
}

/// Whether the last check is recent enough to leave alone: a marker was
/// read and its age is known, and the age is under what its outcome allows.
/// Any doubt answers no: checking again is free, never checking is not.
pub fn recently_checked(marker: Option<&[u8]>, age_secs: Option<u64>) -> (r: bool)
    ensures
        r == (marker is Some && age_secs is Some && age_secs->0 < max_age(outcome_of_marker(marker->0@))),
{
    match (marker, age_secs) {
        (Some(m), Some(age)) => {
            let (_, limit) = CheckOutcome::from_marker(m).marker();
            age < limit
        },
        _ => false,
    }
}

/// What `parse_tag_name` finds in GitHub's JSON: the string after the first
/// `"tag_name"`, between the next two double quotes.
pub open spec fn tag_spec(json: Seq<char>) -> Option<Seq<char>> {
    let key = "\"tag_name\""@;
    match find_seq(json, key) {
        None => None,
        Some(i) => {
            let rest = json.subrange(i + key.len(), json.len() as int);
            match first_index(rest, '"') {
                None => None,
                Some(q) => {
                    let after = rest.subrange(q + 1, rest.len() as int);
                    match first_index(after, '"') {
                        None => None,
                        Some(e) => Some(after.subrange(0, e)),
                    }
                },
            }
        },
    }
}

/// The release tag in the JSON GitHub answers `releases/latest` with.
pub fn parse_tag_name(json: &str) -> (r: Option<String>)
    ensures
        match tag_spec(json@) {
            Some(t) => r matches Some(s) && s@ == t,
            None => r is None,
        },
{
    let cs = chars_of(json);
    let key = chars_of("\"tag_name\"");
    let n = cs.len();
    let i = match find_key(&cs, &key) {
        Some(i) => i,
        None => return None,
    };
    let rest_start = i + key.len();
    let ghost rest = json@.subrange(rest_start as int, json@.len() as int);
    let rest_chars: Vec<char> = chars_of(string_between(&cs, rest_start, cs.len()).as_str());
    assert(rest_chars@ == rest);
    let q = match find_char(&rest_chars, '"') {
        Some(q) => q,
        None => return None,
    };
    let after: Vec<char> = chars_of(string_between(&rest_chars, q + 1, rest_chars.len()).as_str());
    let e = match find_char(&after, '"') {
        Some(e) => e,
        None => return None,
    };
    Some(string_between(&after, 0, e))
}

/// The `n`th dot-separated piece of a version as a number; a missing or
/// unreadable piece is 0.
pub open spec fn piece_number(parts: Seq<Seq<char>>, n: int) -> u64 {
    if n < parts.len() {
        match parse_u64_spec(parts[n]) {
            Some(v) => v,
            None => 0,
        }
    } else {
        0
    }
}

/// The patch piece of a version: the third piece up to its first `-`.
pub open spec fn patch_number(parts: Seq<Seq<char>>) -> u64 {
    if 2 < parts.len() {
        match parse_u64_spec(split_on(parts[2], '-')[0]) {
            Some(v) => v,
            None => 0,
        }
    } else {
        0
    }
}

/// A version as major, minor and patch.
pub open spec fn semver_spec(s: Seq<char>) -> (u64, u64, u64) {
    let parts = split_on(s, '.');
    (piece_number(parts, 0), piece_number(parts, 1), patch_number(parts))
}

/// Reads `1.2.3` (or `1.2.3-rc1`) as numbers; what is missing or unreadable
/// counts as 0.
pub fn parse_semver(s: &str) -> (r: (u64, u64, u64))
    ensures
        r == semver_spec(s@),
{
    let parts = split_chars(s, '.');
    let ghost ps = split_on(s@, '.');
    let major = if parts.len() > 0 {
        assert(parts@[0]@ == ps[0]);
        match parse_u64(parts[0].as_str()) {
            Some(v) => v,
            None => 0,
        }
    } else {
        0
    };
    let minor = if parts.len() > 1 {
        assert(parts@[1]@ == ps[1]);
        match parse_u64(parts[1].as_str()) {
            Some(v) => v,
            None => 0,
        }
    } else {
        0
    };
    let patch = if parts.len() > 2 {
        assert(parts@[2]@ == ps[2]);
        let pieces = split_chars(parts[2].as_str(), '-');
        proof {
            crate::text::lemma_split_nonempty(ps[2], '-');
        }
        assert(pieces@[0]@ == split_on(ps[2], '-')[0]);
        match parse_u64(pieces[0].as_str()) {
            Some(v) => v,
            None => 0,
        }
    } else {
        0
    };
    (major, minor, patch)
}

/// `a` is a later version than `b`: compared piece by piece, major first.
pub open spec fn later(a: (u64, u64, u64), b: (u64, u64, u64)) -> bool {
    a.0 > b.0 || (a.0 == b.0 && (a.1 > b.1 || (a.1 == b.1 && a.2 > b.2)))
}

/// Whether `latest` is a later version than `current`.
pub fn version_newer(latest: &str, current: &str) -> (r: bool)
    ensures
        r == later(semver_spec(latest@), semver_spec(current@)),
{
    let a = parse_semver(latest);
    let b = parse_semver(current);
    a.0 > b.0 || (a.0 == b.0 && (a.1 > b.1 || (a.1 == b.1 && a.2 > b.2)))
}

/// `s` without its leading `v`s (`trim_start_matches('v')`).
pub open spec fn strip_v(s: Seq<char>) -> Seq<char>
    decreases s.len(),
{
    if s.len() > 0 && s[0] == 'v' {
        strip_v(s.drop_first())
    } else {
        s
    }
}

/// A version without its leading `v`s.
pub fn without_v(s: &str) -> (r: String)
    ensures
        r@ == strip_v(s@),
{
    let cs = chars_of(s);
    let mut i: usize = 0;
    assert(cs@.subrange(0, cs@.len() as int) =~= cs@);
    while i < cs.len() && cs[i] == 'v'
        invariant
            cs@ == s@,
            i <= cs@.len(),
            strip_v(s@) == strip_v(cs@.subrange(i as int, cs@.len() as int)),
        decreases cs@.len() - i,
    {
        proof {
            let t = cs@.subrange(i as int, cs@.len() as int);
            assert(t.drop_first() =~= cs@.subrange(i + 1, cs@.len() as int));
        }
        i = i + 1;
    }
    proof {
        assert(cs@.subrange(0, cs@.len() as int) =~= cs@);
    }
    string_between(&cs, i, cs.len())
}

/// What to say when a newer release is out: nothing, or that it is
/// available and how to install it. Leading `v`s are ignored on both sides.
pub open spec fn nag_text(latest: Seq<char>, current: Seq<char>) -> Seq<Seq<char>> {
    let l = strip_v(latest);
    let c = strip_v(current);
    if later(semver_spec(l), semver_spec(c)) {
        seq![
            "minitcp "@ + l + " is available (you have "@ + c + ")"@,
            "Update: curl -fsSL "@ + INSTALL_URL@ + " | sh"@,
        ]
    } else {
        Seq::empty()
    }
}

/// The status messages for a check that found `latest` while running
/// `current`.
pub fn nag_lines(latest: &str, current: &str) -> (r: Vec<String>)
    ensures
        r.deep_view() == nag_text(latest@, current@),
{
    let l = without_v(latest);
    let c = without_v(current);
    let mut r: Vec<String> = Vec::new();
    if version_newer(l.as_str(), c.as_str()) {
        let mut a = owned("minitcp ");
        push_str(&mut a, l.as_str());
        push_str(&mut a, " is available (you have ");
        push_str(&mut a, c.as_str());
        push_str(&mut a, ")");
        let mut b = owned("Update: curl -fsSL ");
        push_str(&mut b, INSTALL_URL);
        push_str(&mut b, " | sh");
        r.push(a);
        r.push(b);
    }
    assert(r.deep_view() =~= nag_text(latest@, current@));
    r
}

} // verus!
