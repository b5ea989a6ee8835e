//! Running the helper commands minitcp shells out to (`ip`, `docker`,
//! `sudo`): how their output is capped, summarised and judged. Spawning and
//! waiting are the program's.

use vstd::prelude::*;
use crate::parse::{lower, to_lower, trim, trimmed};
use crate::text::{decimal, holds, contains_text, owned, push_char, push_str, str_eq};

verus! {

/// The most output kept from one stream of a command: a mebibyte.
pub const MAX_COMMAND_OUTPUT: usize = 1048576;

/// The bytes that end output cut short.
pub open spec fn truncated_marker() -> Seq<u8> {
    seq![0x0au8, 0x5bu8, 0x6fu8, 0x75u8, 0x74u8, 0x70u8, 0x75u8, 0x74u8, 0x20u8, 0x74u8, 0x72u8, 0x75u8, 0x6eu8, 0x63u8, 0x61u8, 0x74u8, 0x65u8, 0x64u8, 0x20u8, 0x62u8, 0x79u8, 0x20u8, 0x6du8, 0x69u8, 0x6eu8, 0x69u8, 0x74u8, 0x63u8, 0x70u8, 0x5du8, 0x0au8]
}

/// What is kept of a stream that printed `data`: all of it if it fits;
/// otherwise as much as fits with the marker at the end.
pub open spec fn limited(data: Seq<u8>) -> Seq<u8> {
    if data.len() > MAX_COMMAND_OUTPUT {
        data.subrange(0, MAX_COMMAND_OUTPUT - truncated_marker().len()) + truncated_marker()
    } else {
        data
    }
}

/// A stream being read, chunk by chunk, within the cap.
pub struct LimitedOutput {
    bytes: Vec<u8>,
    truncated: bool,
    /// Everything the stream has printed so far.
    seen: Ghost<Seq<u8>>,
}

impl LimitedOutput {
    /// Everything the stream has printed so far.
    pub closed spec fn seen(&self) -> Seq<u8> {
        self.seen@
    }

    /// What was kept so far.
    pub closed spec fn kept(&self) -> Seq<u8> {
        self.bytes@
    }

    /// Whether anything was dropped.
    pub closed spec fn cut(&self) -> bool {
        self.truncated
    }

    /// What was kept is the stream's first bytes up to the cap, and it was
    /// cut exactly when there was more.
    pub open spec fn ok(&self) -> bool {
        &&& self.kept() == if self.seen().len() > MAX_COMMAND_OUTPUT {
            self.seen().subrange(0, MAX_COMMAND_OUTPUT as int)
        } else {
            self.seen()
        }
        &&& self.cut() == (self.seen().len() > MAX_COMMAND_OUTPUT)
    }

    /// Nothing read yet.
    pub fn new() -> (r: Self)
        ensures
            r.ok(),
            r.seen() == Seq::<u8>::empty(),
    {
        let r = LimitedOutput { bytes: Vec::new(), truncated: false, seen: Ghost(Seq::empty()) };
        assert(r.bytes@ =~= Seq::<u8>::empty());
        r
    }

    /// Takes the next chunk of the stream.
    pub fn push(&mut self, chunk: &[u8])
        requires
            old(self).ok(),
        ensures
            final(self).ok(),
            final(self).seen() == old(self).seen() + chunk@,
    {
        let ghost data = self.seen@;
        let n = chunk.len();
        let have = self.bytes.len();
        let room = if have < MAX_COMMAND_OUTPUT { MAX_COMMAND_OUTPUT - have } else { 0 };
        let keep = if n < room { n } else { room };
        let mut i: usize = 0;
        let ghost start = self.bytes@;
        while i < keep
            invariant
                i <= keep,
                keep <= n,
                n == chunk@.len(),
                self.truncated == old(self).truncated,
                self.seen@ == data,
                self.bytes@ == start + chunk@.subrange(0, i as int),
            decreases keep - i,
        {
            self.bytes.push(chunk[i]);
            i = i + 1;
            assert(self.bytes@ =~= start + chunk@.subrange(0, i as int));
        }
        if keep < n {
            self.truncated = true;
        }
        self.seen = Ghost(data + chunk@);
        proof {
            let all = data + chunk@;
            if data.len() <= MAX_COMMAND_OUTPUT {
                assert(have == data.len());
                assert((keep < n) == (all.len() > MAX_COMMAND_OUTPUT));
            }
            if data.len() > MAX_COMMAND_OUTPUT {
                assert(keep == 0);
                assert(self.bytes@ =~= all.subrange(0, MAX_COMMAND_OUTPUT as int));
            } else if all.len() > MAX_COMMAND_OUTPUT {
                assert(self.bytes@ =~= all.subrange(0, MAX_COMMAND_OUTPUT as int));
            } else {
                assert(self.bytes@ =~= all);
            }
        }
    }

    /// What the stream amounts to: as read, or cut with the marker at the
    /// end.
    pub fn finish(self) -> (out: Vec<u8>)
        requires
            self.ok(),
        ensures
            out@ == limited(self.seen()),
    {
        let ghost data = self.seen@;
        let mut bytes = self.bytes;
        if self.truncated {
            bytes.truncate(MAX_COMMAND_OUTPUT - 31);
            let marker: Vec<u8> = vec![0x0a, 0x5b, 0x6f, 0x75, 0x74, 0x70, 0x75, 0x74, 0x20, 0x74, 0x72, 0x75, 0x6e, 0x63, 0x61, 0x74, 0x65, 0x64, 0x20, 0x62, 0x79, 0x20, 0x6d, 0x69, 0x6e, 0x69, 0x74, 0x63, 0x70, 0x5d, 0x0a];
            assert(marker@ =~= truncated_marker());
            crate::proto::wire::push_all(&mut bytes, marker.as_slice());
            assert(bytes@ =~= limited(data));
        }
        bytes
    }
}

/// What is kept of a stream that printed `data`.
pub fn read_limited(data: &[u8]) -> (out: Vec<u8>)
    ensures
        out@ == limited(data@),
{
    let mut o = LimitedOutput::new();
    o.push(data);
    assert(Seq::<u8>::empty() + data@ =~= data@);
    o.finish()
}

/// Which failure of a command counts as success, so that repeating a setup
/// step is harmless.
#[derive(Clone, Copy, Debug, PartialEq, Eq, Structural)]
pub enum AllowedFailure {
    /// Every failure is a failure.
    Nothing,
    /// "File exists", "already exists": the thing is already there.
    AlreadyExists,
    /// "Cannot find device", "does not exist", ...: the thing is already gone.
    DoesNotExist,
}

/// What a finished command left behind.
#[derive(Clone, Debug, PartialEq, Eq)]
pub struct CommandOutput {
    pub success: bool,
    /// The exit code; `None` when a signal ended it.
    pub code: Option<i32>,
    pub stdout: Vec<u8>,
    pub stderr: Vec<u8>,
}

/// The text `String::from_utf8_lossy` makes of some bytes.
pub uninterp spec fn utf8_lossy(b: Seq<u8>) -> Seq<char>;

/// Bytes as text, invalid sequences replaced, through
/// `String::from_utf8_lossy`. The result is named: how bytes decode is the
/// standard library's and is not restated.
#[verifier::external_body]
pub(crate) fn lossy(bytes: &[u8]) -> (s: String)
    ensures
        s@ == utf8_lossy(bytes@),
{
    String::from_utf8_lossy(bytes).into_owned()
}

/// What a failed command said: its stderr, trimmed, or its stdout when
/// stderr is blank.
pub open spec fn detail_of(o: CommandOutput) -> Seq<char> {
    let e = trimmed(utf8_lossy(o.stderr@));
    if e.len() > 0 {
        e
    } else {
        trimmed(utf8_lossy(o.stdout@))
    }
}

/// What a failed command said.
pub fn output_detail(output: &CommandOutput) -> (s: String)
    ensures
        s@ == detail_of(*output),
{
    let e = trim(lossy(output.stderr.as_slice()).as_str());
    if !e.as_str().is_empty() {
        return e;
    }
    trim(lossy(output.stdout.as_slice()).as_str())
}

/// The program and its arguments, separated by spaces.
pub open spec fn command_text(program: Seq<char>, args: Seq<Seq<char>>, n: nat) -> Seq<char>
    decreases n,
{
    if n == 0 {
        program
    } else {
        command_text(program, args, (n - 1) as nat) + seq![' '] + args[n - 1]
    }
}

/// The command line as it would be typed.
pub fn display_command(program: &str, args: &[&str]) -> (s: String)
    ensures
        s@ == command_text(program@, Seq::new(args@.len(), |i: int| args@[i]@), args@.len()),
{
    let ghost a = Seq::new(args@.len(), |i: int| args@[i]@);
    let mut s = owned(program);
    let mut i: usize = 0;
    while i < args.len()
        invariant
            a == Seq::new(args@.len(), |i: int| args@[i]@),
            i <= args@.len(),
            s@ == command_text(program@, a, i as nat),
        decreases args@.len() - i,
    {
        push_char(&mut s, ' ');
        push_str(&mut s, args[i]);
        i = i + 1;
        assert(s@ =~= command_text(program@, a, i as nat));
    }
    s
}

/// What to do next while a command runs under a time limit.
#[derive(Clone, Copy, Debug, PartialEq, Eq, Structural)]
pub enum WaitStep {
    /// It has exited: collect what it wrote.
    Collect,
    /// The limit is reached: stop it and report the timeout.
    GiveUp,
    /// Look again a little later.
    Wait,
}

/// The next step of waiting for a command: collect its output once it has
/// exited; otherwise give up once the time spent reaches the limit, and
/// wait while it has not.
pub fn wait_step(exited: bool, elapsed_ms: u64, limit_ms: u64) -> (w: WaitStep)
    ensures
        exited ==> w == WaitStep::Collect,
        !exited && elapsed_ms >= limit_ms ==> w == WaitStep::GiveUp,
        !exited && elapsed_ms < limit_ms ==> w == WaitStep::Wait,
{
    if exited {
        WaitStep::Collect
    } else if elapsed_ms >= limit_ms {
        WaitStep::GiveUp
    } else {
        WaitStep::Wait
    }
}

/// `cannot wait for `COMMAND`: REASON`.
pub open spec fn wait_failure_text(program: Seq<char>, args: Seq<Seq<char>>, reason: Seq<char>) -> Seq<char> {
    "cannot wait for `"@ + command_text(program, args, args.len()) + "`: "@ + reason
}

/// Why waiting for a command failed, naming the command.
pub fn wait_failure(program: &str, args: &[&str], reason: &str) -> (s: String)
    ensures
        s@ == wait_failure_text(program@, Seq::new(args@.len(), |i: int| args@[i]@), reason@),
{
    let mut s = owned("cannot wait for `");
    push_str(&mut s, display_command(program, args).as_str());
    push_str(&mut s, "`: ");
    push_str(&mut s, reason);
    s
}

/// `` `COMMAND` did not finish within Ns``.
pub open spec fn timeout_text(program: Seq<char>, args: Seq<Seq<char>>, secs: u64) -> Seq<char> {
    "`"@ + command_text(program, args, args.len()) + "` did not finish within "@ + decimal(secs as nat) + "s"@
}

/// That a command ran past its time limit, naming the command and the
/// limit in whole seconds.
pub fn timeout_message(program: &str, args: &[&str], secs: u64) -> (s: String)
    ensures
        s@ == timeout_text(program@, Seq::new(args@.len(), |i: int| args@[i]@), secs),
{
    let mut s = owned("`");
    push_str(&mut s, display_command(program, args).as_str());
    push_str(&mut s, "` did not finish within ");
    crate::text::push_decimal(&mut s, secs);
    push_str(&mut s, "s");
    s
}

/// A failure that says the thing is already there.
pub open spec fn says_already_exists(detail: Seq<char>) -> bool {
    holds(lower(detail), "file exists"@) || holds(lower(detail), "already exists"@)
}

/// A failure that says the thing is not there.
pub open spec fn says_does_not_exist(detail: Seq<char>) -> bool {
    holds(lower(detail), "cannot find device"@) || holds(lower(detail), "does not exist"@) || holds(
        lower(detail),
        "no such device"@,
    ) || holds(lower(detail), "no such object"@)
}

/// Whether a failure says the thing is already there.
pub fn is_already_exists(detail: &str) -> (r: bool)
    ensures
        r == says_already_exists(detail@),
{
    let l = to_lower(detail);
    contains_text(l.as_str(), "file exists") || contains_text(l.as_str(), "already exists")
}

/// Whether a failure says the thing is not there.
pub fn is_does_not_exist(detail: &str) -> (r: bool)
    ensures
        r == says_does_not_exist(detail@),
{
    let l = to_lower(detail);
    contains_text(l.as_str(), "cannot find device") || contains_text(l.as_str(), "does not exist") || contains_text(
        l.as_str(),
        "no such device",
    ) || contains_text(l.as_str(), "no such object")
}

/// A signed number in decimal.
pub open spec fn signed_decimal(n: int) -> Seq<char> {
    if n < 0 {
        seq!['-'] + decimal((-n) as nat)
    } else {
        decimal(n as nat)
    }
}

/// Appends a signed number in decimal.
pub fn push_signed(s: &mut String, n: i32)
    ensures
        final(s)@ == old(s)@ + signed_decimal(n as int),
{
    let wide = n as i64;
    if wide < 0 {
        push_char(s, '-');
        crate::text::push_decimal(s, (-wide) as u64);
        assert(final(s)@ =~= old(s)@ + signed_decimal(n as int));
    } else {
        crate::text::push_decimal(s, wide as u64);
    }
}

/// How a command ended, for a message: `with exit N`, or `by signal`.
pub open spec fn status_text(code: Option<i32>) -> Seq<char> {
    match code {
        Some(c) => "with exit "@ + signed_decimal(c as int),
        None => "by signal"@,
    }
}

/// The verdict on a finished command: success, a failure the caller allowed,
/// or the message naming the command, how it ended and what it said.
pub open spec fn check_spec(program: Seq<char>, args: Seq<Seq<char>>, o: CommandOutput, allowed: AllowedFailure) -> Result<(), Seq<char>> {
    if o.success {
        Ok(())
    } else {
        let detail = detail_of(o);
        let accepted = match allowed {
            AllowedFailure::Nothing => false,
            AllowedFailure::AlreadyExists => says_already_exists(detail),
            AllowedFailure::DoesNotExist => says_does_not_exist(detail),
        };
        if accepted {
            Ok(())
        } else {
            Err(
                "`"@ + command_text(program, args, args.len()) + "` failed "@ + status_text(o.code) + if detail.len()
                    == 0 {
                    Seq::empty()
                } else {
                    ": "@ + detail
                },
            )
        }
    }
}

/// A finished command passes when it succeeded, or failed in the way the
/// caller allowed; otherwise the message names the command, between
/// backquotes, and ends with what it said, when it said anything.
pub proof fn lemma_check_verdict(program: Seq<char>, args: Seq<Seq<char>>, o: CommandOutput, allowed: AllowedFailure)
    ensures
        check_spec(program, args, o, allowed) is Ok <==> (o.success || (allowed == AllowedFailure::AlreadyExists
            && says_already_exists(detail_of(o))) || (allowed == AllowedFailure::DoesNotExist && says_does_not_exist(
            detail_of(o),
        ))),
        check_spec(program, args, o, allowed) matches Err(m) ==> {
            let ct = command_text(program, args, args.len());
            let d = detail_of(o);
            &&& m[0] == '`'
            &&& m.subrange(1, ct.len() as int + 1) == ct
            &&& d.len() > 0 ==> m.subrange(m.len() - d.len(), m.len() as int) == d
        },
{
    match check_spec(program, args, o, allowed) {
        Ok(()) => {},
        Err(m) => {
            let ct = command_text(program, args, args.len());
            let d = detail_of(o);
            let tail = if d.len() == 0 { Seq::<char>::empty() } else { ": "@ + d };
            let mid = "` failed "@ + status_text(o.code);
            assert(m == "`"@ + ct + mid + tail);
            reveal_strlit("`");
            assert(m.subrange(1, ct.len() as int + 1) =~= ct);
            if d.len() > 0 {
                assert(m.subrange(m.len() - d.len(), m.len() as int) =~= d);
            }
        },
    }
}

/// Judges a finished command.
pub fn check_output(program: &str, args: &[&str], output: &CommandOutput, allowed: AllowedFailure) -> (r: Result<(), String>)
    ensures
        match check_spec(program@, Seq::new(args@.len(), |i: int| args@[i]@), *output, allowed) {
            Ok(()) => r is Ok,
            Err(m) => r matches Err(x) && x@ == m,
        },
{
    if output.success {
        return Ok(());
    }
    let detail = output_detail(output);
    let accepted = match allowed {
        AllowedFailure::Nothing => false,
        AllowedFailure::AlreadyExists => is_already_exists(detail.as_str()),
        AllowedFailure::DoesNotExist => is_does_not_exist(detail.as_str()),
    };
    if accepted {
        return Ok(());
    }
    let mut m = owned("`");
    push_str(&mut m, display_command(program, args).as_str());
    push_str(&mut m, "` failed ");
    match output.code {
        Some(c) => {
            push_str(&mut m, "with exit ");
            push_signed(&mut m, c);
        },
        None => push_str(&mut m, "by signal"),
    }
    if !detail.as_str().is_empty() {
        push_str(&mut m, ": ");
        push_str(&mut m, detail.as_str());
    }
    Err(m)
}

} // verus!
