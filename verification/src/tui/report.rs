//! What the lab tells the user about the machine: the output of the quick
//! commands behind `p`, `n` and `f`, the state of the TAP, and the process
//! id a capture announces. Running the commands is the program's.

use vstd::prelude::*;
use crate::parse::{parse_u64, parse_u64_spec, trim, trimmed};
use crate::sys::process::{lossy, push_signed, signed_decimal, utf8_lossy, CommandOutput};
use crate::text::{chars_of, contains_text, has_prefix, holds, is_space, lines_of, owned, push_lines, push_str, space, starts_with, string_between};

verus! {

/// The arguments of a command joined with single spaces.
pub open spec fn joined(args: Seq<Seq<char>>) -> Seq<char>
    decreases args.len(),
{
    if args.len() == 0 {
        Seq::empty()
    } else if args.len() == 1 {
        args[0]
    } else {
        joined(args.drop_last()) + " "@ + args.last()
    }
}

/// How a quick command that ran but failed says so.
pub open spec fn failure_note(code: Option<i32>) -> Seq<char> {
    "minitcp: error: command "@ + match code {
        Some(c) => "exited with status "@ + signed_decimal(c as int),
        None => "terminated by signal"@,
    }
}

/// What the actions pane shows for a quick command: the command as typed,
/// then its stdout and stderr line by line, `(no output)` when it printed
/// nothing, and how it failed if it did; or why it could not run.
pub open spec fn short_report(program: Seq<char>, args: Seq<Seq<char>>, result: Result<CommandOutput, String>) -> Seq<Seq<char>> {
    seq!["$ "@ + program + " "@ + joined(args)] + match result {
        Ok(o) => lines_of(utf8_lossy(o.stdout@)) + lines_of(utf8_lossy(o.stderr@)) + (if o.stdout@.len() == 0
            && o.stderr@.len() == 0 {
            seq!["(no output)"@]
        } else {
            Seq::empty()
        }) + (if o.success {
            Seq::empty()
        } else {
            seq![failure_note(o.code)]
        }),
        Err(e) => seq!["minitcp: error: "@ + e@],
    }
}

/// The lines the actions pane shows for a quick command and what came of
/// running it.
pub fn short_command_lines(program: &str, args: &[&str], result: &Result<CommandOutput, String>) -> (v: Vec<String>)
    ensures
        v.deep_view() == short_report(program@, Seq::new(args@.len(), |i: int| args@[i]@), *result),
{
    let ghost a = Seq::new(args@.len(), |i: int| args@[i]@);
    let mut shown = owned("$ ");
    push_str(&mut shown, program);
    push_str(&mut shown, " ");
    let ghost head = shown@;
    let mut k: usize = 0;
    while k < args.len()
        invariant
            a == Seq::new(args@.len(), |i: int| args@[i]@),
            k <= args@.len(),
            shown@ == head + joined(a.subrange(0, k as int)),
        decreases args@.len() - k,
    {
        if k > 0 {
            push_str(&mut shown, " ");
        }
        push_str(&mut shown, args[k]);
        proof {
            let before = a.subrange(0, k as int);
            let after = a.subrange(0, k + 1);
            assert(after.drop_last() =~= before);
            assert(after.last() == args@[k as int]@);
            if k == 0 {
                assert(joined(after) == after[0]);
            }
        }
        k = k + 1;
    }
    assert(a.subrange(0, args@.len() as int) =~= a);
    let mut v: Vec<String> = Vec::new();
    v.push(shown);
    assert(v.deep_view() =~= seq!["$ "@ + program@ + " "@ + joined(a)]);
    match result {
        Ok(o) => {
            let out = lossy(o.stdout.as_slice());
            let err = lossy(o.stderr.as_slice());
            push_lines(&mut v, out.as_str());
            push_lines(&mut v, err.as_str());
            let ghost so_far = v.deep_view();
            if o.stdout.len() == 0 && o.stderr.len() == 0 {
                v.push(owned("(no output)"));
                assert(v.deep_view() =~= so_far + seq!["(no output)"@]);
            } else {
                assert(v.deep_view() =~= so_far + Seq::<Seq<char>>::empty());
            }
            let ghost so_far2 = v.deep_view();
            if o.success {
                assert(v.deep_view() =~= so_far2 + Seq::<Seq<char>>::empty());
            }
            if !o.success {
                let mut note = owned("minitcp: error: command ");
                match o.code {
                    Some(c) => {
                        push_str(&mut note, "exited with status ");
                        push_signed(&mut note, c);
                    },
                    None => push_str(&mut note, "terminated by signal"),
                }
                assert(note@ =~= failure_note(o.code));
                v.push(note);
                assert(v.deep_view() =~= so_far2 + seq![failure_note(o.code)]);
            }
            assert(v.deep_view() =~= short_report(program@, a, *result));
        },
        Err(e) => {
            let mut note = owned("minitcp: error: ");
            push_str(&mut note, e.as_str());
            v.push(note);
            assert(v.deep_view() =~= short_report(program@, a, *result));
        },
    }
    v
}

/// The first white-space separated word of `s` from `i` on that holds a
/// `.`: `start` is where the current word began (or -1 between words) and
/// `dot` whether it holds a `.` so far.
pub open spec fn dotted_from(s: Seq<char>, i: int, start: int, dot: bool) -> Option<Seq<char>>
    decreases s.len() - i,
{
    if i >= s.len() || i < 0 {
        if start >= 0 && dot {
            Some(s.subrange(start, s.len() as int))
        } else {
            None
        }
    } else if is_space(s[i]) {
        if start >= 0 && dot {
            Some(s.subrange(start, i))
        } else {
            dotted_from(s, i + 1, -1, false)
        }
    } else {
        dotted_from(s, i + 1, if start >= 0 { start } else { i }, dot || s[i] == '.')
    }
}

/// What `ip -br addr show` says of the TAP: up when it mentions `UP`, and
/// its address, the first word with a dot in it, or `fallback` when there
/// is none.
pub open spec fn brief_status(text: Seq<char>, fallback: Seq<char>) -> (bool, Seq<char>) {
    (
        holds(text, "UP"@),
        match dotted_from(text, 0, -1, false) {
            Some(w) => w,
            None => fallback,
        },
    )
}

/// Reads the TAP's state from `ip -br addr show` output.
pub fn brief_addr(text: &str, fallback: &str) -> (r: (bool, String))
    ensures
        (r.0, r.1@) == brief_status(text@, fallback@),
{
    let up = contains_text(text, "UP");
    let cs = chars_of(text);
    let n = cs.len();
    let mut i: usize = 0;
    let mut start: usize = 0;
    let mut in_word = false;
    let mut dot = false;
    while i < n
        invariant
            n == cs@.len(),
            cs@ == text@,
            up == holds(text@, "UP"@),
            i <= n,
            start <= i,
            !in_word ==> !dot,
            dotted_from(text@, 0, -1, false) == dotted_from(
                text@,
                i as int,
                if in_word { start as int } else { -1 },
                dot,
            ),
        decreases n - i,
    {
        let ghost here = dotted_from(text@, i as int, if in_word { start as int } else { -1 }, dot);
        if space(cs[i]) {
            if in_word && dot {
                let w = string_between(&cs, start, i);
                assert(is_space(text@[i as int]));
                assert(here == Some(text@.subrange(start as int, i as int)));
                assert(w@ == text@.subrange(start as int, i as int));
                return (up, w);
            }
            assert(here == dotted_from(text@, i + 1, -1, false));
            in_word = false;
            dot = false;
        } else {
            assert(here == dotted_from(
                text@,
                i + 1,
                if in_word { start as int } else { i as int },
                dot || text@[i as int] == '.',
            ));
            if !in_word {
                start = i;
                in_word = true;
            }
            if cs[i] == '.' {
                dot = true;
            }
        }
        i = i + 1;
    }
    let ghost end = dotted_from(text@, n as int, if in_word { start as int } else { -1 }, dot);
    if in_word && dot {
        assert(end == Some(text@.subrange(start as int, n as int)));
        return (up, string_between(&cs, start, n));
    }
    assert(end is None);
    (up, owned(fallback))
}

/// The marker a capture prints before it becomes tcpdump.
pub const PID_MARKER: &'static str = "__MINITCP_DUMP_PID=";

/// What `str::parse::<i32>` makes of `s`: an optional sign, then at least
/// one decimal digit, and a value that fits.
pub open spec fn parse_i32_spec(s: Seq<char>) -> Option<i32> {
    if s.len() > 0 && s[0] == '-' {
        let body = s.drop_first();
        if body.len() > 0 && body[0] != '+' {
            match parse_u64_spec(body) {
                Some(v) => if v <= 2147483648 {
                    Some((0 - v) as i32)
                } else {
                    None
                },
                None => None,
            }
        } else {
            None
        }
    } else {
        match parse_u64_spec(s) {
            Some(v) => if v <= 2147483647 {
                Some(v as i32)
            } else {
                None
            },
            None => None,
        }
    }
}

/// The process id a capture announced on its first line, if it did.
pub open spec fn announced_pid(line: Seq<char>) -> Option<i32> {
    if has_prefix(line, PID_MARKER@) {
        parse_i32_spec(trimmed(line.subrange(PID_MARKER@.len() as int, line.len() as int)))
    } else {
        None
    }
}

fn negated(v: u64) -> (r: i32)
    requires
        v <= 2147483648,
    ensures
        r == 0 - v,
{
    let w = v as i64;
    (0i64 - w) as i32
}

fn narrowed(v: u64) -> (r: i32)
    requires
        v <= 2147483647,
    ensures
        r == v,
{
    v as i32
}

/// Reads a signed 32-bit number as `str::parse::<i32>` does.
pub fn parse_i32(s: &str) -> (r: Option<i32>)
    ensures
        r == parse_i32_spec(s@),
{
    let cs = chars_of(s);
    let n = cs.len();
    if n > 0 && cs[0] == '-' {
        if n < 2 || cs[1] == '+' {
            return None;
        }
        let body = string_between(&cs, 1, n);
        assert(body@ =~= s@.drop_first());
        match parse_u64(body.as_str()) {
            Some(v) => if v <= 2147483648 {
                Some(negated(v))
            } else {
                None
            },
            None => None,
        }
    } else {
        match parse_u64(s) {
            Some(v) => if v <= 2147483647 {
                Some(narrowed(v))
            } else {
                None
            },
            None => None,
        }
    }
}

/// The process id a capture announced on its first line (without the line
/// break), if it did.
pub fn dump_pid(line: &str) -> (r: Option<i32>)
    ensures
        r == announced_pid(line@),
{
    if !starts_with(line, PID_MARKER) {
        return None;
    }
    let cs = chars_of(line);
    let m = chars_of(PID_MARKER);
    let rest = string_between(&cs, m.len(), cs.len());
    let t = trim(rest.as_str());
    parse_i32(t.as_str())
}

/// What the actions pane says of the TAP when the lab opens on this
/// machine: the tun device missing, attached, or the TAP still to be made.
pub open spec fn tap_note_text(tun_exists: bool, tun: Seq<char>, iface_exists: bool, iface: Seq<char>) -> Seq<char> {
    if !tun_exists {
        "minitcp: error: "@ + tun + " is missing; run in the Dev Container or a privileged Linux container."@
    } else if iface_exists {
        "attached to "@ + iface
    } else {
        "minitcp: error: "@ + iface + " does not exist. Run `minitcp tap up` in another terminal, then press r."@
    }
}

/// What the actions pane says of the TAP when the lab opens on this
/// machine. Opening the lab never creates the TAP; that stays an explicit
/// `minitcp tap up`.
pub fn tap_note(tun_exists: bool, tun: &str, iface_exists: bool, iface: &str) -> (s: String)
    ensures
        s@ == tap_note_text(tun_exists, tun@, iface_exists, iface@),
{
    if !tun_exists {
        let mut s = owned("minitcp: error: ");
        push_str(&mut s, tun);
        push_str(&mut s, " is missing; run in the Dev Container or a privileged Linux container.");
        s
    } else if iface_exists {
        let mut s = owned("attached to ");
        push_str(&mut s, iface);
        s
    } else {
        let mut s = owned("minitcp: error: ");
        push_str(&mut s, iface);
        push_str(&mut s, " does not exist. Run `minitcp tap up` in another terminal, then press r.");
        s
    }
}

/// The actions pane's first lines: the key hint, where frames come from
/// when they are forwarded, and a warning when the stack did not stay up.
pub open spec fn opening_text(remote: bool, stack_alive: bool) -> Seq<Seq<char>> {
    seq!["lab ready. Tab focuses a pane. p ping  n neigh  f flush  d dump filter."@] + (if remote {
        seq!["frames via TAP sidecar; capture runs in there too (p, n, f use docker exec)."@]
    } else {
        Seq::empty()
    }) + (if stack_alive {
        Seq::empty()
    } else {
        seq!["minitcp: error: stack failed to stay up; try `minitcp tap up`, then press r"@]
    })
}

/// The actions pane's first lines.
pub fn opening_lines(remote: bool, stack_alive: bool) -> (v: Vec<String>)
    ensures
        v.deep_view() == opening_text(remote, stack_alive),
{
    let mut v: Vec<String> = Vec::new();
    v.push(owned("lab ready. Tab focuses a pane. p ping  n neigh  f flush  d dump filter."));
    if remote {
        v.push(owned("frames via TAP sidecar; capture runs in there too (p, n, f use docker exec)."));
    }
    if !stack_alive {
        v.push(owned("minitcp: error: stack failed to stay up; try `minitcp tap up`, then press r"));
    }
    assert(v.deep_view() =~= opening_text(remote, stack_alive));
    v
}

} // verus!
