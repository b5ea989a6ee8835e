//! The capture pane: which machine runs `tcpdump`, with which filter, and
//! what to say when it cannot start.
//!
//! A TAP is a kernel object and can only be sniffed from inside the kernel
//! that owns it. On the host that is us (as root); with the sidecar it is the
//! container's network namespace, reached with `docker exec`. Sniffing the
//! wrong one shows nothing at all.

use vstd::prelude::*;
use crate::sys::docker::CONTAINER;
use crate::text::{decimal, owned, push_str};

verus! {

/// Where the TAP we want to watch lives, and so which machine runs tcpdump.
#[derive(Clone, Copy, Debug, PartialEq, Eq, Structural)]
pub enum CaptureHost {
    Local,
    Sidecar,
}

/// How to stop a child we started; not every child is ours to signal.
#[derive(Clone, Copy, Debug, PartialEq, Eq, Structural)]
pub enum Stop {
    /// An ordinary child running as us; signalled by process group.
    Group,
    /// A root-owned tcpdump here; sudo signals it by exact PID.
    HostRoot,
    /// A tcpdump inside the sidecar, signalled from in there.
    InContainer,
}

/// Which frames the capture pane shows.
#[derive(Clone, Copy, Debug, PartialEq, Eq, Structural)]
pub enum DumpFilter {
    All,
    Arp,
    Ip,
}

/// The `tcpdump` expression a filter appends.
pub open spec fn expression_text(f: DumpFilter) -> Seq<char> {
    match f {
        DumpFilter::All => Seq::empty(),
        DumpFilter::Arp => " arp"@,
        DumpFilter::Ip => " ip"@,
    }
}

/// The command a capture pane's title shows: `docker exec` and the
/// container first when the TAP is in the sidecar.
pub open spec fn title_text(f: DumpFilter, iface: Seq<char>, host: CaptureHost) -> Seq<char> {
    (match host {
        CaptureHost::Local => Seq::empty(),
        CaptureHost::Sidecar => "docker exec "@ + CONTAINER@ + seq![' '],
    }) + "tcpdump -eni "@ + iface + " -l"@ + expression_text(f)
}

impl DumpFilter {
    /// The next view: all, then ARP only, then IP only, then all again.
    pub fn next(self) -> (r: Self)
        ensures
            r == match self {
                DumpFilter::All => DumpFilter::Arp,
                DumpFilter::Arp => DumpFilter::Ip,
                DumpFilter::Ip => DumpFilter::All,
            },
    {
        match self {
            DumpFilter::All => DumpFilter::Arp,
            DumpFilter::Arp => DumpFilter::Ip,
            DumpFilter::Ip => DumpFilter::All,
        }
    }

    /// The filter's name.
    pub fn label(self) -> (r: &'static str)
        ensures
            r@ == match self {
                DumpFilter::All => "all"@,
                DumpFilter::Arp => "arp"@,
                DumpFilter::Ip => "ip"@,
            },
    {
        match self {
            DumpFilter::All => "all",
            DumpFilter::Arp => "arp",
            DumpFilter::Ip => "ip",
        }
    }

    /// The `tcpdump` expression this filter appends, if any.
    pub fn expression(self) -> (r: &'static str)
        ensures
            r@ == expression_text(self),
    {
        let r = match self {
            DumpFilter::All => "",
            DumpFilter::Arp => " arp",
            DumpFilter::Ip => " ip",
        };
        proof {
            reveal_strlit("");
        }
        r
    }

    /// The command shown in the pane title, so it is obvious where the
    /// frames come from.
    pub fn title(self, iface: &str, host: CaptureHost) -> (s: String)
        ensures
            s@ == title_text(self, iface@, host),
    {
        let mut s = String::new();
        if let CaptureHost::Sidecar = host {
            push_str(&mut s, "docker exec ");
            push_str(&mut s, CONTAINER);
            crate::text::push_char(&mut s, ' ');
        }
        push_str(&mut s, "tcpdump -eni ");
        push_str(&mut s, iface);
        push_str(&mut s, " -l");
        push_str(&mut s, self.expression());
        assert(s@ =~= title_text(self, iface@, host));
        s
    }
}

/// The filter cycle comes back to where it started after three presses.
pub proof fn lemma_filter_cycle(f: DumpFilter)
    ensures
        ({
            let next = |g: DumpFilter|
                match g {
                    DumpFilter::All => DumpFilter::Arp,
                    DumpFilter::Arp => DumpFilter::Ip,
                    DumpFilter::Ip => DumpFilter::All,
                };
            &&& next(next(next(f))) == f
            &&& next(f) != f
        }),
{
}

/// Why a capture could not start, in words that name the missing tool and
/// the fix; a failure other than a missing program keeps its own message.
pub open spec fn dump_failure_text(host: CaptureHost, not_found: bool, message: Seq<char>) -> Seq<char> {
    if !not_found {
        message
    } else {
        match host {
            CaptureHost::Local => "sudo is not installed, so tcpdump cannot be run as root. Run minitcp as root, or use the TAP sidecar (`minitcp tap up`)."@,
            CaptureHost::Sidecar => "the TAP is in the sidecar container, but docker is not installed here. Install Docker, or run minitcp on Linux with a local TAP."@,
        }
    }
}

/// Explains why a capture could not start: the raw OS error ("No such file
/// or directory") names neither the cause nor the fix.
pub fn explain_dump_failure(host: CaptureHost, not_found: bool, message: &str) -> (s: String)
    ensures
        s@ == dump_failure_text(host, not_found, message@),
{
    if !not_found {
        return owned(message);
    }
    match host {
        CaptureHost::Local => owned(
            "sudo is not installed, so tcpdump cannot be run as root. Run minitcp as root, or use the TAP sidecar (`minitcp tap up`).",
        ),
        CaptureHost::Sidecar => owned(
            "the TAP is in the sidecar container, but docker is not installed here. Install Docker, or run minitcp on Linux with a local TAP.",
        ),
    }
}

/// What to say when the capture started but never announced itself, which
/// almost always means the wrapper refused before tcpdump ran.
pub fn explain_no_pid(host: CaptureHost) -> (r: &'static str)
    ensures
        r@ == match host {
            CaptureHost::Local => "tcpdump did not start. sudo probably wanted a password: run `sudo -v` in another terminal, then press t."@,
            CaptureHost::Sidecar => "tcpdump did not start in the sidecar. Check the container is running (`minitcp tap up`), then press t."@,
        },
{
    match host {
        CaptureHost::Local => "tcpdump did not start. sudo probably wanted a password: run `sudo -v` in another terminal, then press t.",
        CaptureHost::Sidecar => "tcpdump did not start in the sidecar. Check the container is running (`minitcp tap up`), then press t.",
    }
}

/// The shell script a capture runs: print its PID, then become tcpdump.
pub open spec fn dump_script_text(filter: DumpFilter, iface: Seq<char>) -> Seq<char> {
    "echo __MINITCP_DUMP_PID=$$; exec tcpdump -eni "@ + iface + " -l"@ + expression_text(filter)
}

/// The program, arguments and stopping rule of a capture.
pub open spec fn dump_command_spec(filter: DumpFilter, iface: Seq<char>, host: CaptureHost) -> (Seq<char>, Seq<Seq<char>>, Stop) {
    let script = dump_script_text(filter, iface);
    match host {
        CaptureHost::Local => ("sudo"@, seq!["-n"@, "sh"@, "-c"@, script], Stop::HostRoot),
        CaptureHost::Sidecar => ("docker"@, seq!["exec"@, CONTAINER@, "sh"@, "-c"@, script], Stop::InContainer),
    }
}

/// How to run a capture of `iface` wherever the TAP is. Both ways put
/// tcpdump behind a shell that prints its PID before `exec`, which gives the
/// PID to signal later.
pub fn dump_command(filter: DumpFilter, iface: &str, host: CaptureHost) -> (r: (&'static str, Vec<String>, Stop))
    ensures
        (r.0@, r.1.deep_view(), r.2) == dump_command_spec(filter, iface@, host),
{
    let mut script = owned("echo __MINITCP_DUMP_PID=$$; exec tcpdump -eni ");
    push_str(&mut script, iface);
    push_str(&mut script, " -l");
    push_str(&mut script, filter.expression());
    assert(script@ =~= dump_script_text(filter, iface@));
    let mut args: Vec<String> = Vec::new();
    let r = match host {
        CaptureHost::Local => {
            args.push(owned("-n"));
            args.push(owned("sh"));
            args.push(owned("-c"));
            args.push(script);
            ("sudo", args, Stop::HostRoot)
        },
        CaptureHost::Sidecar => {
            args.push(owned("exec"));
            args.push(owned(CONTAINER));
            args.push(owned("sh"));
            args.push(owned("-c"));
            args.push(script);
            ("docker", args, Stop::InContainer)
        },
    };
    assert(r.1.deep_view() =~= dump_command_spec(filter, iface@, host).1);
    r
}

/// How to signal a capture we cannot signal ourselves: sudo borrows root's
/// authority, `docker exec` the container's process namespace. A child of
/// our own is signalled directly, so it has no such command.
pub open spec fn signal_command_spec(stop: Stop, pid: Seq<char>, signal: Seq<char>) -> Option<(Seq<char>, Seq<Seq<char>>)> {
    match stop {
        Stop::HostRoot => Some(("sudo"@, seq!["-n"@, "kill"@, "-"@ + signal, "--"@, pid])),
        Stop::InContainer => Some(("docker"@, seq!["exec"@, CONTAINER@, "kill"@, "-"@ + signal, pid])),
        Stop::Group => None,
    }
}

/// The command that sends `signal` (`TERM`, `KILL`, or `0` to ask whether
/// the process is there) to the capture with process id `pid`.
pub fn signal_command(stop: Stop, pid: &str, signal: &str) -> (r: Option<(&'static str, Vec<String>)>)
    ensures
        match signal_command_spec(stop, pid@, signal@) {
            Some((p, a)) => r matches Some(x) && x.0@ == p && x.1.deep_view() == a,
            None => r is None,
        },
{
    let mut flag = owned("-");
    push_str(&mut flag, signal);
    let mut args: Vec<String> = Vec::new();
    match stop {
        Stop::HostRoot => {
            args.push(owned("-n"));
            args.push(owned("kill"));
            args.push(flag);
            args.push(owned("--"));
            args.push(owned(pid));
            assert(args.deep_view() =~= seq!["-n"@, "kill"@, "-"@ + signal@, "--"@, pid@]);
            Some(("sudo", args))
        },
        Stop::InContainer => {
            args.push(owned("exec"));
            args.push(owned(CONTAINER));
            args.push(owned("kill"));
            args.push(flag);
            args.push(owned(pid));
            assert(args.deep_view() =~= seq!["exec"@, CONTAINER@, "kill"@, "-"@ + signal@, pid@]);
            Some(("docker", args))
        },
        Stop::Group => None,
    }
}

} // verus!
