//! What the lab's screen says and how it is tinted: the colour of each pane
//! line, pane titles, and the lines that report finished processes. Colour
//! carries meaning: green arrived, cyan sent, red a problem.

use vstd::prelude::*;
use crate::parse::{lower, to_lower};
use crate::text::{
    chars_of, contains_text, decimal_u32, find_key, find_seq, has_prefix, holds, owned, push_str, push_u32, starts_with,
    string_between,
};
use crate::proto::ipv4::{Ipv4Addr, ipv4_text};
use super::capture::{CaptureHost, DumpFilter};
use super::lab::Counters;

verus! {

/// The colours the screen uses, named as the terminal names them.
#[derive(Clone, Copy, Debug, PartialEq, Eq, Structural)]
pub enum Tint {
    Red,
    Yellow,
    LightBlue,
    Green,
    Cyan,
    DarkGray,
    Gray,
}

/// How one line of a pane is drawn: all in one tint, or grey around a bold
/// direction tag.
#[derive(Clone, Debug, PartialEq, Eq)]
pub enum LineStyle {
    Plain(Tint),
    Tagged { before: String, tag: &'static str, tint: Tint, after: String },
}

/// A `LineStyle` with its text taken as character sequences.
pub enum LineStyleView {
    Plain(Tint),
    Tagged(Seq<char>, Seq<char>, Tint, Seq<char>),
}

/// A line style as a value of the spec.
pub open spec fn style_view(s: LineStyle) -> LineStyleView {
    match s {
        LineStyle::Plain(t) => LineStyleView::Plain(t),
        LineStyle::Tagged { before, tag, tint, after } => LineStyleView::Tagged(before@, tag@, tint, after@),
    }
}

/// `s` split around the first `tag` in it, the tag drawn in `tint`.
pub open spec fn around(s: Seq<char>, tag: Seq<char>, tint: Tint) -> LineStyleView {
    let i = find_seq(s, tag)->0;
    LineStyleView::Tagged(s.subrange(0, i), tag, tint, s.subrange(i + tag.len(), s.len() as int))
}

/// How a line is tinted: minitcp's own status lines by level; anything
/// mentioning an error in red; a typed command in green; a trace line by its
/// direction tag; otherwise cyan for ICMP, yellow for ARP, grey for the
/// rest. Case is ignored except in the `minitcp:` prefix and the tags.
pub open spec fn line_style_of(s: Seq<char>) -> LineStyleView {
    let l = lower(s);
    if has_prefix(s, "minitcp:"@) {
        LineStyleView::Plain(
            if has_prefix(l, "minitcp: error:"@) {
                Tint::Red
            } else if has_prefix(l, "minitcp: warning:"@) {
                Tint::Yellow
            } else {
                Tint::LightBlue
            },
        )
    } else if holds(l, "error"@) || holds(l, "failed"@) || holds(l, "bad "@) {
        LineStyleView::Plain(Tint::Red)
    } else if has_prefix(s, "$ "@) {
        LineStyleView::Plain(Tint::Green)
    } else if holds(s, "[DROP]"@) {
        around(s, "[DROP]"@, Tint::Red)
    } else if holds(s, "[OUT]"@) {
        around(s, "[OUT]"@, Tint::Green)
    } else if holds(s, "[IN]"@) {
        around(s, "[IN]"@, Tint::Cyan)
    } else if holds(s, "[..]"@) {
        around(s, "[..]"@, Tint::DarkGray)
    } else {
        LineStyleView::Plain(
            if holds(l, "icmp"@) || holds(l, " echo "@) {
                Tint::Cyan
            } else if holds(l, "arp"@) {
                Tint::Yellow
            } else {
                Tint::Gray
            },
        )
    }
}

/// `text` split around the first `tag`, which it holds.
fn split_around(text: &str, tag: &'static str, tint: Tint) -> (r: LineStyle)
    requires
        holds(text@, tag@),
    ensures
        style_view(r) == around(text@, tag@, tint),
{
    let cs = chars_of(text);
    let ks = chars_of(tag);
    let k = ks.len();
    let n = cs.len();
    match find_key(&cs, &ks) {
        Some(i) => {
            assert(i + k <= n);
            let before = string_between(&cs, 0, i);
            let after = string_between(&cs, i + k, n);
            LineStyle::Tagged { before, tag, tint, after }
        },
        None => LineStyle::Plain(tint),
    }
}

/// How a line of a pane is tinted.
pub fn line_style(text: &str) -> (r: LineStyle)
    ensures
        style_view(r) == line_style_of(text@),
{
    let l = to_lower(text);
    if starts_with(text, "minitcp:") {
        let t = if starts_with(l.as_str(), "minitcp: error:") {
            Tint::Red
        } else if starts_with(l.as_str(), "minitcp: warning:") {
            Tint::Yellow
        } else {
            Tint::LightBlue
        };
        return LineStyle::Plain(t);
    }
    if contains_text(l.as_str(), "error") || contains_text(l.as_str(), "failed") || contains_text(l.as_str(), "bad ") {
        return LineStyle::Plain(Tint::Red);
    }
    if starts_with(text, "$ ") {
        return LineStyle::Plain(Tint::Green);
    }
    if contains_text(text, "[DROP]") {
        return split_around(text, "[DROP]", Tint::Red);
    }
    if contains_text(text, "[OUT]") {
        return split_around(text, "[OUT]", Tint::Green);
    }
    if contains_text(text, "[IN]") {
        return split_around(text, "[IN]", Tint::Cyan);
    }
    if contains_text(text, "[..]") {
        return split_around(text, "[..]", Tint::DarkGray);
    }
    let t = if contains_text(l.as_str(), "icmp") || contains_text(l.as_str(), " echo ") {
        Tint::Cyan
    } else if contains_text(l.as_str(), "arp") {
        Tint::Yellow
    } else {
        Tint::Gray
    };
    LineStyle::Plain(t)
}

/// A pane's title: marked when live follow is paused, and framed with an
/// arrow when the pane has focus.
pub open spec fn pane_title_text(name: Seq<char>, following: bool, focused: bool) -> Seq<char> {
    let t = if following {
        name
    } else {
        name + " \u{b7} PAUSED"@
    };
    if focused {
        " \u{25b6} "@ + t + " "@
    } else {
        " "@ + t + " "@
    }
}

/// A pane's title as drawn.
pub fn pane_title(name: &str, following: bool, focused: bool) -> (s: String)
    ensures
        s@ == pane_title_text(name@, following, focused),
{
    let mut s = if focused {
        owned(" \u{25b6} ")
    } else {
        owned(" ")
    };
    push_str(&mut s, name);
    if !following {
        push_str(&mut s, " \u{b7} PAUSED");
    }
    push_str(&mut s, " ");
    s
}

/// The capture pane's name, which says which machine the capture runs on.
pub fn capture_pane_name(host: CaptureHost) -> (r: &'static str)
    ensures
        r@ == match host {
            CaptureHost::Local => "2 TAP Capture (this host)"@,
            CaptureHost::Sidecar => "2 TAP Capture (sidecar)"@,
        },
{
    match host {
        CaptureHost::Local => "2 TAP Capture (this host)",
        CaptureHost::Sidecar => "2 TAP Capture (sidecar)",
    }
}

/// How a child process ended, as far as the program could tell.
#[derive(Clone, Debug, PartialEq, Eq)]
pub enum ExitState {
    /// It exited: successfully or not, with its code unless a signal ended it.
    Exited { success: bool, code: Option<i32> },
    /// Its status could not be read, for this reason.
    Unreadable(String),
    /// Nothing is known.
    Unknown,
}

/// How a process ended, in words.
pub open spec fn exit_summary_text(e: ExitState) -> Seq<char> {
    match e {
        ExitState::Exited { success, code } => if success {
            "successfully"@
        } else {
            match code {
                Some(c) => "with status "@ + crate::sys::process::signed_decimal(c as int),
                None => "after a signal"@,
            }
        },
        ExitState::Unreadable(m) => "after its status could not be read: "@ + m@,
        ExitState::Unknown => "without an exit status"@,
    }
}

/// How a process ended, in words.
pub fn exit_summary(e: &ExitState) -> (s: String)
    ensures
        s@ == exit_summary_text(*e),
{
    match e {
        ExitState::Exited { success, code } => {
            if *success {
                owned("successfully")
            } else {
                match code {
                    Some(c) => {
                        let mut s = owned("with status ");
                        crate::sys::process::push_signed(&mut s, *c);
                        s
                    },
                    None => owned("after a signal"),
                }
            }
        },
        ExitState::Unreadable(m) => {
            let mut s = owned("after its status could not be read: ");
            push_str(&mut s, m.as_str());
            s
        },
        ExitState::Unknown => owned("without an exit status"),
    }
}

/// Whether a process is known to have exited successfully.
pub open spec fn succeeded(e: ExitState) -> bool {
    e matches ExitState::Exited { success: true, .. }
}

/// The stack pane's line for a stack that stopped.
pub fn stack_exit_line(e: &ExitState) -> (s: String)
    ensures
        s@ == if succeeded(*e) {
            "minitcp: stack finished successfully"@
        } else {
            "minitcp: error: stack exited "@ + exit_summary_text(*e) + "; press r to restart"@
        },
{
    if let ExitState::Exited { success: true, .. } = e {
        return owned("minitcp: stack finished successfully");
    }
    let mut s = owned("minitcp: error: stack exited ");
    let summary = exit_summary(e);
    push_str(&mut s, summary.as_str());
    push_str(&mut s, "; press r to restart");
    s
}

/// The capture pane's line for a capture that stopped.
pub fn dump_exit_line(e: &ExitState) -> (s: String)
    ensures
        s@ == "minitcp: error: tcpdump exited "@ + exit_summary_text(*e) + "; press t to restart"@,
{
    let mut s = owned("minitcp: error: tcpdump exited ");
    let summary = exit_summary(e);
    push_str(&mut s, summary.as_str());
    push_str(&mut s, "; press t to restart");
    s
}

/// The actions pane's line for a typed command that finished.
pub fn command_exit_line(e: &ExitState) -> (s: String)
    ensures
        s@ == if succeeded(*e) {
            "\u{2014} command finished \u{2014}"@
        } else {
            "minitcp: error: command exited "@ + exit_summary_text(*e)
        },
{
    if let ExitState::Exited { success: true, .. } = e {
        return owned("\u{2014} command finished \u{2014}");
    }
    let mut s = owned("minitcp: error: command exited ");
    let summary = exit_summary(e);
    push_str(&mut s, summary.as_str());
    s
}

/// The text of the status bar along the top of the lab, piece by piece,
/// with the tint of each piece that carries a state.
pub struct StatusBar {
    /// ` IFACE `.
    pub iface: String,
    /// `UP` or `DOWN`.
    pub link: &'static str,
    pub link_tint: Tint,
    /// `  LINUX  ↔  MINITCP`: the two ends of the cable.
    pub ends: String,
    /// `run` or `off`: whether the stack runs.
    pub core: &'static str,
    pub core_tint: Tint,
    /// `verbose` or `quiet`.
    pub log: &'static str,
    pub log_tint: Tint,
    /// `  icmp IN/OUT  arp IN/OUT`.
    pub counts: String,
    /// `run:FILTER` or `off:FILTER`: whether the capture runs, and on what.
    pub capture: String,
    pub capture_tint: Tint,
}

/// A running process reads `run`, a stopped one `off`.
pub open spec fn run_word(alive: bool) -> Seq<char> {
    if alive {
        "run"@
    } else {
        "off"@
    }
}

/// The packet counts as the status bar shows them.
pub open spec fn counts_text(c: Counters) -> Seq<char> {
    "  icmp "@ + decimal_u32(c.icmp_in) + "/"@ + decimal_u32(c.icmp_out) + "  arp "@ + decimal_u32(c.arp_in) + "/"@
        + decimal_u32(c.arp_out)
}

/// The filter's name as the status bar shows it.
pub open spec fn filter_label(f: DumpFilter) -> Seq<char> {
    match f {
        DumpFilter::All => "all"@,
        DumpFilter::Arp => "arp"@,
        DumpFilter::Ip => "ip"@,
    }
}

/// The counts piece of the status bar.
fn counts_piece(c: &Counters) -> (s: String)
    ensures
        s@ == counts_text(*c),
{
    let mut s = owned("  icmp ");
    push_u32(&mut s, c.icmp_in);
    push_str(&mut s, "/");
    push_u32(&mut s, c.icmp_out);
    push_str(&mut s, "  arp ");
    push_u32(&mut s, c.arp_in);
    push_str(&mut s, "/");
    push_u32(&mut s, c.arp_out);
    s
}

/// The status bar: the TAP and whether it is up (green) or down (red), the
/// two ends of the cable, whether the stack runs (green) or not (red), the
/// log mode (verbose cyan, quiet grey), the packet counts, and whether the
/// capture runs (yellow) or not (red) with its filter.
pub fn status_bar(
    iface: &str,
    tap_up: bool,
    tap_addr: &str,
    addr: Ipv4Addr,
    stack_alive: bool,
    verbose: bool,
    counters: &Counters,
    dump_alive: bool,
    filter: DumpFilter,
) -> (b: StatusBar)
    ensures
        b.iface@ == " "@ + iface@ + " "@,
        b.link@ == (if tap_up { "UP"@ } else { "DOWN"@ }),
        b.link_tint == (if tap_up { Tint::Green } else { Tint::Red }),
        b.ends@ == "  "@ + tap_addr@ + "  \u{2194}  "@ + ipv4_text(addr.0@),
        b.core@ == run_word(stack_alive),
        b.core_tint == (if stack_alive { Tint::Green } else { Tint::Red }),
        b.log@ == (if verbose { "verbose"@ } else { "quiet"@ }),
        b.log_tint == (if verbose { Tint::Cyan } else { Tint::Gray }),
        b.counts@ == counts_text(*counters),
        b.capture@ == run_word(dump_alive) + ":"@ + filter_label(filter),
        b.capture_tint == (if dump_alive { Tint::Yellow } else { Tint::Red }),
{
    let mut i = owned(" ");
    push_str(&mut i, iface);
    push_str(&mut i, " ");
    let mut ends = owned("  ");
    push_str(&mut ends, tap_addr);
    push_str(&mut ends, "  \u{2194}  ");
    push_str(&mut ends, addr.to_string().as_str());
    let mut capture = owned(if dump_alive { "run" } else { "off" });
    push_str(&mut capture, ":");
    push_str(&mut capture, filter.label());
    StatusBar {
        iface: i,
        link: if tap_up { "UP" } else { "DOWN" },
        link_tint: if tap_up { Tint::Green } else { Tint::Red },
        ends,
        core: if stack_alive { "run" } else { "off" },
        core_tint: if stack_alive { Tint::Green } else { Tint::Red },
        log: if verbose { "verbose" } else { "quiet" },
        log_tint: if verbose { Tint::Cyan } else { Tint::Gray },
        counts: counts_piece(counters),
        capture,
        capture_tint: if dump_alive { Tint::Yellow } else { Tint::Red },
    }
}

} // verus!
