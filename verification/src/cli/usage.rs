//! The help text, and the usage blocks that go with a specific error.
//!
//! Per-flag help comes from one table, `flag_entry`, so an error can point at
//! the line that matters without that line drifting from what the parser
//! accepts.

use vstd::prelude::*;
use crossterm::style::Stylize;
use crate::release::INSTALL_URL;
use crate::text::{owned, pad_right, push_char, push_padded, push_str, str_eq, styled_as};
use super::command::HelpTopic;

verus! {
/// Where to look when nothing more specific applies.
pub const TRY_HELP: &'static str = "Try 'minitcp --help' for the full list.";
/// The commands, for a command line that named none or a wrong one.
pub const USAGE_COMMANDS: &'static str = "usage:\n  minitcp [run]              terminal UI (default)\n  minitcp stack              TAP loop only (no UI)\n  minitcp replay FILE        same loop, from a pcap\n  minitcp tap                the virtual cable\n    up | down | iface | addr | tun\n  minitcp identity           MiniTCP on the wire\n    addr | mac\n  minitcp pcap FILE          list frames (no stack)";
/// Usage of `replay`.
pub const USAGE_REPLAY: &'static str = "usage: minitcp replay FILE\n  play a pcap instead of TAP\n\nexample: minitcp replay out.pcap -q";
/// Usage of `pcap`.
pub const USAGE_PCAP: &'static str = "usage: minitcp pcap FILE\n  list frames in a pcap (no stack)\n\nexample: minitcp pcap out.pcap";
/// Usage of the `tap` family.
pub const USAGE_TAP: &'static str = "usage: minitcp tap <command>\n\n  up            start sidecar or local TAP\n  down          stop it\n  iface NAME    which TAP (default: tap0)\n  addr IP       Linux's IPv4 on that TAP\n  tun PATH      tun device (default: /dev/net/tun)\n\nexample: minitcp tap up";
/// Usage of the `identity` family.
pub const USAGE_IDENTITY: &'static str = "usage: minitcp identity [command]\n\n  addr IP     MiniTCP's IPv4 (default: 10.0.0.2)\n  mac MAC     MiniTCP's MAC\n\nNo command prints the current identity. Setters write minitcp.toml.\n\nexample: minitcp identity addr 10.0.0.3";
/// Usage of `--config`.
pub const USAGE_CONFIG: &'static str = "usage: --config FILE           TOML instead of ./minitcp.toml\n  --config must point at an existing file.\n  Omit it to use ./minitcp.toml if that file is present.";
/// Column the help text of a flag starts in, so the generated lines line up
/// with the hand-written usage blocks.
pub const HELP_COLUMN: usize = 24;

/// One row of the flag table.
#[derive(Clone, Copy, Debug, PartialEq, Eq)]
pub struct FlagEntry {
    pub name: &'static str,
    pub short: Option<&'static str>,
    pub metavar: Option<&'static str>,
    pub help: &'static str,
}
/// The table row for a flag, by its long or short name.
pub open spec fn flag_entry(flag: Seq<char>) -> Option<FlagEntry> {
    if flag == "--iface"@ {
        Some(FlagEntry { name: "--iface", short: None, metavar: Some("NAME"), help: "which TAP (default: tap0)" })
    } else if flag == "--addr"@ {
        Some(FlagEntry { name: "--addr", short: None, metavar: Some("IP"), help: "MiniTCP's IPv4 (default: 10.0.0.2)" })
    } else if flag == "--mac"@ {
        Some(FlagEntry { name: "--mac", short: None, metavar: Some("MAC"), help: "MiniTCP's MAC (default: 02:00:00:00:00:02)" })
    } else if flag == "--linux-addr"@ {
        Some(FlagEntry { name: "--linux-addr", short: None, metavar: Some("IP"), help: "Linux's IPv4 on that TAP (default: same street, .1)" })
    } else if flag == "--tun"@ {
        Some(FlagEntry { name: "--tun", short: None, metavar: Some("PATH"), help: "tun device (default: /dev/net/tun)" })
    } else if flag == "--write"@ {
        Some(FlagEntry { name: "--write", short: None, metavar: Some("FILE"), help: "also save frames to a pcap" })
    } else if flag == "--hex"@ {
        Some(FlagEntry { name: "--hex", short: None, metavar: None, help: "read hex Ethernet frames from stdin (stack)" })
    } else if flag == "--quiet"@ || flag == "-q"@ {
        Some(FlagEntry { name: "--quiet", short: Some("-q"), metavar: None, help: "one line per exchange" })
    } else if flag == "--count"@ || flag == "-c"@ {
        Some(FlagEntry { name: "--count", short: Some("-c"), metavar: Some("N"), help: "stop after N frames (stack/replay)" })
    } else if flag == "--once"@ {
        Some(FlagEntry { name: "--once", short: None, metavar: None, help: "same as -c 1" })
    } else if flag == "--drop"@ {
        Some(FlagEntry { name: "--drop", short: None, metavar: Some("arp|icmp|ip"), help: "ignore that kind of frame (comma-ok: arp,icmp)" })
    } else if flag == "--drop-pct"@ {
        Some(FlagEntry { name: "--drop-pct", short: None, metavar: Some("N"), help: "drop N percent of frames at random (0-100)" })
    } else if flag == "--ttl"@ {
        Some(FlagEntry { name: "--ttl", short: None, metavar: Some("N"), help: "hop count on MiniTCP's IPv4 replies (default: 64)" })
    } else if flag == "--id"@ {
        Some(FlagEntry { name: "--id", short: None, metavar: Some("N"), help: "ICMP echo id on replies (default: copy from request)" })
    } else if flag == "--fwd"@ {
        Some(FlagEntry { name: "--fwd", short: None, metavar: Some("HOST:PORT"), help: "talk to the TAP sidecar over TCP" })
    } else if flag == "--listen"@ {
        Some(FlagEntry { name: "--listen", short: None, metavar: Some("HOST:PORT"), help: "where the bridge accepts the stack (default: 0.0.0.0:7946)" })
    } else if flag == "--offline"@ {
        Some(FlagEntry { name: "--offline", short: None, metavar: None, help: "don't check GitHub for a newer minitcp" })
    } else if flag == "--version"@ || flag == "-V"@ {
        Some(FlagEntry { name: "--version", short: Some("-V"), metavar: None, help: "print the packaged minitcp version" })
    } else {
        None
    }
}
/// The table row for a flag, by its long or short name.
pub fn lookup(flag: &str) -> (r: Option<FlagEntry>)
    ensures
        r == flag_entry(flag@),
{
    if str_eq(flag, "--iface") {
        Some(FlagEntry { name: "--iface", short: None, metavar: Some("NAME"), help: "which TAP (default: tap0)" })
    } else if str_eq(flag, "--addr") {
        Some(FlagEntry { name: "--addr", short: None, metavar: Some("IP"), help: "MiniTCP's IPv4 (default: 10.0.0.2)" })
    } else if str_eq(flag, "--mac") {
        Some(FlagEntry { name: "--mac", short: None, metavar: Some("MAC"), help: "MiniTCP's MAC (default: 02:00:00:00:00:02)" })
    } else if str_eq(flag, "--linux-addr") {
        Some(FlagEntry { name: "--linux-addr", short: None, metavar: Some("IP"), help: "Linux's IPv4 on that TAP (default: same street, .1)" })
    } else if str_eq(flag, "--tun") {
        Some(FlagEntry { name: "--tun", short: None, metavar: Some("PATH"), help: "tun device (default: /dev/net/tun)" })
    } else if str_eq(flag, "--write") {
        Some(FlagEntry { name: "--write", short: None, metavar: Some("FILE"), help: "also save frames to a pcap" })
    } else if str_eq(flag, "--hex") {
        Some(FlagEntry { name: "--hex", short: None, metavar: None, help: "read hex Ethernet frames from stdin (stack)" })
    } else if str_eq(flag, "--quiet") || str_eq(flag, "-q") {
        Some(FlagEntry { name: "--quiet", short: Some("-q"), metavar: None, help: "one line per exchange" })
    } else if str_eq(flag, "--count") || str_eq(flag, "-c") {
        Some(FlagEntry { name: "--count", short: Some("-c"), metavar: Some("N"), help: "stop after N frames (stack/replay)" })
    } else if str_eq(flag, "--once") {
        Some(FlagEntry { name: "--once", short: None, metavar: None, help: "same as -c 1" })
    } else if str_eq(flag, "--drop") {
        Some(FlagEntry { name: "--drop", short: None, metavar: Some("arp|icmp|ip"), help: "ignore that kind of frame (comma-ok: arp,icmp)" })
    } else if str_eq(flag, "--drop-pct") {
        Some(FlagEntry { name: "--drop-pct", short: None, metavar: Some("N"), help: "drop N percent of frames at random (0-100)" })
    } else if str_eq(flag, "--ttl") {
        Some(FlagEntry { name: "--ttl", short: None, metavar: Some("N"), help: "hop count on MiniTCP's IPv4 replies (default: 64)" })
    } else if str_eq(flag, "--id") {
        Some(FlagEntry { name: "--id", short: None, metavar: Some("N"), help: "ICMP echo id on replies (default: copy from request)" })
    } else if str_eq(flag, "--fwd") {
        Some(FlagEntry { name: "--fwd", short: None, metavar: Some("HOST:PORT"), help: "talk to the TAP sidecar over TCP" })
    } else if str_eq(flag, "--listen") {
        Some(FlagEntry { name: "--listen", short: None, metavar: Some("HOST:PORT"), help: "where the bridge accepts the stack (default: 0.0.0.0:7946)" })
    } else if str_eq(flag, "--offline") {
        Some(FlagEntry { name: "--offline", short: None, metavar: None, help: "don't check GitHub for a newer minitcp" })
    } else if str_eq(flag, "--version") || str_eq(flag, "-V") {
        Some(FlagEntry { name: "--version", short: Some("-V"), metavar: None, help: "print the packaged minitcp version" })
    } else {
        None
    }
}
/// The left column of a flag's help line: short name, long name, value.
pub open spec fn entry_left(e: FlagEntry) -> Seq<char> {
    (match e.short {
        Some(s) => s@ + ", "@,
        None => Seq::empty(),
    }) + e.name@ + match e.metavar {
        Some(m) => seq![' '] + m@,
        None => Seq::empty(),
    }
}

/// The usage text for one flag or one command family.
pub open spec fn flag_usage_text(flag: Seq<char>) -> Seq<char> {
    if flag == "tap"@ {
        USAGE_TAP@
    } else if flag == "identity"@ {
        USAGE_IDENTITY@
    } else if flag == "pcap"@ || flag == "pcap-info"@ {
        USAGE_PCAP@
    } else if flag == "replay"@ {
        USAGE_REPLAY@
    } else if flag == "--config"@ {
        USAGE_CONFIG@
    } else {
        match flag_entry(flag) {
            Some(e) => "usage: "@ + pad_right(entry_left(e), HELP_COLUMN as nat) + e.help@,
            None => TRY_HELP@,
        }
    }
}

/// The usage for a single flag, built from the flag table so it can never
/// describe a flag differently from the way it is parsed; a family name gives
/// that family's block.
pub fn flag_usage(flag: &str) -> (s: String)
    ensures
        s@ == flag_usage_text(flag@),
{
    if str_eq(flag, "tap") {
        return owned(USAGE_TAP);
    }
    if str_eq(flag, "identity") {
        return owned(USAGE_IDENTITY);
    }
    if str_eq(flag, "pcap") || str_eq(flag, "pcap-info") {
        return owned(USAGE_PCAP);
    }
    if str_eq(flag, "replay") {
        return owned(USAGE_REPLAY);
    }
    if str_eq(flag, "--config") {
        return owned(USAGE_CONFIG);
    }
    let entry = match lookup(flag) {
        Some(entry) => entry,
        None => return owned(TRY_HELP),
    };
    let mut left = String::new();
    if let Some(short) = entry.short {
        push_str(&mut left, short);
        push_str(&mut left, ", ");
    }
    push_str(&mut left, entry.name);
    if let Some(metavar) = entry.metavar {
        push_char(&mut left, ' ');
        push_str(&mut left, metavar);
    }
    assert(left@ =~= entry_left(entry));
    let mut s = String::new();
    push_str(&mut s, "usage: ");
    push_padded(&mut s, left.as_str(), HELP_COLUMN);
    push_str(&mut s, entry.help);
    assert(s@ =~= flag_usage_text(flag@));
    s
}

/// The title line of the help text.
pub const TITLE: &'static str = "minitcp \u{2014} userspace TCP/IP lab";

/// `text` in bold, through crossterm's `Stylize::bold` and its `Display`
/// (`PrintStyledContent::write_ansi`), which writes the text unchanged between
/// SGR escape sequences. Which sequences they are depends on the environment
/// (`NO_COLOR` empties the colour parameters), so only that the text stands
/// between nothing but escape sequences is stated.
#[verifier::external_body]
fn bold(text: &str) -> (r: String)
    ensures
        styled_as(r@, text@),
{
    text.bold().to_string()
}

/// `text` in bold cyan, through crossterm's `Stylize::bold` then `cyan`, and
/// its `Display` (`PrintStyledContent::write_ansi`), which writes the text
/// unchanged between SGR escape sequences. Which sequences they are depends on
/// the environment (`NO_COLOR` empties the colour parameters), so only that
/// the text stands between nothing but escape sequences is stated.
#[verifier::external_body]
fn bold_cyan(text: &str) -> (r: String)
    ensures
        styled_as(r@, text@),
{
    text.bold().cyan().to_string()
}

/// `shown` is `plain`, styled when `color` is on: the plain text with
/// nothing but escape sequences around it.
pub open spec fn shown_as(shown: Seq<char>, plain: Seq<char>, color: bool) -> bool {
    if color {
        styled_as(shown, plain)
    } else {
        shown == plain
    }
}

/// `plain`, in bold when `color` is on.
fn styled(plain: &str, color: bool) -> (s: String)
    ensures
        shown_as(s@, plain@, color),
{
    if color {
        bold(plain)
    } else {
        owned(plain)
    }
}
/// The commands and flags the help text names, unstyled.
pub open spec fn help_entries() -> Seq<Seq<char>> {
    seq![
        "curl -fsSL "@ + INSTALL_URL@ + " | sh"@,
        "minitcp [run]"@,
        "minitcp stack"@,
        "minitcp replay FILE"@,
        "minitcp tap"@,
        "up"@,
        "down"@,
        "iface NAME"@,
        "addr IP"@,
        "tun PATH"@,
        "minitcp identity"@,
        "addr IP"@,
        "mac MAC"@,
        "minitcp pcap FILE"@,
        "--quiet, -q"@,
        "-c, --count N"@,
        "--write FILE"@,
        "--drop arp|icmp|ip"@,
        "--fwd HOST:PORT"@,
        "--offline"@,
        "--version, -V"@,
    ]
}
/// The help text around a title and the entries it names.
pub open spec fn help_layout(title: Seq<char>, c: Seq<Seq<char>>) -> Seq<char> {
    "\n"@
        + title
        + "\n\n\t"@
        + c[0]
        + "\n\n\t"@
        + c[1]
        + "                 terminal UI (default)\n\t"@
        + c[2]
        + "                 TAP loop only (no UI)\n\t"@
        + c[3]
        + "           same loop, from a pcap\n\n\t"@
        + c[4]
        + "                   the virtual cable\n\t  "@
        + c[5]
        + "                          start sidecar or local TAP\n\t  "@
        + c[6]
        + "                        stop it\n\t  "@
        + c[7]
        + "                  which TAP (default: tap0)\n\t  "@
        + c[8]
        + "                     Linux's IPv4 on that TAP\n\t  "@
        + c[9]
        + "                    tun device (default: /dev/net/tun)\n\n\t"@
        + c[10]
        + "              MiniTCP on the wire\n\t  "@
        + c[11]
        + "                     MiniTCP's IPv4 (default: 10.0.0.2)\n\t  "@
        + c[12]
        + "                     MiniTCP's MAC\n\n\t"@
        + c[13]
        + "             list frames (no stack)\n\n\t"@
        + c[14]
        + "                   one line per exchange\n\t"@
        + c[15]
        + "                 stop after N frames (stack/replay)\n\t"@
        + c[16]
        + "                  also save frames to a pcap\n\t"@
        + c[17]
        + "            ignore that kind of frame\n\t"@
        + c[18]
        + "               talk to the TAP sidecar over TCP\n\t"@
        + c[19]
        + "                     don't check GitHub for a newer minitcp\n\t"@
        + c[20]
        + "                 print the packaged minitcp version\n\nSame knobs can live in minitcp.toml in this directory, or --config FILE.\nCommand line wins over the file. identity / tap setters write that file.\n\nExit status: 0 success, 1 runtime failure, 2 command-line usage error.\n\n\t# minitcp.toml\n\tiface = \"tap1\"\n\taddr = \"10.0.0.3\"\n\tquiet = true\n\tdrop = [\"icmp\"]\n"@
}
/// The full help as it is shown: the layout with the title and each entry
/// as `shown_as` allows, exactly, or styled when `color` is on.
pub open spec fn full_help(s: Seq<char>, color: bool) -> bool {
    exists|t: Seq<char>, c: Seq<Seq<char>>|
        {
            &&& s == help_layout(t, c)
            &&& shown_as(t, TITLE@, color)
            &&& c.len() == 21
            &&& forall|i: int| 0 <= i < 21 ==> shown_as(#[trigger] c[i], help_entries()[i], color)
        }
}

/// The full help. Each entry, and the title, is `help_entries()[i]`
/// (`TITLE`) as `shown_as` allows: exactly, or styled when `color` is on.
pub fn usage(color: bool) -> (s: String)
    ensures
        full_help(s@, color),
        !color ==> s@ == help_layout(TITLE@, help_entries()),
{
    let title = if color {
        bold_cyan(TITLE)
    } else {
        owned(TITLE)
    };
    let mut install = String::new();
    push_str(&mut install, "curl -fsSL ");
    push_str(&mut install, INSTALL_URL);
    push_str(&mut install, " | sh");
    let mut shown: Vec<String> = Vec::new();
    shown.push(styled(install.as_str(), color));
    shown.push(styled("minitcp [run]", color));
    shown.push(styled("minitcp stack", color));
    shown.push(styled("minitcp replay FILE", color));
    shown.push(styled("minitcp tap", color));
    shown.push(styled("up", color));
    shown.push(styled("down", color));
    shown.push(styled("iface NAME", color));
    shown.push(styled("addr IP", color));
    shown.push(styled("tun PATH", color));
    shown.push(styled("minitcp identity", color));
    shown.push(styled("addr IP", color));
    shown.push(styled("mac MAC", color));
    shown.push(styled("minitcp pcap FILE", color));
    shown.push(styled("--quiet, -q", color));
    shown.push(styled("-c, --count N", color));
    shown.push(styled("--write FILE", color));
    shown.push(styled("--drop arp|icmp|ip", color));
    shown.push(styled("--fwd HOST:PORT", color));
    shown.push(styled("--offline", color));
    shown.push(styled("--version, -V", color));
    let ghost c: Seq<Seq<char>> = Seq::new(21, |i: int| shown@[i]@);
    let mut s = String::new();
    push_str(&mut s, "\n");
    push_str(&mut s, title.as_str());
    push_str(&mut s, "\n\n\t");
    push_str(&mut s, shown[0].as_str());
    push_str(&mut s, "\n\n\t");
    push_str(&mut s, shown[1].as_str());
    push_str(&mut s, "                 terminal UI (default)\n\t");
    push_str(&mut s, shown[2].as_str());
    push_str(&mut s, "                 TAP loop only (no UI)\n\t");
    push_str(&mut s, shown[3].as_str());
    push_str(&mut s, "           same loop, from a pcap\n\n\t");
    push_str(&mut s, shown[4].as_str());
    push_str(&mut s, "                   the virtual cable\n\t  ");
    push_str(&mut s, shown[5].as_str());
    push_str(&mut s, "                          start sidecar or local TAP\n\t  ");
    push_str(&mut s, shown[6].as_str());
    push_str(&mut s, "                        stop it\n\t  ");
    push_str(&mut s, shown[7].as_str());
    push_str(&mut s, "                  which TAP (default: tap0)\n\t  ");
    push_str(&mut s, shown[8].as_str());
    push_str(&mut s, "                     Linux's IPv4 on that TAP\n\t  ");
    push_str(&mut s, shown[9].as_str());
    push_str(&mut s, "                    tun device (default: /dev/net/tun)\n\n\t");
    push_str(&mut s, shown[10].as_str());
    push_str(&mut s, "              MiniTCP on the wire\n\t  ");
    push_str(&mut s, shown[11].as_str());
    push_str(&mut s, "                     MiniTCP's IPv4 (default: 10.0.0.2)\n\t  ");
    push_str(&mut s, shown[12].as_str());
    push_str(&mut s, "                     MiniTCP's MAC\n\n\t");
    push_str(&mut s, shown[13].as_str());
    push_str(&mut s, "             list frames (no stack)\n\n\t");
    push_str(&mut s, shown[14].as_str());
    push_str(&mut s, "                   one line per exchange\n\t");
    push_str(&mut s, shown[15].as_str());
    push_str(&mut s, "                 stop after N frames (stack/replay)\n\t");
    push_str(&mut s, shown[16].as_str());
    push_str(&mut s, "                  also save frames to a pcap\n\t");
    push_str(&mut s, shown[17].as_str());
    push_str(&mut s, "            ignore that kind of frame\n\t");
    push_str(&mut s, shown[18].as_str());
    push_str(&mut s, "               talk to the TAP sidecar over TCP\n\t");
    push_str(&mut s, shown[19].as_str());
    push_str(&mut s, "                     don't check GitHub for a newer minitcp\n\t");
    push_str(&mut s, shown[20].as_str());
    push_str(&mut s, "                 print the packaged minitcp version\n\nSame knobs can live in minitcp.toml in this directory, or --config FILE.\nCommand line wins over the file. identity / tap setters write that file.\n\nExit status: 0 success, 1 runtime failure, 2 command-line usage error.\n\n\t# minitcp.toml\n\tiface = \"tap1\"\n\taddr = \"10.0.0.3\"\n\tquiet = true\n\tdrop = [\"icmp\"]\n");
    proof {
        assert(install@ =~= "curl -fsSL "@ + INSTALL_URL@ + " | sh"@);
        assert(s@ =~= help_layout(title@, c));
        assert forall|i: int| 0 <= i < 21 implies shown_as(#[trigger] c[i], help_entries()[i], color) by {
        }
        if !color {
            assert(c =~= help_entries());
        }
    }
    s
}

/// The help for one topic: the whole manual, or one family's block.
pub open spec fn topic_text(topic: HelpTopic) -> Seq<char> {
    match topic {
        HelpTopic::Full => Seq::empty(),
        HelpTopic::Tap => USAGE_TAP@ + seq!['\n'],
        HelpTopic::Identity => USAGE_IDENTITY@ + seq!['\n'],
        HelpTopic::Pcap => USAGE_PCAP@ + seq!['\n'],
    }
}

/// The help for one topic: the full text for `Full`, otherwise the family's
/// usage block and a newline.
pub fn usage_topic(topic: HelpTopic, color: bool) -> (s: String)
    ensures
        topic != HelpTopic::Full ==> s@ == topic_text(topic),
        topic == HelpTopic::Full ==> full_help(s@, color),
        topic == HelpTopic::Full && !color ==> s@ == help_layout(TITLE@, help_entries()),
{
    let block = match topic {
        HelpTopic::Full => return usage(color),
        HelpTopic::Tap => USAGE_TAP,
        HelpTopic::Identity => USAGE_IDENTITY,
        HelpTopic::Pcap => USAGE_PCAP,
    };
    let mut s = owned(block);
    push_char(&mut s, '\n');
    s
}

} // verus!
