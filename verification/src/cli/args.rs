//! Reading a command line: flags anywhere, in `--flag value` or
//! `--flag=value` form, and exactly one command.

use vstd::prelude::*;
use crate::parse::mac_spec;
use crate::text::{find_char, first_index, has_prefix, owned, push_str, starts_with, str_eq, string_between};
use super::command::{Command, CommandView, HelpTopic};
use super::error::{ParseError, ParseErrorView, missing_value, missing_value_view, msg_view, usage_view};
use super::flags::{apply_flag, bad_mac, flag_effect, ipv4_result, parse_ipv4, parse_mac, takes_value};
use super::options::{Partial, PartialView, empty_partial};
use super::usage::{USAGE_COMMANDS, USAGE_IDENTITY, USAGE_PCAP, USAGE_REPLAY, USAGE_TAP};

verus! {

/// The arguments as character sequences.
pub open spec fn texts(v: Seq<String>) -> Seq<Seq<char>> {
    Seq::new(v.len(), |i: int| v[i]@)
}

/// `-h` or `--help`.
pub open spec fn is_help_word(a: Seq<char>) -> bool {
    a == "-h"@ || a == "--help"@
}

/// The help a `--help` asks for, given the command named before it: the
/// family's own block after `tap`, `identity` or `pcap`, else the manual.
pub open spec fn help_topic_after(c: Option<CommandView>) -> HelpTopic {
    match c {
        Some(CommandView::TapShow) | Some(CommandView::TapUp) | Some(CommandView::TapDown) | Some(
            CommandView::TapSetIface(_),
        ) | Some(CommandView::TapSetAddr(_)) | Some(CommandView::TapSetTun(_)) => HelpTopic::Tap,
        Some(CommandView::IdentityShow) | Some(CommandView::IdentitySetAddr(_)) | Some(
            CommandView::IdentitySetMac(_),
        ) => HelpTopic::Identity,
        Some(CommandView::Pcap(_)) => HelpTopic::Pcap,
        Some(CommandView::Help(t)) => t,
        _ => HelpTopic::Full,
    }
}

/// Naming a command: the first one named is taken, a help request keeps
/// precedence over anything named after it, and a second command is an
/// error.
pub open spec fn set_command_spec(p: PartialView, c: CommandView) -> Result<PartialView, ParseErrorView> {
    match p.command {
        None => Ok(PartialView { command: Some(c), ..p }),
        Some(CommandView::Help(_)) => Ok(p),
        Some(_) => Err(usage_view("only one command is allowed"@, USAGE_COMMANDS@)),
    }
}

/// A flag written `--name=value`, split at its first `=`.
pub open spec fn eq_split(a: Seq<char>) -> Option<(Seq<char>, Seq<char>)> {
    match first_index(a, '=') {
        Some(k) => Some((a.subrange(0, k), a.subrange(k + 1, a.len() as int))),
        None => None,
    }
}

/// A long flag written `--name=value`.
pub open spec fn eq_flag(a: Seq<char>) -> Option<(Seq<char>, Seq<char>)> {
    match eq_split(a) {
        Some((f, v)) => if has_prefix(f, "--"@) {
            Some((f, v))
        } else {
            None
        },
        None => None,
    }
}

/// Where the next argument starts, and the layer, after a step that names
/// a command.
pub open spec fn then_at(j: nat, r: Result<PartialView, ParseErrorView>) -> Result<(nat, PartialView), ParseErrorView> {
    match r {
        Ok(q) => Ok((j, q)),
        Err(e) => Err(e),
    }
}

/// A usage block with no `error:` line.
pub open spec fn usage_only_view(u: Seq<char>) -> ParseErrorView {
    usage_view(Seq::empty(), u)
}

/// One step over an argument that starts with `-`.
pub open spec fn flag_step(args: Seq<Seq<char>>, i: nat, p: PartialView) -> Result<(nat, PartialView), ParseErrorView> {
    let a = args[i as int];
    if is_help_word(a) {
        Ok(((i + 1) as nat, PartialView { command: Some(CommandView::Help(help_topic_after(p.command))), ..p }))
    } else if a == "-V"@ || a == "--version"@ {
        then_at((i + 1) as nat, set_command_spec(p, CommandView::Version))
    } else {
        match eq_flag(a) {
            Some((f, v)) => then_at((i + 1) as nat, flag_effect(p, f, Some(v))),
            None => if takes_value(a) {
                if i + 1 < args.len() {
                    then_at((i + 2) as nat, flag_effect(p, a, Some(args[i as int + 1])))
                } else {
                    Err(missing_value_view(a))
                }
            } else {
                then_at((i + 1) as nat, flag_effect(p, a, None))
            },
        }
    }
}

/// One step over `tap` and what follows it.
pub open spec fn tap_step(args: Seq<Seq<char>>, i: nat, p: PartialView) -> Result<(nat, PartialView), ParseErrorView> {
    if i + 1 >= args.len() || has_prefix(args[i as int + 1], "-"@) {
        then_at((i + 1) as nat, set_command_spec(p, CommandView::TapShow))
    } else {
        let sub = args[i as int + 1];
        if sub == "up"@ {
            then_at((i + 2) as nat, set_command_spec(p, CommandView::TapUp))
        } else if sub == "down"@ {
            then_at((i + 2) as nat, set_command_spec(p, CommandView::TapDown))
        } else if (sub == "iface"@ || sub == "addr"@ || sub == "tun"@) && i + 2 < args.len() {
            let v = args[i as int + 2];
            if sub == "iface"@ {
                then_at((i + 3) as nat, set_command_spec(p, CommandView::TapSetIface(v)))
            } else if sub == "addr"@ {
                match ipv4_result(v) {
                    Ok(a) => then_at((i + 3) as nat, set_command_spec(p, CommandView::TapSetAddr(a))),
                    Err(e) => Err(e),
                }
            } else {
                then_at((i + 3) as nat, set_command_spec(p, CommandView::TapSetTun(v)))
            }
        } else {
            Err(usage_only_view(USAGE_TAP@))
        }
    }
}

/// One step over `identity` and what follows it.
pub open spec fn identity_step(args: Seq<Seq<char>>, i: nat, p: PartialView) -> Result<(nat, PartialView), ParseErrorView> {
    if i + 1 >= args.len() || has_prefix(args[i as int + 1], "-"@) {
        then_at((i + 1) as nat, set_command_spec(p, CommandView::IdentityShow))
    } else {
        let sub = args[i as int + 1];
        if (sub == "addr"@ || sub == "mac"@) && i + 2 < args.len() {
            let v = args[i as int + 2];
            if sub == "addr"@ {
                match ipv4_result(v) {
                    Ok(a) => then_at((i + 3) as nat, set_command_spec(p, CommandView::IdentitySetAddr(a))),
                    Err(e) => Err(e),
                }
            } else {
                match mac_spec(v) {
                    Some(m) => then_at((i + 3) as nat, set_command_spec(p, CommandView::IdentitySetMac(m))),
                    None => Err(msg_view(bad_mac(v))),
                }
            }
        } else {
            Err(usage_only_view(USAGE_IDENTITY@))
        }
    }
}

/// One step over a word that names a command.
pub open spec fn word_step(args: Seq<Seq<char>>, i: nat, p: PartialView) -> Result<(nat, PartialView), ParseErrorView> {
    let a = args[i as int];
    if a == "help"@ && p.command is None {
        Ok(((i + 1) as nat, PartialView { command: Some(CommandView::Help(HelpTopic::Full)), ..p }))
    } else if a == "run"@ {
        then_at((i + 1) as nat, set_command_spec(p, CommandView::Run))
    } else if a == "stack"@ {
        then_at((i + 1) as nat, set_command_spec(p, CommandView::Stack))
    } else if a == "bridge"@ {
        then_at((i + 1) as nat, set_command_spec(p, CommandView::Bridge))
    } else if a == "replay"@ {
        if i + 1 < args.len() {
            then_at((i + 2) as nat, set_command_spec(p, CommandView::Replay(args[i as int + 1])))
        } else {
            Err(usage_view("replay needs a pcap path"@, USAGE_REPLAY@))
        }
    } else if a == "pcap"@ || a == "pcap-info"@ {
        if i + 1 < args.len() && is_help_word(args[i as int + 1]) {
            then_at((i + 2) as nat, set_command_spec(p, CommandView::Help(HelpTopic::Pcap)))
        } else if i + 1 < args.len() && !has_prefix(args[i as int + 1], "-"@) {
            then_at((i + 2) as nat, set_command_spec(p, CommandView::Pcap(args[i as int + 1])))
        } else {
            Err(usage_only_view(USAGE_PCAP@))
        }
    } else if a == "tap"@ {
        tap_step(args, i, p)
    } else if a == "identity"@ {
        identity_step(args, i, p)
    } else {
        Err(usage_view("unknown command '"@ + a + "'"@, USAGE_COMMANDS@))
    }
}

/// One step of reading the command line at argument `i`: where the next
/// argument starts and the layer so far, or the error.
pub open spec fn cli_step(args: Seq<Seq<char>>, i: nat, p: PartialView) -> Result<(nat, PartialView), ParseErrorView> {
    if has_prefix(args[i as int], "-"@) {
        flag_step(args, i, p)
    } else {
        word_step(args, i, p)
    }
}

/// The layer a command line gives from argument `i` on, starting from `p`.
pub open spec fn cli_from(args: Seq<Seq<char>>, i: nat, p: PartialView) -> Result<PartialView, ParseErrorView>
    decreases args.len() - i,
{
    if i >= args.len() {
        Ok(p)
    } else {
        match cli_step(args, i, p) {
            Err(e) => Err(e),
            Ok((j, q)) => if i < j <= args.len() {
                cli_from(args, j, q)
            } else {
                Ok(q)
            },
        }
    }
}

/// The layer a whole command line gives.
pub open spec fn cli_result(args: Seq<Seq<char>>) -> Result<PartialView, ParseErrorView> {
    cli_from(args, 0, empty_partial())
}

/// Names the command, unless one was named already.
fn set_command(partial: &mut Partial, command: Command) -> (r: Result<(), ParseError>)
    ensures
        match set_command_spec(old(partial)@, command@) {
            Ok(q) => r is Ok && final(partial)@ == q,
            Err(e) => r matches Err(x) && x@ == e,
        },
{
    match &partial.command {
        None => {
            partial.command = Some(command);
            Ok(())
        },
        Some(Command::Help(_)) => Ok(()),
        Some(_) => Err(ParseError::with_usage(owned("only one command is allowed"), owned(USAGE_COMMANDS))),
    }
}

/// The help a `--help` asks for after the command named so far.
fn help_topic(command: &Option<Command>) -> (t: HelpTopic)
    ensures
        t == help_topic_after(match command {
            Some(c) => Some(c@),
            None => None,
        }),
{
    match command {
        Some(Command::TapShow) | Some(Command::TapUp) | Some(Command::TapDown) | Some(Command::TapSetIface(_))
        | Some(Command::TapSetAddr(_)) | Some(Command::TapSetTun(_)) => HelpTopic::Tap,
        Some(Command::IdentityShow) | Some(Command::IdentitySetAddr(_)) | Some(Command::IdentitySetMac(_)) => {
            HelpTopic::Identity
        },
        Some(Command::Pcap(_)) => HelpTopic::Pcap,
        Some(Command::Help(t)) => *t,
        _ => HelpTopic::Full,
    }
}

/// Splits `--name=value` at its first `=`.
pub fn split_eq(arg: &str) -> (r: Option<(String, String)>)
    ensures
        match eq_split(arg@) {
            Some((f, v)) => r matches Some((x, y)) && x@ == f && y@ == v,
            None => r is None,
        },
{
    let cs = crate::text::chars_of(arg);
    let n = cs.len();
    match find_char(&cs, '=') {
        Some(k) => Some((string_between(&cs, 0, k), string_between(&cs, k + 1, n))),
        None => None,
    }
}

/// Whether a flag takes a value.
fn needs_value(a: &str) -> (r: bool)
    ensures
        r == takes_value(a@),
{
    str_eq(a, "--fwd") || str_eq(a, "--listen") || str_eq(a, "--iface") || str_eq(a, "--addr") || str_eq(a, "--mac")
        || str_eq(a, "--linux-addr") || str_eq(a, "--tun") || str_eq(a, "--write") || str_eq(a, "--config") || str_eq(
        a,
        "--drop",
    ) || str_eq(a, "--drop-pct") || str_eq(a, "--ttl") || str_eq(a, "--id") || str_eq(a, "-c") || str_eq(a, "--count")
}

/// Reads the argument at `i`, which starts with `-`.
fn flag_at(args: &[String], i: usize, partial: &mut Partial) -> (r: Result<usize, ParseError>)
    requires
        i < args@.len(),
    ensures
        match flag_step(texts(args@), i as nat, old(partial)@) {
            Ok((j, q)) => r == Ok::<usize, ParseError>(j as usize) && final(partial)@ == q,
            Err(e) => r matches Err(x) && x@ == e,
        },
{
    let n = args.len();
    let ghost a_ = texts(args@);
    let a = args[i].as_str();
    assert(a@ == a_[i as int]);
    if str_eq(a, "-h") || str_eq(a, "--help") {
        let topic = help_topic(&partial.command);
        partial.command = Some(Command::Help(topic));
        return Ok(i + 1);
    }
    if str_eq(a, "-V") || str_eq(a, "--version") {
        set_command(partial, Command::Version)?;
        return Ok(i + 1);
    }
    if let Some((f, v)) = split_eq(a) {
        if starts_with(f.as_str(), "--") {
            apply_flag(partial, f.as_str(), Some(v.as_str()))?;
            return Ok(i + 1);
        }
    }
    if needs_value(a) {
        if i + 1 < args.len() {
            assert(args@[i + 1]@ == a_[i + 1]);
            apply_flag(partial, a, Some(args[i + 1].as_str()))?;
            return Ok(i + 2);
        }
        return Err(missing_value(a));
    }
    apply_flag(partial, a, None)?;
    Ok(i + 1)
}

/// Whether the argument after `i` is missing or is a flag.
fn next_is_flag_or_absent(args: &[String], i: usize) -> (r: bool)
    requires
        i < args@.len(),
    ensures
        r == (i + 1 >= args@.len() || has_prefix(texts(args@)[i + 1], "-"@)),
{
    let n = args.len();
    if i + 1 >= args.len() {
        return true;
    }
    assert(args@[i + 1]@ == texts(args@)[i + 1]);
    starts_with(args[i + 1].as_str(), "-")
}

/// Reads `tap` and what follows it.
fn tap_at(args: &[String], i: usize, partial: &mut Partial) -> (r: Result<usize, ParseError>)
    requires
        i < args@.len(),
    ensures
        match tap_step(texts(args@), i as nat, old(partial)@) {
            Ok((j, q)) => r == Ok::<usize, ParseError>(j as usize) && final(partial)@ == q,
            Err(e) => r matches Err(x) && x@ == e,
        },
{
    let n = args.len();
    let ghost a_ = texts(args@);
    if next_is_flag_or_absent(args, i) {
        set_command(partial, Command::TapShow)?;
        return Ok(i + 1);
    }
    let sub = args[i + 1].as_str();
    assert(sub@ == a_[i + 1]);
    if str_eq(sub, "up") {
        set_command(partial, Command::TapUp)?;
        return Ok(i + 2);
    }
    if str_eq(sub, "down") {
        set_command(partial, Command::TapDown)?;
        return Ok(i + 2);
    }
    if (str_eq(sub, "iface") || str_eq(sub, "addr") || str_eq(sub, "tun")) && i + 2 < args.len() {
        let v = args[i + 2].as_str();
        assert(v@ == a_[i + 2]);
        if str_eq(sub, "iface") {
            set_command(partial, Command::TapSetIface(owned(v)))?;
        } else if str_eq(sub, "addr") {
            let a = parse_ipv4(v)?;
            set_command(partial, Command::TapSetAddr(a))?;
        } else {
            set_command(partial, Command::TapSetTun(owned(v)))?;
        }
        return Ok(i + 3);
    }
    Err(ParseError::usage_only(owned(USAGE_TAP)))
}

/// Reads `identity` and what follows it.
fn identity_at(args: &[String], i: usize, partial: &mut Partial) -> (r: Result<usize, ParseError>)
    requires
        i < args@.len(),
    ensures
        match identity_step(texts(args@), i as nat, old(partial)@) {
            Ok((j, q)) => r == Ok::<usize, ParseError>(j as usize) && final(partial)@ == q,
            Err(e) => r matches Err(x) && x@ == e,
        },
{
    let n = args.len();
    let ghost a_ = texts(args@);
    if next_is_flag_or_absent(args, i) {
        set_command(partial, Command::IdentityShow)?;
        return Ok(i + 1);
    }
    let sub = args[i + 1].as_str();
    assert(sub@ == a_[i + 1]);
    if (str_eq(sub, "addr") || str_eq(sub, "mac")) && i + 2 < args.len() {
        let v = args[i + 2].as_str();
        assert(v@ == a_[i + 2]);
        if str_eq(sub, "addr") {
            let a = parse_ipv4(v)?;
            set_command(partial, Command::IdentitySetAddr(a))?;
        } else {
            match parse_mac(v) {
                Ok(m) => set_command(partial, Command::IdentitySetMac(m))?,
                Err(e) => return Err(ParseError::msg(e)),
            }
        }
        return Ok(i + 3);
    }
    Err(ParseError::usage_only(owned(USAGE_IDENTITY)))
}

/// Reads the argument at `i`, which names a command.
fn word_at(args: &[String], i: usize, partial: &mut Partial) -> (r: Result<usize, ParseError>)
    requires
        i < args@.len(),
    ensures
        match word_step(texts(args@), i as nat, old(partial)@) {
            Ok((j, q)) => r == Ok::<usize, ParseError>(j as usize) && final(partial)@ == q,
            Err(e) => r matches Err(x) && x@ == e,
        },
{
    let n = args.len();
    let ghost a_ = texts(args@);
    let a = args[i].as_str();
    assert(a@ == a_[i as int]);
    if str_eq(a, "help") && partial.command.is_none() {
        partial.command = Some(Command::Help(HelpTopic::Full));
        return Ok(i + 1);
    }
    if str_eq(a, "run") {
        set_command(partial, Command::Run)?;
        return Ok(i + 1);
    }
    if str_eq(a, "stack") {
        set_command(partial, Command::Stack)?;
        return Ok(i + 1);
    }
    if str_eq(a, "bridge") {
        set_command(partial, Command::Bridge)?;
        return Ok(i + 1);
    }
    if str_eq(a, "replay") {
        if i + 1 < args.len() {
            assert(args@[i + 1]@ == a_[i + 1]);
            set_command(partial, Command::Replay(args[i + 1].clone()))?;
            return Ok(i + 2);
        }
        return Err(ParseError::with_usage(owned("replay needs a pcap path"), owned(USAGE_REPLAY)));
    }
    if str_eq(a, "pcap") || str_eq(a, "pcap-info") {
        if i + 1 < args.len() {
            let next = args[i + 1].as_str();
            assert(next@ == a_[i + 1]);
            if str_eq(next, "-h") || str_eq(next, "--help") {
                set_command(partial, Command::Help(HelpTopic::Pcap))?;
                return Ok(i + 2);
            }
            if !starts_with(next, "-") {
                set_command(partial, Command::Pcap(owned(next)))?;
                return Ok(i + 2);
            }
        }
        return Err(ParseError::usage_only(owned(USAGE_PCAP)));
    }
    if str_eq(a, "tap") {
        return tap_at(args, i, partial);
    }
    if str_eq(a, "identity") {
        return identity_at(args, i, partial);
    }
    let mut m = owned("unknown command '");
    push_str(&mut m, a);
    push_str(&mut m, "'");
    Err(ParseError::with_usage(m, owned(USAGE_COMMANDS)))
}

/// Reads a command line (without the program name) into one layer of
/// settings and the command it names.
pub fn parse_cli(args: &[String]) -> (r: Result<Partial, ParseError>)
    ensures
        match cli_result(texts(args@)) {
            Ok(p) => r matches Ok(q) && q@ == p,
            Err(e) => r matches Err(x) && x@ == e,
        },
{
    let ghost a_ = texts(args@);
    let mut partial = Partial::new();
    let mut i: usize = 0;
    while i < args.len()
        invariant
            a_ == texts(args@),
            i <= args@.len(),
            cli_result(a_) == cli_from(a_, i as nat, partial@),
        decreases args@.len() - i,
    {
        let ghost before = partial@;
        assert(args@[i as int]@ == a_[i as int]);
        let j = if starts_with(args[i].as_str(), "-") {
            flag_at(args, i, &mut partial)?
        } else {
            word_at(args, i, &mut partial)?
        };
        proof {
            assert(cli_step(a_, i as nat, before) == Ok::<(nat, PartialView), ParseErrorView>((j as nat, partial@)));
        }
        i = j;
    }
    Ok(partial)
}

} // verus!
