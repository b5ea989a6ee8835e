//! What the user asked minitcp to do.
//!
//! Exactly one `Command` comes out of parsing, and every other flag is context
//! for it. The setters (`TapSetIface`, `IdentitySetAddr`, ...) are commands
//! rather than flags because they do not configure this run: they write
//! minitcp.toml and configure the next one.

use vstd::prelude::*;
use crate::proto::ethernet::MacAddress;
use crate::proto::ipv4::Ipv4Addr;

verus! {

/// Which part of the help text was asked for.
#[derive(Clone, Copy, Debug, PartialEq, Eq, Structural)]
pub enum HelpTopic {
    Full,
    Tap,
    Identity,
    Pcap,
}

/// The one thing a command line asks for. Paths are kept as the text that
/// was typed.
#[derive(Clone, Debug, PartialEq, Eq)]
pub enum Command {
    Run,
    Stack,
    Version,
    Replay(String),
    Pcap(String),
    Help(HelpTopic),
    Bridge,
    TapUp,
    TapDown,
    TapShow,
    TapSetIface(String),
    TapSetAddr(Ipv4Addr),
    TapSetTun(String),
    IdentityShow,
    IdentitySetAddr(Ipv4Addr),
    IdentitySetMac(MacAddress),
}

/// A command with its text arguments taken as character sequences.
pub enum CommandView {
    Run,
    Stack,
    Version,
    Replay(Seq<char>),
    Pcap(Seq<char>),
    Help(HelpTopic),
    Bridge,
    TapUp,
    TapDown,
    TapShow,
    TapSetIface(Seq<char>),
    TapSetAddr(Ipv4Addr),
    TapSetTun(Seq<char>),
    IdentityShow,
    IdentitySetAddr(Ipv4Addr),
    IdentitySetMac(MacAddress),
}

impl View for Command {
    type V = CommandView;

    open spec fn view(&self) -> CommandView {
        match self {
            Command::Run => CommandView::Run,
            Command::Stack => CommandView::Stack,
            Command::Version => CommandView::Version,
            Command::Replay(p) => CommandView::Replay(p@),
            Command::Pcap(p) => CommandView::Pcap(p@),
            Command::Help(t) => CommandView::Help(*t),
            Command::Bridge => CommandView::Bridge,
            Command::TapUp => CommandView::TapUp,
            Command::TapDown => CommandView::TapDown,
            Command::TapShow => CommandView::TapShow,
            Command::TapSetIface(n) => CommandView::TapSetIface(n@),
            Command::TapSetAddr(a) => CommandView::TapSetAddr(*a),
            Command::TapSetTun(p) => CommandView::TapSetTun(p@),
            Command::IdentityShow => CommandView::IdentityShow,
            Command::IdentitySetAddr(a) => CommandView::IdentitySetAddr(*a),
            Command::IdentitySetMac(m) => CommandView::IdentitySetMac(*m),
        }
    }
}

/// A command that writes minitcp.toml rather than running anything.
pub open spec fn is_setter_view(c: CommandView) -> bool {
    match c {
        CommandView::TapSetIface(_) | CommandView::TapSetAddr(_) | CommandView::TapSetTun(_)
        | CommandView::IdentitySetAddr(_) | CommandView::IdentitySetMac(_) => true,
        _ => false,
    }
}

/// Whether a command writes minitcp.toml rather than running anything.
pub fn is_setter(command: &Command) -> (r: bool)
    ensures
        r == is_setter_view(command@),
{
    match command {
        Command::TapSetIface(_) | Command::TapSetAddr(_) | Command::TapSetTun(_) | Command::IdentitySetAddr(_)
        | Command::IdentitySetMac(_) => true,
        _ => false,
    }
}

/// A copy of a command.
pub fn copy_command(c: &Command) -> (r: Command)
    ensures
        r@ == c@,
{
    match c {
        Command::Run => Command::Run,
        Command::Stack => Command::Stack,
        Command::Version => Command::Version,
        Command::Replay(p) => Command::Replay(p.clone()),
        Command::Pcap(p) => Command::Pcap(p.clone()),
        Command::Help(t) => Command::Help(*t),
        Command::Bridge => Command::Bridge,
        Command::TapUp => Command::TapUp,
        Command::TapDown => Command::TapDown,
        Command::TapShow => Command::TapShow,
        Command::TapSetIface(n) => Command::TapSetIface(n.clone()),
        Command::TapSetAddr(a) => Command::TapSetAddr(*a),
        Command::TapSetTun(p) => Command::TapSetTun(p.clone()),
        Command::IdentityShow => Command::IdentityShow,
        Command::IdentitySetAddr(a) => Command::IdentitySetAddr(*a),
        Command::IdentitySetMac(m) => Command::IdentitySetMac(*m),
    }
}

} // verus!
