//! Messages from minitcp about itself, as opposed to about the network.
//!
//! These belong on stderr, never stdout. Protocol output is the program's
//! actual result, the thing you would pipe into a file, and mixing "TAP
//! sidecar up" into it would corrupt that. Colour is added only when the
//! caller says stderr is a terminal, so redirecting to a file gives plain text.

use vstd::prelude::*;
use crossterm::style::Stylize;
use crate::text::{push_str, styled_as};

verus! {

/// How a status message reads and, on a terminal, which colour it takes.
#[derive(Clone, Copy, Debug, PartialEq, Eq, Structural)]
pub enum Level {
    Info,
    Success,
    Warn,
    Error,
}

/// The plain line: `minitcp: `, then `warning: ` or `error: ` where the level
/// calls for it, then the message.
pub open spec fn status_text(level: Level, message: Seq<char>) -> Seq<char> {
    let name = seq!['m', 'i', 'n', 'i', 't', 'c', 'p', ':', ' '];
    match level {
        Level::Info | Level::Success => name + message,
        Level::Warn => name + seq!['w', 'a', 'r', 'n', 'i', 'n', 'g', ':', ' '] + message,
        Level::Error => name + seq!['e', 'r', 'r', 'o', 'r', ':', ' '] + message,
    }
}

/// The plain status line for a message.
pub fn format_line(level: Level, message: &str) -> (s: String)
    ensures
        s@ == status_text(level, message@),
{
    let mut s = String::new();
    push_str(&mut s, "minitcp: ");
    match level {
        Level::Info | Level::Success => {},
        Level::Warn => push_str(&mut s, "warning: "),
        Level::Error => push_str(&mut s, "error: "),
    }
    push_str(&mut s, message);
    proof {
        reveal_strlit("minitcp: ");
        reveal_strlit("warning: ");
        reveal_strlit("error: ");
    }
    assert(s@ =~= status_text(level, message@));
    s
}

/// `text` in green, through crossterm's `Stylize::green` and its `Display`
/// (`PrintStyledContent::write_ansi`), which writes the text unchanged between
/// SGR escape sequences. Which sequences they are depends on the environment
/// (`NO_COLOR` empties the colour parameters), so only that the text stands
/// between nothing but escape sequences is stated.
#[verifier::external_body]
fn green(text: &str) -> (r: String)
    ensures
        styled_as(r@, text@),
{
    text.green().to_string()
}

/// `text` in yellow, through crossterm's `Stylize::yellow` and its `Display`
/// (`PrintStyledContent::write_ansi`), which writes the text unchanged between
/// SGR escape sequences. Which sequences they are depends on the environment
/// (`NO_COLOR` empties the colour parameters), so only that the text stands
/// between nothing but escape sequences is stated.
#[verifier::external_body]
fn yellow(text: &str) -> (r: String)
    ensures
        styled_as(r@, text@),
{
    text.yellow().to_string()
}

/// `text` in red, through crossterm's `Stylize::red` and its `Display`
/// (`PrintStyledContent::write_ansi`), which writes the text unchanged between
/// SGR escape sequences. Which sequences they are depends on the environment
/// (`NO_COLOR` empties the colour parameters), so only that the text stands
/// between nothing but escape sequences is stated.
#[verifier::external_body]
fn red(text: &str) -> (r: String)
    ensures
        styled_as(r@, text@),
{
    text.red().to_string()
}

/// The line as it is written to stderr: plain when `color` is off or the
/// level is `Info`; otherwise the plain line wrapped in the level's colour
/// (green for ok, yellow for warnings, red for errors).
pub fn render_line(level: Level, message: &str, color: bool) -> (s: String)
    ensures
        !color || level == Level::Info ==> s@ == status_text(level, message@),
        color && level != Level::Info ==> styled_as(s@, status_text(level, message@)),
{
    let line = format_line(level, message);
    if !color {
        return line;
    }
    match level {
        Level::Info => line,
        Level::Success => green(line.as_str()),
        Level::Warn => yellow(line.as_str()),
        Level::Error => red(line.as_str()),
    }
}

/// An informational status line.
pub fn info(message: &str, color: bool) -> (s: String)
    ensures
        s@ == status_text(Level::Info, message@),
{
    render_line(Level::Info, message, color)
}

/// A status line reporting success.
pub fn ok(message: &str, color: bool) -> (s: String)
    ensures
        !color ==> s@ == status_text(Level::Success, message@),
        color ==> styled_as(s@, status_text(Level::Success, message@)),
{
    render_line(Level::Success, message, color)
}

/// A warning status line.
pub fn warn(message: &str, color: bool) -> (s: String)
    ensures
        !color ==> s@ == status_text(Level::Warn, message@),
        color ==> styled_as(s@, status_text(Level::Warn, message@)),
{
    render_line(Level::Warn, message, color)
}

/// An error status line.
pub fn error(message: &str, color: bool) -> (s: String)
    ensures
        !color ==> s@ == status_text(Level::Error, message@),
        color ==> styled_as(s@, status_text(Level::Error, message@)),
{
    render_line(Level::Error, message, color)
}

} // verus!
