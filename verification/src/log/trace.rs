//! Narrating a frame as it is taken apart.
//!
//! Quiet:  23:12:05  icmp  10.0.0.1 -> 10.0.0.2  echo id=1 seq=1  len=64
//! Verbose first line:
//!   23:12:05  [IN]    ethernet  L2  02:00:… -> 02:00:…  ethertype 0x0800
//!
//! The verbose form is a small tree, because that is what a frame is: an
//! Ethernet header with an IPv4 packet inside it with an ICMP message inside
//! that. Each layer gets a row. IPv4 and ARP keep their own `src -> dst`, while
//! ICMP, TCP and UDP are drawn indented under the IPv4 line they arrived in:
//! they have no addresses of their own, they borrow the packet's.
//!
//! Lines are appended, each with its newline, to a transcript that the caller
//! writes out; protocol lines belong on stdout.

use vstd::prelude::*;
use vstd::string::*;
use crate::text::{pad_right, push_char, push_padded, push_spaces, push_str, spaces};

verus! {

/// The direction column of a verbose line.
#[derive(Clone, Copy, Debug, PartialEq, Eq, Structural)]
pub enum Verb {
    In,
    Out,
    Drop,
    More,
}

/// The text of a verb.
pub open spec fn verb_text(v: Verb) -> Seq<char> {
    match v {
        Verb::In => seq!['I', 'N'],
        Verb::Out => seq!['O', 'U', 'T'],
        Verb::Drop => seq!['D', 'R', 'O', 'P'],
        Verb::More => seq!['.', '.'],
    }
}

impl Verb {
    pub fn as_str(self) -> (r: &'static str)
        ensures
            r@ == verb_text(self),
    {
        let r = match self {
            Verb::In => "IN",
            Verb::Out => "OUT",
            Verb::Drop => "DROP",
            Verb::More => "..",
        };
        proof {
            reveal_strlit("IN");
            reveal_strlit("OUT");
            reveal_strlit("DROP");
            reveal_strlit("..");
        }
        r
    }
}

/// Two spaces, the gap between columns.
pub open spec fn gap() -> Seq<char> {
    seq![' ', ' ']
}

/// The detail column: the address, the reason, or both two spaces apart.
pub open spec fn detail_text(address: Seq<char>, reason: Seq<char>) -> Seq<char> {
    if address.len() == 0 {
        reason
    } else if reason.len() == 0 {
        address
    } else {
        address + gap() + reason
    }
}

/// A verbose line. The time column shows `when`, or as many spaces as `when`
/// has bytes so that continuation lines stay aligned; the verb in brackets is
/// padded to 6 characters and the layer to 8.
pub open spec fn event_text(
    show_time: bool,
    verb: Verb,
    layer: Seq<char>,
    osi: Seq<char>,
    address: Seq<char>,
    reason: Seq<char>,
    when: &str,
) -> Seq<char> {
    let when_col = if show_time {
        when@
    } else {
        spaces(when.len() as nat)
    };
    when_col + gap() + pad_right(seq!['['] + verb_text(verb) + seq![']'], 6) + gap() + pad_right(layer, 8) + gap()
        + osi + gap() + detail_text(address, reason)
}

/// One trace line before it is rendered.
pub struct Event<'a> {
    pub show_time: bool,
    pub verb: Verb,
    pub layer: &'a str,
    pub osi: &'a str,
    pub address: &'a str,
    pub reason: &'a str,
}

impl<'a> Event<'a> {
    /// The line, with `when` as its time.
    pub fn format_with(&self, when: &str) -> (s: String)
        ensures
            s@ == event_text(self.show_time, self.verb, self.layer@, self.osi@, self.address@, self.reason@, when),
    {
        let mut s = String::new();
        if self.show_time {
            push_str(&mut s, when);
        } else {
            push_spaces(&mut s, when.len());
        }
        push_str(&mut s, "  ");
        let mut verb = String::new();
        push_char(&mut verb, '[');
        push_str(&mut verb, self.verb.as_str());
        push_char(&mut verb, ']');
        push_padded(&mut s, verb.as_str(), 6);
        push_str(&mut s, "  ");
        push_padded(&mut s, self.layer, 8);
        push_str(&mut s, "  ");
        push_str(&mut s, self.osi);
        push_str(&mut s, "  ");
        if self.address.is_empty() {
            push_str(&mut s, self.reason);
        } else if self.reason.is_empty() {
            push_str(&mut s, self.address);
        } else {
            push_str(&mut s, self.address);
            push_str(&mut s, "  ");
            push_str(&mut s, self.reason);
        }
        proof {
            reveal_strlit("  ");
        }
        assert(s@ =~= event_text(self.show_time, self.verb, self.layer@, self.osi@, self.address@, self.reason@, when));
        s
    }

    /// Appends the line and its newline to `out`.
    pub fn emit(&self, out: &mut String, when: &str)
        ensures
            final(out)@ == old(out)@ + event_text(
                self.show_time,
                self.verb,
                self.layer@,
                self.osi@,
                self.address@,
                self.reason@,
                when,
            ) + seq!['\n'],
    {
        let line = self.format_with(when);
        push_str(out, line.as_str());
        push_char(out, '\n');
    }
}

/// The quiet one-line summary: time, layer, addresses, reason, two spaces
/// apart. No IN/OUT.
pub open spec fn quiet_text(when: Seq<char>, layer: Seq<char>, address: Seq<char>, reason: Seq<char>) -> Seq<char> {
    when + gap() + layer + gap() + address + gap() + reason
}

/// One-line quiet summary: time, layer, addresses, reason. No IN/OUT.
pub fn format_quiet(when: &str, layer: &str, address: &str, reason: &str) -> (s: String)
    ensures
        s@ == quiet_text(when@, layer@, address@, reason@),
{
    let mut s = String::new();
    push_str(&mut s, when);
    push_str(&mut s, "  ");
    push_str(&mut s, layer);
    push_str(&mut s, "  ");
    push_str(&mut s, address);
    push_str(&mut s, "  ");
    push_str(&mut s, reason);
    proof {
        reveal_strlit("  ");
    }
    assert(s@ =~= quiet_text(when@, layer@, address@, reason@));
    s
}

/// Appends the quiet summary line and its newline.
pub fn emit_quiet(out: &mut String, when: &str, layer: &str, address: &str, reason: &str)
    ensures
        final(out)@ == old(out)@ + quiet_text(when@, layer@, address@, reason@) + seq!['\n'],
{
    let line = format_quiet(when, layer, address, reason);
    push_str(out, line.as_str());
    push_char(out, '\n');
}

/// Appends the first line of a frame, which carries the time.
pub fn emit_at(out: &mut String, when: &str, verb: Verb, layer: &str, osi: &str, address: &str, reason: &str)
    ensures
        final(out)@ == old(out)@ + event_text(true, verb, layer@, osi@, address@, reason@, when) + seq!['\n'],
{
    Event { show_time: true, verb, layer, osi, address, reason }.emit(out, when);
}

/// Appends a continuation line, with the time column blank.
pub fn emit_cont(out: &mut String, when: &str, verb: Verb, layer: &str, osi: &str, address: &str, reason: &str)
    ensures
        final(out)@ == old(out)@ + event_text(false, verb, layer@, osi@, address@, reason@, when) + seq!['\n'],
{
    Event { show_time: false, verb, layer, osi, address, reason }.emit(out, when);
}

/// The tree branch that marks a protocol carried inside IPv4.
pub open spec fn branch() -> Seq<char> {
    seq!['└', '─', '─', ' ']
}

/// Appends a line for a protocol carried inside IPv4 (ICMP, UDP, TCP): a
/// tree child of the ipv4 line, with no address of its own.
pub fn emit_inside(out: &mut String, when: &str, verb: Verb, layer: &str, osi: &str, reason: &str)
    ensures
        final(out)@ == old(out)@ + event_text(false, verb, branch() + layer@, osi@, Seq::empty(), reason@, when)
            + seq!['\n'],
{
    let mut branched = String::new();
    push_str(&mut branched, "└── ");
    push_str(&mut branched, layer);
    proof {
        reveal_strlit("└── ");
        reveal_strlit("");
    }
    assert(branched@ =~= branch() + layer@);
    Event { show_time: false, verb, layer: branched.as_str(), osi, address: "", reason }.emit(out, when);
}

} // verus!
