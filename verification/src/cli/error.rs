//! What a bad command line produces.
//!
//! A `ParseError` carries what was wrong and the smallest piece of usage text
//! that would have prevented it. Full `--help` is for people who asked for it.

use vstd::prelude::*;
use crate::text::{owned, push_char, push_str};
use super::usage::{TRY_HELP, flag_usage, flag_usage_text};

verus! {

/// A command line minitcp refuses: the complaint, and the usage that goes
/// with it.
#[derive(Clone, Debug, PartialEq, Eq)]
pub struct ParseError {
    pub message: String,
    pub usage: Option<String>,
}

/// A `ParseError` with its text taken as character sequences.
pub struct ParseErrorView {
    pub message: Seq<char>,
    pub usage: Option<Seq<char>>,
}

impl View for ParseError {
    type V = ParseErrorView;

    open spec fn view(&self) -> ParseErrorView {
        ParseErrorView {
            message: self.message@,
            usage: match self.usage {
                Some(u) => Some(u@),
                None => None,
            },
        }
    }
}

/// An error whose usage points at `--help`.
pub open spec fn msg_view(message: Seq<char>) -> ParseErrorView {
    ParseErrorView { message, usage: Some(TRY_HELP@) }
}

/// An error with its own usage block.
pub open spec fn usage_view(message: Seq<char>, usage: Seq<char>) -> ParseErrorView {
    ParseErrorView { message, usage: Some(usage) }
}

/// What `report` prints: `error: ` and the message, a blank line and the
/// usage; or the usage alone when there is no message.
pub open spec fn report_text(e: ParseErrorView) -> Seq<char> {
    let nl = seq!['\n'];
    match e.usage {
        Some(u) => if e.message.len() == 0 {
            u + nl
        } else {
            "error: "@ + e.message + nl + nl + u + nl
        },
        None => if e.message.len() == 0 {
            TRY_HELP@ + nl
        } else {
            "error: "@ + e.message + nl + nl + TRY_HELP@ + nl
        },
    }
}

/// `flag` followed by ` needs a value`, with the flag's usage.
pub open spec fn missing_value_view(flag: Seq<char>) -> ParseErrorView {
    usage_view(flag + " needs a value"@, flag_usage_text(flag))
}

impl ParseError {
    /// An error whose usage points at `--help`.
    pub fn msg(message: String) -> (e: Self)
        ensures
            e@ == msg_view(message@),
    {
        ParseError { message, usage: Some(owned(TRY_HELP)) }
    }

    /// An error with the usage block that would have prevented it.
    pub fn with_usage(message: String, usage: String) -> (e: Self)
        ensures
            e@ == usage_view(message@, usage@),
    {
        ParseError { message, usage: Some(usage) }
    }

    /// Family help only, with no `error:` line.
    pub fn usage_only(usage: String) -> (e: Self)
        ensures
            e@ == usage_view(Seq::empty(), usage@),
    {
        let e = ParseError { message: String::new(), usage: Some(usage) };
        assert(e@.message =~= Seq::<char>::empty());
        e
    }

    /// The text to print on stderr.
    pub fn report(&self) -> (s: String)
        ensures
            s@ == report_text(self@),
    {
        let mut s = String::new();
        let empty = self.message.as_str().is_empty();
        if !empty {
            push_str(&mut s, "error: ");
            push_str(&mut s, self.message.as_str());
            push_char(&mut s, '\n');
            push_char(&mut s, '\n');
        }
        match &self.usage {
            Some(u) => push_str(&mut s, u.as_str()),
            None => push_str(&mut s, TRY_HELP),
        }
        push_char(&mut s, '\n');
        assert(s@ =~= report_text(self@));
        s
    }
}

/// `flag needs a value`, with the flag's usage.
pub fn missing_value(flag: &str) -> (e: ParseError)
    ensures
        e@ == missing_value_view(flag@),
{
    let mut message = owned(flag);
    push_str(&mut message, " needs a value");
    ParseError::with_usage(message, flag_usage(flag))
}

/// An error made of a message with `--help` as its usage, from text.
pub fn msg_from(message: &str) -> (e: ParseError)
    ensures
        e@ == msg_view(message@),
{
    ParseError::msg(owned(message))
}

} // verus!
