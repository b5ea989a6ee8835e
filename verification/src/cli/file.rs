//! minitcp.toml: the same knobs as the command line, one layer lower.
//!
//! The `toml` crate reads the text; what each key means, and what its value
//! must look like, is decided here with the same checks the flags use.

use vstd::prelude::*;
use crate::parse::{low_u16, low_u8, lower, narrow_u16, narrow_u8, trimmed};
use crate::stack::DropKind;
use crate::text::{owned, push_char, push_str, str_eq};
use super::error::{ParseError, ParseErrorView, msg_view, usage_view};
use super::flags::{bad_mac, drop_list_result, ipv4_result, parse_drop_list, parse_ipv4, parse_mac};
use super::options::{Partial, PartialView, drop_kind_named, unknown_drop_kind};
use super::usage::{USAGE_CONFIG, flag_usage, flag_usage_text};
use crate::parse::mac_spec;

verus! {

/// A value of minitcp.toml, as far as minitcp looks into it: a string, a
/// boolean, an integer, an array (each element a string or not), or
/// anything else.
#[derive(Clone, Debug, PartialEq, Eq)]
pub enum TomlValue {
    Str(String),
    Bool(bool),
    Int(i64),
    List(Vec<Option<String>>),
    Other,
}

/// A `TomlValue` with its text taken as character sequences.
pub enum TomlView {
    Str(Seq<char>),
    Bool(bool),
    Int(i64),
    List(Seq<Option<Seq<char>>>),
    Other,
}

impl View for TomlValue {
    type V = TomlView;

    open spec fn view(&self) -> TomlView {
        match self {
            TomlValue::Str(s) => TomlView::Str(s@),
            TomlValue::Bool(b) => TomlView::Bool(*b),
            TomlValue::Int(n) => TomlView::Int(*n),
            TomlValue::List(items) => TomlView::List(
                Seq::new(
                    items@.len(),
                    |i: int|
                        match items@[i] {
                            Some(s) => Some(s@),
                            None => None,
                        },
                ),
            ),
            TomlValue::Other => TomlView::Other,
        }
    }
}

/// The keys and values of a TOML document, in the order the table yields
/// them, or the parser's message.
pub open spec fn document_view(r: Result<Vec<(String, TomlValue)>, String>) -> Result<Seq<(Seq<char>, TomlView)>, Seq<char>> {
    match r {
        Ok(v) => Ok(Seq::new(v@.len(), |i: int| (v@[i].0@, v@[i].1@))),
        Err(e) => Err(e@),
    }
}

/// What the `toml` crate reads from a text: the top-level table's entries,
/// or its error message.
pub uninterp spec fn toml_document(text: Seq<char>) -> Result<Seq<(Seq<char>, TomlView)>, Seq<char>>;

/// Reads a TOML document with the `toml` crate (`str::parse::<toml::Table>`)
/// and converts each top-level value. The result is named: what the parser
/// accepts, and its messages, are the crate's and are not restated.
#[verifier::external_body]
fn parse_toml(text: &str) -> (r: Result<Vec<(String, TomlValue)>, String>)
    ensures
        document_view(r) == toml_document(text@),
{
    match text.parse::<toml::Table>() {
        Ok(table) => Ok(table.into_iter().map(|(key, value)| (key, match value {
            toml::Value::String(s) => TomlValue::Str(s),
            toml::Value::Boolean(b) => TomlValue::Bool(b),
            toml::Value::Integer(n) => TomlValue::Int(n),
            toml::Value::Array(items) => TomlValue::List(items.into_iter().map(|i| match i {
                toml::Value::String(s) => Some(s),
                _ => None,
            }).collect()),
            _ => TomlValue::Other,
        })).collect()),
        Err(e) => Err(e.to_string()),
    }
}

/// `config key K must be ...`, with the `--config` usage.
pub open spec fn key_error(key: Seq<char>, what: Seq<char>) -> ParseErrorView {
    usage_view("config key "@ + key + " must be "@ + what, USAGE_CONFIG@)
}

/// A value that must be a string.
pub open spec fn toml_string_spec(v: TomlView, key: Seq<char>) -> Result<Seq<char>, ParseErrorView> {
    match v {
        TomlView::Str(s) => Ok(s),
        _ => Err(key_error(key, "a string"@)),
    }
}

/// A value that must be a boolean.
pub open spec fn toml_bool_spec(v: TomlView, key: Seq<char>) -> Result<bool, ParseErrorView> {
    match v {
        TomlView::Bool(b) => Ok(b),
        _ => Err(key_error(key, "a boolean"@)),
    }
}

/// A value that must be a non-negative integer.
pub open spec fn toml_u64_spec(v: TomlView, key: Seq<char>) -> Result<u64, ParseErrorView> {
    match v {
        TomlView::Int(n) => if n >= 0 {
            Ok(n as u64)
        } else {
            Err(key_error(key, "a non-negative integer"@))
        },
        _ => Err(key_error(key, "a non-negative integer"@)),
    }
}

/// The drop kinds the first `n` elements of an array name, each a string
/// naming a kind.
pub open spec fn drop_items(items: Seq<Option<Seq<char>>>, n: nat) -> Result<Seq<DropKind>, ParseErrorView>
    decreases n,
{
    if n == 0 {
        Ok(Seq::empty())
    } else {
        match drop_items(items, (n - 1) as nat) {
            Err(e) => Err(e),
            Ok(acc) => match items[n - 1] {
                None => Err(usage_view("drop entries must be strings"@, flag_usage_text("--drop"@))),
                Some(name) => match drop_kind_named(lower(trimmed(name))) {
                    Some(k) => Ok(acc.push(k)),
                    None => Err(unknown_drop_kind(lower(trimmed(name)))),
                },
            },
        }
    }
}

/// What `drop = ...` means: a comma list as on the command line, or an
/// array of names.
pub open spec fn toml_drop_spec(v: TomlView) -> Result<Seq<DropKind>, ParseErrorView> {
    match v {
        TomlView::Str(s) => drop_list_result(s),
        TomlView::List(items) => match drop_items(items, items.len()) {
            Err(e) => Err(e),
            Ok(l) => if l.len() == 0 {
                Err(usage_view("drop must list arp, icmp, or ip"@, flag_usage_text("--drop"@)))
            } else {
                Ok(l)
            },
        },
        _ => Err(usage_view("drop must be a string or array of strings"@, flag_usage_text("--drop"@))),
    }
}

/// A bounded number from the file, with the same wording as its flag.
pub open spec fn toml_bounded(v: TomlView, key: Seq<char>, max: u64, too_big: Seq<char>, flag: Seq<char>) -> Result<u64, ParseErrorView> {
    match toml_u64_spec(v, key) {
        Err(e) => Err(e),
        Ok(n) => if n > max {
            Err(usage_view(too_big, flag_usage_text(flag)))
        } else {
            Ok(n)
        },
    }
}

/// What one key of minitcp.toml does to a layer.
pub open spec fn entry_effect(p: PartialView, key: Seq<char>, v: TomlView) -> Result<PartialView, ParseErrorView> {
    if key == "iface"@ {
        match toml_string_spec(v, key) {
            Ok(s) => Ok(PartialView { iface: Some(s), ..p }),
            Err(e) => Err(e),
        }
    } else if key == "addr"@ || key == "linux-addr"@ || key == "linux_addr"@ {
        match toml_string_spec(v, key) {
            Ok(s) => match ipv4_result(s) {
                Ok(a) => if key == "addr"@ {
                    Ok(PartialView { addr: Some(a), ..p })
                } else {
                    Ok(PartialView { linux_addr: Some(a), ..p })
                },
                Err(e) => Err(e),
            },
            Err(e) => Err(e),
        }
    } else if key == "mac"@ {
        match toml_string_spec(v, key) {
            Ok(s) => match mac_spec(s) {
                Some(m) => Ok(PartialView { mac: Some(m), ..p }),
                None => Err(msg_view(bad_mac(s))),
            },
            Err(e) => Err(e),
        }
    } else if key == "tun"@ || key == "write"@ {
        match toml_string_spec(v, key) {
            Ok(s) => if key == "tun"@ {
                Ok(PartialView { tun: Some(s), ..p })
            } else {
                Ok(PartialView { write: Some(s), ..p })
            },
            Err(e) => Err(e),
        }
    } else if key == "hex"@ || key == "quiet"@ {
        match toml_bool_spec(v, key) {
            Ok(b) => if key == "hex"@ {
                Ok(PartialView { hex: Some(b), ..p })
            } else {
                Ok(PartialView { quiet: Some(b), ..p })
            },
            Err(e) => Err(e),
        }
    } else if key == "count"@ {
        match toml_u64_spec(v, key) {
            Ok(n) => Ok(PartialView { count: Some(n), ..p }),
            Err(e) => Err(e),
        }
    } else if key == "drop"@ {
        match toml_drop_spec(v) {
            Ok(l) => Ok(PartialView { drop: Some(l), ..p }),
            Err(e) => Err(e),
        }
    } else if key == "drop-pct"@ || key == "drop_pct"@ {
        match toml_bounded(v, key, 100, "drop-pct must be 0-100"@, "--drop-pct"@) {
            Ok(n) => Ok(PartialView { drop_pct: Some(low_u8(n)), ..p }),
            Err(e) => Err(e),
        }
    } else if key == "ttl"@ {
        match toml_bounded(v, key, 255, "ttl must be 0-255"@, "--ttl"@) {
            Ok(n) => Ok(PartialView { ttl: Some(low_u8(n)), ..p }),
            Err(e) => Err(e),
        }
    } else if key == "id"@ {
        match toml_bounded(v, key, 65535, "id must be 0-65535"@, "--id"@) {
            Ok(n) => Ok(PartialView { icmp_id: Some(low_u16(n)), ..p }),
            Err(e) => Err(e),
        }
    } else {
        Err(usage_view("unknown config key: "@ + key, USAGE_CONFIG@))
    }
}

/// The layer the first `n` entries of a document give, the first bad entry
/// being the error.
pub open spec fn entries_effect(p: PartialView, entries: Seq<(Seq<char>, TomlView)>, n: nat) -> Result<PartialView, ParseErrorView>
    decreases n,
{
    if n == 0 {
        Ok(p)
    } else {
        match entries_effect(p, entries, (n - 1) as nat) {
            Err(e) => Err(e),
            Ok(q) => entry_effect(q, entries[n - 1].0, entries[n - 1].1),
        }
    }
}

/// The layer as far as the first `n` entries got: every entry before the
/// first bad one applied, and nothing after it.
pub open spec fn applied_part(p: PartialView, entries: Seq<(Seq<char>, TomlView)>, n: nat) -> PartialView
    decreases n,
{
    if n == 0 {
        p
    } else {
        match entries_effect(p, entries, (n - 1) as nat) {
            Err(_) => applied_part(p, entries, (n - 1) as nat),
            Ok(q) => match entry_effect(q, entries[n - 1].0, entries[n - 1].1) {
                Ok(q2) => q2,
                Err(_) => q,
            },
        }
    }
}

/// `config key K must be ...`.
fn key_error_for(key: &str, what: &str) -> (e: ParseError)
    ensures
        e@ == key_error(key@, what@),
{
    let mut m = owned("config key ");
    push_str(&mut m, key);
    push_str(&mut m, " must be ");
    push_str(&mut m, what);
    ParseError::with_usage(m, owned(USAGE_CONFIG))
}

fn toml_string(v: &TomlValue, key: &str) -> (r: Result<String, ParseError>)
    ensures
        match toml_string_spec(v@, key@) {
            Ok(s) => r matches Ok(x) && x@ == s,
            Err(e) => r matches Err(x) && x@ == e,
        },
{
    match v {
        TomlValue::Str(s) => Ok(s.clone()),
        _ => Err(key_error_for(key, "a string")),
    }
}

fn toml_bool(v: &TomlValue, key: &str) -> (r: Result<bool, ParseError>)
    ensures
        match toml_bool_spec(v@, key@) {
            Ok(b) => r == Ok::<bool, ParseError>(b),
            Err(e) => r matches Err(x) && x@ == e,
        },
{
    match v {
        TomlValue::Bool(b) => Ok(*b),
        _ => Err(key_error_for(key, "a boolean")),
    }
}

fn toml_u64(v: &TomlValue, key: &str) -> (r: Result<u64, ParseError>)
    ensures
        match toml_u64_spec(v@, key@) {
            Ok(n) => r == Ok::<u64, ParseError>(n),
            Err(e) => r matches Err(x) && x@ == e,
        },
{
    match v {
        TomlValue::Int(n) => if *n >= 0 {
            Ok(*n as u64)
        } else {
            Err(key_error_for(key, "a non-negative integer"))
        },
        _ => Err(key_error_for(key, "a non-negative integer")),
    }
}

fn toml_bounded_number(v: &TomlValue, key: &str, max: u64, too_big: &str, flag: &str) -> (r: Result<u64, ParseError>)
    ensures
        match toml_bounded(v@, key@, max, too_big@, flag@) {
            Ok(n) => r == Ok::<u64, ParseError>(n),
            Err(e) => r matches Err(x) && x@ == e,
        },
{
    let n = toml_u64(v, key)?;
    if n > max {
        return Err(ParseError::with_usage(owned(too_big), flag_usage(flag)));
    }
    Ok(n)
}

fn toml_drop(v: &TomlValue) -> (r: Result<Vec<DropKind>, ParseError>)
    ensures
        match toml_drop_spec(v@) {
            Ok(l) => r matches Ok(x) && x@ == l,
            Err(e) => r matches Err(x) && x@ == e,
        },
{
    match v {
        TomlValue::Str(s) => parse_drop_list(s.as_str()),
        TomlValue::List(items) => {
            let ghost iv = v@->List_0;
            let mut joined: Vec<DropKind> = Vec::new();
            let mut i: usize = 0;
            while i < items.len()
                invariant
                    v@ is List,
                    iv == v@->List_0,
                    i <= items@.len(),
                    iv.len() == items@.len(),
                    forall|k: int| 0 <= k < items@.len() ==> #[trigger] iv[k] == match items@[k] {
                        Some(s) => Some(s@),
                        None => None,
                    },
                    drop_items(iv, i as nat) == Ok::<Seq<DropKind>, ParseErrorView>(joined@),
                decreases items@.len() - i,
            {
                assert(iv[i as int] == match items@[i as int] {
                    Some(s) => Some(s@),
                    None => None,
                });
                let name = match &items[i] {
                    Some(name) => name,
                    None => {
                        let e = ParseError::with_usage(owned("drop entries must be strings"), flag_usage("--drop"));
                        proof {
                            assert(drop_items(iv, (i + 1) as nat) == Err::<Seq<DropKind>, ParseErrorView>(e@));
                            lemma_drop_items_stays_err(iv, (i + 1) as nat, iv.len(), e@);
                        }
                        return Err(e);
                    },
                };
                match DropKind::parse(name.as_str()) {
                    Ok(k) => joined.push(k),
                    Err(e) => {
                        proof {
                            assert(drop_items(iv, (i + 1) as nat) == Err::<Seq<DropKind>, ParseErrorView>(e@));
                            lemma_drop_items_stays_err(iv, (i + 1) as nat, iv.len(), e@);
                        }
                        return Err(e);
                    },
                }
                i = i + 1;
            }
            if joined.len() == 0 {
                return Err(ParseError::with_usage(owned("drop must list arp, icmp, or ip"), flag_usage("--drop")));
            }
            Ok(joined)
        },
        _ => Err(ParseError::with_usage(owned("drop must be a string or array of strings"), flag_usage("--drop"))),
    }
}

proof fn lemma_drop_items_stays_err(items: Seq<Option<Seq<char>>>, n: nat, m: nat, e: ParseErrorView)
    requires
        n <= m,
        drop_items(items, n) == Err::<Seq<DropKind>, ParseErrorView>(e),
    ensures
        drop_items(items, m) == Err::<Seq<DropKind>, ParseErrorView>(e),
    decreases m - n,
{
    if n < m {
        lemma_drop_items_stays_err(items, n, (m - 1) as nat, e);
    }
}

/// Applies one key of minitcp.toml to a layer.
fn apply_entry(partial: &mut Partial, key: &str, v: &TomlValue) -> (r: Result<(), ParseError>)
    ensures
        match entry_effect(old(partial)@, key@, v@) {
            Ok(q) => r is Ok && final(partial)@ == q,
            Err(e) => r matches Err(x) && x@ == e && final(partial)@ == old(partial)@,
        },
{
    if str_eq(key, "iface") {
        partial.iface = Some(toml_string(v, key)?);
    } else if str_eq(key, "addr") || str_eq(key, "linux-addr") || str_eq(key, "linux_addr") {
        let s = toml_string(v, key)?;
        let a = parse_ipv4(s.as_str())?;
        if str_eq(key, "addr") {
            partial.addr = Some(a);
        } else {
            partial.linux_addr = Some(a);
        }
    } else if str_eq(key, "mac") {
        let s = toml_string(v, key)?;
        match parse_mac(s.as_str()) {
            Ok(m) => partial.mac = Some(m),
            Err(e) => return Err(ParseError::msg(e)),
        }
    } else if str_eq(key, "tun") || str_eq(key, "write") {
        let s = toml_string(v, key)?;
        if str_eq(key, "tun") {
            partial.tun = Some(s);
        } else {
            partial.write = Some(s);
        }
    } else if str_eq(key, "hex") || str_eq(key, "quiet") {
        let b = toml_bool(v, key)?;
        if str_eq(key, "hex") {
            partial.hex = Some(b);
        } else {
            partial.quiet = Some(b);
        }
    } else if str_eq(key, "count") {
        partial.count = Some(toml_u64(v, key)?);
    } else if str_eq(key, "drop") {
        partial.drop = Some(toml_drop(v)?);
    } else if str_eq(key, "drop-pct") || str_eq(key, "drop_pct") {
        let n = toml_bounded_number(v, key, 100, "drop-pct must be 0-100", "--drop-pct")?;
        partial.drop_pct = Some(narrow_u8(n));
    } else if str_eq(key, "ttl") {
        let n = toml_bounded_number(v, key, 255, "ttl must be 0-255", "--ttl")?;
        partial.ttl = Some(narrow_u8(n));
    } else if str_eq(key, "id") {
        let n = toml_bounded_number(v, key, 65535, "id must be 0-65535", "--id")?;
        partial.icmp_id = Some(narrow_u16(n));
    } else {
        let mut m = owned("unknown config key: ");
        push_str(&mut m, key);
        return Err(ParseError::with_usage(m, owned(USAGE_CONFIG)));
    }
    Ok(())
}

/// Applies the entries of a minitcp.toml, in order, to a layer; the first
/// bad entry is the error, and the entries before it stay applied.
pub fn apply_toml(partial: &mut Partial, entries: &Vec<(String, TomlValue)>) -> (r: Result<(), ParseError>)
    ensures
        match entries_effect(
            old(partial)@,
            Seq::new(entries@.len(), |i: int| (entries@[i].0@, entries@[i].1@)),
            entries@.len(),
        ) {
            Ok(q) => r is Ok && final(partial)@ == q,
            Err(e) => r matches Err(x) && x@ == e && final(partial)@ == applied_part(
                old(partial)@,
                Seq::new(entries@.len(), |i: int| (entries@[i].0@, entries@[i].1@)),
                entries@.len(),
            ),
        },
{
    let ghost es = Seq::new(entries@.len(), |i: int| (entries@[i].0@, entries@[i].1@));
    let ghost start = partial@;
    let mut i: usize = 0;
    while i < entries.len()
        invariant
            start == old(partial)@,
            es == Seq::new(entries@.len(), |i: int| (entries@[i].0@, entries@[i].1@)),
            i <= entries@.len(),
            entries_effect(start, es, i as nat) == Ok::<PartialView, ParseErrorView>(partial@),
        decreases entries@.len() - i,
    {
        let (key, value) = &entries[i];
        assert(es[i as int] == (key@, value@));
        let ghost before = partial@;
        match apply_entry(partial, key.as_str(), value) {
            Ok(()) => {},
            Err(e) => {
                proof {
                    assert(entries_effect(start, es, (i + 1) as nat) == entry_effect(before, key@, value@));
                    assert(applied_part(start, es, (i + 1) as nat) == before);
                    lemma_entries_stay_err(start, es, (i + 1) as nat, es.len(), e@);
                    lemma_applied_part_stays(start, es, (i + 1) as nat, es.len(), e@);
                }
                return Err(e);
            },
        }
        i = i + 1;
    }
    Ok(())
}

proof fn lemma_applied_part_stays(p: PartialView, es: Seq<(Seq<char>, TomlView)>, n: nat, m: nat, e: ParseErrorView)
    requires
        n <= m,
        entries_effect(p, es, n) == Err::<PartialView, ParseErrorView>(e),
    ensures
        applied_part(p, es, m) == applied_part(p, es, n),
    decreases m - n,
{
    if n < m {
        lemma_applied_part_stays(p, es, n, (m - 1) as nat, e);
        lemma_entries_stay_err(p, es, n, (m - 1) as nat, e);
    }
}

proof fn lemma_entries_stay_err(p: PartialView, es: Seq<(Seq<char>, TomlView)>, n: nat, m: nat, e: ParseErrorView)
    requires
        n <= m,
        entries_effect(p, es, n) == Err::<PartialView, ParseErrorView>(e),
    ensures
        entries_effect(p, es, m) == Err::<PartialView, ParseErrorView>(e),
    decreases m - n,
{
    if n < m {
        lemma_entries_stay_err(p, es, n, (m - 1) as nat, e);
    }
}

/// `invalid TOML in PATH: MESSAGE`, with the `--config` usage.
pub open spec fn invalid_toml(path: Seq<char>, message: Seq<char>) -> ParseErrorView {
    usage_view("invalid TOML in "@ + path + ": "@ + message, USAGE_CONFIG@)
}

/// Reads the text of a minitcp.toml found at `path` into a layer.
pub fn load_toml(partial: &mut Partial, path: &str, text: &str) -> (r: Result<(), ParseError>)
    ensures
        match toml_document(text@) {
            Err(m) => r matches Err(x) && x@ == invalid_toml(path@, m) && final(partial)@ == old(partial)@,
            Ok(es) => match entries_effect(old(partial)@, es, es.len()) {
                Ok(q) => r is Ok && final(partial)@ == q,
                Err(e) => r matches Err(x) && x@ == e && final(partial)@ == applied_part(old(partial)@, es, es.len()),
            },
        },
{
    match parse_toml(text) {
        Ok(entries) => {
            proof {
                assert(Seq::new(entries@.len(), |i: int| (entries@[i].0@, entries@[i].1@)) =~= toml_document(
                    text@,
                )->Ok_0);
            }
            apply_toml(partial, &entries)
        },
        Err(m) => {
            let mut s = owned("invalid TOML in ");
            push_str(&mut s, path);
            push_str(&mut s, ": ");
            push_str(&mut s, m.as_str());
            Err(ParseError::with_usage(s, owned(USAGE_CONFIG)))
        },
    }
}

} // verus!
