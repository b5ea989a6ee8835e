//! Turning one flag and its text into a value.
//!
//! `apply_flag` is the single table of every flag minitcp accepts: what it is
//! called, whether it takes a value, and what that value must look like. The
//! small parsers below it are shared with minitcp.toml, so `--addr 10.0.0.3`
//! and `addr = "10.0.0.3"` are checked by exactly the same code.

use vstd::prelude::*;
use crate::proto::ethernet::MacAddress;
use crate::proto::ipv4::Ipv4Addr;
use crate::parse::{low_u16, low_u8, narrow_u16, narrow_u8, ipv4_spec, lower, mac_from_text, mac_spec, parse_ipv4_addr, parse_u64, parse_u64_spec, trim, trimmed};
use crate::stack::DropKind;
use crate::text::{owned, push_str, split_chars, split_on, str_eq};
use super::error::{
    ParseError, ParseErrorView, missing_value, missing_value_view, msg_from, msg_view, usage_view,
};
use super::options::{Partial, PartialView, drop_kind_named, unknown_drop_kind};
use super::usage::{flag_usage, flag_usage_text};

verus! {

/// `invalid MAC: ` and the text.
pub open spec fn bad_mac(s: Seq<char>) -> Seq<char> {
    "invalid MAC: "@ + s
}

/// Reads a MAC address such as `02:00:00:00:00:01`; the error quotes the
/// text.
pub fn parse_mac(s: &str) -> (r: Result<MacAddress, String>)
    ensures
        match mac_spec(s@) {
            Some(m) => r == Ok::<MacAddress, String>(m),
            None => r matches Err(e) && e@ == bad_mac(s@),
        },
{
    match mac_from_text(s) {
        Some(m) => Ok(m),
        None => {
            let mut e = owned("invalid MAC: ");
            push_str(&mut e, s);
            Err(e)
        },
    }
}

/// What `parse_ipv4` gives for a text.
pub open spec fn ipv4_result(s: Seq<char>) -> Result<Ipv4Addr, ParseErrorView> {
    match ipv4_spec(s) {
        Some(a) => Ok(a),
        None => Err(msg_view("invalid IPv4 address: "@ + s)),
    }
}

/// Reads a dotted-quad IPv4 address.
pub fn parse_ipv4(s: &str) -> (r: Result<Ipv4Addr, ParseError>)
    ensures
        match ipv4_result(s@) {
            Ok(a) => r == Ok::<Ipv4Addr, ParseError>(a),
            Err(e) => r matches Err(x) && x@ == e,
        },
{
    match parse_ipv4_addr(s) {
        Some(a) => Ok(a),
        None => {
            let mut m = owned("invalid IPv4 address: ");
            push_str(&mut m, s);
            Err(ParseError::msg(m))
        },
    }
}

/// What `parse_count` gives for a text.
pub open spec fn count_result(s: Seq<char>) -> Result<u64, ParseErrorView> {
    match parse_u64_spec(s) {
        Some(n) => Ok(n),
        None => Err(msg_view("invalid number: "@ + s)),
    }
}

/// Reads a decimal count.
pub fn parse_count(s: &str) -> (r: Result<u64, ParseError>)
    ensures
        match count_result(s@) {
            Ok(n) => r == Ok::<u64, ParseError>(n),
            Err(e) => r matches Err(x) && x@ == e,
        },
{
    match parse_u64(s) {
        Some(n) => Ok(n),
        None => {
            let mut m = owned("invalid number: ");
            push_str(&mut m, s);
            Err(ParseError::msg(m))
        },
    }
}

/// The drop kinds named by the first `n` pieces of a comma list: blank
/// pieces are skipped, a name already listed is not listed again, and the
/// first bad name is the error.
pub open spec fn drop_fold(parts: Seq<Seq<char>>, n: nat) -> Result<Seq<DropKind>, ParseErrorView>
    decreases n,
{
    if n == 0 {
        Ok(Seq::empty())
    } else {
        match drop_fold(parts, (n - 1) as nat) {
            Err(e) => Err(e),
            Ok(acc) => {
                let p = parts[n - 1];
                if trimmed(p).len() == 0 {
                    Ok(acc)
                } else {
                    match drop_kind_named(lower(trimmed(p))) {
                        None => Err(unknown_drop_kind(lower(trimmed(p)))),
                        Some(k) => if acc.contains(k) {
                            Ok(acc)
                        } else {
                            Ok(acc.push(k))
                        },
                    }
                }
            },
        }
    }
}

/// What `parse_drop_list` gives for a text: the kinds it names, in order, or
/// `--drop needs a value` when it names none.
pub open spec fn drop_list_result(s: Seq<char>) -> Result<Seq<DropKind>, ParseErrorView> {
    let parts = split_on(s, ',');
    match drop_fold(parts, parts.len()) {
        Err(e) => Err(e),
        Ok(l) => if l.len() == 0 {
            Err(missing_value_view("--drop"@))
        } else {
            Ok(l)
        },
    }
}

/// The kind a piece of a comma list names: none for a blank piece or a
/// name nobody knows.
pub open spec fn piece_kind(p: Seq<char>) -> Option<DropKind> {
    if trimmed(p).len() == 0 {
        None
    } else {
        drop_kind_named(lower(trimmed(p)))
    }
}

/// A piece that is not blank and names no drop kind.
pub open spec fn refused_piece(p: Seq<char>) -> bool {
    trimmed(p).len() != 0 && drop_kind_named(lower(trimmed(p))) is None
}

/// Some piece before `n` names `k`.
pub open spec fn named_before(parts: Seq<Seq<char>>, n: int, k: DropKind) -> bool {
    exists|i: int| 0 <= i < n && #[trigger] piece_kind(parts[i]) == Some(k)
}

/// What the first `n` pieces give when none of them is refused: each kind
/// once, every kind some piece names, in the order the kinds are first
/// named.
#[verifier::opaque]
pub open spec fn lists_in_first_order(parts: Seq<Seq<char>>, n: int, acc: Seq<DropKind>) -> bool {
    &&& forall|a: int, b: int| 0 <= a < b < acc.len() ==> acc[a] != acc[b]
    &&& forall|k: DropKind| acc.contains(k) <==> named_before(parts, n, k)
    &&& forall|a: int, b: int, j: int|
        0 <= a < b < acc.len() && 0 <= j < n && #[trigger] piece_kind(parts[j]) == Some(#[trigger] acc[b])
            ==> named_before(parts, j, #[trigger] acc[a])
}

proof fn lemma_drop_fold_facts(parts: Seq<Seq<char>>, n: nat)
    requires
        n <= parts.len(),
    ensures
        (forall|i: int| 0 <= i < n ==> !refused_piece(#[trigger] parts[i])) ==> (drop_fold(parts, n) matches Ok(acc)
            && lists_in_first_order(parts, n as int, acc)),
        forall|i: int|
            0 <= i < n && #[trigger] refused_piece(parts[i]) && (forall|j: int| 0 <= j < i ==> !refused_piece(parts[j]))
                ==> drop_fold(parts, n) == Err::<Seq<DropKind>, ParseErrorView>(
                unknown_drop_kind(lower(trimmed(parts[i]))),
            ),
    decreases n,
{
    reveal(lists_in_first_order);
    if n > 0 {
        let m = (n - 1) as nat;
        lemma_drop_fold_facts(parts, m);
        let p = parts[m as int];
        if forall|i: int| 0 <= i < n ==> !refused_piece(#[trigger] parts[i]) {
            assert(forall|i: int| 0 <= i < m ==> !refused_piece(#[trigger] parts[i]));
            let acc = drop_fold(parts, m)->Ok_0;
            assert(!refused_piece(p));
            let r = drop_fold(parts, n)->Ok_0;
            assert forall|k: DropKind| named_before(parts, n as int, k) <==> (named_before(parts, m as int, k)
                || piece_kind(p) == Some(k)) by {
                if named_before(parts, n as int, k) {
                    let i = choose|i: int| 0 <= i < n && #[trigger] piece_kind(parts[i]) == Some(k);
                    if i < m {
                        assert(named_before(parts, m as int, k));
                    }
                }
                if named_before(parts, m as int, k) {
                    let i = choose|i: int| 0 <= i < m && #[trigger] piece_kind(parts[i]) == Some(k);
                    assert(0 <= i < n && piece_kind(parts[i]) == Some(k));
                }
                if piece_kind(p) == Some(k) {
                    assert(0 <= m < n && piece_kind(parts[m as int]) == Some(k));
                }
            }
            match piece_kind(p) {
                None => {
                    assert(r == acc);
                    assert forall|a: int, b: int, j: int|
                        0 <= a < b < r.len() && 0 <= j < n && #[trigger] piece_kind(parts[j]) == Some(#[trigger] r[b])
                            implies named_before(parts, j, #[trigger] r[a]) by {
                        assert(j < m);
                    }
                },
                Some(k) => {
                    if acc.contains(k) {
                        assert(r == acc);
                        assert forall|a: int, b: int, j: int|
                            0 <= a < b < r.len() && 0 <= j < n && #[trigger] piece_kind(parts[j]) == Some(#[trigger] r[b])
                                implies named_before(parts, j, #[trigger] r[a]) by {
                            if j == m {
                                assert(named_before(parts, m as int, r[b]));
                                let j2 = choose|i: int| 0 <= i < m && #[trigger] piece_kind(parts[i]) == Some(r[b]);
                                assert(named_before(parts, j2, r[a]));
                                let i2 = choose|i: int| 0 <= i < j2 && #[trigger] piece_kind(parts[i]) == Some(r[a]);
                                assert(0 <= i2 < j && piece_kind(parts[i2]) == Some(r[a]));
                            }
                        }
                    } else {
                        assert(r == acc.push(k));
                        assert forall|kk: DropKind| r.contains(kk) <==> (acc.contains(kk) || kk == k) by {
                            if r.contains(kk) {
                                let x = choose|x: int| 0 <= x < r.len() && r[x] == kk;
                                if x < acc.len() {
                                    assert(acc[x] == kk);
                                }
                            }
                            if acc.contains(kk) {
                                let x = choose|x: int| 0 <= x < acc.len() && acc[x] == kk;
                                assert(r[x] == kk);
                            }
                            if kk == k {
                                assert(r[acc.len() as int] == kk);
                            }
                        }
                        assert forall|a: int, b: int| 0 <= a < b < r.len() implies r[a] != r[b] by {
                            if b == acc.len() {
                                assert(acc.contains(r[a]));
                            }
                        }
                        assert forall|a: int, b: int, j: int|
                            0 <= a < b < r.len() && 0 <= j < n && #[trigger] piece_kind(parts[j]) == Some(#[trigger] r[b])
                                implies named_before(parts, j, #[trigger] r[a]) by {
                            if b == acc.len() {
                                assert(r[b] == k);
                                if j < m {
                                    assert(named_before(parts, m as int, k));
                                }
                                assert(j == m);
                                assert(acc.contains(r[a]));
                                assert(named_before(parts, m as int, r[a]));
                            } else {
                                assert(r[b] == acc[b]);
                                assert(r[a] == acc[a]);
                                if j == m {
                                    assert(acc.contains(k));
                                }
                            }
                        }
                    }
                },
            }
        }
        assert forall|i: int|
            0 <= i < n && #[trigger] refused_piece(parts[i]) && (forall|j: int| 0 <= j < i ==> !refused_piece(parts[j]))
                implies drop_fold(parts, n) == Err::<Seq<DropKind>, ParseErrorView>(
                unknown_drop_kind(lower(trimmed(parts[i]))),
            ) by {
            if i == m {
                assert(forall|j: int| 0 <= j < m ==> !refused_piece(#[trigger] parts[j]));
            }
        }
    }
}

proof fn lemma_drop_list_refused(s: Seq<char>, i: int)
    requires
        0 <= i < split_on(s, ',').len(),
        refused_piece(split_on(s, ',')[i]),
        forall|j: int| 0 <= j < i ==> !refused_piece(#[trigger] split_on(s, ',')[j]),
    ensures
        drop_list_result(s) == Err::<Seq<DropKind>, ParseErrorView>(
            unknown_drop_kind(lower(trimmed(split_on(s, ',')[i]))),
        ),
{
    let parts = split_on(s, ',');
    lemma_drop_fold_facts(parts, parts.len());
}

proof fn lemma_drop_list_accepted(s: Seq<char>)
    requires
        forall|i: int| 0 <= i < split_on(s, ',').len() ==> !refused_piece(#[trigger] split_on(s, ',')[i]),
    ensures
        ({
            let parts = split_on(s, ',');
            &&& (forall|i: int| 0 <= i < parts.len() ==> #[trigger] piece_kind(parts[i]) is None)
                ==> drop_list_result(s) == Err::<Seq<DropKind>, ParseErrorView>(missing_value_view("--drop"@))
            &&& (exists|i: int| 0 <= i < parts.len() && #[trigger] piece_kind(parts[i]) is Some) ==> (drop_list_result(s) matches Ok(v)
                && lists_in_first_order(parts, parts.len() as int, v))
        }),
{
    let parts = split_on(s, ',');
    lemma_drop_fold_facts(parts, parts.len());
    let acc = drop_fold(parts, parts.len())->Ok_0;
    if forall|i: int| 0 <= i < parts.len() ==> #[trigger] piece_kind(parts[i]) is None {
        if acc.len() > 0 {
            reveal(lists_in_first_order);
            assert(acc.contains(acc[0]));
            assert(named_before(parts, parts.len() as int, acc[0]));
            let i = choose|i: int| 0 <= i < parts.len() && #[trigger] piece_kind(parts[i]) == Some(acc[0]);
            assert(piece_kind(parts[i]) is None);
        }
    }
    if exists|i: int| 0 <= i < parts.len() && #[trigger] piece_kind(parts[i]) is Some {
        let i = choose|i: int| 0 <= i < parts.len() && #[trigger] piece_kind(parts[i]) is Some;
        let k = piece_kind(parts[i])->0;
        assert(named_before(parts, parts.len() as int, k));
        assert(acc.contains(k)) by {
            reveal(lists_in_first_order);
        }
    }
}

/// Reading a `--drop` list: the first piece that names no kind is the error;
/// a list naming nothing is `--drop needs a value`; otherwise it is each
/// kind the list names, once, in the order they are first named.
pub proof fn lemma_drop_list_reads_in_order(s: Seq<char>)
    ensures
        ({
            let parts = split_on(s, ',');
            &&& forall|i: int|
                0 <= i < parts.len() && #[trigger] refused_piece(parts[i]) && (forall|j: int|
                    0 <= j < i ==> !refused_piece(parts[j])) ==> drop_list_result(s) == Err::<
                    Seq<DropKind>,
                    ParseErrorView,
                >(unknown_drop_kind(lower(trimmed(parts[i]))))
            &&& (forall|i: int| 0 <= i < parts.len() ==> #[trigger] piece_kind(parts[i]) is None && !refused_piece(parts[i]))
                ==> drop_list_result(s) == Err::<Seq<DropKind>, ParseErrorView>(missing_value_view("--drop"@))
            &&& (forall|i: int| 0 <= i < parts.len() ==> !refused_piece(#[trigger] parts[i])) && (exists|i: int|
                0 <= i < parts.len() && #[trigger] piece_kind(parts[i]) is Some) ==> (drop_list_result(s) matches Ok(v)
                && lists_in_first_order(parts, parts.len() as int, v))
        }),
{
    let parts = split_on(s, ',');
    assert forall|i: int|
        0 <= i < parts.len() && #[trigger] refused_piece(parts[i]) && (forall|j: int|
            0 <= j < i ==> !refused_piece(parts[j])) implies drop_list_result(s) == Err::<
            Seq<DropKind>,
            ParseErrorView,
        >(unknown_drop_kind(lower(trimmed(parts[i])))) by {
        lemma_drop_list_refused(s, i);
    }
    if forall|i: int| 0 <= i < parts.len() ==> !refused_piece(#[trigger] parts[i]) {
        lemma_drop_list_accepted(s);
    }
    if forall|i: int| 0 <= i < parts.len() ==> #[trigger] piece_kind(parts[i]) is None && !refused_piece(parts[i]) {
        assert forall|i: int| 0 <= i < parts.len() implies !refused_piece(#[trigger] parts[i]) by {
            assert(piece_kind(parts[i]) is None && !refused_piece(parts[i]));
        }
        assert forall|i: int| 0 <= i < parts.len() implies #[trigger] piece_kind(parts[i]) is None by {
            assert(piece_kind(parts[i]) is None && !refused_piece(parts[i]));
        }
        lemma_drop_list_accepted(s);
    }
}

fn contains_kind(ks: &Vec<DropKind>, k: DropKind) -> (r: bool)
    ensures
        r == ks@.contains(k),
{
    let mut i: usize = 0;
    while i < ks.len()
        invariant
            i <= ks@.len(),
            forall|j: int| 0 <= j < i ==> ks@[j] != k,
        decreases ks@.len() - i,
    {
        if ks[i] == k {
            assert(ks@[i as int] == k);
            return true;
        }
        i = i + 1;
    }
    false
}

/// Reads a comma list of drop kinds such as `arp,icmp`.
pub fn parse_drop_list(s: &str) -> (r: Result<Vec<DropKind>, ParseError>)
    ensures
        match drop_list_result(s@) {
            Ok(l) => r matches Ok(v) && v@ == l,
            Err(e) => r matches Err(x) && x@ == e,
        },
{
    let parts = split_chars(s, ',');
    let ghost ps = split_on(s@, ',');
    let mut out: Vec<DropKind> = Vec::new();
    let mut i: usize = 0;
    while i < parts.len()
        invariant
            parts@.len() == ps.len(),
            ps == split_on(s@, ','),
            forall|k: int| 0 <= k < parts@.len() ==> #[trigger] parts@[k]@ == ps[k],
            i <= parts@.len(),
            drop_fold(ps, i as nat) == Ok::<Seq<DropKind>, ParseErrorView>(out@),
        decreases parts@.len() - i,
    {
        let t = trim(parts[i].as_str());
        assert(parts@[i as int]@ == ps[i as int]);
        if t.as_str().is_empty() {
            i = i + 1;
        } else {
            let kind = match DropKind::parse(parts[i].as_str()) {
                Ok(kind) => kind,
                Err(e) => {
                    proof {
                        assert(drop_fold(ps, (i + 1) as nat) == Err::<Seq<DropKind>, ParseErrorView>(e@));
                        lemma_drop_fold_stays_err(ps, (i + 1) as nat, ps.len(), e@);
                    }
                    return Err(e);
                },
            };
            if !contains_kind(&out, kind) {
                out.push(kind);
            }
            i = i + 1;
        }
    }
    if out.len() == 0 {
        return Err(missing_value("--drop"));
    }
    Ok(out)
}

proof fn lemma_drop_fold_stays_err(parts: Seq<Seq<char>>, n: nat, m: nat, e: ParseErrorView)
    requires
        n <= m,
        drop_fold(parts, n) == Err::<Seq<DropKind>, ParseErrorView>(e),
    ensures
        drop_fold(parts, m) == Err::<Seq<DropKind>, ParseErrorView>(e),
    decreases m - n,
{
    if n < m {
        lemma_drop_fold_stays_err(parts, n, (m - 1) as nat, e);
    }
}

/// A number checked against its upper bound, with the message to give when
/// it is over.
pub open spec fn bounded(s: Seq<char>, max: u64, too_big: Seq<char>, flag: Seq<char>) -> Result<u64, ParseErrorView> {
    match count_result(s) {
        Err(e) => Err(e),
        Ok(n) => if n > max {
            Err(usage_view(too_big, flag_usage_text(flag)))
        } else {
            Ok(n)
        },
    }
}

/// The flags that take a value.
pub open spec fn takes_value(flag: Seq<char>) -> bool {
    flag == "--fwd"@ || flag == "--listen"@ || flag == "--iface"@ || flag == "--addr"@ || flag == "--mac"@ || flag
        == "--linux-addr"@ || flag == "--tun"@ || flag == "--write"@ || flag == "--config"@ || flag == "--drop"@
        || flag == "--drop-pct"@ || flag == "--ttl"@ || flag == "--id"@ || flag == "-c"@ || flag == "--count"@
}

/// What a value-taking flag does to a layer, given its value.
pub open spec fn valued_effect(p: PartialView, flag: Seq<char>, v: Seq<char>) -> Result<PartialView, ParseErrorView> {
    if flag == "--fwd"@ {
        Ok(PartialView { fwd: Some(v), ..p })
    } else if flag == "--listen"@ {
        Ok(PartialView { listen: Some(v), ..p })
    } else if flag == "--iface"@ {
        Ok(PartialView { iface: Some(v), ..p })
    } else if flag == "--tun"@ {
        Ok(PartialView { tun: Some(v), ..p })
    } else if flag == "--write"@ {
        Ok(PartialView { write: Some(v), ..p })
    } else if flag == "--config"@ {
        Ok(PartialView { config: Some(v), ..p })
    } else if flag == "--addr"@ {
        match ipv4_result(v) {
            Ok(a) => Ok(PartialView { addr: Some(a), ..p }),
            Err(e) => Err(e),
        }
    } else if flag == "--linux-addr"@ {
        match ipv4_result(v) {
            Ok(a) => Ok(PartialView { linux_addr: Some(a), ..p }),
            Err(e) => Err(e),
        }
    } else if flag == "--mac"@ {
        match mac_spec(v) {
            Some(m) => Ok(PartialView { mac: Some(m), ..p }),
            None => Err(msg_view(bad_mac(v))),
        }
    } else if flag == "--drop"@ {
        match drop_list_result(v) {
            Ok(l) => Ok(PartialView { drop: Some(l), ..p }),
            Err(e) => Err(e),
        }
    } else if flag == "--drop-pct"@ {
        match bounded(v, 100, "drop-pct must be 0-100"@, "--drop-pct"@) {
            Ok(n) => Ok(PartialView { drop_pct: Some(low_u8(n)), ..p }),
            Err(e) => Err(e),
        }
    } else if flag == "--ttl"@ {
        match bounded(v, 255, "ttl must be 0-255"@, "--ttl"@) {
            Ok(n) => Ok(PartialView { ttl: Some(low_u8(n)), ..p }),
            Err(e) => Err(e),
        }
    } else if flag == "--id"@ {
        match bounded(v, 65535, "id must be 0-65535"@, "--id"@) {
            Ok(n) => Ok(PartialView { icmp_id: Some(low_u16(n)), ..p }),
            Err(e) => Err(e),
        }
    } else {
        match count_result(v) {
            Ok(n) => Ok(PartialView { count: Some(n), ..p }),
            Err(e) => Err(e),
        }
    }
}

/// What a flag does to a layer: a switch sets its setting, a flag with a
/// value checks and sets it (or needs one), and anything else is an unknown
/// flag.
pub open spec fn flag_effect(p: PartialView, flag: Seq<char>, value: Option<Seq<char>>) -> Result<PartialView, ParseErrorView> {
    if flag == "--quiet"@ || flag == "-q"@ {
        Ok(PartialView { quiet: Some(true), ..p })
    } else if flag == "--hex"@ {
        Ok(PartialView { hex: Some(true), ..p })
    } else if flag == "--offline"@ {
        Ok(PartialView { offline: Some(true), ..p })
    } else if flag == "--once"@ {
        Ok(PartialView { count: Some(1), ..p })
    } else if takes_value(flag) {
        match value {
            None => Err(missing_value_view(flag)),
            Some(v) => valued_effect(p, flag, v),
        }
    } else {
        Err(msg_view("unknown flag '"@ + flag + "'"@))
    }
}

/// Reads a number for `flag` and checks it against `max`.
fn bounded_number(v: &str, max: u64, too_big: &str, flag: &str) -> (r: Result<u64, ParseError>)
    ensures
        match bounded(v@, max, too_big@, flag@) {
            Ok(n) => r == Ok::<u64, ParseError>(n),
            Err(e) => r matches Err(x) && x@ == e,
        },
{
    let n = parse_count(v)?;
    if n > max {
        return Err(ParseError::with_usage(owned(too_big), flag_usage(flag)));
    }
    Ok(n)
}

/// Applies a flag that takes a value.
fn apply_valued(partial: &mut Partial, flag: &str, v: &str) -> (r: Result<(), ParseError>)
    requires
        takes_value(flag@),
    ensures
        match valued_effect(old(partial)@, flag@, v@) {
            Ok(q) => r is Ok && final(partial)@ == q,
            Err(e) => r matches Err(x) && x@ == e && final(partial)@ == old(partial)@,
        },
{
    if str_eq(flag, "--fwd") {
        partial.fwd = Some(owned(v));
    } else if str_eq(flag, "--listen") {
        partial.listen = Some(owned(v));
    } else if str_eq(flag, "--iface") {
        partial.iface = Some(owned(v));
    } else if str_eq(flag, "--tun") {
        partial.tun = Some(owned(v));
    } else if str_eq(flag, "--write") {
        partial.write = Some(owned(v));
    } else if str_eq(flag, "--config") {
        partial.config = Some(owned(v));
    } else if str_eq(flag, "--addr") {
        partial.addr = Some(parse_ipv4(v)?);
    } else if str_eq(flag, "--linux-addr") {
        partial.linux_addr = Some(parse_ipv4(v)?);
    } else if str_eq(flag, "--mac") {
        match parse_mac(v) {
            Ok(m) => partial.mac = Some(m),
            Err(e) => return Err(ParseError::msg(e)),
        }
    } else if str_eq(flag, "--drop") {
        partial.drop = Some(parse_drop_list(v)?);
    } else if str_eq(flag, "--drop-pct") {
        let n = bounded_number(v, 100, "drop-pct must be 0-100", "--drop-pct")?;
        partial.drop_pct = Some(narrow_u8(n));
    } else if str_eq(flag, "--ttl") {
        let n = bounded_number(v, 255, "ttl must be 0-255", "--ttl")?;
        partial.ttl = Some(narrow_u8(n));
    } else if str_eq(flag, "--id") {
        let n = bounded_number(v, 65535, "id must be 0-65535", "--id")?;
        partial.icmp_id = Some(narrow_u16(n));
    } else {
        partial.count = Some(parse_count(v)?);
    }
    Ok(())
}

/// Applies one flag, with its value if it came with one, to a layer.
pub fn apply_flag(partial: &mut Partial, flag: &str, value: Option<&str>) -> (r: Result<(), ParseError>)
    ensures
        match flag_effect(old(partial)@, flag@, match value {
            Some(v) => Some(v@),
            None => None,
        }) {
            Ok(q) => r is Ok && final(partial)@ == q,
            Err(e) => r matches Err(x) && x@ == e && final(partial)@ == old(partial)@,
        },
{
    if str_eq(flag, "--quiet") || str_eq(flag, "-q") {
        partial.quiet = Some(true);
        return Ok(());
    }
    if str_eq(flag, "--hex") {
        partial.hex = Some(true);
        return Ok(());
    }
    if str_eq(flag, "--offline") {
        partial.offline = Some(true);
        return Ok(());
    }
    if str_eq(flag, "--once") {
        partial.count = Some(1);
        return Ok(());
    }
    if str_eq(flag, "--fwd") || str_eq(flag, "--listen") || str_eq(flag, "--iface") || str_eq(flag, "--addr")
        || str_eq(flag, "--mac") || str_eq(flag, "--linux-addr") || str_eq(flag, "--tun") || str_eq(flag, "--write")
        || str_eq(flag, "--config") || str_eq(flag, "--drop") || str_eq(flag, "--drop-pct") || str_eq(flag, "--ttl")
        || str_eq(flag, "--id") || str_eq(flag, "-c") || str_eq(flag, "--count") {
        return match value {
            None => Err(missing_value(flag)),
            Some(v) => apply_valued(partial, flag, v),
        };
    }
    let mut m = owned("unknown flag '");
    push_str(&mut m, flag);
    push_str(&mut m, "'");
    Err(ParseError::msg(m))
}

} // verus!
