//! What a child `minitcp stack` reads back from the arguments it is given:
//! the same settings that shaped them.

use vstd::prelude::*;
use vstd::seq_lib::lemma_concat_associative;
use crate::stack::{DropKind, drop_kind_name};
use crate::text::{decimal_u16, decimal_u64, decimal_u8, lemma_split_none, lemma_split_piece, split_on};
use crate::parse::{
    lemma_count_text_reads_back, lemma_ipv4_text_reads_back, lemma_mac_text_reads_back, lemma_u16_text_reads_back,
    lemma_u8_text_reads_back,
};
use crate::proto::ethernet::{MacAddress, mac_text};
use crate::proto::ipv4::{Ipv4Addr, ipv4_text};
use super::args::{cli_from, cli_step, then_at};
use super::command::CommandView;
use super::error::ParseErrorView;
use super::flags::{drop_fold, drop_list_result, flag_effect, takes_value};
use super::laws::{lemma_drop_kind_name_reads_back, lemma_flag_facts, lemma_reading_depends_on_what_follows, lemma_switch_facts, switch_flag};
use super::options::{ConfigView, PartialView, child_args, drop_list_text, empty_partial};
use super::args::cli_result;
use super::settle::{ConfigFile, settled};

verus! {

/// The names of some drop kinds, one piece each.
pub open spec fn names_of(ks: Seq<DropKind>) -> Seq<Seq<char>> {
    Seq::new(ks.len(), |i: int| drop_kind_name(ks[i]))
}

proof fn lemma_name_has_no_comma(k: DropKind)
    ensures
        forall|j: int| 0 <= j < drop_kind_name(k).len() ==> #[trigger] drop_kind_name(k)[j] != ',',
        drop_kind_name(k).len() > 0,
{
    reveal_strlit("arp");
    reveal_strlit("icmp");
    reveal_strlit("ip");
}

proof fn lemma_list_text_front(ks: Seq<DropKind>)
    requires
        ks.len() >= 2,
    ensures
        drop_list_text(ks) == drop_kind_name(ks[0]) + seq![','] + drop_list_text(ks.drop_first()),
    decreases ks.len(),
{
    if ks.len() > 2 {
        let a = ks.drop_last();
        let b = ks.drop_first();
        lemma_list_text_front(a);
        assert(a.drop_first() =~= b.drop_last());
        assert(b.last() == ks.last());
        assert(a[0] == ks[0]);
        assert(drop_list_text(ks) == drop_list_text(a) + seq![','] + drop_kind_name(ks.last()));
        assert(drop_list_text(b) == drop_list_text(b.drop_last()) + seq![','] + drop_kind_name(b.last()));
        assert(drop_list_text(ks) =~= drop_kind_name(ks[0]) + seq![','] + drop_list_text(b));
    } else {
        assert(ks.drop_last() =~= seq![ks[0]]);
        assert(ks.drop_first() =~= seq![ks[1]]);
        assert(drop_list_text(ks.drop_last()) == drop_kind_name(ks[0]));
        assert(drop_list_text(ks.drop_first()) == drop_kind_name(ks[1]));
        assert(ks.last() == ks[1]);
        assert(drop_list_text(ks) == drop_list_text(ks.drop_last()) + seq![','] + drop_kind_name(ks.last()));
    }
}

proof fn lemma_list_text_pieces(ks: Seq<DropKind>)
    requires
        ks.len() >= 1,
    ensures
        split_on(drop_list_text(ks), ',') == names_of(ks),
    decreases ks.len(),
{
    lemma_name_has_no_comma(ks[0]);
    if ks.len() == 1 {
        lemma_split_none(drop_kind_name(ks[0]), ',');
        assert(names_of(ks) =~= seq![drop_kind_name(ks[0])]);
    } else {
        lemma_list_text_front(ks);
        lemma_list_text_pieces(ks.drop_first());
        lemma_split_piece(drop_kind_name(ks[0]), ',', drop_list_text(ks.drop_first()));
        assert(names_of(ks) =~= seq![drop_kind_name(ks[0])] + names_of(ks.drop_first()));
    }
}

proof fn lemma_names_fold(ks: Seq<DropKind>, n: nat)
    requires
        n <= ks.len(),
        forall|a: int, b: int| 0 <= a < b < ks.len() ==> ks[a] != ks[b],
    ensures
        drop_fold(names_of(ks), n) == Ok::<Seq<DropKind>, super::error::ParseErrorView>(ks.subrange(0, n as int)),
    decreases n,
{
    if n == 0 {
        assert(ks.subrange(0, 0) =~= Seq::<DropKind>::empty());
    } else {
        let m = (n - 1) as nat;
        lemma_names_fold(ks, m);
        let k = ks[m as int];
        lemma_drop_kind_name_reads_back(k);
        lemma_name_has_no_comma(k);
        assert(names_of(ks)[m as int] == drop_kind_name(k));
        reveal_strlit("arp");
        reveal_strlit("icmp");
        reveal_strlit("ip");
        assert(crate::parse::trimmed(drop_kind_name(k)).len() != 0);
        assert(!ks.subrange(0, m as int).contains(k)) by {
            if ks.subrange(0, m as int).contains(k) {
                let x = choose|x: int| 0 <= x < m && ks.subrange(0, m as int)[x] == k;
                assert(ks[x] == ks[m as int]);
            }
        }
        assert(ks.subrange(0, m as int).push(k) =~= ks.subrange(0, n as int));
    }
}

/// A list of distinct drop kinds, written as `--drop` takes it, reads back as
/// that list.
pub proof fn lemma_drop_list_text_reads_back(ks: Seq<DropKind>)
    requires
        ks.len() >= 1,
        forall|a: int, b: int| 0 <= a < b < ks.len() ==> ks[a] != ks[b],
    ensures
        drop_list_result(drop_list_text(ks)) == Ok::<Seq<DropKind>, super::error::ParseErrorView>(ks),
{
    lemma_list_text_pieces(ks);
    lemma_names_fold(ks, ks.len());
    assert(ks.subrange(0, ks.len() as int) =~= ks);
}

/// The arguments one setting is spelled as: a flag and its value, a switch,
/// or nothing.
pub open spec fn segment_reads(seg: Seq<Seq<char>>, p: PartialView, q: PartialView) -> bool {
    ||| (seg.len() == 0 && q == p)
    ||| (seg.len() == 2 && takes_value(seg[0]) && flag_effect(p, seg[0], Some(seg[1])) == Ok::<PartialView, ParseErrorView>(q))
    ||| (seg.len() == 1 && switch_flag(seg[0]) && flag_effect(p, seg[0], None) == Ok::<PartialView, ParseErrorView>(q))
}

/// Reading past one setting's arguments applies that setting.
proof fn lemma_segment(seg: Seq<Seq<char>>, rest: Seq<Seq<char>>, p: PartialView, q: PartialView)
    requires
        segment_reads(seg, p, q),
    ensures
        cli_from(seg + rest, 0, p) == cli_from(rest, 0, q),
{
    let a = seg + rest;
    if seg.len() == 0 {
        assert(a =~= rest);
    } else if seg.len() == 2 && takes_value(seg[0]) && flag_effect(p, seg[0], Some(seg[1])) == Ok::<PartialView, ParseErrorView>(q) {
        lemma_flag_facts(seg[0]);
        assert(a[0] == seg[0] && a[1] == seg[1]);
        assert(cli_step(a, 0, p) == then_at(2, flag_effect(p, seg[0], Some(seg[1]))));
        lemma_reading_depends_on_what_follows(a, 2, q);
        assert(a.skip(2) =~= rest);
    } else {
        lemma_switch_facts(seg[0]);
        assert(a[0] == seg[0]);
        assert(cli_step(a, 0, p) == then_at(1, flag_effect(p, seg[0], None)));
        lemma_reading_depends_on_what_follows(a, 1, q);
        assert(a.skip(1) =~= rest);
    }
}

/// Reading past `stack` names the command.
proof fn lemma_stack_word(rest: Seq<Seq<char>>, p: PartialView)
    requires
        p.command is None,
    ensures
        cli_from(seq!["stack"@] + rest, 0, p) == cli_from(rest, 0, PartialView { command: Some(CommandView::Stack), ..p }),
{
    reveal_strlit("stack");
    reveal_strlit("-");
    reveal_strlit("help");
    reveal_strlit("run");
    let a = seq!["stack"@] + rest;
    assert(a[0] == "stack"@);
    assert(!crate::text::has_prefix(a[0], "-"@)) by {
        assert(a[0].subrange(0, 1)[0] == 's');
    }
    assert("stack"@ != "help"@ && "stack"@ != "run"@) by {
        assert("stack"@.len() == 5);
    }
    let q = PartialView { command: Some(CommandView::Stack), ..p };
    assert(cli_step(a, 0, p) == then_at(1, Ok::<PartialView, ParseErrorView>(q)));
    lemma_reading_depends_on_what_follows(a, 1, q);
    assert(a.skip(1) =~= rest);
}

/// How the flags are spelled, as far as telling them apart needs.
pub(crate) proof fn lemma_flag_spellings()
    ensures
        "--quiet"@.len() == 7 && "--quiet"@[2] == 'q',
        "--hex"@.len() == 5 && "--hex"@[2] == 'h',
        "--offline"@.len() == 9 && "--offline"@[2] == 'o',
        "--once"@.len() == 6 && "--once"@[2] == 'o',
        "--fwd"@.len() == 5 && "--fwd"@[2] == 'f',
        "--listen"@.len() == 8 && "--listen"@[2] == 'l',
        "--iface"@.len() == 7 && "--iface"@[2] == 'i',
        "--tun"@.len() == 5 && "--tun"@[3] == 'u',
        "--write"@.len() == 7 && "--write"@[2] == 'w',
        "--config"@.len() == 8 && "--config"@[2] == 'c',
        "--addr"@.len() == 6 && "--addr"@[2] == 'a',
        "--linux-addr"@.len() == 12 && "--linux-addr"@[2] == 'l',
        "--mac"@.len() == 5 && "--mac"@[2] == 'm',
        "--drop"@.len() == 6 && "--drop"@[2] == 'd',
        "--drop-pct"@.len() == 10 && "--drop-pct"@[2] == 'd',
        "--ttl"@.len() == 5 && "--ttl"@[3] == 't',
        "--id"@.len() == 4 && "--id"@[2] == 'i',
        "--count"@.len() == 7 && "--count"@[2] == 'c',
        "-q"@.len() == 2 && "-q"@[1] == 'q',
        "-c"@.len() == 2 && "-c"@[1] == 'c',
        "--tun"@[2] == 't' && "--ttl"@[2] == 't',
{
    reveal_strlit("--quiet");
    reveal_strlit("--hex");
    reveal_strlit("--offline");
    reveal_strlit("--once");
    reveal_strlit("--fwd");
    reveal_strlit("--listen");
    reveal_strlit("--iface");
    reveal_strlit("--tun");
    reveal_strlit("--write");
    reveal_strlit("--config");
    reveal_strlit("--addr");
    reveal_strlit("--linux-addr");
    reveal_strlit("--mac");
    reveal_strlit("--drop");
    reveal_strlit("--drop-pct");
    reveal_strlit("--ttl");
    reveal_strlit("--id");
    reveal_strlit("--count");
    reveal_strlit("-q");
    reveal_strlit("-c");
}

/// What the flags a child is given do to a layer.
proof fn lemma_text_flags(p: PartialView, iface: Seq<char>, tun: Seq<char>, w: Seq<char>, f: Seq<char>)
    ensures
        takes_value("--iface"@) && flag_effect(p, "--iface"@, Some(iface)) == Ok::<PartialView, ParseErrorView>(PartialView { iface: Some(iface), ..p }),
        takes_value("--tun"@) && flag_effect(p, "--tun"@, Some(tun)) == Ok::<PartialView, ParseErrorView>(PartialView { tun: Some(tun), ..p }),
        takes_value("--write"@) && flag_effect(p, "--write"@, Some(w)) == Ok::<PartialView, ParseErrorView>(PartialView { write: Some(w), ..p }),
        takes_value("--fwd"@) && flag_effect(p, "--fwd"@, Some(f)) == Ok::<PartialView, ParseErrorView>(PartialView { fwd: Some(f), ..p }),
        switch_flag("--hex"@) && flag_effect(p, "--hex"@, None) == Ok::<PartialView, ParseErrorView>(PartialView { hex: Some(true), ..p }),
        switch_flag("--quiet"@) && flag_effect(p, "--quiet"@, None) == Ok::<PartialView, ParseErrorView>(PartialView { quiet: Some(true), ..p }),
{
    lemma_flag_spellings();
}

/// What the flags whose values are read as addresses or numbers do to a
/// layer, given the values as they are printed: one lemma each.
proof fn lemma_addr_flag(p: PartialView, addr: Ipv4Addr)
    ensures
        takes_value("--addr"@) && flag_effect(p, "--addr"@, Some(ipv4_text(addr.0@))) == Ok::<PartialView, ParseErrorView>(PartialView { addr: Some(addr), ..p }),
{
    lemma_flag_spellings();
    lemma_ipv4_text_reads_back(addr);
}

proof fn lemma_linux_addr_flag(p: PartialView, addr: Ipv4Addr)
    ensures
        takes_value("--linux-addr"@) && flag_effect(p, "--linux-addr"@, Some(ipv4_text(addr.0@))) == Ok::<PartialView, ParseErrorView>(PartialView { linux_addr: Some(addr), ..p }),
{
    lemma_flag_spellings();
    lemma_ipv4_text_reads_back(addr);
}

proof fn lemma_mac_flag(p: PartialView, mac: MacAddress)
    ensures
        takes_value("--mac"@) && flag_effect(p, "--mac"@, Some(mac_text(mac.0@))) == Ok::<PartialView, ParseErrorView>(PartialView { mac: Some(mac), ..p }),
{
    lemma_flag_spellings();
    lemma_mac_text_reads_back(mac);
}

proof fn lemma_ttl_flag(p: PartialView, ttl: u8)
    ensures
        takes_value("--ttl"@) && flag_effect(p, "--ttl"@, Some(decimal_u8(ttl))) == Ok::<PartialView, ParseErrorView>(PartialView { ttl: Some(ttl), ..p }),
{
    lemma_flag_spellings();
    lemma_u8_text_reads_back(ttl);
}

proof fn lemma_drop_pct_flag(p: PartialView, pct: u8)
    requires
        pct <= 100,
    ensures
        takes_value("--drop-pct"@) && flag_effect(p, "--drop-pct"@, Some(decimal_u8(pct))) == Ok::<PartialView, ParseErrorView>(PartialView { drop_pct: Some(pct), ..p }),
{
    lemma_flag_spellings();
    lemma_u8_text_reads_back(pct);
}

proof fn lemma_id_flag(p: PartialView, id: u16)
    ensures
        takes_value("--id"@) && flag_effect(p, "--id"@, Some(decimal_u16(id))) == Ok::<PartialView, ParseErrorView>(PartialView { icmp_id: Some(id), ..p }),
{
    lemma_flag_spellings();
    lemma_u16_text_reads_back(id);
}

proof fn lemma_count_flag(p: PartialView, n: u64)
    ensures
        takes_value("--count"@) && flag_effect(p, "--count"@, Some(decimal_u64(n))) == Ok::<PartialView, ParseErrorView>(PartialView { count: Some(n), ..p }),
{
    lemma_flag_spellings();
    lemma_count_text_reads_back(n);
}

/// What `--drop` does to a layer, given a list of distinct kinds as it is
/// printed.
proof fn lemma_drop_flag(p: PartialView, ks: Seq<DropKind>)
    requires
        ks.len() >= 1,
        forall|a: int, b: int| 0 <= a < b < ks.len() ==> ks[a] != ks[b],
    ensures
        takes_value("--drop"@) && flag_effect(p, "--drop"@, Some(drop_list_text(ks))) == Ok::<PartialView, ParseErrorView>(PartialView { drop: Some(ks), ..p }),
{
    lemma_flag_spellings();
    lemma_drop_list_text_reads_back(ks);
}

/// The layer a child's arguments give.
pub open spec fn child_layer(c: ConfigView, verbose: bool) -> PartialView {
    PartialView {
        command: Some(CommandView::Stack),
        iface: Some(c.iface),
        addr: Some(c.addr),
        mac: Some(c.mac),
        linux_addr: Some(c.linux_addr),
        tun: Some(c.tun),
        write: c.write,
        hex: if c.hex { Some(true) } else { None },
        quiet: if !verbose { Some(true) } else { None },
        count: c.count,
        drop: if c.drop.len() > 0 { Some(c.drop) } else { None },
        drop_pct: if c.drop_pct > 0 { Some(c.drop_pct) } else { None },
        ttl: Some(c.ttl),
        icmp_id: c.icmp_id,
        config: None,
        fwd: c.fwd,
        listen: None,
        offline: None,
    }
}

/// The arguments `--write` is spelled as, if at all.
pub open spec fn write_seg(c: ConfigView) -> Seq<Seq<char>> {
    match c.write {
        Some(x) => seq!["--write"@, x],
        None => Seq::empty(),
    }
}

/// The arguments `--hex` is spelled as, if at all.
pub open spec fn hex_seg(c: ConfigView) -> Seq<Seq<char>> {
    if c.hex {
        seq!["--hex"@]
    } else {
        Seq::empty()
    }
}

/// The arguments `--quiet` is spelled as, if at all.
pub open spec fn quiet_seg(verbose: bool) -> Seq<Seq<char>> {
    if !verbose {
        seq!["--quiet"@]
    } else {
        Seq::empty()
    }
}

/// The arguments `--count` is spelled as, if at all.
pub open spec fn count_seg(c: ConfigView) -> Seq<Seq<char>> {
    match c.count {
        Some(x) => seq!["--count"@, decimal_u64(x)],
        None => Seq::empty(),
    }
}

/// The arguments `--drop` is spelled as, if at all.
pub open spec fn drop_seg(c: ConfigView) -> Seq<Seq<char>> {
    if c.drop.len() > 0 {
        seq!["--drop"@, drop_list_text(c.drop)]
    } else {
        Seq::empty()
    }
}

/// The arguments `--drop-pct` is spelled as, if at all.
pub open spec fn pct_seg(c: ConfigView) -> Seq<Seq<char>> {
    if c.drop_pct > 0 {
        seq!["--drop-pct"@, decimal_u8(c.drop_pct)]
    } else {
        Seq::empty()
    }
}

/// The arguments `--id` is spelled as, if at all.
pub open spec fn id_seg(c: ConfigView) -> Seq<Seq<char>> {
    match c.icmp_id {
        Some(x) => seq!["--id"@, decimal_u16(x)],
        None => Seq::empty(),
    }
}

/// The arguments `--fwd` is spelled as, if at all.
pub open spec fn fwd_seg(c: ConfigView) -> Seq<Seq<char>> {
    match c.fwd {
        Some(x) => seq!["--fwd"@, x],
        None => Seq::empty(),
    }
}

/// The arguments after the fixed ones, in two runs.
pub open spec fn first_run(c: ConfigView, verbose: bool) -> Seq<Seq<char>> {
    write_seg(c) + (hex_seg(c) + (quiet_seg(verbose) + count_seg(c)))
}

pub open spec fn second_run(c: ConfigView) -> Seq<Seq<char>> {
    drop_seg(c) + (pct_seg(c) + (seq!["--ttl"@, decimal_u8(c.ttl)] + (id_seg(c) + fwd_seg(c))))
}

/// The layer after the fixed arguments.
pub open spec fn fixed_layer(c: ConfigView) -> PartialView {
    PartialView {
        command: Some(CommandView::Stack),
        iface: Some(c.iface),
        addr: Some(c.addr),
        mac: Some(c.mac),
        linux_addr: Some(c.linux_addr),
        tun: Some(c.tun),
        ..empty_partial()
    }
}

/// The layer after the first run.
pub open spec fn middle_layer(c: ConfigView, verbose: bool) -> PartialView {
    PartialView {
        write: c.write,
        hex: if c.hex { Some(true) } else { None },
        quiet: if !verbose { Some(true) } else { None },
        count: c.count,
        ..fixed_layer(c)
    }
}

proof fn lemma_empty_seg(rest: Seq<Seq<char>>, p: PartialView)
    ensures
        cli_from(Seq::<Seq<char>>::empty() + rest, 0, p) == cli_from(rest, 0, p),
{
    assert(Seq::<Seq<char>>::empty() + rest =~= rest);
}

proof fn lemma_write_seg(c: ConfigView, p: PartialView, rest: Seq<Seq<char>>)
    requires
        p.write is None,
    ensures
        cli_from(write_seg(c) + rest, 0, p) == cli_from(rest, 0, PartialView { write: c.write, ..p }),
{
    match c.write {
        Some(x) => {
            lemma_text_flags(p, seq![], seq![], x, seq![]);
            lemma_segment(seq!["--write"@, x], rest, p, PartialView { write: Some(x), ..p });
        },
        None => {
            lemma_empty_seg(rest, p);
            assert(PartialView { write: c.write, ..p } == p);
        },
    }
}

proof fn lemma_hex_seg(c: ConfigView, p: PartialView, rest: Seq<Seq<char>>)
    requires
        p.hex is None,
    ensures
        cli_from(hex_seg(c) + rest, 0, p) == cli_from(rest, 0, PartialView { hex: if c.hex { Some(true) } else { None }, ..p }),
{
    if c.hex {
        lemma_text_flags(p, seq![], seq![], seq![], seq![]);
        lemma_segment(seq!["--hex"@], rest, p, PartialView { hex: Some(true), ..p });
    } else {
        lemma_empty_seg(rest, p);
        assert(PartialView { hex: None, ..p } == p);
    }
}

proof fn lemma_quiet_seg(verbose: bool, p: PartialView, rest: Seq<Seq<char>>)
    requires
        p.quiet is None,
    ensures
        cli_from(quiet_seg(verbose) + rest, 0, p) == cli_from(rest, 0, PartialView { quiet: if !verbose { Some(true) } else { None }, ..p }),
{
    if !verbose {
        lemma_text_flags(p, seq![], seq![], seq![], seq![]);
        lemma_segment(seq!["--quiet"@], rest, p, PartialView { quiet: Some(true), ..p });
    } else {
        lemma_empty_seg(rest, p);
        assert(PartialView { quiet: None, ..p } == p);
    }
}

proof fn lemma_count_seg(c: ConfigView, p: PartialView, rest: Seq<Seq<char>>)
    requires
        p.count is None,
    ensures
        cli_from(count_seg(c) + rest, 0, p) == cli_from(rest, 0, PartialView { count: c.count, ..p }),
{
    match c.count {
        Some(x) => {
            lemma_count_flag(p, x);
            lemma_segment(seq!["--count"@, decimal_u64(x)], rest, p, PartialView { count: Some(x), ..p });
        },
        None => {
            lemma_empty_seg(rest, p);
            assert(PartialView { count: c.count, ..p } == p);
        },
    }
}

proof fn lemma_drop_seg(c: ConfigView, p: PartialView, rest: Seq<Seq<char>>)
    requires
        p.drop is None,
        forall|a: int, b: int| 0 <= a < b < c.drop.len() ==> c.drop[a] != c.drop[b],
    ensures
        cli_from(drop_seg(c) + rest, 0, p) == cli_from(rest, 0, PartialView { drop: if c.drop.len() > 0 { Some(c.drop) } else { None }, ..p }),
{
    if c.drop.len() > 0 {
        lemma_drop_flag(p, c.drop);
        lemma_segment(seq!["--drop"@, drop_list_text(c.drop)], rest, p, PartialView { drop: Some(c.drop), ..p });
    } else {
        lemma_empty_seg(rest, p);
        assert(PartialView { drop: None, ..p } == p);
    }
}

proof fn lemma_pct_seg(c: ConfigView, p: PartialView, rest: Seq<Seq<char>>)
    requires
        p.drop_pct is None,
        c.drop_pct <= 100,
    ensures
        cli_from(pct_seg(c) + rest, 0, p) == cli_from(rest, 0, PartialView { drop_pct: if c.drop_pct > 0 { Some(c.drop_pct) } else { None }, ..p }),
{
    if c.drop_pct > 0 {
        lemma_drop_pct_flag(p, c.drop_pct);
        lemma_segment(seq!["--drop-pct"@, decimal_u8(c.drop_pct)], rest, p, PartialView { drop_pct: Some(c.drop_pct), ..p });
    } else {
        lemma_empty_seg(rest, p);
        assert(PartialView { drop_pct: None, ..p } == p);
    }
}

proof fn lemma_id_seg(c: ConfigView, p: PartialView, rest: Seq<Seq<char>>)
    requires
        p.icmp_id is None,
    ensures
        cli_from(id_seg(c) + rest, 0, p) == cli_from(rest, 0, PartialView { icmp_id: c.icmp_id, ..p }),
{
    match c.icmp_id {
        Some(x) => {
            lemma_id_flag(p, x);
            lemma_segment(seq!["--id"@, decimal_u16(x)], rest, p, PartialView { icmp_id: Some(x), ..p });
        },
        None => {
            lemma_empty_seg(rest, p);
            assert(PartialView { icmp_id: c.icmp_id, ..p } == p);
        },
    }
}

proof fn lemma_fwd_seg(c: ConfigView, p: PartialView, rest: Seq<Seq<char>>)
    requires
        p.fwd is None,
    ensures
        cli_from(fwd_seg(c) + rest, 0, p) == cli_from(rest, 0, PartialView { fwd: c.fwd, ..p }),
{
    match c.fwd {
        Some(x) => {
            lemma_text_flags(p, seq![], seq![], seq![], x);
            lemma_segment(seq!["--fwd"@, x], rest, p, PartialView { fwd: Some(x), ..p });
        },
        None => {
            lemma_empty_seg(rest, p);
            assert(PartialView { fwd: c.fwd, ..p } == p);
        },
    }
}

proof fn lemma_first_run(c: ConfigView, verbose: bool, rest: Seq<Seq<char>>)
    ensures
        cli_from(first_run(c, verbose) + rest, 0, fixed_layer(c)) == cli_from(rest, 0, middle_layer(c, verbose)),
{
    let p6 = fixed_layer(c);
    let p7 = PartialView { write: c.write, ..p6 };
    let p8 = PartialView { hex: if c.hex { Some(true) } else { None }, ..p7 };
    let p9 = PartialView { quiet: if !verbose { Some(true) } else { None }, ..p8 };
    let p10 = PartialView { count: c.count, ..p9 };
    assert(p10 == middle_layer(c, verbose));
    let r3 = count_seg(c) + rest;
    let r2 = quiet_seg(verbose) + r3;
    let r1 = hex_seg(c) + r2;
    lemma_concat_associative(quiet_seg(verbose), count_seg(c), rest);
    lemma_concat_associative(hex_seg(c), quiet_seg(verbose) + count_seg(c), rest);
    lemma_concat_associative(write_seg(c), hex_seg(c) + (quiet_seg(verbose) + count_seg(c)), rest);
    assert(first_run(c, verbose) + rest == write_seg(c) + r1);
    lemma_write_seg(c, p6, r1);
    lemma_hex_seg(c, p7, r2);
    lemma_quiet_seg(verbose, p8, r3);
    lemma_count_seg(c, p9, rest);
}

proof fn lemma_second_run(c: ConfigView, verbose: bool)
    requires
        forall|a: int, b: int| 0 <= a < b < c.drop.len() ==> c.drop[a] != c.drop[b],
        c.drop_pct <= 100,
    ensures
        cli_from(second_run(c), 0, middle_layer(c, verbose)) == Ok::<PartialView, ParseErrorView>(child_layer(c, verbose)),
{
    let e: Seq<Seq<char>> = Seq::empty();
    let p10 = middle_layer(c, verbose);
    let p11 = PartialView { drop: if c.drop.len() > 0 { Some(c.drop) } else { None }, ..p10 };
    let p12 = PartialView { drop_pct: if c.drop_pct > 0 { Some(c.drop_pct) } else { None }, ..p11 };
    let p13 = PartialView { ttl: Some(c.ttl), ..p12 };
    let p14 = PartialView { icmp_id: c.icmp_id, ..p13 };
    let p15 = PartialView { fwd: c.fwd, ..p14 };
    assert(p15 == child_layer(c, verbose));
    let t = seq!["--ttl"@, decimal_u8(c.ttl)];
    let r4 = fwd_seg(c) + e;
    let r3 = id_seg(c) + r4;
    let r2 = t + r3;
    let r1 = pct_seg(c) + r2;
    assert(fwd_seg(c) + e =~= fwd_seg(c));
    assert(second_run(c) == drop_seg(c) + r1);
    lemma_drop_seg(c, p10, r1);
    lemma_pct_seg(c, p11, r2);
    lemma_ttl_flag(p12, c.ttl);
    lemma_segment(t, r3, p12, p13);
    lemma_id_seg(c, p13, r4);
    lemma_fwd_seg(c, p14, e);
    assert(cli_from(e, 0, p15) == Ok::<PartialView, ParseErrorView>(p15));
}

#[verifier::rlimit(80)]
#[verifier::spinoff_prover]
proof fn lemma_fixed_run(c: ConfigView, rest: Seq<Seq<char>>)
    ensures
        cli_from(
            seq![
                "stack"@,
                "--iface"@,
                c.iface,
                "--addr"@,
                ipv4_text(c.addr.0@),
                "--mac"@,
                mac_text(c.mac.0@),
                "--linux-addr"@,
                ipv4_text(c.linux_addr.0@),
                "--tun"@,
                c.tun,
            ] + rest,
            0,
            empty_partial(),
        ) == cli_from(rest, 0, fixed_layer(c)),
{
    let p0 = empty_partial();
    let p1 = PartialView { command: Some(CommandView::Stack), ..p0 };
    let p2 = PartialView { iface: Some(c.iface), ..p1 };
    let p3 = PartialView { addr: Some(c.addr), ..p2 };
    let p4 = PartialView { mac: Some(c.mac), ..p3 };
    let p5 = PartialView { linux_addr: Some(c.linux_addr), ..p4 };
    let p6 = PartialView { tun: Some(c.tun), ..p5 };
    assert(p6 == fixed_layer(c));
    let seg2 = seq!["--iface"@, c.iface];
    let seg3 = seq!["--addr"@, ipv4_text(c.addr.0@)];
    let seg4 = seq!["--mac"@, mac_text(c.mac.0@)];
    let seg5 = seq!["--linux-addr"@, ipv4_text(c.linux_addr.0@)];
    let seg6 = seq!["--tun"@, c.tun];
    lemma_text_flags(p1, c.iface, c.tun, seq![], seq![]);
    lemma_addr_flag(p2, c.addr);
    lemma_mac_flag(p3, c.mac);
    lemma_linux_addr_flag(p4, c.linux_addr);
    lemma_text_flags(p5, c.iface, c.tun, seq![], seq![]);
    let r6 = seg6 + rest;
    let r5 = seg5 + r6;
    let r4 = seg4 + r5;
    let r3 = seg3 + r4;
    let r2 = seg2 + r3;
    assert(seq![
        "stack"@,
        "--iface"@,
        c.iface,
        "--addr"@,
        ipv4_text(c.addr.0@),
        "--mac"@,
        mac_text(c.mac.0@),
        "--linux-addr"@,
        ipv4_text(c.linux_addr.0@),
        "--tun"@,
        c.tun,
    ] + rest =~= seq!["stack"@] + r2);
    lemma_stack_word(r2, p0);
    lemma_segment(seg2, r3, p1, p2);
    lemma_segment(seg3, r4, p2, p3);
    lemma_segment(seg4, r5, p3, p4);
    lemma_segment(seg5, r6, p4, p5);
    lemma_segment(seg6, rest, p5, p6);
}

proof fn lemma_child_args_split(c: ConfigView, verbose: bool)
    ensures
        child_args(c, verbose) == seq![
            "stack"@,
            "--iface"@,
            c.iface,
            "--addr"@,
            ipv4_text(c.addr.0@),
            "--mac"@,
            mac_text(c.mac.0@),
            "--linux-addr"@,
            ipv4_text(c.linux_addr.0@),
            "--tun"@,
            c.tun,
        ] + (first_run(c, verbose) + second_run(c)),
{
    let f = seq![
        "stack"@,
        "--iface"@,
        c.iface,
        "--addr"@,
        ipv4_text(c.addr.0@),
        "--mac"@,
        mac_text(c.mac.0@),
        "--linux-addr"@,
        ipv4_text(c.linux_addr.0@),
        "--tun"@,
        c.tun,
    ];
    let w = write_seg(c);
    let h = hex_seg(c);
    let q = quiet_seg(verbose);
    let n = count_seg(c);
    let d = drop_seg(c);
    let pp = pct_seg(c);
    let t = seq!["--ttl"@, decimal_u8(c.ttl)];
    let i = id_seg(c);
    let fw = fwd_seg(c);
    let fr = w + (h + (q + n));
    let sr = d + (pp + (t + (i + fw)));
    assert(first_run(c, verbose) == fr);
    assert(second_run(c) == sr);
    let a4 = f + w + h + q + n;
    assert(child_args(c, verbose) == a4 + d + pp + t + i + fw);
    lemma_concat_associative(f + w + h, q, n);
    lemma_concat_associative(f + w, h, q + n);
    lemma_concat_associative(f, w, h + (q + n));
    assert(a4 == f + fr);
    lemma_concat_associative(a4 + d + pp + t, i, fw);
    lemma_concat_associative(a4 + d + pp, t, i + fw);
    lemma_concat_associative(a4 + d, pp, t + (i + fw));
    lemma_concat_associative(a4, d, pp + (t + (i + fw)));
    assert(a4 + d + pp + t + i + fw == a4 + sr);
    lemma_concat_associative(f, fr, sr);
}

/// The arguments a child `minitcp stack` is given read back as the layer
/// that holds the parent's settings.
pub proof fn lemma_child_args_parse(c: ConfigView, verbose: bool)
    requires
        forall|a: int, b: int| 0 <= a < b < c.drop.len() ==> c.drop[a] != c.drop[b],
        c.drop_pct <= 100,
    ensures
        cli_result(child_args(c, verbose)) == Ok::<PartialView, ParseErrorView>(child_layer(c, verbose)),
{
    let fixed = seq![
        "stack"@,
        "--iface"@,
        c.iface,
        "--addr"@,
        ipv4_text(c.addr.0@),
        "--mac"@,
        mac_text(c.mac.0@),
        "--linux-addr"@,
        ipv4_text(c.linux_addr.0@),
        "--tun"@,
        c.tun,
    ];
    lemma_child_args_split(c, verbose);
    lemma_fixed_run(c, first_run(c, verbose) + second_run(c));
    lemma_first_run(c, verbose, second_run(c));
    lemma_second_run(c, verbose);
}

/// The arguments a child `minitcp stack` is given read back, with no
/// settings file about, as a configuration that runs the stack with the
/// parent's settings: quiet exactly when the child is not verbose, and the
/// same interface, addresses, device, capture, format, count, drops, loss,
/// TTL, identifier and forwarding. (A drop list that names a kind twice is
/// printed once per kind, and a loss above 100% is refused, so neither reads
/// back.)
pub proof fn lemma_child_args_read_back(c: ConfigView, verbose: bool, cwd: Seq<char>)
    requires
        forall|a: int, b: int| 0 <= a < b < c.drop.len() ==> c.drop[a] != c.drop[b],
        c.drop_pct <= 100,
    ensures
        cli_result(child_args(c, verbose)) matches Ok(p) && settled(p, cwd, ConfigFile::Absent) matches Ok(d) && {
            &&& d.command == CommandView::Stack
            &&& d.quiet == !verbose
            &&& d.iface == c.iface
            &&& d.addr == c.addr
            &&& d.mac == c.mac
            &&& d.linux_addr == c.linux_addr
            &&& d.tun == c.tun
            &&& d.write == c.write
            &&& d.hex == c.hex
            &&& d.count == c.count
            &&& d.drop == c.drop
            &&& d.drop_pct == c.drop_pct
            &&& d.ttl == c.ttl
            &&& d.icmp_id == c.icmp_id
            &&& d.fwd == c.fwd
        },
{
    lemma_child_args_parse(c, verbose);
    if c.drop.len() == 0 {
        assert(c.drop =~= Seq::<DropKind>::empty());
    }
}

} // verus!
