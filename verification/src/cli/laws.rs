//! What holds of reading a command line as a whole.

use vstd::prelude::*;
use crate::text::{first_index, has_prefix};
use super::args::{cli_from, cli_step, flag_step, identity_step, tap_step, word_step};
use super::flags::{count_result, flag_effect, takes_value};
use super::child::lemma_flag_spellings;
use super::usage::flag_usage_text;
use crate::parse::{low_u16, low_u8};
use super::options::PartialView;
use super::error::{ParseErrorView, msg_view, usage_view};
use super::options::{ConfigView, default_view, drop_kind_named, empty_partial, linux_addr_for};
use super::command::{CommandView, is_setter_view};
use super::settle::{ConfigFile, config_path_of, loaded_layer, settled};
use crate::parse::{lower, trim_end, trim_start, trimmed};
use crate::stack::{DropKind, drop_kind_name};

verus! {

/// A step's result with its next position moved on by `j`.
pub open spec fn moved(r: Result<(nat, PartialView), ParseErrorView>, j: nat) -> Result<(nat, PartialView), ParseErrorView> {
    match r {
        Ok((k, q)) => Ok(((k + j) as nat, q)),
        Err(e) => Err(e),
    }
}

proof fn lemma_flag_step_moves(s: Seq<Seq<char>>, j: nat, q: PartialView)
    requires
        j < s.len(),
    ensures
        flag_step(s, j, q) == moved(flag_step(s.skip(j as int), 0, q), j),
{
    let t = s.skip(j as int);
    assert(t[0] == s[j as int]);
    assert(t.len() > 1 ==> t[1] == s[j as int + 1]);
}

proof fn lemma_tap_step_moves(s: Seq<Seq<char>>, j: nat, q: PartialView)
    requires
        j < s.len(),
    ensures
        tap_step(s, j, q) == moved(tap_step(s.skip(j as int), 0, q), j),
{
    let t = s.skip(j as int);
    assert(t.len() > 1 ==> t[1] == s[j as int + 1]);
    assert(t.len() > 2 ==> t[2] == s[j as int + 2]);
}

proof fn lemma_identity_step_moves(s: Seq<Seq<char>>, j: nat, q: PartialView)
    requires
        j < s.len(),
    ensures
        identity_step(s, j, q) == moved(identity_step(s.skip(j as int), 0, q), j),
{
    let t = s.skip(j as int);
    assert(t.len() > 1 ==> t[1] == s[j as int + 1]);
    assert(t.len() > 2 ==> t[2] == s[j as int + 2]);
}

proof fn lemma_word_step_moves(s: Seq<Seq<char>>, j: nat, q: PartialView)
    requires
        j < s.len(),
    ensures
        word_step(s, j, q) == moved(word_step(s.skip(j as int), 0, q), j),
{
    let t = s.skip(j as int);
    assert(t[0] == s[j as int]);
    assert(t.len() > 1 ==> t[1] == s[j as int + 1]);
    lemma_tap_step_moves(s, j, q);
    lemma_identity_step_moves(s, j, q);
}

proof fn lemma_step_moves(s: Seq<Seq<char>>, j: nat, q: PartialView)
    requires
        j < s.len(),
    ensures
        cli_step(s, j, q) == moved(cli_step(s.skip(j as int), 0, q), j),
{
    let t = s.skip(j as int);
    assert(t[0] == s[j as int]);
    lemma_flag_step_moves(s, j, q);
    lemma_word_step_moves(s, j, q);
}

/// Reading from argument `j` on depends only on the arguments from `j` on.
#[verifier::rlimit(60)]
pub proof fn lemma_reading_depends_on_what_follows(s: Seq<Seq<char>>, j: nat, q: PartialView)
    requires
        j <= s.len(),
    ensures
        cli_from(s, j, q) == cli_from(s.skip(j as int), 0, q),
    decreases s.len() - j,
{
    let t = s.skip(j as int);
    if j < s.len() {
        lemma_step_moves(s, j, q);
        match cli_step(t, 0, q) {
            Err(_) => {},
            Ok((k, r)) => {
                if 0 < k <= t.len() {
                    lemma_reading_depends_on_what_follows(s, (k + j) as nat, r);
                    lemma_reading_depends_on_what_follows(t, k, r);
                    assert(s.skip((k + j) as int) =~= t.skip(k as int));
                }
            },
        }
    } else {
        assert(t.len() == 0);
    }
}

proof fn lemma_value_flags_name_no_command(flag: Seq<char>)
    requires
        takes_value(flag),
    ensures
        flag != "-h"@ && flag != "--help"@ && flag != "-V"@ && flag != "--version"@,
{
    reveal_strlit("-h");
    reveal_strlit("--help");
    reveal_strlit("-V");
    reveal_strlit("--version");
    reveal_strlit("--fwd");
    reveal_strlit("--listen");
    reveal_strlit("--iface");
    reveal_strlit("--addr");
    reveal_strlit("--mac");
    reveal_strlit("--linux-addr");
    reveal_strlit("--tun");
    reveal_strlit("--write");
    reveal_strlit("--config");
    reveal_strlit("--drop");
    reveal_strlit("--drop-pct");
    reveal_strlit("--ttl");
    reveal_strlit("--id");
    reveal_strlit("-c");
    reveal_strlit("--count");
    let h = "--help"@;
    let v = "--version"@;
    assert(h.len() == 6 && v.len() == 9 && "-h"@.len() == 2 && "-V"@.len() == 2);
    assert(flag.len() == 2 || flag.len() == 4 || flag.len() == 5 || flag.len() == 6 || flag.len() == 7
        || flag.len() == 8 || flag.len() == 10 || flag.len() == 12);
    if flag.len() == 6 {
        assert(flag == "--drop"@ || flag == "--addr"@);
        assert(flag[2] != h[2]);
    }
    if flag.len() == 2 {
        assert(flag == "-c"@);
        assert(flag[1] != "-h"@[1]);
        assert(flag[1] != "-V"@[1]);
    }
}

/// A flag that takes a value reads the same written `--flag=value` as
/// written `--flag value`, wherever on the line it stands.
pub proof fn lemma_joined_flag_reads_as_split(
    before: Seq<Seq<char>>,
    flag: Seq<char>,
    value: Seq<char>,
    after: Seq<Seq<char>>,
    p: PartialView,
)
    requires
        has_prefix(flag, "--"@),
        takes_value(flag),
    ensures
        cli_from(before + seq![flag + "="@ + value] + after, before.len(), p) == cli_from(
            before + seq![flag, value] + after,
            before.len(),
            p,
        ),
{
    reveal_strlit("--");
    reveal_strlit("-");
    reveal_strlit("=");
    reveal_strlit("-h");
    reveal_strlit("--help");
    reveal_strlit("-V");
    reveal_strlit("--version");
    reveal_strlit("--fwd");
    reveal_strlit("--listen");
    reveal_strlit("--iface");
    reveal_strlit("--addr");
    reveal_strlit("--mac");
    reveal_strlit("--linux-addr");
    reveal_strlit("--tun");
    reveal_strlit("--write");
    reveal_strlit("--config");
    reveal_strlit("--drop");
    reveal_strlit("--drop-pct");
    reveal_strlit("--ttl");
    reveal_strlit("--id");
    reveal_strlit("-c");
    reveal_strlit("--count");
    let i = before.len();
    let joined = flag + "="@ + value;
    let s1 = before + seq![joined] + after;
    let s2 = before + seq![flag, value] + after;
    assert(s1[i as int] == joined);
    assert(s2[i as int] == flag);
    assert(s2[i as int + 1] == value);
    // The flag's name holds no `=`: every flag that takes a value is
    // spelled without one.
    assert(forall|k: int| 0 <= k < flag.len() ==> flag[k] != '=');
    assert(first_index(flag, '=') is None);
    assert(joined[flag.len() as int] == '=');
    assert(forall|k: int| 0 <= k < flag.len() ==> joined[k] == flag[k]);
    assert(first_index(joined, '=') == Some(flag.len() as int)) by {
        let c = choose|m: int|
            0 <= m < joined.len() && joined[m] == '=' && forall|x: int| 0 <= x < m ==> joined[x] != '=';
        assert(0 <= c < joined.len() && joined[c] == '=' && forall|x: int| 0 <= x < c ==> joined[x] != '=');
        if c < flag.len() {
        } else if c > flag.len() {
            assert(joined[flag.len() as int] == '=');
        }
    }
    assert(joined.subrange(0, flag.len() as int) =~= flag);
    assert(joined.subrange(flag.len() as int + 1, joined.len() as int) =~= value);
    assert(flag.subrange(0, 2)[0] == flag[0]);
    assert(flag[0] == '-');
    assert(joined[0] == '-');
    assert(joined.subrange(0, 1) =~= "-"@);
    assert(flag.subrange(0, 1) =~= "-"@);
    assert(has_prefix(joined, "-"@));
    assert(has_prefix(flag, "-"@));
    assert(joined != "-h"@ && joined != "--help"@ && joined != "-V"@ && joined != "--version"@) by {
        assert(joined[flag.len() as int] == '=');
    }
    assert(s1.skip(i as int + 1) =~= after);
    assert(s2.skip(i as int + 2) =~= after);
    lemma_value_flags_name_no_command(flag);
    assert(!super::args::is_help_word(joined));
    assert(super::args::eq_flag(joined) == Some((flag, value)));
    assert(super::args::eq_flag(flag) is None);
    assert(cli_step(s1, i, p) == super::args::then_at((i + 1) as nat, super::flags::flag_effect(p, flag, Some(value))));
    assert(cli_step(s2, i, p) == super::args::then_at((i + 2) as nat, super::flags::flag_effect(p, flag, Some(value))));
    match super::flags::flag_effect(p, flag, Some(value)) {
        Err(_) => {},
        Ok(q) => {
            lemma_reading_depends_on_what_follows(s1, (i + 1) as nat, q);
            lemma_reading_depends_on_what_follows(s2, (i + 2) as nat, q);
        },
    }
}

/// The name a drop kind is shown by (`--drop` lists, the stack's
/// configuration) reads back as that kind.
pub proof fn lemma_drop_kind_name_reads_back(k: DropKind)
    ensures
        drop_kind_named(lower(trimmed(drop_kind_name(k)))) == Some(k),
{
    reveal_strlit("arp");
    reveal_strlit("icmp");
    reveal_strlit("ip");
    let s = drop_kind_name(k);
    assert(trim_start(s) == s);
    assert(trim_end(s) == s);
    assert(lower(s) =~= s);
}

/// Every setting the layer `p` gives is what `c` holds.
pub open spec fn honours(c: ConfigView, p: PartialView) -> bool {
    &&& p.iface matches Some(v) ==> c.iface == v
    &&& p.addr matches Some(v) ==> c.addr == v
    &&& p.mac matches Some(v) ==> c.mac == v
    &&& p.linux_addr matches Some(v) ==> c.linux_addr == v
    &&& p.tun matches Some(v) ==> c.tun == v
    &&& p.write matches Some(v) ==> c.write == Some(v)
    &&& p.hex matches Some(v) ==> c.hex == v
    &&& p.quiet matches Some(v) ==> c.quiet == v
    &&& p.count matches Some(v) ==> c.count == Some(v)
    &&& p.drop matches Some(v) ==> c.drop == v
    &&& p.drop_pct matches Some(v) ==> c.drop_pct == v
    &&& p.ttl matches Some(v) ==> c.ttl == v
    &&& p.icmp_id matches Some(v) ==> c.icmp_id == Some(v)
    &&& p.fwd matches Some(v) ==> c.fwd == Some(v)
    &&& p.listen matches Some(v) ==> c.listen == v
    &&& p.offline matches Some(v) ==> c.offline == v
}

/// `p` with the settings `top` gives taken out: what is left of it for a
/// lower layer to decide.
pub open spec fn under(p: PartialView, top: PartialView) -> PartialView {
    PartialView {
        iface: if top.iface is Some { None } else { p.iface },
        addr: if top.addr is Some { None } else { p.addr },
        mac: if top.mac is Some { None } else { p.mac },
        linux_addr: if top.linux_addr is Some { None } else { p.linux_addr },
        tun: if top.tun is Some { None } else { p.tun },
        write: if top.write is Some { None } else { p.write },
        hex: if top.hex is Some { None } else { p.hex },
        quiet: if top.quiet is Some { None } else { p.quiet },
        count: if top.count is Some { None } else { p.count },
        drop: if top.drop is Some { None } else { p.drop },
        drop_pct: if top.drop_pct is Some { None } else { p.drop_pct },
        ttl: if top.ttl is Some { None } else { p.ttl },
        icmp_id: if top.icmp_id is Some { None } else { p.icmp_id },
        fwd: if top.fwd is Some { None } else { p.fwd },
        listen: if top.listen is Some { None } else { p.listen },
        offline: if top.offline is Some { None } else { p.offline },
        ..p
    }
}

/// A help or version request, which is answered from the defaults alone.
pub open spec fn asks_for_help_or_version(cli: PartialView) -> bool {
    cli.command matches Some(CommandView::Help(_)) || cli.command == Some(CommandView::Version)
}

/// The command line wins over the settings file: whatever the command line
/// sets, the settled configuration holds, whatever the file says.
pub proof fn lemma_command_line_wins(cli: PartialView, cwd: Seq<char>, file: ConfigFile)
    requires
        !asks_for_help_or_version(cli),
    ensures
        settled(cli, cwd, file) matches Ok(c) ==> honours(c, cli),
{
}

/// The settings file decides what the command line leaves out, and the
/// defaults what both leave out; Linux sits at `.1` on MiniTCP's street
/// unless a layer places it.
pub proof fn lemma_file_fills_the_gaps(cli: PartialView, cwd: Seq<char>, file: ConfigFile, l: PartialView)
    requires
        !asks_for_help_or_version(cli),
        loaded_layer(cli, config_path_of(cli, cwd), file) == Ok::<PartialView, ParseErrorView>(l),
    ensures
        settled(cli, cwd, file) matches Ok(c) && {
            &&& honours(c, under(l, cli))
            &&& (cli.linux_addr is None && l.linux_addr is None ==> c.linux_addr == linux_addr_for(c.addr))
            &&& (cli.iface is None && l.iface is None ==> c.iface == default_view().iface)
            &&& (cli.addr is None && l.addr is None ==> c.addr == default_view().addr)
            &&& (cli.mac is None && l.mac is None ==> c.mac == default_view().mac)
            &&& (cli.tun is None && l.tun is None ==> c.tun == default_view().tun)
            &&& (cli.ttl is None && l.ttl is None ==> c.ttl == default_view().ttl)
            &&& (cli.quiet is None && l.quiet is None ==> c.quiet == default_view().quiet)
            &&& (cli.drop is None && l.drop is None ==> c.drop == default_view().drop)
            &&& (cli.write is None && l.write is None ==> c.write == default_view().write)
            &&& (cli.hex is None && l.hex is None ==> c.hex == default_view().hex)
            &&& (cli.count is None && l.count is None ==> c.count == default_view().count)
            &&& (cli.drop_pct is None && l.drop_pct is None ==> c.drop_pct == default_view().drop_pct)
            &&& (cli.icmp_id is None && l.icmp_id is None ==> c.icmp_id == default_view().icmp_id)
            &&& (cli.fwd is None && l.fwd is None ==> c.fwd == default_view().fwd)
            &&& (cli.listen is None && l.listen is None ==> c.listen == default_view().listen)
            &&& (cli.offline is None && l.offline is None ==> c.offline == default_view().offline)
        },
{
}

/// A `--config` that names no file is refused, unless the command writes a
/// setting (which creates the file): `config file not found: ` and the path.
pub proof fn lemma_missing_config_file_is_refused(cli: PartialView, cwd: Seq<char>)
    requires
        !asks_for_help_or_version(cli),
        cli.config is Some,
        !(cli.command matches Some(c) && is_setter_view(c)),
    ensures
        settled(cli, cwd, ConfigFile::Absent) matches Err(e) && e.message == "config file not found: "@
            + cli.config->0,
{
}

/// A flag does nothing to the command named so far.
proof fn lemma_flags_leave_the_command(p: PartialView, c: Option<CommandView>, flag: Seq<char>, value: Option<Seq<char>>)
    ensures
        flag_effect(PartialView { command: c, ..p }, flag, value) == match flag_effect(p, flag, value) {
            Ok(q) => Ok(PartialView { command: c, ..q }),
            Err(e) => Err(e),
        },
{
    match flag_effect(p, flag, value) {
        Ok(q) => {
            assert(flag_effect(PartialView { command: c, ..p }, flag, value) =~= Ok::<PartialView, ParseErrorView>(
                PartialView { command: c, ..q },
            ));
        },
        Err(e) => {},
    }
}

/// A command word that names a command outright.
pub open spec fn plain_command_word(w: Seq<char>) -> bool {
    w == "run"@ || w == "stack"@ || w == "bridge"@
}

/// The command a plain command word names.
pub open spec fn plain_command(w: Seq<char>) -> CommandView {
    if w == "run"@ {
        CommandView::Run
    } else if w == "stack"@ {
        CommandView::Stack
    } else {
        CommandView::Bridge
    }
}

/// What the flag alone makes of an empty layer, with the command `w` set.
pub open spec fn with_command(r: Result<PartialView, ParseErrorView>, w: Seq<char>) -> Result<PartialView, ParseErrorView> {
    match r {
        Ok(q) => Ok(PartialView { command: Some(plain_command(w)), ..q }),
        Err(e) => Err(e),
    }
}

proof fn lemma_word_facts(w: Seq<char>)
    requires
        plain_command_word(w),
    ensures
        !has_prefix(w, "-"@),
        w != "help"@,
        w != "replay"@ && w != "pcap"@ && w != "pcap-info"@ && w != "tap"@ && w != "identity"@,
{
    reveal_strlit("-");
    reveal_strlit("run");
    reveal_strlit("stack");
    reveal_strlit("bridge");
    reveal_strlit("help");
    reveal_strlit("replay");
    reveal_strlit("pcap");
    reveal_strlit("pcap-info");
    reveal_strlit("tap");
    reveal_strlit("identity");
    assert(w.subrange(0, 1)[0] == w[0]);
    assert("replay"@.len() == 6 && "pcap"@.len() == 4 && "pcap-info"@.len() == 9 && "tap"@.len() == 3
        && "identity"@.len() == 8);
    if w == "run"@ {
        assert(w.len() == 3 && w[0] != "tap"@[0]);
    } else if w == "stack"@ {
        assert(w.len() == 5);
    } else {
        assert(w.len() == 6 && w[0] != "replay"@[0]);
    }
}

pub(crate) proof fn lemma_flag_facts(flag: Seq<char>)
    requires
        takes_value(flag),
    ensures
        has_prefix(flag, "-"@),
        super::args::eq_flag(flag) is None,
        !super::args::is_help_word(flag),
        flag != "-V"@ && flag != "--version"@,
{
    reveal_strlit("-");
    reveal_strlit("=");
    reveal_strlit("--fwd");
    reveal_strlit("--listen");
    reveal_strlit("--iface");
    reveal_strlit("--addr");
    reveal_strlit("--mac");
    reveal_strlit("--linux-addr");
    reveal_strlit("--tun");
    reveal_strlit("--write");
    reveal_strlit("--config");
    reveal_strlit("--drop");
    reveal_strlit("--drop-pct");
    reveal_strlit("--ttl");
    reveal_strlit("--id");
    reveal_strlit("-c");
    reveal_strlit("--count");
    lemma_value_flags_name_no_command(flag);
    assert(flag.subrange(0, 1) =~= "-"@);
    assert(forall|k: int| 0 <= k < flag.len() ==> flag[k] != '=');
    assert(first_index(flag, '=') is None);
}

#[verifier::rlimit(30)]
proof fn lemma_flag_first(flag: Seq<char>, value: Seq<char>, w: Seq<char>)
    requires
        takes_value(flag),
        plain_command_word(w),
    ensures
        cli_from(seq![flag, value, w], 0, empty_partial()) == with_command(
            flag_effect(empty_partial(), flag, Some(value)),
            w,
        ),
{
    lemma_word_facts(w);
    lemma_flag_facts(flag);
    let e = empty_partial();
    let a = seq![flag, value, w];
    assert(a[0] == flag && a[1] == value && a[2] == w);
    assert(cli_step(a, 0, e) == super::args::then_at(2, flag_effect(e, flag, Some(value))));
    match flag_effect(e, flag, Some(value)) {
        Err(_) => {},
        Ok(q) => {
            let r = PartialView { command: Some(plain_command(w)), ..q };
            assert(q.command is None);
            assert(cli_step(a, 2, q) == super::args::then_at(3, Ok::<PartialView, ParseErrorView>(r)));
            assert(cli_from(a, 3, r) == Ok::<PartialView, ParseErrorView>(r));
            assert(cli_from(a, 2, q) == cli_from(a, 3, r));
        },
    }
}

#[verifier::rlimit(30)]
proof fn lemma_word_first(flag: Seq<char>, value: Seq<char>, w: Seq<char>)
    requires
        takes_value(flag),
        plain_command_word(w),
    ensures
        cli_from(seq![w, flag, value], 0, empty_partial()) == with_command(
            flag_effect(empty_partial(), flag, Some(value)),
            w,
        ),
{
    lemma_word_facts(w);
    lemma_flag_facts(flag);
    let e = empty_partial();
    let a = seq![w, flag, value];
    let named = PartialView { command: Some(plain_command(w)), ..e };
    assert(a[0] == w && a[1] == flag && a[2] == value);
    assert(cli_step(a, 0, e) == super::args::then_at(1, Ok::<PartialView, ParseErrorView>(named)));
    lemma_flags_leave_the_command(e, Some(plain_command(w)), flag, Some(value));
    assert(cli_step(a, 1, named) == super::args::then_at(3, flag_effect(named, flag, Some(value))));
    match flag_effect(named, flag, Some(value)) {
        Err(_) => {},
        Ok(r) => {
            assert(cli_from(a, 3, r) == Ok::<PartialView, ParseErrorView>(r));
        },
    }
    assert(cli_from(a, 0, e) == cli_from(a, 1, named));
}

/// Flags may sit before or after the command: a flag with its value reads
/// the same on either side of `run`, `stack` or `bridge`.
pub proof fn lemma_flag_reads_the_same_either_side(flag: Seq<char>, value: Seq<char>, w: Seq<char>)
    requires
        takes_value(flag),
        plain_command_word(w),
    ensures
        cli_from(seq![flag, value, w], 0, empty_partial()) == cli_from(seq![w, flag, value], 0, empty_partial()),
{
    lemma_flag_first(flag, value, w);
    lemma_word_first(flag, value, w);
}

/// The flags that take no value.
pub open spec fn switch_flag(flag: Seq<char>) -> bool {
    flag == "--quiet"@ || flag == "-q"@ || flag == "--hex"@ || flag == "--offline"@ || flag == "--once"@
}

pub(crate) proof fn lemma_switch_facts(flag: Seq<char>)
    requires
        switch_flag(flag),
    ensures
        has_prefix(flag, "-"@),
        super::args::eq_flag(flag) is None,
        !super::args::is_help_word(flag),
        flag != "-V"@ && flag != "--version"@,
        !takes_value(flag),
{
    reveal_strlit("-");
    reveal_strlit("=");
    reveal_strlit("-h");
    reveal_strlit("--help");
    reveal_strlit("-V");
    reveal_strlit("--version");
    reveal_strlit("--quiet");
    reveal_strlit("-q");
    reveal_strlit("--hex");
    reveal_strlit("--offline");
    reveal_strlit("--once");
    reveal_strlit("--fwd");
    reveal_strlit("--listen");
    reveal_strlit("--iface");
    reveal_strlit("--addr");
    reveal_strlit("--mac");
    reveal_strlit("--linux-addr");
    reveal_strlit("--tun");
    reveal_strlit("--write");
    reveal_strlit("--config");
    reveal_strlit("--drop");
    reveal_strlit("--drop-pct");
    reveal_strlit("--ttl");
    reveal_strlit("--id");
    reveal_strlit("-c");
    reveal_strlit("--count");
    assert(flag.subrange(0, 1) =~= "-"@);
    assert(forall|k: int| 0 <= k < flag.len() ==> flag[k] != '=');
    assert(first_index(flag, '=') is None);
    if flag == "-q"@ {
        assert(flag[1] != "-h"@[1] && flag[1] != "-V"@[1] && flag[1] != "-c"@[1]);
    } else if flag == "--hex"@ {
        assert(flag.len() == 5);
        assert(flag[2] != "--fwd"@[2] && flag[2] != "--mac"@[2] && flag[2] != "--tun"@[2] && flag[2] != "--ttl"@[2]);
    } else if flag == "--once"@ {
        assert(flag.len() == 6);
        assert(flag[2] != "--help"@[2] && flag[2] != "--addr"@[2] && flag[2] != "--drop"@[2]);
    } else if flag == "--quiet"@ {
        assert(flag.len() == 7);
        assert(flag[2] != "--iface"@[2] && flag[2] != "--write"@[2] && flag[2] != "--count"@[2]);
    } else {
        assert(flag.len() == 9);
        assert(flag[2] != "--version"@[2]);
    }
}

#[verifier::rlimit(30)]
proof fn lemma_switch_first(flag: Seq<char>, w: Seq<char>)
    requires
        switch_flag(flag),
        plain_command_word(w),
    ensures
        cli_from(seq![flag, w], 0, empty_partial()) == with_command(flag_effect(empty_partial(), flag, None), w),
{
    lemma_word_facts(w);
    lemma_switch_facts(flag);
    let e = empty_partial();
    let a = seq![flag, w];
    assert(a[0] == flag && a[1] == w);
    assert(cli_step(a, 0, e) == super::args::then_at(1, flag_effect(e, flag, None)));
    match flag_effect(e, flag, None) {
        Err(_) => {},
        Ok(q) => {
            let r = PartialView { command: Some(plain_command(w)), ..q };
            assert(q.command is None);
            assert(cli_step(a, 1, q) == super::args::then_at(2, Ok::<PartialView, ParseErrorView>(r)));
            assert(cli_from(a, 2, r) == Ok::<PartialView, ParseErrorView>(r));
            assert(cli_from(a, 1, q) == cli_from(a, 2, r));
        },
    }
}

#[verifier::rlimit(30)]
proof fn lemma_switch_last(flag: Seq<char>, w: Seq<char>)
    requires
        switch_flag(flag),
        plain_command_word(w),
    ensures
        cli_from(seq![w, flag], 0, empty_partial()) == with_command(flag_effect(empty_partial(), flag, None), w),
{
    lemma_word_facts(w);
    lemma_switch_facts(flag);
    let e = empty_partial();
    let a = seq![w, flag];
    let named = PartialView { command: Some(plain_command(w)), ..e };
    assert(a[0] == w && a[1] == flag);
    assert(cli_step(a, 0, e) == super::args::then_at(1, Ok::<PartialView, ParseErrorView>(named)));
    lemma_flags_leave_the_command(e, Some(plain_command(w)), flag, None);
    assert(cli_step(a, 1, named) == super::args::then_at(2, flag_effect(named, flag, None)));
    match flag_effect(named, flag, None) {
        Err(_) => {},
        Ok(r) => {
            assert(cli_from(a, 2, r) == Ok::<PartialView, ParseErrorView>(r));
        },
    }
    assert(cli_from(a, 0, e) == cli_from(a, 1, named));
}

/// A switch (`-q`, `--hex`, ...) reads the same before or after `run`,
/// `stack` or `bridge`.
pub proof fn lemma_switch_reads_the_same_either_side(flag: Seq<char>, w: Seq<char>)
    requires
        switch_flag(flag),
        plain_command_word(w),
    ensures
        cli_from(seq![flag, w], 0, empty_partial()) == cli_from(seq![w, flag], 0, empty_partial()),
{
    lemma_switch_first(flag, w);
    lemma_switch_last(flag, w);
}

/// The numeric flags hold their bounds: a value that is no number is
/// `invalid number: V`; a number above the bound (255 for `--ttl`, 100 for
/// `--drop-pct`, 65535 for `--id`) is refused with the bound; anything else
/// sets that one setting and nothing more. (On a refusal `apply_flag` leaves
/// the layer as it was.)
pub proof fn lemma_number_flags_hold_their_bounds(p: PartialView, v: Seq<char>)
    ensures
        count_result(v) is Err ==> flag_effect(p, "--ttl"@, Some(v)) == Err::<PartialView, ParseErrorView>(msg_view("invalid number: "@ + v))
            && flag_effect(p, "--drop-pct"@, Some(v)) == Err::<PartialView, ParseErrorView>(msg_view("invalid number: "@ + v))
            && flag_effect(p, "--id"@, Some(v)) == Err::<PartialView, ParseErrorView>(msg_view("invalid number: "@ + v)),
        count_result(v) matches Ok(n) ==> {
            &&& n > 255 ==> flag_effect(p, "--ttl"@, Some(v)) == Err::<PartialView, ParseErrorView>(
                usage_view("ttl must be 0-255"@, flag_usage_text("--ttl"@)),
            )
            &&& n <= 255 ==> flag_effect(p, "--ttl"@, Some(v)) == Ok::<PartialView, ParseErrorView>(
                PartialView { ttl: Some(low_u8(n)), ..p },
            )
            &&& n > 100 ==> flag_effect(p, "--drop-pct"@, Some(v)) == Err::<PartialView, ParseErrorView>(
                usage_view("drop-pct must be 0-100"@, flag_usage_text("--drop-pct"@)),
            )
            &&& n <= 100 ==> flag_effect(p, "--drop-pct"@, Some(v)) == Ok::<PartialView, ParseErrorView>(
                PartialView { drop_pct: Some(low_u8(n)), ..p },
            )
            &&& n > 65535 ==> flag_effect(p, "--id"@, Some(v)) == Err::<PartialView, ParseErrorView>(
                usage_view("id must be 0-65535"@, flag_usage_text("--id"@)),
            )
            &&& n <= 65535 ==> flag_effect(p, "--id"@, Some(v)) == Ok::<PartialView, ParseErrorView>(
                PartialView { icmp_id: Some(low_u16(n)), ..p },
            )
        },
{
    lemma_flag_spellings();
}

} // verus!
