//! What the `tap` and `identity` commands print, and how their setters
//! change minitcp.toml: a key's old assignments go, the new one is written
//! where top-level keys live, and everything else in the file stays as it
//! was.

use vstd::prelude::*;
use crate::parse::{skip_space, trim_start};
use crate::proto::ethernet::mac_text;
use crate::proto::ipv4::ipv4_text;
use crate::text::{chars_of, has_prefix, hex2, lines_of, owned, push_char, push_hex2, push_lines, push_str};
use super::command::{Command, CommandView};
use super::options::{Config, ConfigView};

verus! {

/// `key` with its dashes written as underscores, the other spelling the
/// settings file accepts.
pub open spec fn underscored(key: Seq<char>) -> Seq<char> {
    Seq::new(key.len(), |i: int| if key[i] == '-' { '_' } else { key[i] })
}

/// Whether a line of the settings file assigns `key`: the key, then `=`,
/// white space allowed around both.
pub open spec fn assigns(line: Seq<char>, key: Seq<char>) -> bool {
    let t = trim_start(line);
    has_prefix(t, key) && {
        let r = trim_start(t.subrange(key.len() as int, t.len() as int));
        r.len() > 0 && r[0] == '='
    }
}

/// Whether a line assigns `key` in either of its spellings.
pub open spec fn assigns_key(line: Seq<char>, key: Seq<char>) -> bool {
    assigns(line, key) || assigns(line, underscored(key))
}

/// Whether a line opens a table (`[name]`), after which keys belong to it.
pub open spec fn starts_table(line: Seq<char>) -> bool {
    let t = trim_start(line);
    t.len() > 0 && t[0] == '['
}

/// The index of the first line from `i` on that opens a table, or the
/// number of lines when none does.
pub open spec fn first_table_from(ls: Seq<Seq<char>>, i: int) -> int
    decreases ls.len() - i,
{
    if i < 0 || i >= ls.len() {
        ls.len() as int
    } else if starts_table(ls[i]) {
        i
    } else {
        first_table_from(ls, i + 1)
    }
}

/// Lines written back, each ended with a line break.
pub open spec fn rejoined(ls: Seq<Seq<char>>) -> Seq<char>
    decreases ls.len(),
{
    if ls.len() == 0 {
        Seq::empty()
    } else {
        rejoined(ls.drop_last()) + ls.last() + seq!['\n']
    }
}

/// Lines written back without those that assign `key`.
pub open spec fn rejoined_without(ls: Seq<Seq<char>>, key: Seq<char>) -> Seq<char>
    decreases ls.len(),
{
    if ls.len() == 0 {
        Seq::empty()
    } else {
        rejoined_without(ls.drop_last(), key) + if assigns_key(ls.last(), key) {
            Seq::empty()
        } else {
            ls.last() + seq!['\n']
        }
    }
}

/// A character as it is written inside a TOML basic string.
pub open spec fn escaped_char(c: char) -> Seq<char> {
    if c == '\\' {
        seq!['\\', '\\']
    } else if c == '"' {
        seq!['\\', '"']
    } else if c == '\n' {
        seq!['\\', 'n']
    } else if c == '\t' {
        seq!['\\', 't']
    } else if c == '\r' {
        seq!['\\', 'r']
    } else if (c as u32) < 0x20 || (c as u32) == 0x7f {
        seq!['\\', 'u', '0', '0'] + hex2((c as u32) as u8)
    } else {
        seq![c]
    }
}

/// Text as it is written inside a TOML basic string.
pub open spec fn escaped(s: Seq<char>) -> Seq<char>
    decreases s.len(),
{
    if s.len() == 0 {
        Seq::empty()
    } else {
        escaped(s.drop_last()) + escaped_char(s.last())
    }
}

/// The line that sets `key` to the string `value`.
pub open spec fn assignment(key: Seq<char>, value: Seq<char>) -> Seq<char> {
    key + " = \""@ + escaped(value) + "\"\n"@
}

/// The settings file with `key` set to `value`: earlier top-level
/// assignments of the key dropped, the new one after the remaining
/// top-level lines, and any tables after it untouched.
pub open spec fn config_with_text(text: Seq<char>, key: Seq<char>, value: Seq<char>) -> Seq<char> {
    let ls = lines_of(text);
    let h = first_table_from(ls, 0);
    rejoined_without(ls.subrange(0, h), key) + assignment(key, value) + rejoined(ls.subrange(h, ls.len() as int))
}

/// Whether `line` assigns `key`.
fn line_assigns(line: &Vec<char>, key: &Vec<char>) -> (r: bool)
    ensures
        r == assigns(line@, key@),
{
    let n = line.len();
    let k = key.len();
    let a = skip_space(line, 0);
    assert(line@.subrange(0, n as int) =~= line@);
    let ghost t = line@.subrange(a as int, n as int);
    if n - a < k {
        return false;
    }
    let mut j: usize = 0;
    while j < k
        invariant
            n == line@.len(),
            k == key@.len(),
            a + k <= n,
            t == line@.subrange(a as int, n as int),
            trim_start(line@) == t,
            j <= k,
            forall|m: int| 0 <= m < j ==> line@[a + m] == key@[m],
        decreases k - j,
    {
        if line[a + j] != key[j] {
            assert(t.subrange(0, k as int)[j as int] == line@[a + j]);
            assert(t.subrange(0, k as int) != key@);
            assert(!has_prefix(t, key@));
            return false;
        }
        j = j + 1;
    }
    assert(t.subrange(0, k as int) =~= key@);
    let b = skip_space(line, a + k);
    assert(t.subrange(k as int, t.len() as int) =~= line@.subrange(a + k, n as int));
    b < n && line[b] == '='
}

/// `key` with dashes as underscores.
fn underscore(key: &Vec<char>) -> (u: Vec<char>)
    ensures
        u@ == underscored(key@),
{
    let mut u: Vec<char> = Vec::new();
    let mut i: usize = 0;
    while i < key.len()
        invariant
            i <= key@.len(),
            u@ == underscored(key@).subrange(0, i as int),
        decreases key@.len() - i,
    {
        if key[i] == '-' {
            u.push('_');
        } else {
            u.push(key[i]);
        }
        i = i + 1;
        assert(u@ =~= underscored(key@).subrange(0, i as int));
    }
    assert(underscored(key@).subrange(0, key@.len() as int) =~= underscored(key@));
    u
}

fn is_table(line: &Vec<char>) -> (r: bool)
    ensures
        r == starts_table(line@),
{
    let a = skip_space(line, 0);
    assert(line@.subrange(0, line@.len() as int) =~= line@);
    a < line.len() && line[a] == '['
}

/// Appends `value` written inside a TOML basic string.
fn push_escaped(s: &mut String, value: &str)
    ensures
        final(s)@ == old(s)@ + escaped(value@),
{
    let cs = chars_of(value);
    let ghost start = s@;
    let mut i: usize = 0;
    assert(cs@.subrange(0, 0) =~= Seq::<char>::empty());
    while i < cs.len()
        invariant
            i <= cs@.len(),
            cs@ == value@,
            s@ == start + escaped(cs@.subrange(0, i as int)),
        decreases cs@.len() - i,
    {
        let c = cs[i];
        let v = c as u32;
        if c == '\\' {
            push_str(s, "\\\\");
        } else if c == '"' {
            push_str(s, "\\\"");
        } else if c == '\n' {
            push_str(s, "\\n");
        } else if c == '\t' {
            push_str(s, "\\t");
        } else if c == '\r' {
            push_str(s, "\\r");
        } else if v < 0x20 || v == 0x7f {
            push_str(s, "\\u00");
            push_hex2(s, v as u8);
        } else {
            push_char(s, c);
        }
        proof {
            reveal_strlit("\\\\");
            reveal_strlit("\\\"");
            reveal_strlit("\\n");
            reveal_strlit("\\t");
            reveal_strlit("\\r");
            reveal_strlit("\\u00");
            let done = cs@.subrange(0, i + 1);
            assert(done.drop_last() =~= cs@.subrange(0, i as int));
            assert(done.last() == c);
        }
        i = i + 1;
    }
    assert(cs@.subrange(0, cs@.len() as int) =~= value@);
}

/// The settings file `text` with `key` set to the string `value`.
pub fn config_with(text: &str, key: &str, value: &str) -> (s: String)
    ensures
        s@ == config_with_text(text@, key@, value@),
{
    let mut ls: Vec<String> = Vec::new();
    push_lines(&mut ls, text);
    assert(ls.deep_view() =~= lines_of(text@));
    let ghost all = lines_of(text@);
    let kc = chars_of(key);
    let uc = underscore(&kc);
    let n = ls.len();
    let mut s = String::new();
    let mut i: usize = 0;
    while i < n
        invariant
            n == ls@.len(),
            ls.deep_view() == all,
            kc@ == key@,
            uc@ == underscored(key@),
            i <= n,
            forall|j: int| 0 <= j < i ==> !starts_table(#[trigger] all[j]),
            first_table_from(all, 0) == first_table_from(all, i as int),
            s@ == rejoined_without(all.subrange(0, i as int), key@),
        ensures
            i == n || (i < n && starts_table(all[i as int])),
        decreases n - i,
    {
        let line = chars_of(ls[i].as_str());
        assert(line@ == all[i as int]);
        if is_table(&line) {
            break;
        }
        if !line_assigns(&line, &kc) && !line_assigns(&line, &uc) {
            push_str(&mut s, ls[i].as_str());
            push_char(&mut s, '\n');
        }
        proof {
            let before = all.subrange(0, i as int);
            let after = all.subrange(0, i + 1);
            assert(after.drop_last() =~= before);
            assert(after.last() == all[i as int]);
        }
        i = i + 1;
    }
    let h = i;
    assert(first_table_from(all, i as int) == i as int);
    assert(first_table_from(all, 0) == h as int);
    push_str(&mut s, key);
    push_str(&mut s, " = \"");
    push_escaped(&mut s, value);
    push_str(&mut s, "\"\n");
    let ghost head = s@;
    assert(head =~= rejoined_without(all.subrange(0, h as int), key@) + assignment(key@, value@));
    let mut j: usize = h;
    assert(all.subrange(h as int, h as int) =~= Seq::<Seq<char>>::empty());
    while j < n
        invariant
            n == ls@.len(),
            ls.deep_view() == all,
            h <= j <= n,
            s@ == head + rejoined(all.subrange(h as int, j as int)),
        decreases n - j,
    {
        assert(ls@[j as int]@ == all[j as int]);
        push_str(&mut s, ls[j].as_str());
        push_char(&mut s, '\n');
        proof {
            let before = all.subrange(h as int, j as int);
            let after = all.subrange(h as int, j + 1);
            assert(after.drop_last() =~= before);
            assert(after.last() == all[j as int]);
        }
        j = j + 1;
    }
    s
}

/// The key and value a setter command writes, if it is one.
pub open spec fn setting_of(c: CommandView) -> Option<(Seq<char>, Seq<char>)> {
    match c {
        CommandView::TapSetIface(name) => Some(("iface"@, name)),
        CommandView::TapSetAddr(ip) => Some(("linux-addr"@, ipv4_text(ip.0@))),
        CommandView::TapSetTun(path) => Some(("tun"@, path)),
        CommandView::IdentitySetAddr(ip) => Some(("addr"@, ipv4_text(ip.0@))),
        CommandView::IdentitySetMac(mac) => Some(("mac"@, mac_text(mac.0@))),
        _ => None,
    }
}

/// The key and value a setter command writes to minitcp.toml.
pub fn setting(c: &Command) -> (r: Option<(String, String)>)
    ensures
        match setting_of(c@) {
            Some((k, v)) => r matches Some(p) && p.0@ == k && p.1@ == v,
            None => r is None,
        },
{
    match c {
        Command::TapSetIface(name) => Some((owned("iface"), owned(name.as_str()))),
        Command::TapSetAddr(ip) => Some((owned("linux-addr"), ip.to_string())),
        Command::TapSetTun(path) => Some((owned("tun"), owned(path.as_str()))),
        Command::IdentitySetAddr(ip) => Some((owned("addr"), ip.to_string())),
        Command::IdentitySetMac(mac) => Some((owned("mac"), mac.to_string())),
        _ => None,
    }
}

/// What `minitcp tap` prints: the TAP's settings and where its setters
/// write.
pub open spec fn tap_show_text(c: ConfigView) -> Seq<char> {
    "iface  "@ + c.iface + "\naddr   "@ + ipv4_text(c.linux_addr.0@) + "\ntun    "@ + c.tun
        + "\n\nminitcp tap iface NAME  writes "@ + c.config_path + "\n"@
}

/// What `minitcp identity` prints: MiniTCP's addresses and where its
/// setters write.
pub open spec fn identity_show_text(c: ConfigView) -> Seq<char> {
    "addr  "@ + ipv4_text(c.addr.0@) + "\nmac   "@ + mac_text(c.mac.0@) + "\n\nminitcp identity addr IP  writes "@
        + c.config_path + "\n"@
}

/// What `minitcp tap` prints.
pub fn tap_show(c: &Config) -> (s: String)
    ensures
        s@ == tap_show_text(c@),
{
    let mut s = owned("iface  ");
    push_str(&mut s, c.iface.as_str());
    push_str(&mut s, "\naddr   ");
    let a = c.linux_addr.to_string();
    push_str(&mut s, a.as_str());
    push_str(&mut s, "\ntun    ");
    push_str(&mut s, c.tun.as_str());
    push_str(&mut s, "\n\nminitcp tap iface NAME  writes ");
    push_str(&mut s, c.config_path.as_str());
    push_str(&mut s, "\n");
    s
}

/// What `minitcp identity` prints.
pub fn identity_show(c: &Config) -> (s: String)
    ensures
        s@ == identity_show_text(c@),
{
    let mut s = owned("addr  ");
    let a = c.addr.to_string();
    push_str(&mut s, a.as_str());
    push_str(&mut s, "\nmac   ");
    let m = c.mac.to_string();
    push_str(&mut s, m.as_str());
    push_str(&mut s, "\n\nminitcp identity addr IP  writes ");
    push_str(&mut s, c.config_path.as_str());
    push_str(&mut s, "\n");
    s
}

/// The status message after a setter wrote the file.
pub fn wrote_message(key: &str, value: &str, path: &str) -> (s: String)
    ensures
        s@ == "wrote "@ + key@ + " = "@ + value@ + "  ("@ + path@ + ")"@,
{
    let mut s = owned("wrote ");
    push_str(&mut s, key);
    push_str(&mut s, " = ");
    push_str(&mut s, value);
    push_str(&mut s, "  (");
    push_str(&mut s, path);
    push_str(&mut s, ")");
    s
}

} // verus!
