//! Reading values out of text the way the standard library reads them:
//! trimming white space, lowercasing ASCII, decimal `u64` (`str::parse`),
//! dotted-quad IPv4 addresses (`Ipv4Addr::from_str`) and hexadecimal bytes.

use vstd::prelude::*;
use crate::proto::ethernet::{MacAddress, mac_text};
use crate::proto::ipv4::{Ipv4Addr, ipv4_text};
use crate::text::{chars_of, decimal, decimal_u16, decimal_u64, decimal_u8, find_char, hex2, hex_digit, is_space, lemma_split_none, lemma_split_piece, space, split_chars, split_on, string_between, string_of};

verus! {

/// `s` without its leading white space.
pub open spec fn trim_start(s: Seq<char>) -> Seq<char>
    decreases s.len(),
{
    if s.len() > 0 && is_space(s[0]) {
        trim_start(s.drop_first())
    } else {
        s
    }
}

/// `s` without its trailing white space.
pub open spec fn trim_end(s: Seq<char>) -> Seq<char>
    decreases s.len(),
{
    if s.len() > 0 && is_space(s.last()) {
        trim_end(s.drop_last())
    } else {
        s
    }
}

/// `str::trim`: `s` without leading or trailing white space.
pub open spec fn trimmed(s: Seq<char>) -> Seq<char> {
    trim_end(trim_start(s))
}

proof fn lemma_trim_start_from(s: Seq<char>, a: int)
    requires
        0 <= a <= s.len(),
        forall|j: int| 0 <= j < a ==> is_space(s[j]),
        a < s.len() ==> !is_space(s[a]),
    ensures
        trim_start(s) == s.subrange(a, s.len() as int),
    decreases a,
{
    if a == 0 {
        assert(s.subrange(0, s.len() as int) =~= s);
    } else {
        let t = s.drop_first();
        assert forall|j: int| 0 <= j < a - 1 implies is_space(t[j]) by {
            assert(t[j] == s[j + 1]);
        }
        lemma_trim_start_from(t, a - 1);
        assert(t.subrange(a - 1, t.len() as int) =~= s.subrange(a, s.len() as int));
    }
}

proof fn lemma_trim_end_to(s: Seq<char>, b: int)
    requires
        0 <= b <= s.len(),
        forall|j: int| b <= j < s.len() ==> is_space(s[j]),
        b > 0 ==> !is_space(s[b - 1]),
    ensures
        trim_end(s) == s.subrange(0, b),
    decreases s.len() - b,
{
    if b == s.len() {
        assert(s.subrange(0, b) =~= s);
    } else {
        let t = s.drop_last();
        assert forall|j: int| b <= j < t.len() implies is_space(t[j]) by {
            assert(t[j] == s[j]);
        }
        lemma_trim_end_to(t, b);
        assert(t.subrange(0, b) =~= s.subrange(0, b));
    }
}

/// Where the text of `cs` resumes after the white space at `from`: what is
/// left of `cs` from `from` on after `str::trim_start`.
pub fn skip_space(cs: &Vec<char>, from: usize) -> (a: usize)
    requires
        from <= cs@.len(),
    ensures
        from <= a <= cs@.len(),
        trim_start(cs@.subrange(from as int, cs@.len() as int)) == cs@.subrange(a as int, cs@.len() as int),
{
    let mut a = from;
    while a < cs.len() && space(cs[a])
        invariant
            from <= a <= cs@.len(),
            forall|j: int| from <= j < a ==> is_space(cs@[j]),
        decreases cs@.len() - a,
    {
        a = a + 1;
    }
    proof {
        let t = cs@.subrange(from as int, cs@.len() as int);
        assert forall|j: int| 0 <= j < a - from implies is_space(t[j]) by {
            assert(t[j] == cs@[from + j]);
        }
        if a < cs@.len() {
            assert(t[a - from] == cs@[a as int]);
        }
        lemma_trim_start_from(t, a - from);
        assert(t.subrange(a - from, t.len() as int) =~= cs@.subrange(a as int, cs@.len() as int));
    }
    a
}

/// `s` without leading or trailing white space (`str::trim`).
pub fn trim(s: &str) -> (r: String)
    ensures
        r@ == trimmed(s@),
{
    let cs = chars_of(s);
    let mut a: usize = 0;
    while a < cs.len() && space(cs[a])
        invariant
            cs@ == s@,
            a <= cs@.len(),
            forall|j: int| 0 <= j < a ==> is_space(cs@[j]),
        decreases cs@.len() - a,
    {
        a = a + 1;
    }
    let mut b: usize = cs.len();
    while b > a && space(cs[b - 1])
        invariant
            cs@ == s@,
            a <= b <= cs@.len(),
            forall|j: int| b <= j < cs@.len() ==> is_space(cs@[j]),
        decreases b,
    {
        b = b - 1;
    }
    proof {
        lemma_trim_start_from(s@, a as int);
        let t = s@.subrange(a as int, s@.len() as int);
        assert forall|j: int| b - a <= j < t.len() implies is_space(t[j]) by {
            assert(t[j] == s@[a + j]);
        }
        if b > a {
            assert(t[b - a - 1] == s@[b - 1]);
        }
        lemma_trim_end_to(t, b - a);
        assert(t.subrange(0, b - a) =~= s@.subrange(a as int, b as int));
    }
    string_between(&cs, a, b)
}

/// An ASCII uppercase letter made lowercase; anything else unchanged.
pub open spec fn lower_char(c: char) -> char {
    if 'A' <= c && c <= 'Z' {
        ((c as u32) + 32) as char
    } else {
        c
    }
}

/// `str::to_ascii_lowercase`.
pub open spec fn lower(s: Seq<char>) -> Seq<char> {
    Seq::new(s.len(), |i: int| lower_char(s[i]))
}

fn lower_one(c: char) -> (r: char)
    ensures
        r == lower_char(c),
{
    if 'A' <= c && c <= 'Z' {
        let n = c as u32;
        ((n + 32) as u8) as char
    } else {
        c
    }
}

/// The ASCII letters of `s` lowercased (`str::to_ascii_lowercase`).
pub fn to_lower(s: &str) -> (r: String)
    ensures
        r@ == lower(s@),
{
    let cs = chars_of(s);
    let mut out: Vec<char> = Vec::new();
    let mut i: usize = 0;
    while i < cs.len()
        invariant
            cs@ == s@,
            i <= cs@.len(),
            out@ == lower(s@).subrange(0, i as int),
        decreases cs@.len() - i,
    {
        out.push(lower_one(cs[i]));
        i = i + 1;
        assert(out@ =~= lower(s@).subrange(0, i as int));
    }
    assert(lower(s@).subrange(0, cs@.len() as int) =~= lower(s@));
    string_of(&out)
}

/// An ASCII decimal digit.
pub open spec fn is_digit(c: char) -> bool {
    '0' <= c && c <= '9'
}

/// The value of a decimal digit.
pub open spec fn digit_value(c: char) -> nat {
    ((c as u32) - ('0' as u32)) as nat
}

/// Every character is a decimal digit.
pub open spec fn all_digits(s: Seq<char>) -> bool {
    forall|i: int| 0 <= i < s.len() ==> is_digit(#[trigger] s[i])
}

/// The number the decimal digits of `s` spell.
pub open spec fn digits_value(s: Seq<char>) -> nat
    decreases s.len(),
{
    if s.len() == 0 {
        0
    } else {
        digits_value(s.drop_last()) * 10 + digit_value(s.last())
    }
}

/// What `str::parse::<u64>` makes of `s`: an optional `+`, then at least one
/// decimal digit, and a value that fits.
pub open spec fn parse_u64_spec(s: Seq<char>) -> Option<u64> {
    let body = if s.len() > 0 && s[0] == '+' {
        s.drop_first()
    } else {
        s
    };
    if body.len() > 0 && all_digits(body) && digits_value(body) <= u64::MAX {
        Some(digits_value(body) as u64)
    } else {
        None
    }
}

fn digit_of(c: char) -> (d: u64)
    requires
        is_digit(c),
    ensures
        d == digit_value(c),
        d < 10,
{
    let n = c as u32;
    (n - 48) as u64
}

proof fn lemma_digits_push(s: Seq<char>, c: char)
    ensures
        digits_value(s.push(c)) == digits_value(s) * 10 + digit_value(c),
{
    assert(s.push(c).drop_last() =~= s);
}

proof fn lemma_digits_grow(s: Seq<char>, n: int)
    requires
        0 <= n <= s.len(),
        all_digits(s),
    ensures
        digits_value(s.subrange(0, n)) <= digits_value(s),
    decreases s.len() - n,
{
    if n < s.len() {
        lemma_digits_grow(s, n + 1);
        let t = s.subrange(0, n + 1);
        assert(t.drop_last() =~= s.subrange(0, n));
    } else {
        assert(s.subrange(0, n) =~= s);
    }
}

/// Reads a decimal `u64` as `str::parse` does: an optional `+`, then digits.
pub fn parse_u64(s: &str) -> (r: Option<u64>)
    ensures
        r == parse_u64_spec(s@),
{
    let cs = chars_of(s);
    let start: usize = if cs.len() > 0 && cs[0] == '+' { 1 } else { 0 };
    let ghost body = if s@.len() > 0 && s@[0] == '+' { s@.drop_first() } else { s@ };
    assert(body =~= cs@.subrange(start as int, cs@.len() as int));
    if start >= cs.len() {
        return None;
    }
    let mut value: u64 = 0;
    let mut i = start;
    while i < cs.len()
        invariant
            cs@ == s@,
            start <= i <= cs@.len(),
            body == cs@.subrange(start as int, cs@.len() as int),
            body == (if s@.len() > 0 && s@[0] == '+' { s@.drop_first() } else { s@ }),
            all_digits(cs@.subrange(start as int, i as int)),
            value == digits_value(cs@.subrange(start as int, i as int)),
        decreases cs@.len() - i,
    {
        let c = cs[i];
        if !('0' <= c && c <= '9') {
            assert(body[i - start] == c);
            assert(!is_digit(body[i - start]));
            assert(!all_digits(body));
            return None;
        }
        let d = digit_of(c);
        proof {
            assert(cs@.subrange(start as int, i + 1) =~= cs@.subrange(start as int, i as int).push(c));
            lemma_digits_push(cs@.subrange(start as int, i as int), c);
        }
        if value > (u64::MAX - d) / 10 {
            proof {
                assert(digits_value(cs@.subrange(start as int, i + 1)) > u64::MAX) by (nonlinear_arith)
                    requires
                        digits_value(cs@.subrange(start as int, i + 1)) == value * 10 + d,
                        value > (u64::MAX - d) / 10,
                        d < 10,
                ;
                let rest = cs@.subrange(i + 1, cs@.len() as int);
                if all_digits(body) {
                    lemma_digits_grow(body, i + 1 - start);
                    assert(body.subrange(0, i + 1 - start) =~= cs@.subrange(start as int, i + 1));
                }
            }
            return None;
        }
        value = value * 10 + d;
        i = i + 1;
    }
    assert(cs@.subrange(start as int, cs@.len() as int) =~= body);
    Some(value)
}

/// A piece of a dotted quad: one to three digits, no leading zero unless the
/// piece is `0`, and a value below 256.
pub open spec fn octet_spec(p: Seq<char>) -> Option<u8> {
    if 1 <= p.len() <= 3 && all_digits(p) && !(p.len() > 1 && p[0] == '0') && digits_value(p) <= 255 {
        Some(digits_value(p) as u8)
    } else {
        None
    }
}

/// Reads one piece of a dotted quad.
pub fn parse_octet(p: &str) -> (r: Option<u8>)
    ensures
        r == octet_spec(p@),
{
    let cs = chars_of(p);
    if cs.len() < 1 || cs.len() > 3 {
        return None;
    }
    if cs.len() > 1 && cs[0] == '0' {
        return None;
    }
    let mut value: u64 = 0;
    let mut i: usize = 0;
    while i < cs.len()
        invariant
            cs@ == p@,
            1 <= cs@.len() <= 3,
            i <= cs@.len(),
            all_digits(cs@.subrange(0, i as int)),
            value == digits_value(cs@.subrange(0, i as int)),
            value < 1000,
        decreases cs@.len() - i,
    {
        let c = cs[i];
        if !('0' <= c && c <= '9') {
            return None;
        }
        let d = digit_of(c);
        proof {
            assert(cs@.subrange(0, i + 1) =~= cs@.subrange(0, i as int).push(c));
            lemma_digits_push(cs@.subrange(0, i as int), c);
            lemma_digits_below(cs@.subrange(0, i + 1));
        }
        value = value * 10 + d;
        i = i + 1;
    }
    assert(cs@.subrange(0, cs@.len() as int) =~= cs@);
    if value > 255 {
        return None;
    }
    Some(value as u8)
}

proof fn lemma_digit_below_ten(c: char)
    requires
        is_digit(c),
    ensures
        digit_value(c) < 10,
{
}

proof fn lemma_digits_below(s: Seq<char>)
    requires
        all_digits(s),
        s.len() <= 3,
    ensures
        s.len() <= 1 ==> digits_value(s) < 10,
        s.len() <= 2 ==> digits_value(s) < 100,
        digits_value(s) < 1000,
    decreases s.len(),
{
    if s.len() > 0 {
        let t = s.drop_last();
        assert(all_digits(t)) by {
            assert forall|i: int| 0 <= i < t.len() implies is_digit(#[trigger] t[i]) by {
                assert(t[i] == s[i]);
            }
        }
        lemma_digits_below(t);
        assert(is_digit(s[s.len() - 1]));
        lemma_digit_below_ten(s.last());
    }
}

/// What `Ipv4Addr::from_str` makes of `s`: exactly four dot-separated
/// pieces, each an octet.
pub open spec fn ipv4_spec(s: Seq<char>) -> Option<Ipv4Addr> {
    let parts = split_on(s, '.');
    if parts.len() == 4 && octet_spec(parts[0]) is Some && octet_spec(parts[1]) is Some && octet_spec(parts[2]) is Some
        && octet_spec(parts[3]) is Some {
        Some(
            Ipv4Addr(
                [
                    octet_spec(parts[0])->0,
                    octet_spec(parts[1])->0,
                    octet_spec(parts[2])->0,
                    octet_spec(parts[3])->0,
                ],
            ),
        )
    } else {
        None
    }
}

/// Reads a dotted-quad IPv4 address as `Ipv4Addr::from_str` does.
pub fn parse_ipv4_addr(s: &str) -> (r: Option<Ipv4Addr>)
    ensures
        r == ipv4_spec(s@),
{
    let parts = split_chars(s, '.');
    if parts.len() != 4 {
        return None;
    }
    let a = parse_octet(parts[0].as_str());
    let b = parse_octet(parts[1].as_str());
    let c = parse_octet(parts[2].as_str());
    let d = parse_octet(parts[3].as_str());
    match (a, b, c, d) {
        (Some(a), Some(b), Some(c), Some(d)) => Some(Ipv4Addr([a, b, c, d])),
        _ => None,
    }
}

/// The value of a hexadecimal digit, either case.
pub open spec fn hex_value(c: char) -> Option<nat> {
    if '0' <= c && c <= '9' {
        Some(((c as u32) - 48) as nat)
    } else if 'a' <= c && c <= 'f' {
        Some(((c as u32) - 87) as nat)
    } else if 'A' <= c && c <= 'F' {
        Some(((c as u32) - 55) as nat)
    } else {
        None
    }
}

/// The value of a hexadecimal digit.
pub fn hex_digit_value(c: char) -> (r: Option<u8>)
    ensures
        r matches Some(v) ==> hex_value(c) == Some(v as nat) && v < 16,
        r is None ==> hex_value(c) is None,
{
    let n = c as u32;
    if '0' <= c && c <= '9' {
        Some((n - 48) as u8)
    } else if 'a' <= c && c <= 'f' {
        Some((n - 87) as u8)
    } else if 'A' <= c && c <= 'F' {
        Some((n - 55) as u8)
    } else {
        None
    }
}

/// A digit as `{:x}` writes it reads back as its value, and is never a
/// MAC separator.
pub(crate) proof fn lemma_hex_digit_reads_back(v: nat)
    requires
        v < 16,
    ensures
        hex_value(hex_digit(v)) == Some(v),
        hex_digit(v) != ':',
        hex_digit(v) != '-',
        (hex_digit(v) as u32) < 0x80,
        !is_space(hex_digit(v)),
{
    if v < 10 {
        assert(hex_digit(v) as u32 == v + 48);
    } else {
        assert(hex_digit(v) as u32 == v + 87);
    }
}

/// One group of a MAC address as `u8::from_str_radix(_, 16)` reads it, held to
/// two bytes of text: two hex digits, or `+` and one.
pub open spec fn mac_group_spec(p: Seq<char>) -> Option<u8> {
    if p.len() == 2 && hex_value(p[0]) is Some && hex_value(p[1]) is Some {
        Some((hex_value(p[0])->0 * 16 + hex_value(p[1])->0) as u8)
    } else if p.len() == 2 && p[0] == '+' && hex_value(p[1]) is Some {
        Some((hex_value(p[1])->0) as u8)
    } else {
        None
    }
}

/// Two digits as `{:02x}` writes a byte read back as that byte, and hold
/// no separator.
proof fn lemma_hex2_reads_back(b: u8)
    ensures
        mac_group_spec(hex2(b)) == Some(b),
        forall|j: int| 0 <= j < hex2(b).len() ==> hex2(b)[j] != ':',
{
    lemma_hex_digit_reads_back(b as nat / 16);
    lemma_hex_digit_reads_back(b as nat % 16);
    assert(hex2(b)[0] == hex_digit(b as nat / 16));
    assert(hex2(b)[1] == hex_digit(b as nat % 16));
}

/// Reads one group of a MAC address.
pub fn parse_mac_group(p: &str) -> (r: Option<u8>)
    ensures
        r == mac_group_spec(p@),
{
    let cs = chars_of(p);
    if cs.len() != 2 {
        return None;
    }
    let lo = match hex_digit_value(cs[1]) {
        Some(v) => v,
        None => return None,
    };
    if cs[0] == '+' {
        return Some(lo);
    }
    match hex_digit_value(cs[0]) {
        Some(hi) => Some(hi * 16 + lo),
        None => None,
    }
}

/// The separator a MAC address is written with: `:` if it has one, else `-`
/// if it has one.
pub open spec fn mac_separator(s: Seq<char>) -> Option<char> {
    if s.contains(':') {
        Some(':')
    } else if s.contains('-') {
        Some('-')
    } else {
        None
    }
}

/// A MAC address: six groups, separated by `:` or `-`.
pub open spec fn mac_spec(s: Seq<char>) -> Option<MacAddress> {
    match mac_separator(s) {
        None => None,
        Some(sep) => {
            let g = split_on(s, sep);
            if g.len() == 6 && mac_group_spec(g[0]) is Some && mac_group_spec(g[1]) is Some && mac_group_spec(
                g[2],
            ) is Some && mac_group_spec(g[3]) is Some && mac_group_spec(g[4]) is Some && mac_group_spec(g[5]) is Some {
                Some(
                    MacAddress(
                        [
                            mac_group_spec(g[0])->0,
                            mac_group_spec(g[1])->0,
                            mac_group_spec(g[2])->0,
                            mac_group_spec(g[3])->0,
                            mac_group_spec(g[4])->0,
                            mac_group_spec(g[5])->0,
                        ],
                    ),
                )
            } else {
                None
            }
        },
    }
}

/// A MAC address as it is printed reads back as that address.
pub proof fn lemma_mac_text_reads_back(m: MacAddress)
    ensures
        mac_spec(mac_text(m.0@)) == Some(m),
{
    let b = m.0@;
    let t5 = hex2(b[5]);
    let t4 = hex2(b[4]) + seq![':'] + t5;
    let t3 = hex2(b[3]) + seq![':'] + t4;
    let t2 = hex2(b[2]) + seq![':'] + t3;
    let t1 = hex2(b[1]) + seq![':'] + t2;
    let t0 = hex2(b[0]) + seq![':'] + t1;
    assert(mac_text(b) =~= t0);
    lemma_hex2_reads_back(b[0]);
    lemma_hex2_reads_back(b[1]);
    lemma_hex2_reads_back(b[2]);
    lemma_hex2_reads_back(b[3]);
    lemma_hex2_reads_back(b[4]);
    lemma_hex2_reads_back(b[5]);
    lemma_split_none(t5, ':');
    lemma_split_piece(hex2(b[4]), ':', t5);
    lemma_split_piece(hex2(b[3]), ':', t4);
    lemma_split_piece(hex2(b[2]), ':', t3);
    lemma_split_piece(hex2(b[1]), ':', t2);
    lemma_split_piece(hex2(b[0]), ':', t1);
    let g = split_on(t0, ':');
    assert(g =~= seq![hex2(b[0]), hex2(b[1]), hex2(b[2]), hex2(b[3]), hex2(b[4]), hex2(b[5])]);
    assert(t0[2] == ':');
    assert(t0.contains(':'));
    assert(m.0 =~= [b[0], b[1], b[2], b[3], b[4], b[5]]);
}

/// Text read as a MAC address is six groups of two characters.
pub proof fn lemma_mac_is_six_pairs(s: Seq<char>)
    requires
        mac_spec(s) is Some,
    ensures
        mac_separator(s) is Some,
        split_on(s, mac_separator(s)->0).len() == 6,
        forall|i: int| 0 <= i < 6 ==> #[trigger] split_on(s, mac_separator(s)->0)[i].len() == 2,
{
}

/// A number as `{}` writes it: decimal digits that spell it, one to three
/// of them below a thousand, and no leading zero.
pub proof fn lemma_decimal_reads_back(n: nat)
    ensures
        decimal(n).len() >= 1,
        all_digits(decimal(n)),
        digits_value(decimal(n)) == n,
        decimal(n).len() > 1 ==> decimal(n)[0] != '0',
        n < 1000 ==> decimal(n).len() <= 3,
    decreases n,
{
    let d = decimal(n);
    if n < 10 {
        assert(d[0] as u32 == n + 48);
        assert(d.drop_last() =~= Seq::<char>::empty());
        assert(d.last() == d[0]);
        assert(digit_value(d[0]) == n);
        assert(digits_value(d.drop_last()) == 0);
    } else {
        lemma_decimal_reads_back(n / 10);
        let h = decimal(n / 10);
        let c = ((n % 10 + 48) as u8) as char;
        assert(c as u32 == n % 10 + 48);
        assert(d == h.push(c));
        assert(d.drop_last() =~= h);
        assert(d.last() == c);
        assert(digit_value(c) == n % 10);
        assert(digits_value(d) == digits_value(h) * 10 + digit_value(c));
        assert((n / 10) * 10 + n % 10 == n);
        assert(d[0] == h[0]);
        if h.len() == 1 {
            assert(n / 10 < 10) by {
                if n / 10 >= 10 {
                    lemma_decimal_reads_back(n / 100);
                    assert(decimal(n / 10) == decimal(n / 10 / 10).push(((n / 10 % 10 + 48) as u8) as char));
                }
            }
            assert(h[0] as u32 == n / 10 + 48);
        }
        if n < 1000 {
            assert(n / 10 < 100);
            if n / 10 >= 10 {
                assert(n / 10 / 10 < 10);
                assert(h == decimal(n / 10 / 10).push(((n / 10 % 10 + 48) as u8) as char));
            }
        }
    }
}

/// A byte as `{}` writes it reads back as one part of a dotted quad.
pub proof fn lemma_octet_reads_back(x: u8)
    ensures
        octet_spec(decimal(x as nat)) == Some(x),
        forall|j: int| 0 <= j < decimal(x as nat).len() ==> #[trigger] decimal(x as nat)[j] != '.',
{
    lemma_decimal_reads_back(x as nat);
    assert forall|j: int| 0 <= j < decimal(x as nat).len() implies #[trigger] decimal(x as nat)[j] != '.' by {
        assert(is_digit(decimal(x as nat)[j]));
    }
}

/// An address as it is printed reads back as that address.
pub proof fn lemma_ipv4_text_reads_back(a: Ipv4Addr)
    ensures
        ipv4_spec(ipv4_text(a.0@)) == Some(a),
{
    let b = a.0@;
    let t3 = decimal(b[3] as nat);
    let t2 = decimal(b[2] as nat) + seq!['.'] + t3;
    let t1 = decimal(b[1] as nat) + seq!['.'] + t2;
    let t0 = decimal(b[0] as nat) + seq!['.'] + t1;
    assert(ipv4_text(b) =~= t0);
    lemma_octet_reads_back(b[0]);
    lemma_octet_reads_back(b[1]);
    lemma_octet_reads_back(b[2]);
    lemma_octet_reads_back(b[3]);
    lemma_split_none(t3, '.');
    lemma_split_piece(decimal(b[2] as nat), '.', t3);
    lemma_split_piece(decimal(b[1] as nat), '.', t2);
    lemma_split_piece(decimal(b[0] as nat), '.', t1);
    assert(split_on(t0, '.') =~= seq![decimal(b[0] as nat), decimal(b[1] as nat), decimal(b[2] as nat), t3]);
    assert(a.0 =~= [b[0], b[1], b[2], b[3]]);
}

/// A number as `{}` writes it reads back as that number.
pub proof fn lemma_u64_text_reads_back(n: u64)
    ensures
        parse_u64_spec(decimal(n as nat)) == Some(n),
{
    lemma_decimal_reads_back(n as nat);
    assert(is_digit(decimal(n as nat)[0]));
}

/// A byte as `{}` writes it reads back as that number.
pub proof fn lemma_u8_text_reads_back(x: u8)
    ensures
        parse_u64_spec(decimal_u8(x)) matches Some(n) && n == x && low_u8(n) == x,
{
    lemma_u64_text_reads_back(x as u64);
}

/// A `u16` as `{}` writes it reads back as that number.
pub proof fn lemma_u16_text_reads_back(x: u16)
    ensures
        parse_u64_spec(decimal_u16(x)) matches Some(n) && n == x && low_u16(n) == x,
{
    lemma_u64_text_reads_back(x as u64);
}

/// A `u64` as `{}` writes it reads back as that number.
pub proof fn lemma_count_text_reads_back(x: u64)
    ensures
        parse_u64_spec(decimal_u64(x)) == Some(x),
{
    lemma_u64_text_reads_back(x);
}

/// Whether `s` holds the character `c`.
pub fn has_char(s: &str, c: char) -> (r: bool)
    ensures
        r == s@.contains(c),
{
    let cs = chars_of(s);
    match find_char(&cs, c) {
        Some(i) => {
            assert(s@[i as int] == c);
            true
        },
        None => false,
    }
}

/// Reads a MAC address such as `02:00:00:00:00:01` or `02-00-00-00-00-01`.
pub fn mac_from_text(s: &str) -> (r: Option<MacAddress>)
    ensures
        r == mac_spec(s@),
{
    let sep = if has_char(s, ':') {
        ':'
    } else if has_char(s, '-') {
        '-'
    } else {
        return None;
    };
    let g = split_chars(s, sep);
    if g.len() != 6 {
        return None;
    }
    let b0 = parse_mac_group(g[0].as_str());
    let b1 = parse_mac_group(g[1].as_str());
    let b2 = parse_mac_group(g[2].as_str());
    let b3 = parse_mac_group(g[3].as_str());
    let b4 = parse_mac_group(g[4].as_str());
    let b5 = parse_mac_group(g[5].as_str());
    match (b0, b1, b2, b3, b4, b5) {
        (Some(b0), Some(b1), Some(b2), Some(b3), Some(b4), Some(b5)) => Some(MacAddress([b0, b1, b2, b3, b4, b5])),
        _ => None,
    }
}

/// A number known to fit in a byte, as a byte.
pub fn narrow_u8(n: u64) -> (r: u8)
    requires
        n <= 255,
    ensures
        r == n,
{
    n as u8
}

/// A number known to fit in 16 bits, as a `u16`.
pub fn narrow_u16(n: u64) -> (r: u16)
    requires
        n <= 65535,
    ensures
        r == n,
{
    n as u16
}

/// The low byte of a number; the number itself when it fits.
pub open spec fn low_u8(n: u64) -> u8 {
    n as u8
}

/// The low 16 bits of a number; the number itself when it fits.
pub open spec fn low_u16(n: u64) -> u16 {
    n as u16
}

} // verus!
