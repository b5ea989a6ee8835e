//! Building and reading text: decimal and hexadecimal numbers, character
//! classes, and the few string operations the rest of the crate needs, each
//! specified over the character sequence of the string.

use vstd::prelude::*;

verus! {

/// Appends one character (`String::push`).
#[verifier::external_body]
pub(crate) fn push_char(s: &mut String, c: char)
    ensures
        final(s)@ == old(s)@.push(c),
{
    s.push(c);
}

/// Appends a string slice.
pub fn push_str(s: &mut String, t: &str)
    ensures
        final(s)@ == old(s)@ + t@,
{
    s.append(t);
}

/// Appends every character of `cs`.
pub fn push_chars(s: &mut String, cs: &Vec<char>)
    ensures
        final(s)@ == old(s)@ + cs@,
{
    let ghost start = s@;
    let mut i: usize = 0;
    while i < cs.len()
        invariant
            i <= cs@.len(),
            s@ == start + cs@.subrange(0, i as int),
        decreases cs@.len() - i,
    {
        push_char(s, cs[i]);
        i = i + 1;
        assert(s@ =~= start + cs@.subrange(0, i as int));
    }
    assert(cs@.subrange(0, cs@.len() as int) =~= cs@);
}

/// A string holding exactly the characters of `cs`.
pub fn string_of(cs: &Vec<char>) -> (s: String)
    ensures
        s@ == cs@,
{
    let mut s = String::new();
    push_chars(&mut s, cs);
    assert(s@ =~= cs@);
    s
}

/// The characters of a string slice.
pub fn chars_of(s: &str) -> (cs: Vec<char>)
    ensures
        cs@ == s@,
{
    let n = s.unicode_len();
    let mut cs: Vec<char> = Vec::new();
    let mut i: usize = 0;
    while i < n
        invariant
            n == s@.len(),
            i <= n,
            cs@ == s@.subrange(0, i as int),
        decreases n - i,
    {
        cs.push(s.get_char(i));
        i = i + 1;
        assert(cs@ =~= s@.subrange(0, i as int));
    }
    assert(s@.subrange(0, n as int) =~= s@);
    cs
}

/// The lowercase hexadecimal digit for a value below 16.
pub open spec fn hex_digit(v: nat) -> char {
    if v < 10 {
        ((v + 48) as u8) as char
    } else {
        ((v + 87) as u8) as char
    }
}

/// Two lowercase hexadecimal digits, as `{:02x}` prints a byte.
pub open spec fn hex2(b: u8) -> Seq<char> {
    seq![hex_digit(b as nat / 16), hex_digit(b as nat % 16)]
}

/// Four lowercase hexadecimal digits, as `{:04x}` prints a `u16`.
pub open spec fn hex4(v: u16) -> Seq<char> {
    hex2((v / 256) as u8) + hex2((v % 256) as u8)
}

fn hex_digit_char(v: u8) -> (c: char)
    requires
        v < 16,
    ensures
        c == hex_digit(v as nat),
{
    if v < 10 {
        ((v + 48) as u8) as char
    } else {
        ((v + 87) as u8) as char
    }
}

/// Appends a byte as two lowercase hexadecimal digits.
pub fn push_hex2(s: &mut String, b: u8)
    ensures
        final(s)@ == old(s)@ + hex2(b),
{
    push_char(s, hex_digit_char(b / 16));
    push_char(s, hex_digit_char(b % 16));
    assert(final(s)@ =~= old(s)@ + hex2(b));
}

/// Appends a `u16` as four lowercase hexadecimal digits.
pub fn push_hex4(s: &mut String, v: u16)
    ensures
        final(s)@ == old(s)@ + hex4(v),
{
    push_hex2(s, (v / 256) as u8);
    push_hex2(s, (v % 256) as u8);
    assert(final(s)@ =~= old(s)@ + hex4(v));
}

/// The decimal digits of `n`, without leading zeros (`0` for zero).
pub open spec fn decimal(n: nat) -> Seq<char>
    decreases n,
{
    if n < 10 {
        seq![((n + 48) as u8) as char]
    } else {
        decimal(n / 10).push(((n % 10 + 48) as u8) as char)
    }
}

/// Appends `n` in decimal, as `{}` prints an unsigned integer.
pub fn push_decimal(s: &mut String, n: u64)
    ensures
        final(s)@ == old(s)@ + decimal(n as nat),
    decreases n,
{
    if n >= 10 {
        push_decimal(s, n / 10);
    }
    push_char(s, ((n % 10 + 48) as u8) as char);
    assert(final(s)@ =~= old(s)@ + decimal(n as nat));
}

/// `n` in decimal.
pub fn decimal_string(n: u64) -> (s: String)
    ensures
        s@ == decimal(n as nat),
{
    let mut s = String::new();
    push_decimal(&mut s, n);
    assert(s@ =~= decimal(n as nat));
    s
}

/// `n` spaces.
pub open spec fn spaces(n: nat) -> Seq<char> {
    Seq::new(n, |i: int| ' ')
}

/// `s` padded on the right with spaces to `width` characters, as `{:<width}`
/// pads; longer text is left as it is.
pub open spec fn pad_right(s: Seq<char>, width: nat) -> Seq<char> {
    if s.len() < width {
        s + spaces((width - s.len()) as nat)
    } else {
        s
    }
}

/// Appends `n` spaces.
pub fn push_spaces(s: &mut String, n: usize)
    ensures
        final(s)@ == old(s)@ + spaces(n as nat),
{
    let ghost start = s@;
    let mut i: usize = 0;
    while i < n
        invariant
            i <= n,
            s@ == start + spaces(i as nat),
        decreases n - i,
    {
        push_char(s, ' ');
        i = i + 1;
        assert(s@ =~= start + spaces(i as nat));
    }
}

/// Appends `t` padded on the right to `width` characters.
pub fn push_padded(s: &mut String, t: &str, width: usize)
    ensures
        final(s)@ == old(s)@ + pad_right(t@, width as nat),
{
    push_str(s, t);
    let n = t.unicode_len();
    if n < width {
        push_spaces(s, width - n);
    }
    assert(final(s)@ =~= old(s)@ + pad_right(t@, width as nat));
}

/// A string holding the characters of `t`.
pub fn owned(t: &str) -> (s: String)
    ensures
        s@ == t@,
{
    let mut s = String::new();
    push_str(&mut s, t);
    assert(s@ =~= t@);
    s
}

/// The decimal digits of a byte.
pub open spec fn decimal_u8(n: u8) -> Seq<char> {
    decimal(n as nat)
}

/// The decimal digits of a `u16`.
pub open spec fn decimal_u16(n: u16) -> Seq<char> {
    decimal(n as nat)
}

/// The decimal digits of a `usize`.
pub open spec fn decimal_usize(n: usize) -> Seq<char> {
    decimal(n as nat)
}

/// Appends a byte in decimal.
pub fn push_u8(s: &mut String, n: u8)
    ensures
        final(s)@ == old(s)@ + decimal_u8(n),
{
    push_decimal(s, n as u64);
}

/// Appends a `u16` in decimal.
pub fn push_u16(s: &mut String, n: u16)
    ensures
        final(s)@ == old(s)@ + decimal_u16(n),
{
    push_decimal(s, n as u64);
}

/// The decimal digits of a `u32`.
pub open spec fn decimal_u32(n: u32) -> Seq<char> {
    decimal(n as nat)
}

/// Appends a `u32` in decimal.
pub fn push_u32(s: &mut String, n: u32)
    ensures
        final(s)@ == old(s)@ + decimal_u32(n),
{
    push_decimal(s, n as u64);
}

/// Appends a `usize` in decimal.
pub fn push_usize(s: &mut String, n: usize)
    ensures
        final(s)@ == old(s)@ + decimal_usize(n),
{
    push_decimal(s, n as u64);
}

/// Whether two strings hold the same characters.
pub fn str_eq(a: &str, b: &str) -> (r: bool)
    ensures
        r == (a@ == b@),
{
    let x = chars_of(a);
    let y = chars_of(b);
    if x.len() != y.len() {
        return false;
    }
    let mut i: usize = 0;
    while i < x.len()
        invariant
            x@ == a@,
            y@ == b@,
            x@.len() == y@.len(),
            i <= x@.len(),
            forall|j: int| 0 <= j < i ==> x@[j] == y@[j],
        decreases x@.len() - i,
    {
        if x[i] != y[i] {
            return false;
        }
        i = i + 1;
    }
    assert(x@ =~= y@);
    true
}

/// `s` begins with `prefix`.
pub open spec fn has_prefix(s: Seq<char>, prefix: Seq<char>) -> bool {
    prefix.len() <= s.len() && s.subrange(0, prefix.len() as int) == prefix
}

/// Whether `s` begins with `prefix` (`str::starts_with`).
pub fn starts_with(s: &str, prefix: &str) -> (r: bool)
    ensures
        r == has_prefix(s@, prefix@),
{
    let x = chars_of(s);
    let p = chars_of(prefix);
    if p.len() > x.len() {
        return false;
    }
    let mut i: usize = 0;
    while i < p.len()
        invariant
            x@ == s@,
            p@ == prefix@,
            p@.len() <= x@.len(),
            i <= p@.len(),
            forall|j: int| 0 <= j < i ==> x@[j] == p@[j],
        decreases p@.len() - i,
    {
        if x[i] != p[i] {
            assert(s@.subrange(0, prefix@.len() as int)[i as int] != prefix@[i as int]);
            return false;
        }
        i = i + 1;
    }
    assert(s@.subrange(0, prefix@.len() as int) =~= prefix@);
    true
}

/// The index of the first `c` in `s`, if any.
pub open spec fn first_index(s: Seq<char>, c: char) -> Option<int> {
    if exists|i: int| 0 <= i < s.len() && s[i] == c {
        Some(choose|i: int| 0 <= i < s.len() && s[i] == c && forall|j: int| 0 <= j < i ==> s[j] != c)
    } else {
        None
    }
}

/// The position of the first `c` in `cs`.
pub fn find_char(cs: &Vec<char>, c: char) -> (r: Option<usize>)
    ensures
        match r {
            Some(i) => i < cs@.len() && cs@[i as int] == c && forall|j: int| 0 <= j < i ==> cs@[j] != c,
            None => forall|j: int| 0 <= j < cs@.len() ==> cs@[j] != c,
        },
        r matches Some(i) ==> first_index(cs@, c) == Some(i as int),
        r is None ==> first_index(cs@, c) is None,
{
    let mut i: usize = 0;
    while i < cs.len()
        invariant
            i <= cs@.len(),
            forall|j: int| 0 <= j < i ==> cs@[j] != c,
        decreases cs@.len() - i,
    {
        if cs[i] == c {
            proof {
                let w = choose|k: int| 0 <= k < cs@.len() && cs@[k] == c && forall|j: int| 0 <= j < k ==> cs@[j] != c;
                assert(0 <= i < cs@.len() && cs@[i as int] == c && forall|j: int| 0 <= j < i ==> cs@[j] != c);
                assert(w == i as int) by {
                    if w < i as int {
                        assert(cs@[w] != c);
                    }
                    if w > i as int {
                    }
                }
            }
            return Some(i);
        }
        i = i + 1;
    }
    None
}

/// The characters `cs[from..to]` as a string.
pub fn string_between(cs: &Vec<char>, from: usize, to: usize) -> (s: String)
    requires
        from <= to <= cs@.len(),
    ensures
        s@ == cs@.subrange(from as int, to as int),
{
    let mut s = String::new();
    let mut i = from;
    while i < to
        invariant
            from <= i <= to,
            to <= cs@.len(),
            s@ == cs@.subrange(from as int, i as int),
        decreases to - i,
    {
        push_char(&mut s, cs[i]);
        i = i + 1;
        assert(s@ =~= cs@.subrange(from as int, i as int));
    }
    s
}

/// The pieces of `s` between the separators `c`, as `str::split` yields
/// them: one more piece than there are separators, empty ones included.
#[verifier::opaque]
pub open spec fn split_on(s: Seq<char>, c: char) -> Seq<Seq<char>>
    decreases s.len(),
{
    match first_index(s, c) {
        Some(i) => if 0 <= i < s.len() {
            seq![s.subrange(0, i)] + split_on(s.subrange(i + 1, s.len() as int), c)
        } else {
            seq![s]
        },
        None => seq![s],
    }
}

/// Splitting at the first separator: the piece before it, then the pieces of
/// what follows.
proof fn lemma_split_at_first(s: Seq<char>, c: char, i: int)
    requires
        0 <= i < s.len(),
        s[i] == c,
        forall|j: int| 0 <= j < i ==> s[j] != c,
    ensures
        split_on(s, c) == seq![s.subrange(0, i)] + split_on(s.subrange(i + 1, s.len() as int), c),
{
    reveal(split_on);
    let w = choose|k: int| 0 <= k < s.len() && s[k] == c && forall|j: int| 0 <= j < k ==> s[j] != c;
    assert(0 <= i < s.len() && s[i] == c && forall|j: int| 0 <= j < i ==> s[j] != c);
    assert(w == i) by {
        if w < i {
            assert(s[w] != c);
        }
        if w > i {
            assert(s[i] != c);
        }
    }
}

/// Without a separator there is one piece, the whole.
pub proof fn lemma_split_none(s: Seq<char>, c: char)
    requires
        forall|j: int| 0 <= j < s.len() ==> s[j] != c,
    ensures
        split_on(s, c) == seq![s],
{
    reveal(split_on);
}

/// A piece without the separator, then the separator: that piece comes
/// first, then the pieces of the rest.
pub proof fn lemma_split_piece(a: Seq<char>, c: char, rest: Seq<char>)
    requires
        forall|j: int| 0 <= j < a.len() ==> a[j] != c,
    ensures
        split_on(a + seq![c] + rest, c) == seq![a] + split_on(rest, c),
{
    let s = a + seq![c] + rest;
    lemma_split_at_first(s, c, a.len() as int);
    assert(s.subrange(0, a.len() as int) =~= a);
    assert(s.subrange(a.len() as int + 1, s.len() as int) =~= rest);
}

/// The pieces of `s` between the separators `c`.
pub fn split_chars(s: &str, c: char) -> (parts: Vec<String>)
    ensures
        parts@.len() == split_on(s@, c).len(),
        forall|k: int| 0 <= k < parts@.len() ==> #[trigger] parts@[k]@ == split_on(s@, c)[k],
{
    let cs = chars_of(s);
    let mut parts: Vec<String> = Vec::new();
    let mut start: usize = 0;
    let mut i: usize = 0;
    let ghost mut done: Seq<Seq<char>> = Seq::empty();
    assert(cs@.subrange(0, cs@.len() as int) =~= cs@);
    assert(done + split_on(cs@, c) =~= split_on(cs@, c));
    while i < cs.len()
        invariant
            cs@ == s@,
            start <= i <= cs@.len(),
            forall|j: int| start <= j < i ==> cs@[j] != c,
            done + split_on(cs@.subrange(start as int, cs@.len() as int), c) == split_on(s@, c),
            parts@.len() == done.len(),
            forall|k: int| 0 <= k < parts@.len() ==> #[trigger] parts@[k]@ == done[k],
        decreases cs@.len() - i,
    {
        if cs[i] == c {
            let ghost rest = cs@.subrange(start as int, cs@.len() as int);
            let ghost piece_chars = cs@.subrange(start as int, i as int);
            let ghost after = cs@.subrange(i + 1, cs@.len() as int);
            proof {
                lemma_split_at_first(rest, c, i - start);
                assert(rest.subrange(0, i - start) =~= piece_chars);
                assert(rest.subrange(i - start + 1, rest.len() as int) =~= after);
            }
            let piece = string_between(&cs, start, i);
            parts.push(piece);
            proof {
                let old_done = done;
                done = done.push(piece_chars);
                assert(done + split_on(after, c) =~= old_done + (seq![piece_chars] + split_on(after, c)));
            }
            start = i + 1;
        }
        i = i + 1;
    }
    let ghost rest = cs@.subrange(start as int, cs@.len() as int);
    proof {
        assert forall|j: int| 0 <= j < rest.len() implies rest[j] != c by {
            assert(rest[j] == cs@[start + j]);
        }
        lemma_split_none(rest, c);
    }
    let piece = string_between(&cs, start, cs.len());
    parts.push(piece);
    proof {
        assert(done.push(rest) =~= done + seq![rest]);
    }
    parts
}

/// `char::is_whitespace`: the Unicode White_Space characters.
pub open spec fn is_space(c: char) -> bool {
    c == ' ' || ('\t' <= c && c <= '\r') || c == '\u{85}' || c == '\u{a0}' || c == '\u{1680}' || ('\u{2000}'
        <= c && c <= '\u{200a}') || c == '\u{2028}' || c == '\u{2029}' || c == '\u{202f}' || c == '\u{205f}' || c
        == '\u{3000}'
}

/// Whether a character is Unicode white space.
pub fn space(c: char) -> (r: bool)
    ensures
        r == is_space(c),
{
    c == ' ' || ('\t' <= c && c <= '\r') || c == '\u{85}' || c == '\u{a0}' || c == '\u{1680}' || ('\u{2000}' <= c
        && c <= '\u{200a}') || c == '\u{2028}' || c == '\u{2029}' || c == '\u{202f}' || c == '\u{205f}' || c
        == '\u{3000}'
}

/// The decimal digits of a `u64`.
pub open spec fn decimal_u64(n: u64) -> Seq<char> {
    decimal(n as nat)
}

/// A byte in decimal.
pub fn text_u8(n: u8) -> (s: String)
    ensures
        s@ == decimal_u8(n),
{
    decimal_string(n as u64)
}

/// A `u16` in decimal.
pub fn text_u16(n: u16) -> (s: String)
    ensures
        s@ == decimal_u16(n),
{
    decimal_string(n as u64)
}

/// Splitting gives at least one piece.
pub proof fn lemma_split_nonempty(s: Seq<char>, c: char)
    ensures
        split_on(s, c).len() >= 1,
{
    reveal(split_on);
}

/// The first place `key` occurs in `s`.
pub open spec fn find_seq(s: Seq<char>, key: Seq<char>) -> Option<int> {
    if exists|i: int| 0 <= i && i + key.len() <= s.len() && #[trigger] s.subrange(i, i + key.len()) == key {
        Some(
            choose|i: int|
                0 <= i && i + key.len() <= s.len() && #[trigger] s.subrange(i, i + key.len()) == key && forall|j: int|
                    0 <= j < i ==> #[trigger] s.subrange(j, j + key.len()) != key,
        )
    } else {
        None
    }
}

/// The position of the first `key` in `cs`.
pub fn find_key(cs: &Vec<char>, key: &Vec<char>) -> (r: Option<usize>)
    ensures
        match r {
            Some(i) => find_seq(cs@, key@) == Some(i as int) && i + key@.len() <= cs@.len(),
            None => find_seq(cs@, key@) is None,
        },
{
    let n = cs.len();
    let k = key.len();
    if k > n {
        assert forall|i: int| 0 <= i && i + key@.len() <= cs@.len() implies #[trigger] cs@.subrange(i, i + key@.len())
            != key@ by {}
        return None;
    }
    let mut i: usize = 0;
    while i <= n - k
        invariant
            n == cs@.len(),
            k == key@.len(),
            k <= n,
            i <= n - k + 1,
            forall|j: int| 0 <= j < i ==> #[trigger] cs@.subrange(j, j + k) != key@,
        decreases n - i,
    {
        let mut j: usize = 0;
        let mut same = true;
        while j < k
            invariant
                n == cs@.len(),
                k == key@.len(),
                i + k <= n,
                j <= k,
                same == forall|t: int| 0 <= t < j ==> cs@[i + t] == key@[t],
            decreases k - j,
        {
            if cs[i + j] != key[j] {
                same = false;
            }
            j = j + 1;
        }
        if same {
            proof {
                assert(cs@.subrange(i as int, i + k) =~= key@);
                let w = choose|x: int|
                    0 <= x && x + key@.len() <= cs@.len() && #[trigger] cs@.subrange(x, x + key@.len()) == key@ && forall|y: int|
                        0 <= y < x ==> #[trigger] cs@.subrange(y, y + key@.len()) != key@;
                assert(w == i) by {
                    if w < i {
                        assert(cs@.subrange(w, w + k) != key@);
                    }
                    if w > i {
                        assert(cs@.subrange(i as int, i + k) != key@);
                    }
                }
            }
            return Some(i);
        }
        proof {
            assert(exists|t: int| 0 <= t < k && cs@[i + t] != key@[t]);
            let t = choose|t: int| 0 <= t < k && cs@[i + t] != key@[t];
            assert(cs@.subrange(i as int, i + k)[t] != key@[t]);
        }
        i = i + 1;
    }
    assert forall|x: int| 0 <= x && x + key@.len() <= cs@.len() implies #[trigger] cs@.subrange(x, x + key@.len())
        != key@ by {
        assert(x < i);
    }
    None
}

/// `s` holds `key` somewhere.
pub open spec fn holds(s: Seq<char>, key: Seq<char>) -> bool {
    find_seq(s, key) is Some
}

/// Whether `s` holds `key` somewhere (`str::contains`).
pub fn contains_text(s: &str, key: &str) -> (r: bool)
    ensures
        r == holds(s@, key@),
{
    let cs = chars_of(s);
    let ks = chars_of(key);
    find_key(&cs, &ks).is_some()
}

/// `l` without the `\r` of a `\r\n` line ending.
pub open spec fn without_cr(l: Seq<char>) -> Seq<char> {
    if l.len() > 0 && l.last() == '\r' {
        l.drop_last()
    } else {
        l
    }
}

/// The lines of `s` as `str::lines` yields them: split at `\n` (taking a
/// `\r` before it too), with no empty line after a final `\n`.
#[verifier::opaque]
pub open spec fn lines_of(s: Seq<char>) -> Seq<Seq<char>>
    decreases s.len(),
{
    if s.len() == 0 {
        Seq::empty()
    } else {
        match first_index(s, '\n') {
            Some(i) => if 0 <= i < s.len() {
                seq![without_cr(s.subrange(0, i))] + lines_of(s.subrange(i + 1, s.len() as int))
            } else {
                seq![s]
            },
            None => seq![s],
        }
    }
}

proof fn lemma_lines_at_first(s: Seq<char>, i: int)
    requires
        0 <= i < s.len(),
        s[i] == '\n',
        forall|j: int| 0 <= j < i ==> s[j] != '\n',
    ensures
        lines_of(s) == seq![without_cr(s.subrange(0, i))] + lines_of(s.subrange(i + 1, s.len() as int)),
{
    reveal(lines_of);
    let w = choose|k: int| 0 <= k < s.len() && s[k] == '\n' && forall|j: int| 0 <= j < k ==> s[j] != '\n';
    assert(0 <= i < s.len() && s[i] == '\n' && forall|j: int| 0 <= j < i ==> s[j] != '\n');
    assert(w == i) by {
        if w < i {
            assert(s[w] != '\n');
        }
        if w > i {
            assert(s[i] != '\n');
        }
    }
}

proof fn lemma_last_line(s: Seq<char>)
    requires
        forall|j: int| 0 <= j < s.len() ==> s[j] != '\n',
    ensures
        lines_of(s) == if s.len() == 0 {
            Seq::<Seq<char>>::empty()
        } else {
            seq![s]
        },
{
    reveal(lines_of);
}

/// `l` without a final `\r`.
fn drop_cr(cs: &Vec<char>, from: usize, to: usize) -> (s: String)
    requires
        from <= to <= cs@.len(),
    ensures
        s@ == without_cr(cs@.subrange(from as int, to as int)),
{
    if to > from && cs[to - 1] == '\r' {
        let s = string_between(cs, from, to - 1);
        assert(cs@.subrange(from as int, to as int).drop_last() =~= cs@.subrange(from as int, to - 1));
        s
    } else {
        string_between(cs, from, to)
    }
}

/// Appends the lines of `text` to `out`.
pub fn push_lines(out: &mut Vec<String>, text: &str)
    ensures
        final(out).deep_view() == old(out).deep_view() + lines_of(text@),
{
    let cs = chars_of(text);
    let n = cs.len();
    let mut start: usize = 0;
    let mut i: usize = 0;
    let ghost first = out.deep_view();
    let ghost mut done: Seq<Seq<char>> = Seq::empty();
    assert(cs@.subrange(0, n as int) =~= cs@);
    while i < n
        invariant
            n == cs@.len(),
            cs@ == text@,
            start <= i <= n,
            forall|j: int| start <= j < i ==> cs@[j] != '\n',
            done + lines_of(cs@.subrange(start as int, n as int)) == lines_of(text@),
            out.deep_view() == first + done,
        decreases n - i,
    {
        if cs[i] == '\n' {
            let ghost rest = cs@.subrange(start as int, n as int);
            proof {
                lemma_lines_at_first(rest, i - start);
                assert(rest.subrange(0, i - start) =~= cs@.subrange(start as int, i as int));
                assert(rest.subrange(i - start + 1, rest.len() as int) =~= cs@.subrange(i + 1, n as int));
            }
            let line = drop_cr(&cs, start, i);
            let ghost before = out.deep_view();
            let ghost t = line@;
            out.push(line);
            assert(out.deep_view() =~= before.push(t));
            proof {
                let piece = without_cr(cs@.subrange(start as int, i as int));
                let old_done = done;
                done = done.push(piece);
                assert(done + lines_of(cs@.subrange(i + 1, n as int)) =~= old_done + (seq![piece] + lines_of(
                    cs@.subrange(i + 1, n as int),
                )));
                assert(out.deep_view() =~= first + done);
            }
            start = i + 1;
        }
        i = i + 1;
    }
    let ghost rest = cs@.subrange(start as int, n as int);
    proof {
        assert forall|j: int| 0 <= j < rest.len() implies rest[j] != '\n' by {
            assert(rest[j] == cs@[start + j]);
        }
        lemma_last_line(rest);
    }
    if start < n {
        let line = string_between(&cs, start, n);
        let ghost before = out.deep_view();
        let ghost t = line@;
        out.push(line);
        assert(out.deep_view() =~= before.push(t));
        proof {
            assert(out.deep_view() =~= first + (done + seq![rest]));
        }
    } else {
        assert(rest.len() == 0);
        assert(done + Seq::<Seq<char>>::empty() =~= done);
    }
}

/// A Select Graphic Rendition escape sequence as a terminal reads it: ESC,
/// `[`, parameters made of digits, `;` and `:`, then `m`.
pub open spec fn is_sgr(s: Seq<char>) -> bool {
    &&& s.len() >= 3
    &&& s[0] == '\u{1b}'
    &&& s[1] == '['
    &&& s.last() == 'm'
    &&& forall|i: int| 2 <= i < s.len() - 1 ==> ('0' <= #[trigger] s[i] && s[i] <= '9') || s[i] == ';' || s[i] == ':'
}

/// Text made only of such escape sequences, one after another, or nothing.
pub open spec fn escapes_only(s: Seq<char>) -> bool {
    exists|parts: Seq<Seq<char>>|
        #![trigger parts.flatten()]
        parts.flatten() == s && forall|i: int| 0 <= i < parts.len() ==> is_sgr(#[trigger] parts[i])
}

/// `shown` is `plain` as a terminal styles it: the plain text with nothing
/// but escape sequences (or nothing at all) before and after it.
pub open spec fn styled_as(shown: Seq<char>, plain: Seq<char>) -> bool {
    exists|pre: Seq<char>, post: Seq<char>|
        #![trigger pre + plain + post]
        shown == pre + plain + post && escapes_only(pre) && escapes_only(post)
}

} // verus!
