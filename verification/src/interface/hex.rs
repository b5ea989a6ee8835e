//! Ethernet frames typed as hex, one per line.
//!
//! The point is to be able to feed the stack a frame by hand (paste the
//! bytes of an ARP request and watch what comes back) without a TAP, a
//! capture file, or anything else in the way. Blank lines and `#` comments
//! are skipped so a file of examples can explain itself.

use vstd::prelude::*;
use crate::parse::{hex_digit_value, hex_value, lemma_hex_digit_reads_back, trimmed, trim};
use crate::text::{chars_of, has_prefix, hex2, hex_digit, is_space, owned, push_char, push_str, space, split_chars, split_on, starts_with};

verus! {

/// The number of bytes UTF-8 spends on a character.
pub open spec fn utf8_len(c: char) -> nat {
    if (c as u32) < 0x80 {
        1
    } else if (c as u32) < 0x800 {
        2
    } else if (c as u32) < 0x10000 {
        3
    } else {
        4
    }
}

/// The number of bytes UTF-8 spends on the first `n` characters.
pub open spec fn utf8_total(s: Seq<char>, n: nat) -> nat
    decreases n,
{
    if n == 0 {
        0
    } else {
        utf8_total(s, (n - 1) as nat) + utf8_len(s[n - 1])
    }
}

/// `s` without its white space.
pub open spec fn without_space(s: Seq<char>) -> Seq<char>
    decreases s.len(),
{
    if s.len() == 0 {
        s
    } else if is_space(s.last()) {
        without_space(s.drop_last())
    } else {
        without_space(s.drop_last()).push(s.last())
    }
}

/// Two characters as one byte: both must be hex digits, high digit first.
pub open spec fn hex_pair(a: char, b: char) -> Option<u8> {
    if hex_value(a) is Some && hex_value(b) is Some {
        Some((hex_value(a)->0 * 16 + hex_value(b)->0) as u8)
    } else {
        None
    }
}

/// The bytes of hex text from character `i` on, reading its UTF-8 bytes two
/// at a time: a pair of ASCII characters is a byte or `invalid hex: ` and the
/// pair; a two-byte character is `invalid hex: ` and the character; a pair
/// that splits a character is `invalid hex`.
pub open spec fn hex_from(h: Seq<char>, i: int) -> Result<Seq<u8>, Seq<char>>
    decreases h.len() - i,
{
    if i < 0 || i >= h.len() {
        Ok(Seq::empty())
    } else if utf8_len(h[i]) == 1 {
        if i + 1 < h.len() && utf8_len(h[i + 1]) == 1 {
            match hex_pair(h[i], h[i + 1]) {
                Some(b) => match hex_from(h, i + 2) {
                    Ok(rest) => Ok(seq![b] + rest),
                    Err(e) => Err(e),
                },
                None => Err("invalid hex: "@ + seq![h[i], h[i + 1]]),
            }
        } else {
            Err("invalid hex"@)
        }
    } else if utf8_len(h[i]) == 2 {
        Err("invalid hex: "@ + seq![h[i]])
    } else {
        Err("invalid hex"@)
    }
}

/// What a line of hex decodes to: white space is ignored, an odd number of
/// bytes is `odd-length hex`, and the rest is read two bytes at a time.
pub open spec fn hex_line_spec(line: Seq<char>) -> Result<Seq<u8>, Seq<char>> {
    let h = without_space(line);
    if utf8_total(h, h.len()) % 2 != 0 {
        Err("odd-length hex"@)
    } else {
        hex_from(h, 0)
    }
}

/// The UTF-8 length of a character.
fn char_width(c: char) -> (n: usize)
    ensures
        n == utf8_len(c),
{
    let v = c as u32;
    if v < 0x80 {
        1
    } else if v < 0x800 {
        2
    } else if v < 0x10000 {
        3
    } else {
        4
    }
}

/// The characters of `line` that are not white space.
fn strip_space(line: &str) -> (h: Vec<char>)
    ensures
        h@ == without_space(line@),
{
    let cs = chars_of(line);
    let mut h: Vec<char> = Vec::new();
    let mut i: usize = 0;
    while i < cs.len()
        invariant
            cs@ == line@,
            i <= cs@.len(),
            h@ == without_space(cs@.subrange(0, i as int)),
        decreases cs@.len() - i,
    {
        let c = cs[i];
        proof {
            assert(cs@.subrange(0, i + 1).drop_last() =~= cs@.subrange(0, i as int));
        }
        if !space(c) {
            h.push(c);
        }
        i = i + 1;
    }
    assert(cs@.subrange(0, cs@.len() as int) =~= cs@);
    h
}

/// Reads a line of hex such as `ff ff ff ff ff ff 02 00 ...` into bytes.
pub fn decode_hex_line(line: &str) -> (r: Result<Vec<u8>, String>)
    ensures
        match hex_line_spec(line@) {
            Ok(b) => r matches Ok(v) && v@ == b,
            Err(e) => r matches Err(m) && m@ == e,
        },
{
    let h = strip_space(line);
    let mut odd = false;
    let mut k: usize = 0;
    while k < h.len()
        invariant
            k <= h@.len(),
            odd == (utf8_total(h@, k as nat) % 2 == 1),
        decreases h@.len() - k,
    {
        if char_width(h[k]) % 2 == 1 {
            odd = !odd;
        }
        k = k + 1;
    }
    if odd {
        return Err(owned("odd-length hex"));
    }
    let mut out: Vec<u8> = Vec::new();
    let mut i: usize = 0;
    while i < h.len()
        invariant
            i <= h@.len(),
            utf8_total(h@, h@.len()) % 2 == 0,
            hex_line_spec(line@) == hex_from(h@, 0),
            h@ == without_space(line@),
            match hex_from(h@, 0) {
                Ok(all) => match hex_from(h@, i as int) {
                    Ok(rest) => all == out@ + rest,
                    Err(_) => false,
                },
                Err(e) => hex_from(h@, i as int) == Err::<Seq<u8>, Seq<char>>(e),
            },
        decreases h@.len() - i,
    {
        let c = h[i];
        if char_width(c) == 1 {
            if i + 1 < h.len() && char_width(h[i + 1]) == 1 {
                let d = h[i + 1];
                let pair = match (hex_digit_value(c), hex_digit_value(d)) {
                    (Some(hi), Some(lo)) => Some(hi * 16 + lo),
                    _ => None,
                };
                match pair {
                    Some(b) => {
                        proof {
                            assert(hex_pair(c, d) == Some(b));
                            match hex_from(h@, i + 2) {
                                Ok(rest) => {
                                    assert(out@.push(b) + rest =~= out@ + (seq![b] + rest));
                                },
                                Err(_) => {},
                            }
                        }
                        out.push(b);
                        i = i + 2;
                    },
                    None => {
                        let mut m = owned("invalid hex: ");
                        push_char(&mut m, c);
                        push_char(&mut m, d);
                        assert(m@ =~= "invalid hex: "@ + seq![c, d]);
                        return Err(m);
                    },
                }
            } else {
                return Err(owned("invalid hex"));
            }
        } else if char_width(c) == 2 {
            let mut m = owned("invalid hex: ");
            push_char(&mut m, c);
            assert(m@ =~= "invalid hex: "@ + seq![c]);
            return Err(m);
        } else {
            return Err(owned("invalid hex"));
        }
    }
    assert(out@ + Seq::<u8>::empty() =~= out@);
    Ok(out)
}

/// Bytes as hex digits, two lowercase digits each, run together.
pub open spec fn hex_digits(b: Seq<u8>) -> Seq<char>
    decreases b.len(),
{
    if b.len() == 0 {
        Seq::empty()
    } else {
        hex_digits(b.drop_last()) + hex2(b.last())
    }
}

/// Bytes as hex digits, two lowercase digits each, separated by spaces:
/// `ff ff 02 00 ...`.
pub open spec fn hex_spaced(b: Seq<u8>) -> Seq<char>
    decreases b.len(),
{
    if b.len() == 0 {
        Seq::empty()
    } else if b.len() == 1 {
        hex2(b[0])
    } else {
        hex_spaced(b.drop_last()) + seq![' '] + hex2(b.last())
    }
}

proof fn lemma_without_space_concat(s: Seq<char>, t: Seq<char>)
    ensures
        without_space(s + t) == without_space(s) + without_space(t),
    decreases t.len(),
{
    if t.len() == 0 {
        assert(s + t =~= s);
        assert(without_space(s) + without_space(t) =~= without_space(s));
    } else {
        lemma_without_space_concat(s, t.drop_last());
        assert((s + t).drop_last() =~= s + t.drop_last());
        assert((s + t).last() == t.last());
        if !is_space(t.last()) {
            assert(without_space(s) + (without_space(t.drop_last()).push(t.last())) =~= (without_space(s)
                + without_space(t.drop_last())).push(t.last()));
        }
    }
}

proof fn lemma_hex2_facts(x: u8)
    ensures
        without_space(hex2(x)) == hex2(x),
        hex_pair(hex2(x)[0], hex2(x)[1]) == Some(x),
        utf8_len(hex2(x)[0]) == 1,
        utf8_len(hex2(x)[1]) == 1,
{
    lemma_hex_digit_reads_back(x as nat / 16);
    lemma_hex_digit_reads_back(x as nat % 16);
    let h = hex2(x);
    let one = seq![h[0]];
    assert(h.drop_last() =~= one);
    assert(h.last() == h[1]);
    assert(one.last() == h[0]);
    assert(one.drop_last() =~= Seq::<char>::empty());
    assert(without_space(one.drop_last()) == Seq::<char>::empty());
    assert(without_space(one) =~= one);
    assert(without_space(h) == without_space(one).push(h[1]));
    assert(without_space(h) =~= h);
}

proof fn lemma_hex_digits_layout(b: Seq<u8>)
    ensures
        hex_digits(b).len() == 2 * b.len(),
        forall|k: int| 0 <= k < b.len() ==> #[trigger] hex_digits(b)[2 * k] == hex2(b[k])[0] && hex_digits(b)[2 * k + 1]
            == hex2(b[k])[1],
        without_space(hex_digits(b)) == hex_digits(b),
        forall|i: int| 0 <= i < hex_digits(b).len() ==> #[trigger] utf8_len(hex_digits(b)[i]) == 1,
    decreases b.len(),
{
    if b.len() > 0 {
        let a = b.drop_last();
        lemma_hex_digits_layout(a);
        lemma_hex2_facts(b.last());
        lemma_without_space_concat(hex_digits(a), hex2(b.last()));
        assert forall|i: int| 0 <= i < hex_digits(b).len() implies #[trigger] utf8_len(hex_digits(b)[i]) == 1 by {
            if i < hex_digits(a).len() {
                assert(hex_digits(b)[i] == hex_digits(a)[i]);
            } else if i == hex_digits(a).len() {
                assert(hex_digits(b)[i] == hex2(b.last())[0]);
            } else {
                assert(hex_digits(b)[i] == hex2(b.last())[1]);
            }
        }
        assert forall|k: int| 0 <= k < b.len() implies #[trigger] hex_digits(b)[2 * k] == hex2(b[k])[0]
            && hex_digits(b)[2 * k + 1] == hex2(b[k])[1] by {
            if k < a.len() {
                assert(hex_digits(a)[2 * k] == hex2(a[k])[0]);
                assert(a[k] == b[k]);
            }
        }
    }
}

proof fn lemma_spaced_without_space(b: Seq<u8>)
    ensures
        without_space(hex_spaced(b)) == hex_digits(b),
    decreases b.len(),
{
    if b.len() == 1 {
        lemma_hex2_facts(b[0]);
        assert(b.drop_last() =~= Seq::<u8>::empty());
        assert(hex_digits(b.drop_last()) == Seq::<char>::empty());
        assert(b.last() == b[0]);
        assert(hex_digits(b) =~= hex2(b[0]));
    } else if b.len() > 1 {
        let a = b.drop_last();
        lemma_spaced_without_space(a);
        lemma_hex2_facts(b.last());
        lemma_without_space_concat(hex_spaced(a) + seq![' '], hex2(b.last()));
        lemma_without_space_concat(hex_spaced(a), seq![' ']);
        let sp = seq![' '];
        assert(sp.drop_last() =~= Seq::<char>::empty());
        assert(sp.last() == ' ');
        assert(is_space(' '));
        assert(without_space(sp.drop_last()) == Seq::<char>::empty());
        assert(without_space(sp) =~= Seq::<char>::empty());
        assert(without_space(hex_spaced(a)) + Seq::<char>::empty() =~= without_space(hex_spaced(a)));
    }
}

proof fn lemma_ascii_total(s: Seq<char>, n: nat)
    requires
        n <= s.len(),
        forall|i: int| 0 <= i < s.len() ==> #[trigger] utf8_len(s[i]) == 1,
    ensures
        utf8_total(s, n) == n,
    decreases n,
{
    if n > 0 {
        lemma_ascii_total(s, (n - 1) as nat);
    }
}

proof fn lemma_digits_read(b: Seq<u8>, k: int)
    requires
        0 <= k <= b.len(),
    ensures
        hex_from(hex_digits(b), 2 * k) == Ok::<Seq<u8>, Seq<char>>(b.subrange(k, b.len() as int)),
    decreases b.len() - k,
{
    let h = hex_digits(b);
    lemma_hex_digits_layout(b);
    if k == b.len() {
        assert(b.subrange(k, b.len() as int) =~= Seq::<u8>::empty());
    } else {
        lemma_digits_read(b, k + 1);
        lemma_hex2_facts(b[k]);
        assert(h[2 * k] == hex2(b[k])[0] && h[2 * k + 1] == hex2(b[k])[1]);
        assert(2 * (k + 1) == 2 * k + 2);
        assert(seq![b[k]] + b.subrange(k + 1, b.len() as int) =~= b.subrange(k, b.len() as int));
    }
}

/// Bytes written as hex read back as those bytes, whether the pairs are run
/// together or separated by spaces.
pub proof fn lemma_hex_text_reads_back(b: Seq<u8>)
    ensures
        hex_line_spec(hex_digits(b)) == Ok::<Seq<u8>, Seq<char>>(b),
        hex_line_spec(hex_spaced(b)) == Ok::<Seq<u8>, Seq<char>>(b),
{
    let h = hex_digits(b);
    lemma_hex_digits_layout(b);
    lemma_spaced_without_space(b);
    lemma_ascii_total(h, h.len());
    lemma_digits_read(b, 0);
    assert(b.subrange(0, b.len() as int) =~= b);
}

/// A line that carries a frame: neither blank nor a `#` comment once
/// trimmed.
pub open spec fn carries_frame(line: Seq<char>) -> bool {
    trimmed(line).len() > 0 && !has_prefix(trimmed(line), "#"@)
}

/// What one line of hex input gives: `None` for a blank or comment line,
/// otherwise the frame, which must fit `capacity` bytes.
pub open spec fn line_frame(line: Seq<char>, capacity: nat) -> Result<Option<Seq<u8>>, Seq<char>> {
    if !carries_frame(line) {
        Ok(None)
    } else {
        match hex_line_spec(trimmed(line)) {
            Err(e) => Err(e),
            Ok(b) => if b.len() > capacity {
                Err("hex frame larger than read buffer"@)
            } else {
                Ok(Some(b))
            },
        }
    }
}

/// Reads one line of hex input: `None` for a blank or comment line,
/// otherwise the frame it spells.
pub fn frame_from_line(line: &str, capacity: usize) -> (r: Result<Option<Vec<u8>>, String>)
    ensures
        match line_frame(line@, capacity as nat) {
            Ok(Some(b)) => r matches Ok(Some(v)) && v@ == b,
            Ok(None) => r matches Ok(None),
            Err(e) => r matches Err(m) && m@ == e,
        },
{
    let t = trim(line);
    if t.as_str().is_empty() || starts_with(t.as_str(), "#") {
        return Ok(None);
    }
    let bytes = decode_hex_line(t.as_str())?;
    if bytes.len() > capacity {
        return Err(owned("hex frame larger than read buffer"));
    }
    Ok(Some(bytes))
}

/// Hex frames from a text, one per line.
pub struct HexReader {
    lines: Vec<String>,
    next: usize,
}

impl HexReader {
    /// The lines of the text, newline-separated.
    pub closed spec fn lines(&self) -> Seq<Seq<char>> {
        self.lines.deep_view()
    }

    /// How many lines have been read.
    pub closed spec fn position(&self) -> nat {
        self.next as nat
    }

    /// A reader over the lines of `text`.
    pub fn new(text: &str) -> (r: Self)
        ensures
            r.lines() == split_on(text@, '\n'),
            r.position() == 0,
    {
        let lines = split_chars(text, '\n');
        let r = HexReader { lines, next: 0 };
        assert(r.lines.deep_view() =~= split_on(text@, '\n'));
        r
    }

    /// The next frame, copied to the front of `buffer`, and its length; 0 at
    /// the end of the text. Blank and comment lines are skipped; a line that
    /// does not decode, or a frame longer than `buffer`, is the error.
    pub fn read_frame(&mut self, buffer: &mut Vec<u8>) -> (r: Result<usize, String>)
        requires
            old(self).position() <= old(self).lines().len(),
        ensures
            final(self).lines() == old(self).lines(),
            final(self).position() <= final(self).lines().len(),
            final(buffer)@.len() == old(buffer)@.len(),
            match r {
                Ok(n) => (final(self).position() == final(self).lines().len() && n == 0 && forall|k: int|
                    old(self).position() <= k < final(self).lines().len() ==> #[trigger] line_frame(
                        final(self).lines()[k],
                        old(buffer)@.len(),
                    ) == Ok::<Option<Seq<u8>>, Seq<char>>(None)) || ({
                    &&& old(self).position() < final(self).position()
                    &&& forall|k: int|
                        old(self).position() <= k < final(self).position() - 1 ==> #[trigger] line_frame(
                            final(self).lines()[k],
                            old(buffer)@.len(),
                        ) == Ok::<Option<Seq<u8>>, Seq<char>>(None)
                    &&& line_frame(final(self).lines()[final(self).position() - 1], old(buffer)@.len()) matches Ok(
                        Some(b),
                    ) && b.len() == n && final(buffer)@.subrange(0, n as int) == b && final(buffer)@.subrange(
                        n as int,
                        old(buffer)@.len() as int,
                    ) == old(buffer)@.subrange(n as int, old(buffer)@.len() as int)
                }),
                Err(e) => line_frame(final(self).lines()[final(self).position() - 1], old(buffer)@.len()) == Err::<
                    Option<Seq<u8>>,
                    Seq<char>,
                >(e@) && old(self).position() < final(self).position(),
            },
    {
        let capacity = buffer.len();
        let ghost start = self.next;
        while self.next < self.lines.len()
            invariant
                start <= self.next <= self.lines@.len(),
                self.lines.deep_view() == old(self).lines(),
                start == old(self).position(),
                capacity == buffer@.len(),
                buffer@ == old(buffer)@,
                forall|k: int| start <= k < self.next ==> #[trigger] line_frame(
                    self.lines.deep_view()[k],
                    capacity as nat,
                ) == Ok::<Option<Seq<u8>>, Seq<char>>(None),
            decreases self.lines@.len() - self.next,
        {
            let i = self.next;
            assert(self.lines.deep_view()[i as int] == self.lines@[i as int]@);
            let got = frame_from_line(self.lines[i].as_str(), capacity);
            self.next = i + 1;
            match got {
                Err(e) => return Err(e),
                Ok(None) => {},
                Ok(Some(bytes)) => {
                    let n = bytes.len();
                    let mut j: usize = 0;
                    while j < n
                        invariant
                            n == bytes@.len(),
                            n <= capacity,
                            capacity == buffer@.len(),
                            j <= n,
                            buffer@.subrange(0, j as int) == bytes@.subrange(0, j as int),
                            buffer@.subrange(n as int, capacity as int) == old(buffer)@.subrange(
                                n as int,
                                capacity as int,
                            ),
                        decreases n - j,
                    {
                        buffer.set(j, bytes[j]);
                        j = j + 1;
                        assert(buffer@.subrange(0, j as int) =~= bytes@.subrange(0, j as int));
                        assert(buffer@.subrange(n as int, capacity as int) =~= old(buffer)@.subrange(
                            n as int,
                            capacity as int,
                        ));
                    }
                    assert(bytes@.subrange(0, n as int) =~= bytes@);
                    return Ok(n);
                },
            }
        }
        Ok(0)
    }
}

} // verus!
