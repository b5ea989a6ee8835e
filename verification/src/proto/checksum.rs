//! The Internet checksum (RFC 1071): the one's complement of the one's
//! complement sum of the message taken as big-endian 16-bit words.

use vstd::prelude::*;
use vstd::arithmetic::div_mod::{lemma_add_mod_noop, lemma_mod_self_0, lemma_small_mod};

verus! {

/// The big-endian 16-bit word `hi:lo`.
pub open spec fn word(hi: u8, lo: u8) -> nat {
    hi as nat * 256 + lo as nat
}

/// Sum of the first `n` complete 16-bit words of `bytes`.
pub open spec fn pair_sum(bytes: Seq<u8>, n: nat) -> nat
    decreases n,
{
    if n == 0 {
        0
    } else {
        pair_sum(bytes, (n - 1) as nat) + word(bytes[2 * (n - 1)], bytes[2 * (n - 1) + 1])
    }
}

/// The plain sum of every word; a trailing odd byte is the high half of a
/// last word whose low half is zero.
pub open spec fn word_sum(bytes: Seq<u8>) -> nat {
    pair_sum(bytes, bytes.len() / 2) + if bytes.len() % 2 == 1 {
        bytes.last() as nat * 256
    } else {
        0
    }
}

/// A sum folded into 16 bits with end-around carry: congruent to the sum
/// modulo 0xffff, and zero only when the sum is zero.
pub open spec fn fold16(sum: nat) -> nat {
    if sum == 0 {
        0
    } else if sum % 0xffff == 0 {
        0xffff
    } else {
        sum % 0xffff
    }
}

/// The Internet checksum of `bytes`.
pub open spec fn checksum_of(bytes: Seq<u8>) -> u16 {
    (0xffff - fold16(word_sum(bytes))) as u16
}

/// `bytes` with the big-endian word `value` written at offset `at`.
pub open spec fn stamp(bytes: Seq<u8>, at: int, value: u16) -> Seq<u8> {
    bytes.update(at, (value / 256) as u8).update(at + 1, (value % 256) as u8)
}

/// Adding a word to a folded sum folds again.
pub proof fn lemma_fold_add(p: nat, w: nat)
    requires
        w <= 0xffff,
    ensures
        fold16(p) <= 0xffff,
        fold16(p + w) == (if fold16(p) + w > 0xffff {
            fold16(p) + w - 0xffff
        } else {
            (fold16(p) + w) as int
        }),
{
    let a = fold16(p);
    if p == 0 {
        if w == 0xffff {
            lemma_mod_self_0(0xffff);
        } else if w > 0 {
            lemma_small_mod(w, 0xffff);
        }
    } else {
        lemma_add_mod_noop(p as int, w as int, 0xffff);
        if w < 0xffff {
            lemma_small_mod(w, 0xffff);
        } else {
            lemma_mod_self_0(0xffff);
        }
        let t = a + w;
        assert(a >= 1 && a <= 0xffff);
        if p % 0xffff == 0 {
            assert(a == 0xffff);
            assert((p + w) % 0xffff == w % 0xffff);
        } else {
            assert(a == p % 0xffff);
            lemma_small_mod(a, 0xffff);
            assert((p + w) % 0xffff == (a + w) % 0xffff);
        }
        assert((p + w) % 0xffff == t % 0xffff) by {
            if p % 0xffff == 0 {
                lemma_add_mod_noop(0xffff, w as int, 0xffff);
                lemma_mod_self_0(0xffff);
            }
        }
        if t > 0xffff {
            let u = (t - 0xffff) as nat;
            assert(t % 0xffff == u % 0xffff) by {
                lemma_add_mod_noop(u as int, 0xffff, 0xffff);
                lemma_mod_self_0(0xffff);
                if u < 0xffff {
                    lemma_small_mod(u, 0xffff);
                }
            }
            if u == 0xffff {
                lemma_mod_self_0(0xffff);
            } else {
                lemma_small_mod(u, 0xffff);
            }
        } else if t == 0xffff {
            lemma_mod_self_0(0xffff);
        } else {
            lemma_small_mod(t, 0xffff);
        }
    }
}

/// A folded sum plus its own complement folds to 0xffff.
pub proof fn lemma_fold_complement(s: nat)
    ensures
        fold16(s + (0xffff - fold16(s)) as nat) == 0xffff,
{
    lemma_fold_add(s, (0xffff - fold16(s)) as nat);
}

/// Overwriting one aligned word changes the sum of the words by the difference.
pub proof fn lemma_pair_sum_stamp(bytes: Seq<u8>, at: int, value: u16, n: nat)
    requires
        at % 2 == 0,
        0 <= at,
        at + 1 < bytes.len(),
        2 * n <= bytes.len(),
    ensures
        pair_sum(stamp(bytes, at, value), n) + (if n > at / 2 {
            word(bytes[at], bytes[at + 1])
        } else {
            0
        }) == pair_sum(bytes, n) + (if n > at / 2 {
            value as nat
        } else {
            0
        }),
    decreases n,
{
    let s = stamp(bytes, at, value);
    if n > 0 {
        lemma_pair_sum_stamp(bytes, at, value, (n - 1) as nat);
        let k = 2 * (n - 1);
        if n - 1 == at / 2 {
            assert(k == at);
            assert(s[k] == (value / 256) as u8);
            assert(s[k + 1] == (value % 256) as u8);
            assert(word(s[k], s[k + 1]) == value as nat);
        } else {
            assert(s[k] == bytes[k]);
            assert(s[k + 1] == bytes[k + 1]);
        }
    }
}

/// Writing a word into an aligned field of zeros adds that word to the sum.
pub proof fn lemma_word_sum_stamp(bytes: Seq<u8>, at: int, value: u16)
    requires
        at % 2 == 0,
        0 <= at,
        at + 1 < bytes.len(),
        bytes[at] == 0,
        bytes[at + 1] == 0,
    ensures
        word_sum(stamp(bytes, at, value)) == word_sum(bytes) + value as nat,
{
    let s = stamp(bytes, at, value);
    lemma_pair_sum_stamp(bytes, at, value, bytes.len() / 2);
    if bytes.len() % 2 == 1 {
        assert(s.last() == bytes.last());
    }
}

/// The checksum law: a message whose aligned, zeroed checksum field is filled
/// with the message's checksum has checksum zero.
pub proof fn lemma_stamped_checksum_is_zero(bytes: Seq<u8>, at: int)
    requires
        at % 2 == 0,
        0 <= at,
        at + 1 < bytes.len(),
        bytes[at] == 0,
        bytes[at + 1] == 0,
    ensures
        checksum_of(stamp(bytes, at, checksum_of(bytes))) == 0,
{
    let c = checksum_of(bytes);
    lemma_fold_add(word_sum(bytes), 0);
    lemma_word_sum_stamp(bytes, at, c);
    lemma_fold_complement(word_sum(bytes));
}

/// Adds one word to a folded sum.
fn add_folded(acc: u32, w: u32) -> (r: u32)
    requires
        acc <= 0xffff,
        w <= 0xffff,
    ensures
        r == (if acc + w > 0xffff {
            acc + w - 0xffff
        } else {
            acc + w as int
        }),
{
    let t = acc + w;
    if t > 0xffff {
        t - 0xffff
    } else {
        t
    }
}

/// Internet checksum (RFC 1071). A header that carries its own checksum
/// checksums to zero; to fill the field, zero it, run this, and store the
/// result big-endian.
pub fn internet_checksum(bytes: &[u8]) -> (r: u16)
    ensures
        r == checksum_of(bytes@),
{
    let n = bytes.len();
    let mut sum: u32 = 0;
    let mut i: usize = 0;
    while n - i >= 2
        invariant
            n == bytes@.len(),
            i <= n,
            i % 2 == 0,
            sum <= 0xffff,
            sum == fold16(pair_sum(bytes@, (i / 2) as nat)),
        decreases n - i,
    {
        let w = (bytes[i] as u32) * 256 + bytes[i + 1] as u32;
        proof {
            lemma_fold_add(pair_sum(bytes@, (i / 2) as nat), w as nat);
            assert(((i + 2) / 2) as nat - 1 == (i / 2) as nat);
        }
        sum = add_folded(sum, w);
        i = i + 2;
    }
    if i < n {
        let w = (bytes[i] as u32) * 256;
        proof {
            lemma_fold_add(pair_sum(bytes@, (i / 2) as nat), w as nat);
        }
        sum = add_folded(sum, w);
    }
    (0xffff - sum) as u16
}

/// Storing 0xffff in place of a zero checksum keeps the message valid: 0xffff
/// and 0 are the two representations of zero in one's complement.
pub proof fn lemma_stamped_ffff_is_zero(bytes: Seq<u8>, at: int)
    requires
        at % 2 == 0,
        0 <= at,
        at + 1 < bytes.len(),
        bytes[at] == 0,
        bytes[at + 1] == 0,
        checksum_of(bytes) == 0,
    ensures
        checksum_of(stamp(bytes, at, 0xffff)) == 0,
{
    lemma_fold_add(word_sum(bytes), 0);
    lemma_word_sum_stamp(bytes, at, 0xffff);
    lemma_fold_add(word_sum(bytes), 0xffff);
}

/// The IPv4 pseudo-header that TCP and UDP checksums cover: source, destination,
/// a zero byte, the protocol, and the segment length.
pub open spec fn pseudo_header(src: Seq<u8>, dst: Seq<u8>, protocol: u8, len: nat) -> Seq<u8> {
    src + dst + seq![0u8, protocol, ((len % 65536) / 256) as u8, ((len % 65536) % 256) as u8]
}

/// The transport checksum of a segment sent from `src` to `dst`.
pub open spec fn transport_checksum_of(src: Seq<u8>, dst: Seq<u8>, protocol: u8, segment: Seq<u8>) -> u16 {
    checksum_of(pseudo_header(src, dst, protocol, segment.len()) + segment)
}

/// The TCP/UDP checksum over the IPv4 pseudo-header followed by the segment
/// (RFC 768, RFC 793).
pub fn transport_checksum_ipv4(src: [u8; 4], dst: [u8; 4], protocol: u8, segment: &[u8]) -> (r: u16)
    ensures
        r == transport_checksum_of(src@, dst@, protocol, segment@),
{
    let len = (segment.len() % 65536) as u16;
    let header: [u8; 12] = [
        src[0], src[1], src[2], src[3], dst[0], dst[1], dst[2], dst[3], 0, protocol,
        (len / 256) as u8, (len % 256) as u8,
    ];
    let mut bytes = vstd::slice::slice_to_vec(header.as_slice());
    crate::proto::wire::push_all(&mut bytes, segment);
    assert(bytes@ =~= pseudo_header(src@, dst@, protocol, segment@.len()) + segment@);
    internet_checksum(bytes.as_slice())
}

} // verus!
