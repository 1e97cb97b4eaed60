//! Byte-level helpers: comparison of 32-byte words, concatenation and the
//! fixed-width integer encodings that digests are computed over.

use vstd::prelude::*;
use crate::crypto::{be_word, big_endian_limbs};

verus! {

/// `a` and `b` agree before position `k`, and `a` is smaller there.
pub open spec fn smaller_at(a: Seq<u8>, b: Seq<u8>, k: int) -> bool {
    &&& 0 <= k < a.len()
    &&& k < b.len()
    &&& a[k] < b[k]
    &&& forall|j: int| 0 <= j < k ==> a[j] == b[j]
}

/// Byte-wise (lexicographic) order on equally long byte strings.
pub open spec fn lex_lt(a: Seq<u8>, b: Seq<u8>) -> bool {
    exists|k: int| smaller_at(a, b, k)
}

/// The concatenation of a sequence of 32-byte words, in order.
pub open spec fn flatten(words: Seq<[u8; 32]>) -> Seq<u8>
    decreases words.len(),
{
    if words.len() == 0 {
        Seq::empty()
    } else {
        flatten(words.drop_last()) + words.last()@
    }
}

/// The `n` low bytes of `x`, least significant first.
pub open spec fn le_bytes(x: nat, n: nat) -> Seq<u8>
    decreases n,
{
    if n == 0 {
        Seq::empty()
    } else {
        seq![(x % 256) as u8] + le_bytes(x / 256, (n - 1) as nat)
    }
}

/// The value of a 32-byte big-endian field where it fits 128 bits.
pub open spec fn field_value(b: Seq<u8>) -> Option<u128> {
    if be_word(b, 0) == 0 && be_word(b, 1) == 0 {
        Some((be_word(b, 2) * 0x1_0000_0000_0000_0000 + be_word(b, 3)) as u128)
    } else {
        None
    }
}

/// The big-endian value of the first 16 bytes of `b`.
pub open spec fn leading_u128(b: Seq<u8>) -> u128 {
    (be_word(b, 0) * 0x1_0000_0000_0000_0000 + be_word(b, 1)) as u128
}

/// Some position of `word` in `list`.
pub open spec fn position(list: Seq<[u8; 32]>, word: [u8; 32]) -> int {
    choose|i: int| 0 <= i < list.len() && list[i] == word
}

/// Whether `word` occurs in `list`.
pub fn contains_word(list: &Vec<[u8; 32]>, word: &[u8; 32]) -> (found: bool)
    ensures
        found == list@.contains(*word),
{
    let mut i: usize = 0;
    while i < list.len()
        invariant
            i <= list@.len(),
            forall|j: int| 0 <= j < i ==> list@[j] != *word,
        decreases list.len() - i,
    {
        if words_equal(&list[i], word) {
            return true;
        }
        i += 1;
    }
    false
}

/// The 32-byte word that spells `s`.
pub open spec fn word_from(s: Seq<u8>) -> [u8; 32] {
    choose|w: [u8; 32]| w@ == s
}

/// The 32 bytes of `src` that start at `at`, as one word.
pub fn word_at(src: &[u8], at: usize) -> (out: [u8; 32])
    requires
        at + 32 <= src@.len(),
    ensures
        out@ == src@.subrange(at as int, at + 32),
        out == word_from(src@.subrange(at as int, at + 32)),
{
    let n = src.len();
    let mut out: [u8; 32] = [0u8; 32];
    let mut j: usize = 0;
    while j < 32
        invariant
            j <= 32,
            n == src@.len(),
            at + 32 <= n,
            forall|k: int| 0 <= k < j ==> out@[k] == src@[at + k],
        decreases 32 - j,
    {
        out[j] = src[at + j];
        j += 1;
    }
    proof {
        let part = src@.subrange(at as int, at + 32);
        assert(out@ =~= part);
        let chosen = word_from(part);
        assert(chosen@ == part);
        assert(chosen =~= out);
    }
    out
}

/// Whether two 32-byte words are the same.
pub fn words_equal(a: &[u8; 32], b: &[u8; 32]) -> (same: bool)
    ensures
        same == (*a == *b),
{
    let mut i: usize = 0;
    while i < 32
        invariant
            i <= 32,
            forall|j: int| 0 <= j < i ==> a@[j] == b@[j],
        decreases 32 - i,
    {
        if a[i] != b[i] {
            return false;
        }
        i += 1;
    }
    assert(a@ =~= b@);
    assert(*a =~= *b);
    true
}

/// Whether `a` comes strictly after `b` in byte-wise order.
pub fn word_after(a: &[u8; 32], b: &[u8; 32]) -> (after: bool)
    ensures
        after == lex_lt(b@, a@),
{
    let mut i: usize = 0;
    while i < 32
        invariant
            i <= 32,
            forall|j: int| 0 <= j < i ==> a@[j] == b@[j],
        decreases 32 - i,
    {
        if a[i] != b[i] {
            let after = a[i] > b[i];
            proof {
                if after {
                    assert(smaller_at(b@, a@, i as int));
                } else {
                    assert forall|k: int| !smaller_at(b@, a@, k) by {
                        if smaller_at(b@, a@, k) {
                            if k > i {
                                assert(b@[i as int] == a@[i as int]);
                            }
                        }
                    }
                }
            }
            return after;
        }
        i += 1;
    }
    proof {
        assert forall|k: int| !smaller_at(b@, a@, k) by {}
    }
    false
}

/// Whether the first 20 bytes of `entry` are the address `address`.
pub fn address_matches(entry: &[u8; 32], address: &[u8; 20]) -> (same: bool)
    ensures
        same == (entry@.subrange(0, 20) == address@),
{
    let mut i: usize = 0;
    while i < 20
        invariant
            i <= 20,
            forall|j: int| 0 <= j < i ==> entry@[j] == address@[j],
        decreases 20 - i,
    {
        if entry[i] != address[i] {
            assert(entry@.subrange(0, 20)[i as int] != address@[i as int]);
            return false;
        }
        i += 1;
    }
    assert(entry@.subrange(0, 20) =~= address@);
    true
}

/// An exact copy of a list of words.
pub fn copy_words(src: &Vec<[u8; 32]>) -> (out: Vec<[u8; 32]>)
    ensures
        out@ == src@,
{
    let mut out: Vec<[u8; 32]> = Vec::new();
    let mut i: usize = 0;
    while i < src.len()
        invariant
            i <= src.len(),
            out@ == src@.take(i as int),
        decreases src.len() - i,
    {
        out.push(src[i]);
        assert(out@ =~= src@.take(i + 1));
        i += 1;
    }
    assert(src@.take(src.len() as int) =~= src@);
    out
}

/// Appends the bytes of `src` to `out`.
pub fn append_bytes(out: &mut Vec<u8>, src: &[u8])
    ensures
        final(out)@ == old(out)@ + src@,
{
    let mut j: usize = 0;
    while j < src.len()
        invariant
            j <= src.len(),
            out@ == old(out)@ + src@.take(j as int),
        decreases src.len() - j,
    {
        out.push(src[j]);
        assert(src@.take(j + 1) =~= src@.take(j as int).push(src@[j as int]));
        assert(out@ =~= old(out)@ + src@.take(j + 1));
        j += 1;
    }
    assert(src@.take(src.len() as int) =~= src@);
}

/// Concatenates 32-byte words into one byte string.
pub fn flatten_words(words: &Vec<[u8; 32]>) -> (out: Vec<u8>)
    ensures
        out@ == flatten(words@),
{
    let mut out: Vec<u8> = Vec::new();
    let mut i: usize = 0;
    assert(out@ =~= flatten(words@.take(0)));
    while i < words.len()
        invariant
            i <= words.len(),
            out@ == flatten(words@.take(i as int)),
        decreases words.len() - i,
    {
        append_bytes(&mut out, words[i].as_slice());
        proof {
            assert(words@.take(i + 1).drop_last() =~= words@.take(i as int));
            assert(words@.take(i + 1).last() == words@[i as int]);
        }
        i += 1;
    }
    assert(words@.take(words.len() as int) =~= words@);
    out
}

/// Appends the eight bytes of `x`, least significant first.
pub fn append_u64_le(out: &mut Vec<u8>, x: u64)
    ensures
        final(out)@ == old(out)@ + le_bytes(x as nat, 8),
{
    append_le(out, x as u128, 8);
}

/// Appends the sixteen bytes of `x`, least significant first.
pub fn append_u128_le(out: &mut Vec<u8>, x: u128)
    ensures
        final(out)@ == old(out)@ + le_bytes(x as nat, 16),
{
    append_le(out, x, 16);
}

fn append_le(out: &mut Vec<u8>, x: u128, n: usize)
    ensures
        final(out)@ == old(out)@ + le_bytes(x as nat, n as nat),
{
    let mut rest: u128 = x;
    let mut i: usize = 0;
    assert(out@ + le_bytes(rest as nat, (n - i) as nat) =~= old(out)@ + le_bytes(x as nat, n as nat));
    while i < n
        invariant
            i <= n,
            out@ + le_bytes(rest as nat, (n - i) as nat) == old(out)@ + le_bytes(
                x as nat,
                n as nat,
            ),
        decreases n - i,
    {
        let ghost before = out@;
        let ghost tail = le_bytes(rest as nat / 256, (n - i - 1) as nat);
        let low: u8 = (rest % 256) as u8;
        out.push(low);
        proof {
            assert(le_bytes(rest as nat, (n - i) as nat) == seq![low] + tail);
            assert(out@ + tail =~= before + (seq![low] + tail));
        }
        rest = rest / 256;
        i += 1;
    }
    assert(le_bytes(rest as nat, 0) =~= Seq::<u8>::empty());
    assert(out@ + Seq::<u8>::empty() =~= out@);
}

/// Decodes a 32-byte big-endian field into 128 bits, or `None` where the
/// value is wider.
pub fn decode_field(bytes: &[u8; 32]) -> (out: Option<u128>)
    ensures
        out == field_value(bytes@),
{
    let limbs = big_endian_limbs(bytes);
    if limbs[3] != 0 || limbs[2] != 0 {
        None
    } else {
        let high: u128 = limbs[1] as u128;
        let low: u128 = limbs[0] as u128;
        Some(high * 0x1_0000_0000_0000_0000u128 + low)
    }
}

/// The first 16 bytes of a digest read as a big-endian integer.
pub fn leading_bytes_value(digest: &[u8; 32]) -> (out: u128)
    ensures
        out == leading_u128(digest@),
{
    let limbs = big_endian_limbs(digest);
    let high: u128 = limbs[3] as u128;
    let low: u128 = limbs[2] as u128;
    high * 0x1_0000_0000_0000_0000u128 + low
}

} // verus!
