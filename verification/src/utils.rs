use vstd::prelude::*;
use vstd::arithmetic::div_mod::lemma_fundamental_div_mod;

verus! {

/// The unsigned sum of a byte sequence read as big-endian 16-bit words;
/// a trailing lone byte is zero-padded into the high half of its own word.
pub open spec fn word_sum(s: Seq<u8>) -> int
    decreases s.len(),
{
    if s.len() == 0 {
        0
    } else if s.len() == 1 {
        s[0] * 256
    } else {
        s[0] * 256 + s[1] + word_sum(s.skip(2))
    }
}

/// Fold a checksum accumulator to 16 bits by repeatedly adding the high
/// half into the low half, as one's-complement addition requires.
pub open spec fn fold16(x: int) -> int
    decreases x via fold16_decreases
{
    if x < 0x10000 {
        x
    } else {
        fold16(x % 0x10000 + x / 0x10000)
    }
}

#[via_fn]
proof fn fold16_decreases(x: int) {
    if x >= 0x10000 {
        lemma_fundamental_div_mod(x, 0x10000);
    }
}

/// The finished checksum: the folded sum, bit-complemented in 16 bits.
pub open spec fn checksum_finalize(sum: int) -> int {
    0xFFFF - fold16(sum)
}

/// The big-endian bytes of 16-bit and 32-bit fields.
pub open spec fn be16_hi(x: u16) -> u8 {
    (x / 256) as u8
}

pub open spec fn be16_lo(x: u16) -> u8 {
    (x % 256) as u8
}

pub open spec fn be32_b0(x: u32) -> u8 {
    (x / 0x1000000) as u8
}

pub open spec fn be32_b1(x: u32) -> u8 {
    ((x / 0x10000) % 256) as u8
}

pub open spec fn be32_b2(x: u32) -> u8 {
    ((x / 256) % 256) as u8
}

pub open spec fn be32_b3(x: u32) -> u8 {
    (x % 256) as u8
}

/// Reassembling the big-endian bytes of a 32-bit field gives it back.
pub proof fn lemma_be32_roundtrip(x: u32)
    ensures
        be32_b0(x) * 0x1000000 + be32_b1(x) * 0x10000 + be32_b2(x) * 256 + be32_b3(x) == x,
{
    lemma_fundamental_div_mod(x as int, 256);
    lemma_fundamental_div_mod(x as int / 256, 256);
    lemma_fundamental_div_mod(x as int / 0x10000, 256);
    vstd::arithmetic::div_mod::lemma_div_denominator(x as int, 256, 256);
    vstd::arithmetic::div_mod::lemma_div_denominator(x as int, 0x10000, 256);
}

pub proof fn lemma_word_sum_nonneg(s: Seq<u8>)
    ensures
        word_sum(s) >= 0,
    decreases s.len(),
{
    if s.len() >= 2 {
        lemma_word_sum_nonneg(s.skip(2));
    }
}

/// Extending an even-length prefix by one more word adds that word's value.
pub proof fn lemma_word_sum_even_prefix(s: Seq<u8>, i: int)
    requires
        0 <= i,
        i % 2 == 0,
        i + 2 <= s.len(),
    ensures
        word_sum(s.take(i + 2)) == word_sum(s.take(i)) + s[i] * 256 + s[i + 1],
    decreases i,
{
    if i == 0 {
        assert(s.take(2).skip(2) =~= Seq::<u8>::empty());
        assert(s.take(2)[0] == s[0]);
        assert(s.take(2)[1] == s[1]);
        assert(word_sum(Seq::<u8>::empty()) == 0);
    } else {
        lemma_word_sum_even_prefix(s.skip(2), i - 2);
        assert(s.take(i + 2).skip(2) =~= s.skip(2).take(i));
        assert(s.take(i).skip(2) =~= s.skip(2).take(i - 2));
        assert(s.skip(2)[i - 2] == s[i]);
        assert(s.skip(2)[i - 1] == s[i + 1]);
        assert(s.take(i + 2)[0] == s[0]);
        assert(s.take(i + 2)[1] == s[1]);
        assert(s.take(i)[0] == s[0]);
        assert(s.take(i)[1] == s[1]);
    }
}

/// A lone trailing byte after an even-length prefix contributes its value
/// shifted into the high half of a word.
pub proof fn lemma_word_sum_odd_last(s: Seq<u8>, i: int)
    requires
        0 <= i,
        i % 2 == 0,
        i + 1 == s.len(),
    ensures
        word_sum(s) == word_sum(s.take(i)) + s[i] * 256,
    decreases i,
{
    if i == 0 {
        assert(s.take(0) =~= Seq::<u8>::empty());
    } else {
        lemma_word_sum_odd_last(s.skip(2), i - 2);
        assert(s.take(i).skip(2) =~= s.skip(2).take(i - 2));
        assert(s.skip(2)[i - 2] == s[i]);
    }
}

/// The word sum splits around any aligned word.
pub proof fn lemma_word_sum_decompose(s: Seq<u8>, k: int)
    requires
        0 <= k,
        2 * k + 2 <= s.len(),
    ensures
        word_sum(s) == word_sum(s.take(2 * k)) + s[2 * k] * 256 + s[2 * k + 1] + word_sum(
            s.skip(2 * k + 2),
        ),
    decreases k,
{
    if k == 0 {
        assert(s.take(0) =~= Seq::<u8>::empty());
    } else {
        lemma_word_sum_decompose(s.skip(2), k - 1);
        assert(s.skip(2).take(2 * k - 2) =~= s.take(2 * k).skip(2));
        assert(s.skip(2).skip(2 * k) =~= s.skip(2 * k + 2));
        assert(s.skip(2)[2 * k - 2] == s[2 * k]);
        assert(s.skip(2)[2 * k - 1] == s[2 * k + 1]);
        assert(s.take(2 * k)[0] == s[0]);
        assert(s.take(2 * k)[1] == s[1]);
    }
}

/// Two equal-length sequences that differ only inside one aligned word have
/// word sums that differ exactly by that word's change.
pub proof fn lemma_word_sum_differs_at_word(a: Seq<u8>, b: Seq<u8>, k: int)
    requires
        a.len() == b.len(),
        0 <= k,
        2 * k + 2 <= a.len(),
        forall|j: int| 0 <= j < a.len() && j != 2 * k && j != 2 * k + 1 ==> a[j] == b[j],
    ensures
        word_sum(a) + b[2 * k] * 256 + b[2 * k + 1] == word_sum(b) + a[2 * k] * 256 + a[2 * k
            + 1],
{
    lemma_word_sum_decompose(a, k);
    lemma_word_sum_decompose(b, k);
    assert(a.take(2 * k) =~= b.take(2 * k));
    assert(a.skip(2 * k + 2) =~= b.skip(2 * k + 2));
}

/// The word sum distributes over concatenation at an even boundary.
pub proof fn lemma_word_sum_even_concat(a: Seq<u8>, b: Seq<u8>)
    requires
        a.len() % 2 == 0,
    ensures
        word_sum(a + b) == word_sum(a) + word_sum(b),
    decreases a.len(),
{
    if a.len() == 0 {
        assert(a + b =~= b);
    } else {
        lemma_word_sum_even_concat(a.skip(2), b);
        assert((a + b).skip(2) =~= a.skip(2) + b);
        assert((a + b)[0] == a[0]);
        assert((a + b)[1] == a[1]);
    }
}

/// The word sum of a sequence is at most 0xFFFF per (started) word.
pub proof fn lemma_word_sum_bound(s: Seq<u8>)
    ensures
        word_sum(s) <= 0xFFFF * ((s.len() + 1) / 2),
    decreases s.len(),
{
    if s.len() >= 2 {
        lemma_word_sum_bound(s.skip(2));
    }
}

/// Folding keeps the value's residue modulo 0xFFFF, stays within 16 bits,
/// and never turns a positive sum into zero.
pub proof fn lemma_fold16_bounds(x: int)
    requires
        x >= 0,
    ensures
        0 <= fold16(x) <= 0xFFFF,
        fold16(x) % 0xFFFF == x % 0xFFFF,
        x > 0 ==> fold16(x) > 0,
    decreases x,
{
    if x >= 0x10000 {
        let q = x / 0x10000;
        let r = x % 0x10000;
        lemma_fundamental_div_mod(x, 0x10000);
        let y = r + q;
        lemma_fold16_bounds(y);
        assert(x == y + 0xFFFF * q);
        lemma_fundamental_div_mod(y, 0xFFFF);
        lemma_fundamental_div_mod(x, 0xFFFF);
        assert(x == 0xFFFF * (q + y / 0xFFFF) + y % 0xFFFF) by {
            assert(y == 0xFFFF * (y / 0xFFFF) + y % 0xFFFF);
        };
        vstd::arithmetic::div_mod::lemma_fundamental_div_mod_converse(
            x,
            0xFFFF,
            q + y / 0xFFFF,
            y % 0xFFFF,
        );
    }
}

/// Adding the complement of a fold back onto the sum folds to 0xFFFF: the
/// receiver-side verification identity behind the one's-complement checksum.
pub proof fn lemma_fold_complement(s: int)
    requires
        s >= 0,
    ensures
        fold16(s + checksum_finalize(s)) == 0xFFFF,
{
    lemma_fold16_bounds(s);
    let f = fold16(s);
    let c = 0xFFFF - f;
    let t = s + c;
    lemma_fold16_bounds(t);
    lemma_fundamental_div_mod(s, 0xFFFF);
    assert(s == 0xFFFF * (s / 0xFFFF) + s % 0xFFFF);
    if f < 0xFFFF {
        vstd::arithmetic::div_mod::lemma_small_mod(f as nat, 0xFFFF as nat);
        assert(f == s % 0xFFFF);
        assert(t == (s / 0xFFFF + 1) * 0xFFFF + 0);
        vstd::arithmetic::div_mod::lemma_fundamental_div_mod_converse(
            t,
            0xFFFF,
            s / 0xFFFF + 1,
            0,
        );
    } else {
        assert(s % 0xFFFF == 0);
        assert(t == (s / 0xFFFF) * 0xFFFF + 0);
        vstd::arithmetic::div_mod::lemma_fundamental_div_mod_converse(t, 0xFFFF, s / 0xFFFF, 0);
    }
    assert(t % 0xFFFF == 0);
    let ft = fold16(t);
    assert(ft % 0xFFFF == 0);
    assert(ft > 0);
    if ft < 0xFFFF {
        vstd::arithmetic::div_mod::lemma_small_mod(ft as nat, 0xFFFF as nat);
        assert(ft == 0);
    }
}

/// The Checksum Engine's accumulator: the 32-bit sum of the byte slice read
/// as big-endian 16-bit words, a trailing byte zero-padded into its own word.
pub fn sum_bytes_as_u32(bytes: &[u8]) -> (r: u32)
    requires
        bytes@.len() <= 65535,
    ensures
        r == word_sum(bytes@),
{
    let n = bytes.len();
    let mut sum: u32 = 0;
    let mut i: usize = 0;
    while i + 2 <= n
        invariant
            i % 2 == 0,
            i <= n,
            n == bytes@.len(),
            n <= 65535,
            sum == word_sum(bytes@.take(i as int)),
            sum <= (i as int / 2) * 0xFFFF,
        decreases n - i,
    {
        let w: u32 = (bytes[i] as u32) * 256 + (bytes[i + 1] as u32);
        proof {
            lemma_word_sum_even_prefix(bytes@, i as int);
        }
        sum = sum + w;
        i = i + 2;
    }
    if i < n {
        proof {
            assert(bytes@.take(n as int) =~= bytes@);
            lemma_word_sum_odd_last(bytes@.take(n as int), i as int);
            assert(bytes@.take(n as int).take(i as int) =~= bytes@.take(i as int));
        }
        sum = sum + (bytes[i] as u32) * 256;
    } else {
        proof {
            assert(bytes@.take(i as int) =~= bytes@);
        }
    }
    sum
}

/// Fold the 32-bit accumulator into 16 bits and bit-complement it: the
/// shared final step of both header checksums.
pub fn fold_checksum(sum: u32) -> (r: u16)
    ensures
        r == checksum_finalize(sum as int),
{
    let mut s: u32 = sum;
    while s >= 0x10000
        invariant
            fold16(s as int) == fold16(sum as int),
        decreases s,
    {
        proof {
            lemma_fundamental_div_mod(s as int, 0x10000);
        }
        s = s % 0x10000 + s / 0x10000;
    }
    proof {
        lemma_fold16_bounds(sum as int);
    }
    (0xFFFF - s) as u16
}

} // verus!
