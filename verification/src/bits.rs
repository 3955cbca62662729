//! Counting and reading the bits of machine words.

use vstd::arithmetic::power2::*;
use vstd::prelude::*;

verus! {

/// How many ones the binary representation of `n` has.
pub open spec fn ones(n: nat) -> nat
    decreases n,
{
    if n == 0 {
        0
    } else {
        n % 2 + ones(n / 2)
    }
}

/// `u64::count_ones`: std documents it as the number of ones in the binary
/// representation of the argument.
pub assume_specification[ u64::count_ones ](i: u64) -> (r: u32)
    ensures
        r == ones(i as nat),
;

/// `u32::count_ones`: std documents it as the number of ones in the binary
/// representation of the argument.
pub assume_specification[ u32::count_ones ](i: u32) -> (r: u32)
    ensures
        r == ones(i as nat),
;

/// Bit `k` of a byte, as a number.
pub open spec fn byte_bit(x: u8, k: nat) -> nat
    recommends
        k < 8,
{
    if (x >> (k as u8)) & 1 == 1 {
        1
    } else {
        0
    }
}

/// The ones of a number are those of its high part and those of its low part.
pub proof fn lemma_ones_split(high: nat, low: nat, k: nat)
    requires
        low < pow2(k),
    ensures
        ones((high * pow2(k) + low) as nat) == ones(high) + ones(low),
    decreases k,
{
    lemma2_to64();
    if k == 0 {
        assert(high * pow2(0) + low == high) by (nonlinear_arith)
            requires
                pow2(0) == 1,
                low == 0,
        ;
    } else {
        let j = (k - 1) as nat;
        lemma_pow2_unfold(k);
        let n = (high * pow2(k) + low) as nat;
        let half = pow2(j);
        assert(n == 2 * (high * half) + low) by (nonlinear_arith)
            requires
                n == high * pow2(k) + low,
                pow2(k) == 2 * half,
        ;
        assert(n / 2 == high * half + low / 2);
        assert(n % 2 == low % 2);
        lemma_ones_split(high, low / 2, j);
        if n == 0 {
            assert(low == 0);
            assert(high == 0) by (nonlinear_arith)
                requires
                    high * half == 0,
                    half > 0,
            ;
        }
    }
}

/// The ones of a byte are its eight bits added up.
pub proof fn lemma_ones_of_byte(x: u8)
    ensures
        ones(x as nat) == byte_bit(x, 0) + byte_bit(x, 1) + byte_bit(x, 2) + byte_bit(x, 3)
            + byte_bit(x, 4) + byte_bit(x, 5) + byte_bit(x, 6) + byte_bit(x, 7),
        ones(x as nat) <= 8,
{
    reveal_with_fuel(ones, 9);
    assert(x >> 0 == x && x >> 1 == x / 2 && x >> 2 == x / 2 / 2 && x >> 3 == x / 2 / 2 / 2 && x
        >> 4 == x / 2 / 2 / 2 / 2 && x >> 5 == x / 2 / 2 / 2 / 2 / 2 && x >> 6 == x / 2 / 2 / 2 / 2
        / 2 / 2 && x >> 7 == x / 2 / 2 / 2 / 2 / 2 / 2 / 2) by (bit_vector);
    assert((x >> 0) & 1 == (x >> 0) % 2 && (x >> 1) & 1 == (x >> 1) % 2 && (x >> 2) & 1 == (x >> 2)
        % 2 && (x >> 3) & 1 == (x >> 3) % 2 && (x >> 4) & 1 == (x >> 4) % 2 && (x >> 5) & 1 == (x
        >> 5) % 2 && (x >> 6) & 1 == (x >> 6) % 2 && (x >> 7) & 1 == (x >> 7) % 2) by (bit_vector);
}

/// Bits of a conjunction are products of bits.
pub proof fn lemma_byte_bit_and(x: u8, y: u8, k: nat)
    requires
        k < 8,
    ensures
        byte_bit(x & y, k) == byte_bit(x, k) * byte_bit(y, k),
{
    let s = k as u8;
    assert(s < 8 ==> ((((x & y) >> s) & 1 == 1) == ((x >> s) & 1 == 1 && (y >> s) & 1 == 1)))
        by (bit_vector);
    let a = byte_bit(x, k);
    let b = byte_bit(y, k);
    assert(a * b == if a == 1 && b == 1 { 1nat } else { 0nat }) by (nonlinear_arith)
        requires
            a == 0 || a == 1,
            b == 0 || b == 1,
    ;
}

/// The ones of a 64-bit word are those of its eight bytes added up.
proof fn lemma_ones_of_word(w: u64)
    ensures
        ones(w as nat) == ones((w & 0xff) as nat) + ones((w >> 8 & 0xff) as nat) + ones(
            (w >> 16 & 0xff) as nat,
        ) + ones((w >> 24 & 0xff) as nat) + ones((w >> 32 & 0xff) as nat) + ones(
            (w >> 40 & 0xff) as nat,
        ) + ones((w >> 48 & 0xff) as nat) + ones((w >> 56 & 0xff) as nat),
{
    lemma2_to64();
    assert(w == (w >> 8) * 256 + (w & 0xff) && (w >> 8) == (w >> 16) * 256 + (w >> 8 & 0xff) && (w
        >> 16) == (w >> 24) * 256 + (w >> 16 & 0xff) && (w >> 24) == (w >> 32) * 256 + (w >> 24
        & 0xff) && (w >> 32) == (w >> 40) * 256 + (w >> 32 & 0xff) && (w >> 40) == (w >> 48) * 256
        + (w >> 40 & 0xff) && (w >> 48) == (w >> 56) * 256 + (w >> 48 & 0xff) && (w >> 56) == (w
        >> 56 & 0xff)) by (bit_vector);
    assert(forall|v: u64| #[trigger] (v & 0xff) < 256) by (bit_vector);
    lemma_ones_split((w >> 8) as nat, (w & 0xff) as nat, 8);
    lemma_ones_split((w >> 16) as nat, (w >> 8 & 0xff) as nat, 8);
    lemma_ones_split((w >> 24) as nat, (w >> 16 & 0xff) as nat, 8);
    lemma_ones_split((w >> 32) as nat, (w >> 24 & 0xff) as nat, 8);
    lemma_ones_split((w >> 40) as nat, (w >> 32 & 0xff) as nat, 8);
    lemma_ones_split((w >> 48) as nat, (w >> 40 & 0xff) as nat, 8);
    lemma_ones_split((w >> 56) as nat, (w >> 48 & 0xff) as nat, 8);
}

/// The eight bytes from `at` on, lowest byte first, as one word.
pub open spec fn word_at(s: Seq<u8>, at: int) -> u64 {
    (s[at] as u64) | (s[at + 1] as u64) << 8 | (s[at + 2] as u64) << 16 | (s[at + 3] as u64) << 24
        | (s[at + 4] as u64) << 32 | (s[at + 5] as u64) << 40 | (s[at + 6] as u64) << 48 | (s[at
        + 7] as u64) << 56
}

/// Reads eight bytes as one word.
pub fn read_word(s: &[u8], at: usize) -> (w: u64)
    requires
        at + 8 <= s.len(),
    ensures
        w == word_at(s@, at as int),
{
    (s[at] as u64) | (s[at + 1] as u64) << 8 | (s[at + 2] as u64) << 16 | (s[at + 3] as u64) << 24
        | (s[at + 4] as u64) << 32 | (s[at + 5] as u64) << 40 | (s[at + 6] as u64) << 48 | (s[at
        + 7] as u64) << 56
}

/// The common ones of two words are those of their bytes, pair by pair.
pub proof fn lemma_common_ones_of_words(s: Seq<u8>, i: int, t: Seq<u8>, j: int)
    ensures
        ones((word_at(s, i) & word_at(t, j)) as nat) == ones((s[i] & t[j]) as nat) + ones(
            (s[i + 1] & t[j + 1]) as nat,
        ) + ones((s[i + 2] & t[j + 2]) as nat) + ones((s[i + 3] & t[j + 3]) as nat) + ones(
            (s[i + 4] & t[j + 4]) as nat,
        ) + ones((s[i + 5] & t[j + 5]) as nat) + ones((s[i + 6] & t[j + 6]) as nat) + ones(
            (s[i + 7] & t[j + 7]) as nat,
        ),
{
    let (a0, a1, a2, a3, a4, a5, a6, a7) = (
        s[i],
        s[i + 1],
        s[i + 2],
        s[i + 3],
        s[i + 4],
        s[i + 5],
        s[i + 6],
        s[i + 7],
    );
    let (b0, b1, b2, b3, b4, b5, b6, b7) = (
        t[j],
        t[j + 1],
        t[j + 2],
        t[j + 3],
        t[j + 4],
        t[j + 5],
        t[j + 6],
        t[j + 7],
    );
    let w = word_at(s, i) & word_at(t, j);
    lemma_ones_of_word(w);
    assert((w & 0xff) == (a0 & b0) as u64 && (w >> 8 & 0xff) == (a1 & b1) as u64 && (w >> 16 & 0xff)
        == (a2 & b2) as u64 && (w >> 24 & 0xff) == (a3 & b3) as u64 && (w >> 32 & 0xff) == (a4
        & b4) as u64 && (w >> 40 & 0xff) == (a5 & b5) as u64 && (w >> 48 & 0xff) == (a6
        & b6) as u64 && (w >> 56 & 0xff) == (a7 & b7) as u64) by (bit_vector)
        requires
            w == ((a0 as u64) | (a1 as u64) << 8 | (a2 as u64) << 16 | (a3 as u64) << 24 | (
            a4 as u64) << 32 | (a5 as u64) << 40 | (a6 as u64) << 48 | (a7 as u64) << 56) & ((
            b0 as u64) | (b1 as u64) << 8 | (b2 as u64) << 16 | (b3 as u64) << 24 | (b4 as u64)
                << 32 | (b5 as u64) << 40 | (b6 as u64) << 48 | (b7 as u64) << 56),
    ;
}

/// A bit of a byte is a digit of the byte to base two.
pub proof fn lemma_byte_bit(x: u8, k: nat)
    requires
        k < 8,
    ensures
        byte_bit(x, k) == x as int / pow2(k) as int % 2,
{
    lemma2_to64();
    let y: u8 = x >> (k as u8);
    vstd::bits::lemma_u8_shr_is_div(x, k as u8);
    assert(y & 1 == y % 2) by (bit_vector);
}

/// Byte `k` of the eight that are read as a word stands at the `k`-th place of the word, lowest first.
pub proof fn lemma_word_read(s: &[u8], at: usize, w: u64)
    requires
        at + 8 <= s@.len(),
        call_ensures(read_word, (s, at), w),
    ensures
        w == s@[at as int] + 0x100 * s@[at + 1] + 0x1_0000 * s@[at + 2] + 0x100_0000 * s@[at + 3]
            + 0x1_0000_0000 * s@[at + 4] + 0x100_0000_0000 * s@[at + 5] + 0x1_0000_0000_0000
            * s@[at + 6] + 0x100_0000_0000_0000 * s@[at + 7],
{
    let (b0, b1, b2, b3) = (s@[at as int], s@[at + 1], s@[at + 2], s@[at + 3]);
    let (b4, b5, b6, b7) = (s@[at + 4], s@[at + 5], s@[at + 6], s@[at + 7]);
    assert((b0 as u64) | (b1 as u64) << 8 | (b2 as u64) << 16 | (b3 as u64) << 24 | (b4 as u64)
        << 32 | (b5 as u64) << 40 | (b6 as u64) << 48 | (b7 as u64) << 56 == b0 + 0x100 * b1
        + 0x1_0000 * b2 + 0x100_0000 * b3 + 0x1_0000_0000 * b4 + 0x100_0000_0000 * b5
        + 0x1_0000_0000_0000 * b6 + 0x100_0000_0000_0000 * b7) by (bit_vector);
}

} // verus!
