//! Variable length coding with zero-order Exponential-Golomb codes.

use crate::bitbuf::{bv_extend, bv_push, max_bits, BitBuf};
use vstd::arithmetic::div_mod::lemma_div_denominator;
use vstd::arithmetic::logarithm::log;
use vstd::arithmetic::power2::{lemma2_to64, lemma2_to64_rest, lemma_pow2_unfold, pow2};
use vstd::bits::lemma_u64_shr_is_div;
use vstd::prelude::*;

verus! {

/// The number of binary digits of `n`; zero has one digit.
pub open spec fn bit_len(n: nat) -> nat
    decreases n,
{
    if n < 2 {
        1
    } else {
        1 + bit_len(n / 2)
    }
}

/// The `k` lowest binary digits of `c`, the most significant first.
pub open spec fn low_bits(c: nat, k: nat) -> Seq<bool>
    decreases k,
{
    if k == 0 {
        Seq::<bool>::empty()
    } else {
        low_bits(c / 2, (k - 1) as nat).push(c % 2 == 1)
    }
}

/// `n` zero bits.
pub open spec fn zero_bits(n: nat) -> Seq<bool> {
    Seq::new(n, |i: int| false)
}

/// The code word of `c >= 1`: one zero bit for each binary digit of `c` but
/// the first, then the digits of `c`.
pub open spec fn code_word(c: nat) -> Seq<bool> {
    zero_bits((bit_len(c) - 1) as nat) + low_bits(c, bit_len(c))
}

/// The unsigned Exponential-Golomb code of `v`: the code word of `v + 1`.
pub open spec fn ue_bits(v: nat) -> Seq<bool> {
    code_word(v + 1)
}

/// The unsigned number that stands for the signed `v`: positive numbers take
/// the odd places, zero and the negative ones the even places.
pub open spec fn se_code(v: int) -> nat {
    if v > 0 {
        (2 * v - 1) as nat
    } else {
        (-2 * v) as nat
    }
}

/// The signed Exponential-Golomb code of `v`.
pub open spec fn se_bits(v: int) -> Seq<bool> {
    ue_bits(se_code(v))
}

/// A number below `2^k` has at most `k` binary digits.
pub proof fn lemma_bit_len_bound(n: nat, k: nat)
    requires
        k >= 1,
        n < pow2(k),
    ensures
        bit_len(n) <= k,
    decreases k,
{
    lemma_pow2_unfold(k);
    if n >= 2 {
        if k == 1 {
            lemma2_to64();
        } else {
            lemma_bit_len_bound(n / 2, (k - 1) as nat);
        }
    }
}

/// A number has as many low bits as were asked for.
pub proof fn lemma_low_bits_len(c: nat, k: nat)
    ensures
        low_bits(c, k).len() == k,
    decreases k,
{
    if k > 0 {
        lemma_low_bits_len(c / 2, (k - 1) as nat);
    }
}

/// The length of a code word: twice the digits of `c`, less one.
pub proof fn lemma_code_word_len(c: nat)
    ensures
        code_word(c).len() == 2 * bit_len(c) - 1,
{
    lemma_low_bits_len(c, bit_len(c));
}

/// The code of a 32-bit number, signed or not, has at most 65 bits.
pub proof fn lemma_code_word_len_bound(c: nat)
    requires
        c <= 0x1_0000_0001,
    ensures
        code_word(c).len() <= 65,
{
    lemma2_to64_rest();
    lemma_bit_len_bound(c, 33);
    lemma_code_word_len(c);
}

/// The code of an unsigned 32-bit number has at most 65 bits.
pub proof fn lemma_ue_len_bound(x: u32)
    ensures
        ue_bits(x as nat).len() <= 65,
{
    lemma_code_word_len_bound((x + 1) as nat);
}

/// The code of a signed 32-bit number has at most 65 bits.
pub proof fn lemma_se_len_bound(x: i32)
    ensures
        se_bits(x as int).len() <= 65,
{
    lemma_code_word_len_bound(se_code(x as int) + 1);
}

/// The number of binary digits of `x`; zero has one digit.
pub fn num_bits(x: u32) -> (n: u8)
    ensures
        n == bit_len(x as nat),
        1 <= n <= 32,
{
    proof {
        lemma2_to64();
        lemma_bit_len_bound(x as nat, 32);
    }
    if x == 0 {
        return 1;
    }
    let mut rest: u32 = x;
    let mut value: u8 = 0;
    while rest != 0
        invariant
            x > 0,
            bit_len(x as nat) <= 32,
            value + (if rest == 0 {
                0
            } else {
                bit_len(rest as nat)
            }) == bit_len(x as nat),
        decreases rest,
    {
        assert(rest >> 1 == rest / 2) by (bit_vector);
        rest >>= 1;
        value += 1;
    }
    value
}

/// The number of binary digits of a code number of up to 33 digits.
fn code_len(c: u64) -> (n: u8)
    requires
        1 <= c <= 0x1_0000_0001,
    ensures
        n == bit_len(c as nat),
        1 <= n <= 33,
{
    if c <= 0xFFFF_FFFF {
        num_bits(c as u32)
    } else {
        proof {
            lemma2_to64();
            lemma2_to64_rest();
            lemma_bit_len_bound((c / 2) as nat, 32);
            assert(bit_len((c / 2) as nat) >= 32) by {
                if bit_len((c / 2) as nat) <= 31 {
                    lemma_bit_len_lower((c / 2) as nat);
                    vstd::arithmetic::power2::lemma_pow2_strictly_increases(
                        bit_len((c / 2) as nat),
                        32,
                    );
                }
            }
        }
        33
    }
}

/// A number is below two to the number of its binary digits.
pub proof fn lemma_bit_len_lower(n: nat)
    ensures
        n < pow2(bit_len(n)),
        n >= 1 ==> pow2((bit_len(n) - 1) as nat) <= n,
    decreases n,
{
    lemma2_to64();
    if n >= 2 {
        lemma_bit_len_lower(n / 2);
        lemma_pow2_unfold(bit_len(n));
        lemma_pow2_unfold(bit_len(n / 2));
    }
}

/// Appends the code word of `c` to the buffer.
fn append_code_word(buf: &mut BitBuf, c: u64)
    requires
        1 <= c <= 0x1_0000_0001,
        old(buf)@.len() + code_word(c as nat).len() <= max_bits(),
    ensures
        final(buf)@ == old(buf)@ + code_word(c as nat),
{
    let nbits: u8 = code_len(c);
    let ghost k: nat = nbits as nat;
    let ghost start: Seq<bool> = buf@;
    proof {
        lemma_code_word_len(c as nat);
    }

    let mut zeros: Vec<bool> = Vec::new();
    let mut j: u8 = 1;
    while j < nbits
        invariant
            1 <= j <= nbits,
            zeros@ == zero_bits((j - 1) as nat),
        decreases nbits - j,
    {
        zeros.push(false);
        j += 1;
        assert(zeros@ =~= zero_bits((j - 1) as nat));
    }
    bv_extend(buf, zeros.as_slice());

    let ghost base: Seq<bool> = buf@;
    assert(base == start + zero_bits((k - 1) as nat));
    let mut i: u8 = 0;
    proof {
        lemma_low_bits_len((c as nat) / pow2(k), 0);
        assert(buf@ =~= base + low_bits((c as nat) / pow2(k), 0));
    }
    while i < nbits
        invariant
            0 <= i <= nbits,
            nbits == k,
            1 <= k <= 33,
            base.len() == start.len() + k - 1,
            start.len() + 2 * k - 1 <= max_bits(),
            buf@ == base + low_bits((c as nat) / pow2((k - i) as nat), i as nat),
        decreases nbits - i,
    {
        let shift: u64 = (nbits - 1 - i) as u64;
        let mask: u64 = 1u64 << shift;
        let bit: bool = c & mask != 0;
        proof {
            let s: nat = shift as nat;
            assert((c & (1u64 << shift) != 0) == ((c >> shift) % 2 == 1)) by (bit_vector)
                requires
                    shift < 64,
            ;
            lemma_u64_shr_is_div(c, shift);
            lemma_pow2_unfold(s + 1);
            vstd::arithmetic::power2::lemma_pow2_pos(s);
            lemma_div_denominator(c as int, pow2(s) as int, 2);
            let hi: nat = (c as nat) / pow2(s);
            assert(hi / 2 == (c as nat) / pow2(s + 1));
            assert(low_bits(hi, (i + 1) as nat) == low_bits(hi / 2, i as nat).push(hi % 2 == 1));
            lemma_low_bits_len((c as nat) / pow2((k - i) as nat), i as nat);
        }
        bv_push(buf, bit);
        i += 1;
        assert(buf@ =~= base + low_bits((c as nat) / pow2((k - i) as nat), i as nat));
    }
    proof {
        lemma2_to64();
        assert((c as nat) / pow2(0) == c as nat);
        assert(buf@ == base + low_bits(c as nat, k));
        assert(start + zero_bits((k - 1) as nat) + low_bits(c as nat, k) =~= start + (zero_bits(
            (k - 1) as nat,
        ) + low_bits(c as nat, k)));
    }
}

/// Appends the unsigned Exponential-Golomb code of `x`.
pub fn bv_exp_golomb(buf: &mut BitBuf, x: u32)
    requires
        old(buf)@.len() + ue_bits(x as nat).len() <= max_bits(),
    ensures
        final(buf)@ == old(buf)@ + ue_bits(x as nat),
{
    append_code_word(buf, x as u64 + 1);
}

/// Appends the signed Exponential-Golomb code of `x`.
pub fn bv_signed_exp_golomb(buf: &mut BitBuf, x: i32)
    requires
        old(buf)@.len() + se_bits(x as int).len() <= max_bits(),
    ensures
        final(buf)@ == old(buf)@ + se_bits(x as int),
{
    let code: u64 = if x > 0 {
        (2 * (x as i64) - 1) as u64
    } else {
        (-2 * (x as i64)) as u64
    };
    append_code_word(buf, code + 1);
}

/// The number of zero bits that stand before the first one bit, or before
/// the end where there is no one bit.
pub open spec fn leading_zeros(bits: Seq<bool>) -> nat
    decreases bits.len(),
{
    if bits.len() == 0 || bits[0] {
        0
    } else {
        1 + leading_zeros(bits.drop_first())
    }
}

/// The number that a bit string spells, its first bit the most significant.
pub open spec fn bits_value(bits: Seq<bool>) -> nat
    decreases bits.len(),
{
    if bits.len() == 0 {
        0
    } else {
        2 * bits_value(bits.drop_last()) + if bits.last() {
            1nat
        } else {
            0nat
        }
    }
}

/// Reads one unsigned code from the front of a bit string, as a decoder does:
/// `z` zero bits, then `z + 1` bits that spell the number plus one. The
/// result is the number and how many bits it took, or `None` where the string
/// ends too early.
pub open spec fn ue_decode(bits: Seq<bool>) -> Option<(nat, nat)> {
    let z = leading_zeros(bits);
    if bits.len() < 2 * z + 1 {
        None
    } else {
        Some(((bits_value(bits.subrange(z as int, (2 * z + 1) as int)) - 1) as nat, 2 * z + 1))
    }
}

/// The signed number for which the unsigned `code` stands.
pub open spec fn se_value(code: nat) -> int {
    if code % 2 == 1 {
        ((code + 1) / 2) as int
    } else {
        -((code / 2) as int)
    }
}

/// Reads one signed code from the front of a bit string.
pub open spec fn se_decode(bits: Seq<bool>) -> Option<(int, nat)> {
    match ue_decode(bits) {
        Some((code, used)) => Some((se_value(code), used)),
        None => None,
    }
}

/// The digits of a number begin with a one.
proof fn lemma_low_bits_first(c: nat)
    requires
        c >= 1,
    ensures
        low_bits(c, bit_len(c)).len() == bit_len(c),
        low_bits(c, bit_len(c))[0],
    decreases c,
{
    lemma_low_bits_len(c, bit_len(c));
    if c >= 2 {
        lemma_low_bits_first(c / 2);
    }
}

/// Zero bits before a one bit are all of the leading zeros.
proof fn lemma_leading_zeros(n: nat, tail: Seq<bool>)
    requires
        tail.len() > 0,
        tail[0],
    ensures
        leading_zeros(zero_bits(n) + tail) == n,
    decreases n,
{
    if n > 0 {
        assert((zero_bits(n) + tail).drop_first() =~= zero_bits((n - 1) as nat) + tail);
        lemma_leading_zeros((n - 1) as nat, tail);
    }
}

/// The `k` low bits of a number below `2^k` spell that number.
proof fn lemma_bits_value_low_bits(c: nat, k: nat)
    requires
        c < pow2(k),
    ensures
        bits_value(low_bits(c, k)) == c,
    decreases k,
{
    lemma_low_bits_len(c, k);
    if k == 0 {
        lemma2_to64();
    } else {
        lemma_pow2_unfold(k);
        lemma_bits_value_low_bits(c / 2, (k - 1) as nat);
        assert(low_bits(c, k).drop_last() =~= low_bits(c / 2, (k - 1) as nat));
    }
}

/// The number of binary digits is the whole part of the logarithm, plus one.
pub proof fn lemma_bit_len_is_log(n: nat)
    requires
        n >= 1,
    ensures
        bit_len(n) == log(2, n as int) + 1,
    decreases n,
{
    reveal(log);
    if n >= 2 {
        lemma_bit_len_is_log(n / 2);
    }
}

/// Reading a code word back gives the number it was made of, and takes
/// exactly its bits, whatever follows them.
proof fn lemma_code_word_round_trip(c: nat, rest: Seq<bool>)
    requires
        c >= 1,
    ensures
        ue_decode(code_word(c) + rest) == Some(((c - 1) as nat, code_word(c).len())),
{
    let k = bit_len(c);
    let digits = low_bits(c, k);
    let all = code_word(c) + rest;
    lemma_low_bits_first(c);
    lemma_code_word_len(c);
    assert(all =~= zero_bits((k - 1) as nat) + (digits + rest));
    lemma_leading_zeros((k - 1) as nat, digits + rest);
    assert(all.subrange(k - 1, 2 * k - 1) =~= digits);
    lemma_bit_len_lower(c);
    lemma_bits_value_low_bits(c, k);
}

/// Every unsigned number comes back from its code, whatever bits follow the
/// code; and the code of `v` has `2 * floor(log2(v + 1)) + 1` bits.
pub proof fn lemma_ue_round_trip(v: nat, rest: Seq<bool>)
    ensures
        ue_decode(ue_bits(v) + rest) == Some((v, ue_bits(v).len())),
        ue_bits(v).len() == 2 * log(2, (v + 1) as int) + 1,
{
    lemma_code_word_round_trip(v + 1, rest);
    lemma_code_word_len(v + 1);
    lemma_bit_len_is_log(v + 1);
}

/// Every signed number comes back from its code, whatever bits follow the
/// code.
pub proof fn lemma_se_round_trip(v: int, rest: Seq<bool>)
    ensures
        se_decode(se_bits(v) + rest) == Some((v, se_bits(v).len())),
{
    lemma_ue_round_trip(se_code(v), rest);
}

impl BitBuf {
    /// Appends the unsigned Exponential-Golomb code of `value`.
    pub fn extend_exp_golomb(&mut self, value: u32)
        requires
            old(self)@.len() + ue_bits(value as nat).len() <= max_bits(),
        ensures
            final(self)@ == old(self)@ + ue_bits(value as nat),
    {
        bv_exp_golomb(self, value)
    }

    /// Appends the signed Exponential-Golomb code of `value`.
    pub fn extend_signed_exp_golomb(&mut self, value: i32)
        requires
            old(self)@.len() + se_bits(value as int).len() <= max_bits(),
        ensures
            final(self)@ == old(self)@ + se_bits(value as int),
    {
        bv_signed_exp_golomb(self, value)
    }
}

} // verus!
