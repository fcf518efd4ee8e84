//! The bit buffer that parameter sets and slice headers are written into, and
//! the rule by which its bits become bytes: most significant bit first.

use bitvec::order::Msb0;
use bitvec::vec::BitVec;
use vstd::prelude::*;

verus! {

/// The most bits that a buffer can hold (`BitSlice::MAX_BITS` of bitvec).
pub open spec fn max_bits() -> nat {
    (usize::MAX / 8) as nat
}

/// Bit `i` of a byte, counted from its most significant bit.
pub open spec fn bit_of_byte(b: u8, i: int) -> bool {
    (b as int / pow2_small(7 - i)) % 2 == 1
}

/// Two to the power `e`, for the exponents 0 to 7 that a byte has.
pub open spec fn pow2_small(e: int) -> int {
    if e <= 0 {
        1
    } else if e == 1 {
        2
    } else if e == 2 {
        4
    } else if e == 3 {
        8
    } else if e == 4 {
        16
    } else if e == 5 {
        32
    } else if e == 6 {
        64
    } else {
        128
    }
}

/// The bits of a byte string: eight for each byte, the most significant first.
pub open spec fn bytes_to_bits(bytes: Seq<u8>) -> Seq<bool> {
    Seq::new(bytes.len() * 8, |i: int| bit_of_byte(bytes[i / 8], i % 8))
}

/// Bit `i` of a bit string, and `false` behind its end.
pub open spec fn bit_or_zero(bits: Seq<bool>, i: int) -> bool {
    0 <= i < bits.len() && bits[i]
}

/// What bit `i` adds to the value of the byte that holds it.
pub open spec fn bit_weight(bits: Seq<bool>, i: int) -> int {
    if bit_or_zero(bits, i) {
        pow2_small(7 - i % 8)
    } else {
        0
    }
}

/// Byte `k` of a packed bit string: bits `8k` to `8k + 7`, zero where the
/// string has ended.
pub open spec fn packed_byte(bits: Seq<bool>, k: int) -> u8 {
    (bit_weight(bits, 8 * k) + bit_weight(bits, 8 * k + 1) + bit_weight(bits, 8 * k + 2)
        + bit_weight(bits, 8 * k + 3) + bit_weight(bits, 8 * k + 4) + bit_weight(bits, 8 * k + 5)
        + bit_weight(bits, 8 * k + 6) + bit_weight(bits, 8 * k + 7)) as u8
}

/// A bit string as bytes, the first bit in the most significant place, the
/// last byte filled up with zero bits.
#[verifier::opaque]
pub open spec fn pack_bits(bits: Seq<bool>) -> Seq<u8> {
    Seq::new(((bits.len() + 7) / 8) as nat, |k: int| packed_byte(bits, k))
}

/// Eight bits, or what is left of them at the end, make one byte.
pub proof fn lemma_pack_len(bits: Seq<bool>)
    ensures
        pack_bits(bits).len() == (bits.len() + 7) / 8,
{
    reveal(pack_bits);
}

/// The weights of the eight bits of a byte add up to the byte.
proof fn lemma_byte_from_bits(b: u8)
    ensures
        (if bit_of_byte(b, 0) {
            128int
        } else {
            0int
        }) + (if bit_of_byte(b, 1) {
            64int
        } else {
            0int
        }) + (if bit_of_byte(b, 2) {
            32int
        } else {
            0int
        }) + (if bit_of_byte(b, 3) {
            16int
        } else {
            0int
        }) + (if bit_of_byte(b, 4) {
            8int
        } else {
            0int
        }) + (if bit_of_byte(b, 5) {
            4int
        } else {
            0int
        }) + (if bit_of_byte(b, 6) {
            2int
        } else {
            0int
        }) + (if bit_of_byte(b, 7) {
            1int
        } else {
            0int
        }) == b,
{
    assert(b == (b / 128 % 2) * 128 + (b / 64 % 2) * 64 + (b / 32 % 2) * 32 + (b / 16 % 2) * 16 + (b
        / 8 % 2) * 8 + (b / 4 % 2) * 4 + (b / 2 % 2) * 2 + (b / 1 % 2)) by (bit_vector);
}

/// Behind whole bytes at the front, a bit weighs what it weighs without them.
proof fn lemma_tail_weight(bytes: Seq<u8>, tail: Seq<bool>, m: int)
    requires
        0 <= m,
    ensures
        bit_weight(bytes_to_bits(bytes) + tail, 8 * bytes.len() + m) == bit_weight(tail, m),
{
}

/// Whole bytes at the front of a bit string come out of the packing as they
/// went in, and what follows them is packed behind them.
pub proof fn lemma_pack_bytes_first(bytes: Seq<u8>, tail: Seq<bool>)
    ensures
        pack_bits(bytes_to_bits(bytes) + tail) == bytes + pack_bits(tail),
{
    reveal(pack_bits);
    let n = bytes.len() as int;
    let bits = bytes_to_bits(bytes) + tail;
    let packed = pack_bits(bits);
    let expected = bytes + pack_bits(tail);
    assert(packed.len() == expected.len());
    assert forall|k: int| 0 <= k < packed.len() implies packed[k] == expected[k] by {
        if k < n {
            lemma_byte_from_bits(bytes[k]);
            assert(bits[8 * k] == bit_of_byte(bytes[k], 0));
            assert(bits[8 * k + 1] == bit_of_byte(bytes[k], 1));
            assert(bits[8 * k + 2] == bit_of_byte(bytes[k], 2));
            assert(bits[8 * k + 3] == bit_of_byte(bytes[k], 3));
            assert(bits[8 * k + 4] == bit_of_byte(bytes[k], 4));
            assert(bits[8 * k + 5] == bit_of_byte(bytes[k], 5));
            assert(bits[8 * k + 6] == bit_of_byte(bytes[k], 6));
            assert(bits[8 * k + 7] == bit_of_byte(bytes[k], 7));
        } else {
            let j = k - n;
            lemma_tail_weight(bytes, tail, 8 * j);
            lemma_tail_weight(bytes, tail, 8 * j + 1);
            lemma_tail_weight(bytes, tail, 8 * j + 2);
            lemma_tail_weight(bytes, tail, 8 * j + 3);
            lemma_tail_weight(bytes, tail, 8 * j + 4);
            lemma_tail_weight(bytes, tail, 8 * j + 5);
            lemma_tail_weight(bytes, tail, 8 * j + 6);
            lemma_tail_weight(bytes, tail, 8 * j + 7);
            assert(pack_bits(tail)[j] == packed_byte(tail, j));
        }
    }
    assert(packed =~= expected);
}

/// A growable string of bits, kept by bitvec as bytes with the most
/// significant bit first.
#[verifier::external_body]
pub struct BitBuf {
    inner: BitVec<u8, Msb0>,
}

/// The bits that a buffer holds, the first written first.
pub uninterp spec fn buffer_bits(buf: BitBuf) -> Seq<bool>;

impl View for BitBuf {
    type V = Seq<bool>;

    open spec fn view(&self) -> Seq<bool> {
        buffer_bits(*self)
    }
}

/// `BitVec::with_capacity`: an empty buffer with room for `capacity` bits.
/// bitvec panics on a capacity above `BitSlice::MAX_BITS`.
#[verifier::external_body]
pub(crate) fn bv_with_capacity(capacity: usize) -> (buf: BitBuf)
    requires
        capacity <= max_bits(),
    ensures
        buffer_bits(buf) == Seq::<bool>::empty(),
{
    BitBuf { inner: BitVec::with_capacity(capacity) }
}

/// `BitVec::from_slice`: a buffer that holds a copy of the bytes given, all
/// of their bits live, each byte's most significant bit first. bitvec panics
/// where the bytes are more than it can count in bits. The copy lies in an
/// allocation that bitvec makes for it.
#[verifier::external_body]
pub(crate) fn bv_from_slice(bytes: &[u8]) -> (buf: BitBuf)
    requires
        bytes@.len() * 8 <= max_bits(),
    ensures
        buffer_bits(buf) == bytes_to_bits(bytes@),
{
    BitBuf { inner: BitVec::from_slice(bytes) }
}

/// `BitVec::len`: the number of bits held.
#[verifier::external_body]
pub(crate) fn bv_len(buf: &BitBuf) -> (n: usize)
    ensures
        n == buffer_bits(*buf).len(),
{
    buf.inner.len()
}

/// `BitVec::push`: appends one bit. bitvec panics where the buffer already
/// holds `BitSlice::MAX_BITS` bits.
#[verifier::external_body]
pub(crate) fn bv_push(buf: &mut BitBuf, bit: bool)
    requires
        buffer_bits(*old(buf)).len() < max_bits(),
    ensures
        buffer_bits(*final(buf)) == buffer_bits(*old(buf)).push(bit),
{
    buf.inner.push(bit)
}

/// `BitVec::extend` from a slice of `bool`: appends its bits in order. bitvec
/// panics where the result would hold more than `BitSlice::MAX_BITS` bits.
#[verifier::external_body]
pub(crate) fn bv_extend(buf: &mut BitBuf, bits: &[bool])
    requires
        buffer_bits(*old(buf)).len() + bits@.len() <= max_bits(),
    ensures
        buffer_bits(*final(buf)) == buffer_bits(*old(buf)) + bits@,
{
    buf.inner.extend(bits)
}

/// `BitVec::set_uninitialized` with `false`, then `BitVec::into_vec`: the
/// bytes that hold the bits, the unused low bits of the last byte cleared.
/// A buffer made by `bv_with_capacity` or `bv_from_slice` starts at the first
/// bit of its first byte, and no function here moves that start.
#[verifier::external_body]
pub(crate) fn bv_into_vec(buf: BitBuf) -> (bytes: Vec<u8>)
    ensures
        bytes@ == pack_bits(buffer_bits(buf)),
{
    let mut inner = buf.inner;
    inner.set_uninitialized(false);
    inner.into_vec()
}

/// Appends one flag or one stop bit.
pub(crate) fn put_bit(buf: &mut BitBuf, bit: bool)
    requires
        old(buf)@.len() < max_bits(),
    ensures
        final(buf)@ == old(buf)@ + seq![bit],
{
    bv_push(buf, bit);
}

impl BitBuf {
    /// An empty buffer.
    pub fn new() -> (buf: Self)
        ensures
            buf@ == Seq::<bool>::empty(),
    {
        bv_with_capacity(0)
    }

    /// The number of bits written.
    pub fn len(&self) -> (n: usize)
        ensures
            n == self@.len(),
    {
        bv_len(self)
    }

    /// The bits as bytes, the last byte filled up with zero bits.
    pub fn into_vec(self) -> (bytes: Vec<u8>)
        ensures
            bytes@ == pack_bits(self@),
    {
        bv_into_vec(self)
    }
}

} // verus!
