//! The header of an IDR slice, and the type of the macroblocks in it.

use crate::bitbuf::{
    bv_into_vec, bv_with_capacity, max_bits, pack_bits, packed_byte, put_bit, BitBuf,
};
use crate::golomb::{
    bit_len, bv_exp_golomb, bv_signed_exp_golomb, lemma_se_len_bound, lemma_ue_len_bound, low_bits,
    se_bits, ue_bits, zero_bits,
};
use crate::pps::Pps;
use crate::rbsp::RbspData;
use crate::sps::Sps;
use vstd::prelude::*;

verus! {

/// The two bytes that stand before the samples of every macroblock but the
/// first of a slice.
pub const I_PCM_HEADER: [u8; 2] = [0x0D, 0x00];

/// The type of a macroblock.
#[allow(non_camel_case_types)]
#[derive(Debug, PartialEq, Eq, Clone, Copy, Structural)]
pub enum MacroblockType {
    /// Samples as they are, without prediction or transform.
    I_PCM,
}

impl MacroblockType {
    /// The number that is written as `mb_type` in an I slice.
    pub fn mb_type(&self) -> (n: u32)
        ensures
            n == 25,
    {
        match self {
            Self::I_PCM => 25,
        }
    }

    /// The macroblock header as it stands in the stream: the code of the
    /// macroblock type, and zero bits up to the next whole byte.
    pub fn as_encoded_macroblock_header(&self) -> (header: &'static [u8])
        ensures
            header@ == seq![0x0Du8, 0x00u8],
            header@ == pack_bits(ue_bits(25)),
    {
        proof {
            lemma_macroblock_header();
        }
        match self {
            Self::I_PCM => I_PCM_HEADER.as_slice(),
        }
    }
}

/// The code of macroblock type 25, filled up to whole bytes, is `0D 00`.
pub proof fn lemma_macroblock_header()
    ensures
        pack_bits(ue_bits(25)) == seq![0x0Du8, 0x00u8],
{
    reveal(pack_bits);
    reveal_with_fuel(bit_len, 6);
    reveal_with_fuel(low_bits, 6);
}

/// The bits of the header of an IDR slice that begins the picture, up to and
/// with the type of its first macroblock: first macroblock 0, slice type 7,
/// the picture parameter set, frame number 0 in four bits, IDR picture 0,
/// picture order count 0 in four bits, no output of prior pictures, no long
/// term reference, no change of the quantiser, and macroblock type 25.
pub open spec fn slice_header_bits(pic_parameter_set_id: u32) -> Seq<bool> {
    ue_bits(0) + ue_bits(7) + ue_bits(pic_parameter_set_id as nat) + zero_bits(4) + ue_bits(0)
        + zero_bits(4) + seq![true, false] + se_bits(0) + ue_bits(25)
}

/// The header of an IDR slice.
pub struct SliceHeader {}

/// Appends `n` zero bits.
fn put_zeros(bv: &mut BitBuf, n: u32)
    requires
        old(bv)@.len() + n <= max_bits(),
    ensures
        final(bv)@ == old(bv)@ + zero_bits(n as nat),
{
    let ghost start: Seq<bool> = bv@;
    let mut i: u32 = 0;
    while i < n
        invariant
            i <= n,
            start.len() + n <= max_bits(),
            bv@ == start + zero_bits(i as nat),
        decreases n - i,
    {
        put_bit(bv, false);
        i += 1;
    }
}

impl SliceHeader {
    /// A slice header.
    pub fn new() -> Self {
        Self {  }
    }

    /// Appends the part up to the picture order count.
    fn append_head(bv: &mut BitBuf, sps: &Sps, pps: &Pps)
        requires
            old(bv)@.len() + 300 <= max_bits(),
        ensures
            final(bv)@ == old(bv)@ + ue_bits(0) + ue_bits(7) + ue_bits(pps.id() as nat) + zero_bits(
                4,
            ),
            final(bv)@.len() <= old(bv)@.len() + 300,
    {
        proof {
            lemma_ue_len_bound(0);
            lemma_ue_len_bound(7);
            lemma_ue_len_bound(pps.id());
        }
        // first_mb_in_slice = 0
        bv_exp_golomb(bv, 0);
        // slice_type = 7 (I)
        bv_exp_golomb(bv, 7);
        bv_exp_golomb(bv, pps.pic_parameter_set_id());
        // frame_num = 0
        let n_bits: u32 = sps.log2_max_frame_num();
        put_zeros(bv, n_bits);
    }

    /// Appends the part from the number of the IDR picture on.
    fn append_tail(bv: &mut BitBuf, sps: &Sps)
        requires
            old(bv)@.len() + 300 <= max_bits(),
        ensures
            final(bv)@ == old(bv)@ + ue_bits(0) + zero_bits(4) + seq![true, false] + se_bits(0)
                + ue_bits(25),
    {
        proof {
            lemma_ue_len_bound(0);
            lemma_se_len_bound(0);
            lemma_ue_len_bound(25);
        }
        // idr_pic_id = 0
        bv_exp_golomb(bv, 0);
        if sps.pic_order_cnt_type() == 0 {
            // pic_order_cnt_lsb = 0
            let n_bits: u32 = sps.log2_max_pic_order_cnt_lsb();
            put_zeros(bv, n_bits);
        }
        // no_output_of_prior_pics_flag = 1
        put_bit(bv, true);
        // long_term_reference_flag = 0
        put_bit(bv, false);
        // slice_qp_delta = 0
        bv_signed_exp_golomb(bv, 0);
        // The type of the first macroblock is read without aligning to a
        // byte boundary, so it belongs to the header.
        bv_exp_golomb(bv, MacroblockType::I_PCM.mb_type());
    }

    /// The slice header as the start of a payload: its bits, filled up with
    /// zero bits to whole bytes, after which the samples of the first
    /// macroblock follow.
    pub fn to_rbsp(&self, sps: &Sps, pps: &Pps) -> (rbsp: RbspData)
        ensures
            rbsp@ == pack_bits(slice_header_bits(pps.id())),
    {
        // 20 bytes should be enough for the slice header
        let mut bv: BitBuf = bv_with_capacity(20 * 8);
        Self::append_head(&mut bv, sps, pps);
        Self::append_tail(&mut bv, sps);
        RbspData::new(bv_into_vec(bv))
    }
}

} // verus!
