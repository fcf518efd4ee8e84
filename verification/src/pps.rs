//! The picture parameter set.

use crate::bitbuf::{
    bv_into_vec, bv_with_capacity, lemma_pack_len, max_bits, pack_bits, put_bit, BitBuf,
};
use crate::golomb::{
    bv_exp_golomb, bv_signed_exp_golomb, lemma_se_len_bound, lemma_ue_len_bound, se_bits, ue_bits,
};
use crate::rbsp::RbspData;
use vstd::prelude::*;

verus! {

/// The bits of a picture parameter set, the stop bit included: its number,
/// sequence parameter set 0, no entropy coding mode, no bottom field order,
/// one slice group, one reference picture in each list, no weighted
/// prediction of either kind, the quantiser offsets all zero, no deblocking
/// control, no constrained intra prediction and no redundant picture count.
pub open spec fn pps_bits(pic_parameter_set_id: u32) -> Seq<bool> {
    ue_bits(pic_parameter_set_id as nat) + ue_bits(0) + seq![false, false] + ue_bits(0) + ue_bits(
        0,
    ) + ue_bits(0) + seq![false, false, false] + se_bits(0) + se_bits(0) + se_bits(0) + seq![
        false,
        false,
        false,
        true,
    ]
}

/// Picture parameter set
#[derive(Debug, PartialEq, Eq)]
pub struct Pps {
    pic_parameter_set_id: u32,
}

impl Pps {
    /// The number of the parameter set.
    pub closed spec fn id(self) -> u32 {
        self.pic_parameter_set_id
    }

    /// The parameter set of the number given.
    pub fn new(pic_parameter_set_id: u32) -> (pps: Self)
        ensures
            pps.id() == pic_parameter_set_id,
    {
        Self { pic_parameter_set_id }
    }

    /// The number of the parameter set.
    pub fn pic_parameter_set_id(&self) -> (id: u32)
        ensures
            id == self.id(),
    {
        self.pic_parameter_set_id
    }

    /// Appends the part up to the weighted prediction.
    fn append_head(&self, bv: &mut BitBuf)
        requires
            old(bv)@.len() + 330 <= max_bits(),
        ensures
            final(bv)@ == old(bv)@ + ue_bits(self.id() as nat) + ue_bits(0) + seq![false, false]
                + ue_bits(0) + ue_bits(0) + ue_bits(0),
            final(bv)@.len() <= old(bv)@.len() + 330,
    {
        proof {
            lemma_ue_len_bound(self.pic_parameter_set_id);
            lemma_ue_len_bound(0);
        }
        bv_exp_golomb(bv, self.pic_parameter_set_id);
        // seq_parameter_set_id = 0
        bv_exp_golomb(bv, 0);
        // entropy_coding_mode_flag = 0
        put_bit(bv, false);
        // bottom_field_pic_order_in_frame_present_flag = 0
        put_bit(bv, false);
        // num_slice_groups_minus1 = 0
        bv_exp_golomb(bv, 0);
        // num_ref_idx_l0_default_active_minus1 = 0
        bv_exp_golomb(bv, 0);
        // num_ref_idx_l1_default_active_minus1 = 0
        bv_exp_golomb(bv, 0);
    }

    /// Appends the part from the weighted prediction on.
    fn append_tail(bv: &mut BitBuf)
        requires
            old(bv)@.len() + 202 <= max_bits(),
        ensures
            final(bv)@ == old(bv)@ + seq![false, false, false] + se_bits(0) + se_bits(0) + se_bits(
                0,
            ) + seq![false, false, false, true],
            final(bv)@.len() <= old(bv)@.len() + 202,
    {
        proof {
            lemma_se_len_bound(0);
        }
        // weighted_pred_flag = 0
        put_bit(bv, false);
        // weighted_bipred_idc = 0
        put_bit(bv, false);
        put_bit(bv, false);
        // pic_init_qp_minus26 = 0
        bv_signed_exp_golomb(bv, 0);
        // pic_init_qs_minus26 = 0
        bv_signed_exp_golomb(bv, 0);
        // chroma_qp_index_offset = 0
        bv_signed_exp_golomb(bv, 0);
        // deblocking_filter_control_present_flag = 0
        put_bit(bv, false);
        // constrained_intra_pred_flag = 0
        put_bit(bv, false);
        // redundant_pic_cnt_present_flag = 0
        put_bit(bv, false);
        // rbsp_stop_one_bit = 1
        put_bit(bv, true);
    }

    /// The parameter set as a payload: its bits, filled up with zero bits to
    /// whole bytes.
    pub fn to_rbsp(&self) -> (rbsp: RbspData)
        ensures
            rbsp@ == pack_bits(pps_bits(self.id())),
            rbsp@.len() <= 67,
    {
        // 20 bytes should be enough
        let mut bv: BitBuf = bv_with_capacity(20 * 8);
        self.append_head(&mut bv);
        Self::append_tail(&mut bv);
        proof {
            lemma_pack_len(bv@);
        }
        RbspData::new(bv_into_vec(bv))
    }
}

} // verus!
