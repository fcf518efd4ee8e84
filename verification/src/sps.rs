//! The sequence parameter set and the choices it records.

use crate::bitbuf::{
    bv_extend, bv_from_slice, bv_into_vec, bv_push, bytes_to_bits, lemma_pack_bytes_first,
    lemma_pack_len, max_bits, pack_bits, put_bit, BitBuf,
};
use crate::golomb::{bv_exp_golomb, lemma_low_bits_len, lemma_ue_len_bound, low_bits, ue_bits};
use crate::rbsp::RbspData;
use vstd::prelude::*;

verus! {

/// The dynamic range of the data, stored as number of bits.
#[derive(Debug, PartialEq, Eq, Clone, Copy, Structural)]
pub enum BitDepth {
    /// 8 bit data
    Depth8,
    /// 12 bit data
    Depth12,
}

impl BitDepth {
    /// The number of bits of one sample.
    pub open spec fn bits(self) -> nat {
        match self {
            BitDepth::Depth8 => 8,
            BitDepth::Depth12 => 12,
        }
    }

    /// Return the number of bits
    pub fn num_bits(&self) -> (n: u8)
        ensures
            n == self.bits(),
    {
        match self {
            Self::Depth8 => 8,
            Self::Depth12 => 12,
        }
    }
}

/// The source format that the video usability information names.
#[derive(Debug, PartialEq, Eq, Clone, Copy, Structural)]
pub enum VideoFormat {
    Component,
    PAL,
    NTSC,
    SECAM,
    MAC,
    Unspecified,
    Reserved,
}

impl VideoFormat {
    /// The number that is written for the format, in three bits.
    pub open spec fn value(self) -> nat {
        match self {
            VideoFormat::Component => 0,
            VideoFormat::PAL => 1,
            VideoFormat::NTSC => 2,
            VideoFormat::SECAM => 3,
            VideoFormat::MAC => 4,
            VideoFormat::Unspecified => 5,
            VideoFormat::Reserved => 7,
        }
    }
}

/// Video usability information.
#[derive(Debug, PartialEq, Eq, Clone, Copy, Structural)]
pub struct Vui {
    /// Whether the samples use the full range of values. If false, the
    /// signal is "studio swing".
    pub full_range: bool,
    /// The source format.
    pub video_format: VideoFormat,
}

/// The bits of the video usability information: no aspect ratio, no overscan
/// information, a video signal type made of the format, the range flag and no
/// colour description, and then no chroma location, no timing, no HRD
/// parameters of either kind, no picture structure and no bitstream
/// restriction.
pub open spec fn vui_bits(vui: Vui) -> Seq<bool> {
    seq![false, false, true] + low_bits(vui.video_format.value(), 3) + seq![
        vui.full_range,
        false,
        false,
        false,
        false,
        false,
        false,
        false,
    ]
}

impl Vui {
    /// Usability information with the format left unspecified.
    pub fn new(full_range: bool) -> (vui: Self)
        ensures
            vui == (Vui { full_range, video_format: VideoFormat::Unspecified }),
    {
        Self { full_range, video_format: VideoFormat::Unspecified }
    }

    /// Appends the usability information to a parameter set under way.
    pub fn append_to_rbsp(&self, bv: &mut BitBuf)
        requires
            old(bv)@.len() + 14 <= max_bits(),
        ensures
            final(bv)@ == old(bv)@ + vui_bits(*self),
    {
        // aspect_ratio_info_present_flag 0
        bv_push(bv, false);
        // overscan_info_present_flag 0
        bv_push(bv, false);
        // video_signal_type_present_flag 1
        bv_push(bv, true);
        // video_format
        let video_format_arr: [bool; 3] = match &self.video_format {
            VideoFormat::Component => [false, false, false],
            VideoFormat::PAL => [false, false, true],
            VideoFormat::NTSC => [false, true, false],
            VideoFormat::SECAM => [false, true, true],
            VideoFormat::MAC => [true, false, false],
            VideoFormat::Unspecified => [true, false, true],
            VideoFormat::Reserved => [true, true, true],
        };
        proof {
            reveal_with_fuel(low_bits, 4);
        }
        bv_extend(bv, video_format_arr.as_slice());
        // video_full_range_flag
        bv_push(bv, self.full_range);
        // colour_description_present_flag 0
        bv_push(bv, false);
        // chroma_loc_info_present_flag 0
        bv_push(bv, false);
        // timing_info_present_flag 0
        bv_push(bv, false);
        // nal_hrd_parameters_present_flag 0
        bv_push(bv, false);
        // vcl_hrd_parameters_present_flag 0
        bv_push(bv, false);
        // pic_struct_present_flag 0
        bv_push(bv, false);
        // bitstream_restriction_flag 0
        bv_push(bv, false);
    }
}

/// The chroma layout of the pictures, with the bit depth of their samples.
/// Luma and chroma have one depth.
#[derive(Debug, PartialEq, Eq, Clone, Copy, Structural)]
pub enum ChromaFormatIdc {
    /// Luma only.
    Monochrome(BitDepth),
    /// One chroma sample of each kind for two by two luma samples.
    Chroma420(BitDepth),
}

impl ChromaFormatIdc {
    /// The number that is written as `chroma_format_idc`.
    pub open spec fn idc(self) -> nat {
        match self {
            ChromaFormatIdc::Monochrome(_) => 0,
            ChromaFormatIdc::Chroma420(_) => 1,
        }
    }

    /// The bit depth of the samples.
    pub open spec fn depth(self) -> BitDepth {
        match self {
            ChromaFormatIdc::Monochrome(depth) => depth,
            ChromaFormatIdc::Chroma420(depth) => depth,
        }
    }

    /// The number that is written as `chroma_format_idc`.
    pub fn value(&self) -> (v: u32)
        ensures
            v == self.idc(),
    {
        match self {
            Self::Monochrome(_) => 0,
            Self::Chroma420(_) => 1,
        }
    }
}

/// The profile of the stream: a bare profile number, or a profile number
/// together with the chroma format that such a profile spells out.
#[derive(Debug, PartialEq, Eq, Clone, Copy)]
pub enum ProfileIdc {
    Bare(u8),
    Extra((u8, ChromaFormatIdc)),
}

/// What a profile adds to the parameter set: nothing for a bare profile;
/// else the chroma format, the luma and the chroma bit depth less eight, no
/// transform bypass and no scaling matrix.
pub open spec fn profile_bits(profile: ProfileIdc) -> Seq<bool> {
    match profile {
        ProfileIdc::Bare(_) => Seq::<bool>::empty(),
        ProfileIdc::Extra((_, format)) => ue_bits(format.idc()) + ue_bits(
            (format.depth().bits() - 8) as nat,
        ) + ue_bits((format.depth().bits() - 8) as nat) + seq![false, false],
    }
}

impl ProfileIdc {
    /// The number that is written as `profile_idc`.
    pub open spec fn idc(self) -> u8 {
        match self {
            ProfileIdc::Bare(value) => value,
            ProfileIdc::Extra((value, _)) => value,
        }
    }

    /// Whether the pictures have no chroma.
    pub open spec fn monochrome(self) -> bool {
        self matches ProfileIdc::Extra((_, ChromaFormatIdc::Monochrome(_)))
    }

    /// The Baseline profile: 4:2:0 chroma, 8 bits.
    pub fn baseline() -> (profile: Self)
        ensures
            profile == ProfileIdc::Bare(66),
    {
        Self::Bare(66)
    }

    /// The High profile.
    pub fn high(chroma_format: ChromaFormatIdc) -> (profile: Self)
        ensures
            profile == ProfileIdc::Extra((100u8, chroma_format)),
    {
        Self::Extra((100, chroma_format))
    }

    /// The High 4:4:4 Predictive profile.
    pub fn high444pp(chroma_format: ChromaFormatIdc) -> (profile: Self)
        ensures
            profile == ProfileIdc::Extra((244u8, chroma_format)),
    {
        Self::Extra((244, chroma_format))
    }

    /// The number that is written as `profile_idc`.
    pub fn profile_idc_byte(&self) -> (byte: u8)
        ensures
            byte == self.idc(),
    {
        match self {
            Self::Bare(value) => *value,
            Self::Extra((value, _)) => *value,
        }
    }

    /// Whether the pictures have no chroma.
    pub fn is_monochrome(&self) -> (mono: bool)
        ensures
            mono == self.monochrome(),
    {
        match self {
            Self::Bare(_) | Self::Extra((_, ChromaFormatIdc::Chroma420(_))) => false,
            Self::Extra((_, ChromaFormatIdc::Monochrome(_))) => true,
        }
    }

    /// Appends what the profile adds to a parameter set under way.
    pub fn append_to_rbsp(&self, bv: &mut BitBuf)
        requires
            old(bv)@.len() + profile_bits(*self).len() <= max_bits(),
        ensures
            final(bv)@ == old(bv)@ + profile_bits(*self),
    {
        match self {
            Self::Bare(_) => {},
            Self::Extra((_, chroma_format_idc)) => {
                let chroma_format_idc_value: u32 = chroma_format_idc.value();
                let bit_depth: BitDepth = match chroma_format_idc {
                    ChromaFormatIdc::Monochrome(bit_depth)
                    | ChromaFormatIdc::Chroma420(bit_depth) => *bit_depth,
                };
                let bit_depth_luma_minus8: u8 = bit_depth.num_bits() - 8;
                let bit_depth_chroma_minus8: u8 = bit_depth.num_bits() - 8;
                bv_exp_golomb(bv, chroma_format_idc_value);
                bv_exp_golomb(bv, bit_depth_luma_minus8 as u32);
                bv_exp_golomb(bv, bit_depth_chroma_minus8 as u32);
                // qpprime_y_zero_transform_bypass_flag 0
                bv_push(bv, false);
                // seq_scaling_matrix_present_flag 0
                bv_push(bv, false);
            },
        }
    }
}

/// The cropping part of the parameter set: the flag, and where it is set the
/// left, right, top and bottom offsets.
pub open spec fn cropping_bits(cropping: Option<[u32; 4]>) -> Seq<bool> {
    match cropping {
        None => seq![false],
        Some(lrtb) => seq![true] + ue_bits(lrtb[0] as nat) + ue_bits(lrtb[1] as nat) + ue_bits(
            lrtb[2] as nat,
        ) + ue_bits(lrtb[3] as nat),
    }
}

/// The usability part of the parameter set: the flag, and where it is set
/// the usability information.
pub open spec fn usability_bits(vui: Option<Vui>) -> Seq<bool> {
    match vui {
        None => seq![false],
        Some(vui) => seq![true] + vui_bits(vui),
    }
}

/// The bits of a sequence parameter set, the stop bit included: the profile
/// byte, a byte of constraint flags that are all clear, level 1.0, parameter
/// set 0, what the profile adds, 4 bits of frame number, picture order count
/// of type 0 in 4 bits, no reference frames, no gaps in the frame numbers,
/// the size in macroblocks less one each way, frames only, no 8x8
/// inference, the cropping and the usability information.
pub open spec fn sps_bits(
    profile: ProfileIdc,
    pic_width_in_mbs_minus1: u32,
    pic_height_in_map_units_minus1: u32,
    cropping: Option<[u32; 4]>,
    vui: Option<Vui>,
) -> Seq<bool> {
    bytes_to_bits(seq![profile.idc(), 0u8, 10u8]) + ue_bits(0) + profile_bits(profile) + ue_bits(0)
        + ue_bits(0) + ue_bits(0) + ue_bits(0) + seq![false] + ue_bits(
        pic_width_in_mbs_minus1 as nat,
    ) + ue_bits(pic_height_in_map_units_minus1 as nat) + seq![true] + seq![false] + cropping_bits(
        cropping,
    ) + usability_bits(vui) + seq![true]
}

/// A sequence parameter set begins with three whole bytes: the profile, the
/// constraint flags, which are all clear, and level 1.0.
pub proof fn lemma_sps_leading_bytes(
    profile: ProfileIdc,
    pic_width_in_mbs_minus1: u32,
    pic_height_in_map_units_minus1: u32,
    cropping: Option<[u32; 4]>,
    vui: Option<Vui>,
)
    ensures
        ({
            let rbsp = pack_bits(
                sps_bits(
                    profile,
                    pic_width_in_mbs_minus1,
                    pic_height_in_map_units_minus1,
                    cropping,
                    vui,
                ),
            );
            &&& rbsp.len() >= 4
            &&& rbsp[0] == profile.idc()
            &&& rbsp[1] == 0
            &&& rbsp[2] == 10
        }),
{
    let head = seq![profile.idc(), 0u8, 10u8];
    let all = sps_bits(
        profile,
        pic_width_in_mbs_minus1,
        pic_height_in_map_units_minus1,
        cropping,
        vui,
    );
    let tail = all.subrange(24, all.len() as int);
    assert(all =~= bytes_to_bits(head) + tail);
    lemma_pack_bytes_first(head, tail);
    lemma_pack_len(tail);
}

/// Sequence parameter set
#[derive(Debug, PartialEq, Eq)]
pub struct Sps {
    profile_idc: ProfileIdc,
    pic_width_in_mbs_minus1: u32,
    pic_height_in_map_units_minus1: u32,
    frame_cropping: Option<[u32; 4]>,
    log2_max_frame_num_minus4: u32,
    pic_order_cnt_type: u32,
    log2_max_pic_order_cnt_lsb_minus4: u32,
    vui: Option<Vui>,
}

impl Sps {
    /// The frame number and the picture order count take four bits each, and
    /// the picture order count is of type 0.
    #[verifier::type_invariant]
    spec fn fixed_defaults(self) -> bool {
        &&& self.log2_max_frame_num_minus4 == 0
        &&& self.pic_order_cnt_type == 0
        &&& self.log2_max_pic_order_cnt_lsb_minus4 == 0
    }

    /// The profile.
    pub closed spec fn profile(self) -> ProfileIdc {
        self.profile_idc
    }

    /// The width in macroblocks, less one.
    pub closed spec fn width_in_mbs_minus1(self) -> u32 {
        self.pic_width_in_mbs_minus1
    }

    /// The height in macroblocks, less one.
    pub closed spec fn height_in_map_units_minus1(self) -> u32 {
        self.pic_height_in_map_units_minus1
    }

    /// The cropping offsets left, right, top and bottom, where a part of the
    /// coded picture is not shown.
    pub closed spec fn cropping(self) -> Option<[u32; 4]> {
        self.frame_cropping
    }

    /// The usability information, where there is any.
    pub closed spec fn usability(self) -> Option<Vui> {
        self.vui
    }

    /// The bits of the parameter set, the stop bit included.
    pub open spec fn rbsp_bits(self) -> Seq<bool> {
        sps_bits(
            self.profile(),
            self.width_in_mbs_minus1(),
            self.height_in_map_units_minus1(),
            self.cropping(),
            self.usability(),
        )
    }

    /// A parameter set for pictures of the size given in macroblocks.
    pub fn new(
        profile_idc: ProfileIdc,
        pic_width_in_mbs_minus1: u32,
        pic_height_in_map_units_minus1: u32,
        frame_cropping: Option<[u32; 4]>,
        vui: Option<Vui>,
    ) -> (sps: Self)
        ensures
            sps.profile() == profile_idc,
            sps.width_in_mbs_minus1() == pic_width_in_mbs_minus1,
            sps.height_in_map_units_minus1() == pic_height_in_map_units_minus1,
            sps.cropping() == frame_cropping,
            sps.usability() == vui,
    {
        Self {
            profile_idc,
            pic_width_in_mbs_minus1,
            pic_height_in_map_units_minus1,
            frame_cropping,
            log2_max_frame_num_minus4: 0,
            pic_order_cnt_type: 0,
            log2_max_pic_order_cnt_lsb_minus4: 0,
            vui,
        }
    }

    /// The number of bits of a frame number.
    pub fn log2_max_frame_num(&self) -> (n: u32)
        ensures
            n == 4,
    {
        proof {
            use_type_invariant(self);
        }
        self.log2_max_frame_num_minus4 + 4
    }

    /// The number of bits of a picture order count.
    pub fn log2_max_pic_order_cnt_lsb(&self) -> (n: u32)
        ensures
            n == 4,
    {
        proof {
            use_type_invariant(self);
        }
        self.log2_max_pic_order_cnt_lsb_minus4 + 4
    }

    /// The number that is written as `profile_idc`.
    pub fn profile_idc_byte(&self) -> (byte: u8)
        ensures
            byte == self.profile().idc(),
    {
        self.profile_idc.profile_idc_byte()
    }

    /// The type of the picture order count.
    pub fn pic_order_cnt_type(&self) -> (n: u32)
        ensures
            n == 0,
    {
        proof {
            use_type_invariant(self);
        }
        self.pic_order_cnt_type
    }

    /// Whether the pictures have no chroma.
    pub fn is_monochrome(&self) -> (mono: bool)
        ensures
            mono == self.profile().monochrome(),
    {
        self.profile_idc.is_monochrome()
    }

    /// Appends the cropping part.
    fn append_cropping(&self, bv: &mut BitBuf)
        requires
            old(bv)@.len() + 261 <= max_bits(),
        ensures
            final(bv)@ == old(bv)@ + cropping_bits(self.cropping()),
            final(bv)@.len() <= old(bv)@.len() + 261,
    {
        match &self.frame_cropping {
            Some(lrtb) => {
                proof {
                    lemma_ue_len_bound(lrtb[0]);
                    lemma_ue_len_bound(lrtb[1]);
                    lemma_ue_len_bound(lrtb[2]);
                    lemma_ue_len_bound(lrtb[3]);
                }
                // frame_cropping_flag = 1
                put_bit(bv, true);
                bv_exp_golomb(bv, lrtb[0]);
                bv_exp_golomb(bv, lrtb[1]);
                bv_exp_golomb(bv, lrtb[2]);
                bv_exp_golomb(bv, lrtb[3]);
            },
            None => {
                // frame_cropping_flag = 0
                put_bit(bv, false);
            },
        }
    }

    /// Appends the usability part.
    fn append_usability(&self, bv: &mut BitBuf)
        requires
            old(bv)@.len() + 15 <= max_bits(),
        ensures
            final(bv)@ == old(bv)@ + usability_bits(self.usability()),
            final(bv)@.len() <= old(bv)@.len() + 15,
    {
        match &self.vui {
            None => {
                // vui_parameters_present_flag = 0
                put_bit(bv, false);
            },
            Some(vui) => {
                put_bit(bv, true);
                vui.append_to_rbsp(bv);
                proof {
                    lemma_low_bits_len(vui.video_format.value(), 3);
                }
            },
        }
    }

    /// Appends what stands between the three leading bytes and the cropping.
    fn append_fixed(&self, bv: &mut BitBuf)
        requires
            old(bv)@.len() + 720 <= max_bits(),
        ensures
            final(bv)@ == old(bv)@ + ue_bits(0) + profile_bits(self.profile()) + ue_bits(0)
                + ue_bits(0) + ue_bits(0) + ue_bits(0) + seq![false] + ue_bits(
                self.width_in_mbs_minus1() as nat,
            ) + ue_bits(self.height_in_map_units_minus1() as nat) + seq![true] + seq![false],
            final(bv)@.len() <= old(bv)@.len() + 720,
    {
        proof {
            use_type_invariant(self);
            lemma_ue_len_bound(0);
            lemma_ue_len_bound(1);
            lemma_ue_len_bound(4);
            lemma_ue_len_bound(self.pic_width_in_mbs_minus1);
            lemma_ue_len_bound(self.pic_height_in_map_units_minus1);
        }
        // seq_parameter_set_id = 0
        bv_exp_golomb(bv, 0);
        // chroma_format_idc and what follows it, where the profile has them
        self.profile_idc.append_to_rbsp(bv);
        bv_exp_golomb(bv, self.log2_max_frame_num_minus4);
        bv_exp_golomb(bv, self.pic_order_cnt_type);
        bv_exp_golomb(bv, self.log2_max_pic_order_cnt_lsb_minus4);
        // max_num_ref_frames
        bv_exp_golomb(bv, 0);
        // gaps_in_frame_num_value_allowed_flag = 0
        put_bit(bv, false);
        bv_exp_golomb(bv, self.pic_width_in_mbs_minus1);
        bv_exp_golomb(bv, self.pic_height_in_map_units_minus1);
        // frame_mbs_only_flag = 1
        put_bit(bv, true);
        // direct_8x8_inference_flag = 0
        put_bit(bv, false);
    }

    /// The parameter set as a payload: its bits, filled up with zero bits to
    /// whole bytes.
    pub fn to_rbsp(&self) -> (rbsp: RbspData)
        ensures
            rbsp@ == pack_bits(self.rbsp_bits()),
            4 <= rbsp@.len() <= 128,
            rbsp@[0] == self.profile().idc(),
            rbsp@[1] == 0,
            rbsp@[2] == 10,
    {
        proof {
            lemma_sps_leading_bytes(
                self.profile(),
                self.width_in_mbs_minus1(),
                self.height_in_map_units_minus1(),
                self.cropping(),
                self.usability(),
            );
        }
        let profile_idc: u8 = self.profile_idc.profile_idc_byte();
        // constraint_set0_flag to constraint_set5_flag and reserved_zero_2bits
        let reserved: u8 = 0x00;
        let level_idc: u8 = 10;

        let start: Vec<u8> = vec![profile_idc, reserved, level_idc];
        let mut bv: BitBuf = bv_from_slice(start.as_slice());
        self.append_fixed(&mut bv);
        self.append_cropping(&mut bv);
        self.append_usability(&mut bv);
        // rbsp_stop_one_bit = 1
        put_bit(&mut bv, true);
        proof {
            lemma_pack_len(bv@);
        }
        RbspData::new(bv_into_vec(bv))
    }
}

} // verus!
