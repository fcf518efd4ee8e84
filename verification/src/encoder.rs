//! High-level encoder to take frames into and emit NAL units.

use crate::bitbuf::pack_bits;
use crate::error::Error;
use crate::golomb::{bit_len, low_bits, se_bits, ue_bits};
use crate::macroblock::{
    block_in_bounds, lemma_block_bytes_len, macroblock, macroblock_bytes, macroblock_in_bounds,
};
use crate::nal_unit::{InitialNalUnits, NalRefIdc, NalUnit, NalUnitType};
use crate::pps::{pps_bits, Pps};
use crate::rbsp::RbspData;
use crate::slice::{slice_header_bits, MacroblockType, SliceHeader};
use crate::sps::{sps_bits, BitDepth, ChromaFormatIdc, ProfileIdc, Sps, VideoFormat, Vui};
use crate::util::{ceil_div, lemma_round_up, round_up};
use crate::ycbcr_image::{row_bytes, DataPlane, Planes, YCbCrImage};
use vstd::prelude::*;

verus! {

/// Whether the image has chroma planes.
pub open spec fn is_color(frame: YCbCrImage) -> bool {
    frame.planes is YCbCr
}

/// Whether all planes of the image have the bit depth of its luma plane.
pub open spec fn uniform_depth(frame: YCbCrImage) -> bool {
    match frame.planes {
        Planes::Mono(_) => true,
        Planes::YCbCr((y, cb, cr)) => y.bit_depth == cb.bit_depth && y.bit_depth == cr.bit_depth,
    }
}

/// The profile in which images of a kind are encoded: Baseline for 8-bit
/// colour, High for 8-bit monochrome, High 4:4:4 Predictive for 12 bits.
pub open spec fn profile_for(color: bool, depth: BitDepth) -> ProfileIdc {
    match (color, depth) {
        (true, BitDepth::Depth8) => ProfileIdc::Bare(66),
        (false, BitDepth::Depth8) => ProfileIdc::Extra(
            (100u8, ChromaFormatIdc::Monochrome(BitDepth::Depth8)),
        ),
        (false, BitDepth::Depth12) => ProfileIdc::Extra(
            (244u8, ChromaFormatIdc::Monochrome(BitDepth::Depth12)),
        ),
        (true, BitDepth::Depth12) => ProfileIdc::Extra(
            (244u8, ChromaFormatIdc::Chroma420(BitDepth::Depth12)),
        ),
    }
}

/// The luma samples for which there is one chroma sample, each way: 2 with
/// chroma, and 1 without.
pub open spec fn chroma_step(color: bool) -> nat {
    if color {
        2
    } else {
        1
    }
}

/// The columns that are added on the right to fill the last macroblocks.
pub open spec fn right_pad(width: u32) -> nat {
    (round_up(width as nat, 16) - width) as nat
}

/// The rows that are added at the bottom to fill the last macroblocks.
pub open spec fn bottom_pad(height: u32) -> nat {
    (round_up(height as nat, 16) - height) as nat
}

/// The cropping that takes the padding away again, in chroma steps: left,
/// right, top, bottom; none where nothing was added.
pub open spec fn cropping_for(width: u32, height: u32, color: bool) -> Option<[u32; 4]> {
    if right_pad(width) == 0 && bottom_pad(height) == 0 {
        None
    } else {
        Some(
            [
                0u32,
                (right_pad(width) / chroma_step(color)) as u32,
                0u32,
                (bottom_pad(height) / chroma_step(color)) as u32,
            ],
        )
    }
}

/// The bytes of one macroblock without its header: the luma block, and with
/// chroma half as much again.
pub open spec fn macroblock_len(depth: BitDepth, luma_only: bool) -> nat {
    if luma_only {
        row_bytes(depth, 16) * 16
    } else {
        row_bytes(depth, 16) * 16 * 3 / 2
    }
}

/// The bytes that the macroblocks of a slice add to its header: the
/// samples, a macroblock header for each macroblock but the first, and the
/// stop byte.
pub open spec fn slice_data_len(num_macroblocks: nat, depth: BitDepth, luma_only: bool) -> nat {
    (num_macroblocks * macroblock_len(depth, luma_only) + (num_macroblocks - 1) * 2 + 1) as nat
}

/// The first `n` macroblocks of an image, row by row.
pub open spec fn macroblocks_bytes(
    frame: YCbCrImage,
    mbs_width: nat,
    luma_only: bool,
    n: nat,
) -> Seq<u8>
    decreases n,
{
    if n == 0 {
        Seq::<u8>::empty()
    } else {
        macroblocks_bytes(frame, mbs_width, luma_only, (n - 1) as nat) + macroblock_bytes(
            frame,
            ((n - 1) / mbs_width as int) as nat,
            ((n - 1) % mbs_width as int) as nat,
            luma_only,
        )
    }
}

/// The payload of the slice that holds an image: the slice header of
/// picture parameter set 0, filled up to whole bytes; the macroblocks of the
/// image, row by row; and a stop bit in a byte of its own.
pub open spec fn slice_rbsp(frame: YCbCrImage) -> Seq<u8> {
    let mbs_width = ceil_div(frame.width as nat, 16);
    let mbs_height = ceil_div(frame.height as nat, 16);
    pack_bits(slice_header_bits(0)) + macroblocks_bytes(
        frame,
        mbs_width,
        !is_color(frame),
        mbs_width * mbs_height,
    ) + seq![0x80u8]
}

/// The slice header of picture parameter set 0 has 30 bits, and so takes
/// four bytes.
pub proof fn lemma_slice_header_len()
    ensures
        slice_header_bits(0).len() == 30,
        pack_bits(slice_header_bits(0)).len() == 4,
{
    reveal_with_fuel(bit_len, 6);
    reveal_with_fuel(low_bits, 6);
    crate::bitbuf::lemma_pack_len(slice_header_bits(0));
    crate::golomb::lemma_code_word_len(1);
    crate::golomb::lemma_code_word_len(8);
    crate::golomb::lemma_code_word_len(26);
}

/// Where a plane holds `width` by `height` samples in whole blocks of `mb`
/// samples each way, every one of these blocks lies within the plane.
pub proof fn lemma_block_in_bounds(
    plane: DataPlane,
    width: u32,
    height: u32,
    mb: u32,
    mbs_row: nat,
    mbs_col: nat,
)
    requires
        mb == 8 || mb == 16,
        plane.size_problem(width, height, mb) is None,
        mbs_row < ceil_div(height as nat, mb as nat),
        mbs_col < ceil_div(width as nat, mb as nat),
    ensures
        block_in_bounds(plane, mbs_row, mbs_col, mb as nat, row_bytes(plane.bit_depth, mb as nat)),
{
    let across: nat = ceil_div(width as nat, mb as nat);
    let down: nat = ceil_div(height as nat, mb as nat);
    let stride: nat = plane.stride as nat;
    let len: nat = row_bytes(plane.bit_depth, mb as nat);
    assert(row_bytes(plane.bit_depth, across * (mb as nat)) == across * len) by {
        if mb == 8 {
            assert(across * 8 * 3 / 2 == across * 12);
        } else {
            assert(across * 16 * 3 / 2 == across * 24);
        }
    }
    assert((mbs_row + 1) * mb * stride <= down * mb * stride) by (nonlinear_arith)
        requires
            mbs_row + 1 <= down,
    ;
    assert(stride * (down * mb) == down * mb * stride) by (nonlinear_arith);
}

/// Halving an even size leaves the number of macroblocks as it is: as many
/// chroma blocks of 8 as luma blocks of 16.
proof fn lemma_half_blocks(size: u32)
    requires
        size % 2 == 0,
    ensures
        ceil_div((size / 2) as nat, 8) == ceil_div(size as nat, 16),
{
}

/// Where the planes of an image are large enough, every macroblock of the
/// image lies within them.
pub proof fn lemma_macroblock_in_bounds(frame: YCbCrImage, mbs_row: nat, mbs_col: nat)
    requires
        frame.size_problem() is None,
        uniform_depth(frame),
        is_color(frame) ==> frame.width % 2 == 0 && frame.height % 2 == 0,
        mbs_row < ceil_div(frame.height as nat, 16),
        mbs_col < ceil_div(frame.width as nat, 16),
    ensures
        macroblock_in_bounds(frame, mbs_row, mbs_col, !is_color(frame)),
{
    lemma_block_in_bounds(frame.planes.luma(), frame.width, frame.height, 16, mbs_row, mbs_col);
    match frame.planes {
        Planes::Mono(_) => {},
        Planes::YCbCr((_, cb, cr)) => {
            lemma_half_blocks(frame.width);
            lemma_half_blocks(frame.height);
            lemma_block_in_bounds(cb, frame.width / 2, frame.height / 2, 8, mbs_row, mbs_col);
            lemma_block_in_bounds(cr, frame.width / 2, frame.height / 2, 8, mbs_row, mbs_col);
        },
    }
}

/// Macroblock `n` of a picture that is `mbs_width` macroblocks wide stands in
/// row `n / mbs_width` and column `n % mbs_width`.
proof fn lemma_macroblock_index(mbs_row: nat, mbs_col: nat, mbs_width: nat)
    requires
        mbs_col < mbs_width,
    ensures
        (mbs_row * mbs_width + mbs_col) / mbs_width == mbs_row,
        (mbs_row * mbs_width + mbs_col) % mbs_width == mbs_col,
{
    vstd::arithmetic::div_mod::lemma_fundamental_div_mod_converse(
        (mbs_row * mbs_width + mbs_col) as int,
        mbs_width as int,
        mbs_row as int,
        mbs_col as int,
    );
}

/// The bytes of a macroblock that lies within the planes: two of the header
/// for every macroblock but the first, and the samples.
pub proof fn lemma_macroblock_len(frame: YCbCrImage, mbs_row: nat, mbs_col: nat)
    requires
        uniform_depth(frame),
        macroblock_in_bounds(frame, mbs_row, mbs_col, !is_color(frame)),
    ensures
        macroblock_bytes(frame, mbs_row, mbs_col, !is_color(frame)).len() == (if mbs_row == 0
            && mbs_col == 0 {
            0nat
        } else {
            2nat
        }) + macroblock_len(frame.planes.luma().bit_depth, !is_color(frame)),
{
    let y = frame.planes.luma();
    lemma_block_bytes_len(y, mbs_row, mbs_col, 16, row_bytes(y.bit_depth, 16));
    match frame.planes {
        Planes::Mono(_) => {},
        Planes::YCbCr((_, cb, cr)) => {
            lemma_block_bytes_len(cb, mbs_row, mbs_col, 8, row_bytes(cb.bit_depth, 8));
            lemma_block_bytes_len(cr, mbs_row, mbs_col, 8, row_bytes(cb.bit_depth, 8));
        },
    }
}

/// The first `n` macroblocks of an image whose planes are large enough take
/// `n` times the bytes of one, and two more for each but the first.
pub proof fn lemma_macroblocks_len(frame: YCbCrImage, n: nat)
    requires
        frame.size_problem() is None,
        uniform_depth(frame),
        is_color(frame) ==> frame.width % 2 == 0 && frame.height % 2 == 0,
        n <= ceil_div(frame.width as nat, 16) * ceil_div(frame.height as nat, 16),
    ensures
        macroblocks_bytes(frame, ceil_div(frame.width as nat, 16), !is_color(frame), n).len() == n
            * macroblock_len(frame.planes.luma().bit_depth, !is_color(frame)) + (if n == 0 {
            0
        } else {
            (n - 1) * 2
        }),
    decreases n,
{
    let across: nat = ceil_div(frame.width as nat, 16);
    let down: nat = ceil_div(frame.height as nat, 16);
    let each: nat = macroblock_len(frame.planes.luma().bit_depth, !is_color(frame));
    if n > 0 {
        let m: nat = (n - 1) as nat;
        lemma_macroblocks_len(frame, m);
        let row: nat = (m / across) as nat;
        let col: nat = (m % across) as nat;
        vstd::arithmetic::div_mod::lemma_fundamental_div_mod(m as int, across as int);
        vstd::arithmetic::div_mod::lemma_mod_pos_bound(m as int, across as int);
        assert(row < down) by (nonlinear_arith)
            requires
                m == across * row + col,
                m < across * down,
                col >= 0,
                across > 0,
        ;
        lemma_macroblock_in_bounds(frame, row, col);
        lemma_macroblock_len(frame, row, col);
        assert(m * each + each == n * each) by (nonlinear_arith)
            requires
                m + 1 == n,
        ;
    }
}

/// The bit depth that a profile of this encoder stands for.
pub open spec fn profile_depth(profile: ProfileIdc) -> BitDepth {
    match profile {
        ProfileIdc::Bare(_) => BitDepth::Depth8,
        ProfileIdc::Extra((_, format)) => format.depth(),
    }
}

/// Whether the largest buffer that is needed for a picture can be addressed
/// on this machine: the one in which its slice is made into a NAL unit.
pub open spec fn picture_fits(width: u32, height: u32, color: bool, depth: BitDepth) -> bool {
    3 * (4 + slice_data_len(
        ceil_div(width as nat, 16) * ceil_div(height as nat, 16),
        depth,
        !color,
    )) + 6 <= usize::MAX
}

/// Whether a NAL unit is the IDR slice that holds the image.
pub open spec fn is_slice_of(unit: NalUnit, frame: YCbCrImage) -> bool {
    &&& unit.ref_idc() == NalRefIdc::One
    &&& unit.unit_type() == NalUnitType::CodedSliceOfAnIDRPicture
    &&& unit.rbsp() == slice_rbsp(frame)
    &&& unit.rbsp().len() == 4 + slice_data_len(
        ceil_div(frame.width as nat, 16) * ceil_div(frame.height as nat, 16),
        frame.planes.luma().bit_depth,
        !is_color(frame),
    )
    &&& unit.fits()
}

/// Why an encoder is not made for an image.
pub enum Rejection {
    /// The shape of the image data is not one that can be encoded.
    Shape(&'static str),
    /// The padding cannot be written as cropping.
    ImageSize,
}

/// Whether an error tells of the rejection.
pub open spec fn rejected_as(e: Error, why: Rejection) -> bool {
    match why {
        Rejection::Shape(problem) => e matches Error::DataShapeProblem { msg } && msg@
            == problem@,
        Rejection::ImageSize => e is UnsupportedImageSize,
    }
}

/// Whether an image is one for which an encoder can be asked: it has a
/// width and a height, one bit depth in all its planes, and its pictures fit
/// the machine.
pub open spec fn encodable(frame: YCbCrImage) -> bool {
    &&& frame.width >= 1
    &&& frame.height >= 1
    &&& uniform_depth(frame)
    &&& picture_fits(frame.width, frame.height, is_color(frame), frame.planes.luma().bit_depth)
}

/// Tells whether an image is one for which an encoder can be asked.
pub fn is_encodable(frame: &YCbCrImage) -> (ok: bool)
    ensures
        ok == encodable(*frame),
{
    if frame.width < 1 || frame.height < 1 {
        return false;
    }
    let (luma_only, uniform): (bool, bool) = match &frame.planes {
        Planes::Mono(_) => (true, true),
        Planes::YCbCr((y, cb, cr)) => (
            false,
            y.bit_depth == cb.bit_depth && y.bit_depth == cr.bit_depth,
        ),
    };
    if !uniform {
        return false;
    }
    let across: u128 = ((frame.width - 1) / 16 + 1) as u128;
    let down: u128 = ((frame.height - 1) / 16 + 1) as u128;
    assert(across * down <= 0x1000_0000 * 0x1000_0000) by (nonlinear_arith)
        requires
            across <= 0x1000_0000,
            down <= 0x1000_0000,
    ;
    let num_macroblocks: u128 = across * down;
    let each: u128 = match (frame.luma_bit_depth(), luma_only) {
        (BitDepth::Depth8, true) => 256,
        (BitDepth::Depth8, false) => 384,
        (BitDepth::Depth12, true) => 384,
        (BitDepth::Depth12, false) => 576,
    };
    assert(num_macroblocks * each == num_macroblocks * macroblock_len(
        frame.planes.luma().bit_depth,
        luma_only,
    ) && num_macroblocks * each <= num_macroblocks * 576 && num_macroblocks >= 1)
        by (nonlinear_arith)
        requires
            each == macroblock_len(frame.planes.luma().bit_depth, luma_only),
            each <= 576,
            num_macroblocks == across * down,
            across >= 1,
            down >= 1,
    ;
    let slice_len: u128 = 4 + num_macroblocks * each + (num_macroblocks - 1) * 2 + 1;
    3 * slice_len + 6 <= usize::MAX as u128
}

/// Why no encoder is made for an image, if none is: the first of these. With
/// 12-bit chroma the width is no multiple of 4. The width is odd, and the
/// image is not 8-bit monochrome. The padding on the right or at the bottom
/// is no whole number of chroma steps. The planes are too small.
pub open spec fn first_frame_rejection(frame: YCbCrImage) -> Option<Rejection> {
    let color = is_color(frame);
    let depth = frame.planes.luma().bit_depth;
    if width_rejection(frame.width, color, depth) is Some {
        width_rejection(frame.width, color, depth)
    } else if right_pad(frame.width) % chroma_step(color) != 0 || bottom_pad(frame.height)
        % chroma_step(color) != 0 {
        Some(Rejection::ImageSize)
    } else {
        match frame.size_problem() {
            Some(problem) => Some(Rejection::Shape(problem)),
            None => None,
        }
    }
}

/// The sequence parameter set for the images of an encoder: the profile of
/// their kind, their size in macroblocks, the cropping that takes the
/// padding away, and usability information that tells of the full range.
pub open spec fn sps_rbsp_for(frame: YCbCrImage) -> Seq<u8> {
    pack_bits(
        sps_bits(
            profile_for(is_color(frame), frame.planes.luma().bit_depth),
            (ceil_div(frame.width as nat, 16) - 1) as u32,
            (ceil_div(frame.height as nat, 16) - 1) as u32,
            cropping_for(frame.width, frame.height, is_color(frame)),
            Some(Vui { full_range: true, video_format: VideoFormat::Unspecified }),
        ),
    )
}

/// Whether the NAL units are those that begin the stream of an image: its
/// sequence parameter set, picture parameter set 0, and its slice.
pub open spec fn begins_stream_of(units: InitialNalUnits, frame: YCbCrImage) -> bool {
    &&& units.sps.ref_idc() == NalRefIdc::Three
    &&& units.sps.unit_type() == NalUnitType::SequenceParameterSet
    &&& units.sps.rbsp() == sps_rbsp_for(frame)
    &&& units.sps.fits()
    &&& units.pps.ref_idc() == NalRefIdc::Three
    &&& units.pps.unit_type() == NalUnitType::PictureParameterSet
    &&& units.pps.rbsp() == pack_bits(pps_bits(0))
    &&& units.pps.fits()
    &&& is_slice_of(units.frame, frame)
}

/// Why the width of an image is refused, if it is.
pub open spec fn width_rejection(width: u32, color: bool, depth: BitDepth) -> Option<Rejection> {
    if color && depth == BitDepth::Depth12 && width % 4 != 0 {
        Some(Rejection::Shape("for bit depth 12 color, width must be divisible by 4"))
    } else if width % 2 != 0 && !(!color && depth == BitDepth::Depth8) {
        Some(Rejection::Shape("width must be divisible by 2 (except mono8)"))
    } else {
        None
    }
}

/// Tells whether the width of an image can be encoded.
fn check_width(width: u32, color: bool, bit_depth: BitDepth) -> (r: Result<(), Error>)
    ensures
        match width_rejection(width, color, bit_depth) {
            Some(why) => r matches Err(e) && rejected_as(e, why),
            None => r is Ok,
        },
{
    let twelve: bool = bit_depth == BitDepth::Depth12;
    if color && twelve && width % 4 != 0 {
        return Err(
            Error::DataShapeProblem { msg: "for bit depth 12 color, width must be divisible by 4" },
        );
    }
    if width % 2 != 0 && (color || twelve) {
        return Err(Error::DataShapeProblem { msg: "width must be divisible by 2 (except mono8)" });
    }
    Ok(())
}

/// The profile in which images of a kind are encoded.
fn infer_profile(color: bool, bit_depth: BitDepth) -> (profile: ProfileIdc)
    ensures
        profile == profile_for(color, bit_depth),
{
    match (color, bit_depth) {
        (true, BitDepth::Depth8) => ProfileIdc::baseline(),
        (false, BitDepth::Depth8) => ProfileIdc::high(ChromaFormatIdc::Monochrome(bit_depth)),
        (false, BitDepth::Depth12) => ProfileIdc::high444pp(
            ChromaFormatIdc::Monochrome(bit_depth),
        ),
        (true, BitDepth::Depth12) => ProfileIdc::high444pp(ChromaFormatIdc::Chroma420(bit_depth)),
    }
}

/// The cropping that takes away the padding of an image, unless the padding
/// is no whole number of chroma steps.
fn infer_cropping(width: u32, height: u32, color: bool) -> (r: Result<Option<[u32; 4]>, Error>)
    requires
        width >= 1,
        height >= 1,
    ensures
        if right_pad(width) % chroma_step(color) != 0 || bottom_pad(height) % chroma_step(color)
            != 0 {
            r matches Err(Error::UnsupportedImageSize {  })
        } else {
            r == Ok::<Option<[u32; 4]>, Error>(cropping_for(width, height, color))
        },
{
    let sub_width_c: u64 = if color {
        2
    } else {
        1
    };
    let sub_height_c: u64 = sub_width_c;
    proof {
        lemma_round_up(width as nat, 16);
        lemma_round_up(height as nat, 16);
    }
    let pic_width_in_mbs_minus1: u32 = (width - 1) / 16;
    let pic_height_in_map_units_minus1: u32 = (height - 1) / 16;
    // full size of allocated space
    let padded_width: u64 = (pic_width_in_mbs_minus1 as u64 + 1) * 16;
    let padded_height: u64 = (pic_height_in_map_units_minus1 as u64 + 1) * 16;
    if padded_width == width as u64 && padded_height == height as u64 {
        return Ok(None);
    }
    let lr_pad: u64 = padded_width - width as u64;
    let tb_pad: u64 = padded_height - height as u64;

    let lpad: u64 = 0;
    let tpad: u64 = 0;
    let rpad: u64 = lr_pad / sub_width_c;
    let bpad: u64 = tb_pad / sub_height_c;
    if (lpad * sub_width_c + width as u64 + rpad * sub_width_c != padded_width) || (tpad
        * sub_height_c + bpad * sub_height_c + height as u64 != padded_height) {
        return Err(Error::UnsupportedImageSize {  });
    }
    Ok(Some([lpad as u32, rpad as u32, tpad as u32, bpad as u32]))
}

/// The sequence parameter set for the images of an encoder, and its NAL
/// unit.
fn sequence_parameters(
    frame: &YCbCrImage,
    profile_idc: ProfileIdc,
    frame_cropping: Option<[u32; 4]>,
) -> (made: (Sps, NalUnit))
    requires
        frame.width >= 1,
        frame.height >= 1,
        profile_idc == profile_for(is_color(*frame), frame.planes.luma().bit_depth),
        frame_cropping == cropping_for(frame.width, frame.height, is_color(*frame)),
    ensures
        made.0.profile() == profile_idc,
        made.1.ref_idc() == NalRefIdc::Three,
        made.1.unit_type() == NalUnitType::SequenceParameterSet,
        made.1.rbsp() == sps_rbsp_for(*frame),
        made.1.fits(),
{
    proof {
        lemma_round_up(frame.width as nat, 16);
        lemma_round_up(frame.height as nat, 16);
    }
    let pic_width_in_mbs_minus1: u32 = (frame.width - 1) / 16;
    let pic_height_in_map_units_minus1: u32 = (frame.height - 1) / 16;
    let sps: Sps = Sps::new(
        profile_idc,
        pic_width_in_mbs_minus1,
        pic_height_in_map_units_minus1,
        frame_cropping,
        Some(Vui::new(true)),
    );
    let sps_nal_unit: NalUnit = NalUnit::new(
        NalRefIdc::Three,
        NalUnitType::SequenceParameterSet,
        sps.to_rbsp(),
    );
    (sps, sps_nal_unit)
}

/// Picture parameter set 0, and its NAL unit.
fn picture_parameters() -> (made: (Pps, NalUnit))
    ensures
        made.0.id() == 0,
        made.1.ref_idc() == NalRefIdc::Three,
        made.1.unit_type() == NalUnitType::PictureParameterSet,
        made.1.rbsp() == pack_bits(pps_bits(0)),
        made.1.fits(),
{
    let pps: Pps = Pps::new(0);
    let pps_nal_unit: NalUnit = NalUnit::new(
        NalRefIdc::Three,
        NalUnitType::PictureParameterSet,
        pps.to_rbsp(),
    );
    (pps, pps_nal_unit)
}

/// Convert input images [YCbCrImage] into H.264 NAL units [NalUnit].
///
/// This high-level type brings together the steps of initiating an h.264
/// encoding session with a sequence parameter set and a picture parameter set
/// and then repeatedly appending pictures.
pub struct LessEncoder {
    width: u32,
    height: u32,
    mbs_width: usize,
    mbs_height: usize,
    sps: Sps,
    pps: Pps,
}

impl LessEncoder {
    /// The encoder counts the macroblocks of the size it was made for, its
    /// profile is the one of its kind of image, with chroma the size is
    /// even both ways, and its pictures fit the machine.
    #[verifier::type_invariant]
    spec fn consistent(self) -> bool {
        &&& self.width >= 1
        &&& self.height >= 1
        &&& self.mbs_width == ceil_div(self.width as nat, 16)
        &&& self.mbs_height == ceil_div(self.height as nat, 16)
        &&& self.sps.profile() == profile_for(
            !self.sps.profile().monochrome(),
            profile_depth(self.sps.profile()),
        )
        &&& !self.sps.profile().monochrome() ==> self.width % 2 == 0 && self.height % 2 == 0
        &&& self.pps.id() == 0
        &&& picture_fits(
            self.width,
            self.height,
            !self.sps.profile().monochrome(),
            profile_depth(self.sps.profile()),
        )
    }

    /// The width of the images, in pixels.
    pub closed spec fn width(self) -> u32 {
        self.width
    }

    /// The height of the images, in pixels.
    pub closed spec fn height(self) -> u32 {
        self.height
    }

    /// Whether the images have chroma.
    pub closed spec fn color(self) -> bool {
        !self.sps.profile().monochrome()
    }

    /// The bit depth of the images.
    pub closed spec fn depth(self) -> BitDepth {
        profile_depth(self.sps.profile())
    }

    /// Whether an image is of the size and kind that the encoder was made
    /// for, and has one bit depth in all its planes.
    pub open spec fn accepts(self, frame: YCbCrImage) -> bool {
        &&& frame.width == self.width()
        &&& frame.height == self.height()
        &&& is_color(frame) == self.color()
        &&& frame.planes.luma().bit_depth == self.depth()
        &&& uniform_depth(frame)
    }

    /// Tells whether an image is of the size and kind that the encoder was
    /// made for, and has one bit depth in all its planes.
    pub fn can_encode(&self, frame: &YCbCrImage) -> (ok: bool)
        ensures
            ok == self.accepts(*frame),
    {
        proof {
            use_type_invariant(self);
        }
        let depth: BitDepth = frame.luma_bit_depth();
        let (luma_only, uniform): (bool, bool) = match &frame.planes {
            Planes::Mono(_) => (true, true),
            Planes::YCbCr((y, cb, cr)) => (
                false,
                y.bit_depth == cb.bit_depth && y.bit_depth == cr.bit_depth,
            ),
        };
        let twelve: bool = match self.sps.profile_idc_byte() {
            244 => true,
            _ => false,
        };
        let made_for: BitDepth = if twelve {
            BitDepth::Depth12
        } else {
            BitDepth::Depth8
        };
        frame.width == self.width && frame.height == self.height && luma_only
            == self.sps.is_monochrome() && depth == made_for && uniform
    }

    /// Initialize an encoder and encode first frame.
    ///
    /// The sequence parameter set and picture parameter set are inferred from
    /// the input [YCbCrImage].
    pub fn new(y4m_frame: &YCbCrImage) -> (r: Result<(InitialNalUnits, Self), Error>)
        requires
            encodable(*y4m_frame),
        ensures
            match first_frame_rejection(*y4m_frame) {
                Some(why) => r matches Err(e) && rejected_as(e, why),
                None => r matches Ok((units, encoder)) && begins_stream_of(units, *y4m_frame)
                    && encoder.accepts(*y4m_frame),
            },
    {
        let width: u32 = y4m_frame.width;
        let height: u32 = y4m_frame.height;
        let bit_depth: BitDepth = y4m_frame.luma_bit_depth();
        let color: bool = match &y4m_frame.planes {
            Planes::YCbCr(_) => true,
            Planes::Mono(_) => false,
        };
        match check_width(width, color, bit_depth) {
            Err(e) => {
                return Err(e);
            },
            Ok(()) => {},
        }
        let profile_idc: ProfileIdc = infer_profile(color, bit_depth);
        let frame_cropping: Option<[u32; 4]> = match infer_cropping(width, height, color) {
            Err(e) => {
                return Err(e);
            },
            Ok(frame_cropping) => frame_cropping,
        };
        let (sps, sps_nal_unit): (Sps, NalUnit) = sequence_parameters(
            y4m_frame,
            profile_idc,
            frame_cropping,
        );
        let (pps, pps_nal_unit): (Pps, NalUnit) = picture_parameters();
        proof {
            lemma_round_up(width as nat, 16);
            lemma_round_up(height as nat, 16);
        }
        let mbs_width: usize = ((width - 1) / 16 + 1) as usize;
        let mbs_height: usize = ((height - 1) / 16 + 1) as usize;

        let mut self_: LessEncoder = Self { width, height, mbs_width, mbs_height, sps, pps };

        let frame_nal_unit: NalUnit = match self_.encode(y4m_frame) {
            Ok(unit) => unit,
            Err(e) => {
                return Err(e);
            },
        };
        let nal_units: InitialNalUnits = InitialNalUnits {
            sps: sps_nal_unit,
            pps: pps_nal_unit,
            frame: frame_nal_unit,
        };
        Ok((nal_units, self_))
    }

    /// Encode a frame, converting an input image [YCbCrImage] into [NalUnit].
    ///
    /// The image is refused where its planes are too small; else the result
    /// is its IDR slice, whose payload grows by exactly the number of bytes
    /// that were reserved for it.
    pub fn encode(&mut self, y4m_frame: &YCbCrImage) -> (r: Result<NalUnit, Error>)
        requires
            old(self).accepts(*y4m_frame),
        ensures
            *final(self) == *old(self),
            match y4m_frame.size_problem() {
                Some(problem) => r matches Err(Error::DataShapeProblem { msg }) && msg@
                    == problem@,
                None => r matches Ok(unit) && is_slice_of(unit, *y4m_frame),
            },
    {
        proof {
            use_type_invariant(&*self);
        }
        match y4m_frame.check_sizes() {
            Err(e) => {
                return Err(e);
            },
            Ok(()) => {},
        }
        let mut slice_data: RbspData = SliceHeader::new().to_rbsp(&self.sps, &self.pps);
        let luma_only: bool = self.sps.is_monochrome();
        let ghost frame: YCbCrImage = *y4m_frame;
        let ghost across: nat = self.mbs_width as nat;
        let ghost down: nat = self.mbs_height as nat;
        let ghost depth: BitDepth = frame.planes.luma().bit_depth;
        let ghost each: nat = macroblock_len(depth, luma_only);
        let ghost header: Seq<u8> = slice_data@;
        proof {
            lemma_slice_header_len();
            lemma_round_up(self.width as nat, 16);
            lemma_round_up(self.height as nat, 16);
            assert(across * down >= 1) by (nonlinear_arith)
                requires
                    across >= 1,
                    down >= 1,
            ;
        }
        let num_macroblocks: usize = self.mbs_height * self.mbs_width;

        // reserve space for frame without requiring reallocation
        let row_sz: usize = match y4m_frame.luma_bit_depth() {
            BitDepth::Depth8 => 16,
            BitDepth::Depth12 => 24,
        };
        let orig_len: usize = slice_data.data.len();
        proof {
            let num: int = num_macroblocks as int;
            let bytes: int = each as int;
            assert(bytes == 256 ==> num * bytes == num * 256) by (nonlinear_arith);
            assert(bytes == 384 ==> num * bytes == num * 384) by (nonlinear_arith);
            assert(bytes == 576 ==> num * bytes == num * 576) by (nonlinear_arith);
        }

        // space for macroblock data
        let mut reserve_size: usize = if luma_only {
            // luma only in output
            num_macroblocks * row_sz * 16
        } else {
            // 4:2:0
            num_macroblocks * row_sz * 16 * 3 / 2
        };

        // space for header and final slice stop bit
        reserve_size += (num_macroblocks - 1)
            * MacroblockType::I_PCM.as_encoded_macroblock_header().len() + 1;

        slice_data.data.reserve(reserve_size);

        let mut mbs_row: usize = 0;
        while mbs_row < self.mbs_height
            invariant
                frame == *y4m_frame,
                frame.size_problem() is None,
                uniform_depth(frame),
                is_color(frame) ==> frame.width % 2 == 0 && frame.height % 2 == 0,
                luma_only == !is_color(frame),
                across == self.mbs_width,
                down == self.mbs_height,
                across == ceil_div(frame.width as nat, 16),
                down == ceil_div(frame.height as nat, 16),
                across >= 1,
                mbs_row <= down,
                slice_data@ == header + macroblocks_bytes(
                    frame,
                    across,
                    luma_only,
                    (mbs_row * across) as nat,
                ),
            decreases down - mbs_row,
        {
            let mut mbs_col: usize = 0;
            while mbs_col < self.mbs_width
                invariant
                    frame == *y4m_frame,
                    frame.size_problem() is None,
                    uniform_depth(frame),
                    is_color(frame) ==> frame.width % 2 == 0 && frame.height % 2 == 0,
                    luma_only == !is_color(frame),
                    across == self.mbs_width,
                    across == ceil_div(frame.width as nat, 16),
                    down == ceil_div(frame.height as nat, 16),
                    mbs_row < down,
                    mbs_col <= across,
                    slice_data@ == header + macroblocks_bytes(
                        frame,
                        across,
                        luma_only,
                        (mbs_row * across + mbs_col) as nat,
                    ),
                decreases across - mbs_col,
            {
                proof {
                    lemma_macroblock_in_bounds(frame, mbs_row as nat, mbs_col as nat);
                    lemma_macroblock_index(mbs_row as nat, mbs_col as nat, across);
                }
                macroblock(mbs_row, mbs_col, &mut slice_data, y4m_frame, luma_only);
                mbs_col += 1;
            }
            assert(mbs_row * across + across == (mbs_row + 1) * across) by (nonlinear_arith);
            mbs_row += 1;
        }

        // slice stop bit
        slice_data.data.push(0x80);
        assert(slice_data@ =~= slice_rbsp(frame));

        let final_len: usize = slice_data.data.len();
        proof {
            lemma_macroblocks_len(frame, across * down);
        }
        let should_have_reserved: usize = final_len - orig_len;
        assert(should_have_reserved == reserve_size);

        Ok(NalUnit::new(NalRefIdc::One, NalUnitType::CodedSliceOfAnIDRPicture, slice_data))
    }
}

} // verus!
