//! Data representations for YCbCr image data

use crate::error::Error;
use crate::sps::BitDepth;
use crate::util::{next_multiple_wide, round_up};
use vstd::prelude::*;

verus! {

/// An image in YCbCr format
///
/// This references data stored elsewhere and provides only minimal metadata to
/// describe the actual image data.
///
/// The luma stride must hold whole macroblocks of 16 pixels and the luma data
/// must have a whole number of macroblock rows of 16 pixel rows each. For
/// chroma, this number is 8.
pub struct YCbCrImage<'a> {
    /// The data planes for the image
    pub planes: Planes<'a>,
    /// The width of the image, in pixels
    pub width: u32,
    /// The height of the image, in pixels
    pub height: u32,
}

/// The data plane(s) within an [YCbCrImage].
pub enum Planes<'a> {
    /// Luminance only (monochrome) data.
    Mono(DataPlane<'a>),
    /// Luminance and chrominance data.
    YCbCr((DataPlane<'a>, DataPlane<'a>, DataPlane<'a>)),
}

/// Data for a single plane (luminance or chrominance) of an image.
///
/// The actual data are stored elsewhere and this provides metadata.
pub struct DataPlane<'a> {
    /// The image data
    pub data: &'a [u8],
    /// The row stride of the image data
    pub stride: usize,
    /// The bit depth of the image data
    pub bit_depth: BitDepth,
}

/// The bytes that `pixels` samples of a row take: one each at 8 bits, three
/// for two at 12 bits.
pub open spec fn row_bytes(depth: BitDepth, pixels: nat) -> nat {
    match depth {
        BitDepth::Depth8 => pixels,
        BitDepth::Depth12 => pixels * 3 / 2,
    }
}

impl<'a> Planes<'a> {
    /// The luminance plane.
    pub open spec fn luma(self) -> DataPlane<'a> {
        match self {
            Planes::Mono(y) => y,
            Planes::YCbCr((y, _, _)) => y,
        }
    }
}

impl<'a> DataPlane<'a> {
    /// What is wrong with the plane as the store of `width` by `height`
    /// samples in macroblocks of `mb_sz` samples each way: a stride that does
    /// not hold the rows of whole macroblocks, or, the stride being in
    /// order, fewer bytes than the rows of whole macroblocks take.
    pub open spec fn size_problem(self, width: u32, height: u32, mb_sz: u32) -> Option<
        &'static str,
    > {
        if self.stride < row_bytes(self.bit_depth, round_up(width as nat, mb_sz as nat)) {
            Some("stride too small")
        } else if self.data@.len() < self.stride * round_up(height as nat, mb_sz as nat) {
            Some("number of rows too small")
        } else {
            None
        }
    }

    /// Tells whether the plane can hold `width` by `height` samples in
    /// macroblocks of `mb_sz` samples each way.
    pub fn check_sizes(&self, width: u32, height: u32, mb_sz: u32) -> (r: Result<(), Error>)
        requires
            mb_sz > 0,
        ensures
            match self.size_problem(width, height, mb_sz) {
                Some(problem) => r matches Err(Error::DataShapeProblem { msg }) && msg@
                    == problem@,
                None => r is Ok,
            },
    {
        let padded_width: u64 = next_multiple_wide(width, mb_sz);
        let needed_stride: u64 = match self.bit_depth {
            BitDepth::Depth8 => padded_width,
            BitDepth::Depth12 => padded_width * 3 / 2,
        };
        // Check width
        if (self.stride as u64) < needed_stride {
            return Err(Error::DataShapeProblem { msg: "stride too small" });
        }
        // check height
        let padded_height: u64 = next_multiple_wide(height, mb_sz);
        assert((self.stride as u128) * (padded_height as u128) <= u128::MAX) by (nonlinear_arith)
            requires
                self.stride <= u64::MAX,
                padded_height <= u64::MAX,
        ;
        if (self.data.len() as u128) < (self.stride as u128) * (padded_height as u128) {
            return Err(Error::DataShapeProblem { msg: "number of rows too small" });
        }
        Ok(())
    }
}

impl<'a> YCbCrImage<'a> {
    /// The bit depth of the luminance plane.
    pub fn luma_bit_depth(&self) -> (depth: BitDepth)
        ensures
            depth == self.planes.luma().bit_depth,
    {
        match &self.planes {
            Planes::Mono(y) => y.bit_depth,
            Planes::YCbCr((y, _, _)) => y.bit_depth,
        }
    }

    /// What is wrong with the planes as the store of the image: the first
    /// problem of the luminance plane, in macroblocks of 16 samples; else,
    /// where there is chroma, that of the Cb plane and then that of the Cr
    /// plane, at half the width and height in macroblocks of 8 samples.
    pub open spec fn size_problem(self) -> Option<&'static str> {
        match self.planes.luma().size_problem(self.width, self.height, 16) {
            Some(problem) => Some(problem),
            None => match self.planes {
                Planes::Mono(_) => None,
                Planes::YCbCr((_, cb, cr)) => match cb.size_problem(
                    self.width / 2,
                    self.height / 2,
                    8,
                ) {
                    Some(problem) => Some(problem),
                    None => cr.size_problem(self.width / 2, self.height / 2, 8),
                },
            },
        }
    }

    /// Tells whether the planes can hold the image in whole macroblocks.
    pub fn check_sizes(&self) -> (r: Result<(), Error>)
        ensures
            match self.size_problem() {
                Some(problem) => r matches Err(Error::DataShapeProblem { msg }) && msg@
                    == problem@,
                None => r is Ok,
            },
    {
        match &self.planes {
            Planes::Mono(y_plane) | Planes::YCbCr((y_plane, _, _)) => {
                match y_plane.check_sizes(self.width, self.height, 16) {
                    Err(e) => {
                        return Err(e);
                    },
                    Ok(()) => {},
                }
            },
        }
        match &self.planes {
            Planes::Mono(_) => {},
            Planes::YCbCr((_, cb_plane, cr_plane)) => {
                match cb_plane.check_sizes(self.width / 2, self.height / 2, 8) {
                    Err(e) => {
                        return Err(e);
                    },
                    Ok(()) => {},
                }
                match cr_plane.check_sizes(self.width / 2, self.height / 2, 8) {
                    Err(e) => {
                        return Err(e);
                    },
                    Ok(()) => {},
                }
            },
        }
        Ok(())
    }
}

} // verus!
