//! The samples of one macroblock, copied out of the planes of an image.

use crate::rbsp::RbspData;
use crate::slice::MacroblockType;
use crate::sps::BitDepth;
use crate::ycbcr_image::{row_bytes, DataPlane, Planes, YCbCrImage};
use vstd::prelude::*;

verus! {

/// `len` bytes of row `row` of a plane, from byte `first` of that row on.
pub open spec fn plane_row(data: Seq<u8>, stride: nat, row: nat, first: nat, len: nat) -> Seq<u8> {
    data.subrange((row * stride + first) as int, (row * stride + first + len) as int)
}

/// The first `n` rows of the block that begins in row `first_row` at byte
/// `first` and is `len` bytes wide, one row after the other.
pub open spec fn block_rows(
    data: Seq<u8>,
    stride: nat,
    first_row: nat,
    first: nat,
    len: nat,
    n: nat,
) -> Seq<u8>
    decreases n,
{
    if n == 0 {
        Seq::<u8>::empty()
    } else {
        block_rows(data, stride, first_row, first, len, (n - 1) as nat) + plane_row(
            data,
            stride,
            (first_row + n - 1) as nat,
            first,
            len,
        )
    }
}

/// The bytes of the block in row `mbs_row` and column `mbs_col` of a plane
/// that is cut into blocks of `rows` rows, each `len` bytes wide.
pub open spec fn block_bytes(plane: DataPlane, mbs_row: nat, mbs_col: nat, rows: nat, len: nat) -> Seq<
    u8,
> {
    block_rows(plane.data@, plane.stride as nat, mbs_row * rows, mbs_col * len, len, rows)
}

/// Whether the block in row `mbs_row` and column `mbs_col` lies within the
/// stride and the data of the plane, as every block without a row does.
pub open spec fn block_in_bounds(
    plane: DataPlane,
    mbs_row: nat,
    mbs_col: nat,
    rows: nat,
    len: nat,
) -> bool {
    rows > 0 ==> {
        &&& (mbs_col + 1) * len <= plane.stride
        &&& (mbs_row + 1) * rows * plane.stride <= plane.data@.len()
    }
}

/// A block has `rows * len` bytes.
pub proof fn lemma_block_rows_len(
    data: Seq<u8>,
    stride: nat,
    first_row: nat,
    first: nat,
    len: nat,
    n: nat,
)
    requires
        first + len <= stride,
        (first_row + n) * stride <= data.len(),
    ensures
        block_rows(data, stride, first_row, first, len, n).len() == n * len,
    decreases n,
{
    if n > 0 {
        let row: nat = (first_row + n - 1) as nat;
        assert(row * stride + stride == (first_row + n) * stride) by (nonlinear_arith)
            requires
                row == first_row + n - 1,
        ;
        lemma_block_rows_len(data, stride, first_row, first, len, (n - 1) as nat);
        assert((n - 1) * len + len == n * len) by (nonlinear_arith);
    } else {
        assert(n * len == 0) by (nonlinear_arith)
            requires
                n == 0,
        ;
    }
}

/// A block that lies within its plane has `rows * len` bytes.
pub proof fn lemma_block_bytes_len(plane: DataPlane, mbs_row: nat, mbs_col: nat, rows: nat, len: nat)
    requires
        block_in_bounds(plane, mbs_row, mbs_col, rows, len),
    ensures
        block_bytes(plane, mbs_row, mbs_col, rows, len).len() == rows * len,
{
    if rows == 0 {
        return ;
    }
    assert(mbs_col * len + len == (mbs_col + 1) * len) by (nonlinear_arith);
    assert((mbs_row * rows + rows) * plane.stride == (mbs_row + 1) * rows * plane.stride)
        by (nonlinear_arith);
    lemma_block_rows_len(
        plane.data@,
        plane.stride as nat,
        mbs_row * rows,
        mbs_col * len,
        len,
        rows,
    );
}

/// Copies `rows` rows of `len` bytes each.
pub(crate) fn copy_block(
    mbs_row: usize,
    mbs_col: usize,
    src_plane: &DataPlane,
    dest: &mut Vec<u8>,
    rows: usize,
    len: usize,
)
    requires
        block_in_bounds(*src_plane, mbs_row as nat, mbs_col as nat, rows as nat, len as nat),
        (mbs_row + 1) * rows <= usize::MAX,
    ensures
        final(dest)@ == old(dest)@ + block_bytes(
            *src_plane,
            mbs_row as nat,
            mbs_col as nat,
            rows as nat,
            len as nat,
        ),
{
    let src_data: &[u8] = src_plane.data;
    let src_stride: usize = src_plane.stride;
    let ghost start: Seq<u8> = dest@;
    let ghost total: nat = src_data@.len();
    if rows == 0 {
        return ;
    }
    assert(mbs_row * rows + rows == (mbs_row + 1) * rows && mbs_col * len + len == (mbs_col + 1)
        * len) by (nonlinear_arith);
    let first_row: usize = mbs_row * rows;
    let first: usize = mbs_col * len;
    let mut r: usize = 0;
    while r < rows
        invariant
            r <= rows,
            src_data.len() == total,
            first_row + rows == (mbs_row + 1) * rows,
            (mbs_row + 1) * rows <= usize::MAX,
            (mbs_row + 1) * rows * src_stride <= total,
            first + len <= src_stride,
            dest@ == start + block_rows(
                src_data@,
                src_stride as nat,
                first_row as nat,
                first as nat,
                len as nat,
                r as nat,
            ),
        decreases rows - r,
    {
        let src_row: usize = first_row + r;
        assert((src_row + 1) * src_stride <= total && src_row * src_stride + src_stride == (src_row
            + 1) * src_stride && src_row * src_stride >= 0) by (nonlinear_arith)
            requires
                src_row + 1 <= (mbs_row + 1) * rows,
                (mbs_row + 1) * rows * src_stride <= total,
        ;
        // This copies beyond the end of the pixels of the image, but still within
        // the plane.
        let row_chunk: &[u8] = &src_data[src_row * src_stride..(src_row + 1) * src_stride];
        let chunk: &[u8] = &row_chunk[first..first + len];
        dest.extend_from_slice(chunk);
        r += 1;
    }
}

/// Where a block of some width lies within a plane, the number of its rows
/// fits the machine.
proof fn lemma_rows_fit(plane: DataPlane, mbs_row: nat, mbs_col: nat, rows: nat, len: nat)
    requires
        block_in_bounds(plane, mbs_row, mbs_col, rows, len),
        len > 0 || rows == 0,
    ensures
        (mbs_row + 1) * rows <= usize::MAX,
{
    if rows > 0 {
        let stride: nat = plane.stride as nat;
        let area: nat = (mbs_row + 1) * rows;
        assert(plane.data.len() == plane.data@.len());
        assert(stride >= 1) by (nonlinear_arith)
            requires
                (mbs_col + 1) * len <= stride,
                len >= 1,
                mbs_col >= 0,
        ;
        assert(area <= area * stride) by (nonlinear_arith)
            requires
                stride >= 1,
                area >= 0,
        ;
    } else {
        assert((mbs_row + 1) * rows == 0) by (nonlinear_arith)
            requires
                rows == 0,
        ;
    }
}

/// Appends the block in row `mbs_row` and column `mbs_col` of a plane of 8-bit
/// samples that is cut into blocks of `dest_sz` by `dest_sz` samples: 16 for
/// luma, 8 for 4:2:0 chroma.
pub fn copy_to_macroblock_8bit(
    mbs_row: usize,
    mbs_col: usize,
    src_plane: &DataPlane,
    dest: &mut Vec<u8>,
    dest_sz: usize,
)
    requires
        block_in_bounds(*src_plane, mbs_row as nat, mbs_col as nat, dest_sz as nat, dest_sz as nat),
    ensures
        final(dest)@ == old(dest)@ + block_bytes(
            *src_plane,
            mbs_row as nat,
            mbs_col as nat,
            dest_sz as nat,
            dest_sz as nat,
        ),
{
    proof {
        lemma_rows_fit(*src_plane, mbs_row as nat, mbs_col as nat, dest_sz as nat, dest_sz as nat);
    }
    copy_block(mbs_row, mbs_col, src_plane, dest, dest_sz, dest_sz)
}

/// Appends the block in row `mbs_row` and column `mbs_col` of a plane of
/// packed 12-bit samples whose blocks are `dest_sz` bytes wide: 24 for luma,
/// 12 for 4:2:0 chroma. The block has two rows for every three bytes of its
/// width.
pub fn copy_to_macroblock_12bit(
    mbs_row: usize,
    mbs_col: usize,
    src_plane: &DataPlane,
    dest: &mut Vec<u8>,
    dest_sz: usize,
)
    requires
        block_in_bounds(
            *src_plane,
            mbs_row as nat,
            mbs_col as nat,
            (dest_sz / 3 * 2) as nat,
            dest_sz as nat,
        ),
    ensures
        final(dest)@ == old(dest)@ + block_bytes(
            *src_plane,
            mbs_row as nat,
            mbs_col as nat,
            (dest_sz / 3 * 2) as nat,
            dest_sz as nat,
        ),
{
    let src_sz: usize = dest_sz / 3 * 2;
    proof {
        lemma_rows_fit(*src_plane, mbs_row as nat, mbs_col as nat, src_sz as nat, dest_sz as nat);
    }
    copy_block(mbs_row, mbs_col, src_plane, dest, src_sz, dest_sz)
}

/// The bytes of the luma block of a macroblock: 16 rows of 16 samples.
pub open spec fn luma_bytes(frame: YCbCrImage, mbs_row: nat, mbs_col: nat) -> Seq<u8> {
    let y = frame.planes.luma();
    block_bytes(y, mbs_row, mbs_col, 16, row_bytes(y.bit_depth, 16))
}

/// The chroma bytes of a macroblock: the Cb block and then the Cr block, 8
/// rows of 8 samples each; for an image without chroma, 128 samples of the
/// middle value 128.
pub open spec fn chroma_bytes(frame: YCbCrImage, mbs_row: nat, mbs_col: nat) -> Seq<u8> {
    match frame.planes {
        Planes::Mono(_) => Seq::new(128, |i: int| 128u8),
        Planes::YCbCr((_, cb, cr)) => block_bytes(
            cb,
            mbs_row,
            mbs_col,
            8,
            row_bytes(cb.bit_depth, 8),
        ) + block_bytes(cr, mbs_row, mbs_col, 8, row_bytes(cb.bit_depth, 8)),
    }
}

/// The bytes of one macroblock in a slice: for every macroblock but the
/// first the macroblock header, then the luma block, then the chroma unless
/// the stream is luma only.
pub open spec fn macroblock_bytes(
    frame: YCbCrImage,
    mbs_row: nat,
    mbs_col: nat,
    luma_only: bool,
) -> Seq<u8> {
    header_bytes(mbs_row, mbs_col) + luma_bytes(frame, mbs_row, mbs_col) + (if luma_only {
        Seq::<u8>::empty()
    } else {
        chroma_bytes(frame, mbs_row, mbs_col)
    })
}

/// Whether the blocks of a macroblock lie within the planes, and the planes
/// are such as can be written with chroma where chroma is asked for: without
/// chroma planes only at 8 bits, with chroma planes only where the two have
/// one bit depth.
pub open spec fn macroblock_in_bounds(
    frame: YCbCrImage,
    mbs_row: nat,
    mbs_col: nat,
    luma_only: bool,
) -> bool {
    let y = frame.planes.luma();
    &&& block_in_bounds(y, mbs_row, mbs_col, 16, row_bytes(y.bit_depth, 16))
    &&& !luma_only ==> match frame.planes {
        Planes::Mono(y) => y.bit_depth == BitDepth::Depth8,
        Planes::YCbCr((_, cb, cr)) => {
            &&& cb.bit_depth == cr.bit_depth
            &&& block_in_bounds(cb, mbs_row, mbs_col, 8, row_bytes(cb.bit_depth, 8))
            &&& block_in_bounds(cr, mbs_row, mbs_col, 8, row_bytes(cb.bit_depth, 8))
        },
    }
}

/// The macroblock header, for every macroblock but the first.
pub open spec fn header_bytes(mbs_row: nat, mbs_col: nat) -> Seq<u8> {
    if mbs_row == 0 && mbs_col == 0 {
        Seq::<u8>::empty()
    } else {
        seq![0x0Du8, 0x00u8]
    }
}

/// Appends the macroblock header, for every macroblock but the first.
fn append_header(mbs_row: usize, mbs_col: usize, dest: &mut Vec<u8>)
    ensures
        final(dest)@ == old(dest)@ + header_bytes(mbs_row as nat, mbs_col as nat),
{
    if !(mbs_row == 0 && mbs_col == 0) {
        dest.extend_from_slice(MacroblockType::I_PCM.as_encoded_macroblock_header());
    }
}

/// Appends the luma block.
fn append_luma(mbs_row: usize, mbs_col: usize, y_plane: &DataPlane, dest: &mut Vec<u8>)
    requires
        block_in_bounds(
            *y_plane,
            mbs_row as nat,
            mbs_col as nat,
            16,
            row_bytes(y_plane.bit_depth, 16),
        ),
    ensures
        final(dest)@ == old(dest)@ + block_bytes(
            *y_plane,
            mbs_row as nat,
            mbs_col as nat,
            16,
            row_bytes(y_plane.bit_depth, 16),
        ),
{
    match y_plane.bit_depth {
        BitDepth::Depth8 => {
            copy_to_macroblock_8bit(mbs_row, mbs_col, y_plane, dest, 16);
        },
        BitDepth::Depth12 => {
            copy_to_macroblock_12bit(mbs_row, mbs_col, y_plane, dest, 24);
        },
    }
}

/// Appends the two chroma blocks, or the middle value where the image has
/// no chroma.
fn append_chroma(mbs_row: usize, mbs_col: usize, y4m_frame: &YCbCrImage, dest: &mut Vec<u8>)
    requires
        macroblock_in_bounds(*y4m_frame, mbs_row as nat, mbs_col as nat, false),
    ensures
        final(dest)@ == old(dest)@ + chroma_bytes(*y4m_frame, mbs_row as nat, mbs_col as nat),
{
    match &y4m_frame.planes {
        Planes::Mono(_) => {
            // two blocks of chrominance at 8x8 each
            let neutral: Vec<u8> = vec![128u8; 2 * 8 * 8];
            dest.extend_from_slice(neutral.as_slice());
        },
        Planes::YCbCr((_, u_plane, v_plane)) => {
            match u_plane.bit_depth {
                BitDepth::Depth8 => {
                    copy_to_macroblock_8bit(mbs_row, mbs_col, u_plane, dest, 8);
                    copy_to_macroblock_8bit(mbs_row, mbs_col, v_plane, dest, 8);
                },
                BitDepth::Depth12 => {
                    copy_to_macroblock_12bit(mbs_row, mbs_col, u_plane, dest, 12);
                    copy_to_macroblock_12bit(mbs_row, mbs_col, v_plane, dest, 12);
                },
            }
        },
    }
}

/// Appends one macroblock of the image to the data of a slice.
pub fn macroblock(
    mbs_row: usize,
    mbs_col: usize,
    result: &mut RbspData,
    y4m_frame: &YCbCrImage,
    luma_only: bool,
)
    requires
        macroblock_in_bounds(*y4m_frame, mbs_row as nat, mbs_col as nat, luma_only),
    ensures
        final(result)@ == old(result)@ + macroblock_bytes(
            *y4m_frame,
            mbs_row as nat,
            mbs_col as nat,
            luma_only,
        ),
{
    append_header(mbs_row, mbs_col, &mut result.data);
    match &y4m_frame.planes {
        Planes::Mono(y_plane) | Planes::YCbCr((y_plane, _, _)) => {
            append_luma(mbs_row, mbs_col, y_plane, &mut result.data);
        },
    }
    if luma_only {
        return ;
    }
    append_chroma(mbs_row, mbs_col, y4m_frame, &mut result.data);
}

} // verus!
