//! Where the samples of an image stand in the payload of its slice: every
//! byte of every plane is found again at a place that follows from the
//! macroblock and the row it belongs to, so that nothing is lost.

use crate::encoder::{
    is_color, lemma_macroblock_in_bounds, lemma_macroblock_len, lemma_macroblocks_len,
    lemma_slice_header_len, macroblock_len, macroblocks_bytes, slice_rbsp, uniform_depth,
};
use crate::macroblock::{
    block_bytes, block_in_bounds, block_rows, chroma_bytes, header_bytes, lemma_block_bytes_len,
    lemma_block_rows_len, luma_bytes, macroblock_bytes, plane_row,
};
use crate::util::ceil_div;
use crate::ycbcr_image::{row_bytes, DataPlane, Planes, YCbCrImage};
use vstd::prelude::*;

verus! {

/// Byte `b` of row `r` of a block is the byte of the plane at that place.
proof fn lemma_block_rows_index(
    data: Seq<u8>,
    stride: nat,
    first_row: nat,
    first: nat,
    len: nat,
    n: nat,
    r: nat,
    b: nat,
)
    requires
        first + len <= stride,
        (first_row + n) * stride <= data.len(),
        r < n,
        b < len,
    ensures
        r * len + b < block_rows(data, stride, first_row, first, len, n).len(),
        block_rows(data, stride, first_row, first, len, n)[(r * len + b) as int] == data[((first_row
            + r) * stride + first + b) as int],
    decreases n,
{
    let last: nat = (n - 1) as nat;
    assert((first_row + last) * stride + stride == (first_row + n) * stride) by (nonlinear_arith)
        requires
            last + 1 == n,
    ;
    lemma_block_rows_len(data, stride, first_row, first, len, last);
    lemma_block_rows_len(data, stride, first_row, first, len, n);
    if r < last {
        lemma_block_rows_index(data, stride, first_row, first, len, last, r, b);
    }
}

/// Byte `b` of row `r` of a block that lies within its plane is the byte of
/// the plane at that place.
pub proof fn lemma_block_bytes_index(
    plane: DataPlane,
    mbs_row: nat,
    mbs_col: nat,
    rows: nat,
    len: nat,
    r: nat,
    b: nat,
)
    requires
        block_in_bounds(plane, mbs_row, mbs_col, rows, len),
        r < rows,
        b < len,
    ensures
        r * len + b < rows * len,
        block_bytes(plane, mbs_row, mbs_col, rows, len).len() == rows * len,
        block_bytes(plane, mbs_row, mbs_col, rows, len)[(r * len + b) as int] == plane.data@[((
        mbs_row * rows + r) * plane.stride + mbs_col * len + b) as int],
{
    assert(mbs_col * len + len == (mbs_col + 1) * len) by (nonlinear_arith);
    assert((mbs_row * rows + rows) * plane.stride == (mbs_row + 1) * rows * plane.stride)
        by (nonlinear_arith);
    lemma_block_bytes_len(plane, mbs_row, mbs_col, rows, len);
    lemma_block_rows_index(
        plane.data@,
        plane.stride as nat,
        mbs_row * rows,
        mbs_col * len,
        len,
        rows,
        r,
        b,
    );
}

/// The first macroblocks of an image stay where they are when more follow.
proof fn lemma_macroblocks_prefix(
    frame: YCbCrImage,
    mbs_width: nat,
    luma_only: bool,
    m: nat,
    n: nat,
    i: int,
)
    requires
        m <= n,
        0 <= i < macroblocks_bytes(frame, mbs_width, luma_only, m).len(),
    ensures
        i < macroblocks_bytes(frame, mbs_width, luma_only, n).len(),
        macroblocks_bytes(frame, mbs_width, luma_only, n)[i] == macroblocks_bytes(
            frame,
            mbs_width,
            luma_only,
            m,
        )[i],
    decreases n,
{
    if m < n {
        lemma_macroblocks_prefix(frame, mbs_width, luma_only, m, (n - 1) as nat, i);
    }
}

/// The place in the payload of a slice where the samples of macroblock `n`
/// begin: behind the four bytes of the slice header, the samples of the
/// macroblocks before it, and two bytes of macroblock header for each
/// macroblock but the first.
pub open spec fn samples_start(n: nat, each: nat) -> nat {
    4 + n * (each + 2)
}

/// Whether an image is one whose slice an encoder writes: its planes are
/// large enough and have one bit depth, and with chroma its size is even
/// both ways.
pub open spec fn well_shaped(frame: YCbCrImage) -> bool {
    &&& frame.size_problem() is None
    &&& uniform_depth(frame)
    &&& is_color(frame) ==> frame.width % 2 == 0 && frame.height % 2 == 0
}

/// The bytes of macroblock `n` stand in the payload of the slice from two
/// bytes before the place of its samples on, or from that place on for the
/// first macroblock.
proof fn lemma_macroblock_in_slice(frame: YCbCrImage, n: nat, j: nat)
    requires
        well_shaped(frame),
        n < ceil_div(frame.width as nat, 16) * ceil_div(frame.height as nat, 16),
        j < macroblock_len(frame.planes.luma().bit_depth, !is_color(frame)),
    ensures
        ({
            let across = ceil_div(frame.width as nat, 16);
            let each = macroblock_len(frame.planes.luma().bit_depth, !is_color(frame));
            let block = macroblock_bytes(
                frame,
                (n / across) as nat,
                (n % across) as nat,
                !is_color(frame),
            );
            let header: nat = if n == 0 {
                0
            } else {
                2
            };
            &&& n / across < ceil_div(frame.height as nat, 16)
            &&& n % across < across
            &&& (n == 0) == (n / across == 0 && n % across == 0)
            &&& block.len() == header + each
            &&& samples_start(n, each) + j < slice_rbsp(frame).len()
            &&& slice_rbsp(frame)[(samples_start(n, each) + j) as int] == block[(header + j) as int]
        }),
{
    let across = ceil_div(frame.width as nat, 16);
    let down = ceil_div(frame.height as nat, 16);
    let luma_only = !is_color(frame);
    let each = macroblock_len(frame.planes.luma().bit_depth, luma_only);
    let total = across * down;
    let row: nat = (n / across) as nat;
    let col: nat = (n % across) as nat;
    vstd::arithmetic::div_mod::lemma_fundamental_div_mod(n as int, across as int);
    vstd::arithmetic::div_mod::lemma_mod_pos_bound(n as int, across as int);
    assert(row < down) by (nonlinear_arith)
        requires
            n == across * row + col,
            n < across * down,
            col >= 0,
            across > 0,
    ;
    lemma_macroblock_in_bounds(frame, row, col);
    lemma_macroblock_len(frame, row, col);
    lemma_macroblocks_len(frame, n);
    lemma_macroblocks_len(frame, n + 1);
    lemma_macroblocks_len(frame, total);
    lemma_slice_header_len();
    let before = macroblocks_bytes(frame, across, luma_only, n);
    let header: nat = if n == 0 {
        0
    } else {
        2
    };
    assert(before.len() + header == n * (each + 2)) by (nonlinear_arith)
        requires
            before.len() == n * each + (if n == 0 {
                0
            } else {
                (n - 1) * 2
            }),
            header == (if n == 0 {
                0nat
            } else {
                2nat
            }),
    ;
    let at: int = (before.len() + header + j) as int;
    lemma_macroblocks_prefix(frame, across, luma_only, n + 1, total, at);
}

/// Every byte of the luma plane that lies in a macroblock of the image is
/// found in the payload of its slice: byte `b` of row `r` of the luma block
/// of macroblock `n` stands `r` rows of the block and `b` bytes behind the
/// place where the samples of the macroblock begin.
pub proof fn lemma_slice_holds_luma(frame: YCbCrImage, n: nat, r: nat, b: nat)
    requires
        well_shaped(frame),
        n < ceil_div(frame.width as nat, 16) * ceil_div(frame.height as nat, 16),
        r < 16,
        b < row_bytes(frame.planes.luma().bit_depth, 16),
    ensures
        ({
            let across = ceil_div(frame.width as nat, 16);
            let y = frame.planes.luma();
            let len = row_bytes(y.bit_depth, 16);
            let each = macroblock_len(y.bit_depth, !is_color(frame));
            let at = samples_start(n, each) + r * len + b;
            let from = ((n / across) * 16 + r) * y.stride + (n % across) * len + b;
            &&& at < slice_rbsp(frame).len()
            &&& from < y.data@.len()
            &&& slice_rbsp(frame)[at as int] == y.data@[from as int]
        }),
{
    let across = ceil_div(frame.width as nat, 16);
    let y = frame.planes.luma();
    let len = row_bytes(y.bit_depth, 16);
    let row: nat = (n / across) as nat;
    let col: nat = (n % across) as nat;
    let j: nat = r * len + b;
    assert(j < 16 * len) by (nonlinear_arith)
        requires
            j == r * len + b,
            r < 16,
            b < len,
    ;
    lemma_macroblock_in_slice(frame, n, j);
    lemma_macroblock_in_bounds(frame, row, col);
    lemma_block_bytes_index(y, row, col, 16, len, r, b);
    assert(((row * 16 + r) * y.stride + col * len + b) < y.data@.len()) by (nonlinear_arith)
        requires
            (col + 1) * len <= y.stride,
            (row + 1) * 16 * y.stride <= y.data@.len(),
            r < 16,
            b < len,
    ;
}

/// Every byte of the chroma planes that lies in a macroblock of the image
/// is found in the payload of its slice: byte `b` of row `r` of the Cb block
/// of macroblock `n` stands behind the luma block of that macroblock, and
/// that of the Cr block behind the Cb block.
pub proof fn lemma_slice_holds_chroma(frame: YCbCrImage, n: nat, r: nat, b: nat)
    requires
        well_shaped(frame),
        is_color(frame),
        n < ceil_div(frame.width as nat, 16) * ceil_div(frame.height as nat, 16),
        r < 8,
        b < row_bytes(frame.planes.luma().bit_depth, 8),
    ensures
        ({
            let across = ceil_div(frame.width as nat, 16);
            let depth = frame.planes.luma().bit_depth;
            let len = row_bytes(depth, 8);
            let each = macroblock_len(depth, false);
            let cb_at = samples_start(n, each) + 16 * row_bytes(depth, 16) + r * len + b;
            let cr_at = cb_at + 8 * len;
            &&& cr_at < slice_rbsp(frame).len()
            &&& frame.planes matches Planes::YCbCr((_, cb, cr))
            &&& {
                let cb_from = ((n / across) * 8 + r) * cb.stride + (n % across) * len + b;
                let cr_from = ((n / across) * 8 + r) * cr.stride + (n % across) * len + b;
                &&& cb_from < cb.data@.len()
                &&& cr_from < cr.data@.len()
                &&& slice_rbsp(frame)[cb_at as int] == cb.data@[cb_from as int]
                &&& slice_rbsp(frame)[cr_at as int] == cr.data@[cr_from as int]
            }
        }),
{
    let across = ceil_div(frame.width as nat, 16);
    let depth = frame.planes.luma().bit_depth;
    let len = row_bytes(depth, 8);
    let luma_len = row_bytes(depth, 16);
    let row: nat = (n / across) as nat;
    let col: nat = (n % across) as nat;
    let j: nat = r * len + b;
    assert(j < 8 * len) by (nonlinear_arith)
        requires
            j == r * len + b,
            r < 8,
            b < len,
    ;
    let cb_j: nat = 16 * luma_len + j;
    let cr_j: nat = cb_j + 8 * len;
    lemma_macroblock_in_slice(frame, n, cb_j);
    lemma_macroblock_in_slice(frame, n, cr_j);
    lemma_macroblock_in_bounds(frame, row, col);
    match frame.planes {
        Planes::Mono(_) => {},
        Planes::YCbCr((y, cb, cr)) => {
            lemma_block_bytes_len(y, row, col, 16, luma_len);
            lemma_block_bytes_index(cb, row, col, 8, len, r, b);
            lemma_block_bytes_index(cr, row, col, 8, len, r, b);
            assert(((row * 8 + r) * cb.stride + col * len + b) < cb.data@.len())
                by (nonlinear_arith)
                requires
                    (col + 1) * len <= cb.stride,
                    (row + 1) * 8 * cb.stride <= cb.data@.len(),
                    r < 8,
                    b < len,
            ;
            assert(((row * 8 + r) * cr.stride + col * len + b) < cr.data@.len())
                by (nonlinear_arith)
                requires
                    (col + 1) * len <= cr.stride,
                    (row + 1) * 8 * cr.stride <= cr.data@.len(),
                    r < 8,
                    b < len,
            ;
        },
    }
}

} // verus!
