//! Images that own their planes, and the test pattern: a grey ramp from
//! black on the left to white on the right, with neutral chroma.

use crate::error::Error;
use crate::macroblock::{block_rows, copy_block, plane_row};
use crate::sps::BitDepth;
use crate::util::{lemma_round_up, next_multiple, round_up};
use crate::ycbcr_image::{row_bytes, DataPlane, Planes, YCbCrImage};
use vstd::prelude::*;
use vstd::std_specs::iter::IteratorSpec;

verus! {

/// The pixel formats of the test pattern.
#[derive(Clone, Copy, Debug, PartialEq, Eq, Structural)]
pub enum PixFmt {
    Mono8,
    Mono12,
    Rgb8,
    Rgb12,
}

impl PixFmt {
    /// The name of the format.
    pub fn as_str(&self) -> (name: &'static str)
        ensures
            name@ == match self {
                PixFmt::Mono8 => "mono8"@,
                PixFmt::Mono12 => "mono12"@,
                PixFmt::Rgb8 => "rgb8"@,
                PixFmt::Rgb12 => "rgb12"@,
            },
    {
        match self {
            Self::Mono8 => "mono8",
            Self::Mono12 => "mono12",
            Self::Rgb8 => "rgb8",
            Self::Rgb12 => "rgb12",
        }
    }

    /// Whether images of the format have chroma.
    pub open spec fn color(self) -> bool {
        self == PixFmt::Rgb8 || self == PixFmt::Rgb12
    }

    /// The bit depth of the format.
    pub open spec fn depth(self) -> BitDepth {
        if self == PixFmt::Mono12 || self == PixFmt::Rgb12 {
            BitDepth::Depth12
        } else {
            BitDepth::Depth8
        }
    }
}

/// A plane that owns its data.
pub struct MyImagePlane {
    pub data: Vec<u8>,
    pub stride: usize,
    pub bit_depth: BitDepth,
}

impl Clone for MyImagePlane {
    fn clone(&self) -> (copy: Self)
        ensures
            copy.data@ == self.data@,
            copy.stride == self.stride,
            copy.bit_depth == self.bit_depth,
    {
        Self { data: self.data.clone(), stride: self.stride, bit_depth: self.bit_depth }
    }
}

/// Two 12-bit samples in three bytes: the first sample's high eight bits,
/// then its low four and the second's high four, then the second's low eight.
pub open spec fn packed_12be(v0: u16, v1: u16) -> Seq<u8> {
    seq![(v0 / 16) as u8, ((v0 % 16) * 16 + v1 / 256) as u8, (v1 % 256) as u8]
}

/// The two 12-bit samples that three bytes hold.
pub open spec fn unpacked_12be(b0: u8, b1: u8, b2: u8) -> Seq<u16> {
    seq![(b0 * 16 + b1 / 16) as u16, ((b1 % 16) * 256 + b2) as u16]
}

/// Packs two 12-bit samples into three bytes.
pub fn pack_to_12be(vals: &[u16]) -> (bytes: [u8; 3])
    requires
        vals@.len() == 2,
        vals@[0] < 4096,
        vals@[1] < 4096,
    ensures
        bytes@ == packed_12be(vals@[0], vals@[1]),
        unpacked_12be(bytes@[0], bytes@[1], bytes@[2]) == vals@,
{
    let v0: u16 = vals[0];
    let v1: u16 = vals[1];
    assert((v0 & 0x0FF0) >> 4 == v0 / 16 && (v0 & 0x000F) << 4 == (v0 % 16) * 16 && (v1 & 0x0F00)
        >> 8 == v1 / 256 && v1 & 0x00FF == v1 % 256) by (bit_vector)
        requires
            v0 < 4096,
            v1 < 4096,
    ;
    let b0: u8 = ((v0 & 0x0FF0) >> 4) as u8;
    let hi: u8 = ((v0 & 0x000F) << 4) as u8;
    let lo: u8 = ((v1 & 0x0F00) >> 8) as u8;
    assert(hi | lo == hi + lo) by (bit_vector)
        requires
            hi % 16 == 0,
            lo < 16,
    ;
    let b1: u8 = hi | lo;
    let b2: u8 = (v1 & 0x00FF) as u8;
    let bytes: [u8; 3] = [b0, b1, b2];
    bytes
}

/// Unpacks the two 12-bit samples that three bytes hold.
pub fn unpack_12be(bytes: &[u8]) -> (vals: [u16; 2])
    requires
        bytes@.len() == 3,
    ensures
        vals@ == unpacked_12be(bytes@[0], bytes@[1], bytes@[2]),
        vals@[0] < 4096,
        vals@[1] < 4096,
{
    let b0: u8 = bytes[0];
    let b1: u8 = bytes[1];
    let b2: u8 = bytes[2];
    assert(((b0 as u16) << 4) | (((b1 & 0xF0) as u16) >> 4) == b0 * 16 + b1 / 16 && (((b1 & 0x0F) as u16)
        << 8) | (b2 as u16) == (b1 % 16) * 256 + b2) by (bit_vector);
    let vals: [u16; 2] = [
        ((b0 as u16) << 4) | (((b1 & 0xF0) as u16) >> 4),
        (((b1 & 0x0F) as u16) << 8) | (b2 as u16),
    ];
    vals
}

/// The packed 12-bit samples of `packed`, two in every three bytes, each as
/// a 16-bit number with its low byte first.
pub open spec fn unpacked_16le(packed: Seq<u8>) -> Seq<u8> {
    Seq::new(
        (packed.len() / 3 * 4) as nat,
        |i: int|
            {
                let pair = unpacked_12be(
                    packed[i / 4 * 3],
                    packed[i / 4 * 3 + 1],
                    packed[i / 4 * 3 + 2],
                );
                let sample = pair[(i % 4) / 2];
                if i % 2 == 0 {
                    (sample % 256) as u8
                } else {
                    (sample / 256) as u8
                }
            },
    )
}

/// Unpacks 12-bit samples into 16-bit numbers with the low byte first. Bytes
/// beyond the last whole group of three are left out.
pub fn unpack12be_to_16le(packed: &[u8]) -> (dest: Vec<u8>)
    ensures
        dest@ == unpacked_16le(packed@),
{
    let groups: usize = packed.len() / 3;
    let mut dest: Vec<u8> = Vec::with_capacity(groups);
    let mut k: usize = 0;
    while k < groups
        invariant
            k <= groups,
            groups == packed.len() / 3,
            dest@.len() == 4 * k,
            forall|i: int| 0 <= i < 4 * k ==> dest@[i] == unpacked_16le(packed@)[i],
        decreases groups - k,
    {
        let vals: [u16; 2] = unpack_12be(&packed[3 * k..3 * k + 3]);
        let v0: u16 = vals[0];
        let v1: u16 = vals[1];
        assert(v0 & 0xFF == v0 % 256 && v0 >> 8 == v0 / 256 && v1 & 0xFF == v1 % 256 && v1 >> 8
            == v1 / 256) by (bit_vector);
        dest.push((v0 & 0xFF) as u8);
        dest.push((v0 >> 8) as u8);
        dest.push((v1 & 0xFF) as u8);
        dest.push((v1 >> 8) as u8);
        k += 1;
    }
    dest
}

/// `n` zero bytes.
pub open spec fn zero_bytes(n: nat) -> Seq<u8> {
    Seq::new(n, |i: int| 0u8)
}

/// Appends `n` zero bytes.
fn push_zeros(dest: &mut Vec<u8>, n: usize)
    ensures
        final(dest)@ == old(dest)@ + zero_bytes(n as nat),
{
    let ghost start: Seq<u8> = dest@;
    let mut i: usize = 0;
    while i < n
        invariant
            i <= n,
            dest@ == start + zero_bytes(i as nat),
        decreases n - i,
    {
        dest.push(0);
        i += 1;
    }
}

/// The first `n` rows of a plane of packed 12-bit samples, each cut to
/// `len` bytes and unpacked to 16-bit numbers with the low byte first.
pub open spec fn unpacked_rows(data: Seq<u8>, stride: nat, len: nat, n: nat) -> Seq<u8>
    decreases n,
{
    if n == 0 {
        Seq::<u8>::empty()
    } else {
        unpacked_rows(data, stride, len, (n - 1) as nat) + unpacked_16le(
            plane_row(data, stride, (n - 1) as nat, 0, len),
        )
    }
}

impl MyImagePlane {
    /// The whole rows that the data holds, but no more than `height`.
    pub open spec fn rows_held(self, height: u32) -> nat {
        if self.data@.len() / (self.stride as nat) < height {
            self.data@.len() / (self.stride as nat)
        } else {
            height as nat
        }
    }

    /// The plane cut to `width` by `height` samples: the rows that the data
    /// holds without what stands behind the width, at 12 bits unpacked to
    /// 16-bit numbers with the low byte first; and zero bytes for the rows
    /// that the data does not hold.
    pub open spec fn trimmed(self, width: u32, height: u32) -> Seq<u8> {
        let held = self.rows_held(height);
        match self.bit_depth {
            BitDepth::Depth8 => block_rows(self.data@, self.stride as nat, 0, 0, width as nat, held)
                + zero_bytes(((height - held) * width) as nat),
            BitDepth::Depth12 => unpacked_rows(
                self.data@,
                self.stride as nat,
                (width * 3 / 2) as nat,
                held,
            ) + zero_bytes(((height - held) * (width * 2)) as nat),
        }
    }

    /// A plane of 8-bit samples.
    pub fn new(data: Vec<u8>, stride: usize) -> (r: Result<Self, Error>)
        ensures
            r matches Ok(plane) && plane.data == data && plane.stride == stride
                && plane.bit_depth == BitDepth::Depth8,
    {
        Ok(Self { data, stride, bit_depth: BitDepth::Depth8 })
    }

    /// A plane of samples of the bit depth given.
    pub fn new_bit_depth(data: Vec<u8>, stride: usize, bit_depth: BitDepth) -> (r: Result<
        Self,
        Error,
    >)
        ensures
            r matches Ok(plane) && plane.data == data && plane.stride == stride
                && plane.bit_depth == bit_depth,
    {
        Ok(Self { data, stride, bit_depth })
    }

    /// The plane as a borrowed plane.
    pub fn as_data_plane<'a>(&'a self) -> (plane: DataPlane<'a>)
        ensures
            plane.data@ == self.data@,
            plane.stride == self.stride,
            plane.bit_depth == self.bit_depth,
    {
        DataPlane { data: self.data.as_slice(), stride: self.stride, bit_depth: self.bit_depth }
    }

    /// The plane cut to `width` by `height` samples, as a raw video file
    /// holds it. At 12 bits the width must be even.
    pub fn to_trimmed_y4m(&self, width: u32, height: u32) -> (r: Result<Vec<u8>, Error>)
        requires
            self.stride > 0,
            width > 0,
            row_bytes(self.bit_depth, width as nat) <= self.stride,
            width * 2 * height <= usize::MAX,
        ensures
            if self.bit_depth == BitDepth::Depth12 && width % 2 != 0 {
                r matches Err(Error::DataShapeProblem { msg }) && msg@
                    == "luma or chroma plane width must be multiple of 2"@
            } else {
                r matches Ok(bytes) && bytes@ == self.trimmed(width, height)
            },
    {
        let rows_in_data: usize = self.data.len() / self.stride;
        let held: usize = if rows_in_data < height as usize {
            rows_in_data
        } else {
            height as usize
        };
        let missing: usize = height as usize - held;
        assert(held * self.stride <= self.data@.len()) by (nonlinear_arith)
            requires
                held <= self.data@.len() / (self.stride as nat),
                self.stride > 0,
        ;
        assert(missing * (width * 2) <= width * 2 * height) by (nonlinear_arith)
            requires
                missing <= height,
        ;
        let mut result: Vec<u8> = Vec::new();
        match self.bit_depth {
            BitDepth::Depth8 => {
                assert(0 * held == 0 && 0 * width == 0 && 1 * width == width && 1 * held == held)
                    by (nonlinear_arith);
                let plane: DataPlane = self.as_data_plane();
                copy_block(0, 0, &plane, &mut result, held, width as usize);
                assert(missing * width <= missing * (width * 2)) by (nonlinear_arith);
                push_zeros(&mut result, missing * (width as usize));
                Ok(result)
            },
            BitDepth::Depth12 => {
                if width % 2 != 0 {
                    return Err(
                        Error::DataShapeProblem {
                            msg: "luma or chroma plane width must be multiple of 2",
                        },
                    );
                }
                let len: usize = width as usize / 2 * 3;
                let mut r: usize = 0;
                while r < held
                    invariant
                        r <= held,
                        len == width * 3 / 2,
                        len <= self.stride,
                        held * self.stride <= self.data.len(),
                        result@ == unpacked_rows(
                            self.data@,
                            self.stride as nat,
                            len as nat,
                            r as nat,
                        ),
                    decreases held - r,
                {
                    assert((r + 1) * self.stride <= held * self.stride && r * self.stride
                        + self.stride == (r + 1) * self.stride && r * self.stride >= 0)
                        by (nonlinear_arith)
                        requires
                            r + 1 <= held,
                    ;
                    let start: usize = r * self.stride;
                    let src_row: &[u8] = &self.data.as_slice()[start..start + len];
                    let unpacked: Vec<u8> = unpack12be_to_16le(src_row);
                    result.extend_from_slice(unpacked.as_slice());
                    r += 1;
                }
                assert(missing * width <= missing * (width * 2) && missing * width * 2 == missing
                    * (width * 2)) by (nonlinear_arith);
                push_zeros(&mut result, missing * (width as usize) * 2);
                Ok(result)
            },
        }
    }
}

/// The planes of an image that owns them.
pub enum MyPlanes {
    Mono(MyImagePlane),
    YCbCr((MyImagePlane, MyImagePlane, MyImagePlane)),
}

impl Clone for MyPlanes {
    fn clone(&self) -> (copy: Self)
        ensures
            copy.all().len() == self.all().len(),
            forall|i: int|
                0 <= i < self.all().len() ==> same_plane(#[trigger] copy.all()[i], self.all()[i]),
    {
        match self {
            Self::Mono(y) => Self::Mono(y.clone()),
            Self::YCbCr((y, u, v)) => Self::YCbCr((y.clone(), u.clone(), v.clone())),
        }
    }
}

/// Whether two planes have the same data, stride and bit depth.
pub open spec fn same_plane(a: MyImagePlane, b: MyImagePlane) -> bool {
    a.data@ == b.data@ && a.stride == b.stride && a.bit_depth == b.bit_depth
}

impl MyPlanes {
    /// The luminance plane.
    pub open spec fn luma(self) -> MyImagePlane {
        match self {
            MyPlanes::Mono(y) => y,
            MyPlanes::YCbCr((y, _, _)) => y,
        }
    }

    /// The planes in order: luma, and then Cb and Cr where there is chroma.
    pub open spec fn all(self) -> Seq<MyImagePlane> {
        match self {
            MyPlanes::Mono(y) => seq![y],
            MyPlanes::YCbCr((y, u, v)) => seq![y, u, v],
        }
    }

    /// The planes in order: luma, and then Cb and Cr where there is chroma.
    pub fn iter(&self) -> (planes: std::vec::IntoIter<&MyImagePlane>)
        ensures
            IteratorSpec::remaining(&planes) == self.all().map_values(|p: MyImagePlane| &p),
    {
        let mut refs: Vec<&MyImagePlane> = Vec::new();
        match self {
            Self::Mono(yplane) => {
                refs.push(yplane);
            },
            Self::YCbCr((y, u, v)) => {
                refs.push(y);
                refs.push(u);
                refs.push(v);
            },
        }
        refs.into_iter()
    }
}

/// An image that owns its planes.
pub struct MyYCbCrImage {
    pub planes: MyPlanes,
    pub width: u32,
    pub height: u32,
    pub bit_depth: BitDepth,
}

impl Clone for MyYCbCrImage {
    fn clone(&self) -> (copy: Self)
        ensures
            copy.width == self.width,
            copy.height == self.height,
            copy.bit_depth == self.bit_depth,
            copy.planes.all().len() == self.planes.all().len(),
            forall|i: int|
                0 <= i < self.planes.all().len() ==> same_plane(
                    #[trigger] copy.planes.all()[i],
                    self.planes.all()[i],
                ),
    {
        Self {
            planes: self.planes.clone(),
            width: self.width,
            height: self.height,
            bit_depth: self.bit_depth,
        }
    }
}

impl MyYCbCrImage {
    /// The image as one that borrows its planes. Its chroma planes are taken
    /// to have the bit depth of its luma plane.
    pub open spec fn borrowed<'a>(&'a self, frame: YCbCrImage<'a>) -> bool {
        &&& frame.width == self.width
        &&& frame.height == self.height
        &&& match (self.planes, frame.planes) {
            (MyPlanes::Mono(y), Planes::Mono(fy)) => like_plane(y, fy, y.bit_depth),
            (MyPlanes::YCbCr((y, cb, cr)), Planes::YCbCr((fy, fcb, fcr))) => like_plane(
                y,
                fy,
                y.bit_depth,
            ) && like_plane(cb, fcb, y.bit_depth) && like_plane(cr, fcr, y.bit_depth),
            _ => false,
        }
    }

    /// An image of 8-bit samples.
    pub fn new(planes: MyPlanes, width: u32, height: u32) -> (r: Result<Self, Error>)
        ensures
            r matches Ok(image) && image.planes == planes && image.width == width && image.height
                == height && image.bit_depth == BitDepth::Depth8,
    {
        Ok(Self { planes, width, height, bit_depth: BitDepth::Depth8 })
    }

    /// An image whose planes all have the bit depth given.
    pub fn new_bit_depth(planes: MyPlanes, width: u32, height: u32, bit_depth: BitDepth) -> (r:
        Result<Self, Error>)
        requires
            forall|i: int| 0 <= i < planes.all().len() ==> planes.all()[i].bit_depth == bit_depth,
        ensures
            r matches Ok(image) && image.planes == planes && image.width == width && image.height
                == height && image.bit_depth == bit_depth,
    {
        Ok(Self { planes, width, height, bit_depth })
    }

    /// The luma plane, taken as 8-bit samples.
    pub fn view_luma<'a>(&'a self) -> (plane: DataPlane<'a>)
        ensures
            like_plane(self.planes.luma(), plane, BitDepth::Depth8),
    {
        let (data, stride): (&Vec<u8>, usize) = match &self.planes {
            MyPlanes::Mono(y_plane) | MyPlanes::YCbCr((y_plane, _, _)) => (
                &y_plane.data,
                y_plane.stride,
            ),
        };
        DataPlane { data: data.as_slice(), stride, bit_depth: BitDepth::Depth8 }
    }

    /// The image as one that borrows its planes.
    pub fn view<'a>(&'a self) -> (frame: YCbCrImage<'a>)
        ensures
            self.borrowed(frame),
    {
        let planes: Planes<'a> = match &self.planes {
            MyPlanes::Mono(y_plane) => Planes::Mono(
                DataPlane {
                    data: y_plane.data.as_slice(),
                    stride: y_plane.stride,
                    bit_depth: y_plane.bit_depth,
                },
            ),
            MyPlanes::YCbCr((y_plane, cb_plane, cr_plane)) => {
                let y_plane: DataPlane<'a> = DataPlane {
                    data: y_plane.data.as_slice(),
                    stride: y_plane.stride,
                    bit_depth: y_plane.bit_depth,
                };
                let cb_plane: DataPlane<'a> = DataPlane {
                    data: cb_plane.data.as_slice(),
                    stride: cb_plane.stride,
                    bit_depth: y_plane.bit_depth,
                };
                let cr_plane: DataPlane<'a> = DataPlane {
                    data: cr_plane.data.as_slice(),
                    stride: cr_plane.stride,
                    bit_depth: y_plane.bit_depth,
                };
                Planes::YCbCr((y_plane, cb_plane, cr_plane))
            },
        };
        YCbCrImage { planes, width: self.width, height: self.height }
    }
}

/// Whether a borrowed plane shows the data and the stride of an owned one,
/// at the bit depth given.
pub open spec fn like_plane(owned: MyImagePlane, plane: DataPlane, depth: BitDepth) -> bool {
    &&& plane.data@ == owned.data@
    &&& plane.stride == owned.stride
    &&& plane.bit_depth == depth
}

/// Sample `idx` of a ramp that rises over `width` samples from 0 to `max`,
/// rounded down.
pub open spec fn ramp(idx: nat, width: nat, max: nat) -> nat {
    if width <= 1 {
        0
    } else {
        idx * max / ((width - 1) as nat)
    }
}

/// A ramp stays below its highest value.
proof fn lemma_ramp_bound(idx: nat, width: nat, max: nat)
    requires
        idx < width,
    ensures
        ramp(idx, width, max) <= max,
{
    if width > 1 {
        let d: int = width - 1;
        assert(idx * max <= d * max) by (nonlinear_arith)
            requires
                idx <= d,
        ;
        vstd::arithmetic::div_mod::lemma_div_is_ordered((idx * max) as int, d * max, d);
        vstd::arithmetic::div_mod::lemma_div_multiples_vanish(max as int, d);
    }
}

/// A row of the ramp in 8-bit samples.
pub open spec fn ramp_row_8(width: nat) -> Seq<u8> {
    Seq::new(width, |i: int| ramp(i as nat, width, 255) as u8)
}

/// A row of the ramp in packed 12-bit samples; of an odd number of samples
/// the last is left out.
pub open spec fn ramp_row_12(width: nat) -> Seq<u8> {
    Seq::new(
        width / 2 * 3,
        |i: int|
            packed_12be(
                ramp((i / 3 * 2) as nat, width, 4095) as u16,
                ramp((i / 3 * 2 + 1) as nat, width, 4095) as u16,
            )[i % 3],
    )
}

/// A row of neutral chroma in packed 12-bit samples, for an image that is
/// `width` samples wide: the middle value `0x800` for every second column, of
/// an odd number of such samples the last left out.
pub open spec fn neutral_row_12(width: nat) -> Seq<u8> {
    Seq::new(width / 2 / 2 * 3, |i: int| packed_12be(0x800, 0x800)[i % 3])
}

/// A plane of `rows` rows of `stride` bytes each: the first `filled` of them
/// begin with `row` and go on with zero bytes, the others are zero.
pub open spec fn ruled_plane(row: Seq<u8>, stride: nat, filled: nat, rows: nat) -> Seq<u8>
    decreases rows,
{
    if rows == 0 {
        Seq::<u8>::empty()
    } else {
        ruled_plane(row, stride, filled, (rows - 1) as nat) + (if rows - 1 < filled {
            row + zero_bytes((stride - row.len()) as nat)
        } else {
            zero_bytes(stride)
        })
    }
}

/// A plane of rows has `stride * rows` bytes.
pub proof fn lemma_ruled_plane_len(row: Seq<u8>, stride: nat, filled: nat, rows: nat)
    requires
        row.len() <= stride,
    ensures
        ruled_plane(row, stride, filled, rows).len() == stride * rows,
    decreases rows,
{
    if rows > 0 {
        lemma_ruled_plane_len(row, stride, filled, (rows - 1) as nat);
        assert(stride * (rows - 1) + stride == stride * rows) by (nonlinear_arith);
    } else {
        assert(stride * rows == 0) by (nonlinear_arith)
            requires
                rows == 0,
        ;
    }
}

/// Makes a plane of rows.
fn rule_plane(row: &[u8], stride: usize, filled: usize, rows: usize) -> (data: Vec<u8>)
    requires
        row@.len() <= stride,
    ensures
        data@ == ruled_plane(row@, stride as nat, filled as nat, rows as nat),
        data@.len() == stride * rows,
{
    let mut data: Vec<u8> = Vec::new();
    let mut r: usize = 0;
    while r < rows
        invariant
            r <= rows,
            row@.len() <= stride,
            data@ == ruled_plane(row@, stride as nat, filled as nat, r as nat),
        decreases rows - r,
    {
        if r < filled {
            data.extend_from_slice(row);
            push_zeros(&mut data, stride - row.len());
        } else {
            push_zeros(&mut data, stride);
        }
        r += 1;
    }
    proof {
        lemma_ruled_plane_len(row@, stride as nat, filled as nat, rows as nat);
    }
    data
}

/// Makes a row of the ramp in 8-bit samples.
fn make_ramp_row_8(width: u32) -> (row: Vec<u8>)
    ensures
        row@ == ramp_row_8(width as nat),
{
    let mut row: Vec<u8> = Vec::new();
    let mut idx: u32 = 0;
    while idx < width
        invariant
            idx <= width,
            row@.len() == idx,
            forall|i: int| 0 <= i < idx ==> row@[i] == ramp(i as nat, width as nat, 255) as u8,
        decreases width - idx,
    {
        proof {
            lemma_ramp_bound(idx as nat, width as nat, 255);
        }
        let value: u64 = if width <= 1 {
            0
        } else {
            idx as u64 * 255 / (width as u64 - 1)
        };
        row.push(value as u8);
        idx += 1;
    }
    row
}

/// Makes a row of the ramp in packed 12-bit samples.
fn make_ramp_row_12(width: u32) -> (row: Vec<u8>)
    ensures
        row@ == ramp_row_12(width as nat),
{
    let pairs: u32 = width / 2;
    let mut row: Vec<u8> = Vec::new();
    let mut k: u32 = 0;
    while k < pairs
        invariant
            k <= pairs,
            pairs == width / 2,
            row@.len() == 3 * k,
            forall|i: int| 0 <= i < 3 * k ==> row@[i] == ramp_row_12(width as nat)[i],
        decreases pairs - k,
    {
        proof {
            lemma_ramp_bound((2 * k) as nat, width as nat, 4095);
            lemma_ramp_bound((2 * k + 1) as nat, width as nat, 4095);
        }
        let v0: u64 = (2 * k as u64) * 4095 / (width as u64 - 1);
        let v1: u64 = (2 * k as u64 + 1) * 4095 / (width as u64 - 1);
        let vals: [u16; 2] = [v0 as u16, v1 as u16];
        let packed: [u8; 3] = pack_to_12be(vals.as_slice());
        row.push(packed[0]);
        row.push(packed[1]);
        row.push(packed[2]);
        k += 1;
    }
    row
}

/// Makes a row of neutral chroma in packed 12-bit samples.
fn make_neutral_row_12(width: u32) -> (row: Vec<u8>)
    ensures
        row@ == neutral_row_12(width as nat),
{
    let pairs: u32 = width / 2 / 2;
    let mut row: Vec<u8> = Vec::new();
    let mut k: u32 = 0;
    while k < pairs
        invariant
            k <= pairs,
            pairs == width / 2 / 2,
            row@.len() == 3 * k,
            forall|i: int| 0 <= i < 3 * k ==> row@[i] == neutral_row_12(width as nat)[i],
        decreases pairs - k,
    {
        let vals: [u16; 2] = [0x0800, 0x0800];
        let packed: [u8; 3] = pack_to_12be(vals.as_slice());
        row.push(packed[0]);
        row.push(packed[1]);
        row.push(packed[2]);
        k += 1;
    }
    row
}

/// The stride of the luma plane of the test pattern.
pub open spec fn pattern_luma_stride(fmt: PixFmt, width: u32) -> nat {
    row_bytes(fmt.depth(), round_up(width as nat, 16))
}

/// The stride of the chroma planes of the test pattern.
pub open spec fn pattern_chroma_stride(fmt: PixFmt, width: u32) -> nat {
    row_bytes(fmt.depth(), round_up((width / 2) as nat, 8))
}

/// Whether a plane is the luma plane of the test pattern: in rows of whole
/// macroblocks, the ramp in each row of the image, zero bytes elsewhere.
pub open spec fn is_pattern_luma(plane: MyImagePlane, fmt: PixFmt, width: u32, height: u32) -> bool {
    &&& plane.bit_depth == fmt.depth()
    &&& plane.stride == pattern_luma_stride(fmt, width)
    &&& plane.data@ == ruled_plane(
        if fmt.depth() == BitDepth::Depth8 {
            ramp_row_8(width as nat)
        } else {
            ramp_row_12(width as nat)
        },
        pattern_luma_stride(fmt, width),
        height as nat,
        round_up(height as nat, 16),
    )
}

/// Whether a plane is a chroma plane of the test pattern: in rows of whole
/// blocks of 8, at 8 bits the middle value 128 in every byte, at 12 bits the
/// middle value `0x800` in every sample of the image and zero bytes behind
/// them.
pub open spec fn is_pattern_chroma(plane: MyImagePlane, fmt: PixFmt, width: u32, height: u32) -> bool {
    let stride = pattern_chroma_stride(fmt, width);
    let rows = round_up((height / 2) as nat, 8);
    &&& plane.bit_depth == fmt.depth()
    &&& plane.stride == stride
    &&& plane.data@ == (if fmt.depth() == BitDepth::Depth8 {
        Seq::new(stride * rows, |i: int| 128u8)
    } else {
        ruled_plane(neutral_row_12(width as nat), stride, rows, rows)
    })
}

/// Whether an image is the test pattern of the format and size given.
pub open spec fn is_test_pattern(image: MyYCbCrImage, fmt: PixFmt, width: u32, height: u32) -> bool {
    &&& image.width == width
    &&& image.height == height
    &&& image.bit_depth == fmt.depth()
    &&& match image.planes {
        MyPlanes::Mono(y) => !fmt.color() && is_pattern_luma(y, fmt, width, height),
        MyPlanes::YCbCr((y, cb, cr)) => fmt.color() && is_pattern_luma(y, fmt, width, height)
            && is_pattern_chroma(cb, fmt, width, height) && is_pattern_chroma(
            cr,
            fmt,
            width,
            height,
        ),
    }
}

/// The planes of the test pattern are as large as an encoder asks, and have
/// one bit depth.
pub proof fn lemma_pattern_planes_suffice(
    image: MyYCbCrImage,
    frame: YCbCrImage,
    fmt: PixFmt,
    width: u32,
    height: u32,
)
    requires
        is_test_pattern(image, fmt, width, height),
        image.borrowed(frame),
    ensures
        frame.size_problem() is None,
        crate::encoder::uniform_depth(frame),
        crate::encoder::is_color(frame) == fmt.color(),
        frame.planes.luma().bit_depth == fmt.depth(),
{
    lemma_ruled_plane_len(
        if fmt.depth() == BitDepth::Depth8 {
            ramp_row_8(width as nat)
        } else {
            ramp_row_12(width as nat)
        },
        pattern_luma_stride(fmt, width),
        height as nat,
        round_up(height as nat, 16),
    );
    lemma_round_up(width as nat, 16);
    match image.planes {
        MyPlanes::Mono(_) => {},
        MyPlanes::YCbCr((_, cb, cr)) => {
            let stride = pattern_chroma_stride(fmt, width);
            let rows = round_up((height / 2) as nat, 8);
            lemma_round_up((width / 2) as nat, 8);
            if fmt.depth() == BitDepth::Depth12 {
                lemma_ruled_plane_len(neutral_row_12(width as nat), stride, rows, rows);
            }
        },
    }
}

/// An encoder takes the test pattern of every size that fits the format:
/// even both ways with chroma, a width that is a multiple of 4 with 12-bit
/// chroma, an even width at 12 bits without chroma.
pub proof fn lemma_pattern_is_taken(
    image: MyYCbCrImage,
    frame: YCbCrImage,
    fmt: PixFmt,
    width: u32,
    height: u32,
)
    requires
        is_test_pattern(image, fmt, width, height),
        image.borrowed(frame),
        width >= 1,
        height >= 1,
        fmt.color() ==> width % 2 == 0 && height % 2 == 0,
        fmt == PixFmt::Rgb12 ==> width % 4 == 0,
        fmt == PixFmt::Mono12 ==> width % 2 == 0,
    ensures
        crate::encoder::first_frame_rejection(frame) is None,
{
    lemma_pattern_planes_suffice(image, frame, fmt, width, height);
    lemma_round_up(width as nat, 16);
    lemma_round_up(height as nat, 16);
    let color = crate::encoder::is_color(frame);
    let depth = frame.planes.luma().bit_depth;
    assert(color == fmt.color() && depth == fmt.depth());
    assert(crate::encoder::width_rejection(width, color, depth) is None);
    assert(crate::encoder::right_pad(width) % crate::encoder::chroma_step(color) == 0);
    assert(crate::encoder::bottom_pad(height) % crate::encoder::chroma_step(color) == 0);
}

/// Whether the test pattern of the format and size given can be made on this
/// machine, and its 12-bit rows hold whole pairs of samples.
pub open spec fn pattern_fits(fmt: PixFmt, width: u32, height: u32) -> bool {
    &&& round_up(width as nat, 16) <= u32::MAX
    &&& round_up(height as nat, 16) <= u32::MAX
    &&& pattern_luma_stride(fmt, width) <= usize::MAX
    &&& pattern_luma_stride(fmt, width) * round_up(height as nat, 16) <= usize::MAX
    &&& fmt.depth() == BitDepth::Depth12 ==> width % 2 == 0
}

/// Makes the luma plane of the test pattern.
fn make_pattern_luma(fmt: &PixFmt, width: u32, height: u32) -> (plane: MyImagePlane)
    requires
        pattern_fits(*fmt, width, height),
    ensures
        is_pattern_luma(plane, *fmt, width, height),
{
    proof {
        lemma_round_up(width as nat, 16);
        lemma_round_up(height as nat, 16);
    }
    let stride_pixels: usize = next_multiple(width, 16) as usize;
    let alloc_rows: usize = next_multiple(height, 16) as usize;
    match fmt {
        PixFmt::Mono12 | PixFmt::Rgb12 => {
            // space for 12 bits per pixel
            let stride: usize = stride_pixels / 2 * 3;
            let image_row_mono12: Vec<u8> = make_ramp_row_12(width);
            let data: Vec<u8> = rule_plane(
                image_row_mono12.as_slice(),
                stride,
                height as usize,
                alloc_rows,
            );
            MyImagePlane { data, stride, bit_depth: BitDepth::Depth12 }
        },
        PixFmt::Mono8 | PixFmt::Rgb8 => {
            let stride: usize = stride_pixels;
            let image_row_mono8: Vec<u8> = make_ramp_row_8(width);
            let data: Vec<u8> = rule_plane(
                image_row_mono8.as_slice(),
                stride,
                height as usize,
                alloc_rows,
            );
            MyImagePlane { data, stride, bit_depth: BitDepth::Depth8 }
        },
    }
}

/// Makes a chroma plane of the test pattern.
fn make_pattern_chroma(fmt: &PixFmt, width: u32, height: u32) -> (plane: MyImagePlane)
    requires
        pattern_fits(*fmt, width, height),
    ensures
        is_pattern_chroma(plane, *fmt, width, height),
{
    proof {
        lemma_round_up(width as nat, 16);
        lemma_round_up(height as nat, 16);
        lemma_round_up((width / 2) as nat, 8);
        lemma_round_up((height / 2) as nat, 8);
    }
    let stride_pixels: usize = next_multiple(width / 2, 8) as usize;
    let alloc_rows: usize = next_multiple(height / 2, 8) as usize;
    match fmt {
        PixFmt::Mono12 | PixFmt::Rgb12 => {
            // space for 12 bits per pixel
            let stride: usize = stride_pixels / 2 * 3;
            let image_row_chroma12: Vec<u8> = make_neutral_row_12(width);
            let data: Vec<u8> = rule_plane(
                image_row_chroma12.as_slice(),
                stride,
                alloc_rows,
                alloc_rows,
            );
            MyImagePlane { data, stride, bit_depth: BitDepth::Depth12 }
        },
        PixFmt::Mono8 | PixFmt::Rgb8 => {
            let stride: usize = stride_pixels;
            let ghost luma_stride: nat = pattern_luma_stride(*fmt, width);
            let ghost luma_rows: nat = round_up(height as nat, 16);
            assert(stride * alloc_rows <= luma_stride * luma_rows) by (nonlinear_arith)
                requires
                    stride <= luma_stride,
                    alloc_rows <= luma_rows,
            ;
            let data: Vec<u8> = vec![128u8; stride * alloc_rows];
            assert(data@ =~= Seq::new((stride * alloc_rows) as nat, |i: int| 128u8));
            MyImagePlane { data, stride, bit_depth: BitDepth::Depth8 }
        },
    }
}

/// Generates the test pattern: a grey ramp from black on the left to white
/// on the right, with neutral chroma where the format has chroma.
pub fn generate_image(fmt: &PixFmt, width: u32, height: u32) -> (r: Result<MyYCbCrImage, Error>)
    requires
        pattern_fits(*fmt, width, height),
    ensures
        r matches Ok(image) && is_test_pattern(image, *fmt, width, height),
{
    let luma_plane: MyImagePlane = make_pattern_luma(fmt, width, height);
    let bit_depth: BitDepth = luma_plane.bit_depth;
    match fmt {
        PixFmt::Mono8 | PixFmt::Mono12 => MyYCbCrImage::new_bit_depth(
            MyPlanes::Mono(luma_plane),
            width,
            height,
            bit_depth,
        ),
        PixFmt::Rgb8 | PixFmt::Rgb12 => {
            let chroma_plane: MyImagePlane = make_pattern_chroma(fmt, width, height);
            MyYCbCrImage::new_bit_depth(
                MyPlanes::YCbCr((luma_plane, chroma_plane.clone(), chroma_plane)),
                width,
                height,
                bit_depth,
            )
        },
    }
}

} // verus!
