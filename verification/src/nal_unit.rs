//! Network Abstraction Layer (NAL) encoding

use crate::ebsp::{
    ebsp_encode, escape_from, lemma_escape_at_zero, lemma_escape_len, lemma_escape_plain,
};
use crate::rbsp::RbspData;
use vstd::prelude::*;

verus! {

/// `memchr::memchr`: the index of the first byte of `haystack` that equals
/// `needle`, or `None` where no byte does.
pub assume_specification[ memchr::memchr ](needle: u8, haystack: &[u8]) -> (found: Option<usize>)
    ensures
        match found {
            Some(i) => {
                &&& i < haystack@.len()
                &&& haystack@[i as int] == needle
                &&& forall|j: int| 0 <= j < i ==> haystack@[j] != needle
            },
            None => forall|j: int| 0 <= j < haystack@.len() ==> haystack@[j] != needle,
        },
;

/// Possible values for the `nal_ref_idc` field in the `nal_unit`.
///
/// Encodes to 2 bits.
#[derive(Debug, PartialEq, Eq, Clone, Copy, Structural)]
pub enum NalRefIdc {
    Zero,
    One,
    Two,
    Three,
}

impl NalRefIdc {
    /// The number that is written for the field.
    pub open spec fn value(self) -> u8 {
        match self {
            NalRefIdc::Zero => 0,
            NalRefIdc::One => 1,
            NalRefIdc::Two => 2,
            NalRefIdc::Three => 3,
        }
    }

    /// The number that is written for the field.
    pub fn nal_ref_idc(&self) -> (n: u8)
        ensures
            n == self.value(),
    {
        match self {
            Self::Zero => 0,
            Self::One => 1,
            Self::Two => 2,
            Self::Three => 3,
        }
    }
}

/// Possible values for the `nal_unit_type` field in `nal_unit`.
///
/// Encodes to 5 bits.
#[derive(Debug, PartialEq, Eq, Clone, Copy, Structural)]
#[non_exhaustive]
pub enum NalUnitType {
    /// Unspecified
    Unspecified,
    /// Coded slice of a non-IDR picture
    CodedSliceOfANonIDRPicture,
    /// Coded slice data partition A
    CodedSliceDataPartitionA,
    /// Coded slice data partition B
    CodedSliceDataPartitionB,
    /// Coded slice data partition C
    CodedSliceDataPartitionC,
    /// Coded slice of an IDR picture
    CodedSliceOfAnIDRPicture,
    /// Supplemental enhancement information (SEI)
    SupplementalEnhancementInformation,
    /// Sequence parameter set
    SequenceParameterSet,
    /// Picture parameter set
    PictureParameterSet,
}

impl NalUnitType {
    /// The number that is written for the field.
    pub open spec fn value(self) -> u8 {
        match self {
            NalUnitType::Unspecified => 0,
            NalUnitType::CodedSliceOfANonIDRPicture => 1,
            NalUnitType::CodedSliceDataPartitionA => 2,
            NalUnitType::CodedSliceDataPartitionB => 3,
            NalUnitType::CodedSliceDataPartitionC => 4,
            NalUnitType::CodedSliceOfAnIDRPicture => 5,
            NalUnitType::SupplementalEnhancementInformation => 6,
            NalUnitType::SequenceParameterSet => 7,
            NalUnitType::PictureParameterSet => 8,
        }
    }

    /// The number that is written for the field.
    pub fn nal_unit_type(&self) -> (n: u8)
        ensures
            n == self.value(),
    {
        match self {
            Self::Unspecified => 0,
            Self::CodedSliceOfANonIDRPicture => 1,
            Self::CodedSliceDataPartitionA => 2,
            Self::CodedSliceDataPartitionB => 3,
            Self::CodedSliceDataPartitionC => 4,
            Self::CodedSliceOfAnIDRPicture => 5,
            Self::SupplementalEnhancementInformation => 6,
            Self::SequenceParameterSet => 7,
            Self::PictureParameterSet => 8,
        }
    }
}

/// The most bytes that the encapsulated form of a payload of `rbsp_size`
/// bytes is given room for: three for each byte, made even.
pub open spec fn max_nal_buf_size(rbsp_size: nat) -> nat {
    (rbsp_size * 3 + 1) / 2 * 2
}

/// Calculate the maximum possible NAL buffer size for a given RBSP size.
pub fn calc_max_nal_buf_size(rbsp_size: usize) -> (size: usize)
    requires
        rbsp_size * 3 + 1 <= usize::MAX,
    ensures
        size == max_nal_buf_size(rbsp_size as nat),
{
    (rbsp_size * 3 + 1) / 2 * 2
}

/// Returns true if byte is 0x00, 0x01, 0x02 or 0x03.
pub fn needs_protecting_in_pos3(byte: u8) -> (protect: bool)
    ensures
        protect == (byte <= 3),
{
    byte <= 0x03
}

/// Writes `src` into `dest` from index `at` on.
fn copy_into(dest: &mut [u8], at: usize, src: &[u8])
    requires
        at + src@.len() <= old(dest)@.len(),
    ensures
        final(dest)@.len() == old(dest)@.len(),
        final(dest)@.subrange(0, at as int) == old(dest)@.subrange(0, at as int),
        final(dest)@.subrange(at as int, at + src@.len()) == src@,
        final(dest)@.subrange(at + src@.len(), old(dest)@.len() as int) == old(dest)@.subrange(
            at + src@.len(),
            old(dest)@.len() as int,
        ),
{
    let n: usize = src.len();
    let mut i: usize = 0;
    while i < n
        invariant
            i <= n,
            n == src@.len(),
            at + n <= dest.len(),
            dest@.len() == old(dest)@.len(),
            forall|j: int| 0 <= j < at ==> dest@[j] == old(dest)@[j],
            forall|j: int| 0 <= j < i ==> dest@[at + j] == src@[j],
            forall|j: int| at + i <= j < dest@.len() ==> dest@[j] == old(dest)@[j],
        decreases n - i,
    {
        dest[at + i] = src[i];
        i += 1;
    }
}

/// Writes the front part of `input` up to `upto` to `nal_buf` at `dest_len`,
/// and then, where `escape` is set, the escape byte.
fn emit(nal_buf: &mut [u8], dest_len: usize, input: &[u8], upto: usize, escape: bool) -> (next: usize)
    requires
        upto <= input@.len(),
        dest_len + upto + (if escape {
            1nat
        } else {
            0nat
        }) <= old(nal_buf)@.len(),
    ensures
        next == dest_len + upto + (if escape {
            1nat
        } else {
            0nat
        }),
        final(nal_buf)@.len() == old(nal_buf)@.len(),
        final(nal_buf)@.subrange(0, next as int) == old(nal_buf)@.subrange(0, dest_len as int)
            + input@.subrange(0, upto as int) + (if escape {
            seq![3u8]
        } else {
            Seq::<u8>::empty()
        }),
        final(nal_buf)@.subrange(next as int, old(nal_buf)@.len() as int) == old(
            nal_buf,
        )@.subrange(next as int, old(nal_buf)@.len() as int),
{
    let ghost before: Seq<u8> = nal_buf@;
    assert(nal_buf.len() == before.len());
    let src: &[u8] = &input[0..upto];
    copy_into(nal_buf, dest_len, src);
    let ghost copied: Seq<u8> = nal_buf@;
    let mut next: usize = dest_len + src.len();
    if escape {
        nal_buf[next] = 0x03;
        next += 1;
        assert(nal_buf@.subrange(next as int, before.len() as int) =~= copied.subrange(
            dest_len + upto,
            before.len() as int,
        ).subrange(1, before.len() - dest_len - upto));
    }
    next
}

/// Convert Raw byte sequence payload (RBSP) data to Encapsulated Byte Sequence
/// Payload (EBSP) bytes.
///
/// The bytes are written to the front of `nal_buf`, which must have room for
/// the payload and half as much again: no payload takes more. What
/// [calc_max_nal_buf_size] gives is enough. The rest of `nal_buf` stays as
/// it is. Returns the number of bytes written.
pub fn rbsp_to_ebsp(rbsp_buf: &[u8], nal_buf: &mut [u8]) -> (dest_len: usize)
    requires
        old(nal_buf)@.len() >= rbsp_buf@.len() + rbsp_buf@.len() / 2,
    ensures
        dest_len == ebsp_encode(rbsp_buf@).len(),
        final(nal_buf)@.len() == old(nal_buf)@.len(),
        final(nal_buf)@.subrange(0, dest_len as int) == ebsp_encode(rbsp_buf@),
        final(nal_buf)@.subrange(dest_len as int, old(nal_buf)@.len() as int) == old(
            nal_buf,
        )@.subrange(dest_len as int, old(nal_buf)@.len() as int),
{
    let ghost full: Seq<u8> = ebsp_encode(rbsp_buf@);
    let ghost cap: int = nal_buf@.len() as int;
    proof {
        lemma_escape_len(rbsp_buf@, 0);
    }
    let mut dest_len: usize = 0;
    let mut input_buf: &[u8] = rbsp_buf;

    loop
        invariant
            nal_buf@.len() == cap,
            cap == old(nal_buf)@.len(),
            full.len() <= cap,
            dest_len <= cap,
            full == nal_buf@.subrange(0, dest_len as int) + escape_from(input_buf@, 0),
            nal_buf@.subrange(dest_len as int, cap) == old(nal_buf)@.subrange(dest_len as int, cap),
        ensures
            nal_buf@.len() == cap,
            cap == old(nal_buf)@.len(),
            full.len() <= cap,
            dest_len <= cap,
            full == nal_buf@.subrange(0, dest_len as int) + input_buf@,
            nal_buf@.subrange(dest_len as int, cap) == old(nal_buf)@.subrange(dest_len as int, cap),
        decreases input_buf@.len(),
    {
        let ghost s: Seq<u8> = input_buf@;
        let input_len: usize = input_buf.len();
        let found: Option<usize> = memchr::memchr(0x00, input_buf);
        let first_idx: usize = match found {
            Some(first_idx) => first_idx,
            None => {
                proof {
                    lemma_escape_plain(s);
                }
                break ;
            },
        };
        proof {
            lemma_escape_at_zero(s, first_idx as int);
        }
        if first_idx + 1 >= input_len {
            // no more input
            break ;
        }
        let upto: usize;
        let escape: bool;
        if input_buf[first_idx + 1] == 0x00 {
            // two nulls in a row
            if first_idx + 2 >= input_len {
                // no more input
                break ;
            }
            let pos3: u8 = input_buf[first_idx + 2];
            upto = first_idx + 2;
            escape = needs_protecting_in_pos3(pos3);
        } else {
            // next index is not null, use input up to and including null
            upto = first_idx + 1;
            escape = false;
        }
        let ghost prev: Seq<u8> = nal_buf@;
        let next: usize = emit(nal_buf, dest_len, input_buf, upto, escape);
        assert(nal_buf@.subrange(next as int, cap) =~= old(nal_buf)@.subrange(next as int, cap)) by {
            assert(prev.subrange(next as int, cap) =~= prev.subrange(dest_len as int, cap).subrange(
                next - dest_len,
                cap - dest_len,
            ));
        }
        dest_len = next;
        input_buf = &input_buf[upto..input_len];
    }

    if !input_buf.is_empty() {
        let ghost prev: Seq<u8> = nal_buf@;
        let ghost at: int = dest_len as int;
        let rest_len: usize = input_buf.len();
        let next: usize = emit(nal_buf, dest_len, input_buf, rest_len, false);
        assert(nal_buf@.subrange(next as int, cap) =~= old(nal_buf)@.subrange(next as int, cap)) by {
            assert(prev.subrange(next as int, cap) =~= prev.subrange(at, cap).subrange(
                next - at,
                cap - at,
            ));
        }
        dest_len = next;
    }
    dest_len
}

/// The first byte of a NAL unit: a zero bit, `nal_ref_idc` in two bits and
/// the type of the unit in five.
pub open spec fn nal_header_byte(ref_idc: NalRefIdc, unit_type: NalUnitType) -> u8 {
    (ref_idc.value() * 32 + unit_type.value()) as u8
}

/// A NAL unit as bytes: the header byte and the encapsulated payload.
pub open spec fn nal_unit_bytes(ref_idc: NalRefIdc, unit_type: NalUnitType, rbsp: Seq<u8>) -> Seq<
    u8,
> {
    seq![nal_header_byte(ref_idc, unit_type)] + ebsp_encode(rbsp)
}

/// A NAL unit as it stands in a byte stream: the start code `00 00 00 01`
/// and the unit.
pub open spec fn annex_b_bytes(ref_idc: NalRefIdc, unit_type: NalUnitType, rbsp: Seq<u8>) -> Seq<
    u8,
> {
    seq![0x00u8, 0x00u8, 0x00u8, 0x01u8] + nal_unit_bytes(ref_idc, unit_type, rbsp)
}

/// The header byte holds its three fields apart: the highest bit is clear,
/// the next two are `nal_ref_idc`, and the low five are the type of the unit.
pub proof fn lemma_nal_header_fields(ref_idc: NalRefIdc, unit_type: NalUnitType)
    ensures
        nal_header_byte(ref_idc, unit_type) < 128,
        nal_header_byte(ref_idc, unit_type) / 32 == ref_idc.value(),
        nal_header_byte(ref_idc, unit_type) % 32 == unit_type.value(),
{
}

/// No start code is seen inside a NAL unit whose header byte is not zero:
/// nowhere in it do two zero bytes stand before a byte below `03`. So the
/// start codes of a byte stream are those that were put between its units.
pub proof fn lemma_no_start_code_inside(
    ref_idc: NalRefIdc,
    unit_type: NalUnitType,
    rbsp: Seq<u8>,
)
    requires
        nal_header_byte(ref_idc, unit_type) != 0,
    ensures
        forall|i: int|
            0 <= i && i + 2 < nal_unit_bytes(ref_idc, unit_type, rbsp).len() ==> !(
            #[trigger] nal_unit_bytes(ref_idc, unit_type, rbsp)[i] == 0 && nal_unit_bytes(
                ref_idc,
                unit_type,
                rbsp,
            )[i + 1] == 0 && nal_unit_bytes(ref_idc, unit_type, rbsp)[i + 2] < 3),
{
    crate::ebsp::lemma_ebsp_round_trip(rbsp);
}

/// The start code that stands before a NAL unit in a byte stream.
pub const START_CODE: [u8; 4] = [0x00, 0x00, 0x00, 0x01];

/// Data to save a NAL unit
///
/// The data is in the raw byte sequence payload (RBSP) representation and gets
/// converted to a NAL unit by the [Self::to_annex_b_data] method.
pub struct NalUnit {
    ref_idc: NalRefIdc,
    unit_type: NalUnitType,
    rbsp_data: RbspData,
}

impl NalUnit {
    /// The `nal_ref_idc` of the unit.
    pub closed spec fn ref_idc(&self) -> NalRefIdc {
        self.ref_idc
    }

    /// The type of the unit.
    pub closed spec fn unit_type(&self) -> NalUnitType {
        self.unit_type
    }

    /// The raw payload of the unit.
    pub closed spec fn rbsp(&self) -> Seq<u8> {
        self.rbsp_data@
    }

    /// The unit as bytes: the header byte and the encapsulated payload.
    pub open spec fn nal_bytes(&self) -> Seq<u8> {
        nal_unit_bytes(self.ref_idc(), self.unit_type(), self.rbsp())
    }

    /// The unit as it stands in a byte stream: the start code and the unit.
    pub open spec fn annex_b_bytes(&self) -> Seq<u8> {
        annex_b_bytes(self.ref_idc(), self.unit_type(), self.rbsp())
    }

    /// Whether the buffer in which the unit is put together can be addressed.
    pub open spec fn fits(&self) -> bool {
        self.rbsp().len() * 3 + 6 <= usize::MAX
    }

    /// Tells whether the buffer in which the unit is put together can be
    /// addressed.
    pub fn is_framable(&self) -> (ok: bool)
        ensures
            ok == self.fits(),
    {
        self.rbsp_data.data.len() <= (usize::MAX - 6) / 3
    }

    /// Create new [NalUnit].
    pub fn new(ref_idc: NalRefIdc, unit_type: NalUnitType, rbsp_data: RbspData) -> (unit: Self)
        ensures
            unit.ref_idc() == ref_idc,
            unit.unit_type() == unit_type,
            unit.rbsp() == rbsp_data@,
    {
        Self { ref_idc, unit_type, rbsp_data }
    }

    /// The unit as bytes, after the start code where `with_frame` is set.
    fn to_buf(&self, with_frame: bool) -> (result: Vec<u8>)
        requires
            self.fits(),
        ensures
            result@ == (if with_frame {
                self.annex_b_bytes()
            } else {
                self.nal_bytes()
            }),
    {
        let idc: u8 = self.ref_idc.nal_ref_idc();
        let unit_type: u8 = self.unit_type.nal_unit_type();
        assert(0x00u8 | (idc << 5) | unit_type == idc * 32 + unit_type) by (bit_vector)
            requires
                idc <= 3,
                unit_type <= 8,
        ;
        // forbidden_zero_bit = 0
        let nal_byte: u8 = 0x00 | (idc << 5) | unit_type;

        let rbsp_size: usize = self.rbsp_data.data.len();
        let max_nal_buf_size: usize = calc_max_nal_buf_size(rbsp_size);

        let n_start: usize = if with_frame {
            5
        } else {
            1
        };
        let mut result: Vec<u8> = vec![0u8; n_start + max_nal_buf_size];
        if with_frame {
            copy_into(result.as_mut_slice(), 0, START_CODE.as_slice());
        }
        result[n_start - 1] = nal_byte;
        proof {
            lemma_escape_len(self.rbsp(), 0);
        }
        let (_, payload) = result.as_mut_slice().split_at_mut(n_start);
        let nal_buf_sz: usize = rbsp_to_ebsp(self.rbsp_data.data.as_slice(), payload);
        let final_sz: usize = n_start + nal_buf_sz;
        result.truncate(final_sz);
        result
    }

    /// Return a single "naked" NAL unit: the header byte and the
    /// encapsulated byte sequence payload (EBSP), without a start code.
    pub fn to_nal_unit(&self) -> (bytes: Vec<u8>)
        requires
            self.fits(),
        ensures
            bytes@ == self.nal_bytes(),
    {
        self.to_buf(false)
    }

    /// Return a single NAL unit encoded for direct saving to `.h264` file.
    pub fn to_annex_b_data(&self) -> (bytes: Vec<u8>)
        requires
            self.fits(),
        ensures
            bytes@ == self.annex_b_bytes(),
    {
        self.to_buf(true)
    }
}

/// The initial [NalUnit] returned when starting a [crate::LessEncoder].
pub struct InitialNalUnits {
    /// sequence parameter set NAL unit
    pub sps: NalUnit,
    /// picture parameter set NAL unit
    pub pps: NalUnit,
    /// frame NAL unit
    pub frame: NalUnit,
}

impl InitialNalUnits {
    /// Return an [Iterator] over the NAL units made at the start of
    /// encoding: the sequence parameter set, the picture parameter set and
    /// the first frame, in this order.
    pub fn into_iter(self) -> (iter: std::vec::IntoIter<NalUnit>)
        ensures
            vstd::std_specs::iter::IteratorSpec::remaining(&iter) == seq![
                self.sps,
                self.pps,
                self.frame,
            ],
    {
        let mut units: Vec<NalUnit> = Vec::new();
        units.push(self.sps);
        units.push(self.pps);
        units.push(self.frame);
        units.into_iter()
    }
}

} // verus!
