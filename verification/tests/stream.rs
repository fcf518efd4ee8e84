//! Streams are read back here by a reader of `I_PCM` pictures that stands on
//! the parsers of h264_reader, and the samples it finds are held against the
//! images that went in.

use h264_reader::nal::pps::PicParameterSet;
use h264_reader::nal::slice::SliceHeader;
use h264_reader::nal::sps::{ChromaFormat, SeqParameterSet};
use h264_reader::nal::{Nal, RefNal, UnitType};
use h264_reader::rbsp::BitRead;
use h264_reader::Context;
use less_avc::encoder::LessEncoder;
use less_avc::nal_unit::NalUnit;
use less_avc::testbench::{generate_image, MyImagePlane, MyPlanes, MyYCbCrImage, PixFmt};
use less_avc::ycbcr_image::{DataPlane, Planes, YCbCrImage};
use less_avc::{BitDepth, Error, H264Writer};
use openh264::formats::YUVSource;

const WIDTHS: &[u32] = &[14, 16, 638, 640];
const HEIGHTS: &[u32] = &[14, 16, 478, 480];

/// A picture as it comes out of a stream: the samples of each plane within
/// the cropping window, row by row.
struct Picture {
    width: u32,
    height: u32,
    bit_depth: u8,
    planes: Vec<Vec<u16>>,
}

/// The NAL units of a byte stream, without their start codes.
fn split_annex_b(stream: &[u8]) -> Vec<&[u8]> {
    let mut starts = vec![];
    let mut i = 0;
    while i + 4 <= stream.len() {
        if stream[i..i + 4] == [0, 0, 0, 1] {
            starts.push(i);
            i += 4;
        } else {
            i += 1;
        }
    }
    assert_eq!(starts.first(), Some(&0), "a stream begins with a start code");
    let mut units = vec![];
    for (k, start) in starts.iter().enumerate() {
        let end = if k + 1 < starts.len() {
            starts[k + 1]
        } else {
            stream.len()
        };
        units.push(&stream[start + 4..end]);
    }
    units
}

/// Parses a sequence parameter set. The parser holds the size of the
/// picture against the level, and the encoder writes level 1.0 for every
/// size; so the level is seen to be 1.0 and then raised for the parser.
fn parse_sps(unit: &[u8]) -> SeqParameterSet {
    assert_eq!(unit[0], 0x67);
    assert_eq!(unit[2], 0x00);
    assert_eq!(unit[3], 10);
    let mut relaxed = unit.to_vec();
    relaxed[3] = 62;
    let mut sps = SeqParameterSet::from_bits(RefNal::new(&relaxed, &[], true).rbsp_bits()).unwrap();
    sps.level_idc = 10;
    sps
}

/// Reads the pictures out of a byte stream.
fn decode_stream(stream: &[u8]) -> Vec<Picture> {
    let mut ctx = Context::default();
    let mut pictures = vec![];
    for unit in split_annex_b(stream) {
        let nal = RefNal::new(unit, &[], true);
        let header = nal.header().unwrap();
        match header.nal_unit_type() {
            UnitType::SeqParameterSet => {
                assert_eq!(header.nal_ref_idc(), 3);
                ctx.put_seq_param_set(parse_sps(unit));
            }
            UnitType::PicParameterSet => {
                assert_eq!(header.nal_ref_idc(), 3);
                let pps = PicParameterSet::from_bits(&ctx, nal.rbsp_bits()).unwrap();
                ctx.put_pic_param_set(pps);
            }
            UnitType::SliceLayerWithoutPartitioningIdr => {
                assert_eq!(header.nal_ref_idc(), 1);
                pictures.push(decode_slice(&ctx, &nal));
            }
            UnitType::SEI => {
                assert_eq!(header.nal_ref_idc(), 0);
            }
            other => panic!("unexpected NAL unit {other:?}"),
        }
    }
    pictures
}

/// Reads one IDR slice of `I_PCM` macroblocks.
fn decode_slice(ctx: &Context, nal: &RefNal<'_>) -> Picture {
    let mut r = nal.rbsp_bits();
    let (slice_header, sps, _pps) =
        SliceHeader::from_bits(ctx, &mut r, nal.header().unwrap(), None).unwrap();
    assert_eq!(slice_header.first_mb_in_slice, 0);
    assert_eq!(slice_header.slice_qp_delta, 0);

    let mbs_width = sps.pic_width_in_mbs_minus1 as usize + 1;
    let mbs_height = sps.pic_height_in_map_units_minus1 as usize + 1;
    let bit_depth = sps.chroma_info.bit_depth_luma_minus8 + 8;
    assert_eq!(sps.chroma_info.bit_depth_chroma_minus8 + 8, bit_depth);
    let chroma = match sps.chroma_info.chroma_format {
        ChromaFormat::Monochrome => false,
        ChromaFormat::YUV420 => true,
        other => panic!("unexpected chroma format {other:?}"),
    };

    let luma_stride = mbs_width * 16;
    let chroma_stride = mbs_width * 8;
    let mut luma = vec![0u16; luma_stride * mbs_height * 16];
    let mut cb = vec![0u16; chroma_stride * mbs_height * 8];
    let mut cr = vec![0u16; chroma_stride * mbs_height * 8];
    for mb in 0..mbs_width * mbs_height {
        let (mb_row, mb_col) = (mb / mbs_width, mb % mbs_width);
        let mb_type = r.read_ue("mb_type").unwrap();
        assert_eq!(mb_type, 25, "every macroblock is I_PCM");
        while !r.byte_aligned() {
            assert!(!r.read_bit("pcm_alignment_zero_bit").unwrap());
        }
        for i in 0..256 {
            let sample: u16 = r.read_var(bit_depth as u32, "pcm_sample_luma").unwrap();
            luma[(mb_row * 16 + i / 16) * luma_stride + mb_col * 16 + i % 16] = sample;
        }
        if chroma {
            for plane in [&mut cb, &mut cr] {
                for i in 0..64 {
                    let sample: u16 = r.read_var(bit_depth as u32, "pcm_sample_chroma").unwrap();
                    plane[(mb_row * 8 + i / 8) * chroma_stride + mb_col * 8 + i % 8] = sample;
                }
            }
        }
    }
    r.finish_rbsp().unwrap();

    let (width, height) = sps.pixel_dimensions().unwrap();
    let crop = |plane: &[u16], stride: usize, w: usize, h: usize| -> Vec<u16> {
        let mut out = vec![];
        for row in 0..h {
            out.extend_from_slice(&plane[row * stride..row * stride + w]);
        }
        out
    };
    let mut planes = vec![crop(&luma, luma_stride, width as usize, height as usize)];
    if chroma {
        let (w, h) = (width as usize / 2, height as usize / 2);
        planes.push(crop(&cb, chroma_stride, w, h));
        planes.push(crop(&cr, chroma_stride, w, h));
    }
    Picture {
        width,
        height,
        bit_depth,
        planes,
    }
}

/// The samples of a plane within `width` by `height`, row by row.
fn samples_of(plane: &MyImagePlane, width: usize, height: usize) -> Vec<u16> {
    let mut out = vec![];
    for row in 0..height {
        let bytes = &plane.data[row * plane.stride..(row + 1) * plane.stride];
        for col in 0..width {
            let sample = match plane.bit_depth {
                BitDepth::Depth8 => bytes[col] as u16,
                BitDepth::Depth12 => {
                    let b = &bytes[col / 2 * 3..col / 2 * 3 + 3];
                    if col % 2 == 0 {
                        ((b[0] as u16) << 4) | ((b[1] as u16) >> 4)
                    } else {
                        (((b[1] & 0x0F) as u16) << 8) | (b[2] as u16)
                    }
                }
            };
            out.push(sample);
        }
    }
    out
}

/// Holds a picture that came out of a stream against the image that went in.
fn assert_same_picture(picture: &Picture, image: &MyYCbCrImage) {
    assert_eq!((picture.width, picture.height), (image.width, image.height));
    assert_eq!(picture.bit_depth, image.bit_depth.num_bits());
    let planes: Vec<&MyImagePlane> = image.planes.iter().collect();
    assert_eq!(picture.planes.len(), planes.len());
    let (w, h) = (image.width as usize, image.height as usize);
    assert_eq!(picture.planes[0], samples_of(planes[0], w, h));
    for (decoded, plane) in picture.planes[1..].iter().zip(&planes[1..]) {
        assert_eq!(decoded, &samples_of(plane, w / 2, h / 2));
    }
}

/// Whether the pictures of an image of this size fit the machine, as the
/// encoder asks.
fn check_encodable(image: &MyYCbCrImage) {
    assert!(image.width >= 1 && image.height >= 1);
    let mbs = (image.width as u128).div_ceil(16) * (image.height as u128).div_ceil(16);
    assert!(3 * (4 + mbs * 578 + 1) + 6 <= usize::MAX as u128);
}

/// Writes one image as a stream of its own.
fn write_stream(image: &MyYCbCrImage) -> Result<Vec<u8>, Error> {
    check_encodable(image);
    let mut writer = H264Writer::new(vec![])?;
    let frame = image.view();
    writer.write(&frame)?;
    Ok(writer.into_inner())
}

/// Writes the test pattern of each size and reads it back.
fn check_roundtrip(pixfmt: PixFmt, widths: &[u32], heights: &[u32]) -> Result<(), Error> {
    for width in widths.iter() {
        for height in heights.iter() {
            println!("** {}x{} {}", width, height, pixfmt.as_str());
            let image = generate_image(&pixfmt, *width, *height)?;
            let stream = write_stream(&image)?;
            let pictures = decode_stream(&stream);
            assert_eq!(pictures.len(), 1);
            assert_same_picture(&pictures[0], &image);
        }
    }
    Ok(())
}

#[test]
fn test_roundtrip_ffmpeg_mono8_even_widths() {
    check_roundtrip(PixFmt::Mono8, WIDTHS, HEIGHTS).unwrap();
}

#[test]
fn test_roundtrip_ffmpeg_mono12_even_widths() {
    check_roundtrip(PixFmt::Mono12, WIDTHS, HEIGHTS).unwrap();
}

#[test]
fn test_roundtrip_ffmpeg_rgb8_even_widths() {
    check_roundtrip(PixFmt::Rgb8, WIDTHS, HEIGHTS).unwrap();
}

#[test]
fn test_roundtrip_ffmpeg_rgb12_div4_widths() {
    // Width must be divisible by 4 in this case.
    check_roundtrip(PixFmt::Rgb12, &[12, 16, 636, 640], HEIGHTS).unwrap();
}

#[test]
fn test_roundtrip_ffmpeg_rgb12_even_widths() {
    // Width must be divisible by 4 in this case.
    for width in WIDTHS.iter() {
        for height in HEIGHTS.iter() {
            let result = check_roundtrip(PixFmt::Rgb12, &[*width], &[*height]);
            if width % 4 == 0 {
                assert!(result.is_ok());
            } else {
                match result {
                    Err(Error::DataShapeProblem { msg: _ }) => {}
                    Err(other) => {
                        panic!("unexpected error {}", other.to_string());
                    }
                    Ok(()) => {
                        panic!("should return DataShapeProblem");
                    }
                }
            }
        }
    }
}

#[test]
fn test_roundtrip_ffmpeg_mono8_odd_widths() {
    let pixfmt = PixFmt::Mono8;
    let widths = [15];
    let heights = [14];
    check_roundtrip(pixfmt, &widths[..], &heights[..]).unwrap();
}

/// Mono8, 14x14: one macroblock, with cropping right=2 and bottom=2.
#[test]
fn test_stream_mono8_14x14() {
    let image = generate_image(&PixFmt::Mono8, 14, 14).unwrap();
    let stream = write_stream(&image).unwrap();
    let units = split_annex_b(&stream);
    assert_eq!(units.len(), 3);
    let sps = parse_sps(units[0]);
    assert_eq!(u8::from(sps.profile_idc), 100);
    assert_eq!(sps.level_idc, 10);
    assert_eq!(sps.chroma_info.chroma_format, ChromaFormat::Monochrome);
    assert_eq!(sps.chroma_info.bit_depth_luma_minus8, 0);
    assert_eq!(sps.pic_width_in_mbs_minus1, 0);
    assert_eq!(sps.pic_height_in_map_units_minus1, 0);
    let crop = sps.frame_cropping.as_ref().unwrap();
    assert_eq!(
        (crop.left_offset, crop.right_offset, crop.top_offset, crop.bottom_offset),
        (0, 2, 0, 2)
    );
    assert_eq!(sps.pixel_dimensions().unwrap(), (14, 14));
    // the parameter sets byte for byte
    assert_eq!(
        units[0],
        &[0x67, 0x64, 0x00, 0x0A, 0xF3, 0xDD, 0xBB, 0x9B, 0x01]
    );
    assert_eq!(units[1], &[0x68, 0xCE, 0x38, 0x80]);
    // the slice: header, 256 samples, stop byte; the zero bytes of the
    // padding are escaped in the unit
    assert_eq!(&units[2][..5], &[0x25, 0x88, 0x84, 0x28, 0x68]);
    let rbsp = h264_reader::rbsp::decode_nal(units[2]).unwrap();
    assert_eq!(rbsp.len(), 4 + 256 + 1);
    assert!(units[2].len() > 1 + rbsp.len());
    assert_eq!(rbsp[4..18], [0, 19, 39, 58, 78, 98, 117, 137, 156, 176, 196, 215, 235, 255]);
    assert_eq!(rbsp[18..20], [0, 0]);
    assert_eq!(rbsp[4 + 14 * 16..4 + 16 * 16], [0u8; 32]);
    assert_eq!(rbsp[rbsp.len() - 1], 0x80);
    let pictures = decode_stream(&stream);
    assert_same_picture(&pictures[0], &image);
}

/// Mono8, 640x480: no cropping.
#[test]
fn test_stream_mono8_640x480() {
    let image = generate_image(&PixFmt::Mono8, 640, 480).unwrap();
    let stream = write_stream(&image).unwrap();
    let units = split_annex_b(&stream);
    let sps = parse_sps(units[0]);
    assert_eq!(sps.pic_width_in_mbs_minus1, 39);
    assert_eq!(sps.pic_height_in_map_units_minus1, 29);
    assert!(sps.frame_cropping.is_none());
    assert_eq!(sps.pixel_dimensions().unwrap(), (640, 480));
    let vui = sps.vui_parameters.as_ref().unwrap();
    let signal = vui.video_signal_type.as_ref().unwrap();
    assert!(signal.video_full_range_flag);
    let pictures = decode_stream(&stream);
    assert_same_picture(&pictures[0], &image);
}

/// Mono12, 16x16: no cropping, luma rows of 24 bytes.
#[test]
fn test_stream_mono12_16x16() {
    let image = generate_image(&PixFmt::Mono12, 16, 16).unwrap();
    let frame = image.view();
    let (units, _) = LessEncoder::new(&frame).unwrap();
    let slice = units.frame.to_nal_unit();
    let sps_bytes = units.sps.to_nal_unit();
    let sps = parse_sps(&sps_bytes);
    assert_eq!(u8::from(sps.profile_idc), 244);
    assert_eq!(sps.chroma_info.chroma_format, ChromaFormat::Monochrome);
    assert_eq!(sps.chroma_info.bit_depth_luma_minus8, 4);
    assert_eq!(sps.chroma_info.bit_depth_chroma_minus8, 4);
    assert!(sps.frame_cropping.is_none());
    assert_eq!(sps.pixel_dimensions().unwrap(), (16, 16));
    let plane = match &image.planes {
        MyPlanes::Mono(plane) => plane,
        MyPlanes::YCbCr(_) => panic!("chroma in a monochrome image"),
    };
    assert_eq!(plane.stride, 24);
    let stream = write_stream(&image).unwrap();
    let pictures = decode_stream(&stream);
    assert_eq!(pictures[0].bit_depth, 12);
    assert_same_picture(&pictures[0], &image);
    // the slice: header, 16 rows of 24 bytes, stop byte
    let rbsp = h264_reader::rbsp::decode_nal(&slice).unwrap();
    assert_eq!(rbsp.len(), 4 + 16 * 24 + 1);
    assert_eq!(rbsp[4..4 + 24], plane.data[..24]);
    assert_eq!(rbsp[4 + 15 * 24..4 + 16 * 24], plane.data[15 * 24..16 * 24]);
}

/// 4:2:0 at 8 bits, 638x478: cropping right=1 and bottom=1 in chroma units.
#[test]
fn test_stream_rgb8_638x478() {
    let image = generate_image(&PixFmt::Rgb8, 638, 478).unwrap();
    let stream = write_stream(&image).unwrap();
    let units = split_annex_b(&stream);
    let sps = parse_sps(units[0]);
    assert_eq!(u8::from(sps.profile_idc), 66);
    assert_eq!(sps.chroma_info.chroma_format, ChromaFormat::YUV420);
    let crop = sps.frame_cropping.as_ref().unwrap();
    assert_eq!(
        (crop.left_offset, crop.right_offset, crop.top_offset, crop.bottom_offset),
        (0, 1, 0, 1)
    );
    assert_eq!(sps.pixel_dimensions().unwrap(), (638, 478));
    let pictures = decode_stream(&stream);
    assert_same_picture(&pictures[0], &image);
}

/// 4:2:0 at 12 bits, 640x480.
#[test]
fn test_stream_rgb12_640x480() {
    let image = generate_image(&PixFmt::Rgb12, 640, 480).unwrap();
    let stream = write_stream(&image).unwrap();
    let units = split_annex_b(&stream);
    let sps = parse_sps(units[0]);
    assert_eq!(u8::from(sps.profile_idc), 244);
    assert_eq!(sps.chroma_info.chroma_format, ChromaFormat::YUV420);
    assert_eq!(sps.chroma_info.bit_depth_luma_minus8, 4);
    assert!(sps.frame_cropping.is_none());
    let pictures = decode_stream(&stream);
    assert_eq!(pictures[0].planes.len(), 3);
    assert_same_picture(&pictures[0], &image);
    assert!(pictures[0].planes[1].iter().all(|s| *s == 0x800));
}

/// 4:2:0 at 12 bits with a width of 14 is refused.
#[test]
fn test_stream_rgb12_width_14() {
    let image = generate_image(&PixFmt::Rgb12, 14, 16).unwrap();
    let frame = image.view();
    match LessEncoder::new(&frame) {
        Err(Error::DataShapeProblem { msg }) => {
            assert_eq!(msg, "for bit depth 12 color, width must be divisible by 4")
        }
        _ => panic!("should return DataShapeProblem"),
    }
    let mut writer = H264Writer::new(vec![1, 2, 3]).unwrap();
    match writer.write(&frame) {
        Err(Error::DataShapeProblem { msg }) => assert_eq!(
            Error::DataShapeProblem { msg }.to_string(),
            "Image data shape is problematic: for bit depth 12 color, width must be divisible by 4"
        ),
        _ => panic!("should return DataShapeProblem"),
    }
    // nothing was written, and the writer still holds its stream
    assert!(matches!(
        writer.write(&frame),
        Err(Error::DataShapeProblem { .. })
    ));
    assert_eq!(writer.into_inner(), vec![1, 2, 3]);
}

/// A picture made of arbitrary samples, full of zero bytes, comes back.
#[test]
fn test_roundtrip_noise_and_zeros() {
    let (width, height) = (40u32, 24u32);
    let mut state = 0x2545F491u32;
    let mut next = move || {
        state ^= state << 13;
        state ^= state >> 17;
        state ^= state << 5;
        // many zero bytes and small values, to stir the escapes
        match state % 4 {
            0 => 0u8,
            1 => (state >> 8) as u8 % 4,
            _ => (state >> 16) as u8,
        }
    };
    let make = |stride: usize, rows: usize, next: &mut dyn FnMut() -> u8| {
        let data: Vec<u8> = (0..stride * rows).map(|_| next()).collect();
        MyImagePlane::new(data, stride).unwrap()
    };
    let y = make(48, 32, &mut next);
    let cb = make(24, 16, &mut next);
    let cr = make(24, 16, &mut next);
    let image = MyYCbCrImage::new(MyPlanes::YCbCr((y, cb, cr)), width, height).unwrap();
    let stream = write_stream(&image).unwrap();
    let pictures = decode_stream(&stream);
    assert_same_picture(&pictures[0], &image);

    // openh264 reads the same samples
    let mut decoder = openh264::decoder::Decoder::new().unwrap();
    let decoded = decoder.decode(&stream).unwrap().unwrap();
    let (ys, us, vs) = decoded.strides();
    let planes: Vec<&MyImagePlane> = image.planes.iter().collect();
    for row in 0..height as usize {
        assert_eq!(
            decoded.y()[row * ys..row * ys + width as usize],
            planes[0].data[row * 48..row * 48 + width as usize]
        );
    }
    for row in 0..height as usize / 2 {
        let w = width as usize / 2;
        assert_eq!(
            decoded.u()[row * us..row * us + w],
            planes[1].data[row * 24..row * 24 + w]
        );
        assert_eq!(
            decoded.v()[row * vs..row * vs + w],
            planes[2].data[row * 24..row * 24 + w]
        );
    }
}

/// Frames after the first add one slice each, and the encoder reserves
/// exactly what a slice takes.
#[test]
fn test_later_frames() {
    let first = generate_image(&PixFmt::Rgb8, 30, 18).unwrap();
    let mut second = first.clone();
    if let MyPlanes::YCbCr((y, cb, _)) = &mut second.planes {
        y.data.iter_mut().for_each(|b| *b = 255 - *b);
        cb.data.iter_mut().for_each(|b| *b = 7);
    }
    check_encodable(&first);
    let mut writer = H264Writer::new(vec![]).unwrap();
    writer.write(&first.view()).unwrap();
    writer.write(&second.view()).unwrap();
    writer.write(&first.view()).unwrap();
    let stream = writer.into_inner();
    let units = split_annex_b(&stream);
    let types: Vec<u8> = units.iter().map(|u| u[0]).collect();
    assert_eq!(types, vec![0x67, 0x68, 0x25, 0x25, 0x25]);
    let pictures = decode_stream(&stream);
    assert_eq!(pictures.len(), 3);
    assert_same_picture(&pictures[0], &first);
    assert_same_picture(&pictures[1], &second);
    assert_same_picture(&pictures[2], &first);

    let (units, mut encoder) = LessEncoder::new(&first.view()).unwrap();
    let again: NalUnit = encoder.encode(&first.view()).unwrap();
    assert_eq!(units.frame.to_annex_b_data(), again.to_annex_b_data());
    // 2 by 2 macroblocks of 384 bytes, three macroblock headers, a stop
    // byte, behind a slice header of four bytes: no byte is escaped here
    let mono = generate_image(&PixFmt::Mono8, 32, 32).unwrap();
    let (units, _) = LessEncoder::new(&mono.view()).unwrap();
    assert_eq!(units.frame.to_nal_unit().len(), 1 + 4 + 4 * 256 + 3 * 2 + 1);
}

/// What is wrong with the planes is told by the first plane that is wrong.
#[test]
fn test_plane_sizes() {
    let plane = |len: usize, stride: usize, data: &'static [u8]| DataPlane {
        data: &data[..len],
        stride,
        bit_depth: BitDepth::Depth8,
    };
    static ZEROS: [u8; 1024] = [0; 1024];
    let problem = |frame: &YCbCrImage| match frame.check_sizes() {
        Ok(()) => None,
        Err(Error::DataShapeProblem { msg }) => Some(msg),
        Err(other) => panic!("unexpected error {}", other.to_string()),
    };

    let frame = |y, cb, cr, width, height| YCbCrImage {
        planes: Planes::YCbCr((y, cb, cr)),
        width,
        height,
    };
    let good = frame(plane(512, 32, &ZEROS), plane(128, 16, &ZEROS), plane(128, 16, &ZEROS), 18, 10);
    assert_eq!(problem(&good), None);
    let narrow = frame(plane(512, 31, &ZEROS), plane(128, 16, &ZEROS), plane(128, 16, &ZEROS), 18, 10);
    assert_eq!(problem(&narrow), Some("stride too small"));
    let short = frame(plane(511, 32, &ZEROS), plane(128, 16, &ZEROS), plane(128, 16, &ZEROS), 18, 10);
    assert_eq!(problem(&short), Some("number of rows too small"));
    let narrow_cb = frame(plane(512, 32, &ZEROS), plane(128, 15, &ZEROS), plane(0, 1, &ZEROS), 18, 10);
    assert_eq!(problem(&narrow_cb), Some("stride too small"));
    let short_cr = frame(plane(512, 32, &ZEROS), plane(128, 16, &ZEROS), plane(127, 16, &ZEROS), 18, 10);
    assert_eq!(problem(&short_cr), Some("number of rows too small"));

    let twelve = DataPlane {
        data: &ZEROS[..24 * 16],
        stride: 24,
        bit_depth: BitDepth::Depth12,
    };
    assert!(twelve.check_sizes(16, 16, 16).is_ok());
    assert!(twelve.check_sizes(17, 16, 16).is_err());
    let twelve = DataPlane {
        data: &ZEROS[..23 * 16],
        stride: 23,
        bit_depth: BitDepth::Depth12,
    };
    assert!(twelve.check_sizes(16, 16, 16).is_err());

    let mono = YCbCrImage {
        planes: Planes::Mono(plane(256, 16, &ZEROS)),
        width: 15,
        height: 16,
    };
    assert_eq!(problem(&mono), None);
    assert_eq!(mono.luma_bit_depth(), BitDepth::Depth8);
}

/// Each way in which an encoder refuses an image.
#[test]
fn test_rejections() {
    let refusal = |image: &MyYCbCrImage| match LessEncoder::new(&image.view()) {
        Ok(_) => panic!("the image should be refused"),
        Err(e) => e,
    };
    // odd width with chroma at 8 bits
    let mut image = generate_image(&PixFmt::Rgb8, 16, 16).unwrap();
    image.width = 15;
    assert_eq!(
        refusal(&image).to_string(),
        "Image data shape is problematic: width must be divisible by 2 (except mono8)"
    );
    // odd width without chroma at 12 bits
    let mut image = generate_image(&PixFmt::Mono12, 16, 16).unwrap();
    image.width = 15;
    assert!(matches!(
        refusal(&image),
        Error::DataShapeProblem {
            msg: "width must be divisible by 2 (except mono8)"
        }
    ));
    // a width of 4k + 2, or an odd one, with chroma at 12 bits
    for width in [14, 15] {
        let mut image = generate_image(&PixFmt::Rgb12, 16, 16).unwrap();
        image.width = width;
        assert!(matches!(
            refusal(&image),
            Error::DataShapeProblem {
                msg: "for bit depth 12 color, width must be divisible by 4"
            }
        ));
    }
    // odd height with chroma
    for fmt in [PixFmt::Rgb8, PixFmt::Rgb12] {
        let mut image = generate_image(&fmt, 16, 16).unwrap();
        image.height = 15;
        let e = refusal(&image);
        assert!(matches!(e, Error::UnsupportedImageSize {}));
        assert_eq!(
            e.to_string(),
            "unsupported image size: even width and height required"
        );
    }
    // odd height without chroma is in order
    let mut image = generate_image(&PixFmt::Mono12, 16, 16).unwrap();
    image.height = 15;
    assert!(LessEncoder::new(&image.view()).is_ok());
    // planes too small
    let mut image = generate_image(&PixFmt::Mono8, 16, 16).unwrap();
    image.width = 17;
    assert!(matches!(
        refusal(&image),
        Error::DataShapeProblem {
            msg: "stride too small"
        }
    ));
    let mut image = generate_image(&PixFmt::Mono8, 16, 16).unwrap();
    image.height = 17;
    assert!(matches!(
        refusal(&image),
        Error::DataShapeProblem {
            msg: "number of rows too small"
        }
    ));
    // the later frame of an encoder is refused for its planes alone
    let image = generate_image(&PixFmt::Mono8, 16, 16).unwrap();
    let (_, mut encoder) = LessEncoder::new(&image.view()).unwrap();
    let mut small = image.clone();
    if let MyPlanes::Mono(plane) = &mut small.planes {
        plane.data.truncate(255);
    }
    assert!(matches!(
        encoder.encode(&small.view()),
        Err(Error::DataShapeProblem {
            msg: "number of rows too small"
        })
    ));
    assert!(encoder.encode(&image.view()).is_ok());
}
