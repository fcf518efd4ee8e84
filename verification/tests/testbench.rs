use less_avc::testbench::{
    generate_image, pack_to_12be, unpack12be_to_16le, unpack_12be, MyImagePlane, MyPlanes,
    MyYCbCrImage, PixFmt,
};
use less_avc::util::{div_ceil, next_multiple};
use less_avc::ycbcr_image::Planes;
use less_avc::BitDepth;

fn check_pack_12be(orig: [u16; 2]) {
    let packed = pack_to_12be(&orig);
    let unpacked = unpack_12be(&packed);
    assert_eq!(orig, unpacked);
}

#[test]
fn test_pack_12be() {
    check_pack_12be([0x0123, 0x0FFF]);
    check_pack_12be([0x0FFF, 0x0123]);
    check_pack_12be([0x0000, 0x0FFF]);
    check_pack_12be([0x0FFF, 0x0000]);
}

#[test]
fn test_pack_12be_bytes() {
    assert_eq!(pack_to_12be(&[0x0123, 0x0456]), [0x12, 0x34, 0x56]);
    assert_eq!(pack_to_12be(&[0x0800, 0x0800]), [0x80, 0x08, 0x00]);
    assert_eq!(pack_to_12be(&[0x0FFF, 0x0000]), [0xFF, 0xF0, 0x00]);
    assert_eq!(unpack_12be(&[0x12, 0x34, 0x56]), [0x0123, 0x0456]);
    assert_eq!(unpack_12be(&[0xAB, 0xCD, 0xEF]), [0x0ABC, 0x0DEF]);
}

#[test]
fn test_pack_12be_all_pairs() {
    for v0 in (0..4096u16).step_by(7) {
        for v1 in (0..4096u16).step_by(13) {
            check_pack_12be([v0, v1]);
        }
    }
}

#[test]
fn test_unpack12be_to_16le() {
    assert_eq!(unpack12be_to_16le(&[]), Vec::<u8>::new());
    assert_eq!(unpack12be_to_16le(&[1, 2]), Vec::<u8>::new());
    assert_eq!(
        unpack12be_to_16le(&[0x12, 0x34, 0x56]),
        vec![0x23, 0x01, 0x56, 0x04]
    );
    // a fourth byte is no whole group
    assert_eq!(
        unpack12be_to_16le(&[0xAB, 0xCD, 0xEF, 0x99, 0x80, 0x08, 0x00]),
        vec![0xBC, 0x0A, 0xEF, 0x0D, 0x98, 0x09, 0x08, 0x00]
    );
}

#[test]
fn test_div_ceil() {
    assert_eq!(div_ceil(0, 16), 0);
    assert_eq!(div_ceil(1, 16), 1);
    assert_eq!(div_ceil(16, 16), 1);
    assert_eq!(div_ceil(17, 16), 2);
    assert_eq!(div_ceil(640, 16), 40);
    assert_eq!(div_ceil(7, 1), 7);
    assert_eq!(next_multiple(0, 16), 0);
    assert_eq!(next_multiple(7, 8), 8);
    assert_eq!(next_multiple(319, 8), 320);
    assert_eq!(next_multiple(0xFFFF_FFF0, 16), 0xFFFF_FFF0);
}

#[test]
fn test_pix_fmt_names() {
    assert_eq!(PixFmt::Mono8.as_str(), "mono8");
    assert_eq!(PixFmt::Mono12.as_str(), "mono12");
    assert_eq!(PixFmt::Rgb8.as_str(), "rgb8");
    assert_eq!(PixFmt::Rgb12.as_str(), "rgb12");
}

/// The ramp as floating point arithmetic gives it.
fn float_ramp(idx: u32, width: u32, max: f64) -> u16 {
    ((idx as f64) * max / (width - 1) as f64) as u16
}

#[test]
fn test_generate_image_mono8() {
    for (width, height) in [(14u32, 14u32), (15, 14), (16, 16), (1, 1), (2, 3), (640, 480)] {
        let image = generate_image(&PixFmt::Mono8, width, height).unwrap();
        assert_eq!((image.width, image.height), (width, height));
        assert_eq!(image.bit_depth, BitDepth::Depth8);
        let plane = match &image.planes {
            MyPlanes::Mono(plane) => plane,
            MyPlanes::YCbCr(_) => panic!("chroma in a monochrome image"),
        };
        let stride = (width as usize).div_ceil(16) * 16;
        let rows = (height as usize).div_ceil(16) * 16;
        assert_eq!(plane.stride, stride);
        assert_eq!(plane.bit_depth, BitDepth::Depth8);
        assert_eq!(plane.data.len(), stride * rows);
        for row in 0..rows {
            for col in 0..stride {
                let expected = if row < height as usize && col < width as usize {
                    float_ramp(col as u32, width, 255.0) as u8
                } else {
                    0
                };
                assert_eq!(plane.data[row * stride + col], expected);
            }
        }
    }
}

#[test]
fn test_generate_image_ramp_values() {
    let image = generate_image(&PixFmt::Mono8, 6, 1).unwrap();
    let plane = match image.planes {
        MyPlanes::Mono(plane) => plane,
        MyPlanes::YCbCr(_) => panic!("chroma in a monochrome image"),
    };
    assert_eq!(&plane.data[..8], &[0, 51, 102, 153, 204, 255, 0, 0]);

    let image = generate_image(&PixFmt::Mono12, 4, 1).unwrap();
    let plane = match image.planes {
        MyPlanes::Mono(plane) => plane,
        MyPlanes::YCbCr(_) => panic!("chroma in a monochrome image"),
    };
    // 0, 1365, 2730, 4095 = 0x000, 0x555, 0xAAA, 0xFFF
    assert_eq!(plane.stride, 24);
    assert_eq!(&plane.data[..8], &[0x00, 0x05, 0x55, 0xAA, 0xAF, 0xFF, 0, 0]);
}

#[test]
fn test_generate_image_rgb8() {
    for (width, height) in [(638u32, 478u32), (16, 16), (30, 32), (2, 2)] {
        let image = generate_image(&PixFmt::Rgb8, width, height).unwrap();
        let (y, cb, cr) = match &image.planes {
            MyPlanes::YCbCr(planes) => planes,
            MyPlanes::Mono(_) => panic!("no chroma in a colour image"),
        };
        assert_eq!(y.stride, (width as usize).div_ceil(16) * 16);
        for col in 0..width {
            assert_eq!(y.data[col as usize], float_ramp(col, width, 255.0) as u8);
        }
        let stride = (width as usize / 2).div_ceil(8) * 8;
        let rows = (height as usize / 2).div_ceil(8) * 8;
        for plane in [cb, cr] {
            assert_eq!(plane.stride, stride);
            assert_eq!(plane.bit_depth, BitDepth::Depth8);
            assert_eq!(plane.data, vec![128u8; stride * rows]);
        }
    }
}

#[test]
fn test_generate_image_12bit() {
    for (fmt, width, height) in [
        (PixFmt::Mono12, 16u32, 16u32),
        (PixFmt::Mono12, 14, 14),
        (PixFmt::Rgb12, 640, 480),
        (PixFmt::Rgb12, 12, 14),
        (PixFmt::Rgb12, 14, 16),
    ] {
        let image = generate_image(&fmt, width, height).unwrap();
        assert_eq!(image.bit_depth, BitDepth::Depth12);
        let planes: Vec<&MyImagePlane> = image.planes.iter().collect();
        assert_eq!(planes.len(), if fmt == PixFmt::Rgb12 { 3 } else { 1 });
        let y = planes[0];
        let stride = (width as usize).div_ceil(16) * 16 * 3 / 2;
        let rows = (height as usize).div_ceil(16) * 16;
        assert_eq!(y.stride, stride);
        assert_eq!(y.data.len(), stride * rows);
        for row in 0..rows {
            let bytes = &y.data[row * stride..(row + 1) * stride];
            let valid = width as usize * 3 / 2;
            if row < height as usize {
                for pair in 0..width as usize / 2 {
                    let vals = unpack_12be(&bytes[pair * 3..pair * 3 + 3]);
                    assert_eq!(vals[0], float_ramp(2 * pair as u32, width, 4095.0));
                    assert_eq!(vals[1], float_ramp(2 * pair as u32 + 1, width, 4095.0));
                }
                assert!(bytes[valid..].iter().all(|b| *b == 0));
            } else {
                assert!(bytes.iter().all(|b| *b == 0));
            }
        }
        for plane in &planes[1..] {
            let stride = (width as usize / 2).div_ceil(8) * 8 * 3 / 2;
            let rows = (height as usize / 2).div_ceil(8) * 8;
            assert_eq!(plane.stride, stride);
            assert_eq!(plane.bit_depth, BitDepth::Depth12);
            assert_eq!(plane.data.len(), stride * rows);
            let pairs = width as usize / 2 / 2;
            for row in 0..rows {
                let bytes = &plane.data[row * stride..(row + 1) * stride];
                for pair in 0..pairs {
                    assert_eq!(&bytes[pair * 3..pair * 3 + 3], &[0x80, 0x08, 0x00]);
                }
                assert!(bytes[pairs * 3..].iter().all(|b| *b == 0));
            }
        }
    }
}

#[test]
fn test_view() {
    let image = generate_image(&PixFmt::Rgb12, 16, 16).unwrap();
    let frame = image.view();
    assert_eq!((frame.width, frame.height), (16, 16));
    match (&image.planes, &frame.planes) {
        (MyPlanes::YCbCr((y, cb, cr)), Planes::YCbCr((fy, fcb, fcr))) => {
            for (owned, plane) in [(y, fy), (cb, fcb), (cr, fcr)] {
                assert_eq!(owned.data.as_slice(), plane.data);
                assert_eq!(owned.stride, plane.stride);
                assert_eq!(plane.bit_depth, BitDepth::Depth12);
            }
        }
        _ => panic!("the view has other planes than the image"),
    }
    let luma = image.view_luma();
    assert_eq!(luma.stride, 24);
    assert_eq!(luma.bit_depth, BitDepth::Depth8);
    assert_eq!(luma.data.len(), 24 * 16);

    let image = generate_image(&PixFmt::Mono8, 3, 2).unwrap();
    let frame = image.view();
    match &frame.planes {
        Planes::Mono(plane) => {
            assert_eq!(plane.stride, 16);
            assert_eq!(&plane.data[..4], &[0, 127, 255, 0]);
        }
        Planes::YCbCr(_) => panic!("chroma in a monochrome view"),
    }
    let copy = image.clone();
    assert_eq!(copy.width, 3);
    assert_eq!(copy.planes.iter().next().unwrap().data, frame_data(&image));
}

fn frame_data(image: &MyYCbCrImage) -> Vec<u8> {
    image.planes.iter().next().unwrap().data.clone()
}

#[test]
fn test_to_trimmed_y4m() {
    let data: Vec<u8> = (0..32).collect();
    let plane = MyImagePlane::new(data, 8).unwrap();
    assert_eq!(
        plane.to_trimmed_y4m(3, 2).unwrap(),
        vec![0, 1, 2, 8, 9, 10]
    );
    // the data holds four rows; two more are zero
    assert_eq!(
        plane.to_trimmed_y4m(2, 6).unwrap(),
        vec![0, 1, 8, 9, 16, 17, 24, 25, 0, 0, 0, 0]
    );
    assert_eq!(plane.to_trimmed_y4m(8, 0).unwrap(), Vec::<u8>::new());

    let image = generate_image(&PixFmt::Mono12, 4, 2).unwrap();
    let plane = image.planes.iter().next().unwrap();
    let row = vec![0x00, 0x00, 0x55, 0x05, 0xAA, 0x0A, 0xFF, 0x0F];
    assert_eq!(
        plane.to_trimmed_y4m(4, 2).unwrap(),
        [row.clone(), row].concat()
    );
    let odd = plane.to_trimmed_y4m(3, 2);
    match odd {
        Err(less_avc::Error::DataShapeProblem { msg }) => {
            assert_eq!(msg, "luma or chroma plane width must be multiple of 2")
        }
        _ => panic!("an odd width must be refused at 12 bits"),
    }
}
