use less_avc::testbench::{generate_image, MyImagePlane, MyPlanes, PixFmt};
use less_avc::util::next_multiple;
use less_avc::H264Writer;
use openh264::formats::YUVSource;

#[test]
fn test_roundtrip_openh264() {
    let mut outputs = Vec::new();
    // openh264 does not seem to support chroma_format_idc=0 (monochrome)
    for pixfmt in [PixFmt::Rgb8].iter() {
        for width in [16u32, 640, 30, 32].iter() {
            for height in [16u32, 480, 30, 32].iter() {
                outputs.push((*pixfmt, *width, *height));
            }
        }
    }

    for (pixfmt, width, height) in outputs.iter() {
        let output_name = format!(
            "test-movie-{}-{}x{}.h264",
            pixfmt.as_str(),
            width,
            height
        );
        println!("testing {}", output_name);

        let mut my_h264_writer = H264Writer::new(vec![]).unwrap();

        let input_yuv = generate_image(pixfmt, *width, *height).unwrap();
        let frame_view = input_yuv.view();
        my_h264_writer.write(&frame_view).unwrap();

        // Get Vec<u8> buffer with h264 NAL units.
        let h264_raw_buf = my_h264_writer.into_inner();

        // decode a single frame
        let mut decoder = openh264::decoder::Decoder::new().unwrap();
        let decoded_yuv = decoder.decode(&h264_raw_buf).unwrap().unwrap();

        let (oys, ous, ovs) = decoded_yuv.strides();

        // luma test
        let input_valid_size = input_yuv.view_luma().stride * input_yuv.height as usize;
        for (input_y_row, decoded_y_row) in input_yuv.view_luma().data[..input_valid_size]
            .chunks_exact(input_yuv.view_luma().stride)
            .zip(decoded_yuv.y().chunks_exact(oys))
        {
            assert_eq!(
                decoded_y_row[..*width as usize],
                input_y_row[..*width as usize]
            );
        }

        // compare chroma data
        let (cb_plane, cr_plane) = match input_yuv.planes {
            MyPlanes::Mono(_) => {
                let stride = next_multiple(width / 2, 8) as usize;
                let alloc_rows = next_multiple(height / 2, 8) as usize;
                let data = vec![128u8; stride * alloc_rows];
                let chroma_plane = MyImagePlane::new(data, stride).unwrap();
                (chroma_plane.clone(), chroma_plane)
            }
            MyPlanes::YCbCr((_, cb_plane, cr_plane)) => (cb_plane, cr_plane),
        };

        let input_valid_size = cb_plane.stride * (input_yuv.height / 2) as usize;
        let chroma_width = (width / 2) as usize;

        // chroma U test
        for (input_u_row, decoded_u_row) in cb_plane.data[..input_valid_size]
            .chunks_exact(cb_plane.stride)
            .zip(decoded_yuv.u().chunks_exact(ous))
        {
            assert_eq!(decoded_u_row[..chroma_width], input_u_row[..chroma_width]);
        }

        // chroma V test
        for (input_v_row, decoded_v_row) in cr_plane.data[..input_valid_size]
            .chunks_exact(cr_plane.stride)
            .zip(decoded_yuv.v().chunks_exact(ovs))
        {
            assert_eq!(decoded_v_row[..chroma_width], input_v_row[..chroma_width]);
        }
    }
}
