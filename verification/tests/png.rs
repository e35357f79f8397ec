use bell::configuration::Color;
use bell::png::{
    color_type_from_code, convert_pixel, decode_png, decode_png_pixels, read_frame_pixels, PngColorType, PngFailure,
    PngFrame, PngFrameInfo,
};

#[test]
fn pixels_become_colors() {
    assert_eq!(convert_pixel(PngColorType::Rgb, 0x00_33_22_11, 8), Color::rgba(0x11, 0x22, 0x33, 0xFF));
    assert_eq!(convert_pixel(PngColorType::Rgba, 0x44_33_22_11, 8), Color::rgba(0x11, 0x22, 0x33, 0x44));
    assert_eq!(convert_pixel(PngColorType::Grayscale, 0x7F, 8), Color::rgba(0x7F, 0x7F, 0x7F, 0xFF));
    assert_eq!(convert_pixel(PngColorType::GrayscaleAlpha, 0x80_10, 8), Color::rgba(0x10, 0x10, 0x10, 0x80));
    assert_eq!(convert_pixel(PngColorType::Grayscale, 0b1011, 2), Color::rgba(3, 3, 3, 0xFF));
}

#[test]
fn frames_decode_row_by_row() {
    let info = PngFrameInfo { color_type: PngColorType::Rgb, bit_depth: 8, width: 2, height: 2, line_size: 6 };
    let data = [1, 2, 3, 4, 5, 6, 7, 8, 9, 10, 11, 12];
    let d = decode_png_pixels(&info, &data);
    assert!(d.failed_at.is_none());
    assert_eq!(d.rows.len(), 2);
    assert_eq!(d.rows[0], vec![Color::rgba(1, 2, 3, 0xFF), Color::rgba(4, 5, 6, 0xFF)]);
    assert_eq!(d.rows[1], vec![Color::rgba(7, 8, 9, 0xFF), Color::rgba(10, 11, 12, 0xFF)]);
}

#[test]
fn short_data_stops_at_the_first_missing_pixel() {
    let info = PngFrameInfo { color_type: PngColorType::Rgba, bit_depth: 8, width: 2, height: 2, line_size: 8 };
    let data = [1, 2, 3, 4, 5, 6, 7, 8, 9, 10, 11];
    let d = decode_png_pixels(&info, &data);
    assert_eq!(d.failed_at, Some((0, 1)));
    assert_eq!(d.rows.len(), 2);
    assert_eq!(d.rows[0].len(), 2);
    assert!(d.rows[1].is_empty());
}

#[test]
fn packed_samples_are_read_from_the_low_bits() {
    let info = PngFrameInfo { color_type: PngColorType::Grayscale, bit_depth: 1, width: 8, height: 1, line_size: 1 };
    let d = decode_png_pixels(&info, &[0b0000_0101]);
    let values: Vec<u8> = d.rows[0].iter().map(|c| c.r()).collect();
    assert_eq!(values, vec![1, 0, 1, 0, 0, 0, 0, 0]);
}

fn encoded(width: u32, height: u32, color: png::ColorType, depth: png::BitDepth, data: &[u8]) -> Vec<u8> {
    let mut bytes = Vec::new();
    {
        let mut encoder = png::Encoder::new(&mut bytes, width, height);
        encoder.set_color(color);
        encoder.set_depth(depth);
        let mut writer = encoder.write_header().unwrap();
        writer.write_image_data(data).unwrap();
        writer.finish().unwrap();
    }
    bytes
}

#[test]
fn png_files_decode_to_their_pixels() {
    let bytes = encoded(2, 1, png::ColorType::Rgb, png::BitDepth::Eight, &[10, 20, 30, 40, 50, 60]);
    let image = decode_png(&bytes, 16, 16).unwrap();
    assert_eq!(image.info, PngFrameInfo { color_type: PngColorType::Rgb, bit_depth: 8, width: 2, height: 1, line_size: 6 });
    assert_eq!(image.data_len, 6);
    assert_eq!(image.pixels.failed_at, None);
    assert_eq!(image.pixels.rows, vec![vec![Color::rgba(10, 20, 30, 0xFF), Color::rgba(40, 50, 60, 0xFF)]]);
}

#[test]
fn png_with_alpha_keeps_it() {
    let bytes = encoded(1, 2, png::ColorType::GrayscaleAlpha, png::BitDepth::Eight, &[7, 8, 9, 10]);
    let image = decode_png(&bytes, 4, 4).unwrap();
    assert_eq!(image.pixels.rows, vec![vec![Color::rgba(7, 7, 7, 8)], vec![Color::rgba(9, 9, 9, 10)]]);
}

#[test]
fn bytes_that_are_no_png_are_refused() {
    assert_eq!(decode_png(&[1, 2, 3, 4], 16, 16).err(), Some(PngFailure::Decoding));
}

#[test]
fn wide_samples_are_truncated_to_a_byte() {
    let bytes = encoded(2, 1, png::ColorType::Grayscale, png::BitDepth::Sixteen, &[0x12, 0x34, 0xAB, 0xCD]);
    let image = decode_png(&bytes, 16, 16).unwrap();
    assert_eq!(image.info.bit_depth, 16);
    assert_eq!(image.pixels.failed_at, None);
    assert_eq!(image.pixels.rows, vec![vec![Color::rgba(0x12, 0x12, 0x12, 0xFF), Color::rgba(0xAB, 0xAB, 0xAB, 0xFF)]]);
}

#[test]
fn wide_rgba_samples_are_truncated_to_a_byte() {
    let info = PngFrameInfo { color_type: PngColorType::Rgba, bit_depth: 16, width: 1, height: 1, line_size: 8 };
    let d = decode_png_pixels(&info, &[1, 2, 3, 4, 5, 6, 7, 8]);
    assert_eq!(d.rows, vec![vec![Color::rgba(1, 3, 5, 7)]]);
}

#[test]
fn png_colour_type_codes() {
    assert_eq!(color_type_from_code(0), Some(PngColorType::Grayscale));
    assert_eq!(color_type_from_code(2), Some(PngColorType::Rgb));
    assert_eq!(color_type_from_code(3), Some(PngColorType::Indexed));
    assert_eq!(color_type_from_code(4), Some(PngColorType::GrayscaleAlpha));
    assert_eq!(color_type_from_code(6), Some(PngColorType::Rgba));
    assert_eq!(color_type_from_code(5), None);
}

#[test]
fn indexed_frames_are_unsupported() {
    let frame = PngFrame { color_code: 3, bit_depth: 8, width: 1, height: 1, line_size: 1, data: vec![0] };
    assert_eq!(read_frame_pixels(&frame).err(), Some(PngFailure::Unsupported));
}
