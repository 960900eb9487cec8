use weldwm::renderer::{CaptureError, CaptureFormat};
use weldwm::screenshot::{encode_capture, encode_png, CaptureFileError, PngError};

/// The size and the pixels of a PNG file.
fn decoded(file: &[u8]) -> (u32, u32, Vec<u8>) {
    let decoder = png::Decoder::new(std::io::Cursor::new(file));
    let mut reader = decoder.read_info().expect("a PNG file");
    let mut pixels = vec![0; reader.output_buffer_size().expect("it fits in memory")];
    let info = reader.next_frame(&mut pixels).expect("an image");
    assert_eq!(info.color_type, png::ColorType::Rgba);
    assert_eq!(info.bit_depth, png::BitDepth::Eight);
    (info.width, info.height, pixels)
}

#[test]
fn png_files_hold_the_image() {
    let pixels = [1, 2, 3, 4, 5, 6, 7, 8, 9, 10, 11, 12, 13, 14, 15, 16, 17, 18, 19, 20, 21, 22, 23, 24];
    let file = encode_png(2, 3, &pixels).expect("the pixels fit");
    assert_eq!(file[..8], [137, 80, 78, 71, 13, 10, 26, 10]);
    assert_eq!(decoded(&file), (2, 3, pixels.to_vec()));
    assert_eq!(encode_png(2, 3, &pixels), Ok(file));
}

#[test]
fn images_that_are_not_whole_are_refused() {
    assert_eq!(encode_png(0, 3, &[]), Err(PngError::Header));
    assert_eq!(encode_png(3, 0, &[]), Err(PngError::Header));
    assert_eq!(encode_png(1, 1, &[0; 3]), Err(PngError::Pixels));
    assert_eq!(encode_png(1, 1, &[0; 8]), Err(PngError::Pixels));
    assert_eq!(encode_png(u32::MAX, u32::MAX, &[0; 4]), Err(PngError::Pixels));
}

#[test]
fn screenshots_are_decoded_and_written() {
    let mapped = [3, 2, 1, 255, 9, 9, 6, 5, 4, 128, 9, 9];
    let file = encode_capture(&mapped, 1, 2, 6, CaptureFormat::Bgra8).expect("a screenshot");
    assert_eq!(decoded(&file), (1, 2, vec![1, 2, 3, 255, 4, 5, 6, 128]));
    let file = encode_capture(&mapped, 1, 2, 6, CaptureFormat::Rgba8).expect("a screenshot");
    assert_eq!(decoded(&file), (1, 2, vec![3, 2, 1, 255, 6, 5, 4, 128]));
    assert_eq!(
        encode_capture(&mapped, 1, 3, 6, CaptureFormat::Rgba8),
        Err(CaptureFileError::Decode(CaptureError::ShortBuffer))
    );
    assert_eq!(
        encode_capture(&mapped, 1, 2, 6, CaptureFormat::Other),
        Err(CaptureFileError::Decode(CaptureError::UnsupportedFormat))
    );
    assert_eq!(
        encode_capture(&mapped, 1, 0, 6, CaptureFormat::Rgba8),
        Err(CaptureFileError::Encode(PngError::Header))
    );
}
