use mandelbrot::encode::{encode_png, EncodeError};

const SIGNATURE: [u8; 8] = [137, 80, 78, 71, 13, 10, 26, 10];

#[test]
fn encodes_a_gray_png() {
    let pixels = vec![0u8, 64, 128, 255, 1, 2];
    let bytes = encode_png(&pixels, 3, 2).unwrap();
    assert_eq!(&bytes[..8], &SIGNATURE);
    assert_ne!(bytes, pixels);
    // IHDR: width, height, bit depth 8, color type 0 (gray)
    assert_eq!(&bytes[12..16], b"IHDR");
    assert_eq!(&bytes[16..20], &[0, 0, 0, 3]);
    assert_eq!(&bytes[20..24], &[0, 0, 0, 2]);
    assert_eq!(bytes[24], 8);
    assert_eq!(bytes[25], 0);
    assert_eq!(&bytes[bytes.len() - 8..bytes.len() - 4], b"IEND");
}

#[test]
fn same_pixels_same_stream() {
    let pixels = vec![9u8; 12];
    assert_eq!(encode_png(&pixels, 4, 3), encode_png(&pixels, 4, 3));
}

#[test]
fn length_must_match() {
    assert_eq!(encode_png(&[0u8; 5], 3, 2), Err(EncodeError::LengthMismatch));
    assert_eq!(encode_png(&[0u8; 7], 3, 2), Err(EncodeError::LengthMismatch));
}

#[test]
fn empty_image_is_refused() {
    assert_eq!(encode_png(&[], 0, 4), Err(EncodeError::Encoder));
    assert_eq!(encode_png(&[], 4, 0), Err(EncodeError::Encoder));
}

#[test]
fn sides_must_fit_32_bits() {
    let wide = u32::MAX as usize + 1;
    assert_eq!(encode_png(&[], wide, 0), Err(EncodeError::TooLarge));
    assert_eq!(encode_png(&[], 1, wide), Err(EncodeError::TooLarge));
}
