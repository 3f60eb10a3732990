use gb2bpp::{encode_image, to_luma, GameBoy2bpp, InvalidDimensions};
use image::{DynamicImage, GrayImage, RgbImage};

fn gray(width: u32, height: u32, samples: Vec<u8>) -> DynamicImage {
    DynamicImage::ImageLuma8(GrayImage::from_raw(width, height, samples).unwrap())
}

#[test]
fn gray_image_keeps_its_samples() {
    let luma = to_luma(gray(3, 2, vec![1, 2, 3, 4, 5, 6]));
    assert_eq!(luma.width(), 3);
    assert_eq!(luma.height(), 2);
    assert_eq!(luma.as_raw(), &vec![1, 2, 3, 4, 5, 6]);
}

#[test]
fn gray_image_with_a_long_buffer_is_cut_to_its_pixels() {
    let luma = to_luma(gray(2, 2, vec![9, 8, 7, 6, 5, 4]));
    assert_eq!(luma.as_raw(), &vec![9, 8, 7, 6]);
}

#[test]
fn colour_image_becomes_one_sample_per_pixel() {
    let mut samples = Vec::new();
    for _ in 0..32 {
        samples.extend([0u8, 0, 0]);
    }
    for _ in 0..32 {
        samples.extend([255u8, 255, 255]);
    }
    let rgb = DynamicImage::ImageRgb8(RgbImage::from_raw(8, 8, samples).unwrap());
    let luma = to_luma(rgb);
    assert_eq!(luma.width(), 8);
    assert_eq!(luma.height(), 8);
    let mut expected = vec![0u8; 32];
    expected.extend(vec![255u8; 32]);
    assert_eq!(luma.as_raw(), &expected);
}

#[test]
fn black_gray_picture_sets_every_bit() {
    assert_eq!(gray(8, 8, vec![0; 64]).into_gb2bpp(), vec![0xFF; 16]);
}

#[test]
fn white_colour_picture_clears_every_bit() {
    let rgb = DynamicImage::ImageRgb8(RgbImage::from_raw(8, 8, vec![255; 192]).unwrap());
    assert_eq!(rgb.into_gb2bpp(), vec![0x00; 16]);
}

#[test]
fn colour_picture_with_black_top_half() {
    let mut samples = vec![0u8; 96];
    samples.extend(vec![255u8; 96]);
    let rgb = DynamicImage::ImageRgb8(RgbImage::from_raw(8, 8, samples).unwrap());
    let mut expected = vec![0xFFu8; 8];
    expected.extend(vec![0x00u8; 8]);
    assert_eq!(rgb.into_gb2bpp(), expected);
}

#[test]
fn picture_with_one_dark_leftmost_pixel_per_row() {
    let mut samples = Vec::new();
    for _ in 0..8 {
        samples.extend([0u8, 255, 255, 255, 255, 255, 255, 255]);
    }
    assert_eq!(encode_image(gray(8, 8, samples)), Ok([0x80u8, 0x80].repeat(8)));
}

#[test]
fn picture_of_two_tiles_comes_left_first() {
    let mut samples = Vec::new();
    for _ in 0..8 {
        samples.extend([100u8; 8]);
        samples.extend([150u8; 8]);
    }
    let mut expected = [0x00u8, 0xFF].repeat(8);
    expected.extend([0xFFu8, 0x00].repeat(8));
    assert_eq!(gray(16, 8, samples).into_gb2bpp(), expected);
}

#[test]
fn picture_off_the_grid_is_refused() {
    assert_eq!(
        encode_image(gray(10, 8, vec![0; 80])),
        Err(InvalidDimensions { width: 10, height: 8 })
    );
    assert_eq!(
        encode_image(DynamicImage::new_rgb8(8, 3)),
        Err(InvalidDimensions { width: 8, height: 3 })
    );
}

#[test]
fn picture_on_the_grid_has_sixteen_bytes_per_tile() {
    let out = encode_image(DynamicImage::new_rgb8(32, 24)).unwrap();
    assert_eq!(out, vec![0xFF; 4 * 3 * 16]);
}

#[test]
fn picture_encodes_the_same_twice() {
    let mut samples = Vec::new();
    for k in 0..(16 * 16) {
        samples.push((k * 5 % 256) as u8);
    }
    let first = encode_image(gray(16, 16, samples.clone()));
    let second = encode_image(gray(16, 16, samples));
    assert!(first.is_ok());
    assert_eq!(first, second);
}
