use image_swizzle::error::SwizzleError;
use image_swizzle::{
    bgr0_to_bgrx, bgr0_to_bgrx_inplace, bgr0_to_rgbx, bgr0_to_rgbx_inplace, bgra_to_rgba,
    bgra_to_rgba_inplace, rgb0_to_bgrx, rgb0_to_bgrx_inplace, rgb0_to_rgbx, rgb0_to_rgbx_inplace,
    rgba32_to_bgra, rgba32_to_bgra_inplace, rgba32_to_rgba, rgba32_to_rgba_inplace, rgba_to_bgra,
    rgba_to_bgra_inplace,
};

fn generate_xxxx_image(width: usize, height: usize, x1: u8, x2: u8, x3: u8, x4: u8) -> Vec<u8> {
    assert!((width * height * 4) % 4 == 0);
    let mut xxxx = Vec::with_capacity(width * height);
    for _ in 0..width * height {
        xxxx.push(x1);
        xxxx.push(x2);
        xxxx.push(x3);
        xxxx.push(x4);
    }
    xxxx
}

#[test]
fn test_rgba_to_bgra_inplace() {
    let (width, height): (usize, usize) = (1920, 1080);
    let mut rgba_img = generate_xxxx_image(width, height, 111, 222, 100, 255);
    let correct_bgra = generate_xxxx_image(width, height, 100, 222, 111, 255);
    assert_eq!(rgba_to_bgra_inplace(&mut rgba_img), Ok(()));
    assert_eq!(rgba_img, correct_bgra);
}

#[test]
fn test_rgba_to_bgra_inplace_short_lane_count() {
    let (width, height): (usize, usize) = (3, 3);
    let mut rgba_img = generate_xxxx_image(width, height, 111, 222, 100, 255);
    let correct_bgra = generate_xxxx_image(width, height, 100, 222, 111, 255);
    assert_eq!(rgba_to_bgra_inplace(&mut rgba_img), Ok(()));
    assert_eq!(rgba_img, correct_bgra);
}

#[test]
fn test_rgba_to_bgra_inplace_combi() {
    let (width, height): (usize, usize) = (5, 5);
    let mut rgba_img = generate_xxxx_image(width, height, 111, 222, 100, 255);
    let correct_bgra = generate_xxxx_image(width, height, 100, 222, 111, 255);
    assert_eq!(rgba_to_bgra_inplace(&mut rgba_img), Ok(()));
    assert_eq!(rgba_img, correct_bgra);
}

#[test]
fn test_rgba_to_bgra() {
    let (width, height): (usize, usize) = (1920, 1080);
    let rgba_img = generate_xxxx_image(width, height, 111, 222, 100, 255);
    let correct_bgra = generate_xxxx_image(width, height, 100, 222, 111, 255);
    let mut bgra = vec![0; width * height * 4];
    assert_eq!(rgba_to_bgra(&rgba_img, &mut bgra), Ok(()));
    assert_eq!(bgra, correct_bgra);
}

#[test]
#[should_panic]
fn test_panic_rgba_to_bgra() {
    let (width, height): (usize, usize) = (1920, 1080);
    let rgba_img = generate_xxxx_image(width, height, 111, 222, 100, 255);
    let correct_bgra = generate_xxxx_image(width, height, 100, 222, 111, 255);
    let mut bgra = vec![0; width * height * 4 - 10];
    rgba_to_bgra(&rgba_img, &mut bgra).unwrap();
    assert_eq!(bgra, correct_bgra);
}

#[test]
fn test_bgra_to_rgba_inplace() {
    let (width, height): (usize, usize) = (1920, 1080);
    let mut bgra = generate_xxxx_image(width, height, 111, 222, 100, 255);
    let correct_rgba = generate_xxxx_image(width, height, 100, 222, 111, 255);
    assert_eq!(bgra_to_rgba_inplace(&mut bgra), Ok(()));
    assert_eq!(bgra, correct_rgba);
}

#[test]
fn test_bgra_to_rgba() {
    let (width, height): (usize, usize) = (1920, 1080);
    let bgra = generate_xxxx_image(width, height, 111, 222, 100, 255);
    let correct_rgba = generate_xxxx_image(width, height, 100, 222, 111, 255);
    let mut rgba = vec![0; width * height * 4];
    assert_eq!(bgra_to_rgba(&bgra, &mut rgba), Ok(()));
    assert_eq!(rgba, correct_rgba);
}

#[test]
fn test_rgb0_to_rgbx_inplace() {
    let (width, height): (usize, usize) = (1920, 1080);
    let mut rgb0_img = generate_xxxx_image(width, height, 111, 222, 100, 0);
    let correct_rgbx = generate_xxxx_image(width, height, 111, 222, 100, 255);
    assert_eq!(rgb0_to_rgbx_inplace(&mut rgb0_img), Ok(()));
    assert_eq!(rgb0_img, correct_rgbx);
}

#[test]
fn test_rgb0_to_rgbx() {
    let (width, height): (usize, usize) = (1920, 1080);
    let rgb0_img = generate_xxxx_image(width, height, 111, 222, 100, 0);
    let correct_rgbx = generate_xxxx_image(width, height, 111, 222, 100, 255);
    let mut rgbx = vec![0; width * height * 4];
    assert_eq!(rgb0_to_rgbx(&rgb0_img, &mut rgbx), Ok(()));
    assert_eq!(rgbx, correct_rgbx);
}

#[test]
fn test_bgr0_to_bgrx_inplace() {
    let (width, height): (usize, usize) = (10, 10);
    let mut bgr0_img = generate_xxxx_image(width, height, 111, 222, 100, 0);
    let correct_bgrx = generate_xxxx_image(width, height, 111, 222, 100, 255);
    assert_eq!(bgr0_to_bgrx_inplace(&mut bgr0_img), Ok(()));
    assert_eq!(bgr0_img, correct_bgrx);
}

#[test]
fn test_bgr0_to_bgrx() {
    let (width, height): (usize, usize) = (10, 10);
    let bgr0_img = generate_xxxx_image(width, height, 111, 222, 100, 0);
    let correct_bgrx = generate_xxxx_image(width, height, 111, 222, 100, 255);
    let mut bgrx = vec![0; width * height * 4];
    assert_eq!(bgr0_to_bgrx(&bgr0_img, &mut bgrx), Ok(()));
    assert_eq!(bgrx, correct_bgrx);
}

#[test]
fn test_rgb0_to_bgrx_inplace() {
    let (width, height): (usize, usize) = (1920, 1080);
    let mut rgb0_img = generate_xxxx_image(width, height, 111, 222, 100, 0);
    let correct_bgrx = generate_xxxx_image(width, height, 100, 222, 111, 255);
    assert_eq!(rgb0_to_bgrx_inplace(&mut rgb0_img), Ok(()));
    assert_eq!(rgb0_img, correct_bgrx);
}

#[test]
fn test_rgb0_to_bgrx() {
    let (width, height): (usize, usize) = (1920, 1080);
    let rgb0_img = generate_xxxx_image(width, height, 111, 222, 100, 0);
    let correct_bgrx = generate_xxxx_image(width, height, 100, 222, 111, 255);
    let mut bgrx = vec![0; width * height * 4];
    assert_eq!(rgb0_to_bgrx(&rgb0_img, &mut bgrx), Ok(()));
    assert_eq!(bgrx, correct_bgrx);
}

#[test]
fn test_bgr0_to_rgbx_inplace() {
    let (width, height): (usize, usize) = (4, 4);
    let mut bgr0_img = generate_xxxx_image(width, height, 111, 222, 100, 0);
    let correct_rgbx = generate_xxxx_image(width, height, 100, 222, 111, 255);
    assert_eq!(bgr0_to_rgbx_inplace(&mut bgr0_img), Ok(()));
    assert_eq!(bgr0_img, correct_rgbx);
}

#[test]
fn test_bgr0_to_rgbx() {
    let (width, height): (usize, usize) = (1920, 1080);
    let bgr0_img = generate_xxxx_image(width, height, 111, 222, 100, 0);
    let correct_rgbx = generate_xxxx_image(width, height, 100, 222, 111, 255);
    let mut rgbx = vec![0; width * height * 4];
    assert_eq!(bgr0_to_rgbx(&bgr0_img, &mut rgbx), Ok(()));
    assert_eq!(rgbx, correct_rgbx);
}

#[test]
fn test_rgba32_to_rgba_inplace() {
    let (width, height): (usize, usize) = (10, 10);
    let mut rgba_img = generate_xxxx_image(width, height, 255, 222, 111, 0);
    let correct = generate_xxxx_image(width, height, 0, 111, 222, 255);
    assert_eq!(rgba32_to_rgba_inplace(&mut rgba_img), Ok(()));
    assert_eq!(rgba_img, correct);
}

#[test]
fn test_rgba32_to_bgra_inplace() {
    let (width, height): (usize, usize) = (10, 10);
    let mut rgba_img = generate_xxxx_image(width, height, 255, 222, 111, 0);
    let correct = generate_xxxx_image(width, height, 222, 111, 0, 255);
    assert_eq!(rgba32_to_bgra_inplace(&mut rgba_img), Ok(()));
    assert_eq!(rgba_img, correct);
}

#[test]
fn test_rgba32_to_rgba() {
    let src: Vec<u8> = vec![255, 222, 111, 0, 1, 2, 3, 4];
    let mut dst: Vec<u8> = vec![9; 8];
    assert_eq!(rgba32_to_rgba(&src, &mut dst), Ok(()));
    assert_eq!(dst, vec![0, 111, 222, 255, 4, 3, 2, 1]);
}

#[test]
fn test_rgba32_to_bgra() {
    let src: Vec<u8> = vec![255, 222, 111, 0, 1, 2, 3, 4];
    let mut dst: Vec<u8> = vec![9; 8];
    assert_eq!(rgba32_to_bgra(&src, &mut dst), Ok(()));
    assert_eq!(dst, vec![222, 111, 0, 255, 2, 3, 4, 1]);
}

#[test]
fn test_single_pixel_of_each_conversion() {
    let mut p: Vec<u8> = vec![1, 2, 3, 255];
    assert_eq!(rgba_to_bgra_inplace(&mut p), Ok(()));
    assert_eq!(p, vec![3, 2, 1, 255]);
    assert_eq!(bgra_to_rgba_inplace(&mut p), Ok(()));
    assert_eq!(p, vec![1, 2, 3, 255]);

    let mut p: Vec<u8> = vec![111, 222, 100, 0];
    assert_eq!(rgb0_to_rgbx_inplace(&mut p), Ok(()));
    assert_eq!(p, vec![111, 222, 100, 255]);

    let mut p: Vec<u8> = vec![111, 222, 100, 0];
    assert_eq!(rgb0_to_bgrx_inplace(&mut p), Ok(()));
    assert_eq!(p, vec![100, 222, 111, 255]);

    let mut p: Vec<u8> = vec![3, 2, 1, 0];
    assert_eq!(bgr0_to_bgrx_inplace(&mut p), Ok(()));
    assert_eq!(p, vec![3, 2, 1, 255]);

    let mut p: Vec<u8> = vec![3, 2, 1, 0];
    assert_eq!(bgr0_to_rgbx_inplace(&mut p), Ok(()));
    assert_eq!(p, vec![1, 2, 3, 255]);
}

#[test]
fn test_empty_buffers_are_accepted() {
    let mut empty: Vec<u8> = Vec::new();
    assert_eq!(rgba_to_bgra_inplace(&mut empty), Ok(()));
    assert!(empty.is_empty());
    let src: Vec<u8> = Vec::new();
    assert_eq!(rgb0_to_bgrx(&src, &mut empty), Ok(()));
    assert!(empty.is_empty());
}

#[test]
fn test_length_mismatch_is_reported_and_nothing_written() {
    let (width, height): (usize, usize) = (4, 4);
    let rgba_img = generate_xxxx_image(width, height, 111, 222, 100, 255);
    let mut bgra: Vec<u8> = vec![7; width * height * 4 - 10];
    assert_eq!(rgba_to_bgra(&rgba_img, &mut bgra), Err(SwizzleError::LengthMismatch));
    assert_eq!(bgra, vec![7; width * height * 4 - 10]);

    let mut longer: Vec<u8> = vec![7; width * height * 4 + 4];
    assert_eq!(bgr0_to_rgbx(&rgba_img, &mut longer), Err(SwizzleError::LengthMismatch));
    assert_eq!(longer, vec![7; width * height * 4 + 4]);
}

#[test]
fn test_invalid_length_is_reported_and_nothing_written() {
    for len in [1usize, 2, 3, 5, 6, 7, 17, 18, 19, 63, 65] {
        let content: Vec<u8> = (0..len).map(|i| (i * 7 + 1) as u8).collect();

        let mut buf = content.clone();
        assert_eq!(rgba_to_bgra_inplace(&mut buf), Err(SwizzleError::InvalidLength));
        assert_eq!(buf, content);
        let mut buf = content.clone();
        assert_eq!(rgb0_to_rgbx_inplace(&mut buf), Err(SwizzleError::InvalidLength));
        assert_eq!(buf, content);
        let mut buf = content.clone();
        assert_eq!(rgba32_to_bgra_inplace(&mut buf), Err(SwizzleError::InvalidLength));
        assert_eq!(buf, content);

        let mut dst: Vec<u8> = vec![9; len];
        assert_eq!(rgba_to_bgra(&content, &mut dst), Err(SwizzleError::InvalidLength));
        assert_eq!(dst, vec![9; len]);
        let mut dst: Vec<u8> = vec![9; len + 3];
        assert_eq!(rgb0_to_bgrx(&content, &mut dst), Err(SwizzleError::InvalidLength));
        assert_eq!(dst, vec![9; len + 3]);
    }
}

#[test]
fn test_destination_of_partial_pixels_is_a_mismatch() {
    let src: Vec<u8> = vec![1, 2, 3, 4, 5, 6, 7, 8];
    let mut dst: Vec<u8> = vec![0; 6];
    assert_eq!(bgra_to_rgba(&src, &mut dst), Err(SwizzleError::LengthMismatch));
    assert_eq!(dst, vec![0; 6]);
}

#[test]
fn test_error_messages() {
    assert_eq!(SwizzleError::InvalidLength.message(), "buffer length is not a multiple of 4");
    assert_eq!(
        SwizzleError::LengthMismatch.message(),
        "destination length differs from source length"
    );
    assert_ne!(SwizzleError::InvalidLength, SwizzleError::LengthMismatch);
}
