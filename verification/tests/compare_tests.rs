use whatschanging::diff::{compare, Diff, DiffError};
use whatschanging::image::Image;

/// A tightly packed RGB image from row-major pixel triplets.
fn rgb_image(width: usize, height: usize, pixels: &[(u8, u8, u8)]) -> Image {
    assert_eq!(pixels.len(), width * height);
    let mut data = Vec::new();
    for &(r, g, b) in pixels {
        data.push(r);
        data.push(g);
        data.push(b);
    }
    Image::new(width, height, 3, width * 3, data).unwrap()
}

/// An RGBA image with `pad` bytes of row padding, from row-major pixel
/// quadruplets.
fn rgba_image(width: usize, height: usize, pad: usize, pixels: &[(u8, u8, u8, u8)]) -> Image {
    assert_eq!(pixels.len(), width * height);
    let rowstride = width * 4 + pad;
    let mut data = Vec::new();
    for y in 0..height {
        for x in 0..width {
            let (r, g, b, a) = pixels[y * width + x];
            data.push(r);
            data.push(g);
            data.push(b);
            data.push(a);
        }
        for _ in 0..pad {
            data.push(0xee);
        }
    }
    Image::new(width, height, 4, rowstride, data).unwrap()
}

#[test]
fn identical_images_compare_all_black() {
    let a = rgb_image(2, 2, &[(1, 1, 1), (2, 2, 2), (3, 3, 3), (4, 4, 4)]);
    let b = rgb_image(2, 2, &[(1, 1, 1), (2, 2, 2), (3, 3, 3), (4, 4, 4)]);
    let out = compare(&a, &b).unwrap();
    assert_eq!(out, vec![0u8; 12]);
}

#[test]
fn single_changed_pixel_marks_green() {
    let a = rgb_image(2, 2, &[(1, 1, 1), (2, 2, 2), (3, 3, 3), (4, 4, 4)]);
    let b = rgb_image(2, 2, &[(1, 1, 1), (9, 9, 9), (3, 3, 3), (4, 4, 4)]);
    let out = compare(&a, &b).unwrap();
    assert_eq!(out, vec![0, 0, 0, 0, 255, 0, 0, 0, 0, 0, 0, 0]);
}

#[test]
fn every_differing_pixel_marks_green() {
    let a = rgb_image(2, 2, &[(1, 1, 1), (2, 2, 2), (3, 3, 3), (4, 4, 4)]);
    let b = rgb_image(2, 2, &[(1, 0, 1), (2, 2, 2), (3, 3, 3), (4, 4, 5)]);
    let out = compare(&a, &b).unwrap();
    assert_eq!(out, vec![0, 255, 0, 0, 0, 0, 0, 0, 0, 0, 255, 0]);
}

#[test]
fn compare_is_symmetric() {
    let a = rgb_image(2, 2, &[(1, 1, 1), (2, 2, 2), (3, 3, 3), (4, 4, 4)]);
    let b = rgb_image(2, 2, &[(1, 1, 1), (9, 9, 9), (3, 3, 3), (4, 4, 4)]);
    let ab = compare(&a, &b).unwrap();
    let ba = compare(&b, &a).unwrap();
    assert_eq!(ab, ba);
}

#[test]
fn output_length_ignores_channels_and_padding() {
    let pixels = [
        (1, 2, 3, 9),
        (4, 5, 6, 9),
        (7, 8, 9, 9),
        (1, 2, 3, 9),
        (4, 5, 6, 9),
        (7, 8, 9, 9),
    ];
    let a = rgba_image(3, 2, 5, &pixels);
    let b = rgba_image(3, 2, 5, &pixels);
    let out = compare(&a, &b).unwrap();
    assert_eq!(out.len(), 3 * 2 * 3);
}

#[test]
fn alpha_differences_are_ignored() {
    let a = rgba_image(2, 1, 0, &[(10, 20, 30, 0), (40, 50, 60, 128)]);
    let b = rgba_image(2, 1, 0, &[(10, 20, 30, 255), (40, 50, 60, 7)]);
    let out = compare(&a, &b).unwrap();
    assert_eq!(out, vec![0u8; 6]);
}

#[test]
fn mismatched_buffer_lengths_fail() {
    let a = rgb_image(2, 2, &[(1, 1, 1), (2, 2, 2), (3, 3, 3), (4, 4, 4)]);
    let b = rgba_image(
        2,
        2,
        0,
        &[(1, 1, 1, 9), (2, 2, 2, 9), (3, 3, 3, 9), (4, 4, 4, 9)],
    );
    assert_eq!(compare(&a, &b), Err(DiffError::DimensionMismatch));
}

#[test]
fn diff_compare_matches_free_compare() {
    let a = rgb_image(2, 1, &[(1, 1, 1), (2, 2, 2)]);
    let b = rgb_image(2, 1, &[(1, 1, 1), (3, 2, 2)]);
    let d = Diff::new(Some(a), Some(b), 2, 1);
    let out = d.compare().unwrap();
    assert_eq!(out, vec![0, 0, 0, 0, 255, 0]);
}

#[test]
fn result_without_images_is_none() {
    let a = rgb_image(2, 1, &[(1, 1, 1), (2, 2, 2)]);
    let d = Diff::new(Some(a), None, 2, 1);
    assert!(matches!(d.result(), Ok(None)));
}

#[test]
fn result_wraps_diff_image() {
    let a = rgb_image(2, 2, &[(1, 1, 1), (2, 2, 2), (3, 3, 3), (4, 4, 4)]);
    let b = rgb_image(2, 2, &[(1, 1, 1), (9, 9, 9), (3, 3, 3), (4, 4, 4)]);
    let d = Diff::new(Some(a), Some(b), 2, 2);
    let img = d.result().unwrap().unwrap();
    assert_eq!(img.width, 2);
    assert_eq!(img.height, 2);
    assert_eq!(img.rowstride, 6);
    assert_eq!(img.data, vec![0, 0, 0, 0, 255, 0, 0, 0, 0, 0, 0, 0]);
}

#[test]
fn result_reports_mismatch() {
    let a = rgb_image(2, 1, &[(1, 1, 1), (2, 2, 2)]);
    let b = rgba_image(2, 1, 0, &[(1, 1, 1, 9), (2, 2, 2, 9)]);
    let d = Diff::new(Some(a), Some(b), 2, 1);
    assert!(matches!(d.result(), Err(DiffError::DimensionMismatch)));
}

#[test]
fn image_new_accepts_valid_layout() {
    let img = Image::new(2, 2, 4, 11, vec![0u8; 25]).unwrap();
    assert_eq!(img.width, 2);
    assert_eq!(img.height, 2);
    assert_eq!(img.channels, 4);
    assert_eq!(img.rowstride, 11);
}

#[test]
fn image_new_rejects_bad_layouts() {
    // a row narrower than its pixels
    assert!(Image::new(2, 1, 3, 5, vec![0u8; 6]).is_none());
    // a buffer shorter than its rows
    assert!(Image::new(2, 2, 3, 6, vec![0u8; 11]).is_none());
    // a channel count that is neither RGB nor RGBA
    assert!(Image::new(2, 1, 2, 6, vec![0u8; 6]).is_none());
    // empty dimensions
    assert!(Image::new(0, 1, 3, 6, vec![0u8; 6]).is_none());
    assert!(Image::new(1, 0, 3, 6, vec![0u8; 6]).is_none());
}
