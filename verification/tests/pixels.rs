use glow_painter::pixels::{flatten_rgba, font_texture_rgba, is_rgba_image};

#[test]
fn flatten_lays_pixels_out_in_order() {
    assert_eq!(flatten_rgba(&[[1, 2, 3, 4], [5, 6, 7, 8]]), vec![1, 2, 3, 4, 5, 6, 7, 8]);
    assert!(flatten_rgba(&[]).is_empty());
}

#[test]
fn font_texture_is_white_with_gamma() {
    assert_eq!(font_texture_rgba(&[0]), vec![0, 0, 0, 0]);
    assert_eq!(font_texture_rgba(&[255]), vec![255, 255, 255, 255]);
    let half = font_texture_rgba(&[128]);
    assert_eq!(half.len(), 4);
    assert_eq!(half[0], half[1]);
    assert_eq!(half[1], half[2]);
    assert_eq!(half[3], 128);
    assert!(half[0] > 128);
}

#[test]
fn font_texture_of_several_pixels() {
    let bytes = font_texture_rgba(&[255, 0, 255]);
    assert_eq!(bytes, vec![255, 255, 255, 255, 0, 0, 0, 0, 255, 255, 255, 255]);
}

#[test]
fn rgba_image_shape() {
    assert!(is_rgba_image(8, 2, 1));
    assert!(!is_rgba_image(7, 2, 1));
    assert!(!is_rgba_image(0, 0, 0));
    assert!(!is_rgba_image(0, 0, 5));
    assert!(!is_rgba_image(usize::MAX, usize::MAX, 2));
}

#[test]
fn font_texture_keeps_each_alpha_byte() {
    let alpha: Vec<u8> = (0..=255).collect();
    let bytes = font_texture_rgba(&alpha);
    assert_eq!(bytes.len(), 4 * 256);
    for k in 0..256 {
        assert_eq!(bytes[4 * k + 3], alpha[k]);
    }
}

#[test]
fn transparent_font_pixels_are_zero() {
    assert_eq!(font_texture_rgba(&[0, 0]), vec![0; 8]);
}
