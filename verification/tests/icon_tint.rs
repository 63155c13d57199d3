use halley_wl::render::raster::{tint_alpha_mask_image, unpremultiply_rgba, RgbaPixels};

#[test]
fn tint_keeps_semi_transparent_pixels_premultiplied() {
    let mut image = RgbaPixels::from_pixel(1, 1, [240, 240, 240, 128]);

    tint_alpha_mask_image(&mut image, [200, 100, 50, 255]);

    assert_eq!(image.get_pixel(0, 0), [100, 50, 25, 128]);
}

#[test]
fn tint_scales_alpha_before_premultiplying_rgb() {
    let mut image = RgbaPixels::from_pixel(1, 1, [12, 34, 56, 128]);

    tint_alpha_mask_image(&mut image, [200, 100, 50, 128]);

    assert_eq!(image.get_pixel(0, 0), [50, 25, 12, 64]);
}

#[test]
fn tint_skips_fully_transparent_pixels() {
    let mut image = RgbaPixels::from_pixel(1, 1, [9, 8, 7, 0]);

    tint_alpha_mask_image(&mut image, [200, 100, 50, 255]);

    assert_eq!(image.get_pixel(0, 0), [9, 8, 7, 0]);
}

#[test]
fn unpremultiply_divides_partly_transparent_pixels_only() {
    let mut pixels = vec![50, 100, 25, 128, 10, 20, 30, 255, 10, 20, 30, 0, 200, 1];
    unpremultiply_rgba(&mut pixels);
    assert_eq!(pixels, vec![99, 199, 49, 128, 10, 20, 30, 255, 10, 20, 30, 0, 200, 1]);
}

#[test]
fn unpremultiply_caps_channels_at_full_intensity() {
    let mut pixels = vec![200, 0, 0, 100];
    unpremultiply_rgba(&mut pixels);
    assert_eq!(pixels, vec![255, 0, 0, 100]);
}
