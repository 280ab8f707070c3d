use mybox::pixels::{premul_rgba_to_u32, premultiply_rgba8, unpremultiply_rgba8};

#[test]
fn opaque_pixel_packs_directly() {
    assert_eq!(premul_rgba_to_u32(0xFF, 0x80, 0x40, 0xFF), 0x00FF_8040);
}

#[test]
fn fully_transparent_pixel_is_zero() {
    assert_eq!(premul_rgba_to_u32(0xFF, 0x80, 0x40, 0x00), 0x0000_0000);
}

#[test]
fn semi_transparent_pixel_is_unpremultiplied() {
    assert_eq!(premul_rgba_to_u32(0x80, 0x40, 0x20, 0x80), 0x00FF_7F3F);
}

#[test]
fn semi_transparent_channel_clamps_to_255() {
    assert_eq!(premul_rgba_to_u32(0xFF, 0x80, 0x40, 0x80), 0x00FF_FF7F);
}

#[test]
fn premultiply_rgba8_semi_transparent() {
    assert_eq!(premultiply_rgba8(&[255, 128, 64, 128]), vec![128, 64, 32, 128]);
}

#[test]
fn premultiply_rgba8_zero_alpha_collapses() {
    assert_eq!(premultiply_rgba8(&[255, 255, 255, 0]), vec![0, 0, 0, 0]);
}

#[test]
fn premultiply_rgba8_opaque_unchanged() {
    assert_eq!(premultiply_rgba8(&[10, 20, 30, 255]), vec![10, 20, 30, 255]);
}

#[test]
fn unpremultiply_round_trips_opaque_and_transparent() {
    assert_eq!(unpremultiply_rgba8(&[255, 255, 255, 0]), vec![0, 0, 0, 0]);
    assert_eq!(unpremultiply_rgba8(&[255, 0, 0, 255]), vec![255, 0, 0, 255]);
}

#[test]
fn trailing_partial_pixel_is_dropped() {
    assert_eq!(premultiply_rgba8(&[10, 20, 30, 255, 7, 8]), vec![10, 20, 30, 255]);
    assert_eq!(unpremultiply_rgba8(&[1, 2, 3]), Vec::<u8>::new());
}

#[test]
fn opaque_buffer_round_trips_exactly() {
    let bytes = [12u8, 200, 7, 255, 0, 0, 0, 255, 255, 255, 255, 255];
    let pre = premultiply_rgba8(&bytes);
    assert_eq!(pre, bytes.to_vec());
    assert_eq!(unpremultiply_rgba8(&pre), bytes.to_vec());
}

#[test]
fn unpremultiply_scales_and_clamps_channels() {
    // 64 * 255 / 128 = 127; 200 * 255 / 128 = 398 -> 255.
    assert_eq!(unpremultiply_rgba8(&[64, 200, 0, 128]), vec![127, 255, 0, 128]);
}

fn fill_2x2() -> Vec<u8> {
    // (0,0) red, (1,0) green, (0,1) blue, (1,1) white.
    vec![255, 0, 0, 255, 0, 255, 0, 255, 0, 0, 255, 255, 255, 255, 255, 255]
}

#[test]
fn crop_copies_the_selected_pixels_row_by_row() {
    let img = fill_2x2();
    assert_eq!(mybox::pixels::crop_rgba8(&img, 2, 2, 1, 0, 1, 2), vec![0, 255, 0, 255, 255, 255, 255, 255]);
    assert_eq!(mybox::pixels::crop_rgba8(&img, 2, 2, 0, 0, 2, 2), img);
}

#[test]
fn crop_clamps_an_overhanging_selection() {
    let img = fill_2x2();
    assert_eq!(mybox::pixels::crop_rgba8(&img, 2, 2, 1, 1, 10, 10), vec![255, 255, 255, 255]);
    assert_eq!(mybox::pixels::crop_rgba8(&img, 2, 2, 5, 5, 1, 1), Vec::<u8>::new());
}

#[test]
fn crop_image_returns_exact_subrect_bytes() {
    let img = fill_2x2();
    let bytes = mybox::pixels::crop_rgba8(&img, 2, 2, 1, 1, 1, 1);
    assert_eq!(bytes.len(), 4);
    assert_eq!(bytes, vec![255, 255, 255, 255]);
}

#[test]
fn crop_image_clamps_out_of_bounds_region() {
    let img = fill_2x2();
    let bytes = mybox::pixels::crop_rgba8(&img, 2, 2, 1, 1, 100, 100);
    assert_eq!(bytes.len(), 4, "clamped to the 1x1 bottom-right pixel");
    assert_eq!(bytes, vec![255, 255, 255, 255]);
}
