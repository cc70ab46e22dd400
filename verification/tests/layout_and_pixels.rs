use bevy_rgb_matrix::copy_layout::{texture_row_pitch, CopyLayout};
use bevy_rgb_matrix::matrix_ffi::{has_enough_colors, pixels_needed};
use bevy_rgb_matrix::pixels::{dithered_led_pixels, rgba_led_pixels, unpad_rows, LedPixel, MatrixRgb};

#[test]
fn copy_layout_of_panel_frame() {
    let layout = CopyLayout::for_extent(64, 64);
    assert_eq!(layout.padded_bytes_per_row, 256);
    assert_eq!(layout.buffer_size, 256 * 64);
}

#[test]
fn copy_layout_pads_short_rows() {
    // 10 RGBA pixels are 40 bytes, padded up to one 256-byte row.
    let layout = CopyLayout::for_extent(10, 3);
    assert_eq!(layout.padded_bytes_per_row, 256);
    assert_eq!(layout.buffer_size, 768);
}

#[test]
fn copy_layout_pads_to_next_multiple() {
    // 100 RGBA pixels are 400 bytes, padded to 512.
    let layout = CopyLayout::for_extent(100, 2);
    assert_eq!(layout.padded_bytes_per_row, 512);
    assert_eq!(layout.buffer_size, 1024);
}

#[test]
fn copy_layout_of_empty_extent() {
    let layout = CopyLayout::for_extent(0, 5);
    assert_eq!(layout.padded_bytes_per_row, 0);
    assert_eq!(layout.buffer_size, 0);
}

#[test]
fn driver_pitch_matches_copier_for_rgba() {
    for width in [1u32, 10, 63, 64, 65, 100, 1000] {
        assert_eq!(
            texture_row_pitch(width, 1, 4),
            CopyLayout::for_extent(width, 1).padded_bytes_per_row
        );
    }
}

#[test]
fn driver_pitch_with_block_compressed_format() {
    // 4x4 blocks of 16 bytes: 64 texels are 16 blocks, 256 bytes.
    assert_eq!(texture_row_pitch(64, 4, 16), 256);
    // 8 texels are 2 blocks, 32 bytes, padded to 256.
    assert_eq!(texture_row_pitch(8, 4, 16), 256);
    assert_eq!(texture_row_pitch(0, 4, 16), 0);
}

#[test]
fn unpad_aligned_rows_is_unchanged() {
    let padded: Vec<u8> = (0..24).collect();
    assert_eq!(unpad_rows(padded.clone(), 8, 8, 3), padded);
}

#[test]
fn unpad_drops_row_padding() {
    let padded: Vec<u8> = (0..16).collect();
    assert_eq!(unpad_rows(padded, 8, 6, 2), vec![0, 1, 2, 3, 4, 5, 8, 9, 10, 11, 12, 13]);
}

#[test]
fn unpad_takes_at_most_height_rows() {
    let padded: Vec<u8> = (0..24).collect();
    assert_eq!(unpad_rows(padded, 8, 2, 2), vec![0, 1, 8, 9]);
}

#[test]
fn unpad_keeps_short_last_row() {
    let padded: Vec<u8> = (0..11).collect();
    assert_eq!(unpad_rows(padded, 8, 6, 4), vec![0, 1, 2, 3, 4, 5, 8, 9, 10]);
}

#[test]
fn unpad_of_panel_frame() {
    // 64 rows of 256 bytes, each holding 256 image bytes of which 256 are kept.
    let mut padded = Vec::new();
    for row in 0..64u32 {
        for col in 0..256u32 {
            padded.push(((row * 7 + col) % 251) as u8);
        }
    }
    let image = unpad_rows(padded.clone(), 256, 256, 64);
    assert_eq!(image, padded);
    assert_eq!(image.len(), 64 * 64 * 4);
}

#[test]
fn unpad_of_empty_buffer() {
    assert_eq!(unpad_rows(Vec::new(), 8, 6, 4), Vec::<u8>::new());
}

fn px(x: i32, y: i32, r: u8, g: u8, b: u8) -> LedPixel {
    LedPixel { x, y, color: MatrixRgb { r, g, b } }
}

#[test]
fn rgba_pixels_of_full_frame() {
    let data: Vec<u8> = (0..16).collect();
    assert_eq!(
        rgba_led_pixels(&data, 2, 2),
        vec![px(0, 0, 0, 1, 2), px(1, 0, 4, 5, 6), px(0, 1, 8, 9, 10), px(1, 1, 12, 13, 14)]
    );
}

#[test]
fn rgba_pixels_skip_what_data_does_not_cover() {
    // 7 bytes: pixel 0 (bytes 0..3) and pixel 1 (bytes 4..7) have their colour.
    let data: Vec<u8> = (0..7).collect();
    assert_eq!(rgba_led_pixels(&data, 2, 2), vec![px(0, 0, 0, 1, 2), px(1, 0, 4, 5, 6)]);
    let data: Vec<u8> = (0..6).collect();
    assert_eq!(rgba_led_pixels(&data, 2, 2), vec![px(0, 0, 0, 1, 2)]);
    assert_eq!(rgba_led_pixels(&[1, 2], 2, 2), vec![]);
}

#[test]
fn rgba_pixels_ignore_extra_data() {
    let data: Vec<u8> = (0..40).collect();
    assert_eq!(rgba_led_pixels(&data, 1, 2), vec![px(0, 0, 0, 1, 2), px(0, 1, 4, 5, 6)]);
}

#[test]
fn dithered_pixels_use_position() {
    let data = vec![128u8, 0, 255, 255, 128, 128, 0, 0];
    assert_eq!(
        dithered_led_pixels(&data, 2, 1),
        vec![px(0, 0, 126, 0, 255), px(1, 0, 128, 128, 0)]
    );
}

#[test]
fn bulk_upload_sizes() {
    assert_eq!(pixels_needed(64, 32), 2048);
    assert_eq!(pixels_needed(0, 32), 0);
    // A negative side converts to a huge count, which saturates.
    assert_eq!(pixels_needed(-1, 2), usize::MAX);
    assert!(has_enough_colors(2048, 64, 32));
    assert!(!has_enough_colors(2047, 64, 32));
}

#[test]
fn matrix_rgb_default_is_black() {
    assert_eq!(MatrixRgb::default(), MatrixRgb { r: 0, g: 0, b: 0 });
}
