use bevy_rgb_matrix::basic_demo::{greeting, initial_people, update_people};
use bevy_rgb_matrix::dither::{dither_channel, PWM_BITS};
use bevy_rgb_matrix::display::{rgb24_led_pixels, DisplayBackend, DisplayResource, WindowBackend};
use bevy_rgb_matrix::frag_demo;
use bevy_rgb_matrix::frame_count::{latest_frame, FrameCounter};
use bevy_rgb_matrix::game::{self, DisplayedFrame};
use bevy_rgb_matrix::gpu_demo;
use bevy_rgb_matrix::matrix_demo::SquareDemo;
use bevy_rgb_matrix::pixels::{LedPixel, MatrixRgb};
use bevy_rgb_matrix::settings::{MatrixSettings, FRAME_BYTES, HARDWARE_MAPPING};

#[test]
fn dither_keeps_black_and_white() {
    for y in 0..8 {
        for x in 0..8 {
            assert_eq!(dither_channel(0, x, y), 0);
            assert_eq!(dither_channel(255, x, y), 255);
        }
    }
}

#[test]
fn dither_exact_values() {
    assert_eq!(dither_channel(128, 0, 0), 126);
    assert_eq!(dither_channel(128, 1, 0), 128);
    assert_eq!(dither_channel(128, 0, 1), 128);
    assert_eq!(dither_channel(100, 3, 3), 100);
    assert_eq!(dither_channel(1, 3, 0), 2);
    assert_eq!(dither_channel(254, 0, 0), 252);
    assert_eq!(dither_channel(10, 2, 1), 10);
}

#[test]
fn dither_repeats_every_four_pixels() {
    for v in [0u8, 17, 64, 128, 200, 255] {
        for y in 0..4 {
            for x in 0..4 {
                assert_eq!(dither_channel(v, x, y), dither_channel(v, x + 4, y));
                assert_eq!(dither_channel(v, x, y), dither_channel(v, x, y + 8));
            }
        }
    }
}

#[test]
fn dither_is_monotone() {
    for y in 0..4 {
        for x in 0..4 {
            for v in 0..255u8 {
                assert!(dither_channel(v, x, y) <= dither_channel(v + 1, x, y));
            }
        }
    }
}

#[test]
fn dither_matches_panel_pwm_bits() {
    let settings = MatrixSettings::dithered();
    assert_eq!(settings.pwm_bits, Some(PWM_BITS as u8));
    assert_eq!(settings.pwm_lsb_nanoseconds, 300);
    assert_eq!(settings.brightness, 30);
}

#[test]
fn standard_settings() {
    let settings = MatrixSettings::standard();
    assert_eq!(settings.rows, 64);
    assert_eq!(settings.cols, 64);
    assert_eq!(settings.hardware_mapping, HARDWARE_MAPPING);
    assert_eq!(settings.hardware_mapping, "adafruit-hat-pwm");
    assert!(settings.show_refresh_rate);
    assert_eq!(settings.pwm_lsb_nanoseconds, 130);
    assert_eq!(settings.pwm_bits, None);
    assert_eq!(settings.brightness, 50);
}

#[test]
fn gpu_frame_buffer_starts_black() {
    let fb = gpu_demo::FrameBuffer::new(64, 64);
    assert_eq!(fb.width, 64);
    assert_eq!(fb.height, 64);
    assert_eq!(fb.data.len(), 64 * 64 * 4);
    assert!(fb.data.iter().all(|b| *b == 0));
}

#[test]
fn gpu_frame_buffer_draws_copied_frame() {
    let mut fb = gpu_demo::FrameBuffer::new(2, 1);
    fb.copy_frame(&[1, 2, 3, 4, 5, 6, 7, 8]);
    assert_eq!(fb.data, vec![1, 2, 3, 4, 5, 6, 7, 8]);
    assert_eq!(
        fb.led_pixels(),
        vec![
            LedPixel { x: 0, y: 0, color: MatrixRgb { r: 1, g: 2, b: 3 } },
            LedPixel { x: 1, y: 0, color: MatrixRgb { r: 5, g: 6, b: 7 } },
        ]
    );
}

#[test]
fn gpu_frame_buffer_draws_every_pixel() {
    let fb = gpu_demo::FrameBuffer::new(64, 64);
    let pixels = fb.led_pixels();
    assert_eq!(pixels.len(), 4096);
    assert_eq!(pixels[65], LedPixel { x: 1, y: 1, color: MatrixRgb { r: 0, g: 0, b: 0 } });
}

#[test]
fn gpu_demo_logs_first_ten_then_every_sixtieth() {
    let mut counter = FrameCounter::new();
    let mut logged = Vec::new();
    for _ in 0..130 {
        let n = counter.increment();
        if gpu_demo::should_log_frame(n) {
            logged.push(n);
        }
    }
    assert_eq!(logged, vec![1, 2, 3, 4, 5, 6, 7, 8, 9, 10, 60, 120]);
}

#[test]
fn frag_demo_logs_first_ten_then_every_three_hundredth() {
    let mut counter = FrameCounter::new();
    let mut logged = Vec::new();
    for _ in 0..601 {
        let n = counter.record_poll(true);
        if frag_demo::should_log_frame(n) {
            logged.push(n);
        }
    }
    assert_eq!(logged, vec![0, 1, 2, 3, 4, 5, 6, 7, 8, 9, 300, 600]);
}

#[test]
fn game_logs_every_thirtieth() {
    let mut counter = FrameCounter::new();
    let mut logged = Vec::new();
    for _ in 0..62 {
        let n = counter.increment();
        if game::should_log_frame(n) {
            logged.push(n);
        }
    }
    assert_eq!(logged, vec![1, 31, 61]);
}

#[test]
fn frame_counter_wraps() {
    let mut counter = FrameCounter { count: u32::MAX };
    assert_eq!(counter.record_poll(true), u32::MAX);
    assert_eq!(counter.count, 0);
    let mut counter = FrameCounter { count: u32::MAX };
    assert_eq!(counter.increment(), 0);
}

#[test]
fn frag_frame_buffer_copy_and_center() {
    let mut fb = frag_demo::FrameBuffer::new();
    assert_eq!(fb.data().len(), FRAME_BYTES);
    assert_eq!(fb.center_pixel(), MatrixRgb { r: 0, g: 0, b: 0 });
    let mut image = vec![0u8; FRAME_BYTES];
    let center = (32 * 64 + 32) * 4;
    image[center] = 9;
    image[center + 1] = 8;
    image[center + 2] = 7;
    fb.copy_frame(&image);
    assert_eq!(fb.data(), &image[..]);
    assert_eq!(fb.center_pixel(), MatrixRgb { r: 9, g: 8, b: 7 });
}

#[test]
fn frag_frame_buffer_dithers_when_drawn() {
    let mut fb = frag_demo::FrameBuffer::new();
    let image = vec![128u8; FRAME_BYTES];
    fb.copy_frame(&image);
    let pixels = fb.led_pixels();
    assert_eq!(pixels.len(), 4096);
    assert_eq!(pixels[0], LedPixel { x: 0, y: 0, color: MatrixRgb { r: 126, g: 126, b: 126 } });
    assert_eq!(pixels[1], LedPixel { x: 1, y: 0, color: MatrixRgb { r: 128, g: 128, b: 128 } });
    assert_eq!(pixels[64], LedPixel { x: 0, y: 1, color: MatrixRgb { r: 128, g: 128, b: 128 } });
}

#[test]
fn game_redraws_only_changed_frames() {
    let mut shown = DisplayedFrame::new();
    let frame = vec![1u8, 2, 3, 4];
    assert!(shown.needs_redraw(&frame));
    shown.mark_displayed(frame.clone());
    assert!(!shown.needs_redraw(&frame));
    assert!(shown.needs_redraw(&vec![1u8, 2, 3, 5]));
    assert!(shown.needs_redraw(&Vec::new()));
}

#[test]
fn square_toggles_between_eight_and_sixteen() {
    let mut demo = SquareDemo::new();
    assert_eq!(demo.square_size, 8);
    demo.on_timer(false);
    assert_eq!(demo.square_size, 8);
    demo.on_timer(true);
    assert_eq!(demo.square_size, 16);
    demo.on_timer(true);
    assert_eq!(demo.square_size, 8);
}

#[test]
fn square_frame_is_red_square_on_black() {
    let demo = SquareDemo::new();
    let frame = demo.frame();
    assert_eq!(frame.background, MatrixRgb { r: 0, g: 0, b: 0 });
    assert_eq!(frame.pixels.len(), 64);
    assert_eq!(frame.pixels[0], LedPixel { x: 0, y: 0, color: MatrixRgb { r: 255, g: 0, b: 0 } });
    assert_eq!(frame.pixels[1], LedPixel { x: 0, y: 1, color: MatrixRgb { r: 255, g: 0, b: 0 } });
    assert_eq!(frame.pixels[63], LedPixel { x: 7, y: 7, color: MatrixRgb { r: 255, g: 0, b: 0 } });
    let big = SquareDemo { square_size: 16 }.frame();
    assert_eq!(big.pixels.len(), 256);
    assert_eq!(SquareDemo { square_size: -3 }.frame().pixels.len(), 0);
}

#[test]
fn people_are_renamed_once() {
    let mut people = initial_people();
    assert_eq!(people, vec!["Elaina Proctor", "Renzo Hume", "Zayna Nieves"]);
    update_people(&mut people);
    assert_eq!(people, vec!["Elaina Hume", "Renzo Hume", "Zayna Nieves"]);
    update_people(&mut people);
    assert_eq!(people, vec!["Elaina Hume", "Renzo Hume", "Zayna Nieves"]);
}

#[test]
fn only_first_match_is_renamed() {
    let mut people = vec!["A".to_string(), "Elaina Proctor".to_string(), "Elaina Proctor".to_string()];
    update_people(&mut people);
    assert_eq!(people, vec!["A", "Elaina Hume", "Elaina Proctor"]);
}

#[test]
fn greetings() {
    assert_eq!(greeting(&"Elaina Hume".to_string()), "hello Elaina Hume!");
    assert_eq!(greeting(&String::new()), "hello !");
}

#[test]
fn window_backend_is_panel_sized() {
    let mut backend = WindowBackend::new().unwrap();
    assert_eq!(backend.width(), 64);
    assert_eq!(backend.height(), 64);
    assert!(backend.write_frame(&[1, 2, 3]).is_ok());
    let resource = DisplayResource(Box::new(backend));
    assert_eq!(resource.0.width(), 64);
}

#[test]
fn rgb24_frame_pixels() {
    let mut data = vec![0u8; 64 * 64 * 3];
    let k = 5 * 64 + 3;
    data[k * 3] = 10;
    data[k * 3 + 1] = 20;
    data[k * 3 + 2] = 30;
    let pixels = rgb24_led_pixels(&data);
    assert_eq!(pixels.len(), 4096);
    assert_eq!(pixels[k], LedPixel { x: 3, y: 5, color: MatrixRgb { r: 10, g: 20, b: 30 } });
    assert_eq!(pixels[0], LedPixel { x: 0, y: 0, color: MatrixRgb { r: 0, g: 0, b: 0 } });
}

#[test]
fn greeting_after_rename_matches_expected_output() {
    let mut people = initial_people();
    update_people(&mut people);
    let lines: Vec<String> = people.iter().map(greeting).collect();
    assert_eq!(lines, vec!["hello Elaina Hume!", "hello Renzo Hume!", "hello Zayna Nieves!"]);
}

#[test]
fn polls_without_frames_are_not_counted() {
    let mut counter = FrameCounter::new();
    let polls = [true, false, false, true, true, false, true];
    for received in polls {
        counter.record_poll(received);
    }
    assert_eq!(counter.count, 4);
    assert_eq!(counter.record_poll(false), 4);
    assert_eq!(counter.count, 4);
}

#[test]
fn latest_frame_is_the_newest() {
    assert_eq!(latest_frame(Vec::new()), None);
    assert_eq!(latest_frame(vec![vec![1u8]]), Some(vec![1u8]));
    assert_eq!(latest_frame(vec![vec![1u8], vec![2, 3], vec![4]]), Some(vec![4u8]));
}

fn byte_to_level(r: u8) -> u32 {
    if r == 255 { 127 } else { (r / 2) as u32 }
}

#[test]
fn dither_tile_average() {
    for v in 0..=255u8 {
        for (x0, y0) in [(0usize, 0usize), (4, 8), (12, 60)] {
            let mut sum = 0u32;
            for y in 0..4 {
                for x in 0..4 {
                    sum += byte_to_level(dither_channel(v, x0 + x, y0 + y));
                }
            }
            assert_eq!(sum, 2032 * (v as u32) / 255);
        }
    }
}
