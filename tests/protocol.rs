use led_matrix::protocol::{
    brightness, encode, frame, image_data_to_command, pattern_double_gradient, pattern_full_brightness,
    pattern_gradient, pattern_lotus_horizontal, pattern_lotus_vertical, pattern_panic,
    pattern_percentage, pattern_zigzag, percentage, set_animate, set_color, set_sleep, static_pattern,
    DisplayIntent, StaticPattern,
};

fn numbered_bitmap() -> Vec<u8> {
    (0..306).map(|i| (i % 251) as u8).collect()
}

#[test]
fn brightness_frame() {
    assert_eq!(encode(&DisplayIntent::Brightness(120)), vec![0x32, 0xAC, 0x00, 120]);
    assert_eq!(brightness(120), vec![0x32, 0xAC, 0x00, 120]);
}

#[test]
fn percentage_frame() {
    assert_eq!(encode(&DisplayIntent::Percentage(57)), vec![0x32, 0xAC, 0x01, 0x00, 57]);
    assert_eq!(percentage(57), vec![0x32, 0xAC, 0x01, 0x00, 57]);
    assert_eq!(pattern_percentage(57), vec![0x32, 0xAC, 0x01, 0x00, 57]);
}

#[test]
fn percentage_above_range_is_clamped() {
    assert_eq!(encode(&DisplayIntent::Percentage(180)), vec![0x32, 0xAC, 0x01, 0x00, 100]);
    assert_eq!(encode(&DisplayIntent::Percentage(100)), vec![0x32, 0xAC, 0x01, 0x00, 100]);
    assert_eq!(encode(&DisplayIntent::Percentage(0)), vec![0x32, 0xAC, 0x01, 0x00, 0]);
}

#[test]
fn color_frame() {
    assert_eq!(encode(&DisplayIntent::Color(10, 20, 30)), vec![0x32, 0xAC, 0x13, 10, 20, 30]);
    assert_eq!(set_color(10, 20, 30), vec![0x32, 0xAC, 0x13, 10, 20, 30]);
}

#[test]
fn animate_and_sleep_frames() {
    assert_eq!(encode(&DisplayIntent::Animate(true)), vec![0x32, 0xAC, 0x04, 1]);
    assert_eq!(encode(&DisplayIntent::Animate(false)), vec![0x32, 0xAC, 0x04, 0]);
    assert_eq!(set_animate(true), vec![0x32, 0xAC, 0x04, 1]);
    assert_eq!(encode(&DisplayIntent::Sleep(true)), vec![0x32, 0xAC, 0x03, 1]);
    assert_eq!(set_sleep(false), vec![0x32, 0xAC, 0x03, 0]);
}

#[test]
fn pattern_ids_are_stable() {
    assert_eq!(pattern_gradient(), vec![0x32, 0xAC, 0x01, 1]);
    assert_eq!(pattern_double_gradient(), vec![0x32, 0xAC, 0x01, 2]);
    assert_eq!(pattern_lotus_horizontal(), vec![0x32, 0xAC, 0x01, 3]);
    assert_eq!(pattern_zigzag(), vec![0x32, 0xAC, 0x01, 4]);
    assert_eq!(pattern_full_brightness(), vec![0x32, 0xAC, 0x01, 5]);
    assert_eq!(pattern_panic(), vec![0x32, 0xAC, 0x01, 6]);
    assert_eq!(pattern_lotus_vertical(), vec![0x32, 0xAC, 0x01, 7]);
    let all = [
        StaticPattern::Gradient,
        StaticPattern::DoubleGradient,
        StaticPattern::LotusHorizontal,
        StaticPattern::Zigzag,
        StaticPattern::FullBrightness,
        StaticPattern::Panic,
        StaticPattern::LotusVertical,
    ];
    for (n, p) in all.iter().enumerate() {
        assert_eq!(p.id() as usize, n + 1);
        assert_eq!(static_pattern(*p), vec![0x32, 0xAC, 0x01, (n + 1) as u8]);
        assert_eq!(encode(&DisplayIntent::Pattern(*p)), vec![0x32, 0xAC, 0x01, (n + 1) as u8]);
    }
}

#[test]
fn idle_marker_frame() {
    assert_eq!(encode(&DisplayIntent::Idle(2)), vec![0x32, 0xAC, 0x14, 2]);
}

#[test]
fn noop_sends_nothing() {
    assert!(encode(&DisplayIntent::NoOp).is_empty());
}

#[test]
fn frame_prefixes_markers_and_opcode() {
    assert_eq!(frame(0x13, &[1, 2, 3]), vec![0x32, 0xAC, 0x13, 1, 2, 3]);
    assert_eq!(frame(0x08, &[]), vec![0x32, 0xAC, 0x08]);
}

#[test]
fn encoding_is_deterministic() {
    let intents = vec![
        DisplayIntent::Brightness(7),
        DisplayIntent::Percentage(42),
        DisplayIntent::Color(1, 2, 3),
        DisplayIntent::Bitmap(numbered_bitmap()),
        DisplayIntent::NoOp,
    ];
    for intent in &intents {
        assert_eq!(encode(intent), encode(intent));
    }
}

#[test]
fn wrong_size_bitmap_sends_nothing() {
    assert!(image_data_to_command(&[]).is_empty());
    assert!(image_data_to_command(&vec![1u8; 305]).is_empty());
    assert!(image_data_to_command(&vec![1u8; 307]).is_empty());
    assert!(encode(&DisplayIntent::Bitmap(vec![9u8; 10])).is_empty());
}

#[test]
fn full_bitmap_is_nine_columns_and_a_flush() {
    let img = numbered_bitmap();
    let bytes = image_data_to_command(&img);
    assert_eq!(bytes.len(), 346);
    for x in 0..9 {
        let f = &bytes[38 * x..38 * x + 38];
        assert_eq!(&f[..4], &[0x32, 0xAC, 0x07, x as u8]);
        for y in 0..34 {
            assert_eq!(f[4 + y], img[x + 9 * y]);
        }
    }
    assert_eq!(&bytes[342..], &[0x32, 0xAC, 0x08, 0x00]);
    assert_eq!(encode(&DisplayIntent::Bitmap(img)), bytes);
}
