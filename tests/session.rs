use led_matrix::presets::PresetManager;
use led_matrix::protocol::{encode, image_data_to_command, DisplayIntent, StaticPattern};
use led_matrix::render::{render_battery_display, render_clock};
use led_matrix::session::{mode_from_name, render, DisplaySession, Mode, Readings};

fn readings() -> Readings {
    Readings { cpu_percent: 37, ram_percent: 64, hour: 13, minute: 5, battery_percent: Some(42) }
}

#[test]
fn names_select_modes() {
    assert_eq!(mode_from_name("idle"), Mode::Idle);
    assert_eq!(mode_from_name("cpu"), Mode::Cpu);
    assert_eq!(mode_from_name("ram"), Mode::Ram);
    assert_eq!(mode_from_name("clock"), Mode::Clock);
    assert_eq!(mode_from_name("battery"), Mode::Battery);
    assert_eq!(mode_from_name("gradient"), Mode::Static(StaticPattern::Gradient));
    assert_eq!(mode_from_name("double_gradient"), Mode::Static(StaticPattern::DoubleGradient));
    assert_eq!(mode_from_name("zigzag"), Mode::Static(StaticPattern::Zigzag));
    assert_eq!(mode_from_name("lotus_h"), Mode::Static(StaticPattern::LotusHorizontal));
    assert_eq!(mode_from_name("lotus_v"), Mode::Static(StaticPattern::LotusVertical));
    assert_eq!(mode_from_name("full_brightness"), Mode::Static(StaticPattern::FullBrightness));
    assert_eq!(mode_from_name("panic"), Mode::Static(StaticPattern::Panic));
    assert_eq!(mode_from_name("my art"), Mode::Custom("my art".to_string()));
    assert_eq!(mode_from_name("Idle"), Mode::Custom("Idle".to_string()));
}

#[test]
fn render_each_mode() {
    let mut store = PresetManager::new();
    store.save_preset("art".to_string(), vec![77u8; 306]).unwrap();
    let r = readings();
    let bytes = |m: Mode, f: u8| encode(&render(&m, &r, f, &store));
    assert_eq!(bytes(Mode::Idle, 0), vec![0x32, 0xAC, 0x14, 0]);
    assert_eq!(bytes(Mode::Idle, 5), vec![0x32, 0xAC, 0x14, 1]);
    assert_eq!(bytes(Mode::Idle, 9), vec![0x32, 0xAC, 0x14, 2]);
    assert_eq!(bytes(Mode::Idle, 13), vec![0x32, 0xAC, 0x14, 0]);
    assert_eq!(bytes(Mode::Cpu, 0), vec![0x32, 0xAC, 0x01, 0x00, 37]);
    assert_eq!(bytes(Mode::Ram, 0), vec![0x32, 0xAC, 0x01, 0x00, 64]);
    assert_eq!(bytes(Mode::Clock, 0), image_data_to_command(&render_clock(13, 5)));
    assert_eq!(bytes(Mode::Battery, 0), image_data_to_command(&render_battery_display(Some(42))));
    assert_eq!(bytes(Mode::Static(StaticPattern::Panic), 0), vec![0x32, 0xAC, 0x01, 6]);
    assert_eq!(bytes(Mode::Custom("art".to_string()), 0), image_data_to_command(&vec![77u8; 306]));
    assert!(matches!(
        render(&Mode::Custom("gone".to_string()), &r, 0, &store),
        DisplayIntent::NoOp
    ));
    assert!(bytes(Mode::Custom("gone".to_string()), 0).is_empty());
}

#[test]
fn tick_with_one_of_two_connected_sends_once() {
    let mut session: DisplaySession<u32> = DisplaySession::new(2, PresetManager::new());
    assert!(!session.any_connected());
    let first = session.connect_device(1, 7);
    assert_eq!(first, vec![0x32, 0xAC, 0x00, 120]);
    assert!(session.any_connected());
    session.set_mode(1, Mode::Cpu);
    let out = session.tick(readings());
    assert_eq!(out.len(), 2);
    assert_eq!(out[0], None);
    assert_eq!(out[1], Some(vec![0x32, 0xAC, 0x01, 0x00, 37]));
    assert_eq!(out.iter().filter(|o| o.is_some()).count(), 1);
}

#[test]
fn disconnected_displays_are_skipped() {
    let mut session: DisplaySession<()> = DisplaySession::new(2, PresetManager::new());
    let out = session.tick(readings());
    assert_eq!(out, vec![None, None]);
    session.connect_device(0, ());
    session.connect_device(1, ());
    session.disconnect_device(0);
    let out = session.tick(readings());
    assert_eq!(out[0], None);
    assert_eq!(out[1], Some(vec![0x32, 0xAC, 0x14, 0]));
}

#[test]
fn missing_custom_bitmap_sends_nothing() {
    let mut session: DisplaySession<()> = DisplaySession::new(1, PresetManager::new());
    session.connect_device(0, ());
    session.set_mode(0, Mode::Custom("nothing".to_string()));
    assert_eq!(session.tick(readings()), vec![None]);
}

#[test]
fn idle_counter_wraps_and_cycles() {
    let mut session: DisplaySession<()> = DisplaySession::new(1, PresetManager::new());
    session.connect_device(0, ());
    let mut steps = Vec::new();
    for _ in 0..24 {
        let out = session.tick(readings());
        steps.push(out[0].as_ref().unwrap()[3]);
    }
    // The counter runs 1, 2, ... 24; the step is frame / 4 modulo 3.
    let want: Vec<u8> = (1..=24u32).map(|f| ((f / 4) % 3) as u8).collect();
    assert_eq!(steps, want);
    assert_eq!(&steps[0..12], &[0, 0, 0, 1, 1, 1, 1, 2, 2, 2, 2, 0]);
    assert_eq!(&steps[0..12], &steps[12..24]);
    session.idle_frame = 254;
    session.tick(readings());
    assert_eq!(session.idle_frame, 255);
    let out = session.tick(readings());
    assert_eq!(session.idle_frame, 0);
    assert_eq!(out[0], Some(vec![0x32, 0xAC, 0x14, 0]));
}

#[test]
fn brightness_and_faults() {
    let mut session: DisplaySession<()> = DisplaySession::new(2, PresetManager::new());
    assert_eq!(session.set_brightness(0, 40), None);
    assert_eq!(session.devices[0].brightness, 40);
    assert_eq!(session.connect_device(0, ()), vec![0x32, 0xAC, 0x00, 40]);
    assert_eq!(session.set_brightness(0, 90), Some(vec![0x32, 0xAC, 0x00, 90]));
    session.record_send_result(0, false);
    assert!(session.devices[0].faulted);
    assert!(!session.devices[1].faulted);
    session.record_send_result(0, true);
    assert!(!session.devices[0].faulted);
    session.record_send_result(1, false);
    session.connect_device(1, ());
    assert!(!session.devices[1].faulted);
}

#[test]
fn tick_takes_the_readings() {
    let mut session: DisplaySession<()> = DisplaySession::new(1, PresetManager::new());
    session.connect_device(0, ());
    session.set_mode(0, Mode::Clock);
    let out = session.tick(readings());
    assert_eq!(session.readings, readings());
    assert_eq!(out[0], Some(image_data_to_command(&render_clock(13, 5))));
}
