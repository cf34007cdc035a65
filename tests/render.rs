use led_matrix::render::{
    blank_bitmap, render_battery_bar, render_battery_display, render_binary_number,
    render_breathing_animation, render_clock, render_clock_display,
};

fn read_binary(img: &[u8], col: usize, row: usize) -> u32 {
    let mut n = 0u32;
    for y in row..row + 8 {
        n = 2 * n + if img[col + 9 * y] == 200 { 1 } else { 0 };
    }
    n
}

#[test]
fn clock_shows_hour_and_minute_in_binary() {
    let img = render_clock(13, 5);
    assert_eq!(img.len(), 306);
    assert_eq!(read_binary(&img, 0, 0), 13);
    assert_eq!(read_binary(&img, 1, 0), 13);
    assert_eq!(read_binary(&img, 0, 17), 5);
    // 13 is 00001101: rows 4, 5 and 7 are ones, the rest zeros.
    let column: Vec<u8> = (0..8).map(|y| img[9 * y]).collect();
    assert_eq!(column, vec![30, 30, 30, 30, 200, 200, 30, 200]);
    assert_eq!(img[2], 0);
    assert_eq!(img[9 * 8], 0);
    assert_eq!(img[9 * 16], 0);
    assert_eq!(img[9 * 25], 0);
}

#[test]
fn clock_for_the_current_time_is_in_range() {
    let img = render_clock_display();
    assert_eq!(img.len(), 306);
    assert!(read_binary(&img, 0, 0) < 24);
    assert!(read_binary(&img, 0, 17) < 60);
    assert!(img.iter().any(|&c| c == 30 || c == 200));
}

#[test]
fn binary_number_is_clipped_at_the_edges() {
    let mut img = blank_bitmap();
    render_binary_number(&mut img, 255, 8, 0);
    assert!(img.iter().all(|&c| c == 0));
    render_binary_number(&mut img, 255, 0, 30);
    for y in 30..34 {
        assert_eq!(img[9 * y], 200);
        assert_eq!(img[1 + 9 * y], 200);
    }
    assert_eq!(img.iter().filter(|&&c| c != 0).count(), 8);
}

#[test]
fn battery_bar_fills_from_the_bottom() {
    let mut img = blank_bitmap();
    render_battery_bar(&mut img, 50);
    // 50 % of 34 rows is 17 rows, at brightness 150.
    for y in 0..34 {
        let want = if y >= 17 { 150 } else { 20 };
        assert_eq!(img[9 * y], want);
        assert_eq!(img[1 + 9 * y], want);
        assert_eq!(img[2 + 9 * y], 0);
    }
}

#[test]
fn battery_bar_tiers() {
    let mut img = blank_bitmap();
    render_battery_bar(&mut img, 80);
    assert_eq!(img[9 * 33], 100);
    assert_eq!(img[9 * 6], 20);
    assert_eq!(img[9 * 7], 100);
    render_battery_bar(&mut img, 10);
    assert_eq!(img[9 * 33], 255);
    // 10 % of 34 rows is 3 rows.
    assert_eq!(img[9 * 31], 255);
    assert_eq!(img[9 * 30], 20);
    render_battery_bar(&mut img, 0);
    assert_eq!(img[9 * 33], 20);
    render_battery_bar(&mut img, 250);
    assert_eq!(img[0], 100);
}

#[test]
fn battery_display_combines_gauge_and_number() {
    let img = render_battery_display(Some(75));
    assert_eq!(read_binary(&img, 0, 8), 75);
    // 75 % lights 25 rows, from row 9 down.
    assert_eq!(img[9 * 33], 100);
    assert_eq!(img[9 * 16], 100);
    assert_eq!(img[9 * 0], 20);
    assert_eq!(img[4], 0);
    let full = render_battery_display(None);
    assert_eq!(full, render_battery_display(Some(100)));
    assert_eq!(read_binary(&full, 0, 8), 100);
}

#[test]
fn breathing_levels() {
    assert!(render_breathing_animation(0).iter().all(|&c| c == 0));
    assert!(render_breathing_animation(64).iter().all(|&c| c == 127));
    assert!(render_breathing_animation(128).iter().all(|&c| c == 255));
    assert!(render_breathing_animation(192).iter().all(|&c| c == 127));
    assert!(render_breathing_animation(255).iter().all(|&c| c == 1));
    assert_eq!(render_breathing_animation(17).len(), 306);
}
