use lofi::device::display::{render, DisplayState, Lcd, LCD_WIDTH};
use lofi::music::arrangement::{Codename, Feature, Role};

#[test]
fn renders_some_pixels() {
    let state = DisplayState {
        node_id: 3,
        playing: true,
        bpm_milli: 90_000,
        role: Role::Pulse,
        role_mask: 1,
        spotlight: Role::Pulse,
        phrase: 0,
        selector: 3,
        codename: Codename::coin(123),
        next_codename: Codename::coin(456),
        bars_to_next: 7,
        beats_to_next_milli: 30_375,
        next_feature: Feature::DoubleHats,
        peers: 4,
        sync_error_us: -42,
        beat_phase_milli: 500,
    };
    let mut lcd = Lcd::new();
    render(&state, &mut lcd);
    let lit = lcd.pixels().iter().filter(|b| **b != 0).count();
    assert!(lit > 0);
    // Progress bar at half should light the left edge but not the right.
    assert!(lcd.pixel(2, 62));
    assert!(!lcd.pixel(LCD_WIDTH - 2, 62));
}

#[test]
fn pixels_set_and_clear_individually() {
    let mut lcd = Lcd::new();
    lcd.set_pixel(9, 3, true);
    assert!(lcd.pixel(9, 3));
    assert!(!lcd.pixel(8, 3) && !lcd.pixel(10, 3) && !lcd.pixel(9, 4));
    assert_eq!(lcd.pixels()[3 * 16 + 1], 0b0100_0000);
    lcd.set_pixel(9, 3, false);
    assert!(!lcd.pixel(9, 3));
    lcd.set_pixel(500, 3, true);
    assert!(lcd.pixels().iter().all(|b| *b == 0));
    assert!(!lcd.pixel(128, 0));
}

#[test]
fn rectangles_fill_and_frame() {
    let mut lcd = Lcd::new();
    lcd.fill_rect(10, 10, 3, 2, true);
    assert!(lcd.pixel(10, 10) && lcd.pixel(12, 11));
    assert!(!lcd.pixel(13, 10) && !lcd.pixel(10, 12));
    lcd.clear();
    lcd.frame_rect(20, 20, 4, 3);
    assert!(lcd.pixel(20, 20) && lcd.pixel(23, 22) && lcd.pixel(21, 20));
    assert!(!lcd.pixel(21, 21));
}

#[test]
fn text_and_numbers_advance_by_glyph() {
    let mut lcd = Lcd::new();
    assert_eq!(lcd.draw_text(0, 0, "AB", 1), 12);
    assert_eq!(lcd.draw_int(0, 10, -305, 2), 4 * 6 * 2);
    assert_eq!(lcd.draw_int(0, 30, 0, 1), 6);
    // The minus sign is the middle row of its cell.
    assert!(lcd.pixel(0, 10 + 3 * 2));
    assert!(!lcd.pixel(0, 10));
}
