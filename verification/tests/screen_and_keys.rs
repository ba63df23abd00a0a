use chip8::display::DisplayData;
use chip8::keypad::KeyPad;

#[test]
fn render_writes_one_glyph_per_pixel_and_a_break_per_row() {
    let mut d = DisplayData::new();
    d.pixels[0][0] = true;
    d.pixels[1][63] = true;
    let text = d.render("#", ".");
    assert_eq!(text.chars().count(), 32 * (64 + 1));
    let lines: Vec<&str> = text.split('\n').collect();
    assert_eq!(lines.len(), 33);
    assert_eq!(lines[32], "");
    assert_eq!(lines[0], format!("#{}", ".".repeat(63)));
    assert_eq!(lines[1], format!("{}#", ".".repeat(63)));
    assert_eq!(lines[2], ".".repeat(64));
}

#[test]
fn draw_frame_uses_blocks_for_lit_pixels() {
    let mut d = DisplayData::new();
    d.pixels[0][1] = true;
    let frame = d.draw();
    let first: String = frame.chars().take(6).collect();
    assert_eq!(first, "  ██  ");
    assert_eq!(frame.chars().count(), 32 * (64 * 2 + 1));
}

#[test]
fn plain_text_frame_for_print_display() {
    let d = DisplayData::new();
    let text = d.render("[]", "  ");
    assert!(text.starts_with("    "));
    assert!(!text.contains("[]"));
}

#[test]
fn keyboard_characters_map_to_keypad_bits() {
    assert_eq!(KeyPad::from_char('1').keys, 1 << 0x1);
    assert_eq!(KeyPad::from_char('2').keys, 1 << 0x2);
    assert_eq!(KeyPad::from_char('3').keys, 1 << 0x3);
    assert_eq!(KeyPad::from_char('4').keys, 1 << 0xC);
    assert_eq!(KeyPad::from_char('q').keys, 1 << 0x4);
    assert_eq!(KeyPad::from_char('w').keys, 1 << 0x5);
    assert_eq!(KeyPad::from_char('e').keys, 1 << 0x6);
    assert_eq!(KeyPad::from_char('r').keys, 1 << 0xD);
    assert_eq!(KeyPad::from_char('a').keys, 1 << 0x7);
    assert_eq!(KeyPad::from_char('s').keys, 1 << 0x8);
    assert_eq!(KeyPad::from_char('d').keys, 1 << 0x9);
    assert_eq!(KeyPad::from_char('f').keys, 1 << 0xE);
    assert_eq!(KeyPad::from_char('z').keys, 1 << 0xA);
    assert_eq!(KeyPad::from_char('x').keys, 1 << 0x0);
    assert_eq!(KeyPad::from_char('c').keys, 1 << 0xB);
    assert_eq!(KeyPad::from_char('v').keys, 1 << 0xF);
}

#[test]
fn other_characters_hold_no_key() {
    assert_eq!(KeyPad::from_char('Q').keys, 0);
    assert_eq!(KeyPad::from_char('5').keys, 0);
    assert_eq!(KeyPad::from_char(' ').keys, 0);
    assert_eq!(KeyPad::new().keys, 0);
}

#[test]
fn a_poll_without_a_plain_press_holds_no_key() {
    assert_eq!(KeyPad::from_press(None).keys, 0);
    assert_eq!(KeyPad::from_press(Some('w')).keys, 1 << 5);
    assert_eq!(KeyPad::from_press(Some('k')).keys, 0);
}
