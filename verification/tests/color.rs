//! Tests for the color palette and the packed attribute byte.

use blog_os::color::{Color, ColorCode};

const PALETTE: [Color; 16] = [
    Color::Black,
    Color::Blue,
    Color::Green,
    Color::Cyan,
    Color::Red,
    Color::Magenta,
    Color::Brown,
    Color::LightGray,
    Color::DarkGray,
    Color::LightBlue,
    Color::LightGreen,
    Color::LightCyan,
    Color::LightRed,
    Color::Pink,
    Color::Yellow,
    Color::White,
];

#[test]
fn attribute_packing_all_pairs() {
    for (fi, &fg) in PALETTE.iter().enumerate() {
        for (bi, &bg) in PALETTE.iter().enumerate() {
            let code = ColorCode::new(fg, bg);
            assert_eq!(code.as_byte(), ((bi as u8) << 4) | (fi as u8));
            assert_eq!(code.foreground(), fg);
            assert_eq!(code.background(), bg);
        }
    }
}

#[test]
fn color_codes_are_palette_indices() {
    for (i, &color) in PALETTE.iter().enumerate() {
        assert_eq!(color.code(), i as u8);
        assert_eq!(Color::from_code(i as u8), color);
    }
}

#[test]
fn green_on_black_packs_low_nibble() {
    let code = ColorCode::new(Color::Green, Color::Black);
    assert_eq!(code.as_byte(), 0x02);
}

#[test]
fn white_on_blue_packs_both_nibbles() {
    let code = ColorCode::new(Color::White, Color::Blue);
    assert_eq!(code.as_byte(), 0x1f);
}
