//! Scenario tests for the line writer: byte placement, substitution,
//! wrapping, scrolling, and composition of sequential writes.

use blog_os::buffer::{ScreenChar, BUFFER_HEIGHT, BUFFER_WIDTH};
use blog_os::color::Color;
use blog_os::writer::Writer;

fn fresh_writer() -> Writer {
    Writer::new(Color::Green, Color::Black)
}

fn assert_same_surface(a: &Writer, b: &Writer) {
    assert_eq!(a.column(), b.column());
    for r in 0..BUFFER_HEIGHT {
        for c in 0..BUFFER_WIDTH {
            assert_eq!(a.cell_at(r, c), b.cell_at(r, c));
        }
    }
}

#[test]
fn trivial_assertion() {
    assert_eq!(1, 1);
}

#[test]
fn hello_scenario() {
    let mut w = fresh_writer();
    let attr = w.color();
    w.write_byte(b'H');
    assert_eq!(
        w.cell_at(BUFFER_HEIGHT - 1, 0),
        ScreenChar { ascii_character: b'H', color_code: attr }
    );
    assert_eq!(w.column(), 1);
    w.write_string("ello ");
    let expected = [b'e', b'l', b'l', b'o', b' '];
    for (i, &b) in expected.iter().enumerate() {
        assert_eq!(
            w.cell_at(BUFFER_HEIGHT - 1, 1 + i),
            ScreenChar { ascii_character: b, color_code: attr }
        );
    }
    assert_eq!(w.column(), 6);
    w.write_bytes(&[0xc3]);
    assert_eq!(
        w.cell_at(BUFFER_HEIGHT - 1, 6),
        ScreenChar { ascii_character: 0xfe, color_code: attr }
    );
    assert_eq!(w.column(), 7);
}

#[test]
fn wrap_scenario() {
    let mut w = fresh_writer();
    let attr = w.color();
    for _ in 0..BUFFER_WIDTH - 1 {
        w.write_byte(b'x');
    }
    assert_eq!(w.column(), BUFFER_WIDTH - 1);
    w.write_byte(b'A');
    assert_eq!(
        w.cell_at(BUFFER_HEIGHT - 1, BUFFER_WIDTH - 1),
        ScreenChar { ascii_character: b'A', color_code: attr }
    );
    assert_eq!(w.column(), BUFFER_WIDTH);
    w.write_byte(b'B');
    assert_eq!(
        w.cell_at(BUFFER_HEIGHT - 2, BUFFER_WIDTH - 1),
        ScreenChar { ascii_character: b'A', color_code: attr }
    );
    assert_eq!(
        w.cell_at(BUFFER_HEIGHT - 1, 0),
        ScreenChar { ascii_character: b'B', color_code: attr }
    );
    assert_eq!(w.column(), 1);
}

#[test]
fn wrap_equals_line_feed() {
    let mut with_wrap = fresh_writer();
    let mut with_feed = fresh_writer();
    for _ in 0..BUFFER_WIDTH {
        with_wrap.write_byte(b'a');
        with_feed.write_byte(b'a');
    }
    with_wrap.write_byte(b'b');
    with_feed.write_byte(b'\n');
    with_feed.write_byte(b'b');
    assert_same_surface(&with_wrap, &with_feed);
}

#[test]
fn substitution_stores_unknown_glyph() {
    for &b in &[0x00u8, 0x1f, 0x7f, 0x80, 0xff] {
        let mut w = fresh_writer();
        let attr = w.color();
        w.write_bytes(&[b]);
        assert_eq!(
            w.cell_at(BUFFER_HEIGHT - 1, 0),
            ScreenChar { ascii_character: 0xfe, color_code: attr }
        );
        assert_eq!(w.column(), 1);
    }
}

#[test]
fn printable_bounds_pass_through() {
    let mut w = fresh_writer();
    let attr = w.color();
    w.write_bytes(&[0x20, 0x7e]);
    assert_eq!(
        w.cell_at(BUFFER_HEIGHT - 1, 0),
        ScreenChar { ascii_character: 0x20, color_code: attr }
    );
    assert_eq!(
        w.cell_at(BUFFER_HEIGHT - 1, 1),
        ScreenChar { ascii_character: 0x7e, color_code: attr }
    );
}

#[test]
fn scroll_blank_stays_blank() {
    let mut w = fresh_writer();
    let attr = w.color();
    w.write_byte(b'\n');
    assert_eq!(w.column(), 0);
    for r in 0..BUFFER_HEIGHT {
        for c in 0..BUFFER_WIDTH {
            assert_eq!(w.cell_at(r, c), ScreenChar { ascii_character: b' ', color_code: attr });
        }
    }
}

#[test]
fn sequential_writes_compose() {
    let mut split = fresh_writer();
    split.write_string("AB");
    split.write_string("CD\nEF");
    let mut joined = fresh_writer();
    joined.write_string("ABCD\nEF");
    assert_same_surface(&split, &joined);
}

#[test]
fn scroll_keeps_history() {
    let mut w = fresh_writer();
    let attr = w.color();
    w.write_string("A\nB");
    assert_eq!(
        w.cell_at(BUFFER_HEIGHT - 2, 0),
        ScreenChar { ascii_character: b'A', color_code: attr }
    );
    assert_eq!(
        w.cell_at(BUFFER_HEIGHT - 1, 0),
        ScreenChar { ascii_character: b'B', color_code: attr }
    );
    assert_eq!(w.column(), 1);
}

#[test]
fn multibyte_chars_substituted_per_byte() {
    let mut w = fresh_writer();
    let attr = w.color();
    w.write_string("é");
    assert_eq!(w.column(), 2);
    for c in 0..2 {
        assert_eq!(
            w.cell_at(BUFFER_HEIGHT - 1, c),
            ScreenChar { ascii_character: 0xfe, color_code: attr }
        );
    }
}

#[test]
fn empty_write_changes_nothing() {
    let mut w = fresh_writer();
    let attr = w.color();
    w.write_string("");
    assert_eq!(w.column(), 0);
    assert_eq!(
        w.cell_at(BUFFER_HEIGHT - 1, 0),
        ScreenChar { ascii_character: b' ', color_code: attr }
    );
}

#[test]
fn full_row_sets_column_to_width() {
    let mut w = fresh_writer();
    let attr = w.color();
    for _ in 0..BUFFER_WIDTH {
        w.write_byte(b'z');
    }
    assert_eq!(w.column(), BUFFER_WIDTH);
    assert_eq!(
        w.cell_at(BUFFER_HEIGHT - 1, BUFFER_WIDTH - 1),
        ScreenChar { ascii_character: b'z', color_code: attr }
    );
    assert_eq!(
        w.cell_at(BUFFER_HEIGHT - 2, BUFFER_WIDTH - 1),
        ScreenChar { ascii_character: b' ', color_code: attr }
    );
}
