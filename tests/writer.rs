use fairy_vga::vga::{Color, ColorCode, ScreenChar, Writer};

fn yellow_on_black() -> ColorCode {
    ColorCode::new(Color::Yellow, Color::Black)
}

#[test]
fn color_code_packs_background_high() {
    assert_eq!(yellow_on_black().value(), 0x0e);
    assert_eq!(ColorCode::new(Color::White, Color::Blue).value(), 0x1f);
    assert_eq!(ColorCode::new(Color::Black, Color::White).value(), 0xf0);
}

#[test]
fn write_ab_places_two_glyphs() {
    let color = yellow_on_black();
    let mut w = Writer::initialize(color);
    w.write_string("AB");
    assert_eq!(w.cell(24, 0), ScreenChar::new(b'A', color));
    assert_eq!(w.cell(24, 1), ScreenChar::new(b'B', color));
    assert_eq!(w.column_position(), 2);
    assert_eq!(w.cell(23, 0), ScreenChar::new(b' ', color));
}

#[test]
fn write_81_wraps_once() {
    let color = yellow_on_black();
    let mut w = Writer::initialize(color);
    let s = "x".repeat(81);
    w.write_string(&s);
    assert_eq!(w.column_position(), 1);
    assert_eq!(w.cell(24, 0), ScreenChar::new(b'x', color));
    for c in 1..80 {
        assert_eq!(w.cell(24, c), ScreenChar::new(b' ', color));
    }
    for c in 0..80 {
        assert_eq!(w.cell(23, c), ScreenChar::new(b'x', color));
    }
    assert_eq!(w.cell(22, 0), ScreenChar::new(b' ', color));
}

#[test]
fn unprintable_bytes_become_placeholder() {
    let color = yellow_on_black();
    let mut w = Writer::initialize(color);
    w.write_string("a\tb\u{e9}");
    assert_eq!(w.cell(24, 0), ScreenChar::new(b'a', color));
    assert_eq!(w.cell(24, 1), ScreenChar::new(0xfe, color));
    assert_eq!(w.cell(24, 2), ScreenChar::new(b'b', color));
    assert_eq!(w.cell(24, 3), ScreenChar::new(0xfe, color));
    assert_eq!(w.cell(24, 4), ScreenChar::new(0xfe, color));
    assert_eq!(w.column_position(), 5);
}

#[test]
fn newline_scrolls_and_resets_column() {
    let color = yellow_on_black();
    let mut w = Writer::initialize(color);
    w.write_string("hi");
    w.write_byte(b'\n');
    assert_eq!(w.column_position(), 0);
    assert_eq!(w.cell(23, 0), ScreenChar::new(b'h', color));
    assert_eq!(w.cell(23, 1), ScreenChar::new(b'i', color));
    assert_eq!(w.cell(24, 0), ScreenChar::new(b' ', color));
    assert_eq!(w.cell(24, 1), ScreenChar::new(b' ', color));
}

#[test]
fn top_row_is_lost_after_scroll() {
    let color = yellow_on_black();
    let mut w = Writer::initialize(color);
    w.write_string("top");
    for _ in 0..24 {
        w.write_byte(b'\n');
    }
    assert_eq!(w.cell(0, 0), ScreenChar::new(b't', color));
    w.write_byte(b'\n');
    assert_eq!(w.cell(0, 0), ScreenChar::new(b' ', color));
}

#[test]
fn two_writes_equal_one_joined_write() {
    let color = yellow_on_black();
    let mut split = Writer::initialize(color);
    split.write_string("hello\nwor");
    split.write_string("ld and more text than fits on one line of the screen, wrapping once");
    let mut whole = Writer::initialize(color);
    whole.write_string("hello\nworld and more text than fits on one line of the screen, wrapping once");
    assert_eq!(split.column_position(), whole.column_position());
    for r in 0..25 {
        for c in 0..80 {
            assert_eq!(split.cell(r, c), whole.cell(r, c));
        }
    }
}
