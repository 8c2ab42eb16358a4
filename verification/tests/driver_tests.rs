use vga_buffer::color::{Color, ColorCode};
use vga_buffer::grid::{Buffer, ScreenChar, BUFFER_HEIGHT, BUFFER_WIDTH};
use vga_buffer::writer::{Writer, _print, _print_important, _print_panic, PLACEHOLDER};

const LAST_ROW: usize = BUFFER_HEIGHT - 1;

fn default_code() -> ColorCode {
    ColorCode::new(Color::LightGrey, Color::Black)
}

fn fresh_writer() -> Writer {
    Writer::new(Buffer::new(), default_code())
}

fn cell(ch: u8, code: ColorCode) -> ScreenChar {
    ScreenChar { ascii_char: ch, color_code: code }
}

#[test]
fn encode_red_on_black() {
    assert_eq!(ColorCode::new(Color::Red, Color::Black).0, 0x04);
}

#[test]
fn encode_lightgrey_on_blue() {
    assert_eq!(ColorCode::new(Color::LightGrey, Color::Blue).0, 0x17);
}

#[test]
fn encode_all_pairs_pack_nibbles() {
    let colors = [
        Color::Black,
        Color::Blue,
        Color::Green,
        Color::Cyan,
        Color::Red,
        Color::Magenta,
        Color::Brown,
        Color::LightGrey,
        Color::DarkGrey,
        Color::LightBlue,
        Color::LightGreen,
        Color::LightCyan,
        Color::LightRed,
        Color::Pink,
        Color::Yellow,
        Color::White,
    ];
    for (bg_i, bg) in colors.iter().enumerate() {
        for (fg_i, fg) in colors.iter().enumerate() {
            let packed = ColorCode::new(*fg, *bg).0;
            assert_eq!(packed, ((bg_i as u8) << 4) | fg_i as u8);
        }
    }
}

#[test]
fn buffer_starts_zeroed_and_writer_at_column_zero() {
    let w = fresh_writer();
    assert_eq!(w.column_pos(), 0);
    assert_eq!(w.color_code(), default_code());
    assert_eq!(w.read_cell(0, 0), cell(0, ColorCode(0)));
    assert_eq!(w.read_cell(LAST_ROW, BUFFER_WIDTH - 1), cell(0, ColorCode(0)));
}

#[test]
fn grid_write_then_read_round_trips() {
    let mut b = Buffer::new();
    let code = ColorCode::new(Color::Yellow, Color::Blue);
    b.write(3, 7, cell(b'x', code));
    assert_eq!(b.read(3, 7), cell(b'x', code));
    assert_eq!(b.read(3, 6), cell(0, ColorCode(0)));
    assert_eq!(b.read(3, 8), cell(0, ColorCode(0)));
}

#[test]
fn printable_byte_lands_at_cursor() {
    let mut w = fresh_writer();
    w.write_byte(b'H');
    assert_eq!(w.read_cell(LAST_ROW, 0), cell(b'H', default_code()));
    assert_eq!(w.column_pos(), 1);
    w.write_byte(b'i');
    assert_eq!(w.read_cell(LAST_ROW, 1), cell(b'i', default_code()));
    assert_eq!(w.column_pos(), 2);
}

#[test]
fn width_plus_one_bytes_scroll_exactly_once() {
    let mut w = fresh_writer();
    let mut written: Vec<u8> = Vec::new();
    for i in 0..BUFFER_WIDTH + 1 {
        let ch = b'A' + (i % 26) as u8;
        written.push(ch);
        w.write_byte(ch);
    }
    // One implicit scroll: the full row moved up, the extra byte starts the
    // new last row, and the cursor sits just past it.
    assert_eq!(w.column_pos(), 1);
    assert_eq!(w.read_cell(LAST_ROW, 0), cell(written[BUFFER_WIDTH], default_code()));
    for c in 0..BUFFER_WIDTH {
        assert_eq!(w.read_cell(LAST_ROW - 1, c), cell(written[c], default_code()));
    }
    for c in 1..BUFFER_WIDTH {
        assert_eq!(w.read_cell(LAST_ROW, c), cell(b' ', default_code()));
    }
    // Rows further up were shifted once from all-zero rows.
    for r in 0..BUFFER_HEIGHT - 2 {
        for c in 0..BUFFER_WIDTH {
            assert_eq!(w.read_cell(r, c), cell(0, ColorCode(0)));
        }
    }
}

#[test]
fn newline_scrolls_rows_up_and_blanks_last_row() {
    let mut w = fresh_writer();
    w.write_byte(b'a');
    w.write_byte(b'b');
    w.write_byte(b'\n');
    assert_eq!(w.column_pos(), 0);
    assert_eq!(w.read_cell(LAST_ROW - 1, 0), cell(b'a', default_code()));
    assert_eq!(w.read_cell(LAST_ROW - 1, 1), cell(b'b', default_code()));
    for c in 0..BUFFER_WIDTH {
        assert_eq!(w.read_cell(LAST_ROW, c), cell(b' ', default_code()));
    }
}

#[test]
fn scroll_blanks_use_current_attribute() {
    let mut w = fresh_writer();
    let loud = ColorCode::new(Color::Yellow, Color::Blue);
    w.set_color(loud);
    w.write_byte(b'\n');
    for c in 0..BUFFER_WIDTH {
        assert_eq!(w.read_cell(LAST_ROW, c), cell(b' ', loud));
    }
}

#[test]
fn tab_advances_to_next_multiple_of_four() {
    let mut w = fresh_writer();
    w.write_byte(b'\t');
    assert_eq!(w.column_pos(), 4);
    w.write_byte(b'x');
    assert_eq!(w.column_pos(), 5);
    w.write_byte(b'\t');
    assert_eq!(w.column_pos(), 8);
    // No glyph was emitted over the skipped columns.
    for c in 0..4 {
        assert_eq!(w.read_cell(LAST_ROW, c), cell(0, ColorCode(0)));
    }
    assert_eq!(w.read_cell(LAST_ROW, 4), cell(b'x', default_code()));
}

#[test]
fn tab_clamps_to_last_column_near_margin() {
    let mut w = fresh_writer();
    let row: Vec<u8> = std::iter::repeat(b'.').take(BUFFER_WIDTH - 2).collect();
    w.write_bytes(&row);
    assert_eq!(w.column_pos(), BUFFER_WIDTH - 2);
    w.write_byte(b'\t');
    assert_eq!(w.column_pos(), BUFFER_WIDTH - 1);
    // Clamping wrote no glyph anywhere.
    assert_eq!(w.read_cell(LAST_ROW, BUFFER_WIDTH - 3), cell(b'.', default_code()));
    assert_eq!(w.read_cell(LAST_ROW, BUFFER_WIDTH - 2), cell(0, ColorCode(0)));
    assert_eq!(w.read_cell(LAST_ROW, BUFFER_WIDTH - 1), cell(0, ColorCode(0)));
}

#[test]
fn tab_from_full_row_clamps_rather_than_wrapping() {
    let mut w = fresh_writer();
    let row: Vec<u8> = std::iter::repeat(b'.').take(BUFFER_WIDTH).collect();
    w.write_bytes(&row);
    assert_eq!(w.column_pos(), BUFFER_WIDTH);
    w.write_byte(b'\t');
    assert_eq!(w.column_pos(), BUFFER_WIDTH - 1);
    // The full row is still in place: no scroll happened.
    assert_eq!(w.read_cell(LAST_ROW, 0), cell(b'.', default_code()));
}

#[test]
fn non_ascii_byte_becomes_placeholder() {
    let mut w = fresh_writer();
    w.write_bytes(&[0xc3]);
    assert_eq!(w.read_cell(LAST_ROW, 0), cell(PLACEHOLDER, default_code()));
    assert_eq!(w.column_pos(), 1);
}

#[test]
fn control_bytes_become_placeholder() {
    let mut w = fresh_writer();
    w.write_bytes(&[0x00, 0x1f, 0x7f, 0xff]);
    for c in 0..4 {
        assert_eq!(w.read_cell(LAST_ROW, c), cell(PLACEHOLDER, default_code()));
    }
    assert_eq!(w.column_pos(), 4);
}

#[test]
fn write_string_keeps_printable_ascii() {
    let mut w = fresh_writer();
    w.write_string("Hello!");
    let expected = b"Hello!";
    for (c, ch) in expected.iter().enumerate() {
        assert_eq!(w.read_cell(LAST_ROW, c), cell(*ch, default_code()));
    }
    assert_eq!(w.column_pos(), expected.len());
}

#[test]
fn write_string_substitutes_multibyte_chars() {
    // A non-ASCII character encodes as several bytes, none representable,
    // so each one is stored as the placeholder glyph.
    let mut w = fresh_writer();
    w.write_string("é");
    assert_eq!(w.column_pos(), 2);
    assert_eq!(w.read_cell(LAST_ROW, 0), cell(PLACEHOLDER, default_code()));
    assert_eq!(w.read_cell(LAST_ROW, 1), cell(PLACEHOLDER, default_code()));
}

#[test]
fn write_string_dispatches_tab_and_newline() {
    let mut w = fresh_writer();
    w.write_string("a\tb\nc");
    assert_eq!(w.read_cell(LAST_ROW - 1, 0), cell(b'a', default_code()));
    assert_eq!(w.read_cell(LAST_ROW - 1, 4), cell(b'b', default_code()));
    assert_eq!(w.read_cell(LAST_ROW, 0), cell(b'c', default_code()));
    assert_eq!(w.column_pos(), 1);
}

#[test]
fn set_color_affects_only_subsequent_writes() {
    let mut w = fresh_writer();
    w.write_byte(b'a');
    let loud = ColorCode::new(Color::White, Color::Red);
    w.set_color(loud);
    w.write_byte(b'b');
    assert_eq!(w.read_cell(LAST_ROW, 0), cell(b'a', default_code()));
    assert_eq!(w.read_cell(LAST_ROW, 1), cell(b'b', loud));
    assert_eq!(w.color_code(), loud);
}

#[test]
fn print_writes_with_current_attribute() {
    let mut w = fresh_writer();
    _print(&mut w, "ok");
    assert_eq!(w.read_cell(LAST_ROW, 0), cell(b'o', default_code()));
    assert_eq!(w.read_cell(LAST_ROW, 1), cell(b'k', default_code()));
    assert_eq!(w.column_pos(), 2);
}

#[test]
fn print_panic_highlights_and_restores_attribute() {
    let mut w = fresh_writer();
    let panic_code = ColorCode::new(Color::LightRed, Color::Black);
    _print_panic(&mut w, "bad");
    assert_eq!(w.color_code(), default_code());
    assert_eq!(w.read_cell(LAST_ROW, 0), cell(b'b', panic_code));
    assert_eq!(w.read_cell(LAST_ROW, 1), cell(b'a', panic_code));
    assert_eq!(w.read_cell(LAST_ROW, 2), cell(b'd', panic_code));
}

#[test]
fn print_important_highlights_and_restores_attribute() {
    let mut w = fresh_writer();
    let loud = ColorCode::new(Color::Green, Color::Black);
    w.set_color(loud);
    let highlight = ColorCode::new(Color::White, Color::Black);
    _print_important(&mut w, "ding");
    assert_eq!(w.color_code(), loud);
    assert_eq!(w.read_cell(LAST_ROW, 0), cell(b'd', highlight));
    assert_eq!(w.read_cell(LAST_ROW, 3), cell(b'g', highlight));
}

#[test]
fn clear_row_blanks_one_row_only() {
    let mut w = fresh_writer();
    w.write_byte(b'q');
    w.clear_row(0);
    for c in 0..BUFFER_WIDTH {
        assert_eq!(w.read_cell(0, c), cell(b' ', default_code()));
    }
    assert_eq!(w.read_cell(LAST_ROW, 0), cell(b'q', default_code()));
    assert_eq!(w.column_pos(), 1);
}

#[test]
fn long_text_wraps_line_by_line() {
    let mut w = fresh_writer();
    let text: String = std::iter::repeat('x').take(2 * BUFFER_WIDTH + 3).collect();
    w.write_string(&text);
    assert_eq!(w.column_pos(), 3);
    for c in 0..BUFFER_WIDTH {
        assert_eq!(w.read_cell(LAST_ROW - 2, c), cell(b'x', default_code()));
        assert_eq!(w.read_cell(LAST_ROW - 1, c), cell(b'x', default_code()));
    }
    for c in 0..3 {
        assert_eq!(w.read_cell(LAST_ROW, c), cell(b'x', default_code()));
    }
    assert_eq!(w.read_cell(LAST_ROW, 3), cell(b' ', default_code()));
}

#[test]
fn grid_holds_only_displayable_glyphs_after_clearing() {
    let mut w = fresh_writer();
    for r in 0..BUFFER_HEIGHT {
        w.clear_row(r);
    }
    w.write_string("mixed: \t tab, ü, done\n");
    w.write_bytes(&[0x00, 0x80, 0xfe, b'!']);
    for r in 0..BUFFER_HEIGHT {
        for c in 0..BUFFER_WIDTH {
            let ch = w.read_cell(r, c).ascii_char;
            assert!((0x20..=0x7e).contains(&ch) || ch == PLACEHOLDER);
        }
    }
}

#[test]
fn write_char_normalizes_non_representable_chars() {
    let mut w = fresh_writer();
    w.write_char('A');
    assert_eq!(w.read_cell(LAST_ROW, 0), cell(b'A', default_code()));
    // Characters outside printable ASCII become the placeholder glyph, even
    // ones whose low byte alone would look printable.
    w.write_char('\u{141}');
    assert_eq!(w.read_cell(LAST_ROW, 1), cell(PLACEHOLDER, default_code()));
    w.write_char('\u{80}');
    assert_eq!(w.read_cell(LAST_ROW, 2), cell(PLACEHOLDER, default_code()));
    assert_eq!(w.column_pos(), 3);
    // Newline and tab still dispatch as control bytes.
    w.write_char('\t');
    assert_eq!(w.column_pos(), 4);
    w.write_char('\n');
    assert_eq!(w.column_pos(), 0);
}
