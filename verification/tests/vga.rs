use dbos::vga_buffer::{Color, ColorCode, Writer, BUFFER_WIDTH};

fn default_colors() -> ColorCode {
    ColorCode::new(Color::White, Color::Blue)
}

fn text_of(row: &[u8]) -> &[u8] {
    let end = row.iter().rposition(|&b| b != b' ').map_or(0, |i| i + 1);
    &row[..end]
}

#[test]
fn color_codes_pack_background_high() {
    assert_eq!(ColorCode::new(Color::White, Color::Blue).to_byte(), 0x1f);
    assert_eq!(ColorCode::new(Color::Black, Color::Black).to_byte(), 0x00);
    assert_eq!(ColorCode::new(Color::Yellow, Color::DarkGray).to_byte(), 0x8e);
}

#[test]
fn finished_line_scrolls_into_the_read_row() {
    let mut writer = Writer::new(default_colors());
    writer.write_string("hello\n");
    let row = writer.read();
    assert_eq!(row.len(), BUFFER_WIDTH);
    assert_eq!(text_of(&row), b"hello");
}

#[test]
fn long_lines_wrap_onto_a_fresh_row() {
    let mut writer = Writer::new(default_colors());
    for _ in 0..BUFFER_WIDTH {
        writer.write_byte(b'a');
    }
    writer.write_byte(b'b');
    writer.write_byte(b'\n');
    // The row of eighty letters scrolled up once for the wrap and once for
    // the newline; the read row holds the wrapped remainder.
    let row = writer.read();
    assert_eq!(text_of(&row), b"b");
}

#[test]
fn unprintable_bytes_are_replaced() {
    let mut writer = Writer::new(default_colors());
    writer.write_string("a\u{7f}b\n");
    let row = writer.read();
    assert_eq!(text_of(&row), &[b'a', 0xfe, b'b']);
}

#[test]
fn backspace_rubs_out_the_last_cell() {
    let mut writer = Writer::new(default_colors());
    writer.write_string("abc");
    writer.backspace();
    writer.write_byte(b'\n');
    let row = writer.read();
    assert_eq!(text_of(&row), b"ab");
}

#[test]
fn clear_screen_blanks_every_row() {
    let mut writer = Writer::new(default_colors());
    writer.write_string("some text\n");
    writer.clear_screen();
    let row = writer.read();
    assert_eq!(text_of(&row), b"");
}
