use core::fmt::Write;
use vga_buffer::cell::ScreenChar;
use vga_buffer::cell::VolatileScreenChar;
use vga_buffer::color::Color;
use vga_buffer::color::ColorCode;
use vga_buffer::screen::BUFFER_HEIGHT;
use vga_buffer::screen::BUFFER_SIZE;
use vga_buffer::screen::BUFFER_WIDTH;
use vga_buffer::writer::Writer;
use volatile::Volatile;

const LAST_ROW: usize = BUFFER_HEIGHT - 1;

/// Ordinary memory in the shape of the video memory, each cell numbered so
/// that every row can be told from the others.
fn numbered_memory() -> &'static mut [VolatileScreenChar; BUFFER_SIZE] {
    let cells: Vec<VolatileScreenChar> = (0..BUFFER_SIZE)
        .map(|index| Volatile::new([b'a' + (index / BUFFER_WIDTH) as u8, (index % BUFFER_WIDTH) as u8]))
        .collect();
    let boxed: Box<[VolatileScreenChar; BUFFER_SIZE]> = match cells.into_boxed_slice().try_into() {
        Ok(boxed) => boxed,
        Err(_) => unreachable!(),
    };
    Box::leak(boxed)
}

fn numbered_cell(row: usize, column: usize) -> ScreenChar {
    ScreenChar { ascii_char: b'a' + row as u8, color_code: ColorCode(column as u8) }
}

fn green_writer() -> Writer {
    Writer::new(Color::Green, Color::Black, numbered_memory())
}

fn green(ascii_char: u8) -> ScreenChar {
    ScreenChar { ascii_char, color_code: ColorCode(0x02) }
}

fn row_of(writer: &Writer, row: usize) -> Vec<ScreenChar> {
    (0..BUFFER_WIDTH).map(|column| writer.screen_char(row, column)).collect()
}

fn numbered_row(row: usize) -> Vec<ScreenChar> {
    (0..BUFFER_WIDTH).map(|column| numbered_cell(row, column)).collect()
}

#[test]
fn new_writer_leaves_the_screen_as_it_is() {
    let writer = Writer::new(Color::Yellow, Color::Red, numbered_memory());
    assert_eq!(writer.column_position(), 0);
    assert_eq!(writer.color_code(), ColorCode(0x4e));
    for row in 0..BUFFER_HEIGHT {
        assert_eq!(row_of(&writer, row), numbered_row(row));
    }
}

#[test]
fn first_byte_lands_at_the_start_of_the_last_row() {
    let mut writer = green_writer();
    writer.write_byte(b'H');
    assert_eq!(writer.column_position(), 1);
    assert_eq!(writer.screen_char(LAST_ROW, 0), green(b'H'));
    assert_eq!(writer.screen_char(LAST_ROW, 1), numbered_cell(LAST_ROW, 1));
    for row in 0..LAST_ROW {
        assert_eq!(row_of(&writer, row), numbered_row(row));
    }
}

#[test]
fn bytes_follow_each_other_in_the_last_row() {
    let mut writer = green_writer();
    writer.write_byte(b'a');
    writer.write_byte(b'~');
    writer.write_byte(b' ');
    assert_eq!(writer.column_position(), 3);
    assert_eq!(writer.screen_char(LAST_ROW, 0), green(b'a'));
    assert_eq!(writer.screen_char(LAST_ROW, 1), green(b'~'));
    assert_eq!(writer.screen_char(LAST_ROW, 2), green(b' '));
    assert_eq!(writer.screen_char(LAST_ROW, 3), numbered_cell(LAST_ROW, 3));
}

#[test]
fn column_position_stays_inside_the_row() {
    let mut writer = green_writer();
    for round in 0..5000usize {
        writer.write_byte((round % 256) as u8);
        assert!(writer.column_position() < BUFFER_WIDTH);
    }
}

#[test]
fn full_row_wraps_with_exactly_one_scroll() {
    let mut writer = green_writer();
    for count in 0..BUFFER_WIDTH - 1 {
        writer.write_byte(b'0' + (count % 10) as u8);
    }
    assert_eq!(writer.column_position(), BUFFER_WIDTH - 1);
    for row in 0..LAST_ROW {
        assert_eq!(row_of(&writer, row), numbered_row(row));
    }
    let mut filled = row_of(&writer, LAST_ROW);
    for count in 0..BUFFER_WIDTH - 1 {
        assert_eq!(filled[count], green(b'0' + (count % 10) as u8));
    }
    assert_eq!(filled[BUFFER_WIDTH - 1], numbered_cell(LAST_ROW, BUFFER_WIDTH - 1));

    writer.write_byte(b'X');

    assert_eq!(writer.column_position(), 1);
    for row in 0..LAST_ROW - 1 {
        assert_eq!(row_of(&writer, row), numbered_row(row + 1));
    }
    assert_eq!(row_of(&writer, LAST_ROW - 1), filled);
    filled = row_of(&writer, LAST_ROW);
    assert_eq!(filled[0], green(b'X'));
    for column in 1..BUFFER_WIDTH {
        assert_eq!(filled[column], green(b' '));
    }
}

#[test]
fn newline_moves_every_row_up_and_drops_the_first() {
    let mut writer = green_writer();
    writer.write_string("abc");
    let last = row_of(&writer, LAST_ROW);
    writer.write_byte(b'\n');
    assert_eq!(writer.column_position(), 0);
    for row in 0..LAST_ROW - 1 {
        assert_eq!(row_of(&writer, row), numbered_row(row + 1));
    }
    assert_eq!(row_of(&writer, LAST_ROW - 1), last);
    assert_eq!(row_of(&writer, LAST_ROW), vec![green(b' '); BUFFER_WIDTH]);
    for row in 0..BUFFER_HEIGHT {
        assert!(!row_of(&writer, row).contains(&numbered_cell(0, 1)));
    }
}

#[test]
fn newline_at_the_first_column_still_scrolls() {
    let mut writer = green_writer();
    writer.write_byte(b'\n');
    writer.write_byte(b'\n');
    assert_eq!(writer.column_position(), 0);
    for row in 0..LAST_ROW - 1 {
        assert_eq!(row_of(&writer, row), numbered_row(row + 2));
    }
    assert_eq!(row_of(&writer, LAST_ROW - 1), vec![green(b' '); BUFFER_WIDTH]);
    assert_eq!(row_of(&writer, LAST_ROW), vec![green(b' '); BUFFER_WIDTH]);
}

#[test]
fn as_many_newlines_as_rows_blank_the_screen() {
    let mut writer = Writer::new(Color::Write, Color::Blue, numbered_memory());
    for _ in 0..BUFFER_HEIGHT {
        writer.write_byte(b'\n');
    }
    let blank = ScreenChar { ascii_char: b' ', color_code: ColorCode(0x1f) };
    for row in 0..BUFFER_HEIGHT {
        assert_eq!(row_of(&writer, row), vec![blank; BUFFER_WIDTH]);
    }
}

#[test]
fn unprintable_bytes_show_the_placeholder() {
    for byte in [0x00u8, 0x7f, 0xff] {
        let mut writer = green_writer();
        writer.write_byte(byte);
        assert_eq!(writer.column_position(), 1);
        assert_eq!(writer.screen_char(LAST_ROW, 0), green(0xfe));
    }
    let mut writer = green_writer();
    for byte in [0x01u8, 0x09, 0x0d, 0x1f, 0x80, 0xfe] {
        writer.write_byte(byte);
    }
    for column in 0..6 {
        assert_eq!(writer.screen_char(LAST_ROW, column), green(0xfe));
    }
}

#[test]
fn scenario_green_on_black_ab_newline_c() {
    let mut writer = green_writer();
    writer.write_string("AB\nC");
    assert_eq!(writer.column_position(), 1);
    assert_eq!(writer.screen_char(LAST_ROW, 0), green(b'C'));
    for column in 1..BUFFER_WIDTH {
        assert_eq!(writer.screen_char(LAST_ROW, column), green(b' '));
    }
    assert_eq!(writer.screen_char(LAST_ROW - 1, 0), green(b'A'));
    assert_eq!(writer.screen_char(LAST_ROW - 1, 1), green(b'B'));
    for column in 2..BUFFER_WIDTH {
        assert_eq!(writer.screen_char(LAST_ROW - 1, column), numbered_cell(LAST_ROW, column));
    }
}

#[test]
fn string_is_written_byte_by_byte_in_order() {
    let mut by_string = green_writer();
    let mut by_byte = green_writer();
    let text = "Hello, World!\nsecond line\n\tthird";
    by_string.write_string(text);
    for byte in text.bytes() {
        by_byte.write_byte(byte);
    }
    assert_eq!(by_string.column_position(), by_byte.column_position());
    assert_eq!(by_string.column_position(), 6);
    for row in 0..BUFFER_HEIGHT {
        assert_eq!(row_of(&by_string, row), row_of(&by_byte, row));
    }
    assert_eq!(by_string.screen_char(LAST_ROW, 0), green(0xfe));
    assert_eq!(by_string.screen_char(LAST_ROW, 1), green(b't'));
    assert_eq!(by_string.screen_char(LAST_ROW - 1, 0), green(b's'));
    assert_eq!(by_string.screen_char(LAST_ROW - 2, 12), green(b'!'));
}

#[test]
fn every_byte_of_a_wide_character_shows_the_placeholder() {
    let mut writer = green_writer();
    writer.write_string("h\u{e9}\u{20ac}!");
    assert_eq!(writer.column_position(), 7);
    assert_eq!(writer.screen_char(LAST_ROW, 0), green(b'h'));
    for column in 1..6 {
        assert_eq!(writer.screen_char(LAST_ROW, column), green(0xfe));
    }
    assert_eq!(writer.screen_char(LAST_ROW, 6), green(b'!'));
}

#[test]
fn empty_string_changes_nothing() {
    let mut writer = green_writer();
    writer.write_string("");
    assert_eq!(writer.column_position(), 0);
    for row in 0..BUFFER_HEIGHT {
        assert_eq!(row_of(&writer, row), numbered_row(row));
    }
}

#[test]
fn long_string_wraps_after_79_characters() {
    let mut writer = green_writer();
    let text: String = (0..100usize).map(|count| (b'A' + (count % 26) as u8) as char).collect();
    writer.write_string(&text);
    assert_eq!(writer.column_position(), 100 - (BUFFER_WIDTH - 1));
    for column in 0..BUFFER_WIDTH - 1 {
        assert_eq!(writer.screen_char(LAST_ROW - 1, column), green(b'A' + (column % 26) as u8));
    }
    assert_eq!(
        writer.screen_char(LAST_ROW - 1, BUFFER_WIDTH - 1),
        numbered_cell(LAST_ROW, BUFFER_WIDTH - 1)
    );
    for column in 0..21 {
        assert_eq!(
            writer.screen_char(LAST_ROW, column),
            green(b'A' + ((column + BUFFER_WIDTH - 1) % 26) as u8)
        );
    }
    for column in 21..BUFFER_WIDTH {
        assert_eq!(writer.screen_char(LAST_ROW, column), green(b' '));
    }
}

#[test]
fn formatter_sink_writes_the_text_and_never_fails() {
    let mut writer = green_writer();
    assert!(writer.write_str("ok\n").is_ok());
    assert!(writer.write_str("42").is_ok());
    assert_eq!(writer.column_position(), 2);
    assert_eq!(writer.screen_char(LAST_ROW - 1, 0), green(b'o'));
    assert_eq!(writer.screen_char(LAST_ROW - 1, 1), green(b'k'));
    assert_eq!(writer.screen_char(LAST_ROW - 1, 2), numbered_cell(LAST_ROW, 2));
    assert_eq!(writer.screen_char(LAST_ROW, 0), green(b'4'));
    assert_eq!(writer.screen_char(LAST_ROW, 1), green(b'2'));
    assert_eq!(writer.screen_char(LAST_ROW, 2), green(b' '));
}

#[test]
fn rendered_values_go_through_the_sink() {
    let mut writer = green_writer();
    let text = format!("version {}.{}.{}", 0, 0, 1);
    assert!(writer.write_str(&text).is_ok());
    let expected = b"version 0.0.1";
    assert_eq!(writer.column_position(), expected.len());
    for (column, byte) in expected.iter().enumerate() {
        assert_eq!(writer.screen_char(LAST_ROW, column), green(*byte));
    }
}
