use vga_buffer::screen::glyph;
use vga_buffer::screen::index_memory_block;
use vga_buffer::screen::is_printable;
use vga_buffer::screen::BUFFER_ADDRESS;
use vga_buffer::screen::BUFFER_HEIGHT;
use vga_buffer::screen::BUFFER_SIZE;
use vga_buffer::screen::BUFFER_WIDTH;
use vga_buffer::screen::NEWLINE;

#[test]
fn grid_is_25_rows_of_80_columns_at_the_text_mode_address() {
    assert_eq!(BUFFER_HEIGHT, 25);
    assert_eq!(BUFFER_WIDTH, 80);
    assert_eq!(BUFFER_SIZE, 2000);
    assert_eq!(BUFFER_ADDRESS, 0xb8000);
    assert_eq!(NEWLINE, b'\n');
}

#[test]
fn index_is_row_major() {
    assert_eq!(index_memory_block(0, 0), 0);
    assert_eq!(index_memory_block(0, 79), 79);
    assert_eq!(index_memory_block(1, 0), 80);
    assert_eq!(index_memory_block(3, 7), 247);
    assert_eq!(index_memory_block(24, 0), 1920);
    assert_eq!(index_memory_block(24, 79), 1999);
}

#[test]
fn index_covers_the_grid_once() {
    let mut next = 0;
    for row in 0..BUFFER_HEIGHT {
        for column in 0..BUFFER_WIDTH {
            assert_eq!(index_memory_block(row, column), next);
            next += 1;
        }
    }
    assert_eq!(next, BUFFER_SIZE);
}

#[test]
fn printable_range_is_space_to_tilde() {
    assert!(is_printable(0x20));
    assert!(is_printable(b'A'));
    assert!(is_printable(0x7e));
    assert!(!is_printable(0x1f));
    assert!(!is_printable(0x7f));
    assert!(!is_printable(0x00));
    assert!(!is_printable(0xff));
    assert!(!is_printable(b'\n'));
    assert!(!is_printable(0xfe));
}

#[test]
fn glyph_keeps_printable_bytes_and_replaces_the_others() {
    for byte in 0..=255u8 {
        if (0x20..=0x7e).contains(&byte) {
            assert_eq!(glyph(byte), byte);
        } else {
            assert_eq!(glyph(byte), 0xfe);
        }
    }
}
