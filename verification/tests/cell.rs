use vga_buffer::cell::ScreenChar;
use vga_buffer::cell::VolatileScreenChar;
use vga_buffer::cell::BLANK;
use vga_buffer::cell::PLACEHOLDER;
use vga_buffer::color::Color;
use vga_buffer::color::ColorCode;

#[test]
fn glyph_constants() {
    assert_eq!(BLANK, b' ');
    assert_eq!(PLACEHOLDER, 0xfe);
}

#[test]
fn cell_lies_in_memory_character_first() {
    let cell = ScreenChar { ascii_char: b'A', color_code: ColorCode::new(Color::Green, Color::Black) };
    assert_eq!(cell.to_bytes(), [0x41, 0x02]);
    let cell = ScreenChar { ascii_char: 0xfe, color_code: ColorCode(0x4e) };
    assert_eq!(cell.to_bytes(), [0xfe, 0x4e]);
}

#[test]
fn cell_is_read_back_from_its_bytes() {
    assert_eq!(
        ScreenChar::from_bytes([0x43, 0x1f]),
        ScreenChar { ascii_char: b'C', color_code: ColorCode(0x1f) }
    );
    for ascii_char in [0x00u8, 0x20, 0x41, 0x7e, 0xfe, 0xff] {
        for attribute in [0x00u8, 0x02, 0x7f, 0x80, 0xff] {
            let cell = ScreenChar { ascii_char, color_code: ColorCode(attribute) };
            assert_eq!(ScreenChar::from_bytes(cell.to_bytes()), cell);
            assert_eq!(ScreenChar::from_bytes([ascii_char, attribute]).to_bytes(), [ascii_char, attribute]);
        }
    }
}

#[test]
fn blank_cell_is_a_space_in_the_given_colors() {
    let color_code = ColorCode::new(Color::Yellow, Color::Blue);
    assert_eq!(ScreenChar::blank(color_code), ScreenChar { ascii_char: b' ', color_code });
}

#[test]
fn memory_cell_is_two_bytes_without_padding() {
    assert_eq!(std::mem::size_of::<VolatileScreenChar>(), 2);
    assert_eq!(std::mem::align_of::<VolatileScreenChar>(), 1);
    assert_eq!(std::mem::size_of::<[VolatileScreenChar; 2000]>(), 4000);
}
