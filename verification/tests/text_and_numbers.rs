use lib::progress_bar::progress_bar::progress_bar;
use lib::string::string::String as SmallString;
use lib::text::fixed_string::FixedString;
use lib::text::number::{format_decimal, format_hex};
use lib::vga_buffer::buffer::{ScreenChar, Writer, REPLACEMENT_BYTE};
use lib::vga_buffer::color_byte::ColorCode;

#[test]
fn formats_decimal_numbers() {
    assert_eq!(format_decimal(0), b"0".to_vec());
    assert_eq!(format_decimal(7), b"7".to_vec());
    assert_eq!(format_decimal(1024), b"1024".to_vec());
    assert_eq!(format_decimal(u64::MAX), b"18446744073709551615".to_vec());
}

#[test]
fn formats_hex_numbers() {
    assert_eq!(format_hex(0), b"0".to_vec());
    assert_eq!(format_hex(0xdead_beef), b"deadbeef".to_vec());
    assert_eq!(format_hex(u64::MAX), b"ffffffffffffffff".to_vec());
}

#[test]
fn fixed_string_keeps_ascii_and_capacity() {
    let mut value = FixedString::<4>::new();
    value.push_ascii_byte(0x41);
    value.push_ascii_byte(0xc3);
    value.push_str("bcdef");
    assert_eq!(value.as_str(), "Abcd");
}

#[test]
fn fixed_string_default_is_empty() {
    let value: FixedString<8> = Default::default();
    assert_eq!(value.as_str(), "");
}

#[test]
fn small_string_cuts_at_capacity() {
    let long = "0123456789".repeat(7);
    let s = SmallString::from_str(&long);
    assert_eq!(s.as_bytes().len(), 64);
    assert_eq!(s.as_str(), Some(&long[..64]));
}

#[test]
fn small_string_concatenates() {
    let a = SmallString::from_str("Oxid ");
    let b = SmallString::from_str("kernel");
    let c = a.concat(&b);
    assert_eq!(c.as_str(), Some("Oxid kernel"));

    let mut d = SmallString::new();
    d.push_str("ab");
    d.push_str("cd");
    assert_eq!(d.as_bytes(), b"abcd");
}

#[test]
fn small_string_cut_inside_a_character_is_not_a_str() {
    let text = format!("{}\u{e9}", "a".repeat(63));
    let s = SmallString::from_str(&text);
    assert_eq!(s.as_bytes().len(), 64);
    assert_eq!(s.as_str(), None);
}

#[test]
fn draws_half_filled_progress_bar() {
    let line = progress_bar(10, 5, 20);
    let expected = format!("[{}{}] 50%\r", "|".repeat(10), " ".repeat(10));
    assert_eq!(line, expected.into_bytes());
}

#[test]
fn progress_bar_is_cut_at_sixty_four_cells() {
    let line = progress_bar(3, 3, 80);
    let expected = format!("[{}] 100%\r", "|".repeat(64));
    assert_eq!(line, expected.into_bytes());
}

#[test]
fn packs_vga_colours() {
    assert_eq!(ColorCode::new(0x0e, 0x01).0, 0x1e);
    assert_eq!(ColorCode::new(0x0f, 0x00).0, 0x0f);
    assert_eq!(ColorCode::new(0x02, 0x1f).0, 0xf2);
}

fn blank_cells(color: ColorCode) -> Vec<ScreenChar> {
    vec![ScreenChar { character: 0, color }; 2000]
}

#[test]
fn vga_writer_writes_into_bottom_row() {
    let color = ColorCode::new(0x0e, 0x00);
    let mut writer = Writer::new(color, blank_cells(color));
    writer.write_string("Hi\u{1f980}");
    let cells = writer.cells_view();
    assert_eq!(cells[1920].character, b'H');
    assert_eq!(cells[1921].character, b'i');
    for k in 0..4 {
        assert_eq!(cells[1922 + k].character, REPLACEMENT_BYTE);
    }
    assert_eq!(cells[1926].character, 0);
    assert_eq!(cells[1920].color, color);
}

#[test]
fn vga_writer_scrolls_on_newline() {
    let color = ColorCode::new(0x0e, 0x00);
    let mut writer = Writer::new(color, blank_cells(color));
    writer.write_string("ab\ncd");
    let cells = writer.cells_view();
    assert_eq!(cells[1840].character, b'a');
    assert_eq!(cells[1841].character, b'b');
    assert_eq!(cells[1920].character, b'c');
    assert_eq!(cells[1921].character, b'd');
    assert_eq!(cells[1922].character, 0);
}

#[test]
fn vga_writer_wraps_full_rows() {
    let color = ColorCode::new(0x0e, 0x00);
    let mut writer = Writer::new(color, blank_cells(color));
    writer.write_string(&"x".repeat(81));
    let cells = writer.cells_view();
    for k in 0..80 {
        assert_eq!(cells[1840 + k].character, b'x');
    }
    assert_eq!(cells[1920].character, b'x');
    assert_eq!(cells[1921].character, 0);
}
